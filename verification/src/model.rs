//! The engine as a mathematical object: its state, and what each message
//! does to the state and gives back. The executable engine is proved
//! against these functions.

use vstd::prelude::*;
use crate::classifier::detection;
use crate::context::{is_active_kind, latest_sighting, ContextModel};
use crate::dedup::{
    admits, elapsed, judged, live_entries, primary_of, signature_of, DedupEntry, Sighting,
};
use crate::formatter::{alert_text, status_text};
use crate::location::{LocationModel, Proximity};
use crate::reports::{informational_report, live_movement, negative_update};
use crate::threat_keywords::{nationwide, urgent};
use crate::threat_kind::ThreatKind;

verus! {

/// What the engine remembers of the status updates of one source.
#[derive(Clone, Copy, Debug)]
pub struct NegativeStatus {
    pub channel_id: i64,
    /// A status update was forwarded in this wave and no new threat has
    /// been seen on the source since.
    pub latched_for_wave: bool,
    /// When a status update was last forwarded.
    pub last_sent_at: Option<u64>,
}

/// What classification makes of one message.
pub struct Detection {
    pub threats: Seq<ThreatKind>,
    pub proximity: Proximity,
    pub nationwide: bool,
}

/// One message as the engine receives it: its source, the source's title,
/// the text, and both in lowercase.
pub struct Message {
    pub channel_id: i64,
    pub title: Seq<char>,
    pub title_lower: Seq<char>,
    pub text: Seq<char>,
    pub lower: Seq<char>,
}

/// The first position of `id` in `ids`.
pub open spec fn first_index(ids: Seq<i64>, id: i64) -> Option<int>
    decreases ids.len(),
{
    if ids.len() == 0 {
        None
    } else {
        match first_index(ids.drop_last(), id) {
            Some(i) => Some(i),
            None => if ids.last() == id {
                Some(ids.len() - 1)
            } else {
                None
            },
        }
    }
}

/// What [`first_index`] finds is a position of `id` with no position of
/// `id` before it; where it finds nothing, `id` is not in `ids`.
pub proof fn lemma_first_index(ids: Seq<i64>, id: i64)
    ensures
        match first_index(ids, id) {
            Some(i) => 0 <= i < ids.len() && ids[i] == id && forall|j: int|
                0 <= j < i ==> ids[j] != id,
            None => forall|j: int| 0 <= j < ids.len() ==> ids[j] != id,
        },
    decreases ids.len(),
{
    if ids.len() > 0 {
        lemma_first_index(ids.drop_last(), id);
        match first_index(ids.drop_last(), id) {
            Some(i) => {
                assert forall|j: int| 0 <= j < i implies ids[j] != id by {
                    assert(ids.drop_last()[j] == ids[j]);
                }
            },
            None => {
                assert forall|j: int| 0 <= j < ids.len() - 1 implies ids[j] != id by {
                    assert(ids.drop_last()[j] == ids[j]);
                }
            },
        }
    }
}

/// The sources of the windows, in order.
pub open spec fn context_ids(contexts: Seq<ContextModel>) -> Seq<i64> {
    Seq::new(contexts.len(), |i: int| contexts[i].channel_id)
}

/// The sources of the status records, in order.
pub open spec fn status_ids(negative: Seq<NegativeStatus>) -> Seq<i64> {
    Seq::new(negative.len(), |i: int| negative[i].channel_id)
}

/// The windows, each without its expired entries.
pub open spec fn all_evicted(contexts: Seq<ContextModel>, now: u64) -> Seq<ContextModel> {
    Seq::new(contexts.len(), |i: int| contexts[i].evicted(now))
}

/// The test for a window that holds an entry.
pub open spec fn occupied() -> spec_fn(ContextModel) -> bool {
    |c: ContextModel| c.entries.len() > 0
}

/// The test for a status record whose source has a window in `contexts`.
pub open spec fn tracked_in(contexts: Seq<ContextModel>) -> spec_fn(NegativeStatus) -> bool {
    |n: NegativeStatus| first_index(context_ids(contexts), n.channel_id) is Some
}

/// The window of the source `id`: the one that `contexts` holds, or an empty
/// one with the given lifetime.
pub open spec fn context_of(contexts: Seq<ContextModel>, id: i64, window: u64) -> ContextModel {
    match first_index(context_ids(contexts), id) {
        Some(i) => contexts[i],
        None => ContextModel { channel_id: id, entries: Seq::empty(), window },
    }
}

/// `contexts` with `ctx` in the place of its source's window, or at the end
/// if the source had none.
pub open spec fn with_context(contexts: Seq<ContextModel>, ctx: ContextModel) -> Seq<ContextModel> {
    match first_index(context_ids(contexts), ctx.channel_id) {
        Some(i) => contexts.update(i, ctx),
        None => contexts.push(ctx),
    }
}

/// The status record of the source `id`, or a blank one.
pub open spec fn status_of(negative: Seq<NegativeStatus>, id: i64) -> NegativeStatus {
    match first_index(status_ids(negative), id) {
        Some(i) => negative[i],
        None => NegativeStatus { channel_id: id, latched_for_wave: false, last_sent_at: None },
    }
}

/// `negative` with `record` in the place of its source's record, or at the
/// end if the source had none.
pub open spec fn with_status(negative: Seq<NegativeStatus>, record: NegativeStatus) -> Seq<
    NegativeStatus,
> {
    match first_index(status_ids(negative), record.channel_id) {
        Some(i) => negative.update(i, record),
        None => negative.push(record),
    }
}

/// The most recent missile-family sighting in the live entries of all
/// windows: windows in order, each newest entry first, a later sighting
/// taking the place of an earlier one only if it is strictly later.
pub open spec fn global_sighting(contexts: Seq<ContextModel>, now: u64) -> Option<
    (u64, ThreatKind),
>
    decreases contexts.len(),
{
    if contexts.len() == 0 {
        None
    } else {
        latest_sighting(
            global_sighting(contexts.drop_last(), now),
            contexts.last().evicted(now).entries,
        )
    }
}

/// The kind of [`global_sighting`].
pub open spec fn global_specific(contexts: Seq<ContextModel>, now: u64) -> Option<ThreatKind> {
    match global_sighting(contexts, now) {
        Some((_, k)) => Some(k),
        None => None,
    }
}

/// Some kind of `threats` tells of an active threat.
pub open spec fn has_active(threats: Seq<ThreatKind>) -> bool {
    exists|i: int| 0 <= i < threats.len() && is_active_kind(#[trigger] threats[i])
}

/// `threats`, or the one kind `inferred` where there are none.
pub open spec fn or_inferred(threats: Seq<ThreatKind>, inferred: Option<ThreatKind>) -> Seq<
    ThreatKind,
> {
    if threats.len() == 0 {
        match inferred {
            Some(k) => seq![k],
            None => threats,
        }
    } else {
        threats
    }
}

/// What the engine makes of a message before a second opinion is asked.
pub enum TriageModel {
    /// The message is dealt with: the alert to forward, or none.
    Settled(Option<Seq<char>>),
    /// The message would go on to deduplication with what was detected.
    Pending(Detection),
}

/// The state of the engine.
pub struct FilterModel {
    pub location: LocationModel,
    /// How long a cache entry lives after its last refresh.
    pub dedup_window: u64,
    /// How long an entry of a context window lives.
    pub context_window: u64,
    /// The least time between two urgent alerts forwarded for one source.
    pub urgent_same_channel_cooldown: u64,
    /// Whether threats that match no configured place are forwarded too.
    pub forward_all_threats: bool,
    /// The least time between two status updates forwarded for one source.
    pub negative_status_cooldown: u64,
    pub cache: Map<ThreatKind, DedupEntry>,
    pub contexts: Seq<ContextModel>,
    pub negative: Seq<NegativeStatus>,
}

impl FilterModel {
    /// The state without what has expired at `now`: cache entries, window
    /// entries, windows left empty, and status records of sources left
    /// without a window.
    pub open spec fn swept(self, now: u64) -> FilterModel {
        let contexts = all_evicted(self.contexts, now).filter(occupied());
        FilterModel {
            cache: live_entries(self.cache, now, self.dedup_window),
            contexts,
            negative: self.negative.filter(tracked_in(contexts)),
            ..self
        }
    }

    /// The state at a wave boundary: nothing cached, no window, no status
    /// record.
    pub open spec fn cleared(self) -> FilterModel {
        FilterModel {
            cache: Map::empty(),
            contexts: Seq::empty(),
            negative: Seq::empty(),
            ..self
        }
    }

    /// The threats of a message after its source's window was asked: what
    /// the text names; else what a trigger word stands for; else, for a
    /// message with a level or urgency, the newest active threat.
    pub open spec fn local_threats(self, now: u64, m: Message) -> Seq<ThreatKind> {
        let ctx = context_of(self.contexts, m.channel_id, self.context_window);
        let named = or_inferred(detection(m.lower), ctx.trigger_inference(now, m.lower));
        let located = self.location.resolved_proximity(m.lower, m.title_lower)
            != Proximity::Unmatched;
        if named.len() == 0 && (located || urgent(m.lower)) {
            or_inferred(named, ctx.recent_threat(now))
        } else {
            named
        }
    }

    /// The level of a message after its source's window was asked: what
    /// text and title give; else, for a message with a threat or urgency
    /// that is not about another region nor the whole country, the newest
    /// level of the window.
    pub open spec fn local_proximity(self, now: u64, m: Message) -> Proximity {
        let ctx = context_of(self.contexts, m.channel_id, self.context_window);
        let own = self.location.resolved_proximity(m.lower, m.title_lower);
        let inherits = own == Proximity::Unmatched && !nationwide(m.lower)
            && !self.location.explicit_nonlocal(m.lower) && (self.local_threats(now, m).len() > 0
            || urgent(m.lower));
        if inherits && ctx.recent_location(now) != Proximity::Unmatched {
            ctx.recent_location(now)
        } else {
            own
        }
    }

    /// The windows after the message was offered to its source's window.
    pub open spec fn noted(self, now: u64, m: Message) -> Seq<ContextModel> {
        let ctx = context_of(self.contexts, m.channel_id, self.context_window);
        with_context(
            self.contexts,
            ctx.added(now, m.lower, self.local_threats(now, m), self.local_proximity(now, m)),
        )
    }

    /// The threats of a message after all windows were asked: a lone generic
    /// missile, or a lone `Other` in a message of live movement that has a
    /// level, the whole country or urgency, becomes the most recent specific
    /// missile-family kind of any source, if there is one.
    pub open spec fn refined_threats(self, now: u64, m: Message) -> Seq<ThreatKind> {
        let threats = self.local_threats(now, m);
        let proximity = self.local_proximity(now, m);
        let lone_missile = threats == seq![ThreatKind::Missile];
        let lone_other = threats == seq![ThreatKind::Other] && live_movement(m.lower) && (
        proximity != Proximity::Unmatched || nationwide(m.lower)
            || urgent(m.lower));
        if lone_missile || lone_other {
            match global_specific(self.noted(now, m), now) {
                Some(k) => seq![k],
                None => threats,
            }
        } else {
            threats
        }
    }

    /// Classification of a message in its context: the state with the
    /// message noted in its source's window, and what was detected, if any
    /// threat was.
    pub open spec fn classified(self, now: u64, m: Message) -> (FilterModel, Option<Detection>) {
        let next = FilterModel { contexts: self.noted(now, m), ..self };
        let threats = self.refined_threats(now, m);
        if threats.len() == 0 {
            (next, None)
        } else {
            (
                next,
                Some(
                    Detection {
                        threats,
                        proximity: self.local_proximity(now, m),
                        nationwide: nationwide(m.lower),
                    },
                ),
            )
        }
    }

    /// The state after `threats` were seen on the source `id`: an active
    /// threat opens the source's latch for status updates.
    pub open spec fn threat_seen(self, id: i64, threats: Seq<ThreatKind>) -> FilterModel {
        if has_active(threats) {
            FilterModel {
                negative: with_status(
                    self.negative,
                    NegativeStatus { latched_for_wave: false, ..status_of(self.negative, id) },
                ),
                ..self
            }
        } else {
            self
        }
    }

    /// Deduplication of a detected, located message. The cache entries that
    /// have expired at `now` leave first; the message is then forwarded,
    /// with the cache refreshed, if what is left of the cache admits it for
    /// its primary kind.
    pub open spec fn deduplicated(self, now: u64, m: Message, d: Detection) -> (
        FilterModel,
        Option<Seq<char>>,
    ) {
        let live = live_entries(self.cache, now, self.dedup_window);
        match primary_of(d.threats) {
            None => (FilterModel { cache: live, ..self }, None),
            Some(primary) => {
                let sighting = Sighting {
                    channel_id: m.channel_id,
                    proximity: d.proximity,
                    signature: signature_of(d.threats),
                    nationwide: d.nationwide,
                    urgent: urgent(m.lower),
                };
                let cooldown = self.urgent_same_channel_cooldown;
                let next = FilterModel {
                    cache: judged(live, primary, sighting, now, cooldown),
                    ..self
                };
                if admits(live, primary, sighting, now, cooldown) {
                    (
                        next,
                        Some(
                            alert_text(
                                d.threats,
                                d.proximity,
                                m.title,
                                m.text,
                                urgent(m.lower),
                                d.nationwide,
                            ),
                        ),
                    )
                } else {
                    (next, None)
                }
            },
        }
    }

    /// A detected message is a lone all-clear.
    pub open spec fn is_all_clear(threats: Seq<ThreatKind>) -> bool {
        threats == seq![ThreatKind::AllClear]
    }

    /// A detected message has no place for this observer: no level, not the
    /// whole country, and the engine does not forward everything.
    pub open spec fn out_of_area(self, d: Detection) -> bool {
        d.proximity == Proximity::Unmatched && !d.nationwide && !self.forward_all_threats
    }

    /// What the engine does with a message that may be an alert.
    pub open spec fn alert_reply(self, now: u64, m: Message) -> (FilterModel, Option<Seq<char>>) {
        let (noted, detected) = self.classified(now, m);
        match detected {
            None => (noted, None),
            Some(d) => {
                let seen = noted.threat_seen(m.channel_id, d.threats);
                if Self::is_all_clear(d.threats) {
                    (
                        seen.cleared(),
                        Some(
                            alert_text(
                                d.threats,
                                Proximity::Unmatched,
                                m.title,
                                m.text,
                                false,
                                false,
                            ),
                        ),
                    )
                } else if seen.out_of_area(d) {
                    (seen, None)
                } else {
                    seen.deduplicated(now, m, d)
                }
            },
        }
    }

    /// The source of a status update has an active threat in its window,
    /// its latch is open, and its cooldown has passed.
    pub open spec fn status_due(self, now: u64, id: i64) -> bool {
        let record = status_of(self.negative, id);
        &&& first_index(context_ids(self.contexts), id) is Some
        &&& context_of(self.contexts, id, self.context_window).recent_threat(now) is Some
        &&& !record.latched_for_wave
        &&& record.last_sent_at matches Some(at) ==> elapsed(now, at)
            >= self.negative_status_cooldown
    }

    /// The level shown with a status update: what text and title give; else,
    /// unless the text is about another region or the whole country, the
    /// newest level of the source's window.
    pub open spec fn status_proximity(self, now: u64, m: Message) -> Proximity {
        let own = self.location.resolved_proximity(m.lower, m.title_lower);
        let ctx = context_of(self.contexts, m.channel_id, self.context_window);
        let inherits = own == Proximity::Unmatched && !nationwide(m.lower)
            && !self.location.explicit_nonlocal(m.lower);
        if inherits && ctx.recent_location(now) != Proximity::Unmatched {
            ctx.recent_location(now)
        } else {
            own
        }
    }

    /// What the engine does with a status update: forwarded once per wave
    /// and source, where it is due.
    pub open spec fn status_reply(self, now: u64, m: Message) -> (FilterModel, Option<Seq<char>>) {
        if self.status_due(now, m.channel_id) {
            (
                FilterModel {
                    negative: with_status(
                        self.negative,
                        NegativeStatus {
                            channel_id: m.channel_id,
                            latched_for_wave: true,
                            last_sent_at: Some(now),
                        },
                    ),
                    ..self
                },
                Some(
                    status_text(
                        self.status_proximity(now, m),
                        nationwide(m.lower),
                        m.title,
                        m.text,
                    ),
                ),
            )
        } else {
            (self, None)
        }
    }

    /// What the engine does with a message on the state as it is, nothing
    /// swept: a recap is dropped, a status update handled as one, anything
    /// else as a possible alert.
    pub open spec fn reply(self, now: u64, m: Message) -> (FilterModel, Option<Seq<char>>) {
        if informational_report(m.lower) {
            (self, None)
        } else if negative_update(m.lower) {
            self.status_reply(now, m)
        } else {
            self.alert_reply(now, m)
        }
    }

    /// One processing step at time `now`: what has expired leaves, then the
    /// message is replied to.
    pub open spec fn step(self, now: u64, m: Message) -> (FilterModel, Option<Seq<char>>) {
        self.swept(now).reply(now, m)
    }

    /// The first half of a step with a second opinion: as [`Self::step`] up
    /// to deduplication, except that the source's latch is left alone. A
    /// message that would go on to deduplication is handed back.
    pub open spec fn triaged(self, now: u64, m: Message) -> (FilterModel, TriageModel) {
        let swept = self.swept(now);
        if informational_report(m.lower) {
            (swept, TriageModel::Settled(None))
        } else if negative_update(m.lower) {
            (swept.status_reply(now, m).0, TriageModel::Settled(swept.status_reply(now, m).1))
        } else {
            let (noted, detected) = swept.classified(now, m);
            match detected {
                None => (noted, TriageModel::Settled(None)),
                Some(d) => if Self::is_all_clear(d.threats) {
                    (
                        noted.cleared(),
                        TriageModel::Settled(
                            Some(
                                alert_text(
                                    d.threats,
                                    Proximity::Unmatched,
                                    m.title,
                                    m.text,
                                    false,
                                    false,
                                ),
                            ),
                        ),
                    )
                } else if noted.out_of_area(d) {
                    (noted, TriageModel::Settled(None))
                } else {
                    (noted, TriageModel::Pending(d))
                },
            }
        }
    }

    /// The state with the threats of the newest entry of the source's
    /// window replaced.
    pub open spec fn amended(self, id: i64, threats: Seq<ThreatKind>) -> FilterModel {
        match first_index(context_ids(self.contexts), id) {
            Some(i) => FilterModel {
                contexts: self.contexts.update(i, self.contexts[i].amended(threats)),
                ..self
            },
            None => self,
        }
    }

    /// The second half of a step with a second opinion. Without a verdict
    /// the detected threats go on as they are. An empty verdict suppresses
    /// the message. Any other verdict takes the place of the detected
    /// threats, in the source's window too. What goes on opens the source's
    /// latch and is deduplicated on the state swept at `now`.
    pub open spec fn concluded(
        self,
        now: u64,
        m: Message,
        d: Detection,
        verdict: Option<Seq<ThreatKind>>,
    ) -> (FilterModel, Option<Seq<char>>) {
        match verdict {
            Some(v) => if v.len() == 0 {
                (self, None)
            } else {
                self.amended(m.channel_id, v).threat_seen(m.channel_id, v).swept(
                    now,
                ).deduplicated(now, m, Detection { threats: v, ..d })
            },
            None => self.threat_seen(m.channel_id, d.threats).swept(now).deduplicated(now, m, d),
        }
    }
}

} // verus!
