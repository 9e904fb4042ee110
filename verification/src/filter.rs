//! The engine: it owns the deduplication cache, the context windows and the
//! status records, and turns each message into at most one alert text.
//!
//! All times are whole milliseconds on a monotonic clock.

use vstd::prelude::*;
use std::collections::hash_map::DefaultHasher;
use std::hash::{Hash, Hasher};
use std::time::Instant;
use vstd::slice::slice_to_vec;
use vstd::std_specs::hash::DefaultHasherAdditionalSpecFns;
use crate::classifier::{detect_lowered, detection};
use crate::clock::{instant_now, millis_since};
use crate::context::{
    is_active_kind, lemma_evicted_twice, lemma_retain_done, lemma_retain_step, ChannelContext,
    ContextModel,
};
use crate::dedup::{primary_kind, threat_signature, time_since, DedupCache, Sighting};
use crate::formatter::{alert_text, format_alert, format_negative_status};
use crate::location::{LocationConfig, Proximity};
use crate::model::{
    all_evicted, context_ids, context_of, first_index, global_sighting, global_specific,
    lemma_first_index,
    has_active, occupied, or_inferred, status_ids, tracked_in, with_context, Detection,
    FilterModel, Message, NegativeStatus, TriageModel,
};
use crate::reports::{has_live_movement_markers, is_informational_report, is_negative_update};
use crate::text::{lowercase, lowered_chars, to_chars};
use crate::threat_keywords::{is_urgent_lowered, nationwide, urgent};
use crate::threat_kind::ThreatKind;

verus! {

/// Result of classification in context.
pub struct ContextDetection {
    pub threats: Vec<ThreatKind>,
    pub proximity: Proximity,
    pub nationwide: bool,
}

impl View for ContextDetection {
    type V = Detection;

    open spec fn view(&self) -> Detection {
        Detection { threats: self.threats@, proximity: self.proximity, nationwide: self.nationwide }
    }
}

/// One message as the engine takes it in: its source, the source's title,
/// the text, and both in lowercase.
pub struct Incoming<'a> {
    pub channel_id: i64,
    pub title: &'a str,
    pub title_lower: &'a [char],
    pub text: &'a str,
    pub lower: &'a [char],
}

impl<'a> View for Incoming<'a> {
    type V = Message;

    open spec fn view(&self) -> Message {
        Message {
            channel_id: self.channel_id,
            title: self.title@,
            title_lower: self.title_lower@,
            text: self.text@,
            lower: self.lower@,
        }
    }
}

/// The characters of an alert text, if there is one.
pub open spec fn text_of(alert: Option<String>) -> Option<Seq<char>> {
    match alert {
        Some(s) => Some(s@),
        None => None,
    }
}

/// What was detected, if anything was, by its view.
pub open spec fn detection_of(det: Option<ContextDetection>) -> Option<Detection> {
    match det {
        Some(d) => Some(d@),
        None => None,
    }
}

/// What the engine makes of a message before a second opinion is asked.
pub enum Triage {
    /// The message is dealt with: the alert to forward, or none.
    Settled(Option<String>),
    /// The message would go on to deduplication with what was detected.
    Pending(ContextDetection),
}

impl View for Triage {
    type V = TriageModel;

    open spec fn view(&self) -> TriageModel {
        match self {
            Triage::Settled(alert) => TriageModel::Settled(text_of(*alert)),
            Triage::Pending(det) => TriageModel::Pending(det@),
        }
    }
}

/// The kinds of a verdict, if there is one.
pub open spec fn verdict_of(verdict: Option<Vec<ThreatKind>>) -> Option<Seq<ThreatKind>> {
    match verdict {
        Some(v) => Some(v@),
        None => None,
    }
}

/// The windows of a list, each by its view.
pub open spec fn contexts_of(list: Seq<ChannelContext>) -> Seq<ContextModel> {
    Seq::new(list.len(), |i: int| list[i]@)
}

/// Every window of `contexts` is free of entries that have expired at `now`.
pub open spec fn settled(contexts: Seq<ContextModel>, now: u64) -> bool {
    forall|i: int| 0 <= i < contexts.len() ==> (#[trigger] contexts[i]).evicted(now) == contexts[i]
}

/// Stateful filter: detects threats, checks location, deduplicates.
pub struct AlertFilter {
    pub location: LocationConfig,
    /// How long a cache entry lives after its last refresh.
    pub dedup_window: u64,
    /// How long an entry of a context window lives.
    pub context_window: u64,
    /// The least time between two urgent alerts forwarded for one source
    /// and one primary kind.
    pub urgent_same_channel_cooldown: u64,
    /// When `true`, messages that name a threat and match no configured
    /// place are forwarded too.
    pub forward_all_threats: bool,
    /// The least time between two status updates forwarded for one source.
    pub negative_status_cooldown: u64,
    cache: DedupCache,
    channel_contexts: Vec<ChannelContext>,
    negative_status_state: Vec<NegativeStatus>,
    started: Instant,
}

impl View for AlertFilter {
    type V = FilterModel;

    closed spec fn view(&self) -> FilterModel {
        FilterModel {
            location: self.location@,
            dedup_window: self.dedup_window,
            context_window: self.context_window,
            urgent_same_channel_cooldown: self.urgent_same_channel_cooldown,
            forward_all_threats: self.forward_all_threats,
            negative_status_cooldown: self.negative_status_cooldown,
            cache: self.cache@,
            contexts: contexts_of(self.channel_contexts@),
            negative: self.negative_status_state@,
        }
    }
}

/// The first position of the source `id` among the windows.
fn context_index(contexts: &Vec<ChannelContext>, id: i64) -> (r: Option<usize>)
    ensures
        match r {
            Some(i) => i < contexts.len() && first_index(
                context_ids(contexts_of(contexts@)),
                id,
            ) == Some(i as int) && contexts@[i as int]@.channel_id == id,
            None => first_index(context_ids(contexts_of(contexts@)), id) is None,
        },
{
    let ghost ids = context_ids(contexts_of(contexts@));
    let mut r: Option<usize> = None;
    let mut i: usize = 0;
    while i < contexts.len()
        invariant
            i <= contexts.len(),
            ids == context_ids(contexts_of(contexts@)),
            match r {
                Some(j) => j < i && first_index(ids.take(i as int), id) == Some(j as int)
                    && contexts@[j as int]@.channel_id == id,
                None => first_index(ids.take(i as int), id) is None,
            },
        decreases contexts.len() - i,
    {
        proof {
            assert(ids.take(i + 1).drop_last() =~= ids.take(i as int));
        }
        if r.is_none() && contexts[i].id() == id {
            r = Some(i);
        }
        i += 1;
    }
    proof {
        assert(ids.take(ids.len() as int) =~= ids);
    }
    r
}

/// The first position of the source `id` among the status records.
fn status_index(negative: &Vec<NegativeStatus>, id: i64) -> (r: Option<usize>)
    ensures
        match r {
            Some(i) => i < negative.len() && first_index(status_ids(negative@), id) == Some(
                i as int,
            ) && negative@[i as int].channel_id == id,
            None => first_index(status_ids(negative@), id) is None,
        },
{
    let ghost ids = status_ids(negative@);
    let mut r: Option<usize> = None;
    let mut i: usize = 0;
    while i < negative.len()
        invariant
            i <= negative.len(),
            ids == status_ids(negative@),
            match r {
                Some(j) => j < i && first_index(ids.take(i as int), id) == Some(j as int)
                    && negative@[j as int].channel_id == id,
                None => first_index(ids.take(i as int), id) is None,
            },
        decreases negative.len() - i,
    {
        proof {
            assert(ids.take(i + 1).drop_last() =~= ids.take(i as int));
        }
        if r.is_none() && negative[i].channel_id == id {
            r = Some(i);
        }
        i += 1;
    }
    proof {
        assert(ids.take(ids.len() as int) =~= ids);
    }
    r
}

/// Whether some kind of `threats` tells of an active threat.
pub fn any_active(threats: &[ThreatKind]) -> (b: bool)
    ensures
        b == has_active(threats@),
{
    let mut i: usize = 0;
    while i < threats.len()
        invariant
            i <= threats.len(),
            forall|k: int| 0 <= k < i ==> !is_active_kind(#[trigger] threats@[k]),
        decreases threats.len() - i,
    {
        if threats[i] != ThreatKind::AllClear && threats[i] != ThreatKind::Other {
            return true;
        }
        i += 1;
    }
    false
}

/// Removes the expired entries of every window, then the windows left
/// empty.
fn sweep_contexts(contexts: &mut Vec<ChannelContext>, now: u64)
    ensures
        contexts_of(final(contexts)@) == all_evicted(contexts_of(old(contexts)@), now).filter(
            occupied(),
        ),
        settled(contexts_of(final(contexts)@), now),
{
    let ghost before = contexts_of(contexts@);
    let mut j: usize = 0;
    while j < contexts.len()
        invariant
            j <= contexts.len(),
            contexts.len() == before.len(),
            forall|k: int| 0 <= k < j ==> contexts@[k]@ == before[k].evicted(now),
            forall|k: int| j <= k < contexts.len() ==> contexts@[k]@ == before[k],
        decreases contexts.len() - j,
    {
        contexts[j].evict(now);
        j += 1;
    }
    let ghost fresh = all_evicted(before, now);
    let ghost keep = occupied();
    let ghost mut k: int = 0;
    let mut i: usize = 0;
    proof {
        assert(contexts_of(contexts@) =~= fresh);
        assert forall|n: int| 0 <= n < fresh.len() implies (#[trigger] fresh[n]).evicted(now)
            == fresh[n] by {
            lemma_evicted_twice(before[n], now);
        }
    }
    while i < contexts.len()
        invariant
            fresh == all_evicted(before, now),
            keep == occupied(),
            0 <= k <= fresh.len(),
            i <= contexts.len(),
            contexts.len() - i == fresh.len() - k,
            contexts_of(contexts@).take(i as int) == fresh.take(k).filter(keep),
            contexts_of(contexts@).skip(i as int) == fresh.skip(k),
            settled(contexts_of(contexts@), now),
        decreases contexts.len() - i,
    {
        let ghost cur = contexts_of(contexts@);
        proof {
            lemma_retain_step(fresh, cur, i as int, k, keep);
        }
        if contexts[i].is_empty() {
            let _ = contexts.remove(i);
            assert(contexts_of(contexts@) =~= cur.remove(i as int));
        } else {
            i += 1;
        }
        proof {
            k = k + 1;
        }
    }
    proof {
        lemma_retain_done(fresh, contexts_of(contexts@), k, keep);
    }
}

/// Removes the status records of sources that have no window.
fn sweep_statuses(negative: &mut Vec<NegativeStatus>, contexts: &Vec<ChannelContext>)
    ensures
        final(negative)@ == old(negative)@.filter(tracked_in(contexts_of(contexts@))),
{
    let ghost before = negative@;
    let ghost keep = tracked_in(contexts_of(contexts@));
    let ghost mut k: int = 0;
    let mut i: usize = 0;
    while i < negative.len()
        invariant
            before == old(negative)@,
            keep == tracked_in(contexts_of(contexts@)),
            0 <= k <= before.len(),
            i <= negative.len(),
            negative.len() - i == before.len() - k,
            negative@.take(i as int) == before.take(k).filter(keep),
            negative@.skip(i as int) == before.skip(k),
        decreases negative.len() - i,
    {
        let ghost cur = negative@;
        proof {
            lemma_retain_step(before, cur, i as int, k, keep);
        }
        if context_index(contexts, negative[i].channel_id).is_some() {
            i += 1;
        } else {
            let _ = negative.remove(i);
        }
        proof {
            k = k + 1;
        }
    }
    proof {
        lemma_retain_done(before, negative@, k, keep);
    }
}

/// What hashing a string writes to a hasher, write by write.
pub uninterp spec fn hashed_writes(s: Seq<char>) -> Seq<Seq<u8>>;

/// Calls `Hash::hash` of `str` on the default hasher. The writes that reach
/// the hasher are taken to depend on the characters of `s` alone.
#[verifier::external_body]
fn hash_str(s: &str, state: &mut DefaultHasher)
    ensures
        final(state)@ == old(state)@ + hashed_writes(s@),
{
    s.hash(state)
}

/// The number that stands for a source known by its title alone: the
/// default hash of the title, read as a signed number.
pub open spec fn title_id(title: Seq<char>) -> i64 {
    DefaultHasher::spec_finish(Seq::<Seq<u8>>::empty() + hashed_writes(title)) as i64
}

/// The number that stands for a source known by its title alone.
pub fn id_of_title(title: &str) -> (id: i64)
    ensures
        id == title_id(title@),
{
    let mut state = DefaultHasher::new();
    hash_str(title, &mut state);
    state.finish() as i64
}

/// At some time `now`, the step for the message leads from `before` to
/// `after` and gives `alert`.
pub open spec fn steps_to(
    before: FilterModel,
    m: Message,
    after: FilterModel,
    alert: Option<Seq<char>>,
) -> bool {
    exists|now: u64| #[trigger] before.step(now, m) == (after, alert)
}

impl AlertFilter {
    /// An engine for the given location and settings, with nothing
    /// remembered.
    pub fn new(
        location: LocationConfig,
        dedup_window: u64,
        context_window: u64,
        urgent_same_channel_cooldown: u64,
        negative_status_cooldown: u64,
        forward_all_threats: bool,
    ) -> (filter: AlertFilter)
        ensures
            filter@ == (FilterModel {
                location: location@,
                dedup_window,
                context_window,
                urgent_same_channel_cooldown,
                forward_all_threats,
                negative_status_cooldown,
                cache: Map::empty(),
                contexts: Seq::empty(),
                negative: Seq::empty(),
            }),
    {
        let filter = AlertFilter {
            location,
            dedup_window,
            context_window,
            urgent_same_channel_cooldown,
            forward_all_threats,
            negative_status_cooldown,
            cache: DedupCache::new(),
            channel_contexts: Vec::new(),
            negative_status_state: Vec::new(),
            started: instant_now(),
        };
        assert(filter@.contexts =~= Seq::empty());
        filter
    }

    /// Evict what has expired at `now`, see [`FilterModel::swept`].
    pub fn evict(&mut self, now: u64)
        ensures
            final(self)@ == old(self)@.swept(now),
            settled(final(self)@.contexts, now),
    {
        self.cache.evict(now, self.dedup_window);
        sweep_contexts(&mut self.channel_contexts, now);
        sweep_statuses(&mut self.negative_status_state, &self.channel_contexts);
    }

    /// The position of the window of the source `channel_id`, which is
    /// created empty if the source has none.
    fn get_context(&mut self, channel_id: i64) -> (idx: usize)
        ensures
            idx < final(self).channel_contexts.len(),
            first_index(context_ids(final(self)@.contexts), channel_id) == Some(idx as int),
            match first_index(context_ids(old(self)@.contexts), channel_id) {
                Some(i) => idx == i,
                None => idx == old(self)@.contexts.len(),
            },
            final(self)@.contexts[idx as int] == context_of(
                old(self)@.contexts,
                channel_id,
                old(self)@.context_window,
            ),
            final(self)@ == (FilterModel {
                contexts: with_context(
                    old(self)@.contexts,
                    context_of(old(self)@.contexts, channel_id, old(self)@.context_window),
                ),
                ..old(self)@
            }),
    {
        match context_index(&self.channel_contexts, channel_id) {
            Some(i) => {
                assert(self@.contexts.update(i as int, self@.contexts[i as int])
                    =~= self@.contexts);
                i
            },
            None => {
                let ghost before = self@.contexts;
                let ctx = ChannelContext::new(channel_id, self.context_window);
                self.channel_contexts.push(ctx);
                proof {
                    let after = self@.contexts;
                    assert(after =~= before.push(ctx@));
                    assert(context_ids(after).drop_last() =~= context_ids(before));
                }
                self.channel_contexts.len() - 1
            },
        }
    }

    /// Infer the most recent specific missile-family threat across the live
    /// entries of all windows.
    pub fn infer_recent_global_specific_threat(&self, now: u64) -> (r: Option<ThreatKind>)
        ensures
            r == global_specific(self@.contexts, now),
    {
        let ghost contexts = self@.contexts;
        let mut best: Option<(u64, ThreatKind)> = None;
        let mut i: usize = 0;
        while i < self.channel_contexts.len()
            invariant
                i <= self.channel_contexts.len(),
                contexts == self@.contexts,
                best == global_sighting(contexts.take(i as int), now),
            decreases self.channel_contexts.len() - i,
        {
            proof {
                assert(contexts.take(i + 1).drop_last() =~= contexts.take(i as int));
            }
            best = self.channel_contexts[i].latest_missile_family(now, best);
            i += 1;
        }
        proof {
            assert(contexts.take(contexts.len() as int) =~= contexts);
        }
        match best {
            Some((_, k)) => Some(k),
            None => None,
        }
    }

    /// Run keyword detection and context inference for threats and
    /// location. The message is offered to its source's window whatever
    /// comes of it, so that later messages can draw on it.
    pub fn detect_with_context(&mut self, now: u64, m: &Incoming) -> (det: Option<ContextDetection>)
        ensures
            final(self)@ == old(self)@.classified(now, m@).0,
            detection_of(det) == old(self)@.classified(now, m@).1,
    {
        let ghost model = self@;
        let mut threats = detect_lowered(m.lower);
        let (mut proximity, nationwide) = self.location.resolve(m.lower, m.title_lower);
        let explicit_nonlocal = self.location.has_explicit_nonlocal_location(m.lower);
        let urgent = is_urgent_lowered(m.lower);
        let idx = self.get_context(m.channel_id);
        let ghost ctx = context_of(model.contexts, m.channel_id, model.context_window);
        let ghost opened = self@.contexts;

        if threats.len() == 0 {
            match self.channel_contexts[idx].infer_threat_from_triggers(now, m.lower) {
                Some(k) => {
                    threats.push(k);
                },
                None => {},
            }
        }
        assert(threats@ =~= or_inferred(
            detection(m@.lower),
            ctx.trigger_inference(now, m@.lower),
        ));
        let ghost mid = self.channel_contexts@[idx as int]@;
        assert(mid.evicted(now) == ctx.evicted(now)) by {
            lemma_evicted_twice(ctx, now);
        }
        if threats.len() == 0 && (proximity != Proximity::Unmatched || urgent) {
            match self.channel_contexts[idx].infer_recent_threat(now) {
                Some(k) => {
                    threats.push(k);
                },
                None => {},
            }
        }
        assert(threats@ =~= model.local_threats(now, m@));
        let ghost late = self.channel_contexts@[idx as int]@;
        assert(late.evicted(now) == ctx.evicted(now)) by {
            lemma_evicted_twice(mid, now);
        }
        if proximity == Proximity::Unmatched && !nationwide && !explicit_nonlocal && (
        threats.len() > 0 || urgent) {
            let inherited = self.channel_contexts[idx].infer_location(now);
            if inherited != Proximity::Unmatched {
                proximity = inherited;
            }
        }
        let ghost last = self.channel_contexts@[idx as int]@;
        assert(last.evicted(now) == ctx.evicted(now)) by {
            lemma_evicted_twice(late, now);
        }

        let stored = slice_to_vec(threats.as_slice());
        self.channel_contexts[idx].add(now, slice_to_vec(m.lower), stored, proximity);
        proof {
            let noted = ctx.added(now, m@.lower, threats@, proximity);
            lemma_first_index(context_ids(model.contexts), m@.channel_id);
            match first_index(context_ids(model.contexts), m@.channel_id) {
                Some(i) => {
                    assert(opened.update(i, noted) =~= model.contexts.update(i, noted));
                },
                None => {
                    assert(opened.update(idx as int, noted) =~= model.contexts.push(noted));
                },
            }
            assert(self@.contexts =~= model.noted(now, m@));
        }

        let lone_missile = threats.len() == 1 && threats[0] == ThreatKind::Missile;
        let lone_other = threats.len() == 1 && threats[0] == ThreatKind::Other
            && has_live_movement_markers(m.lower) && (proximity != Proximity::Unmatched
            || nationwide || urgent);
        proof {
            assert(lone_missile == (threats@ == seq![ThreatKind::Missile])) by {
                if lone_missile {
                    assert(threats@ =~= seq![ThreatKind::Missile]);
                }
            }
            assert((threats.len() == 1 && threats@[0] == ThreatKind::Other) == (threats@
                == seq![ThreatKind::Other])) by {
                if threats.len() == 1 && threats@[0] == ThreatKind::Other {
                    assert(threats@ =~= seq![ThreatKind::Other]);
                }
            }
        }
        if lone_missile || lone_other {
            match self.infer_recent_global_specific_threat(now) {
                Some(k) => {
                    threats = vec![k];
                },
                None => {},
            }
        }
        assert(threats@ == model.refined_threats(now, m@));
        if threats.len() == 0 {
            return None;
        }
        Some(ContextDetection { threats, proximity, nationwide })
    }

    /// Note that `threats` were seen on the source `channel_id`: an active
    /// threat opens the source's latch for status updates.
    pub fn on_active_threat_seen(&mut self, channel_id: i64, threats: &[ThreatKind])
        ensures
            final(self)@ == old(self)@.threat_seen(channel_id, threats@),
    {
        if any_active(threats) {
            match status_index(&self.negative_status_state, channel_id) {
                Some(i) => {
                    let record = self.negative_status_state[i];
                    self.negative_status_state[i] = NegativeStatus {
                        channel_id: record.channel_id,
                        latched_for_wave: false,
                        last_sent_at: record.last_sent_at,
                    };
                },
                None => {
                    self.negative_status_state.push(
                        NegativeStatus { channel_id, latched_for_wave: false, last_sent_at: None },
                    );
                },
            }
        }
    }

    /// If the threats are a lone all-clear, format it and forget the wave:
    /// cache, windows and status records. Returns the alert, or `None` to
    /// go on.
    pub fn try_all_clear(&mut self, threats: &[ThreatKind], channel_title: &str, text: &str) -> (r:
        Option<String>)
        ensures
            FilterModel::is_all_clear(threats@) ==> final(self)@ == old(self)@.cleared() && text_of(
                r,
            ) == Some(
                alert_text(
                    threats@,
                    Proximity::Unmatched,
                    channel_title@,
                    text@,
                    false,
                    false,
                ),
            ),
            !FilterModel::is_all_clear(threats@) ==> final(self)@ == old(self)@ && r is None,
    {
        if threats.len() == 1 && threats[0] == ThreatKind::AllClear {
            assert(threats@ =~= seq![ThreatKind::AllClear]);
            let alert = format_alert(threats, Proximity::Unmatched, channel_title, text, false, false);
            self.cache.clear();
            self.channel_contexts = Vec::new();
            self.negative_status_state = Vec::new();
            assert(self@.contexts =~= Seq::empty());
            return Some(alert);
        }
        None
    }

    /// Drop the cache entries that have expired at `now`, check urgency, run
    /// deduplication, refresh the cache, and format. Returns `None` when the
    /// message is suppressed.
    pub fn dedup_and_format(&mut self, now: u64, m: &Incoming, det: &ContextDetection) -> (r: Option<
        String,
    >)
        ensures
            final(self)@ == old(self)@.deduplicated(now, m@, det@).0,
            text_of(r) == old(self)@.deduplicated(now, m@, det@).1,
    {
        self.cache.evict(now, self.dedup_window);
        let urgent = is_urgent_lowered(m.lower);
        let primary = match primary_kind(det.threats.as_slice()) {
            Some(k) => k,
            None => {
                return None;
            },
        };
        let sighting = Sighting {
            channel_id: m.channel_id,
            proximity: det.proximity,
            signature: threat_signature(det.threats.as_slice()),
            nationwide: det.nationwide,
            urgent,
        };
        if !self.cache.judge(primary, sighting, now, self.urgent_same_channel_cooldown) {
            return None;
        }
        Some(
            format_alert(
                det.threats.as_slice(),
                det.proximity,
                m.title,
                m.text,
                urgent,
                det.nationwide,
            ),
        )
    }

    /// Handle a status update: forward it if its source has an active
    /// threat in its window, its latch is open and its cooldown has passed.
    fn handle_negative_status_update(&mut self, now: u64, m: &Incoming) -> (r: Option<String>)
        requires
            settled(old(self)@.contexts, now),
        ensures
            final(self)@ == old(self)@.status_reply(now, m@).0,
            text_of(r) == old(self)@.status_reply(now, m@).1,
    {
        let ghost model = self@;
        let idx = match context_index(&self.channel_contexts, m.channel_id) {
            Some(i) => i,
            None => {
                return None;
            },
        };
        let recent = self.channel_contexts[idx].infer_recent_threat(now);
        assert(self@.contexts =~= model.contexts);
        if recent.is_none() {
            return None;
        }
        let slot = status_index(&self.negative_status_state, m.channel_id);
        match slot {
            Some(i) => {
                let record = self.negative_status_state[i];
                if record.latched_for_wave {
                    return None;
                }
                match record.last_sent_at {
                    Some(at) => {
                        if time_since(now, at) < self.negative_status_cooldown {
                            return None;
                        }
                    },
                    None => {},
                }
            },
            None => {},
        }
        let (mut proximity, nationwide) = self.location.resolve(m.lower, m.title_lower);
        let explicit_nonlocal = self.location.has_explicit_nonlocal_location(m.lower);
        if proximity == Proximity::Unmatched && !nationwide && !explicit_nonlocal {
            let inherited = self.channel_contexts[idx].infer_location(now);
            assert(self@.contexts =~= model.contexts);
            if inherited != Proximity::Unmatched {
                proximity = inherited;
            }
        }
        let record = NegativeStatus {
            channel_id: m.channel_id,
            latched_for_wave: true,
            last_sent_at: Some(now),
        };
        match slot {
            Some(i) => {
                self.negative_status_state[i] = record;
            },
            None => {
                self.negative_status_state.push(record);
            },
        }
        Some(format_negative_status(proximity, nationwide, m.title, m.text))
    }

    /// React to a message on the state as it is, see [`FilterModel::reply`].
    fn reply(&mut self, now: u64, m: &Incoming) -> (r: Option<String>)
        requires
            settled(old(self)@.contexts, now),
        ensures
            final(self)@ == old(self)@.reply(now, m@).0,
            text_of(r) == old(self)@.reply(now, m@).1,
    {
        if is_informational_report(m.lower) {
            return None;
        }
        if is_negative_update(m.lower) {
            return self.handle_negative_status_update(now, m);
        }
        let det = match self.detect_with_context(now, m) {
            Some(d) => d,
            None => {
                return None;
            },
        };
        self.on_active_threat_seen(m.channel_id, det.threats.as_slice());
        match self.try_all_clear(det.threats.as_slice(), m.title, m.text) {
            Some(alert) => {
                return Some(alert);
            },
            None => {},
        }
        if det.proximity == Proximity::Unmatched && !det.nationwide && !self.forward_all_threats {
            return None;
        }
        self.dedup_and_format(now, m, &det)
    }

    /// One processing step at time `now` for a message whose lowercase
    /// forms are at hand. Returns the formatted alert when the message is to
    /// be forwarded, or `None` to suppress it.
    pub fn step(&mut self, now: u64, m: &Incoming) -> (r: Option<String>)
        ensures
            final(self)@ == old(self)@.step(now, m@).0,
            text_of(r) == old(self)@.step(now, m@).1,
    {
        self.evict(now);
        self.reply(now, m)
    }

    /// One processing step at time `now`. Returns the formatted alert when
    /// the message is to be forwarded, or `None` to suppress it.
    ///
    /// `channel_id` must be a stable identifier of the source, so that
    /// deduplication survives a change of its title.
    pub fn process_at(&mut self, now: u64, channel_id: i64, channel_title: &str, text: &str) -> (r:
        Option<String>)
        ensures
            old(self)@.step(
                now,
                Message {
                    channel_id,
                    title: channel_title@,
                    title_lower: lowercase(channel_title@),
                    text: text@,
                    lower: lowercase(text@),
                },
            ) == (final(self)@, text_of(r)),
    {
        let lower = lowered_chars(text);
        let title_lower = lowered_chars(channel_title);
        let m = Incoming {
            channel_id,
            title: channel_title,
            title_lower: title_lower.as_slice(),
            text,
            lower: lower.as_slice(),
        };
        self.step(now, &m)
    }

    /// The time on the engine's clock: the milliseconds since it was made.
    pub fn now(&self) -> (now: u64) {
        millis_since(&self.started)
    }

    /// Main entry point: one processing step at the present time of the
    /// engine's clock. Returns the formatted alert when the message is to be
    /// forwarded, or `None` to suppress it.
    pub fn process_with_id(&mut self, channel_id: i64, channel_title: &str, text: &str) -> (r: Option<
        String,
    >)
        ensures
            steps_to(
                old(self)@,
                Message {
                    channel_id,
                    title: channel_title@,
                    title_lower: lowercase(channel_title@),
                    text: text@,
                    lower: lowercase(text@),
                },
                final(self)@,
                text_of(r),
            ),
    {
        let now = self.now();
        self.process_at(now, channel_id, channel_title, text)
    }

    /// [`AlertFilter::process_with_id`] for a source that is known by its
    /// title alone: the hash of the title stands for the source.
    pub fn process(&mut self, channel_title: &str, text: &str) -> (r: Option<String>)
        ensures
            steps_to(
                old(self)@,
                Message {
                    channel_id: title_id(channel_title@),
                    title: channel_title@,
                    title_lower: lowercase(channel_title@),
                    text: text@,
                    lower: lowercase(text@),
                },
                final(self)@,
                text_of(r),
            ),
    {
        let id = id_of_title(channel_title);
        self.process_with_id(id, channel_title, text)
    }

    /// Determine the level and the nationwide flag of a lowercase text from
    /// a source with the given title.
    pub fn resolve_location(&self, lower: &str, channel_title: &str) -> (r: (Proximity, bool))
        ensures
            r.0 == self@.location.resolved_proximity(lower@, lowercase(channel_title@)),
            r.1 == nationwide(lower@),
    {
        let chars = to_chars(lower);
        let title_lower = lowered_chars(channel_title);
        self.location.resolve(chars.as_slice(), title_lower.as_slice())
    }

    /// The first half of a step with a second opinion, see
    /// [`FilterModel::triaged`].
    pub fn triage_step(&mut self, now: u64, m: &Incoming) -> (t: Triage)
        ensures
            final(self)@ == old(self)@.triaged(now, m@).0,
            t@ == old(self)@.triaged(now, m@).1,
    {
        self.evict(now);
        if is_informational_report(m.lower) {
            return Triage::Settled(None);
        }
        if is_negative_update(m.lower) {
            return Triage::Settled(self.handle_negative_status_update(now, m));
        }
        let det = match self.detect_with_context(now, m) {
            Some(d) => d,
            None => {
                return Triage::Settled(None);
            },
        };
        match self.try_all_clear(det.threats.as_slice(), m.title, m.text) {
            Some(alert) => {
                return Triage::Settled(Some(alert));
            },
            None => {},
        }
        if det.proximity == Proximity::Unmatched && !det.nationwide && !self.forward_all_threats {
            return Triage::Settled(None);
        }
        Triage::Pending(det)
    }

    /// Replace the threats of the newest entry of the source's window.
    fn amend_context(&mut self, channel_id: i64, threats: Vec<ThreatKind>)
        ensures
            final(self)@ == old(self)@.amended(channel_id, threats@),
    {
        match context_index(&self.channel_contexts, channel_id) {
            Some(i) => {
                let ghost before = self@.contexts;
                self.channel_contexts[i].amend_last(threats);
                assert(self@.contexts =~= before.update(i as int, before[i as int].amended(threats@)));
            },
            None => {},
        }
    }

    /// The second half of a step with a second opinion, see
    /// [`FilterModel::concluded`]. `verdict` is `None` where no second
    /// opinion was asked.
    pub fn conclude_step(
        &mut self,
        now: u64,
        m: &Incoming,
        pending: ContextDetection,
        verdict: Option<Vec<ThreatKind>>,
    ) -> (r: Option<String>)
        ensures
            final(self)@ == old(self)@.concluded(now, m@, pending@, verdict_of(verdict)).0,
            text_of(r) == old(self)@.concluded(now, m@, pending@, verdict_of(verdict)).1,
    {
        let det = match verdict {
            Some(v) => {
                if v.len() == 0 {
                    return None;
                }
                self.amend_context(m.channel_id, slice_to_vec(v.as_slice()));
                ContextDetection {
                    threats: v,
                    proximity: pending.proximity,
                    nationwide: pending.nationwide,
                }
            },
            None => pending,
        };
        self.on_active_threat_seen(m.channel_id, det.threats.as_slice());
        self.evict(now);
        self.dedup_and_format(now, m, &det)
    }

    /// The first half of a step with a second opinion at time `now`.
    pub fn triage_at(&mut self, now: u64, channel_id: i64, channel_title: &str, text: &str) -> (t:
        Triage)
        ensures
            old(self)@.triaged(
                now,
                Message {
                    channel_id,
                    title: channel_title@,
                    title_lower: lowercase(channel_title@),
                    text: text@,
                    lower: lowercase(text@),
                },
            ) == (final(self)@, t@),
    {
        let lower = lowered_chars(text);
        let title_lower = lowered_chars(channel_title);
        let m = Incoming {
            channel_id,
            title: channel_title,
            title_lower: title_lower.as_slice(),
            text,
            lower: lower.as_slice(),
        };
        self.triage_step(now, &m)
    }

    /// The second half of a step with a second opinion at time `now`.
    pub fn conclude_at(
        &mut self,
        now: u64,
        channel_id: i64,
        channel_title: &str,
        text: &str,
        pending: ContextDetection,
        verdict: Option<Vec<ThreatKind>>,
    ) -> (r: Option<String>)
        ensures
            old(self)@.concluded(
                now,
                Message {
                    channel_id,
                    title: channel_title@,
                    title_lower: lowercase(channel_title@),
                    text: text@,
                    lower: lowercase(text@),
                },
                pending@,
                verdict_of(verdict),
            ) == (final(self)@, text_of(r)),
    {
        let lower = lowered_chars(text);
        let title_lower = lowered_chars(channel_title);
        let m = Incoming {
            channel_id,
            title: channel_title,
            title_lower: title_lower.as_slice(),
            text,
            lower: lower.as_slice(),
        };
        self.conclude_step(now, &m, pending, verdict)
    }
}

} // verus!
