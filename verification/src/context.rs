//! The context window of one source: its recent classification results,
//! from which a message that says "target" or names only a place gets what
//! it leaves unsaid.

use vstd::prelude::*;
use crate::dedup::{alive, is_alive, primary_of};
use crate::location::Proximity;
use crate::text::{contains_any, contains_free, find_any, find_free_str, WordClass};
use crate::threat_kind::ThreatKind;

verus! {

/// The most entries that a window holds.
pub const CONTEXT_CAPACITY: usize = 20;

/// Stems in an earlier message that tell a later "target" to be ballistic.
pub const BALLISTIC_CONTEXT: [&'static str; 6] = [
    "балістик",
    "баллистик",
    "іскандер",
    "искандер",
    "кінжал",
    "кинжал",
];

/// Stems in an earlier message that tell a later "target" to be a cruise
/// missile.
pub const CRUISE_CONTEXT: [&'static str; 6] = [
    "крилат",
    "крылат",
    "калібр",
    "калибр",
    "х-101",
    "x-101",
];

/// Stems in an earlier message that tell a later "target" to be a drone.
pub const SHAHED_CONTEXT: [&'static str; 7] = [
    "шахед",
    "shahed",
    "герань",
    "geran",
    "мопед",
    "дрон",
    "бпла",
];

/// Forms of "target" that are matched anywhere in a text.
pub const TARGET_TRIGGERS: [&'static str; 5] = ["ціль", "цілі", "цілей", "цель", "целей"];

/// Forms of "launch".
pub const LAUNCH_TRIGGERS: [&'static str; 3] = ["вихід", "виход", "выход"];

/// The text holds a word for a target. The Russian plural counts only where
/// no letter follows it, since it begins other words.
pub open spec fn target_trigger(text: Seq<char>) -> bool {
    contains_any(text, TARGET_TRIGGERS@) || contains_free(
        text,
        "цели"@,
        WordClass::Alphabetic,
        false,
    )
}

/// The text holds a word for a target or for a launch.
pub open spec fn has_trigger(text: Seq<char>) -> bool {
    target_trigger(text) || contains_any(text, LAUNCH_TRIGGERS@)
}

/// Whether the lowercase text holds a word for a target or for a launch.
pub fn mentions_trigger(lower: &[char]) -> (b: bool)
    ensures
        b == has_trigger(lower@),
{
    find_any(lower, &TARGET_TRIGGERS) || find_free_str(
        lower,
        "цели",
        WordClass::Alphabetic,
        false,
    ) || find_any(lower, &LAUNCH_TRIGGERS)
}

/// A kind that a "target" can stand for.
pub open spec fn is_target_kind(kind: ThreatKind) -> bool {
    kind == ThreatKind::Ballistic || kind == ThreatKind::CruiseMissile || kind
        == ThreatKind::Shahed || kind == ThreatKind::Hypersonic
}

/// A specific kind of the missile family.
pub open spec fn is_missile_family(kind: ThreatKind) -> bool {
    kind == ThreatKind::Ballistic || kind == ThreatKind::Hypersonic || kind
        == ThreatKind::CruiseMissile || kind == ThreatKind::GuidedBomb
}

/// A kind that tells of an active threat: any but `Other` and `AllClear`.
pub open spec fn is_active_kind(kind: ThreatKind) -> bool {
    kind != ThreatKind::Other && kind != ThreatKind::AllClear
}

/// The test of [`is_active_kind`].
pub open spec fn active_kinds() -> spec_fn(ThreatKind) -> bool {
    |k: ThreatKind| is_active_kind(k)
}

/// The first target kind of `threats`.
pub open spec fn first_target_kind(threats: Seq<ThreatKind>) -> Option<ThreatKind>
    decreases threats.len(),
{
    if threats.len() == 0 {
        None
    } else {
        match first_target_kind(threats.drop_last()) {
            Some(k) => Some(k),
            None => if is_target_kind(threats.last()) {
                Some(threats.last())
            } else {
                None
            },
        }
    }
}

/// The first kind of the missile family in `threats`.
pub open spec fn first_missile_family(threats: Seq<ThreatKind>) -> Option<ThreatKind>
    decreases threats.len(),
{
    if threats.len() == 0 {
        None
    } else {
        match first_missile_family(threats.drop_last()) {
            Some(k) => Some(k),
            None => if is_missile_family(threats.last()) {
                Some(threats.last())
            } else {
                None
            },
        }
    }
}

/// The kind that stands for an entry's active threats.
pub open spec fn leading_active(threats: Seq<ThreatKind>) -> Option<ThreatKind> {
    primary_of(threats.filter(active_kinds()))
}

/// One message as the window remembers it.
pub struct EntryModel {
    pub timestamp: u64,
    pub text: Seq<char>,
    pub threats: Seq<ThreatKind>,
    pub proximity: Proximity,
}

/// What an entry tells a later "target" to be: the kind whose context stems
/// its text holds, else the first target kind detected in it.
pub open spec fn entry_hint(e: EntryModel) -> Option<ThreatKind> {
    if contains_any(e.text, BALLISTIC_CONTEXT@) {
        Some(ThreatKind::Ballistic)
    } else if contains_any(e.text, CRUISE_CONTEXT@) {
        Some(ThreatKind::CruiseMissile)
    } else if contains_any(e.text, SHAHED_CONTEXT@) {
        Some(ThreatKind::Shahed)
    } else {
        first_target_kind(e.threats)
    }
}

/// The hint of the newest entry that has one.
pub open spec fn newest_hint(entries: Seq<EntryModel>) -> Option<ThreatKind>
    decreases entries.len(),
{
    if entries.len() == 0 {
        None
    } else {
        match entry_hint(entries.last()) {
            Some(k) => Some(k),
            None => newest_hint(entries.drop_last()),
        }
    }
}

/// The leading active kind of the newest entry that has one.
pub open spec fn newest_threat(entries: Seq<EntryModel>) -> Option<ThreatKind>
    decreases entries.len(),
{
    if entries.len() == 0 {
        None
    } else {
        match leading_active(entries.last().threats) {
            Some(k) => Some(k),
            None => newest_threat(entries.drop_last()),
        }
    }
}

/// The level of the newest entry that has one.
pub open spec fn newest_location(entries: Seq<EntryModel>) -> Proximity
    decreases entries.len(),
{
    if entries.len() == 0 {
        Proximity::Unmatched
    } else if entries.last().proximity != Proximity::Unmatched {
        entries.last().proximity
    } else {
        newest_location(entries.drop_last())
    }
}

/// The most recent missile-family sighting known so far, and `e` taken into
/// account: `e` takes its place only if it is strictly later.
pub open spec fn later_sighting(best: Option<(u64, ThreatKind)>, e: EntryModel) -> Option<
    (u64, ThreatKind),
> {
    match first_missile_family(e.threats) {
        None => best,
        Some(k) => match best {
            Some((at, _)) if at >= e.timestamp => best,
            _ => Some((e.timestamp, k)),
        },
    }
}

/// [`later_sighting`] over all entries, newest first.
pub open spec fn latest_sighting(best: Option<(u64, ThreatKind)>, entries: Seq<EntryModel>) -> Option<
    (u64, ThreatKind),
>
    decreases entries.len(),
{
    if entries.len() == 0 {
        best
    } else {
        latest_sighting(later_sighting(best, entries.last()), entries.drop_last())
    }
}

/// The test for an entry that is alive at `now`.
pub open spec fn live_at(now: u64, window: u64) -> spec_fn(EntryModel) -> bool {
    |e: EntryModel| alive(e.timestamp, now, window)
}

/// The last `cap` elements of `s`, or all of `s` if it has fewer.
pub open spec fn most_recent<A>(s: Seq<A>, cap: int) -> Seq<A> {
    if s.len() > cap {
        s.skip(s.len() - cap)
    } else {
        s
    }
}

/// The window of one source.
pub struct ContextModel {
    pub channel_id: i64,
    pub entries: Seq<EntryModel>,
    pub window: u64,
}

impl ContextModel {
    /// The window without the entries that have expired at `now`.
    pub open spec fn evicted(self, now: u64) -> ContextModel {
        ContextModel { entries: self.entries.filter(live_at(now, self.window)), ..self }
    }

    /// The window after a message was offered to it at `now`: expired
    /// entries leave; the message is appended if it has a threat or a level;
    /// the [`CONTEXT_CAPACITY`] most recent entries stay.
    pub open spec fn added(
        self,
        now: u64,
        text: Seq<char>,
        threats: Seq<ThreatKind>,
        proximity: Proximity,
    ) -> ContextModel {
        let live = self.evicted(now);
        if threats.len() == 0 && proximity == Proximity::Unmatched {
            live
        } else {
            let entry = EntryModel { timestamp: now, text, threats, proximity };
            ContextModel {
                entries: most_recent(live.entries.push(entry), CONTEXT_CAPACITY as int),
                ..live
            }
        }
    }

    /// What a message with a trigger word stands for at `now`: the newest
    /// hint of the live entries, a generic missile where there is none; and
    /// nothing where the message has no trigger word.
    pub open spec fn trigger_inference(self, now: u64, text: Seq<char>) -> Option<ThreatKind> {
        if !has_trigger(text) {
            None
        } else {
            match newest_hint(self.evicted(now).entries) {
                Some(k) => Some(k),
                None => Some(ThreatKind::Missile),
            }
        }
    }

    /// The newest active threat of the live entries.
    pub open spec fn recent_threat(self, now: u64) -> Option<ThreatKind> {
        newest_threat(self.evicted(now).entries)
    }

    /// The newest level of the live entries, a district taken down to its
    /// city.
    pub open spec fn recent_location(self, now: u64) -> Proximity {
        newest_location(self.evicted(now).entries).capped()
    }

    /// The window with the threats of its newest entry replaced.
    pub open spec fn amended(self, threats: Seq<ThreatKind>) -> ContextModel {
        if self.entries.len() == 0 {
            self
        } else {
            ContextModel {
                entries: self.entries.update(
                    self.entries.len() - 1,
                    EntryModel { threats, ..self.entries.last() },
                ),
                ..self
            }
        }
    }
}

/// One step of filtering `cur` in place against `before`: with the first
/// `i` elements of `cur` being the kept ones among the first `k` of
/// `before`, and the rest of both alike, keeping or removing `cur[i]` by the
/// test leads to the same state one element further.
pub proof fn lemma_retain_step<A>(before: Seq<A>, cur: Seq<A>, i: int, k: int, keep: spec_fn(A) -> bool)
    requires
        0 <= i < cur.len(),
        0 <= k < before.len(),
        cur.take(i) == before.take(k).filter(keep),
        cur.skip(i) == before.skip(k),
    ensures
        cur[i] == before[k],
        keep(before[k]) ==> cur.take(i + 1) == before.take(k + 1).filter(keep) && cur.skip(i + 1)
            == before.skip(k + 1),
        !keep(before[k]) ==> cur.remove(i).take(i) == before.take(k + 1).filter(keep)
            && cur.remove(i).skip(i) == before.skip(k + 1),
{
    assert(before[k] == before.skip(k)[0]);
    assert(before.take(k + 1) =~= before.take(k).push(before[k]));
    Seq::lemma_filter_push(before.take(k), before[k], keep);
    assert(before.skip(k + 1) =~= before.skip(k).skip(1));
}

/// Filtering in place has come to its end: `cur` is `before` filtered.
pub proof fn lemma_retain_done<A>(before: Seq<A>, cur: Seq<A>, k: int, keep: spec_fn(A) -> bool)
    requires
        0 <= k <= before.len(),
        cur.take(cur.len() as int) == before.take(k).filter(keep),
        cur.len() - cur.len() == before.len() - k,
    ensures
        cur == before.filter(keep),
{
    assert(before.take(k) =~= before);
}

/// Filtering twice by one test is filtering once.
pub proof fn lemma_filter_twice<A>(s: Seq<A>, keep: spec_fn(A) -> bool)
    ensures
        s.filter(keep).filter(keep) == s.filter(keep),
    decreases s.len(),
{
    reveal(Seq::filter);
    if s.len() > 0 {
        lemma_filter_twice(s.drop_last(), keep);
        if keep(s.last()) {
            Seq::lemma_filter_push(s.drop_last().filter(keep), s.last(), keep);
        }
    }
}

/// Evicting a window twice at one time is evicting it once.
pub proof fn lemma_evicted_twice(c: ContextModel, now: u64)
    ensures
        c.evicted(now).evicted(now) == c.evicted(now),
{
    lemma_filter_twice(c.entries, live_at(now, c.window));
}

/// One message as the window stores it.
pub struct ContextEntry {
    pub timestamp: u64,
    pub text_lower: Vec<char>,
    pub detected_threats: Vec<ThreatKind>,
    pub detected_proximity: Proximity,
}

impl View for ContextEntry {
    type V = EntryModel;

    open spec fn view(&self) -> EntryModel {
        EntryModel {
            timestamp: self.timestamp,
            text: self.text_lower@,
            threats: self.detected_threats@,
            proximity: self.detected_proximity,
        }
    }
}

/// The entries of a list, each by its view.
pub open spec fn entries_of(list: Seq<ContextEntry>) -> Seq<EntryModel> {
    Seq::new(list.len(), |i: int| list[i]@)
}

/// The first target kind of `threats`.
pub fn find_target_kind(threats: &[ThreatKind]) -> (r: Option<ThreatKind>)
    ensures
        r == first_target_kind(threats@),
{
    let mut r: Option<ThreatKind> = None;
    let mut i: usize = 0;
    while i < threats.len()
        invariant
            i <= threats.len(),
            r == first_target_kind(threats@.take(i as int)),
        decreases threats.len() - i,
    {
        proof {
            assert(threats@.take(i + 1).drop_last() =~= threats@.take(i as int));
        }
        let k = threats[i];
        if r.is_none() && (k == ThreatKind::Ballistic || k == ThreatKind::CruiseMissile || k
            == ThreatKind::Shahed || k == ThreatKind::Hypersonic) {
            r = Some(k);
        }
        i += 1;
    }
    proof {
        assert(threats@.take(threats@.len() as int) =~= threats@);
    }
    r
}

/// The first kind of the missile family in `threats`.
pub fn find_missile_family(threats: &[ThreatKind]) -> (r: Option<ThreatKind>)
    ensures
        r == first_missile_family(threats@),
{
    let mut r: Option<ThreatKind> = None;
    let mut i: usize = 0;
    while i < threats.len()
        invariant
            i <= threats.len(),
            r == first_missile_family(threats@.take(i as int)),
        decreases threats.len() - i,
    {
        proof {
            assert(threats@.take(i + 1).drop_last() =~= threats@.take(i as int));
        }
        let k = threats[i];
        if r.is_none() && (k == ThreatKind::Ballistic || k == ThreatKind::Hypersonic || k
            == ThreatKind::CruiseMissile || k == ThreatKind::GuidedBomb) {
            r = Some(k);
        }
        i += 1;
    }
    proof {
        assert(threats@.take(threats@.len() as int) =~= threats@);
    }
    r
}

/// The kind that stands for the active threats of `threats`.
pub fn find_leading_active(threats: &[ThreatKind]) -> (best: Option<ThreatKind>)
    ensures
        best == leading_active(threats@),
{
    let mut best: Option<ThreatKind> = None;
    let mut i: usize = 0;
    while i < threats.len()
        invariant
            i <= threats.len(),
            best == primary_of(threats@.take(i as int).filter(active_kinds())),
        decreases threats.len() - i,
    {
        let kind = threats[i];
        proof {
            assert(threats@.take(i + 1) =~= threats@.take(i as int).push(kind));
            Seq::lemma_filter_push(threats@.take(i as int), kind, active_kinds());
            let kept = threats@.take(i as int).filter(active_kinds());
            assert(kept.push(kind).drop_last() =~= kept);
        }
        if kind != ThreatKind::Other && kind != ThreatKind::AllClear {
            best = match best {
                Some(b) if b.specificity() > kind.specificity() => Some(b),
                _ => Some(kind),
            };
        }
        i += 1;
    }
    proof {
        assert(threats@.take(threats@.len() as int) =~= threats@);
    }
    best
}

impl ContextEntry {
    /// See [`entry_hint`].
    pub fn hint(&self) -> (r: Option<ThreatKind>)
        ensures
            r == entry_hint(self@),
    {
        let text = self.text_lower.as_slice();
        if find_any(text, &BALLISTIC_CONTEXT) {
            Some(ThreatKind::Ballistic)
        } else if find_any(text, &CRUISE_CONTEXT) {
            Some(ThreatKind::CruiseMissile)
        } else if find_any(text, &SHAHED_CONTEXT) {
            Some(ThreatKind::Shahed)
        } else {
            find_target_kind(self.detected_threats.as_slice())
        }
    }
}

/// Per-source window of recent messages.
pub struct ChannelContext {
    channel_id: i64,
    messages: Vec<ContextEntry>,
    window: u64,
}

impl View for ChannelContext {
    type V = ContextModel;

    closed spec fn view(&self) -> ContextModel {
        ContextModel {
            channel_id: self.channel_id,
            entries: entries_of(self.messages@),
            window: self.window,
        }
    }
}

impl ChannelContext {
    /// An empty window for the source `channel_id`, whose entries live for
    /// `window`.
    pub fn new(channel_id: i64, window: u64) -> (ctx: ChannelContext)
        ensures
            ctx@ == (ContextModel { channel_id, entries: Seq::empty(), window }),
    {
        let ctx = ChannelContext { channel_id, messages: Vec::new(), window };
        assert(ctx@.entries =~= Seq::empty());
        ctx
    }

    /// The source of the window.
    pub fn id(&self) -> (id: i64)
        ensures
            id == self@.channel_id,
    {
        self.channel_id
    }

    /// Whether the window holds no entry.
    pub fn is_empty(&self) -> (b: bool)
        ensures
            b == (self@.entries.len() == 0),
    {
        self.messages.len() == 0
    }

    /// Remove the entries that are `window` old or older.
    pub fn evict(&mut self, now: u64)
        ensures
            final(self)@ == old(self)@.evicted(now),
    {
        let ghost before = self@.entries;
        let ghost keep = live_at(now, self.window);
        let ghost mut k: int = 0;
        let mut i: usize = 0;
        while i < self.messages.len()
            invariant
                self.channel_id == old(self).channel_id,
                self.window == old(self).window,
                keep == live_at(now, self.window),
                before == old(self)@.entries,
                0 <= k <= before.len(),
                i <= self.messages.len(),
                self.messages.len() - i == before.len() - k,
                self@.entries.take(i as int) == before.take(k).filter(keep),
                self@.entries.skip(i as int) == before.skip(k),
            decreases self.messages.len() - i,
        {
            let ghost cur = self@.entries;
            proof {
                lemma_retain_step(before, cur, i as int, k, keep);
            }
            if is_alive(self.messages[i].timestamp, now, self.window) {
                i += 1;
            } else {
                let _ = self.messages.remove(i);
            }
            proof {
                k = k + 1;
            }
        }
        proof {
            lemma_retain_done(before, self@.entries, k, keep);
        }
    }

    /// Offer a message to the window, see [`ContextModel::added`].
    pub fn add(&mut self, now: u64, text_lower: Vec<char>, threats: Vec<ThreatKind>, proximity: Proximity)
        ensures
            final(self)@ == old(self)@.added(now, text_lower@, threats@, proximity),
    {
        self.evict(now);
        if threats.len() == 0 && proximity == Proximity::Unmatched {
            return ;
        }
        let ghost live = self@;
        let ghost entry = EntryModel { timestamp: now, text: text_lower@, threats: threats@, proximity };
        self.messages.push(
            ContextEntry {
                timestamp: now,
                text_lower,
                detected_threats: threats,
                detected_proximity: proximity,
            },
        );
        let ghost pushed = live.entries.push(entry);
        let ghost mut dropped: int = 0;
        while self.messages.len() > CONTEXT_CAPACITY
            invariant
                self.channel_id == live.channel_id,
                self.window == live.window,
                0 <= dropped <= pushed.len(),
                self.messages.len() == pushed.len() - dropped,
                dropped > 0 ==> self.messages.len() >= CONTEXT_CAPACITY,
                self@.entries == pushed.skip(dropped),
            decreases self.messages.len(),
        {
            let ghost cur = self@.entries;
            let _ = self.messages.remove(0);
            proof {
                assert(cur.remove(0) =~= pushed.skip(dropped + 1));
                dropped = dropped + 1;
            }
        }
        proof {
            assert(pushed.skip(0) =~= pushed);
        }
    }

    /// Infer what a message with a trigger word stands for, see
    /// [`ContextModel::trigger_inference`]. Expired entries leave first.
    pub fn infer_threat_from_triggers(&mut self, now: u64, lower: &[char]) -> (r: Option<ThreatKind>)
        ensures
            final(self)@ == old(self)@.evicted(now),
            r == old(self)@.trigger_inference(now, lower@),
    {
        self.evict(now);
        if !mentions_trigger(lower) {
            return None;
        }
        let ghost entries = self@.entries;
        let mut i: usize = self.messages.len();
        proof {
            assert(entries.take(entries.len() as int) =~= entries);
        }
        while i > 0
            invariant
                i <= self.messages.len(),
                self@ == old(self)@.evicted(now),
                has_trigger(lower@),
                entries == self@.entries,
                newest_hint(entries) == newest_hint(entries.take(i as int)),
            decreases i,
        {
            proof {
                assert(entries.take(i as int).drop_last() =~= entries.take(i - 1));
            }
            match self.messages[i - 1].hint() {
                Some(k) => {
                    return Some(k);
                },
                None => {},
            }
            i -= 1;
        }
        Some(ThreatKind::Missile)
    }

    /// Return the newest active threat of the window. Expired entries leave
    /// first.
    pub fn infer_recent_threat(&mut self, now: u64) -> (r: Option<ThreatKind>)
        ensures
            final(self)@ == old(self)@.evicted(now),
            r == old(self)@.recent_threat(now),
    {
        self.evict(now);
        let ghost entries = self@.entries;
        let mut i: usize = self.messages.len();
        proof {
            assert(entries.take(entries.len() as int) =~= entries);
        }
        while i > 0
            invariant
                i <= self.messages.len(),
                self@ == old(self)@.evicted(now),
                entries == self@.entries,
                newest_threat(entries) == newest_threat(entries.take(i as int)),
            decreases i,
        {
            proof {
                assert(entries.take(i as int).drop_last() =~= entries.take(i - 1));
            }
            match find_leading_active(self.messages[i - 1].detected_threats.as_slice()) {
                Some(k) => {
                    return Some(k);
                },
                None => {},
            }
            i -= 1;
        }
        None
    }

    /// Return the newest level of the window, a district taken down to its
    /// city. Expired entries leave first.
    pub fn infer_location(&mut self, now: u64) -> (p: Proximity)
        ensures
            final(self)@ == old(self)@.evicted(now),
            p == old(self)@.recent_location(now),
    {
        self.evict(now);
        let ghost entries = self@.entries;
        let mut i: usize = self.messages.len();
        proof {
            assert(entries.take(entries.len() as int) =~= entries);
        }
        while i > 0
            invariant
                i <= self.messages.len(),
                self@ == old(self)@.evicted(now),
                entries == self@.entries,
                newest_location(entries) == newest_location(entries.take(i as int)),
            decreases i,
        {
            proof {
                assert(entries.take(i as int).drop_last() =~= entries.take(i - 1));
            }
            let p = self.messages[i - 1].detected_proximity;
            if p != Proximity::Unmatched {
                return p.cap();
            }
            i -= 1;
        }
        Proximity::Unmatched
    }

    /// Takes the entries of this window that are alive at `now` into account
    /// in the search for the most recent missile-family sighting, newest
    /// entry first.
    pub fn latest_missile_family(&self, now: u64, start: Option<(u64, ThreatKind)>) -> (r: Option<
        (u64, ThreatKind),
    >)
        ensures
            r == latest_sighting(start, self@.evicted(now).entries),
    {
        let ghost entries = self@.entries;
        let ghost keep = live_at(now, self.window);
        let mut best = start;
        let mut i: usize = self.messages.len();
        proof {
            assert(entries.take(entries.len() as int) =~= entries);
        }
        while i > 0
            invariant
                i <= self.messages.len(),
                entries == self@.entries,
                keep == live_at(now, self.window),
                latest_sighting(best, entries.take(i as int).filter(keep)) == latest_sighting(
                    start,
                    entries.filter(keep),
                ),
            decreases i,
        {
            let msg = &self.messages[i - 1];
            proof {
                let shorter = entries.take(i - 1);
                assert(entries.take(i as int) =~= shorter.push(msg@));
                Seq::lemma_filter_push(shorter, msg@, keep);
                assert(shorter.filter(keep).push(msg@).drop_last() =~= shorter.filter(keep));
            }
            if is_alive(msg.timestamp, now, self.window) {
                match find_missile_family(msg.detected_threats.as_slice()) {
                    Some(k) => {
                        let stays = match best {
                            Some((at, _)) => at >= msg.timestamp,
                            None => false,
                        };
                        if !stays {
                            best = Some((msg.timestamp, k));
                        }
                    },
                    None => {},
                }
            }
            i -= 1;
        }
        best
    }

    /// Replace the threats of the newest entry, if there is one.
    pub fn amend_last(&mut self, threats: Vec<ThreatKind>)
        ensures
            final(self)@ == old(self)@.amended(threats@),
    {
        let n = self.messages.len();
        if n > 0 {
            self.messages[n - 1].detected_threats = threats;
            assert(self@.entries =~= old(self)@.amended(threats@).entries);
        }
    }
}

} // verus!
