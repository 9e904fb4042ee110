//! The deduplication cache: one entry per primary threat kind, which decides
//! whether a classified, located message is news or an echo.

use vstd::prelude::*;
use crate::location::Proximity;
use crate::threat_kind::ThreatKind;

verus! {

/// The time that has passed at `now` since `then`, on the monotonic clock;
/// nothing where `then` is not in the past.
pub open spec fn elapsed(now: u64, then: u64) -> u64 {
    if now >= then {
        (now - then) as u64
    } else {
        0
    }
}

/// Something stamped `then` is still alive at `now` in a window of the
/// given length.
pub open spec fn alive(then: u64, now: u64, window: u64) -> bool {
    elapsed(now, then) < window
}

/// The time that has passed at `now` since `then`.
pub fn time_since(now: u64, then: u64) -> (d: u64)
    ensures
        d == elapsed(now, then),
{
    if now >= then {
        now - then
    } else {
        0
    }
}

/// Whether something stamped `then` is still alive at `now`.
pub fn is_alive(then: u64, now: u64, window: u64) -> (b: bool)
    ensures
        b == alive(then, now, window),
{
    time_since(now, then) < window
}

/// The bit that stands for `kind` in a signature. `AllClear` and `Other`
/// have none.
pub open spec fn bit_of(kind: ThreatKind) -> u16 {
    match kind {
        ThreatKind::Ballistic => 1,
        ThreatKind::Hypersonic => 2,
        ThreatKind::CruiseMissile => 4,
        ThreatKind::GuidedBomb => 8,
        ThreatKind::Missile => 16,
        ThreatKind::Shahed => 32,
        ThreatKind::ReconDrone => 64,
        ThreatKind::Aircraft => 128,
        ThreatKind::AllClear => 0,
        ThreatKind::Other => 0,
    }
}

/// The union of the bits of all `threats`.
pub open spec fn signature_of(threats: Seq<ThreatKind>) -> u16
    decreases threats.len(),
{
    if threats.len() == 0 {
        0
    } else {
        signature_of(threats.drop_last()) | bit_of(threats.last())
    }
}

/// The kind that stands for a message: the one of highest rank, and among
/// several of that rank the one detected last. `None` for no kinds.
pub open spec fn primary_of(threats: Seq<ThreatKind>) -> Option<ThreatKind>
    decreases threats.len(),
{
    if threats.len() == 0 {
        None
    } else {
        match primary_of(threats.drop_last()) {
            Some(best) if best.rank() > threats.last().rank() => Some(best),
            _ => Some(threats.last()),
        }
    }
}

pub fn threat_bit(kind: ThreatKind) -> (bit: u16)
    ensures
        bit == bit_of(kind),
{
    match kind {
        ThreatKind::Ballistic => 1,
        ThreatKind::Hypersonic => 2,
        ThreatKind::CruiseMissile => 4,
        ThreatKind::GuidedBomb => 8,
        ThreatKind::Missile => 16,
        ThreatKind::Shahed => 32,
        ThreatKind::ReconDrone => 64,
        ThreatKind::Aircraft => 128,
        ThreatKind::AllClear => 0,
        ThreatKind::Other => 0,
    }
}

pub fn threat_signature(threats: &[ThreatKind]) -> (sig: u16)
    ensures
        sig == signature_of(threats@),
{
    let mut sig: u16 = 0;
    let mut i: usize = 0;
    while i < threats.len()
        invariant
            i <= threats.len(),
            sig == signature_of(threats@.take(i as int)),
        decreases threats.len() - i,
    {
        proof {
            assert(threats@.take(i + 1).drop_last() =~= threats@.take(i as int));
        }
        sig = sig | threat_bit(threats[i]);
        i += 1;
    }
    proof {
        assert(threats@.take(threats@.len() as int) =~= threats@);
    }
    sig
}

/// The kind that stands for a message, see [`primary_of`].
pub fn primary_kind(threats: &[ThreatKind]) -> (best: Option<ThreatKind>)
    ensures
        best == primary_of(threats@),
{
    let mut best: Option<ThreatKind> = None;
    let mut i: usize = 0;
    while i < threats.len()
        invariant
            i <= threats.len(),
            best == primary_of(threats@.take(i as int)),
        decreases threats.len() - i,
    {
        proof {
            assert(threats@.take(i + 1).drop_last() =~= threats@.take(i as int));
        }
        let kind = threats[i];
        best = match best {
            Some(b) if b.specificity() > kind.specificity() => Some(b),
            _ => Some(kind),
        };
        i += 1;
    }
    proof {
        assert(threats@.take(threats@.len() as int) =~= threats@);
    }
    best
}

/// What the cache remembers of the alerts forwarded for one primary kind.
#[derive(Clone, Copy, Debug)]
pub struct DedupEntry {
    /// When the entry was last refreshed.
    pub sent_at: u64,
    /// The nearest level forwarded so far.
    pub max_proximity: Proximity,
    /// Union of the signatures forwarded so far.
    pub seen_signature: u16,
    /// Whether an alert for the whole country has been forwarded.
    pub seen_nationwide: bool,
    /// Whether the alert forwarded last was urgent.
    pub was_urgent: bool,
    /// When an urgent alert was last forwarded.
    pub last_urgent_at: Option<u64>,
    /// The source of the alert forwarded last.
    pub last_channel_id: i64,
}

/// What deduplication looks at in a message.
#[derive(Clone, Copy, Debug)]
pub struct Sighting {
    pub channel_id: i64,
    pub proximity: Proximity,
    pub signature: u16,
    pub nationwide: bool,
    pub urgent: bool,
}

/// The sighting tells something that `entry` has not seen: a nearer level,
/// the whole country for the first time, a kind not seen beside this primary
/// kind, urgency after a calm alert, or urgency from the source of the last
/// alert once `cooldown` has passed since the last urgent one.
pub open spec fn novel(entry: DedupEntry, s: Sighting, now: u64, cooldown: u64) -> bool {
    ||| s.proximity.rank() > entry.max_proximity.rank()
    ||| s.nationwide && !entry.seen_nationwide
    ||| s.signature & !entry.seen_signature != 0
    ||| s.urgent && !entry.was_urgent
    ||| s.urgent && entry.last_channel_id == s.channel_id && (entry.last_urgent_at matches Some(
        at,
    ) ==> elapsed(now, at) >= cooldown)
}

/// The entry after the sighting was forwarded at `now`.
pub open spec fn refreshed(prev: Option<DedupEntry>, s: Sighting, now: u64) -> DedupEntry {
    match prev {
        Some(e) => DedupEntry {
            sent_at: now,
            max_proximity: e.max_proximity.nearer(s.proximity),
            seen_signature: e.seen_signature | s.signature,
            seen_nationwide: e.seen_nationwide || s.nationwide,
            was_urgent: s.urgent,
            last_urgent_at: if s.urgent {
                Some(now)
            } else {
                e.last_urgent_at
            },
            last_channel_id: s.channel_id,
        },
        None => DedupEntry {
            sent_at: now,
            max_proximity: s.proximity,
            seen_signature: s.signature,
            seen_nationwide: s.nationwide,
            was_urgent: s.urgent,
            last_urgent_at: if s.urgent {
                Some(now)
            } else {
                None
            },
            last_channel_id: s.channel_id,
        },
    }
}

/// The entries of `cache` that are alive at `now`.
pub open spec fn live_entries(
    cache: Map<ThreatKind, DedupEntry>,
    now: u64,
    window: u64,
) -> Map<ThreatKind, DedupEntry> {
    Map::new(
        |k: ThreatKind| cache.contains_key(k) && alive(cache[k].sent_at, now, window),
        |k: ThreatKind| cache[k],
    )
}

/// Dropping the expired entries twice at one time is dropping them once.
pub proof fn lemma_live_entries_twice(cache: Map<ThreatKind, DedupEntry>, now: u64, window: u64)
    ensures
        live_entries(live_entries(cache, now, window), now, window) == live_entries(
            cache,
            now,
            window,
        ),
{
    assert(live_entries(live_entries(cache, now, window), now, window) =~= live_entries(
        cache,
        now,
        window,
    ));
}

/// The entry for `kind`, if the cache has one.
pub open spec fn entry_for(cache: Map<ThreatKind, DedupEntry>, kind: ThreatKind) -> Option<
    DedupEntry,
> {
    if cache.contains_key(kind) {
        Some(cache[kind])
    } else {
        None
    }
}

/// A sighting for `primary` is forwarded: the cache has no entry for it, or
/// the sighting is novel to the entry.
pub open spec fn admits(
    cache: Map<ThreatKind, DedupEntry>,
    primary: ThreatKind,
    s: Sighting,
    now: u64,
    cooldown: u64,
) -> bool {
    !cache.contains_key(primary) || novel(cache[primary], s, now, cooldown)
}

/// The cache after a sighting for `primary` was judged: refreshed where it
/// was forwarded, untouched where it was suppressed.
pub open spec fn judged(
    cache: Map<ThreatKind, DedupEntry>,
    primary: ThreatKind,
    s: Sighting,
    now: u64,
    cooldown: u64,
) -> Map<ThreatKind, DedupEntry> {
    if admits(cache, primary, s, now, cooldown) {
        cache.insert(primary, refreshed(entry_for(cache, primary), s, now))
    } else {
        cache
    }
}

/// The slot of `kind` in the cache.
pub open spec fn slot_of(kind: ThreatKind) -> int {
    match kind {
        ThreatKind::Ballistic => 0,
        ThreatKind::Hypersonic => 1,
        ThreatKind::CruiseMissile => 2,
        ThreatKind::GuidedBomb => 3,
        ThreatKind::Missile => 4,
        ThreatKind::Shahed => 5,
        ThreatKind::ReconDrone => 6,
        ThreatKind::Aircraft => 7,
        ThreatKind::AllClear => 8,
        ThreatKind::Other => 9,
    }
}

/// The slot of `kind` in the cache.
pub fn slot(kind: ThreatKind) -> (i: usize)
    ensures
        i == slot_of(kind),
        i < 10,
{
    match kind {
        ThreatKind::Ballistic => 0,
        ThreatKind::Hypersonic => 1,
        ThreatKind::CruiseMissile => 2,
        ThreatKind::GuidedBomb => 3,
        ThreatKind::Missile => 4,
        ThreatKind::Shahed => 5,
        ThreatKind::ReconDrone => 6,
        ThreatKind::Aircraft => 7,
        ThreatKind::AllClear => 8,
        ThreatKind::Other => 9,
    }
}

/// The cache: at most one entry for each kind.
pub struct DedupCache {
    slots: [Option<DedupEntry>; 10],
}

impl View for DedupCache {
    type V = Map<ThreatKind, DedupEntry>;

    closed spec fn view(&self) -> Map<ThreatKind, DedupEntry> {
        Map::new(
            |k: ThreatKind| self.slots@[slot_of(k)] is Some,
            |k: ThreatKind| self.slots@[slot_of(k)]->0,
        )
    }
}

impl DedupCache {
    /// A cache without entries.
    pub fn new() -> (cache: DedupCache)
        ensures
            cache@ == Map::<ThreatKind, DedupEntry>::empty(),
    {
        let cache = DedupCache { slots: [None, None, None, None, None, None, None, None, None, None] };
        cache
    }

    /// Removes every entry.
    pub fn clear(&mut self)
        ensures
            final(self)@ == Map::<ThreatKind, DedupEntry>::empty(),
    {
        self.slots = [None, None, None, None, None, None, None, None, None, None];
    }

    /// The entry for `kind`.
    pub fn get(&self, kind: ThreatKind) -> (entry: Option<DedupEntry>)
        ensures
            entry == entry_for(self@, kind),
    {
        self.slots[slot(kind)]
    }

    /// Puts `entry` in the place of what the cache held for `kind`.
    pub fn insert(&mut self, kind: ThreatKind, entry: DedupEntry)
        ensures
            final(self)@ == old(self)@.insert(kind, entry),
    {
        let i = slot(kind);
        self.slots[i] = Some(entry);
    }

    /// Removes the entries that were refreshed `window` or longer ago.
    pub fn evict(&mut self, now: u64, window: u64)
        ensures
            final(self)@ == live_entries(old(self)@, now, window),
    {
        let mut i: usize = 0;
        while i < 10
            invariant
                i <= 10,
                forall|j: int|
                    0 <= j < i ==> self.slots@[j] == (match old(self).slots@[j] {
                        Some(e) if alive(e.sent_at, now, window) => Some(e),
                        _ => None,
                    }),
                forall|j: int| i <= j < 10 ==> self.slots@[j] == old(self).slots@[j],
            decreases 10 - i,
        {
            let expired = match self.slots[i] {
                Some(e) => !is_alive(e.sent_at, now, window),
                None => false,
            };
            if expired {
                self.slots[i] = None;
            }
            i += 1;
        }
    }

    /// Judges a sighting for `primary`: returns whether it is forwarded, and
    /// refreshes the entry if it is.
    pub fn judge(
        &mut self,
        primary: ThreatKind,
        sighting: Sighting,
        now: u64,
        cooldown: u64,
    ) -> (forward: bool)
        ensures
            forward == admits(old(self)@, primary, sighting, now, cooldown),
            final(self)@ == judged(old(self)@, primary, sighting, now, cooldown),
    {
        let prev = self.get(primary);
        let forward = match prev {
            None => true,
            Some(e) => {
                sighting.proximity.exceeds(e.max_proximity) || (sighting.nationwide
                    && !e.seen_nationwide) || (sighting.signature & !e.seen_signature) != 0 || (
                sighting.urgent && !e.was_urgent) || (sighting.urgent && e.last_channel_id
                    == sighting.channel_id && match e.last_urgent_at {
                    Some(at) => time_since(now, at) >= cooldown,
                    None => true,
                })
            },
        };
        if !forward {
            return false;
        }
        let entry = match prev {
            Some(e) => DedupEntry {
                sent_at: now,
                max_proximity: e.max_proximity.max(sighting.proximity),
                seen_signature: e.seen_signature | sighting.signature,
                seen_nationwide: e.seen_nationwide || sighting.nationwide,
                was_urgent: sighting.urgent,
                last_urgent_at: if sighting.urgent {
                    Some(now)
                } else {
                    e.last_urgent_at
                },
                last_channel_id: sighting.channel_id,
            },
            None => DedupEntry {
                sent_at: now,
                max_proximity: sighting.proximity,
                seen_signature: sighting.signature,
                seen_nationwide: sighting.nationwide,
                was_urgent: sighting.urgent,
                last_urgent_at: if sighting.urgent {
                    Some(now)
                } else {
                    None
                },
                last_channel_id: sighting.channel_id,
            },
        };
        self.insert(primary, entry);
        true
    }
}

} // verus!
