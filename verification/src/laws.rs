//! What holds of the engine on every state and every message.

use vstd::prelude::*;
use crate::classifier::{
    by_combo_alone, by_stem, combo_hit, detection, kept_in, raw_detection, suppressed,
    COMBO_ORDER, SCAN_ORDER,
};
use crate::context::{
    entry_hint, first_target_kind, has_trigger, is_target_kind, live_at, newest_hint,
    ContextModel, EntryModel, CONTEXT_CAPACITY,
};
use crate::dedup::{
    admits, alive, elapsed, entry_for, judged, lemma_live_entries_twice, live_entries,
    primary_of, refreshed, signature_of, DedupEntry, Sighting,
};
use crate::formatter::alert_text;
use crate::location::Proximity;
use crate::model::{
    all_evicted, context_ids, context_of, first_index, has_active, lemma_first_index, occupied,
    status_ids, status_of, tracked_in, with_context, with_status, Detection, FilterModel,
    Message, NegativeStatus, TriageModel,
};
use crate::reports::informational_report;
use crate::text::{contains_free, WordClass};
use crate::threat_keywords::{stem_hit, urgent};
use crate::threat_kind::ThreatKind;

verus! {

/// `later` tells nothing that `earlier` has not told: no nearer level, no
/// new kind, and the whole country only if `earlier` had it.
pub open spec fn repeats(later: Sighting, earlier: Sighting) -> bool {
    &&& later.proximity.rank() <= earlier.proximity.rank()
    &&& later.signature & !earlier.signature == 0
    &&& later.nationwide ==> earlier.nationwide
}

/// An entry refreshed by a sighting covers every sighting that repeats it.
proof fn lemma_refreshed_covers(prev: Option<DedupEntry>, first: Sighting, second: Sighting, now: u64)
    requires
        repeats(second, first),
    ensures
        second.proximity.rank() <= refreshed(prev, first, now).max_proximity.rank(),
        second.signature & !refreshed(prev, first, now).seen_signature == 0,
        second.nationwide ==> refreshed(prev, first, now).seen_nationwide,
{
    let b = second.signature;
    let f = first.signature;
    match prev {
        Some(e) => {
            let a = e.seen_signature;
            assert(b & !(a | f) == 0) by (bit_vector)
                requires
                    b & !f == 0,
            ;
        },
        None => {},
    }
}

/// A recap is suppressed whatever threat words it holds: the step gives no
/// alert and leaves the state as sweeping left it.
pub proof fn lemma_recap_suppressed(s: FilterModel, now: u64, m: Message)
    requires
        informational_report(m.lower),
    ensures
        s.step(now, m).1 is None,
        s.step(now, m).0 == s.swept(now),
{
}

/// An echo is suppressed: after a sighting was forwarded for a primary
/// kind, a calm sighting for that kind that repeats it is not forwarded
/// while the entry is alive.
pub proof fn lemma_echo_suppressed(
    cache: Map<ThreatKind, DedupEntry>,
    primary: ThreatKind,
    first: Sighting,
    second: Sighting,
    t1: u64,
    t2: u64,
    window: u64,
    cooldown: u64,
)
    requires
        admits(cache, primary, first, t1, cooldown),
        repeats(second, first),
        !second.urgent,
        alive(t1, t2, window),
    ensures
        !admits(
            live_entries(judged(cache, primary, first, t1, cooldown), t2, window),
            primary,
            second,
            t2,
            cooldown,
        ),
{
    lemma_refreshed_covers(entry_for(cache, primary), first, second, t1);
}

/// The same message from a second source is suppressed: where the engine
/// has forwarded a detection, the same detection from a calm message, at a
/// level not nearer, is not forwarded while the cache entry is alive.
pub proof fn lemma_duplicate_suppressed(
    s: FilterModel,
    t1: u64,
    t2: u64,
    m1: Message,
    m2: Message,
    d1: Detection,
    d2: Detection,
)
    requires
        s.deduplicated(t1, m1, d1).1 is Some,
        d2.threats == d1.threats,
        d2.proximity.rank() <= d1.proximity.rank(),
        d2.nationwide ==> d1.nationwide,
        !urgent(m2.lower),
        alive(t1, t2, s.dedup_window),
    ensures
        s.deduplicated(t1, m1, d1).0.deduplicated(t2, m2, d2).1 is None,
        s.deduplicated(t1, m1, d1).0.swept(t2).deduplicated(t2, m2, d2).1 is None,
{
    let primary = primary_of(d1.threats)->0;
    let sig = signature_of(d1.threats);
    let first = Sighting {
        channel_id: m1.channel_id,
        proximity: d1.proximity,
        signature: sig,
        nationwide: d1.nationwide,
        urgent: urgent(m1.lower),
    };
    let second = Sighting {
        channel_id: m2.channel_id,
        proximity: d2.proximity,
        signature: sig,
        nationwide: d2.nationwide,
        urgent: false,
    };
    assert(sig & !sig == 0) by (bit_vector);
    lemma_echo_suppressed(
        live_entries(s.cache, t1, s.dedup_window),
        primary,
        first,
        second,
        t1,
        t2,
        s.dedup_window,
        s.urgent_same_channel_cooldown,
    );
    lemma_live_entries_twice(s.deduplicated(t1, m1, d1).0.cache, t2, s.dedup_window);
}

/// A first sighting is forwarded: where the cache holds no entry for the
/// primary kind of a detection that is alive at `now`, because none was made
/// or because it has outlived the window, the alert is forwarded and the
/// entry is made anew from this message alone.
pub proof fn lemma_first_sighting_forwarded(s: FilterModel, now: u64, m: Message, d: Detection)
    requires
        primary_of(d.threats) is Some,
        !live_entries(s.cache, now, s.dedup_window).contains_key(primary_of(d.threats)->0),
    ensures
        s.deduplicated(now, m, d).1 == Some(
            alert_text(d.threats, d.proximity, m.title, m.text, urgent(m.lower), d.nationwide),
        ),
        s.deduplicated(now, m, d).0.cache.contains_key(primary_of(d.threats)->0),
        s.deduplicated(now, m, d).0.cache[primary_of(d.threats)->0] == (DedupEntry {
            sent_at: now,
            max_proximity: d.proximity,
            seen_signature: signature_of(d.threats),
            seen_nationwide: d.nationwide,
            was_urgent: urgent(m.lower),
            last_urgent_at: if urgent(m.lower) {
                Some(now)
            } else {
                None
            },
            last_channel_id: m.channel_id,
        }),
{
}

/// The first urgent re-alert passes: an urgent sighting is forwarded where
/// the alert forwarded last for its primary kind was calm.
pub proof fn lemma_first_urgent_forwarded(
    cache: Map<ThreatKind, DedupEntry>,
    primary: ThreatKind,
    s: Sighting,
    now: u64,
    cooldown: u64,
)
    requires
        cache.contains_key(primary),
        !cache[primary].was_urgent,
        s.urgent,
    ensures
        admits(cache, primary, s, now, cooldown),
{
}

/// After an urgent alert was forwarded, a further urgent sighting that
/// repeats it is forwarded if and only if it comes from the same source and
/// the cooldown has passed since; so an urgent echo from another source is
/// suppressed, and so is one from the same source within the cooldown.
pub proof fn lemma_urgent_realert(
    cache: Map<ThreatKind, DedupEntry>,
    primary: ThreatKind,
    first: Sighting,
    second: Sighting,
    t1: u64,
    t2: u64,
    window: u64,
    cooldown: u64,
)
    requires
        admits(cache, primary, first, t1, cooldown),
        first.urgent,
        second.urgent,
        repeats(second, first),
        alive(t1, t2, window),
    ensures
        admits(
            live_entries(judged(cache, primary, first, t1, cooldown), t2, window),
            primary,
            second,
            t2,
            cooldown,
        ) <==> (second.channel_id == first.channel_id && elapsed(t2, t1) >= cooldown),
{
    lemma_refreshed_covers(entry_for(cache, primary), first, second, t1);
}

/// Escalation passes: a sighting at a nearer level than the cache has seen
/// for its primary kind is forwarded, and the level becomes the cached one.
pub proof fn lemma_escalation(
    cache: Map<ThreatKind, DedupEntry>,
    primary: ThreatKind,
    s: Sighting,
    now: u64,
    cooldown: u64,
)
    requires
        cache.contains_key(primary),
        s.proximity.rank() > cache[primary].max_proximity.rank(),
    ensures
        admits(cache, primary, s, now, cooldown),
        judged(cache, primary, s, now, cooldown)[primary].max_proximity == s.proximity,
{
}

/// While an entry lives, what it has seen only grows: the level never
/// falls, no kind leaves the signature, and the whole country stays seen.
pub proof fn lemma_entry_grows(e: DedupEntry, s: Sighting, now: u64)
    ensures
        refreshed(Some(e), s, now).max_proximity.rank() >= e.max_proximity.rank(),
        refreshed(Some(e), s, now).max_proximity.rank() >= s.proximity.rank(),
        e.seen_signature & !refreshed(Some(e), s, now).seen_signature == 0,
        e.seen_nationwide ==> refreshed(Some(e), s, now).seen_nationwide,
{
    let a = e.seen_signature;
    let f = s.signature;
    assert(a & !(a | f) == 0) by (bit_vector);
}

/// An element is in a filtered sequence exactly if it is in the sequence
/// and passes the test.
pub proof fn lemma_filter_membership<A>(s: Seq<A>, keep: spec_fn(A) -> bool, x: A)
    ensures
        s.filter(keep).contains(x) <==> s.contains(x) && keep(x),
{
    if s.filter(keep).contains(x) {
        s.lemma_filter_contains_rev(keep, x);
        let i = choose|i: int| 0 <= i < s.filter(keep).len() && s.filter(keep)[i] == x;
        s.lemma_filter_pred(keep, i);
    }
    if s.contains(x) && keep(x) {
        let i = choose|i: int| 0 <= i < s.len() && s[i] == x;
        s.lemma_filter_contains(keep, i);
    }
}

/// A kind is found in a text exactly if one of its stems or its combination
/// of words is there.
pub proof fn lemma_raw_membership(text: Seq<char>, k: ThreatKind)
    ensures
        raw_detection(text).contains(k) <==> stem_hit(k, text) || combo_hit(k, text),
{
    let by_stems = SCAN_ORDER@.filter(by_stem(text));
    let by_combos = COMBO_ORDER@.filter(by_combo_alone(text));
    lemma_filter_membership(SCAN_ORDER@, by_stem(text), k);
    lemma_filter_membership(COMBO_ORDER@, by_combo_alone(text), k);
    if raw_detection(text).contains(k) {
        let i = choose|i: int|
            0 <= i < (by_stems + by_combos).len() && (by_stems + by_combos)[i] == k;
        if i < by_stems.len() {
            assert(by_stems[i] == k);
        } else {
            assert(by_combos[i - by_stems.len()] == k);
        }
    }
    if by_stems.contains(k) {
        let i = choose|i: int| 0 <= i < by_stems.len() && by_stems[i] == k;
        assert((by_stems + by_combos)[i] == k);
    }
    if by_combos.contains(k) {
        let i = choose|i: int| 0 <= i < by_combos.len() && by_combos[i] == k;
        assert((by_stems + by_combos)[by_stems.len() + i] == k);
    }
}

/// A kind is detected in a text exactly if a stem or a combination of words
/// reveals it and it does not give way to a kind revealed beside it.
pub proof fn lemma_detection_membership(text: Seq<char>, k: ThreatKind)
    ensures
        detection(text).contains(k) <==> (stem_hit(k, text) || combo_hit(k, text))
            && !suppressed(k, raw_detection(text)),
{
    lemma_raw_membership(text, k);
    lemma_filter_membership(raw_detection(text), kept_in(raw_detection(text)), k);
}

/// Filtering a sequence without repetitions leaves no repetitions.
pub proof fn lemma_filter_no_duplicates<A>(s: Seq<A>, keep: spec_fn(A) -> bool)
    requires
        s.no_duplicates(),
    ensures
        s.filter(keep).no_duplicates(),
    decreases s.len(),
{
    reveal(Seq::filter);
    if s.len() > 0 {
        let shorter = s.drop_last();
        assert(shorter.no_duplicates()) by {
            assert forall|i: int, j: int|
                0 <= i < shorter.len() && 0 <= j < shorter.len() && i != j implies shorter[i]
                != shorter[j] by {
                assert(shorter[i] == s[i] && shorter[j] == s[j]);
            }
        }
        lemma_filter_no_duplicates(shorter, keep);
        let kept = shorter.filter(keep);
        if keep(s.last()) {
            assert forall|i: int| 0 <= i < kept.len() implies kept[i] != s.last() by {
                assert(kept.contains(kept[i]));
                shorter.lemma_filter_contains_rev(keep, kept[i]);
                let k = choose|k: int| 0 <= k < shorter.len() && shorter[k] == kept[i];
                assert(s[k] == kept[i]);
            }
        }
    }
}

/// No kind is detected twice.
pub proof fn lemma_detection_no_duplicates(text: Seq<char>)
    ensures
        detection(text).no_duplicates(),
{
    let by_stems = SCAN_ORDER@.filter(by_stem(text));
    let by_combos = COMBO_ORDER@.filter(by_combo_alone(text));
    lemma_filter_no_duplicates(SCAN_ORDER@, by_stem(text));
    lemma_filter_no_duplicates(COMBO_ORDER@, by_combo_alone(text));
    assert forall|i: int, j: int|
        0 <= i < by_stems.len() && 0 <= j < by_combos.len() implies by_stems[i]
        != by_combos[j] by {
        SCAN_ORDER@.lemma_filter_pred(by_stem(text), i);
        COMBO_ORDER@.lemma_filter_pred(by_combo_alone(text), j);
    }
    vstd::seq_lib::lemma_no_dup_in_concat(by_stems, by_combos);
    lemma_filter_no_duplicates(raw_detection(text), kept_in(raw_detection(text)));
}

/// The letters of the cruise-missile abbreviation inside a longer word do
/// not make a cruise missile: with no occurrence of the abbreviation that
/// is free of letters and digits on both sides, and no cruise-missile stem,
/// no cruise missile is detected.
pub proof fn lemma_embedded_abbreviation(text: Seq<char>)
    requires
        !stem_hit(ThreatKind::CruiseMissile, text),
        !contains_free(text, "кр"@, WordClass::Alphanumeric, true),
    ensures
        !detection(text).contains(ThreatKind::CruiseMissile),
{
    lemma_detection_membership(text, ThreatKind::CruiseMissile);
}

/// Generic kinds give way: a detected generic missile stands beside no
/// ballistic, cruise or hypersonic missile, a detected cruise missile beside
/// no hypersonic one, and a detected `Other` beside no other kind.
pub proof fn lemma_generic_gives_way(text: Seq<char>, k: ThreatKind)
    requires
        detection(text).contains(k),
    ensures
        detection(text).contains(ThreatKind::Missile) ==> k != ThreatKind::Ballistic && k
            != ThreatKind::CruiseMissile && k != ThreatKind::Hypersonic,
        detection(text).contains(ThreatKind::CruiseMissile) ==> k != ThreatKind::Hypersonic,
        detection(text).contains(ThreatKind::Other) ==> k == ThreatKind::Other,
{
    let raw = raw_detection(text);
    lemma_detection_membership(text, k);
    lemma_detection_membership(text, ThreatKind::Missile);
    lemma_detection_membership(text, ThreatKind::CruiseMissile);
    lemma_detection_membership(text, ThreatKind::Other);
    lemma_raw_membership(text, k);
    if detection(text).contains(ThreatKind::Other) && k != ThreatKind::Other {
        let i = choose|i: int| 0 <= i < raw.len() && raw[i] == k;
        assert(raw[i] != ThreatKind::Other);
    }
}

/// A lone all-clear is always forwarded and ends the wave: a message that
/// is no recap and in which the all-clear alone is detected gives the
/// all-clear alert, and leaves nothing cached, no window and no status
/// record.
pub proof fn lemma_all_clear_forwarded(s: FilterModel, now: u64, m: Message)
    requires
        !informational_report(m.lower),
        detection(m.lower) == seq![ThreatKind::AllClear],
    ensures
        s.step(now, m).1 == Some(
            alert_text(
                seq![ThreatKind::AllClear],
                Proximity::Unmatched,
                m.title,
                m.text,
                false,
                false,
            ),
        ),
        s.step(now, m).0.cache == Map::<ThreatKind, DedupEntry>::empty(),
        s.step(now, m).0.contexts.len() == 0,
        s.step(now, m).0.negative.len() == 0,
{
    let found = detection(m.lower);
    // An all-clear is no status update, so the message is taken as an alert.
    assert(found[0] == ThreatKind::AllClear);
    lemma_detection_membership(m.lower, ThreatKind::AllClear);
    // It is neither a lone generic missile nor a lone `Other`, so no other
    // source changes what was detected.
    assert(found != seq![ThreatKind::Missile]) by {
        assert(seq![ThreatKind::Missile][0] == ThreatKind::Missile);
    }
    assert(found != seq![ThreatKind::Other]) by {
        assert(seq![ThreatKind::Other][0] == ThreatKind::Other);
    }
}

/// After the wave has ended nothing is held back: on a cleared state,
/// swept at any later time, every detection with a threat in it is
/// forwarded.
pub proof fn lemma_cleared_forwards(s: FilterModel, now: u64, m: Message, d: Detection)
    requires
        d.threats.len() > 0,
    ensures
        s.cleared().swept(now).deduplicated(now, m, d).1 is Some,
{
}

/// The first target kind of a list is a target kind.
proof fn lemma_first_target_kind(threats: Seq<ThreatKind>)
    ensures
        first_target_kind(threats) matches Some(k) ==> is_target_kind(k),
    decreases threats.len(),
{
    if threats.len() > 0 {
        lemma_first_target_kind(threats.drop_last());
    }
}

/// The hint of an entry is a target kind, never a generic missile.
pub proof fn lemma_hint_is_specific(e: EntryModel)
    ensures
        entry_hint(e) matches Some(k) ==> is_target_kind(k),
{
    lemma_first_target_kind(e.threats);
}

/// Where some entry has a hint, the newest hint is there and is a target
/// kind.
pub proof fn lemma_newest_hint(entries: Seq<EntryModel>)
    ensures
        (exists|i: int| 0 <= i < entries.len() && entry_hint(#[trigger] entries[i]) is Some)
            ==> newest_hint(entries) is Some,
        newest_hint(entries) matches Some(k) ==> is_target_kind(k),
    decreases entries.len(),
{
    if entries.len() > 0 {
        lemma_newest_hint(entries.drop_last());
        lemma_hint_is_specific(entries.last());
        if exists|i: int| 0 <= i < entries.len() && entry_hint(#[trigger] entries[i]) is Some {
            let i = choose|i: int| 0 <= i < entries.len() && entry_hint(#[trigger] entries[i]) is Some;
            if entry_hint(entries.last()) is None {
                assert(entries.drop_last()[i] == entries[i]);
            }
        }
    }
}

/// A trigger word never falls back to the generic missile while the window
/// knows better: where a live entry has a hint, what the trigger stands for
/// is a specific target kind.
pub proof fn lemma_trigger_uses_context(c: ContextModel, now: u64, text: Seq<char>)
    requires
        has_trigger(text),
        exists|i: int|
            0 <= i < c.evicted(now).entries.len() && entry_hint(
                #[trigger] c.evicted(now).entries[i],
            ) is Some,
    ensures
        c.trigger_inference(now, text) matches Some(k) && is_target_kind(k) && k
            != ThreatKind::Missile,
{
    lemma_newest_hint(c.evicted(now).entries);
}

/// A trigger word is never dropped: it stands for some kind, whatever the
/// window holds.
pub proof fn lemma_trigger_never_dropped(c: ContextModel, now: u64, text: Seq<char>)
    requires
        has_trigger(text),
    ensures
        c.trigger_inference(now, text) is Some,
{
}

/// A window never outgrows its capacity: offering a message to a window of
/// at most [`CONTEXT_CAPACITY`] entries leaves at most that many.
pub proof fn lemma_window_bounded(
    c: ContextModel,
    now: u64,
    text: Seq<char>,
    threats: Seq<ThreatKind>,
    proximity: Proximity,
)
    requires
        c.entries.len() <= CONTEXT_CAPACITY,
    ensures
        c.added(now, text, threats, proximity).entries.len() <= CONTEXT_CAPACITY,
        c.evicted(now).entries.len() <= c.entries.len(),
{
    c.entries.lemma_filter_len(live_at(now, c.window));
}

/// Every window of the state holds at most [`CONTEXT_CAPACITY`] entries.
pub open spec fn windows_bounded(s: FilterModel) -> bool {
    forall|i: int| 0 <= i < s.contexts.len() ==> (#[trigger] s.contexts[i]).entries.len()
        <= CONTEXT_CAPACITY
}

/// Sweeping keeps the windows within their capacity.
proof fn lemma_swept_bounded(s: FilterModel, now: u64)
    requires
        windows_bounded(s),
    ensures
        windows_bounded(s.swept(now)),
{
    let fresh = all_evicted(s.contexts, now);
    let kept = fresh.filter(occupied());
    assert forall|i: int| 0 <= i < kept.len() implies (#[trigger] kept[i]).entries.len()
        <= CONTEXT_CAPACITY by {
        assert(kept.contains(kept[i]));
        fresh.lemma_filter_contains_rev(occupied(), kept[i]);
        let j = choose|j: int| 0 <= j < fresh.len() && fresh[j] == kept[i];
        s.contexts[j].entries.lemma_filter_len(live_at(now, s.contexts[j].window));
    }
}

/// The windows stay within their capacity: a step on a state whose windows
/// hold at most [`CONTEXT_CAPACITY`] entries each leads to such a state.
pub proof fn lemma_step_keeps_windows_bounded(s: FilterModel, now: u64, m: Message)
    requires
        windows_bounded(s),
    ensures
        windows_bounded(s.step(now, m).0),
{
    lemma_swept_bounded(s, now);
    let swept = s.swept(now);
    let ids = context_ids(swept.contexts);
    lemma_first_index(ids, m.channel_id);
    let ctx = context_of(swept.contexts, m.channel_id, swept.context_window);
    let noted = ctx.added(
        now,
        m.lower,
        swept.local_threats(now, m),
        swept.local_proximity(now, m),
    );
    lemma_window_bounded(
        ctx,
        now,
        m.lower,
        swept.local_threats(now, m),
        swept.local_proximity(now, m),
    );
    let after = with_context(swept.contexts, noted);
    assert forall|i: int| 0 <= i < after.len() implies (#[trigger] after[i]).entries.len()
        <= CONTEXT_CAPACITY by {
        match first_index(ids, m.channel_id) {
            Some(k) => {
                if i != k {
                    assert(after[i] == swept.contexts[i]);
                }
            },
            None => {
                if i < swept.contexts.len() {
                    assert(after[i] == swept.contexts[i]);
                }
            },
        }
    }
}

/// A record that was put among the status records is the record of its
/// source.
pub proof fn lemma_status_kept(negative: Seq<NegativeStatus>, record: NegativeStatus)
    ensures
        status_of(with_status(negative, record), record.channel_id) == record,
{
    let ids = status_ids(negative);
    lemma_first_index(ids, record.channel_id);
    match first_index(ids, record.channel_id) {
        Some(i) => {
            assert(status_ids(negative.update(i, record)) =~= ids);
        },
        None => {
            let after = status_ids(negative.push(record));
            assert(after.drop_last() =~= ids);
        },
    }
}

/// At most one status update per wave and source: once a status update was
/// forwarded for a source, none is due for it at any later time, until an
/// active threat is seen on the source.
pub proof fn lemma_status_once(s: FilterModel, now: u64, m: Message, later: u64)
    requires
        s.status_reply(now, m).1 is Some,
    ensures
        !s.status_reply(now, m).0.status_due(later, m.channel_id),
{
    lemma_status_kept(
        s.negative,
        NegativeStatus { channel_id: m.channel_id, latched_for_wave: true, last_sent_at: Some(now) },
    );
}

/// An active threat opens the latch of its source, and leaves the time of
/// the last status update as it was.
pub proof fn lemma_threat_opens_latch(s: FilterModel, id: i64, threats: Seq<ThreatKind>)
    requires
        has_active(threats),
    ensures
        !status_of(s.threat_seen(id, threats).negative, id).latched_for_wave,
        status_of(s.threat_seen(id, threats).negative, id).last_sent_at == status_of(
            s.negative,
            id,
        ).last_sent_at,
{
    let ids = status_ids(s.negative);
    lemma_first_index(ids, id);
    lemma_status_kept(
        s.negative,
        NegativeStatus { latched_for_wave: false, ..status_of(s.negative, id) },
    );
}

/// A status update is never due for a source without a live active threat
/// in its window.
pub proof fn lemma_status_needs_threat(s: FilterModel, now: u64, m: Message)
    requires
        context_of(s.contexts, m.channel_id, s.context_window).recent_threat(now) is None,
    ensures
        s.status_reply(now, m).1 is None,
        s.status_reply(now, m).0 == s,
{
}

/// The primary kind of a message is one of its kinds, and none of its kinds
/// ranks higher.
pub proof fn lemma_primary_is_highest(threats: Seq<ThreatKind>)
    ensures
        threats.len() > 0 ==> primary_of(threats) is Some,
        primary_of(threats) matches Some(p) ==> threats.contains(p) && forall|i: int|
            0 <= i < threats.len() ==> (#[trigger] threats[i]).rank() <= p.rank(),
    decreases threats.len(),
{
    if threats.len() > 0 {
        let shorter = threats.drop_last();
        lemma_primary_is_highest(shorter);
        let p = primary_of(threats)->0;
        match primary_of(shorter) {
            Some(best) => {
                if best.rank() > threats.last().rank() {
                    let k = choose|k: int| 0 <= k < shorter.len() && shorter[k] == best;
                    assert(threats[k] == best);
                } else {
                    assert(threats[threats.len() - 1] == p);
                }
                assert forall|i: int| 0 <= i < threats.len() implies (#[trigger] threats[i]).rank()
                    <= p.rank() by {
                    if i < shorter.len() {
                        assert(shorter[i] == threats[i]);
                    }
                }
            },
            None => {
                assert(threats[threats.len() - 1] == p);
            },
        }
    }
}

/// A second opinion that fails changes nothing of what is forwarded: with
/// the keyword threats handed back as the verdict, the second half of the
/// step forwards what it forwards without a verdict.
pub proof fn lemma_failed_opinion_forwards_the_same(
    s: FilterModel,
    now: u64,
    m: Message,
    d: Detection,
)
    requires
        d.threats.len() > 0,
    ensures
        s.concluded(now, m, d, Some(crate::llm::verdict(d.threats, None))).1 == s.concluded(
            now,
            m,
            d,
            None,
        ).1,
{
    let with_verdict = s.amended(m.channel_id, d.threats).threat_seen(m.channel_id, d.threats);
    let without = s.threat_seen(m.channel_id, d.threats);
    assert(with_verdict.cache == without.cache);
    assert(Detection { threats: d.threats, ..d } == d);
}

/// No source has two windows, and none has two status records.
pub open spec fn sources_distinct(s: FilterModel) -> bool {
    context_ids(s.contexts).no_duplicates() && status_ids(s.negative).no_duplicates()
}

/// Putting a window in the place of its source's window, or at the end for
/// a source without one, leaves one window for each source.
proof fn lemma_with_context_distinct(contexts: Seq<ContextModel>, ctx: ContextModel)
    requires
        context_ids(contexts).no_duplicates(),
    ensures
        context_ids(with_context(contexts, ctx)).no_duplicates(),
{
    let ids = context_ids(contexts);
    lemma_first_index(ids, ctx.channel_id);
    match first_index(ids, ctx.channel_id) {
        Some(i) => {
            assert(context_ids(contexts.update(i, ctx)) =~= ids);
        },
        None => {
            assert(context_ids(contexts.push(ctx)) =~= ids.push(ctx.channel_id));
        },
    }
}

/// Putting a record in the place of its source's record, or at the end for
/// a source without one, leaves one record for each source.
proof fn lemma_with_status_distinct(negative: Seq<NegativeStatus>, record: NegativeStatus)
    requires
        status_ids(negative).no_duplicates(),
    ensures
        status_ids(with_status(negative, record)).no_duplicates(),
{
    let ids = status_ids(negative);
    lemma_first_index(ids, record.channel_id);
    match first_index(ids, record.channel_id) {
        Some(i) => {
            assert(status_ids(negative.update(i, record)) =~= ids);
        },
        None => {
            assert(status_ids(negative.push(record)) =~= ids.push(record.channel_id));
        },
    }
}

/// Sweeping leaves one window and one status record for each source.
proof fn lemma_swept_distinct(s: FilterModel, now: u64)
    requires
        sources_distinct(s),
    ensures
        sources_distinct(s.swept(now)),
{
    let fresh = all_evicted(s.contexts, now);
    let kept = fresh.filter(occupied());
    assert(fresh.no_duplicates()) by {
        assert forall|a: int, b: int|
            0 <= a < fresh.len() && 0 <= b < fresh.len() && a != b implies fresh[a]
            != fresh[b] by {
            assert(context_ids(s.contexts)[a] != context_ids(s.contexts)[b]);
        }
    }
    lemma_filter_no_duplicates(fresh, occupied());
    let kept_ids = context_ids(kept);
    assert forall|i: int, j: int|
        0 <= i < kept_ids.len() && 0 <= j < kept_ids.len() && i != j implies kept_ids[i]
        != kept_ids[j] by {
        assert(kept.contains(kept[i]) && kept.contains(kept[j]));
        fresh.lemma_filter_contains_rev(occupied(), kept[i]);
        fresh.lemma_filter_contains_rev(occupied(), kept[j]);
        let a = choose|a: int| 0 <= a < fresh.len() && fresh[a] == kept[i];
        let b = choose|b: int| 0 <= b < fresh.len() && fresh[b] == kept[j];
        assert(kept[i] != kept[j]);
        assert(context_ids(s.contexts)[a] != context_ids(s.contexts)[b]);
    }
    let records = s.negative.filter(tracked_in(kept));
    assert(s.negative.no_duplicates()) by {
        assert forall|a: int, b: int|
            0 <= a < s.negative.len() && 0 <= b < s.negative.len() && a != b implies s.negative[a]
            != s.negative[b] by {
            assert(status_ids(s.negative)[a] != status_ids(s.negative)[b]);
        }
    }
    lemma_filter_no_duplicates(s.negative, tracked_in(kept));
    let record_ids = status_ids(records);
    assert forall|i: int, j: int|
        0 <= i < record_ids.len() && 0 <= j < record_ids.len() && i != j implies record_ids[i]
        != record_ids[j] by {
        assert(records.contains(records[i]) && records.contains(records[j]));
        s.negative.lemma_filter_contains_rev(tracked_in(kept), records[i]);
        s.negative.lemma_filter_contains_rev(tracked_in(kept), records[j]);
        let a = choose|a: int| 0 <= a < s.negative.len() && s.negative[a] == records[i];
        let b = choose|b: int| 0 <= b < s.negative.len() && s.negative[b] == records[j];
        assert(records[i] != records[j]);
        assert(status_ids(s.negative)[a] != status_ids(s.negative)[b]);
    }
}

/// Each source keeps one window and one status record: a step on a state
/// with one of each for every source leads to such a state.
pub proof fn lemma_step_keeps_sources_distinct(s: FilterModel, now: u64, m: Message)
    requires
        sources_distinct(s),
    ensures
        sources_distinct(s.step(now, m).0),
{
    lemma_swept_distinct(s, now);
    let swept = s.swept(now);
    assert(context_ids(Seq::<ContextModel>::empty()) =~= Seq::<i64>::empty());
    assert(status_ids(Seq::<NegativeStatus>::empty()) =~= Seq::<i64>::empty());
    // A status update puts one record in its place.
    lemma_with_status_distinct(
        swept.negative,
        NegativeStatus { channel_id: m.channel_id, latched_for_wave: true, last_sent_at: Some(now) },
    );
    // An alert puts one window in its place, and may open one latch.
    let ctx = context_of(swept.contexts, m.channel_id, swept.context_window);
    lemma_first_index(context_ids(swept.contexts), m.channel_id);
    lemma_with_context_distinct(
        swept.contexts,
        ctx.added(now, m.lower, swept.local_threats(now, m), swept.local_proximity(now, m)),
    );
    lemma_first_index(status_ids(swept.negative), m.channel_id);
    lemma_with_status_distinct(
        swept.negative,
        NegativeStatus { latched_for_wave: false, ..status_of(swept.negative, m.channel_id) },
    );
}

/// A state without windows and status records, such as that of a new
/// engine, has its windows bounded and its sources distinct.
pub proof fn lemma_empty_state_sound(s: FilterModel)
    requires
        s.contexts.len() == 0,
        s.negative.len() == 0,
    ensures
        windows_bounded(s),
        sources_distinct(s),
{
}

/// Asking for a second opinion changes nothing where none comes: the two
/// halves of a step at one time, without a verdict or with the detected
/// kinds handed back as the verdict, give the alert and leave the cache of
/// the plain step. So a verifier that is switched off, slow or broken never
/// drops a message that the keywords would forward.
pub proof fn lemma_second_opinion_agrees(s: FilterModel, now: u64, m: Message)
    ensures
        match s.triaged(now, m).1 {
            TriageModel::Settled(alert) => {
                &&& alert == s.step(now, m).1
                &&& s.triaged(now, m).0.cache == s.step(now, m).0.cache
            },
            TriageModel::Pending(d) => {
                let pending = s.triaged(now, m).0;
                &&& pending.concluded(now, m, d, None).1 == s.step(now, m).1
                &&& pending.concluded(now, m, d, None).0.cache == s.step(now, m).0.cache
                &&& pending.concluded(now, m, d, Some(d.threats)).1 == s.step(now, m).1
                &&& pending.concluded(now, m, d, Some(d.threats)).0.cache == s.step(
                    now,
                    m,
                ).0.cache
            },
        },
{
    match s.triaged(now, m).1 {
        TriageModel::Settled(alert) => {},
        TriageModel::Pending(d) => {
            let pending = s.triaged(now, m).0;
            // The step judges the message against the swept cache; the
            // second half sweeps a cache that the first half has swept.
            lemma_live_entries_twice(s.cache, now, s.dedup_window);
            lemma_live_entries_twice(pending.cache, now, s.dedup_window);
            assert(pending.cache == s.swept(now).cache);
            assert(d.threats.len() > 0);
            assert(Detection { threats: d.threats, ..d } == d);
        },
    }
}

} // verus!
