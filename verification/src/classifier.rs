//! The classifier: from lowercase text to the ordered list of threat kinds
//! that it names.
//!
//! Kinds are found by their stems, in a fixed order from specific to
//! generic; three combinations of words add kinds that no single stem
//! reveals; then generic kinds give way to the specific kinds beside them.

use vstd::prelude::*;
use crate::text::{
    contains, contains_any, contains_free, find_any, find_free_str, find_str, lowercase,
    lowered_chars, WordClass,
};
use crate::threat_keywords::{has_stem, stem_hit};
use crate::threat_kind::ThreatKind;

verus! {

/// The order in which the stem tables are tried, specific kinds first.
pub const SCAN_ORDER: [ThreatKind; 10] = [
    ThreatKind::AllClear,
    ThreatKind::Hypersonic,
    ThreatKind::Ballistic,
    ThreatKind::CruiseMissile,
    ThreatKind::GuidedBomb,
    ThreatKind::Shahed,
    ThreatKind::ReconDrone,
    ThreatKind::Aircraft,
    ThreatKind::Missile,
    ThreatKind::Other,
];

/// The kinds that a combination of words can add, in the order in which
/// they are added behind the kinds found by stem.
pub const COMBO_ORDER: [ThreatKind; 3] = [
    ThreatKind::CruiseMissile,
    ThreatKind::Aircraft,
    ThreatKind::Missile,
];

/// Words one of which has to stand beside the two-letter abbreviation for a
/// cruise missile.
pub const CRUISE_SUPPORT: [&'static str; 4] = ["курс", "ракет", "груп", "на "];

/// Markers of strategic aviation or of its aircraft types.
pub const STRATEGIC_MARKERS: [&'static str; 5] = [
    "са",
    "стратегічн",
    "стратегическ",
    "ту-95",
    "ту-160",
];

/// Markers of being airborne or taking off.
pub const AIRBORNE_MARKERS: [&'static str; 4] = ["в повітрі", "в повітря", "в воздухе", "зліт"];

/// Markers of high speed.
pub const SPEED_MARKERS: [&'static str; 3] = ["швидкісн", "скоростн", "высокоскорост"];

/// The two spellings of "target".
pub const TARGET_WORDS: [&'static str; 2] = ["ціль", "цель"];

/// The abbreviation for a cruise missile stands as a token of its own, with
/// no letter or digit on either side, beside a supporting word.
pub open spec fn cruise_abbreviation(text: Seq<char>) -> bool {
    contains_free(text, "кр"@, WordClass::Alphanumeric, true) && contains_any(
        text,
        CRUISE_SUPPORT@,
    )
}

/// An airframe word stands beside a marker of strategic aviation and a
/// marker of being airborne.
pub open spec fn strategic_aviation(text: Seq<char>) -> bool {
    contains(text, "борт"@) && contains_any(text, STRATEGIC_MARKERS@) && contains_any(
        text,
        AIRBORNE_MARKERS@,
    )
}

/// A marker of speed stands beside a word for a target.
pub open spec fn fast_target(text: Seq<char>) -> bool {
    contains_any(text, SPEED_MARKERS@) && contains_any(text, TARGET_WORDS@)
}

/// A combination of words in `text` reveals `kind`.
pub open spec fn combo_hit(kind: ThreatKind, text: Seq<char>) -> bool {
    match kind {
        ThreatKind::CruiseMissile => cruise_abbreviation(text),
        ThreatKind::Aircraft => strategic_aviation(text),
        ThreatKind::Missile => fast_target(text),
        _ => false,
    }
}

/// The test for a kind found by one of its stems.
pub open spec fn by_stem(text: Seq<char>) -> spec_fn(ThreatKind) -> bool {
    |k: ThreatKind| stem_hit(k, text)
}

/// The test for a kind found by a combination of words and by no stem.
pub open spec fn by_combo_alone(text: Seq<char>) -> spec_fn(ThreatKind) -> bool {
    |k: ThreatKind| combo_hit(k, text) && !stem_hit(k, text)
}

/// Every kind that the text reveals, before generic kinds give way: the
/// kinds found by stem in scan order, then those found by combination alone.
pub open spec fn raw_detection(text: Seq<char>) -> Seq<ThreatKind> {
    SCAN_ORDER@.filter(by_stem(text)) + COMBO_ORDER@.filter(by_combo_alone(text))
}

/// `kind` gives way to what stands beside it in `raw`: a generic missile to
/// a ballistic, cruise or hypersonic one, a cruise missile to a hypersonic
/// one, and `Other` to any other kind. `AllClear` never gives way.
pub open spec fn suppressed(kind: ThreatKind, raw: Seq<ThreatKind>) -> bool {
    match kind {
        ThreatKind::Missile => raw.contains(ThreatKind::Ballistic) || raw.contains(
            ThreatKind::CruiseMissile,
        ) || raw.contains(ThreatKind::Hypersonic),
        ThreatKind::CruiseMissile => raw.contains(ThreatKind::Hypersonic),
        ThreatKind::Other => has_specific(raw),
        _ => false,
    }
}

/// `raw` holds a kind that is not `Other`.
pub open spec fn has_specific(raw: Seq<ThreatKind>) -> bool {
    exists|i: int| 0 <= i < raw.len() && #[trigger] raw[i] != ThreatKind::Other
}

/// The test for a kind that stays in `raw`.
pub open spec fn kept_in(raw: Seq<ThreatKind>) -> spec_fn(ThreatKind) -> bool {
    |k: ThreatKind| !suppressed(k, raw)
}

/// The kinds detected in lowercase `text`: what [`raw_detection`] finds,
/// less the kinds that give way.
pub open spec fn detection(text: Seq<char>) -> Seq<ThreatKind> {
    let raw = raw_detection(text);
    raw.filter(kept_in(raw))
}

/// Whether `kinds` holds `kind`.
pub fn has_kind(kinds: &[ThreatKind], kind: ThreatKind) -> (b: bool)
    ensures
        b == kinds@.contains(kind),
{
    let mut i: usize = 0;
    while i < kinds.len()
        invariant
            i <= kinds.len(),
            forall|k: int| 0 <= k < i ==> kinds@[k] != kind,
        decreases kinds.len() - i,
    {
        if kinds[i] == kind {
            return true;
        }
        i += 1;
    }
    false
}

/// Whether `kinds` holds a kind that is not `Other`.
pub fn any_specific(kinds: &[ThreatKind]) -> (b: bool)
    ensures
        b == has_specific(kinds@),
{
    let mut i: usize = 0;
    while i < kinds.len()
        invariant
            i <= kinds.len(),
            forall|k: int| 0 <= k < i ==> kinds@[k] == ThreatKind::Other,
        decreases kinds.len() - i,
    {
        if kinds[i] != ThreatKind::Other {
            return true;
        }
        i += 1;
    }
    false
}

/// Whether a combination of words in the lowercase text reveals `kind`.
pub fn has_combo(kind: ThreatKind, lower: &[char]) -> (b: bool)
    ensures
        b == combo_hit(kind, lower@),
{
    match kind {
        ThreatKind::CruiseMissile => {
            find_free_str(lower, "кр", WordClass::Alphanumeric, true) && find_any(
                lower,
                &CRUISE_SUPPORT,
            )
        },
        ThreatKind::Aircraft => {
            find_str(lower, "борт") && find_any(lower, &STRATEGIC_MARKERS) && find_any(
                lower,
                &AIRBORNE_MARKERS,
            )
        },
        ThreatKind::Missile => {
            find_any(lower, &SPEED_MARKERS) && find_any(lower, &TARGET_WORDS)
        },
        _ => false,
    }
}

/// Every kind that the lowercase text reveals, before generic kinds give way.
pub fn detect_raw(lower: &[char]) -> (raw: Vec<ThreatKind>)
    ensures
        raw@ == raw_detection(lower@),
{
    let mut raw: Vec<ThreatKind> = Vec::new();
    let mut i: usize = 0;
    while i < 10
        invariant
            i <= 10,
            raw@ == SCAN_ORDER@.take(i as int).filter(by_stem(lower@)),
        decreases 10 - i,
    {
        let kind = SCAN_ORDER[i];
        proof {
            assert(SCAN_ORDER@.take(i + 1) =~= SCAN_ORDER@.take(i as int).push(kind));
            Seq::lemma_filter_push(SCAN_ORDER@.take(i as int), kind, by_stem(lower@));
        }
        if has_stem(kind, lower) {
            raw.push(kind);
        }
        i += 1;
    }
    let ghost stems = raw@;
    proof {
        assert(SCAN_ORDER@.take(10) =~= SCAN_ORDER@);
    }
    let mut j: usize = 0;
    while j < 3
        invariant
            j <= 3,
            stems == SCAN_ORDER@.filter(by_stem(lower@)),
            raw@ == stems + COMBO_ORDER@.take(j as int).filter(by_combo_alone(lower@)),
        decreases 3 - j,
    {
        let kind = COMBO_ORDER[j];
        proof {
            assert(COMBO_ORDER@.take(j + 1) =~= COMBO_ORDER@.take(j as int).push(kind));
            Seq::lemma_filter_push(COMBO_ORDER@.take(j as int), kind, by_combo_alone(lower@));
        }
        if has_combo(kind, lower) && !has_stem(kind, lower) {
            raw.push(kind);
        }
        j += 1;
    }
    proof {
        assert(COMBO_ORDER@.take(3) =~= COMBO_ORDER@);
    }
    raw
}

/// The kinds of `raw` that do not give way to another kind of `raw`.
pub fn settle(raw: &[ThreatKind]) -> (found: Vec<ThreatKind>)
    ensures
        found@ == raw@.filter(kept_in(raw@)),
{
    let over_missile = has_kind(raw, ThreatKind::Ballistic) || has_kind(
        raw,
        ThreatKind::CruiseMissile,
    ) || has_kind(raw, ThreatKind::Hypersonic);
    let over_cruise = has_kind(raw, ThreatKind::Hypersonic);
    let over_other = any_specific(raw);
    let mut found: Vec<ThreatKind> = Vec::new();
    let mut i: usize = 0;
    while i < raw.len()
        invariant
            i <= raw.len(),
            over_missile == suppressed(ThreatKind::Missile, raw@),
            over_cruise == suppressed(ThreatKind::CruiseMissile, raw@),
            over_other == suppressed(ThreatKind::Other, raw@),
            found@ == raw@.take(i as int).filter(kept_in(raw@)),
        decreases raw.len() - i,
    {
        let kind = raw[i];
        proof {
            assert(raw@.take(i + 1) =~= raw@.take(i as int).push(kind));
            Seq::lemma_filter_push(raw@.take(i as int), kind, kept_in(raw@));
        }
        let gives_way = match kind {
            ThreatKind::Missile => over_missile,
            ThreatKind::CruiseMissile => over_cruise,
            ThreatKind::Other => over_other,
            _ => false,
        };
        if !gives_way {
            found.push(kind);
        }
        i += 1;
    }
    proof {
        assert(raw@.take(raw@.len() as int) =~= raw@);
    }
    found
}

/// The kinds detected in a text that is already in lowercase.
pub fn detect_lowered(lower: &[char]) -> (found: Vec<ThreatKind>)
    ensures
        found@ == detection(lower@),
{
    let raw = detect_raw(lower);
    settle(raw.as_slice())
}

/// Scan a text and return the threat kinds that it names, specific kinds
/// taking the place of generic ones. The text is put in lowercase first.
pub fn detect_threats(text: &str) -> (found: Vec<ThreatKind>)
    ensures
        found@ == detection(lowercase(text@)),
{
    let lower = lowered_chars(text);
    detect_lowered(lower.as_slice())
}

} // verus!
