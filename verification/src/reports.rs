//! Filters for posts that speak of threats without being alerts: long
//! statistical recaps, and "nothing is observed any more" status updates.

use vstd::prelude::*;
use crate::text::{
    contains, contains_any, count_any, count_contained, count_digits, count_occurrences,
    digit_count, find_any, find_str, occurrences, trimmed, trimmed_is,
};
use crate::threat_keywords::{has_stem, stem_hit};
use crate::threat_kind::ThreatKind;

verus! {

/// Phrases of live movement: a heading, a vector, something flying towards
/// a place.
pub const LIVE_MOVEMENT_MARKERS: [&'static str; 14] = [
    "курсом на",
    "у бік",
    "в бік",
    "вектором на",
    "летить",
    "летят",
    "руха",
    "рух бпла",
    "швидкісна ціль",
    "скоростная цель",
    "ціль на",
    "цель на",
    "заліта",
    "напрямку",
];

/// Phrases of a recap: totals, statistics, results.
pub const REPORT_MARKERS: [&'static str; 11] = [
    "збито/подавлено",
    "станом на",
    "у ніч на",
    "усього",
    "за попередніми даними",
    "зафіксовано",
    "влучання",
    "падіння збитих",
    "інформація щодо",
    "разом – до перемоги",
    "тримаймо небо",
];

/// Phrases that say a threat is no longer observed.
pub const NEGATIVE_MARKERS: [&'static str; 8] = [
    "не спостеріга",
    "не фіксу",
    "чисто",
    "все зник",
    "зникла",
    "більше не спостеріга",
    "по цирконам минус",
    "минус",
];

/// Phrases of an alert that is still active.
pub const ACTIVE_MARKERS: [&'static str; 13] = [
    "курсом на",
    "у бік",
    "в бік",
    "вектор",
    "летить",
    "летят",
    "руха",
    "пуск",
    "вихід",
    "виход",
    "загроз",
    "увага",
    "ще ",
];

/// How many recap phrases make a recap.
pub const MIN_REPORT_MARKERS: usize = 2;

/// How many line breaks make a text dense.
pub const MIN_LINE_BREAKS: usize = 10;

/// How many bulleted lines make a text dense.
pub const MIN_BULLET_LINES: usize = 3;

/// How many digits make a text dense.
pub const MIN_DIGITS: usize = 20;

/// The text speaks of live movement.
pub open spec fn live_movement(text: Seq<char>) -> bool {
    contains_any(text, LIVE_MOVEMENT_MARKERS@)
}

/// The number of lines of `text` that start with a bullet.
pub open spec fn bullet_lines(text: Seq<char>) -> nat {
    occurrences(text, "\n- "@) + occurrences(text, "\n•"@)
}

/// The text is dense: many lines, many bullets or many digits.
pub open spec fn dense(text: Seq<char>) -> bool {
    ||| occurrences(text, "\n"@) >= MIN_LINE_BREAKS
    ||| bullet_lines(text) >= MIN_BULLET_LINES
    ||| digit_count(text) >= MIN_DIGITS
}

/// The text is a recap: at least two recap phrases in a dense text that
/// speaks of no live movement.
pub open spec fn informational_report(text: Seq<char>) -> bool {
    &&& !live_movement(text)
    &&& count_contained(text, REPORT_MARKERS@) >= MIN_REPORT_MARKERS
    &&& dense(text)
}

/// The text says that something is no longer observed.
pub open spec fn negative_phrase(text: Seq<char>) -> bool {
    ||| contains_any(text, NEGATIVE_MARKERS@)
    ||| trimmed(text) == "все"@
    ||| trimmed(text) == "все."@
}

/// The cautious form "nothing for now, repeated launches are possible".
pub open spec fn possible_repeat(text: Seq<char>) -> bool {
    &&& contains(text, "повторн"@)
    &&& contains(text, "можлив"@) || contains(text, "ймовір"@)
    &&& contains(text, "пуск"@)
}

/// The text is a status update of the "no longer observed" sort: it holds a
/// negative phrase, announces no all-clear, and either is the cautious form
/// of [`possible_repeat`] or holds no marker of an active alert.
pub open spec fn negative_update(text: Seq<char>) -> bool {
    &&& !stem_hit(ThreatKind::AllClear, text)
    &&& negative_phrase(text)
    &&& possible_repeat(text) || !contains_any(text, ACTIVE_MARKERS@)
}

/// Whether the lowercase text speaks of live movement.
pub fn has_live_movement_markers(lower: &[char]) -> (b: bool)
    ensures
        b == live_movement(lower@),
{
    find_any(lower, &LIVE_MOVEMENT_MARKERS)
}

/// Whether the lowercase text is dense in lines, bullets or digits.
pub fn is_dense(lower: &[char]) -> (b: bool)
    ensures
        b == dense(lower@),
{
    if count_occurrences(lower, "\n") >= MIN_LINE_BREAKS {
        return true;
    }
    let dashes = count_occurrences(lower, "\n- ");
    let dots = count_occurrences(lower, "\n•");
    if dashes >= MIN_BULLET_LINES || dots >= MIN_BULLET_LINES || dashes + dots
        >= MIN_BULLET_LINES {
        return true;
    }
    count_digits(lower) >= MIN_DIGITS
}

/// Returns `true` for long recap posts that list totals, interceptions and
/// results, but describe no movement that is under way.
pub fn is_informational_report(lower: &[char]) -> (b: bool)
    ensures
        b == informational_report(lower@),
{
    if has_live_movement_markers(lower) {
        return false;
    }
    count_any(lower, &REPORT_MARKERS) >= MIN_REPORT_MARKERS && is_dense(lower)
}

/// Returns `true` for "the sky is clear here / no longer observed" updates
/// that are no all-clear and no active alert.
pub fn is_negative_update(lower: &[char]) -> (b: bool)
    ensures
        b == negative_update(lower@),
{
    if has_stem(ThreatKind::AllClear, lower) {
        return false;
    }
    let negative = find_any(lower, &NEGATIVE_MARKERS) || trimmed_is(lower, "все") || trimmed_is(
        lower,
        "все.",
    );
    if !negative {
        return false;
    }
    if find_str(lower, "повторн") && (find_str(lower, "можлив") || find_str(lower, "ймовір"))
        && find_str(lower, "пуск") {
        return true;
    }
    !find_any(lower, &ACTIVE_MARKERS)
}

} // verus!
