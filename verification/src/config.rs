//! Settings as they come from the outside: comma-separated lists, numbers
//! and flags written as text.

use vstd::prelude::*;
use vstd::slice::slice_subrange;
use crate::filter::AlertFilter;
use crate::location::{stems_view, LocationConfig, LocationModel};
use crate::model::FilterModel;
use crate::text::{
    equals_str, is_ascii_digit, lowercase, lowered_chars, str_to_lowercase, to_chars, trim_range,
    trimmed,
};

verus! {

// ───────────────────────────────── Lists ─────────────────────────────────

/// The pieces of `s` between the occurrences of `sep`. A text without
/// `sep` is one piece; two neighbouring separators hold an empty piece.
pub open spec fn split_on(s: Seq<char>, sep: char) -> Seq<Seq<char>>
    decreases s.len(),
{
    if s.len() == 0 {
        seq![Seq::empty()]
    } else {
        let before = split_on(s.drop_last(), sep);
        if s.last() == sep {
            before.push(Seq::empty())
        } else {
            before.drop_last().push(before.last().push(s.last()))
        }
    }
}

/// `s` without the occurrences of `c` at its start.
pub open spec fn without_leading(s: Seq<char>, c: char) -> Seq<char>
    decreases s.len(),
{
    if s.len() > 0 && s[0] == c {
        without_leading(s.drop_first(), c)
    } else {
        s
    }
}

/// A piece of a list of stems as it is kept: trimmed and in lowercase.
pub open spec fn stem_of(piece: Seq<char>) -> Seq<char> {
    lowercase(trimmed(piece))
}

/// A piece of a list of channels as it is kept: trimmed, and without the
/// `@` signs at its start.
pub open spec fn channel_of(piece: Seq<char>) -> Seq<char> {
    without_leading(trimmed(piece), '@')
}

/// The stems of the pieces, those that come out empty left away.
pub open spec fn stems_of_pieces(pieces: Seq<Seq<char>>) -> Seq<Seq<char>>
    decreases pieces.len(),
{
    if pieces.len() == 0 {
        Seq::empty()
    } else if stem_of(pieces.last()).len() > 0 {
        stems_of_pieces(pieces.drop_last()).push(stem_of(pieces.last()))
    } else {
        stems_of_pieces(pieces.drop_last())
    }
}

/// The channels of the pieces, those that come out empty left away.
pub open spec fn channels_of_pieces(pieces: Seq<Seq<char>>) -> Seq<Seq<char>>
    decreases pieces.len(),
{
    if pieces.len() == 0 {
        Seq::empty()
    } else if channel_of(pieces.last()).len() > 0 {
        channels_of_pieces(pieces.drop_last()).push(channel_of(pieces.last()))
    } else {
        channels_of_pieces(pieces.drop_last())
    }
}

/// The stems of a comma-separated list.
pub open spec fn parsed_list(raw: Seq<char>) -> Seq<Seq<char>> {
    stems_of_pieces(split_on(raw, ','))
}

/// The channels of a comma-separated list.
pub open spec fn parsed_channels(raw: Seq<char>) -> Seq<Seq<char>> {
    channels_of_pieces(split_on(raw, ','))
}

/// The bounds of the pieces of `s` between the occurrences of `sep`.
pub fn split_ranges(s: &[char], sep: char) -> (r: Vec<(usize, usize)>)
    ensures
        r@.len() == split_on(s@, sep).len(),
        forall|k: int|
            0 <= k < r@.len() ==> (#[trigger] r@[k]).0 <= r@[k].1 <= s@.len() && s@.subrange(
                r@[k].0 as int,
                r@[k].1 as int,
            ) == split_on(s@, sep)[k],
{
    let mut r: Vec<(usize, usize)> = Vec::new();
    let mut start: usize = 0;
    let mut i: usize = 0;
    while i < s.len()
        invariant
            i <= s.len(),
            start <= i,
            r@.len() + 1 == split_on(s@.take(i as int), sep).len(),
            split_on(s@.take(i as int), sep).last() == s@.subrange(start as int, i as int),
            forall|k: int|
                0 <= k < r@.len() ==> (#[trigger] r@[k]).0 <= r@[k].1 <= i && s@.subrange(
                    r@[k].0 as int,
                    r@[k].1 as int,
                ) == split_on(s@.take(i as int), sep)[k],
        decreases s.len() - i,
    {
        proof {
            assert(s@.take(i + 1).drop_last() =~= s@.take(i as int));
        }
        if s[i] == sep {
            r.push((start, i));
            start = i + 1;
        } else {
            proof {
                assert(s@.subrange(start as int, i + 1) =~= s@.subrange(
                    start as int,
                    i as int,
                ).push(s@[i as int]));
            }
        }
        i += 1;
    }
    proof {
        assert(s@.take(s@.len() as int) =~= s@);
    }
    r.push((start, i));
    r
}

/// Parse a comma-separated list of stems: each piece is trimmed and put in
/// lowercase; empty pieces are left away.
pub fn parse_list(raw: &str) -> (list: Vec<String>)
    ensures
        stems_view(list@) == parsed_list(raw@),
{
    let chars = to_chars(raw);
    let ranges = split_ranges(chars.as_slice(), ',');
    let ghost pieces = split_on(raw@, ',');
    let mut list: Vec<String> = Vec::new();
    let mut k: usize = 0;
    while k < ranges.len()
        invariant
            k <= ranges.len(),
            chars@ == raw@,
            pieces == split_on(raw@, ','),
            ranges@.len() == pieces.len(),
            forall|j: int|
                0 <= j < ranges@.len() ==> (#[trigger] ranges@[j]).0 <= ranges@[j].1
                    <= chars@.len() && chars@.subrange(ranges@[j].0 as int, ranges@[j].1 as int)
                    == pieces[j],
            stems_view(list@) == stems_of_pieces(pieces.take(k as int)),
        decreases ranges.len() - k,
    {
        let (a, b) = ranges[k];
        proof {
            assert(pieces.take(k + 1).drop_last() =~= pieces.take(k as int));
        }
        let piece = slice_subrange(chars.as_slice(), a, b);
        let (ta, tb) = trim_range(piece);
        proof {
            assert(raw@.subrange(a + ta, a + tb) =~= piece@.subrange(ta as int, tb as int));
        }
        let stem = str_to_lowercase(raw.substring_char(a + ta, a + tb));
        if !stem.as_str().is_empty() {
            list.push(stem);
        }
        k += 1;
    }
    proof {
        assert(pieces.take(pieces.len() as int) =~= pieces);
    }
    list
}

/// The number of `c` at the start of `s`.
pub fn count_leading(s: &[char], c: char) -> (n: usize)
    ensures
        n <= s@.len(),
        s@.skip(n as int) == without_leading(s@, c),
{
    let mut n: usize = 0;
    proof {
        assert(s@.skip(0) =~= s@);
    }
    while n < s.len() && s[n] == c
        invariant
            n <= s.len(),
            without_leading(s@.skip(n as int), c) == without_leading(s@, c),
        decreases s.len() - n,
    {
        proof {
            assert(s@.skip(n as int).drop_first() =~= s@.skip(n + 1));
        }
        n += 1;
    }
    n
}

/// Parse a comma-separated list of channel names: each piece is trimmed and
/// loses the `@` signs at its start; empty pieces are left away.
pub fn parse_channels(raw: &str) -> (list: Vec<String>)
    ensures
        stems_view(list@) == parsed_channels(raw@),
{
    let chars = to_chars(raw);
    let ranges = split_ranges(chars.as_slice(), ',');
    let ghost pieces = split_on(raw@, ',');
    let mut list: Vec<String> = Vec::new();
    let mut k: usize = 0;
    while k < ranges.len()
        invariant
            k <= ranges.len(),
            chars@ == raw@,
            pieces == split_on(raw@, ','),
            ranges@.len() == pieces.len(),
            forall|j: int|
                0 <= j < ranges@.len() ==> (#[trigger] ranges@[j]).0 <= ranges@[j].1
                    <= chars@.len() && chars@.subrange(ranges@[j].0 as int, ranges@[j].1 as int)
                    == pieces[j],
            stems_view(list@) == channels_of_pieces(pieces.take(k as int)),
        decreases ranges.len() - k,
    {
        let (a, b) = ranges[k];
        proof {
            assert(pieces.take(k + 1).drop_last() =~= pieces.take(k as int));
        }
        let piece = slice_subrange(chars.as_slice(), a, b);
        let (ta, tb) = trim_range(piece);
        let inner = slice_subrange(piece, ta, tb);
        let n = count_leading(inner, '@');
        proof {
            assert(raw@.subrange(a + ta + n, a + tb) =~= inner@.skip(n as int));
        }
        if ta + n < tb {
            let name = String::from_str(raw.substring_char(a + ta + n, a + tb));
            list.push(name);
        }
        k += 1;
    }
    proof {
        assert(pieces.take(pieces.len() as int) =~= pieces);
    }
    list
}

impl LocationConfig {
    /// Build from three comma-separated lists of stems. A list that is not
    /// given is empty.
    pub fn from_lists(oblast: Option<&str>, city: Option<&str>, district: Option<&str>) -> (location:
        LocationConfig)
        ensures
            location@.oblast == parsed_list(given(oblast)),
            location@.city == parsed_list(given(city)),
            location@.district == parsed_list(given(district)),
    {
        LocationConfig {
            oblast: parse_list(text_or_empty(oblast)),
            city: parse_list(text_or_empty(city)),
            district: parse_list(text_or_empty(district)),
        }
    }
}

/// The characters of a setting, none where it is not given.
pub open spec fn given(value: Option<&str>) -> Seq<char> {
    match value {
        Some(s) => s@,
        None => Seq::empty(),
    }
}

/// The setting, or the empty text where it is not given.
pub fn text_or_empty<'a>(value: Option<&'a str>) -> (s: &'a str)
    ensures
        s@ == given(value),
{
    match value {
        Some(s) => s,
        None => {
            let empty = "";
            proof {
                reveal_strlit("");
            }
            empty
        },
    }
}

// ──────────────────────────────── Numbers ────────────────────────────────

/// The value of a decimal digit; nothing for any other character.
pub open spec fn digit_value(c: char) -> nat {
    if is_ascii_digit(c) {
        (c as int - '0' as int) as nat
    } else {
        0
    }
}

/// The number that a sequence of decimal digits writes.
pub open spec fn decimal_value(digits: Seq<char>) -> nat
    decreases digits.len(),
{
    if digits.len() == 0 {
        0
    } else {
        decimal_value(digits.drop_last()) * 10 + digit_value(digits.last())
    }
}

/// `s` is one decimal digit or more, and nothing else.
pub open spec fn is_number(s: Seq<char>) -> bool {
    s.len() > 0 && forall|i: int| 0 <= i < s.len() ==> is_ascii_digit(#[trigger] s[i])
}

/// `s` without a plus sign at its start.
pub open spec fn unsigned_text(s: Seq<char>) -> Seq<char> {
    if s.len() > 0 && s[0] == '+' {
        s.skip(1)
    } else {
        s
    }
}

/// The number that `digits` write, if they are digits and the number is at
/// most `limit`.
pub open spec fn magnitude(digits: Seq<char>, limit: u64) -> Option<u64> {
    if is_number(digits) && decimal_value(digits) <= limit {
        Some(decimal_value(digits) as u64)
    } else {
        None
    }
}

/// The unsigned number that `s` writes in decimal, with or without a plus
/// sign, if it fits in 64 bits.
pub open spec fn parsed_u64(s: Seq<char>) -> Option<u64> {
    magnitude(unsigned_text(s), u64::MAX)
}

/// The signed number that `s` writes in decimal, with or without a sign, if
/// it fits in 32 bits.
pub open spec fn parsed_i32(s: Seq<char>) -> Option<i32> {
    if s.len() > 0 && s[0] == '-' {
        match magnitude(s.skip(1), 0x8000_0000) {
            Some(m) => Some((-(m as int)) as i32),
            None => None,
        }
    } else {
        match magnitude(unsigned_text(s), 0x7fff_ffff) {
            Some(m) => Some(m as i32),
            None => None,
        }
    }
}

/// The number that a prefix writes is at most the number that the whole
/// writes.
pub proof fn lemma_decimal_value_grows(digits: Seq<char>, n: int)
    requires
        0 <= n <= digits.len(),
    ensures
        decimal_value(digits.take(n)) <= decimal_value(digits),
    decreases digits.len() - n,
{
    if n < digits.len() {
        lemma_decimal_value_grows(digits, n + 1);
        assert(digits.take(n + 1).drop_last() =~= digits.take(n));
    } else {
        assert(digits.take(n) =~= digits);
    }
}

/// The number that `digits` write, see [`magnitude`].
pub fn parse_magnitude(digits: &[char], limit: u64) -> (r: Option<u64>)
    ensures
        r == magnitude(digits@, limit),
{
    if digits.len() == 0 {
        return None;
    }
    let mut value: u64 = 0;
    let mut i: usize = 0;
    while i < digits.len()
        invariant
            i <= digits.len(),
            forall|k: int| 0 <= k < i ==> is_ascii_digit(#[trigger] digits@[k]),
            value == decimal_value(digits@.take(i as int)),
            value <= limit,
        decreases digits.len() - i,
    {
        let c = digits[i];
        if !(c >= '0' && c <= '9') {
            return None;
        }
        let d: u64 = (c as u32 - '0' as u32) as u64;
        proof {
            assert(digits@.take(i + 1).drop_last() =~= digits@.take(i as int));
        }
        if d > limit || value > (limit - d) / 10 {
            proof {
                lemma_decimal_value_grows(digits@, i + 1);
            }
            return None;
        }
        value = value * 10 + d;
        i += 1;
    }
    proof {
        assert(digits@.take(digits@.len() as int) =~= digits@);
    }
    Some(value)
}

/// Parse an unsigned decimal number.
pub fn parse_u64(s: &str) -> (r: Option<u64>)
    ensures
        r == parsed_u64(s@),
{
    let chars = to_chars(s);
    let skip: usize = if chars.len() > 0 && chars[0] == '+' {
        1
    } else {
        0
    };
    let digits = slice_subrange(chars.as_slice(), skip, chars.len());
    proof {
        assert(digits@ =~= unsigned_text(s@));
    }
    parse_magnitude(digits, u64::MAX)
}

/// Parse a signed decimal number of 32 bits.
pub fn parse_i32(s: &str) -> (r: Option<i32>)
    ensures
        r == parsed_i32(s@),
{
    let chars = to_chars(s);
    if chars.len() > 0 && chars[0] == '-' {
        let digits = slice_subrange(chars.as_slice(), 1, chars.len());
        match parse_magnitude(digits, 0x8000_0000) {
            Some(m) => {
                if m == 0x8000_0000 {
                    Some(i32::MIN)
                } else {
                    Some(-(m as i32))
                }
            },
            None => None,
        }
    } else {
        let skip: usize = if chars.len() > 0 && chars[0] == '+' {
            1
        } else {
            0
        };
        let digits = slice_subrange(chars.as_slice(), skip, chars.len());
        proof {
            assert(digits@ =~= unsigned_text(s@));
        }
        match parse_magnitude(digits, 0x7fff_ffff) {
            Some(m) => Some(m as i32),
            None => None,
        }
    }
}

/// The setting, where it is given, writes a number.
pub open spec fn writes_number(value: Option<&str>) -> bool {
    match value {
        Some(s) => parsed_u64(s@) is Some,
        None => true,
    }
}

/// The number that a setting writes, or `default` where the setting is not
/// given.
pub open spec fn number_or(value: Option<&str>, default: u64) -> u64 {
    match value {
        Some(s) => match parsed_u64(s@) {
            Some(n) => n,
            None => default,
        },
        None => default,
    }
}

/// The number that a setting writes, or `default` where the setting is not
/// given; nothing where it is given and writes no number.
pub fn parse_number_or(value: Option<&str>, default: u64) -> (r: Option<u64>)
    ensures
        r == if writes_number(value) {
            Some(number_or(value, default))
        } else {
            None
        },
{
    match value {
        Some(s) => parse_u64(s),
        None => Some(default),
    }
}

/// A time in seconds as milliseconds, at most `u64::MAX`.
pub open spec fn millis_of(seconds: u64) -> u64 {
    if seconds * 1000 > u64::MAX {
        u64::MAX
    } else {
        (seconds * 1000) as u64
    }
}

/// A time in seconds as milliseconds, at most `u64::MAX`.
pub fn seconds_to_millis(seconds: u64) -> (ms: u64)
    ensures
        ms == millis_of(seconds),
{
    if seconds > u64::MAX / 1000 {
        u64::MAX
    } else {
        seconds * 1000
    }
}

// ───────────────────────────────── Flags ─────────────────────────────────

/// `c` with an ASCII capital letter made small.
pub open spec fn ascii_lower(c: char) -> char {
    if 'A' <= c && c <= 'Z' {
        ((c as u32 + 32) as u32) as char
    } else {
        c
    }
}

/// `s` and `word` are alike but for the case of ASCII letters.
pub open spec fn alike_ignoring_ascii_case(s: Seq<char>, word: Seq<char>) -> bool {
    s.len() == word.len() && forall|i: int|
        0 <= i < s.len() ==> ascii_lower(#[trigger] s[i]) == ascii_lower(word[i])
}

/// A flag is set by `1` and by `true` in any case of its letters.
pub open spec fn flag_set(s: Seq<char>) -> bool {
    s == "1"@ || alike_ignoring_ascii_case(s, "true"@)
}

/// A switch is set by what sets a flag and by `yes` in any case of its
/// letters.
pub open spec fn switch_set(s: Seq<char>) -> bool {
    flag_set(s) || alike_ignoring_ascii_case(s, "yes"@)
}

/// `c` with an ASCII capital letter made small.
pub fn to_ascii_lower(c: char) -> (r: char)
    ensures
        r == ascii_lower(c),
{
    if c >= 'A' && c <= 'Z' {
        ((c as u8) + 32) as char
    } else {
        c
    }
}

/// Whether `s` and `word` are alike but for the case of ASCII letters.
pub fn eq_ignore_ascii_case(s: &[char], word: &str) -> (b: bool)
    ensures
        b == alike_ignoring_ascii_case(s@, word@),
{
    let w = to_chars(word);
    if s.len() != w.len() {
        return false;
    }
    let mut i: usize = 0;
    while i < s.len()
        invariant
            i <= s.len(),
            s.len() == w.len(),
            w@ == word@,
            forall|k: int| 0 <= k < i ==> ascii_lower(#[trigger] s@[k]) == ascii_lower(w@[k]),
        decreases s.len() - i,
    {
        if to_ascii_lower(s[i]) != to_ascii_lower(w[i]) {
            return false;
        }
        i += 1;
    }
    true
}

/// Whether the text sets a flag.
pub fn parse_flag(s: &str) -> (b: bool)
    ensures
        b == flag_set(s@),
{
    let chars = to_chars(s);
    equals_str(chars.as_slice(), "1") || eq_ignore_ascii_case(chars.as_slice(), "true")
}

/// Whether the text sets a switch.
pub fn parse_switch(s: &str) -> (b: bool)
    ensures
        b == switch_set(s@),
{
    let chars = to_chars(s);
    equals_str(chars.as_slice(), "1") || eq_ignore_ascii_case(chars.as_slice(), "true")
        || eq_ignore_ascii_case(chars.as_slice(), "yes")
}

// ─────────────────────────── Engine settings ─────────────────────────────

/// The default lifetime of a cache entry, in seconds.
pub const DEDUP_WINDOW_SECS: u64 = 180;

/// The default lifetime of a window entry, in seconds.
pub const CONTEXT_WINDOW_SECS: u64 = 300;

/// The default cooldown of urgent alerts of one source, in seconds.
pub const URGENT_COOLDOWN_SECS: u64 = 0;

/// The default cooldown of status updates of one source, in seconds.
pub const NEGATIVE_STATUS_COOLDOWN_SECS: u64 = 120;

/// The engine's settings as they are written outside: three lists of stems,
/// four times in seconds, and a flag. What is `None` was not given.
pub struct RawSettings<'a> {
    pub oblast: Option<&'a str>,
    pub city: Option<&'a str>,
    pub district: Option<&'a str>,
    pub dedup_window_secs: Option<&'a str>,
    pub context_window_secs: Option<&'a str>,
    pub urgent_cooldown_secs: Option<&'a str>,
    pub negative_status_cooldown_secs: Option<&'a str>,
    pub forward_all_threats: Option<&'a str>,
}

impl<'a> RawSettings<'a> {
    /// Each of the four times, where it is given, writes a number.
    pub open spec fn valid(self) -> bool {
        &&& writes_number(self.dedup_window_secs)
        &&& writes_number(self.context_window_secs)
        &&& writes_number(self.urgent_cooldown_secs)
        &&& writes_number(self.negative_status_cooldown_secs)
    }

    /// The state of a new engine with valid settings: each list parsed, each
    /// time read as a number of seconds, or taken by default where it is not
    /// given, the flag set only if it is given and says so.
    pub open spec fn model(self) -> FilterModel {
        FilterModel {
            location: LocationModel {
                oblast: parsed_list(given(self.oblast)),
                city: parsed_list(given(self.city)),
                district: parsed_list(given(self.district)),
            },
            dedup_window: millis_of(number_or(self.dedup_window_secs, DEDUP_WINDOW_SECS)),
            context_window: millis_of(number_or(self.context_window_secs, CONTEXT_WINDOW_SECS)),
            urgent_same_channel_cooldown: millis_of(
                number_or(self.urgent_cooldown_secs, URGENT_COOLDOWN_SECS),
            ),
            forward_all_threats: match self.forward_all_threats {
                Some(s) => flag_set(s@),
                None => false,
            },
            negative_status_cooldown: millis_of(
                number_or(self.negative_status_cooldown_secs, NEGATIVE_STATUS_COOLDOWN_SECS),
            ),
            cache: Map::empty(),
            contexts: Seq::empty(),
            negative: Seq::empty(),
        }
    }
}

impl AlertFilter {
    /// Construct an engine from settings as they are written outside. A
    /// time that is given and writes no number of seconds is refused: no
    /// engine is built on a value put in its place.
    pub fn from_settings(raw: &RawSettings) -> (r: Result<AlertFilter, ConfigError>)
        ensures
            raw.valid() ==> r is Ok && r->Ok_0@ == raw.model(),
            !raw.valid() ==> r is Err && r->Err_0 == ConfigError::BadDuration,
    {
        let dedup = match parse_number_or(raw.dedup_window_secs, DEDUP_WINDOW_SECS) {
            Some(n) => n,
            None => {
                return Err(ConfigError::BadDuration);
            },
        };
        let context = match parse_number_or(raw.context_window_secs, CONTEXT_WINDOW_SECS) {
            Some(n) => n,
            None => {
                return Err(ConfigError::BadDuration);
            },
        };
        let urgent = match parse_number_or(raw.urgent_cooldown_secs, URGENT_COOLDOWN_SECS) {
            Some(n) => n,
            None => {
                return Err(ConfigError::BadDuration);
            },
        };
        let negative = match parse_number_or(
            raw.negative_status_cooldown_secs,
            NEGATIVE_STATUS_COOLDOWN_SECS,
        ) {
            Some(n) => n,
            None => {
                return Err(ConfigError::BadDuration);
            },
        };
        let location = LocationConfig::from_lists(raw.oblast, raw.city, raw.district);
        let forward_all = match raw.forward_all_threats {
            Some(s) => parse_flag(s),
            None => false,
        };
        Ok(
            AlertFilter::new(
                location,
                seconds_to_millis(dedup),
                seconds_to_millis(context),
                seconds_to_millis(urgent),
                seconds_to_millis(negative),
                forward_all,
            ),
        )
    }
}

// ──────────────────────────────── Run mode ───────────────────────────────

/// What the program does.
#[derive(Debug, Clone, Copy, PartialEq, Eq, Structural)]
pub enum RunMode {
    /// Listen to the channels and forward alerts.
    Live,
    /// Write today's messages of the channels to a file.
    DumpToday,
    /// Feed the messages of a file to the engine.
    Replay,
}

impl RunMode {
    /// The mode that a trimmed, lowercase word names; `Live` for any other
    /// word.
    pub open spec fn named(word: Seq<char>) -> RunMode {
        if word == "dump_today"@ || word == "dump"@ {
            RunMode::DumpToday
        } else if word == "replay"@ {
            RunMode::Replay
        } else {
            RunMode::Live
        }
    }

    /// The mode that a setting names, ignoring case and white space around
    /// it.
    pub fn parse(raw: &str) -> (mode: RunMode)
        ensures
            mode == Self::named(lowercase(trimmed(raw@))),
    {
        let chars = to_chars(raw);
        let (a, b) = trim_range(chars.as_slice());
        let word = lowered_chars(raw.substring_char(a, b));
        if equals_str(word.as_slice(), "dump_today") || equals_str(word.as_slice(), "dump") {
            RunMode::DumpToday
        } else if equals_str(word.as_slice(), "replay") {
            RunMode::Replay
        } else {
            RunMode::Live
        }
    }
}

// ─────────────────────────── Channel settings ────────────────────────────

/// Where the session is kept if nothing else is said.
pub const DEFAULT_SESSION_PATH: &'static str = "./telegram.session.sqlite";

/// What is wrong with the settings.
#[derive(Debug, Clone, Copy, PartialEq, Eq, Structural)]
pub enum ConfigError {
    /// The list of channels names no channel.
    NoChannels,
    /// The application id is no 32-bit number.
    BadApiId,
    /// A window or a cooldown is given and writes no number of seconds.
    BadDuration,
}

/// The settings of the messaging client.
#[derive(Debug, Clone)]
pub struct TgCfg {
    pub api_id: i32,
    pub api_hash: String,
    pub phone: String,
    pub two_fa_password: Option<String>,
    pub session_path: String,
    pub channels: Vec<String>,
}

impl TgCfg {
    /// Build the settings from their written forms. The list of channels
    /// must name a channel and the application id must be a number.
    pub fn from_values(
        channels: &str,
        api_id: &str,
        api_hash: String,
        phone: String,
        two_fa_password: Option<String>,
        session_path: Option<String>,
    ) -> (r: Result<TgCfg, ConfigError>)
        ensures
            parsed_channels(channels@).len() == 0 ==> r == Err::<TgCfg, ConfigError>(
                ConfigError::NoChannels,
            ),
            parsed_channels(channels@).len() > 0 && parsed_i32(api_id@) is None ==> r == Err::<
                TgCfg,
                ConfigError,
            >(ConfigError::BadApiId),
            parsed_channels(channels@).len() > 0 && parsed_i32(api_id@) is Some ==> r is Ok && ({
                let cfg = r->Ok_0;
                &&& stems_view(cfg.channels@) == parsed_channels(channels@)
                &&& Some(cfg.api_id) == parsed_i32(api_id@)
                &&& cfg.api_hash == api_hash
                &&& cfg.phone == phone
                &&& cfg.two_fa_password == two_fa_password
                &&& cfg.session_path@ == match session_path {
                    Some(p) => p@,
                    None => DEFAULT_SESSION_PATH@,
                }
            }),
    {
        let channels = parse_channels(channels);
        if channels.len() == 0 {
            return Err(ConfigError::NoChannels);
        }
        let api_id = match parse_i32(api_id) {
            Some(n) => n,
            None => {
                return Err(ConfigError::BadApiId);
            },
        };
        let session_path = match session_path {
            Some(p) => p,
            None => String::from_str(DEFAULT_SESSION_PATH),
        };
        Ok(TgCfg { api_id, api_hash, phone, two_fa_password, session_path, channels })
    }
}

} // verus!
