//! Character-level text primitives: substring search, word-boundary search,
//! trimming and counting, all stated over sequences of characters.

use vstd::prelude::*;

verus! {

// ───────────────────────── Unicode character classes ─────────────────────

/// Whether `c` has the Unicode `Alphabetic` property.
pub uninterp spec fn is_alphabetic(c: char) -> bool;

/// Whether `c` is alphabetic or numeric in the Unicode sense.
pub uninterp spec fn is_alphanumeric(c: char) -> bool;

/// Whether `c` has the Unicode `White_Space` property.
pub uninterp spec fn is_whitespace(c: char) -> bool;

/// The Unicode lowercase mapping of a whole string.
pub uninterp spec fn lowercase(s: Seq<char>) -> Seq<char>;

/// Calls `char::is_alphabetic`; the result is taken to be the `Alphabetic`
/// property of `c`, whatever that is for the given character.
#[verifier::external_body]
pub(crate) fn char_is_alphabetic(c: char) -> (b: bool)
    ensures
        b == is_alphabetic(c),
{
    c.is_alphabetic()
}

/// Calls `char::is_alphanumeric`; the result is taken to be a fixed property
/// of the character.
#[verifier::external_body]
pub(crate) fn char_is_alphanumeric(c: char) -> (b: bool)
    ensures
        b == is_alphanumeric(c),
{
    c.is_alphanumeric()
}

/// Calls `char::is_whitespace`; the result is taken to be the `White_Space`
/// property of `c`.
#[verifier::external_body]
pub(crate) fn char_is_whitespace(c: char) -> (b: bool)
    ensures
        b == is_whitespace(c),
{
    c.is_whitespace()
}

/// Calls `str::to_lowercase`; the result is taken to depend on the
/// characters of `s` alone.
#[verifier::external_body]
pub(crate) fn str_to_lowercase(s: &str) -> (r: String)
    ensures
        r@ == lowercase(s@),
{
    s.to_lowercase()
}

// ───────────────────────────── Conversions ───────────────────────────────

/// The characters of `s`, in order.
pub fn to_chars(s: &str) -> (v: Vec<char>)
    ensures
        v@ == s@,
{
    let mut v: Vec<char> = Vec::new();
    for c in it: s.chars()
        invariant
            it.seq() == s@,
            v@ =~= s@.take(it.index()),
    {
        v.push(c);
    }
    v
}

/// The characters of the lowercase form of `s`.
pub fn lowered_chars(s: &str) -> (v: Vec<char>)
    ensures
        v@ == lowercase(s@),
{
    let lower = str_to_lowercase(s);
    to_chars(lower.as_str())
}

// ───────────────────────────── Substrings ────────────────────────────────

/// `needle` occurs in `hay` starting at position `i`.
pub open spec fn occurs_at(hay: Seq<char>, needle: Seq<char>, i: int) -> bool {
    &&& 0 <= i
    &&& i + needle.len() <= hay.len()
    &&& hay.subrange(i, i + needle.len()) == needle
}

/// `needle` is a contiguous part of `hay`. The empty needle is part of
/// every text.
pub open spec fn contains(hay: Seq<char>, needle: Seq<char>) -> bool {
    exists|i: int| #[trigger] occurs_at(hay, needle, i)
}

/// Some needle of `needles` is part of `hay`.
pub open spec fn contains_any(hay: Seq<char>, needles: Seq<&'static str>) -> bool {
    exists|k: int| 0 <= k < needles.len() && contains(hay, #[trigger] needles[k]@)
}

/// How many needles of `needles` are part of `hay`.
pub open spec fn count_contained(hay: Seq<char>, needles: Seq<&'static str>) -> nat
    decreases needles.len(),
{
    if needles.len() == 0 {
        0
    } else {
        count_contained(hay, needles.drop_last()) + if contains(hay, needles.last()@) {
            1nat
        } else {
            0nat
        }
    }
}

/// Whether `needle` occurs in `hay` at position `i`.
pub fn matches_at(hay: &[char], needle: &[char], i: usize) -> (b: bool)
    ensures
        b == occurs_at(hay@, needle@, i as int),
{
    let n: usize = needle.len();
    if n > hay.len() || i > hay.len() - n {
        return false;
    }
    let mut j: usize = 0;
    while j < n
        invariant
            n == needle.len(),
            i + n <= hay.len(),
            j <= n,
            forall|k: int| 0 <= k < j ==> hay@[i + k] == needle@[k],
        decreases n - j,
    {
        if hay[i + j] != needle[j] {
            return false;
        }
        j += 1;
    }
    proof {
        assert(hay@.subrange(i as int, i + n) =~= needle@);
    }
    true
}

/// Whether `needle` is a contiguous part of `hay`.
pub fn find(hay: &[char], needle: &[char]) -> (b: bool)
    ensures
        b == contains(hay@, needle@),
{
    let n: usize = needle.len();
    if n > hay.len() {
        return false;
    }
    let last: usize = hay.len() - n;
    let mut i: usize = 0;
    loop
        invariant
            n == needle.len(),
            last == hay.len() - n,
            i <= last,
            forall|k: int| 0 <= k < i ==> !occurs_at(hay@, needle@, k),
        decreases last - i,
    {
        if matches_at(hay, needle, i) {
            return true;
        }
        if i == last {
            return false;
        }
        i += 1;
    }
}

/// Whether the literal `needle` is a contiguous part of `hay`.
pub fn find_str(hay: &[char], needle: &str) -> (b: bool)
    ensures
        b == contains(hay@, needle@),
{
    let n = to_chars(needle);
    find(hay, n.as_slice())
}

/// Whether `s` is, character for character, the literal `word`.
pub fn equals_str(s: &[char], word: &str) -> (b: bool)
    ensures
        b == (s@ == word@),
{
    let w = to_chars(word);
    if s.len() != w.len() {
        return false;
    }
    let b = matches_at(s, w.as_slice(), 0);
    proof {
        assert(s@.subrange(0, s@.len() as int) =~= s@);
    }
    b
}

/// Whether some literal of `needles` is a contiguous part of `hay`.
pub fn find_any<const N: usize>(hay: &[char], needles: &[&'static str; N]) -> (b: bool)
    ensures
        b == contains_any(hay@, needles@),
{
    let mut k: usize = 0;
    while k < N
        invariant
            k <= N,
            needles@.len() == N,
            forall|j: int| 0 <= j < k ==> !contains(hay@, #[trigger] needles@[j]@),
        decreases N - k,
    {
        if find_str(hay, needles[k]) {
            return true;
        }
        k += 1;
    }
    false
}

/// The number of literals of `needles` that are part of `hay`.
pub fn count_any<const N: usize>(hay: &[char], needles: &[&'static str; N]) -> (n: usize)
    ensures
        n == count_contained(hay@, needles@),
{
    let mut n: usize = 0;
    let mut k: usize = 0;
    while k < N
        invariant
            k <= N,
            needles@.len() == N,
            n <= k,
            n == count_contained(hay@, needles@.take(k as int)),
        decreases N - k,
    {
        proof {
            assert(needles@.take(k + 1).drop_last() =~= needles@.take(k as int));
        }
        if find_str(hay, needles[k]) {
            n += 1;
        }
        k += 1;
    }
    proof {
        assert(needles@.take(N as int) =~= needles@);
    }
    n
}

// ─────────────────────────── Word boundaries ─────────────────────────────

/// Which characters count as part of a word when a boundary is looked for.
#[derive(Clone, Copy, PartialEq, Eq, Structural)]
pub enum WordClass {
    /// Letters.
    Alphabetic,
    /// Letters and digits.
    Alphanumeric,
}

impl WordClass {
    /// Whether `c` belongs to the class.
    pub open spec fn holds(self, c: char) -> bool {
        match self {
            WordClass::Alphabetic => is_alphabetic(c),
            WordClass::Alphanumeric => is_alphanumeric(c),
        }
    }

    /// Whether `c` belongs to the class.
    pub fn test(&self, c: char) -> (b: bool)
        ensures
            b == self.holds(c),
    {
        match self {
            WordClass::Alphabetic => char_is_alphabetic(c),
            WordClass::Alphanumeric => char_is_alphanumeric(c),
        }
    }
}

/// Position `i` of `hay` is the start of the text or follows a character
/// outside the class.
pub open spec fn open_before(hay: Seq<char>, i: int, class: WordClass) -> bool {
    i <= 0 || !class.holds(hay[i - 1])
}

/// Position `i` of `hay` is the end of the text or holds a character
/// outside the class.
pub open spec fn open_after(hay: Seq<char>, i: int, class: WordClass) -> bool {
    i >= hay.len() || !class.holds(hay[i])
}

/// `needle` occurs at `i` and a character of the class follows it neither
/// directly nor, when `both` is set, precedes it directly.
pub open spec fn free_at(hay: Seq<char>, needle: Seq<char>, i: int, class: WordClass, both: bool) -> bool {
    &&& occurs_at(hay, needle, i)
    &&& open_after(hay, i + needle.len(), class)
    &&& both ==> open_before(hay, i, class)
}

/// Some occurrence of `needle` in `hay` is free in the sense of [`free_at`].
pub open spec fn contains_free(hay: Seq<char>, needle: Seq<char>, class: WordClass, both: bool) -> bool {
    exists|i: int| #[trigger] free_at(hay, needle, i, class, both)
}

/// Whether some occurrence of `needle` in `hay` is free of the class on the
/// right and, when `both` is set, on the left too.
pub fn find_free(hay: &[char], needle: &[char], class: WordClass, both: bool) -> (b: bool)
    ensures
        b == contains_free(hay@, needle@, class, both),
{
    let n: usize = needle.len();
    if n > hay.len() {
        return false;
    }
    let last: usize = hay.len() - n;
    let mut i: usize = 0;
    loop
        invariant
            n == needle.len(),
            last == hay.len() - n,
            i <= last,
            forall|k: int| 0 <= k < i ==> !free_at(hay@, needle@, k, class, both),
        decreases last - i,
    {
        if matches_at(hay, needle, i) {
            let after_ok = i + n >= hay.len() || !class.test(hay[i + n]);
            let before_ok = !both || i == 0 || !class.test(hay[i - 1]);
            if after_ok && before_ok {
                assert(free_at(hay@, needle@, i as int, class, both));
                return true;
            }
        }
        if i == last {
            return false;
        }
        i += 1;
    }
}

/// [`find_free`] for a literal needle.
pub fn find_free_str(hay: &[char], needle: &str, class: WordClass, both: bool) -> (b: bool)
    ensures
        b == contains_free(hay@, needle@, class, both),
{
    let n = to_chars(needle);
    find_free(hay, n.as_slice(), class, both)
}

/// Some character of `s` is white space.
pub open spec fn has_whitespace(s: Seq<char>) -> bool {
    exists|i: int| 0 <= i < s.len() && is_whitespace(#[trigger] s[i])
}

/// Whether some character of `s` is white space.
pub fn any_whitespace(s: &[char]) -> (b: bool)
    ensures
        b == has_whitespace(s@),
{
    let mut i: usize = 0;
    while i < s.len()
        invariant
            i <= s.len(),
            forall|k: int| 0 <= k < i ==> !is_whitespace(#[trigger] s@[k]),
        decreases s.len() - i,
    {
        if char_is_whitespace(s[i]) {
            return true;
        }
        i += 1;
    }
    false
}

// ───────────────────────────── Trimming ──────────────────────────────────

/// `s` from `a` to `b` is what is left of `s` when the white space at both
/// ends is taken away; for a text of white space alone, `a == b == s.len()`.
pub open spec fn is_trim_range(s: Seq<char>, a: int, b: int) -> bool {
    &&& 0 <= a <= b <= s.len()
    &&& forall|k: int| 0 <= k < a ==> is_whitespace(#[trigger] s[k])
    &&& forall|k: int| b <= k < s.len() ==> is_whitespace(#[trigger] s[k])
    &&& a < b ==> !is_whitespace(s[a]) && !is_whitespace(s[b - 1])
    &&& a == b ==> a == s.len()
}

/// `s` without the white space at its two ends.
pub open spec fn trimmed(s: Seq<char>) -> Seq<char> {
    let (a, b) = choose|a: int, b: int| is_trim_range(s, a, b);
    s.subrange(a, b)
}

/// The bounds of `s` without the white space at its two ends.
pub fn trim_range(s: &[char]) -> (r: (usize, usize))
    ensures
        is_trim_range(s@, r.0 as int, r.1 as int),
        s@.subrange(r.0 as int, r.1 as int) == trimmed(s@),
{
    let n: usize = s.len();
    let mut a: usize = 0;
    while a < n && char_is_whitespace(s[a])
        invariant
            n == s.len(),
            a <= n,
            forall|k: int| 0 <= k < a ==> is_whitespace(#[trigger] s@[k]),
        decreases n - a,
    {
        a += 1;
    }
    let mut b: usize = n;
    while b > a && char_is_whitespace(s[b - 1])
        invariant
            n == s.len(),
            a <= b <= n,
            a < n ==> !is_whitespace(s@[a as int]),
            forall|k: int| b <= k < n ==> is_whitespace(#[trigger] s@[k]),
        decreases b - a,
    {
        b -= 1;
    }
    proof {
        let (c, d) = choose|c: int, d: int| is_trim_range(s@, c, d);
    }
    (a, b)
}

/// Whether `s` without the white space at its ends is the literal `word`.
pub fn trimmed_is(s: &[char], word: &str) -> (b: bool)
    ensures
        b == (trimmed(s@) == word@),
{
    let w = to_chars(word);
    let (a, e) = trim_range(s);
    if e - a != w.len() {
        return false;
    }
    matches_at(s, w.as_slice(), a)
}

// ───────────────────────────── Counting ──────────────────────────────────

/// The number of positions below `n` at which `needle` occurs in `hay`.
pub open spec fn occurrences_below(hay: Seq<char>, needle: Seq<char>, n: int) -> nat
    decreases n,
{
    if n <= 0 {
        0
    } else {
        occurrences_below(hay, needle, n - 1) + if occurs_at(hay, needle, n - 1) {
            1nat
        } else {
            0nat
        }
    }
}

/// The number of positions at which `needle` occurs in `hay`.
pub open spec fn occurrences(hay: Seq<char>, needle: Seq<char>) -> nat {
    occurrences_below(hay, needle, hay.len() as int)
}

/// The number of positions at which the literal `needle` occurs in `hay`.
pub fn count_occurrences(hay: &[char], needle: &str) -> (n: usize)
    ensures
        n == occurrences(hay@, needle@),
{
    let w = to_chars(needle);
    let m: usize = w.len();
    let len: usize = hay.len();
    let mut n: usize = 0;
    let mut i: usize = 0;
    while i < len
        invariant
            len == hay.len(),
            m == w@.len(),
            w@ == needle@,
            i <= len,
            n <= i,
            n == occurrences_below(hay@, needle@, i as int),
        decreases len - i,
    {
        if m <= len - i && matches_at(hay, w.as_slice(), i) {
            n += 1;
        }
        i += 1;
    }
    n
}

/// An ASCII decimal digit.
pub open spec fn is_ascii_digit(c: char) -> bool {
    '0' <= c && c <= '9'
}

/// The number of ASCII digits among the first `n` characters of `s`.
pub open spec fn digits_below(s: Seq<char>, n: int) -> nat
    decreases n,
{
    if n <= 0 {
        0
    } else {
        digits_below(s, n - 1) + if is_ascii_digit(s[n - 1]) {
            1nat
        } else {
            0nat
        }
    }
}

/// The number of ASCII digits in `s`.
pub open spec fn digit_count(s: Seq<char>) -> nat {
    digits_below(s, s.len() as int)
}

/// The number of ASCII digits in `s`.
pub fn count_digits(s: &[char]) -> (n: usize)
    ensures
        n == digit_count(s@),
{
    let len: usize = s.len();
    let mut n: usize = 0;
    let mut i: usize = 0;
    while i < len
        invariant
            len == s.len(),
            i <= len,
            n <= i,
            n == digits_below(s@, i as int),
        decreases len - i,
    {
        let c = s[i];
        if c >= '0' && c <= '9' {
            n += 1;
        }
        i += 1;
    }
    n
}

} // verus!
