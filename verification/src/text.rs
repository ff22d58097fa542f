//! Character-level text scanning shared by every statement parser.
//!
//! Statements arrive as plain text; every search here works on the
//! text's characters (never its UTF-8 bytes), so positions and window
//! widths are counted in characters.

use vstd::prelude::*;

verus! {

/// The characters of `s`, in order.
pub fn chars_of(s: &str) -> (out: Vec<char>)
    ensures
        out@ == s@,
{
    let mut out: Vec<char> = Vec::new();
    for c in it: s.chars()
        invariant
            out@ == it.seq().take(it.index() as int),
    {
        out.push(c);
    }
    out
}

/// A `String` holding exactly the given characters.
#[verifier::external_body]
pub fn string_of(cs: &[char]) -> (s: String)
    ensures
        s@ == cs@,
{
    cs.iter().collect()
}

/// Equality of two string slices, character by character.
pub fn str_eq(a: &str, b: &str) -> (r: bool)
    ensures
        r == (a@ == b@),
{
    chars_equal(&chars_of(a), &chars_of(b))
}

/// What `str::to_lowercase` returns for a string with the given
/// characters (Unicode lower-casing, including its context rules).
pub uninterp spec fn lowercase(s: Seq<char>) -> Seq<char>;

/// `str::to_lowercase`: the Unicode lower-case form of `s`.
#[verifier::external_body]
fn lowercase_string(s: &str) -> (r: String)
    ensures
        r@ == lowercase(s@),
{
    s.to_lowercase()
}

/// The lower-case form of a character sequence, as `str::to_lowercase`
/// computes it.
pub fn to_lowercase(t: &[char]) -> (r: Vec<char>)
    ensures
        r@ == lowercase(t@),
{
    let s = string_of(t);
    let l = lowercase_string(s.as_str());
    chars_of(l.as_str())
}

/// The lower-case form of a string slice, as a character vector.
pub fn lowercase_chars(s: &str) -> (r: Vec<char>)
    ensures
        r@ == lowercase(s@),
{
    let l = lowercase_string(s);
    chars_of(l.as_str())
}

// ---------------------------------------------------------------------
// Character classes
// ---------------------------------------------------------------------

pub open spec fn is_digit(c: char) -> bool {
    '0' <= c && c <= '9'
}

pub open spec fn is_upper(c: char) -> bool {
    'A' <= c && c <= 'Z'
}

pub open spec fn is_lower(c: char) -> bool {
    'a' <= c && c <= 'z'
}

pub open spec fn is_alnum(c: char) -> bool {
    is_digit(c) || is_upper(c) || is_lower(c)
}

/// Unicode `White_Space`, the set `char::is_whitespace` tests for.
pub open spec fn is_ws(c: char) -> bool {
    ||| ('\u{9}' <= c && c <= '\u{d}')
    ||| c == ' '
    ||| c == '\u{85}'
    ||| c == '\u{a0}'
    ||| c == '\u{1680}'
    ||| ('\u{2000}' <= c && c <= '\u{200a}')
    ||| c == '\u{2028}'
    ||| c == '\u{2029}'
    ||| c == '\u{202f}'
    ||| c == '\u{205f}'
    ||| c == '\u{3000}'
}

pub fn is_digit_exec(c: char) -> (r: bool)
    ensures
        r == is_digit(c),
{
    '0' <= c && c <= '9'
}

pub fn is_upper_exec(c: char) -> (r: bool)
    ensures
        r == is_upper(c),
{
    'A' <= c && c <= 'Z'
}

pub fn is_alnum_exec(c: char) -> (r: bool)
    ensures
        r == is_alnum(c),
{
    ('0' <= c && c <= '9') || ('A' <= c && c <= 'Z') || ('a' <= c && c <= 'z')
}

pub fn is_ws_exec(c: char) -> (r: bool)
    ensures
        r == is_ws(c),
{
    ('\u{9}' <= c && c <= '\u{d}') || c == ' ' || c == '\u{85}' || c == '\u{a0}' || c
        == '\u{1680}' || ('\u{2000}' <= c && c <= '\u{200a}') || c == '\u{2028}' || c
        == '\u{2029}' || c == '\u{202f}' || c == '\u{205f}' || c == '\u{3000}'
}

/// The character classes that the parsers read runs of.
#[derive(Clone, Copy, PartialEq, Eq, Structural)]
pub enum CharClass {
    /// `0`-`9`.
    Digit,
    /// A digit, `,` or `.` — the characters of a written dollar amount.
    Amount,
    /// A digit or `.`.
    Number,
    /// A digit or `/` — a written `MM/DD/YYYY` date.
    SlashDate,
    /// An ASCII letter or digit, a space or `,` — a written
    /// `Month DD, YYYY` date.
    WordDate,
    /// An ASCII letter or digit, or `-`.
    AlnumDash,
    /// An ASCII letter or digit.
    Alnum,
    /// `A`-`Z`.
    Upper,
}

pub open spec fn in_class(k: CharClass, c: char) -> bool {
    match k {
        CharClass::Digit => is_digit(c),
        CharClass::Amount => is_digit(c) || c == ',' || c == '.',
        CharClass::Number => is_digit(c) || c == '.',
        CharClass::SlashDate => is_digit(c) || c == '/',
        CharClass::WordDate => is_alnum(c) || c == ' ' || c == ',',
        CharClass::AlnumDash => is_alnum(c) || c == '-',
        CharClass::Alnum => is_alnum(c),
        CharClass::Upper => is_upper(c),
    }
}

pub fn in_class_exec(k: CharClass, c: char) -> (r: bool)
    ensures
        r == in_class(k, c),
{
    match k {
        CharClass::Digit => is_digit_exec(c),
        CharClass::Amount => is_digit_exec(c) || c == ',' || c == '.',
        CharClass::Number => is_digit_exec(c) || c == '.',
        CharClass::SlashDate => is_digit_exec(c) || c == '/',
        CharClass::WordDate => is_alnum_exec(c) || c == ' ' || c == ',',
        CharClass::AlnumDash => is_alnum_exec(c) || c == '-',
        CharClass::Alnum => is_alnum_exec(c),
        CharClass::Upper => is_upper_exec(c),
    }
}

// ---------------------------------------------------------------------
// Searching
// ---------------------------------------------------------------------

/// `m` occurs in `t` starting at position `p`.
pub open spec fn matches_at(t: Seq<char>, p: int, m: Seq<char>) -> bool {
    0 <= p && p + m.len() <= t.len() && t.subrange(p, p + m.len()) == m
}

/// The first position at or after `from` where `m` occurs in `t`.
pub open spec fn find_from(t: Seq<char>, m: Seq<char>, from: int) -> Option<int>
    decreases t.len() + 1 - from,
{
    if from < 0 || from + m.len() > t.len() {
        None
    } else if matches_at(t, from, m) {
        Some(from)
    } else {
        find_from(t, m, from + 1)
    }
}

/// The first position where `m` occurs in `t`.
pub open spec fn find(t: Seq<char>, m: Seq<char>) -> Option<int> {
    find_from(t, m, 0)
}

/// `m` occurs somewhere in `t`.
pub open spec fn contains(t: Seq<char>, m: Seq<char>) -> bool {
    find(t, m) is Some
}

pub proof fn lemma_find_from_bounds(t: Seq<char>, m: Seq<char>, from: int)
    requires
        0 <= from,
    ensures
        find_from(t, m, from) matches Some(p) ==> from <= p && matches_at(t, p, m) && (
        forall|q: int| from <= q < p ==> !matches_at(t, q, m)),
        find_from(t, m, from) is None ==> forall|q: int| from <= q ==> !matches_at(t, q, m),
    decreases t.len() + 1 - from,
{
    if from < 0 || from + m.len() > t.len() {
    } else if matches_at(t, from, m) {
    } else {
        lemma_find_from_bounds(t, m, from + 1);
    }
}

/// Whether `m` occurs in `t` at `p`.
pub fn matches_at_exec(t: &[char], p: usize, m: &[char]) -> (r: bool)
    ensures
        r == matches_at(t@, p as int, m@),
{
    if p > t.len() || m.len() > t.len() - p {
        return false;
    }
    let mut i: usize = 0;
    while i < m.len()
        invariant
            p + m.len() <= t.len(),
            i <= m.len(),
            forall|j: int| 0 <= j < i ==> t@[p + j] == m@[j],
        decreases m.len() - i,
    {
        if t[p + i] != m[i] {
            assert(t@.subrange(p as int, p + m.len())[i as int] != m@[i as int]);
            return false;
        }
        i = i + 1;
    }
    assert(t@.subrange(p as int, p + m.len()) =~= m@);
    true
}

/// The first position at or after `from` where `m` occurs in `t`.
pub fn find_from_exec(t: &[char], m: &[char], from: usize) -> (r: Option<usize>)
    ensures
        r matches Some(p) ==> find_from(t@, m@, from as int) == Some(p as int) && from <= p
            && p + m.len() <= t.len(),
        r is None ==> find_from(t@, m@, from as int) is None,
{
    proof {
        lemma_find_from_bounds(t@, m@, from as int);
    }
    if m.len() == 0 {
        if from <= t.len() {
            assert(t@.subrange(from as int, from as int) =~= m@);
            return Some(from);
        }
        return None;
    }
    let mut i = from;
    while i <= t.len() && m.len() <= t.len() - i
        invariant
            m.len() >= 1,
            from <= i,
            find_from(t@, m@, from as int) == find_from(t@, m@, i as int),
        decreases t.len() + 1 - i,
    {
        if matches_at_exec(t, i, m) {
            return Some(i);
        }
        i = i + 1;
    }
    None
}

/// The first position where `m` occurs in `t`.
pub fn find_exec(t: &[char], m: &[char]) -> (r: Option<usize>)
    ensures
        r matches Some(p) ==> find(t@, m@) == Some(p as int) && p + m.len() <= t.len(),
        r is None ==> find(t@, m@) is None,
{
    find_from_exec(t, m, 0)
}

/// Whether `m` occurs anywhere in `t`.
pub fn contains_exec(t: &[char], m: &[char]) -> (r: bool)
    ensures
        r == contains(t@, m@),
{
    find_exec(t, m).is_some()
}

/// The last position before `end` holding `c`.
pub open spec fn rfind_before(t: Seq<char>, c: char, end: int) -> Option<int>
    decreases end,
{
    if end <= 0 || end > t.len() {
        None
    } else if t[end - 1] == c {
        Some(end - 1)
    } else {
        rfind_before(t, c, end - 1)
    }
}

/// The last position in `t` holding `c`.
pub open spec fn rfind_char(t: Seq<char>, c: char) -> Option<int> {
    rfind_before(t, c, t.len() as int)
}

pub proof fn lemma_rfind_before_bounds(t: Seq<char>, c: char, end: int)
    ensures
        rfind_before(t, c, end) matches Some(p) ==> 0 <= p < end && t[p] == c,
    decreases end,
{
    if end <= 0 || end > t.len() {
    } else if t[end - 1] == c {
    } else {
        lemma_rfind_before_bounds(t, c, end - 1);
    }
}

/// The last position in `t[..end]` holding `c`.
pub fn rfind_before_exec(t: &[char], c: char, end: usize) -> (r: Option<usize>)
    requires
        end <= t.len(),
    ensures
        r matches Some(p) ==> rfind_before(t@, c, end as int) == Some(p as int),
        r is None ==> rfind_before(t@, c, end as int) is None,
{
    let mut e = end;
    while e > 0
        invariant
            e <= end <= t.len(),
            rfind_before(t@, c, end as int) == rfind_before(t@, c, e as int),
        decreases e,
    {
        if t[e - 1] == c {
            return Some(e - 1);
        }
        e = e - 1;
    }
    None
}

/// The first position at or after `from` holding a character of class `k`.
pub open spec fn find_class_from(t: Seq<char>, k: CharClass, from: int) -> Option<int>
    decreases t.len() - from,
{
    if from < 0 || from >= t.len() {
        None
    } else if in_class(k, t[from]) {
        Some(from)
    } else {
        find_class_from(t, k, from + 1)
    }
}

pub proof fn lemma_find_class_from_bounds(t: Seq<char>, k: CharClass, from: int)
    ensures
        find_class_from(t, k, from) matches Some(p) ==> from <= p < t.len() && in_class(
            k,
            t[p],
        ),
    decreases t.len() - from,
{
    if from < 0 || from >= t.len() {
    } else if in_class(k, t[from]) {
    } else {
        lemma_find_class_from_bounds(t, k, from + 1);
    }
}

pub fn find_class_from_exec(t: &[char], k: CharClass, from: usize) -> (r: Option<usize>)
    ensures
        r matches Some(p) ==> find_class_from(t@, k, from as int) == Some(p as int),
        r is None ==> find_class_from(t@, k, from as int) is None,
{
    let mut i = from;
    while i < t.len()
        invariant
            from <= i,
            find_class_from(t@, k, from as int) == find_class_from(t@, k, i as int),
        decreases t.len() - i,
    {
        if in_class_exec(k, t[i]) {
            return Some(i);
        }
        i = i + 1;
    }
    None
}

/// The end of the run of class-`k` characters that starts at `start`.
pub open spec fn run_end(t: Seq<char>, start: int, k: CharClass) -> int
    decreases t.len() - start,
{
    if 0 <= start < t.len() && in_class(k, t[start]) {
        run_end(t, start + 1, k)
    } else {
        start
    }
}

pub proof fn lemma_run_end_bounds(t: Seq<char>, start: int, k: CharClass)
    requires
        0 <= start <= t.len(),
    ensures
        start <= run_end(t, start, k) <= t.len(),
        forall|i: int| start <= i < run_end(t, start, k) ==> in_class(k, #[trigger] t[i]),
    decreases t.len() - start,
{
    if 0 <= start < t.len() && in_class(k, t[start]) {
        lemma_run_end_bounds(t, start + 1, k);
    }
}

/// The end of the run of class-`k` characters that starts at `start`.
pub fn run_end_exec(t: &[char], start: usize, k: CharClass) -> (r: usize)
    requires
        start <= t.len(),
    ensures
        r as int == run_end(t@, start as int, k),
        start <= r <= t.len(),
{
    proof {
        lemma_run_end_bounds(t@, start as int, k);
    }
    let mut i = start;
    while i < t.len() && in_class_exec(k, t[i])
        invariant
            start <= i <= t.len(),
            run_end(t@, start as int, k) == run_end(t@, i as int, k),
        decreases t.len() - i,
    {
        i = i + 1;
    }
    i
}

/// The characters `t[start..end]` as a vector.
pub fn slice_vec(t: &[char], start: usize, end: usize) -> (r: Vec<char>)
    requires
        start <= end <= t.len(),
    ensures
        r@ == t@.subrange(start as int, end as int),
{
    let mut r: Vec<char> = Vec::new();
    let mut i = start;
    while i < end
        invariant
            start <= i <= end <= t.len(),
            r@ == t@.subrange(start as int, i as int),
        decreases end - i,
    {
        r.push(t[i]);
        assert(r@ =~= t@.subrange(start as int, i + 1));
        i = i + 1;
    }
    r
}

/// Whether two character sequences are equal.
pub fn chars_equal(a: &[char], b: &[char]) -> (r: bool)
    ensures
        r == (a@ == b@),
{
    if a.len() != b.len() {
        return false;
    }
    let mut i: usize = 0;
    while i < a.len()
        invariant
            a.len() == b.len(),
            i <= a.len(),
            forall|j: int| 0 <= j < i ==> a@[j] == b@[j],
        decreases a.len() - i,
    {
        if a[i] != b[i] {
            return false;
        }
        i = i + 1;
    }
    assert(a@ =~= b@);
    true
}

/// The characters of `a` followed by those of `b`.
pub fn concat(a: &[char], b: &[char]) -> (r: Vec<char>)
    ensures
        r@ == a@ + b@,
{
    let mut r = slice_vec(a, 0, a.len());
    assert(r@ =~= a@);
    let mut rest = slice_vec(b, 0, b.len());
    assert(rest@ =~= b@);
    r.append(&mut rest);
    r
}

/// Appends the characters of `s` to `out`.
pub fn push_str(out: &mut Vec<char>, s: &str)
    ensures
        final(out)@ == old(out)@ + s@,
{
    let mut cs = chars_of(s);
    out.append(&mut cs);
}

/// The characters of `a`, `b` and `c`, in that order, as a `String`.
pub fn join3(a: &str, b: &str, c: &str) -> (r: String)
    ensures
        r@ == a@ + b@ + c@,
{
    let ab = concat(&chars_of(a), &chars_of(b));
    string_of(&concat(&ab, &chars_of(c)))
}

/// The smaller of two integers.
pub open spec fn min(a: int, b: int) -> int {
    if a < b {
        a
    } else {
        b
    }
}

// ---------------------------------------------------------------------
// Whitespace trimming
// ---------------------------------------------------------------------

/// The first position at or after `from` that is not whitespace (or the end).
pub open spec fn skip_ws(t: Seq<char>, from: int) -> int
    decreases t.len() - from,
{
    if 0 <= from < t.len() && is_ws(t[from]) {
        skip_ws(t, from + 1)
    } else {
        from
    }
}

/// The position just past the last non-whitespace character of `t[..end]`.
pub open spec fn trim_end_pos(t: Seq<char>, start: int, end: int) -> int
    decreases end - start,
{
    if start < end && is_ws(t[end - 1]) {
        trim_end_pos(t, start, end - 1)
    } else {
        end
    }
}

/// `t` with leading and trailing whitespace removed, as `str::trim` does.
pub open spec fn trim(t: Seq<char>) -> Seq<char> {
    let s = skip_ws(t, 0);
    t.subrange(s, trim_end_pos(t, s, t.len() as int))
}

pub proof fn lemma_skip_ws_bounds(t: Seq<char>, from: int)
    requires
        0 <= from <= t.len(),
    ensures
        from <= skip_ws(t, from) <= t.len(),
    decreases t.len() - from,
{
    if 0 <= from < t.len() && is_ws(t[from]) {
        lemma_skip_ws_bounds(t, from + 1);
    }
}

pub proof fn lemma_trim_end_bounds(t: Seq<char>, start: int, end: int)
    requires
        start <= end,
    ensures
        start <= trim_end_pos(t, start, end) <= end,
    decreases end - start,
{
    if start < end && is_ws(t[end - 1]) {
        lemma_trim_end_bounds(t, start, end - 1);
    }
}

pub fn skip_ws_exec(t: &[char], from: usize) -> (r: usize)
    requires
        from <= t.len(),
    ensures
        r as int == skip_ws(t@, from as int),
        from <= r <= t.len(),
{
    proof {
        lemma_skip_ws_bounds(t@, from as int);
    }
    let mut i = from;
    while i < t.len() && is_ws_exec(t[i])
        invariant
            from <= i <= t.len(),
            skip_ws(t@, from as int) == skip_ws(t@, i as int),
        decreases t.len() - i,
    {
        i = i + 1;
    }
    i
}

pub fn trim_end_exec(t: &[char], start: usize, end: usize) -> (r: usize)
    requires
        start <= end <= t.len(),
    ensures
        r as int == trim_end_pos(t@, start as int, end as int),
        start <= r <= end,
{
    proof {
        lemma_trim_end_bounds(t@, start as int, end as int);
    }
    let mut e = end;
    while start < e && is_ws_exec(t[e - 1])
        invariant
            start <= e <= end <= t.len(),
            trim_end_pos(t@, start as int, end as int) == trim_end_pos(t@, start as int, e as int),
        decreases e,
    {
        e = e - 1;
    }
    e
}

/// `t` with leading and trailing whitespace removed.
pub fn trim_exec(t: &[char]) -> (r: Vec<char>)
    ensures
        r@ == trim(t@),
{
    let s = skip_ws_exec(t, 0);
    let e = trim_end_exec(t, s, t.len());
    slice_vec(t, s, e)
}

} // verus!
