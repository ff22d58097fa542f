//! Field readers shared by the statement parsers: dollar amounts found
//! by their position, sections bounded by headings, the rest of a line
//! and written dates.

use vstd::prelude::*;

use crate::amount::{amount_at, amount_at_exec, number_at, number_at_exec};
use crate::text::{
    find, find_class_from, find_class_from_exec, find_exec, find_from, find_from_exec,
    lemma_find_class_from_bounds, lemma_find_from_bounds, lemma_rfind_before_bounds,
    lemma_run_end_bounds, matches_at, min, rfind_before_exec, rfind_char, run_end, run_end_exec, slice_vec,
    trim, trim_exec, CharClass,
};

verus! {

/// The text held, or the empty text.
pub open spec fn or_empty(o: Option<Seq<char>>) -> Seq<char> {
    match o {
        Some(s) => s,
        None => Seq::empty(),
    }
}

/// An amount in cents, widened to an integer.
pub open spec fn cents_of(o: Option<nat>) -> Option<int> {
    match o {
        Some(v) => Some(v as int),
        None => None,
    }
}

/// The end of the line that `from` is on: the position of the next
/// `\n` at or after `from`, or the end of `t`.
pub open spec fn line_end(t: Seq<char>, from: int) -> int {
    match find_from(t, seq!['\n'], from) {
        Some(n) => n,
        None => t.len() as int,
    }
}

pub fn line_end_exec(t: &[char], from: usize) -> (r: usize)
    requires
        from <= t.len(),
    ensures
        r as int == line_end(t@, from as int),
        from <= r <= t.len(),
{
    let nl: Vec<char> = vec!['\n'];
    assert(nl@ =~= seq!['\n']);
    match find_from_exec(t, &nl, from) {
        Some(n) => n,
        None => t.len(),
    }
}

/// The amount right after the last `$` in `s`, in cents, with the
/// position just past that amount's characters.
pub open spec fn last_dollar(s: Seq<char>) -> Option<(int, int)> {
    match rfind_char(s, '$') {
        None => None,
        Some(d) => match amount_at(s, d + 1) {
            Some(v) => Some((v as int, run_end(s, d + 1, CharClass::Amount))),
            None => None,
        },
    }
}

/// The amount after the last `$` in `s` and the position just past it.
pub fn last_dollar_exec(s: &[char]) -> (r: Option<(i64, usize)>)
    ensures
        r matches Some((v, e)) ==> last_dollar(s@) == Some((v as int, e as int)) && e <= s.len(),
        r is None ==> last_dollar(s@) is None,
{
    match rfind_before_exec(s, '$', s.len()) {
        None => None,
        Some(d) => {
            proof {
                lemma_rfind_before_bounds(s@, '$', s@.len() as int);
            }
            match amount_at_exec(s, d + 1) {
                Some(v) => {
                    let e = run_end_exec(s, d + 1, CharClass::Amount);
                    Some((v, e))
                },
                None => None,
            }
        },
    }
}

/// The amount after the `n`th `$` at or after `from` in `s` (counting
/// from 1), in cents.
pub open spec fn nth_dollar_from(s: Seq<char>, n: nat, from: int) -> Option<int>
    decreases n,
{
    if n == 0 {
        None
    } else {
        match find_from(s, seq!['$'], from) {
            None => None,
            Some(d) => if n == 1 {
                cents_of(amount_at(s, d + 1))
            } else {
                nth_dollar_from(s, (n - 1) as nat, d + 1)
            },
        }
    }
}

/// The amount after the `n`th `$` in `s` (counting from 1), in cents.
pub open spec fn nth_dollar(s: Seq<char>, n: nat) -> Option<int> {
    nth_dollar_from(s, n, 0)
}

/// The amount after the `n`th `$` in `s`.
pub fn nth_dollar_exec(s: &[char], n: usize) -> (r: Option<i64>)
    ensures
        r matches Some(v) ==> 0 <= v && nth_dollar(s@, n as nat) == Some(v as int),
        r is None ==> nth_dollar(s@, n as nat) is None,
{
    let dollar: Vec<char> = vec!['$'];
    assert(dollar@ =~= seq!['$']);
    let mut from: usize = 0;
    let mut k: usize = n;
    while k > 0
        invariant
            dollar@ == seq!['$'],
            from <= s.len(),
            nth_dollar(s@, n as nat) == nth_dollar_from(s@, k as nat, from as int),
        decreases k,
    {
        match find_from_exec(s, &dollar, from) {
            None => {
                return None;
            },
            Some(d) => {
                if k == 1 {
                    return amount_at_exec(s, d + 1);
                }
                from = d + 1;
                k = k - 1;
            },
        }
    }
    None
}

/// Where the section that starts after the first `start` heading in `t`
/// ends: at the first of the two end headings that follows, or at the
/// end of `t`. Gives the section's start and end positions.
pub open spec fn section_bounds(t: Seq<char>, start: Seq<char>, end1: Seq<char>, end2: Seq<char>) -> Option<(int, int)> {
    match find(t, start) {
        None => None,
        Some(p) => {
            let ss = p + start.len();
            let rest = t.skip(ss);
            let se = match (find(rest, end1), find(rest, end2)) {
                (Some(a), Some(b)) => ss + min(a, b),
                (Some(a), None) => ss + a,
                (None, Some(b)) => ss + b,
                (None, None) => t.len() as int,
            };
            Some((ss, se))
        },
    }
}

/// The bounds of the section after heading `start`, up to the first of
/// `end1` and `end2`.
pub fn section_bounds_exec(t: &[char], start: &[char], end1: &[char], end2: &[char]) -> (r: Option<(usize, usize)>)
    ensures
        r matches Some((a, b)) ==> section_bounds(t@, start@, end1@, end2@) == Some(
            (a as int, b as int),
        ) && a <= b <= t.len(),
        r is None ==> section_bounds(t@, start@, end1@, end2@) is None,
{
    match find_exec(t, start) {
        None => None,
        Some(p) => {
            let ss = p + start.len();
            let rest = slice_vec(t, ss, t.len());
            assert(rest@ =~= t@.skip(ss as int));
            proof {
                lemma_find_from_bounds(rest@, end1@, 0);
                lemma_find_from_bounds(rest@, end2@, 0);
            }
            let se = match (find_exec(&rest, end1), find_exec(&rest, end2)) {
                (Some(a), Some(b)) => if a < b {
                    ss + a
                } else {
                    ss + b
                },
                (Some(a), None) => ss + a,
                (None, Some(b)) => ss + b,
                (None, None) => t.len(),
            };
            Some((ss, se))
        },
    }
}

/// The first number within `window` characters after the first `marker`
/// in `s`, in hundredths.
pub open spec fn percentage_after(s: Seq<char>, marker: Seq<char>, window: int) -> Option<int> {
    match find(s, marker) {
        None => None,
        Some(p) => {
            let st = p + marker.len();
            let w = s.subrange(st, min(st + window, s.len() as int));
            match find_class_from(w, CharClass::Digit, 0) {
                None => None,
                Some(ds) => cents_of(number_at(w, ds)),
            }
        },
    }
}

/// The first number within `window` characters after `marker` in `s`.
pub fn percentage_after_exec(s: &[char], marker: &[char], window: usize) -> (r: Option<i64>)
    ensures
        r matches Some(v) ==> percentage_after(s@, marker@, window as int) == Some(v as int),
        r is None ==> percentage_after(s@, marker@, window as int) is None,
{
    match find_exec(s, marker) {
        None => None,
        Some(p) => {
            let st = p + marker.len();
            let end = if s.len() - st < window {
                s.len()
            } else {
                st + window
            };
            let w = slice_vec(s, st, end);
            match find_class_from_exec(&w, CharClass::Digit, 0) {
                None => None,
                Some(ds) => {
                    proof {
                        lemma_find_class_from_bounds(w@, CharClass::Digit, 0);
                    }
                    number_at_exec(&w, ds)
                },
            }
        },
    }
}

/// `s` without its trailing `c` characters.
pub open spec fn trim_end_char(s: Seq<char>, c: char) -> Seq<char>
    decreases s.len(),
{
    if s.len() > 0 && s.last() == c {
        trim_end_char(s.drop_last(), c)
    } else {
        s
    }
}

/// The `Month DD, YYYY` date written after the first `"as of "` in `t`
/// (letters, digits, spaces and commas), without trailing spaces.
pub open spec fn word_date_after(t: Seq<char>) -> Option<Seq<char>> {
    match find(t, "as of "@) {
        None => None,
        Some(q) => {
            let s = q + "as of "@.len();
            let raw = t.subrange(s, run_end(t, s, CharClass::WordDate));
            let tr = trim_end_char(raw, ' ');
            if tr.len() > 0 {
                Some(tr)
            } else {
                None
            }
        },
    }
}

/// The date written after the first `"as of "` in `t`.
pub fn word_date_after_exec(t: &[char]) -> (r: Option<Vec<char>>)
    ensures
        r matches Some(v) ==> word_date_after(t@) == Some(v@),
        r is None ==> word_date_after(t@) is None,
{
    let marker: Vec<char> = vec!['a', 's', ' ', 'o', 'f', ' '];
    proof {
        reveal_strlit("as of ");
        assert(marker@ =~= "as of "@);
    }
    match find_exec(t, &marker) {
        None => None,
        Some(q) => {
            let s = q + marker.len();
            let e = run_end_exec(t, s, CharClass::WordDate);
            let mut raw = slice_vec(t, s, e);
            let ghost whole = raw@;
            while raw.len() > 0 && raw[raw.len() - 1] == ' '
                invariant
                    trim_end_char(whole, ' ') == trim_end_char(raw@, ' '),
                decreases raw.len(),
            {
                let ghost before = raw@;
                raw.pop();
                assert(raw@ =~= before.drop_last());
            }
            if raw.len() > 0 {
                Some(raw)
            } else {
                None
            }
        },
    }
}

/// The first position at or after `from` that is not a line break
/// (`\n`, `\r`), nor a space when `spaces` is set.
pub open spec fn skip_breaks(t: Seq<char>, from: int, spaces: bool) -> int
    decreases t.len() - from,
{
    if 0 <= from < t.len() && (t[from] == '\n' || t[from] == '\r' || (spaces && t[from]
        == ' ')) {
        skip_breaks(t, from + 1, spaces)
    } else {
        from
    }
}

/// The line of text that follows the first `marker` in `t`, past any
/// line breaks (and spaces, when `spaces` is set), trimmed; `None` when
/// the marker is missing or that line is blank.
pub open spec fn line_after(t: Seq<char>, marker: Seq<char>, spaces: bool) -> Option<Seq<char>> {
    match find(t, marker) {
        None => None,
        Some(q) => {
            let s = skip_breaks(t, q + marker.len(), spaces);
            let line = trim(t.subrange(s, line_end(t, s)));
            if line.len() > 0 {
                Some(line)
            } else {
                None
            }
        },
    }
}

proof fn lemma_skip_breaks_bounds(t: Seq<char>, from: int, spaces: bool)
    requires
        0 <= from <= t.len(),
    ensures
        from <= skip_breaks(t, from, spaces) <= t.len(),
    decreases t.len() - from,
{
    if 0 <= from < t.len() && (t[from] == '\n' || t[from] == '\r' || (spaces && t[from]
        == ' ')) {
        lemma_skip_breaks_bounds(t, from + 1, spaces);
    }
}

/// The trimmed line that follows `marker` in `t`.
pub fn line_after_exec(t: &[char], marker: &[char], spaces: bool) -> (r: Option<Vec<char>>)
    ensures
        r matches Some(v) ==> line_after(t@, marker@, spaces) == Some(v@),
        r is None ==> line_after(t@, marker@, spaces) is None,
{
    match find_exec(t, marker) {
        None => None,
        Some(q) => {
            let from = q + marker.len();
            proof {
                lemma_skip_breaks_bounds(t@, from as int, spaces);
            }
            let mut s = from;
            while s < t.len() && (t[s] == '\n' || t[s] == '\r' || (spaces && t[s] == ' '))
                invariant
                    from <= s <= t.len(),
                    skip_breaks(t@, from as int, spaces) == skip_breaks(t@, s as int, spaces),
                decreases t.len() - s,
            {
                s = s + 1;
            }
            let e = line_end_exec(t, s);
            let raw = slice_vec(t, s, e);
            let line = trim_exec(&raw);
            if line.len() > 0 {
                Some(line)
            } else {
                None
            }
        },
    }
}

/// The last non-empty run of class-`k` characters written right after an
/// occurrence of `m` in `t`, looking at the occurrences from `from` on,
/// with the run's position; `last` is the one found before `from`.
pub open spec fn last_marked_run(
    t: Seq<char>,
    m: Seq<char>,
    k: CharClass,
    from: int,
    last: Option<(int, Seq<char>)>,
) -> Option<(int, Seq<char>)>
    decreases t.len() - from,
{
    if from < 0 || m.len() == 0 {
        last
    } else {
        match find_from(t, m, from) {
            None => last,
            Some(pos) => {
                proof {
                    lemma_find_from_bounds(t, m, from);
                }
                let s = pos + m.len();
                let e = run_end(t, s, k);
                let last2 = if e > s {
                    Some((s, t.subrange(s, e)))
                } else {
                    last
                };
                if s >= t.len() {
                    last2
                } else {
                    last_marked_run(t, m, k, s, last2)
                }
            },
        }
    }
}

/// A position and a run of characters as plain values.
pub open spec fn run_view(o: Option<(usize, Vec<char>)>) -> Option<(int, Seq<char>)> {
    match o {
        Some(r) => Some((r.0 as int, r.1@)),
        None => None,
    }
}

/// A non-empty run of class-`k` characters starts at `s` in `t`, right
/// after an occurrence of `m`.
pub open spec fn marked_run_at(t: Seq<char>, m: Seq<char>, k: CharClass, s: int) -> bool {
    s >= m.len() && matches_at(t, s - m.len(), m) && run_end(t, s, k) > s
}

/// `m` starts with a character found nowhere else in it, so two of its
/// occurrences never overlap.
pub open spec fn first_char_unique(m: Seq<char>) -> bool {
    m.len() > 0 && forall|d: int| 0 < d < m.len() ==> #[trigger] m[d] != m[0]
}

proof fn lemma_no_overlap(t: Seq<char>, m: Seq<char>, p: int, q: int)
    requires
        first_char_unique(m),
        p < q < p + m.len(),
        matches_at(t, p, m),
    ensures
        !matches_at(t, q, m),
{
    if matches_at(t, q, m) {
        assert(t.subrange(p, p + m.len())[q - p] == t[q]);
        assert(t.subrange(q, q + m.len())[0] == t[q]);
    }
}

/// What `last_marked_run` finds is the last marked run: it is one, its
/// text is the whole run, and no marked run starts after it; when it
/// finds none, there is none (for a marker whose occurrences never
/// overlap).
pub proof fn lemma_last_marked_run_is_last(
    t: Seq<char>,
    m: Seq<char>,
    k: CharClass,
    from: int,
    last: Option<(int, Seq<char>)>,
)
    requires
        0 <= from,
        first_char_unique(m),
        last matches Some((s, id)) ==> marked_run_at(t, m, k, s) && id == t.subrange(
            s,
            run_end(t, s, k),
        ),
        forall|s2: int|
            #[trigger] marked_run_at(t, m, k, s2) && s2 - m.len() < from ==> (last matches Some(
                (s, _),
            ) && s2 <= s),
    ensures
        last_marked_run(t, m, k, from, last) matches Some((s, id)) ==> marked_run_at(t, m, k, s)
            && id == t.subrange(s, run_end(t, s, k)) && forall|s2: int|
            #[trigger] marked_run_at(t, m, k, s2) ==> s2 <= s,
        last_marked_run(t, m, k, from, last) is None ==> forall|s2: int|
            !#[trigger] marked_run_at(t, m, k, s2),
    decreases t.len() - from,
{
    lemma_find_from_bounds(t, m, from);
    match find_from(t, m, from) {
        None => {},
        Some(pos) => {
            let s = pos + m.len();
            let e = run_end(t, s, k);
            let last2 = if e > s {
                Some((s, t.subrange(s, e)))
            } else {
                last
            };
            assert forall|s2: int|
                #[trigger] marked_run_at(t, m, k, s2) && s2 - m.len() < s implies (last2 matches Some(
                (s3, _),
            ) && s2 <= s3) by {
                let q2 = s2 - m.len();
                if q2 < from {
                } else if q2 < pos {
                } else if q2 == pos {
                } else {
                    lemma_no_overlap(t, m, pos, q2);
                }
            }
            if s >= t.len() {
                assert forall|s2: int| #[trigger] marked_run_at(t, m, k, s2) implies s2 - m.len()
                    < s by {}
            } else {
                lemma_last_marked_run_is_last(t, m, k, s, last2);
            }
        },
    }
}

/// The last non-empty class-`k` run right after an occurrence of `m` in
/// `t`, with its position.
pub fn last_marked_run_exec(t: &[char], m: &[char], k: CharClass) -> (r: Option<(usize, Vec<char>)>)
    requires
        m.len() > 0,
    ensures
        run_view(r) == last_marked_run(t@, m@, k, 0, None),
{
    let mut last: Option<(usize, Vec<char>)> = None;
    let mut from: usize = 0;
    while from < t.len()
        invariant
            m.len() > 0,
            from <= t.len(),
            last_marked_run(t@, m@, k, 0, None) == last_marked_run(
                t@,
                m@,
                k,
                from as int,
                run_view(last),
            ),
        decreases t.len() - from,
    {
        match find_from_exec(t, m, from) {
            None => {
                return last;
            },
            Some(pos) => {
                let s = pos + m.len();
                let e = run_end_exec(t, s, k);
                if e > s {
                    last = Some((s, slice_vec(t, s, e)));
                }
                if s >= t.len() {
                    return last;
                }
                from = s;
            },
        }
    }
    last
}

} // verus!
