//! Written dollar amounts and percentages, read to the nearest cent.
//!
//! An amount such as `1,234.56` is held as a whole number of cents
//! (`123456`); a percentage such as `19.49` is held in hundredths of a
//! percent (`1949`). Thousands separators are ignored, at most one
//! decimal point is accepted, and an amount with more than two decimal
//! places is rounded to the nearest cent (half a cent rounds up).

use vstd::prelude::*;

use crate::text::{
    find, find_exec, in_class, is_digit, lemma_find_from_bounds, lemma_run_end_bounds, matches_at,
    run_end, run_end_exec, slice_vec, CharClass,
};

verus! {

pub open spec fn digit_val(c: char) -> nat {
    (c as int - '0' as int) as nat
}

/// `r` with every `,` removed.
pub open spec fn strip_commas(r: Seq<char>) -> Seq<char>
    decreases r.len(),
{
    if r.len() == 0 {
        r
    } else if r.last() == ',' {
        strip_commas(r.drop_last())
    } else {
        strip_commas(r.drop_last()).push(r.last())
    }
}

/// The number written by a string of decimal digits.
pub open spec fn dec_value(s: Seq<char>) -> nat
    decreases s.len(),
{
    if s.len() == 0 {
        0
    } else {
        dec_value(s.drop_last()) * 10 + digit_val(s.last())
    }
}

/// How many times `c` occurs in `s`.
pub open spec fn count_char(s: Seq<char>, c: char) -> nat
    decreases s.len(),
{
    if s.len() == 0 {
        0
    } else {
        count_char(s.drop_last(), c) + if s.last() == c {
            1nat
        } else {
            0nat
        }
    }
}

/// Cents written by the digits after a decimal point, to the nearest
/// cent: the first two digits count, and a third digit of 5 or more
/// rounds up (so `.995` is a whole dollar).
pub open spec fn frac_cents(f: Seq<char>) -> nat {
    (if f.len() >= 1 {
        digit_val(f[0]) * 10
    } else {
        0
    }) + (if f.len() >= 2 {
        digit_val(f[1])
    } else {
        0
    }) + (if f.len() >= 3 && digit_val(f[2]) >= 5 {
        1nat
    } else {
        0nat
    })
}

/// The value, in cents, of a written amount `run` made of digits, `,`
/// and `.`: `None` when it holds no digit or more than one `.`.
pub open spec fn amount_value(run: Seq<char>) -> Option<nat> {
    let d = strip_commas(run);
    let digits = (d.len() - count_char(d, '.')) as nat;
    if digits == 0 || count_char(d, '.') > 1 {
        None
    } else {
        let value = match find(d, seq!['.']) {
            None => dec_value(d) * 100,
            Some(k) => dec_value(d.take(k)) * 100 + frac_cents(d.skip(k + 1)),
        };
        Some(value)
    }
}

/// The value, in cents, of a written amount `run`, when it is one
/// (see `amount_value`) and fits in an `i64`.
pub open spec fn amount_cents(run: Seq<char>) -> Option<nat> {
    match amount_value(run) {
        Some(v) => if v <= i64::MAX {
            Some(v)
        } else {
            None
        },
        None => None,
    }
}

/// The amount written at `start` in `t` (the run of digits, `,` and `.`
/// beginning there), in cents.
pub open spec fn amount_at(t: Seq<char>, start: int) -> Option<nat> {
    amount_cents(t.subrange(start, run_end(t, start, CharClass::Amount)))
}

/// The number written at `start` in `t` (the run of digits and `.`
/// beginning there), in hundredths.
pub open spec fn number_at(t: Seq<char>, start: int) -> Option<nat> {
    amount_cents(t.subrange(start, run_end(t, start, CharClass::Number)))
}

proof fn lemma_strip_commas_chars(r: Seq<char>)
    requires
        forall|i: int| 0 <= i < r.len() ==> in_class(CharClass::Amount, #[trigger] r[i]),
    ensures
        forall|i: int|
            0 <= i < strip_commas(r).len() ==> is_digit(#[trigger] strip_commas(r)[i])
                || strip_commas(r)[i] == '.',
    decreases r.len(),
{
    if r.len() > 0 {
        assert forall|i: int| 0 <= i < r.drop_last().len() implies in_class(
            CharClass::Amount,
            #[trigger] r.drop_last()[i],
        ) by {
            assert(r.drop_last()[i] == r[i]);
        }
        lemma_strip_commas_chars(r.drop_last());
        assert(in_class(CharClass::Amount, r[r.len() - 1]));
        let prev = strip_commas(r.drop_last());
        if r.last() != ',' {
            assert forall|i: int| 0 <= i < strip_commas(r).len() implies is_digit(
                #[trigger] strip_commas(r)[i],
            ) || strip_commas(r)[i] == '.' by {
                if i < prev.len() {
                    assert(strip_commas(r)[i] == prev[i]);
                }
            }
        }
    }
}

proof fn lemma_dec_value_mono(s: Seq<char>, i: int, j: int)
    requires
        0 <= i <= j <= s.len(),
    ensures
        dec_value(s.take(i)) <= dec_value(s.take(j)),
    decreases j - i,
{
    if i < j {
        lemma_dec_value_mono(s, i, j - 1);
        assert(s.take(j).drop_last() =~= s.take(j - 1));
    }
}

/// Removes every `,` from `r`.
fn strip_commas_exec(r: &[char]) -> (out: Vec<char>)
    ensures
        out@ == strip_commas(r@),
{
    let mut out: Vec<char> = Vec::new();
    let mut i: usize = 0;
    while i < r.len()
        invariant
            i <= r.len(),
            out@ == strip_commas(r@.take(i as int)),
        decreases r.len() - i,
    {
        assert(r@.take(i + 1).drop_last() =~= r@.take(i as int));
        if r[i] != ',' {
            out.push(r[i]);
        }
        i = i + 1;
    }
    assert(r@.take(r.len() as int) =~= r@);
    out
}

fn count_char_exec(s: &[char], c: char) -> (n: usize)
    ensures
        n as nat == count_char(s@, c),
        n <= s.len(),
{
    let mut n: usize = 0;
    let mut i: usize = 0;
    while i < s.len()
        invariant
            i <= s.len(),
            n <= i,
            n as nat == count_char(s@.take(i as int), c),
        decreases s.len() - i,
    {
        assert(s@.take(i + 1).drop_last() =~= s@.take(i as int));
        if s[i] == c {
            n = n + 1;
        }
        i = i + 1;
    }
    assert(s@.take(s.len() as int) =~= s@);
    n
}

/// The number written by the digits `s[..end]`, when it fits in `u64`.
fn dec_value_exec(s: &[char], end: usize) -> (r: Option<u64>)
    requires
        end <= s.len(),
        forall|i: int| 0 <= i < end ==> is_digit(#[trigger] s@[i]),
    ensures
        r matches Some(v) ==> v as nat == dec_value(s@.take(end as int)),
        r is None ==> dec_value(s@.take(end as int)) > u64::MAX,
{
    let mut v: u64 = 0;
    let mut i: usize = 0;
    while i < end
        invariant
            i <= end <= s.len(),
            forall|i: int| 0 <= i < end ==> is_digit(#[trigger] s@[i]),
            v as nat == dec_value(s@.take(i as int)),
        decreases end - i,
    {
        assert(s@.take(i + 1).drop_last() =~= s@.take(i as int));
        let d = (s[i] as u32 - '0' as u32) as u64;
        assert(d as nat == digit_val(s@[i as int]));
        if v > (u64::MAX - d) / 10 {
            proof {
                lemma_dec_value_mono(s@, i + 1, end as int);
            }
            return None;
        }
        v = v * 10 + d;
        i = i + 1;
    }
    Some(v)
}

/// The amount written by `run` (digits, `,` and `.`), in cents.
pub fn parse_amount(run: &[char]) -> (r: Option<i64>)
    requires
        forall|i: int| 0 <= i < run.len() ==> in_class(CharClass::Amount, #[trigger] run@[i]),
    ensures
        r matches Some(v) ==> 0 <= v && amount_cents(run@) == Some(v as nat),
        r is None ==> amount_cents(run@) is None,
{
    match parse_amount_u64(run) {
        Some(v) => if v <= i64::MAX as u64 {
            Some(v as i64)
        } else {
            None
        },
        None => None,
    }
}

fn parse_amount_u64(run: &[char]) -> (r: Option<u64>)
    requires
        forall|i: int| 0 <= i < run.len() ==> in_class(CharClass::Amount, #[trigger] run@[i]),
    ensures
        r matches Some(v) ==> amount_value(run@) == Some(v as nat),
        r is None ==> amount_value(run@) is None || amount_value(run@)->0 > u64::MAX,
{
    let d = strip_commas_exec(run);
    proof {
        lemma_strip_commas_chars(run@);
    }
    let dots = count_char_exec(&d, '.');
    if d.len() - dots == 0 || dots > 1 {
        return None;
    }
    let dot = ['.'];
    assert(dot@ =~= seq!['.']);
    match find_exec(&d, &dot) {
        None => {
            proof {
                lemma_find_from_bounds(d@, seq!['.'], 0);
                assert forall|i: int| 0 <= i < d.len() implies is_digit(#[trigger] d@[i]) by {
                    if d@[i] == '.' {
                        assert(d@.subrange(i, i + 1) =~= seq!['.']);
                        assert(matches_at(d@, i, seq!['.']));
                    }
                }
            }
            match dec_value_exec(&d, d.len()) {
                None => {
                    assert(d@.take(d.len() as int) =~= d@);
                    None
                },
                Some(w) => {
                    assert(d@.take(d.len() as int) =~= d@);
                    if w > u64::MAX / 100 {
                        None
                    } else {
                        Some(w * 100)
                    }
                },
            }
        },
        Some(k) => {
            proof {
                lemma_find_from_bounds(d@, seq!['.'], 0);
                assert forall|i: int| 0 <= i < k implies is_digit(#[trigger] d@[i]) by {
                    if d@[i] == '.' {
                        assert(d@.subrange(i, i + 1) =~= seq!['.']);
                        assert(matches_at(d@, i, seq!['.']));
                    }
                }
            }
            let f = slice_vec(&d, k + 1, d.len());
            assert(f@ =~= d@.skip(k + 1));
            let mut fc: u64 = 0;
            if f.len() >= 1 {
                proof {
                    assert(d@.subrange(k as int, k + 1) =~= seq!['.']);
                    assert(d@[k as int] == '.');
                    if f@[0] == '.' {
                        // a second dot after the first
                        lemma_count_two(d@, k as int, k + 1);
                    }
                }
                fc = (f[0] as u32 - '0' as u32) as u64 * 10;
            }
            if f.len() >= 2 {
                proof {
                    if f@[1] == '.' {
                        lemma_count_two(d@, k as int, k + 2);
                    }
                }
                fc = fc + (f[1] as u32 - '0' as u32) as u64;
            }
            if f.len() >= 3 {
                proof {
                    if f@[2] == '.' {
                        lemma_count_two(d@, k as int, k + 3);
                    }
                }
                if f[2] >= '5' {
                    fc = fc + 1;
                }
            }
            assert(fc as nat == frac_cents(f@));
            match dec_value_exec(&d, k) {
                None => None,
                Some(w) => {
                    if w > (u64::MAX - fc) / 100 {
                        None
                    } else {
                        Some(w * 100 + fc)
                    }
                },
            }
        },
    }
}

proof fn lemma_count_two(s: Seq<char>, a: int, b: int)
    requires
        0 <= a < b < s.len(),
        s[a] == '.',
        s[b] == '.',
    ensures
        count_char(s, '.') >= 2,
    decreases s.len(),
{
    if b < s.len() - 1 {
        lemma_count_two(s.drop_last(), a, b);
    } else {
        lemma_count_one(s.drop_last(), a);
    }
}

proof fn lemma_count_one(s: Seq<char>, a: int)
    requires
        0 <= a < s.len(),
        s[a] == '.',
    ensures
        count_char(s, '.') >= 1,
    decreases s.len(),
{
    if a < s.len() - 1 {
        lemma_count_one(s.drop_last(), a);
    }
}

/// The amount written at `start` in `t`, in cents.
pub fn amount_at_exec(t: &[char], start: usize) -> (r: Option<i64>)
    requires
        start <= t.len(),
    ensures
        r matches Some(v) ==> 0 <= v && amount_at(t@, start as int) == Some(v as nat),
        r is None ==> amount_at(t@, start as int) is None,
{
    let end = run_end_exec(t, start, CharClass::Amount);
    proof {
        lemma_run_end_bounds(t@, start as int, CharClass::Amount);
    }
    let run = slice_vec(t, start, end);
    parse_amount(&run)
}

/// The number written at `start` in `t`, in hundredths.
pub fn number_at_exec(t: &[char], start: usize) -> (r: Option<i64>)
    requires
        start <= t.len(),
    ensures
        r matches Some(v) ==> 0 <= v && number_at(t@, start as int) == Some(v as nat),
        r is None ==> number_at(t@, start as int) is None,
{
    let end = run_end_exec(t, start, CharClass::Number);
    proof {
        lemma_run_end_bounds(t@, start as int, CharClass::Number);
    }
    let run = slice_vec(t, start, end);
    parse_amount(&run)
}

// ---------------------------------------------------------------------
// Writing numbers
// ---------------------------------------------------------------------

pub open spec fn digit_char(d: nat) -> char {
    (('0' as int) + d) as char
}

/// The decimal digits of `n`, most significant first.
pub open spec fn nat_digits(n: nat) -> Seq<char>
    decreases n,
{
    if n < 10 {
        seq![digit_char(n)]
    } else {
        nat_digits(n / 10).push(digit_char(n % 10))
    }
}

/// How an amount of `cents` is written as a plain decimal number with
/// no trailing fractional zeros: `100000` as `1000`, `123450` as
/// `1234.5`, `5` as `0.05`.
pub open spec fn cents_display(cents: nat) -> Seq<char> {
    let whole = nat_digits(cents / 100);
    let frac = cents % 100;
    if frac == 0 {
        whole
    } else if frac % 10 == 0 {
        whole.push('.').push(digit_char(frac / 10))
    } else {
        whole.push('.').push(digit_char(frac / 10)).push(digit_char(frac % 10))
    }
}

fn digit_char_exec(d: u64) -> (c: char)
    requires
        d < 10,
    ensures
        c == digit_char(d as nat),
{
    let c = ('0' as u8 + d as u8) as char;
    c
}

/// Appends the decimal digits of `n` to `out`.
pub fn push_digits(n: u64, out: &mut Vec<char>)
    ensures
        final(out)@ == old(out)@ + nat_digits(n as nat),
    decreases n,
{
    if n >= 10 {
        push_digits(n / 10, out);
    }
    out.push(digit_char_exec(n % 10));
    proof {
        if n < 10 {
            assert(old(out)@ + nat_digits(n as nat) =~= old(out)@.push(digit_char(n as nat)));
        }
    }
}

/// Writes the digits of `n` (as `nat_digits` does) onto `out`.
pub fn push_digits_u128(n: u128, out: &mut Vec<char>)
    ensures
        final(out)@ == old(out)@ + nat_digits(n as nat),
    decreases n,
{
    if n >= 10 {
        push_digits_u128(n / 10, out);
        let d = (n % 10) as u8;
        out.push((48 + d) as char);
        assert(final(out)@ =~= old(out)@ + nat_digits(n as nat));
    } else {
        out.push((48 + (n as u8)) as char);
        assert(final(out)@ =~= old(out)@ + nat_digits(n as nat));
    }
}

/// Reading back the digits of `n` gives `n`.
pub proof fn lemma_digits_round_trip(n: nat)
    ensures
        dec_value(nat_digits(n)) == n,
    decreases n,
{
    let d = if n >= 10 { n % 10 } else { n };
    assert(digit_val(digit_char(d)) == d);
    if n >= 10 {
        lemma_digits_round_trip(n / 10);
        assert(nat_digits(n).drop_last() =~= nat_digits(n / 10));
        assert(nat_digits(n).last() == digit_char(n % 10));
        assert(dec_value(nat_digits(n)) == dec_value(nat_digits(n / 10)) * 10 + digit_val(
            digit_char(n % 10),
        ));
        assert((n / 10) * 10 + n % 10 == n);
    } else {
        assert(nat_digits(n).drop_last() =~= Seq::<char>::empty());
        assert(nat_digits(n).last() == digit_char(n));
        assert(dec_value(nat_digits(n)) == dec_value(Seq::<char>::empty()) * 10 + digit_val(
            digit_char(n),
        ));
    }
}

/// Writes `cents` as a plain decimal number with no trailing fractional zeros.
pub fn display_cents(cents: u64) -> (out: Vec<char>)
    ensures
        out@ == cents_display(cents as nat),
{
    let mut out: Vec<char> = Vec::new();
    push_digits(cents / 100, &mut out);
    assert(out@ =~= nat_digits((cents / 100) as nat));
    let frac = cents % 100;
    if frac != 0 {
        out.push('.');
        out.push(digit_char_exec(frac / 10));
        if frac % 10 != 0 {
            out.push(digit_char_exec(frac % 10));
        }
    }
    out
}

/// `n / d` rounded down, for a positive `d`.
pub fn floor_div(n: i128, d: i128) -> (r: i128)
    requires
        0 < d <= 0x100_0000_0000_0000_0000_0000_0000_0000,
        -0x1000_0000_0000_0000_0000_0000_0000_0000 <= n <= 0x1000_0000_0000_0000_0000_0000_0000_0000,
    ensures
        r == n / d,
{
    if n >= 0 {
        n / d
    } else {
        let m = -n;
        let q = (m + d - 1) / d;
        proof {
            lemma_floor_of_negative(n as int, d as int, q as int);
        }
        -q
    }
}

proof fn lemma_floor_of_negative(n: int, d: int, q: int)
    requires
        d > 0,
        n < 0,
        q == (-n + d - 1) / d,
    ensures
        -q == n / d,
{
    let m = -n;
    assert(m + d - 1 == d * q + (m + d - 1) % d) by (nonlinear_arith)
        requires
            d > 0,
            q == (m + d - 1) / d,
    ;
    let r = (m + d - 1) % d;
    assert(0 <= r < d) by (nonlinear_arith)
        requires
            d > 0,
            r == (m + d - 1) % d,
    ;
    assert(n == (-q) * d + (d - 1 - r)) by (nonlinear_arith)
        requires
            m == -n,
            m + d - 1 == d * q + r,
    ;
    assert(0 <= d - 1 - r < d);
    vstd::arithmetic::div_mod::lemma_fundamental_div_mod_converse(n, d, -q, d - 1 - r);
}

} // verus!
