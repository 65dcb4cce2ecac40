//! Non-negative fixed-point decimal amounts.
//!
//! Monetary quantities, rates and tax fractions are carried as integer
//! multiples of 1/10_000 (four fractional decimal digits). All arithmetic
//! on them is exact integer arithmetic; formatting back to decimal text
//! is specified character by character.

use vstd::prelude::*;

verus! {

/// A non-negative fixed-point decimal: the represented value is
/// `units / 10_000`.
#[derive(Clone, Copy, Debug, PartialEq, Eq, Structural)]
pub struct Decimal {
    pub units: u64,
}

/// Number of fractional digits of a `Decimal`.
pub const FRAC_DIGITS: u64 = 4;

/// `10 ^ FRAC_DIGITS`, the denominator of a `Decimal`.
pub const FRAC_POW: u64 = 10_000;

/// `10 ^ w`.
pub open spec fn pow10(w: nat) -> nat
    decreases w,
{
    if w == 0 {
        1
    } else {
        10 * pow10((w - 1) as nat)
    }
}

pub proof fn lemma_pow10_small()
    ensures
        pow10(0) == 1,
        pow10(1) == 10,
        pow10(2) == 100,
        pow10(3) == 1_000,
        pow10(4) == 10_000,
        pow10(12) == 1_000_000_000_000,
{
    assert(pow10(0) == 1);
    assert(pow10(1) == 10);
    assert(pow10(2) == 100);
    assert(pow10(3) == 1_000);
    assert(pow10(4) == 10_000);
    assert(pow10(5) == 100_000);
    assert(pow10(6) == 1_000_000);
    assert(pow10(7) == 10_000_000);
    assert(pow10(8) == 100_000_000);
    assert(pow10(9) == 1_000_000_000);
    assert(pow10(10) == 10_000_000_000);
    assert(pow10(11) == 100_000_000_000);
    assert(pow10(12) == 1_000_000_000_000);
}

/// Numeric value of a decimal digit character; 10 for any other character.
pub open spec fn char_digit(c: char) -> nat {
    if c == '0' {
        0
    } else if c == '1' {
        1
    } else if c == '2' {
        2
    } else if c == '3' {
        3
    } else if c == '4' {
        4
    } else if c == '5' {
        5
    } else if c == '6' {
        6
    } else if c == '7' {
        7
    } else if c == '8' {
        8
    } else if c == '9' {
        9
    } else {
        10
    }
}

pub open spec fn is_digit_char(c: char) -> bool {
    char_digit(c) < 10
}

/// The digit character for a value below ten.
pub open spec fn digit_char(d: nat) -> char {
    if d == 0 {
        '0'
    } else if d == 1 {
        '1'
    } else if d == 2 {
        '2'
    } else if d == 3 {
        '3'
    } else if d == 4 {
        '4'
    } else if d == 5 {
        '5'
    } else if d == 6 {
        '6'
    } else if d == 7 {
        '7'
    } else if d == 8 {
        '8'
    } else {
        '9'
    }
}

/// Every character a decimal digit.
pub open spec fn all_digits(t: Seq<char>) -> bool {
    forall|i: int| 0 <= i < t.len() ==> is_digit_char(#[trigger] t[i])
}

/// Numeric value of a digit sequence read left to right.
pub open spec fn digits_val(s: Seq<char>) -> nat
    decreases s.len(),
{
    if s.len() == 0 {
        0
    } else {
        digits_val(s.drop_last()) * 10 + char_digit(s.last())
    }
}

/// A digit run's value never falls when the run is extended.
pub proof fn lemma_digits_val_mono(s: Seq<char>, i: int, k: int, e: int)
    requires
        0 <= i <= k <= e <= s.len(),
    ensures
        digits_val(s.subrange(i, k)) <= digits_val(s.subrange(i, e)),
    decreases e - k,
{
    if k < e {
        lemma_digits_val_mono(s, i, k + 1, e);
        let t = s.subrange(i, k + 1);
        assert(t.drop_last() =~= s.subrange(i, k));
        assert(digits_val(t) == digits_val(s.subrange(i, k)) * 10 + char_digit(t.last()));
        assert(digits_val(s.subrange(i, k)) * 10 >= digits_val(s.subrange(i, k)));
    }
}

/// A sequence of `n` digits is worth less than `10 ^ n`.
pub proof fn lemma_digits_val_bound(s: Seq<char>)
    requires
        all_digits(s),
    ensures
        digits_val(s) < pow10(s.len()),
    decreases s.len(),
{
    if s.len() == 0 {
    } else {
        assert(all_digits(s.drop_last()));
        lemma_digits_val_bound(s.drop_last());
        assert(char_digit(s.last()) <= 9);
    }
}

/// Decimal text of `n`, without leading zeros (a single `0` for zero).
pub open spec fn dec_str(n: nat) -> Seq<char>
    decreases n,
{
    if n < 10 {
        seq![digit_char(n)]
    } else {
        dec_str(n / 10) + seq![digit_char(n % 10)]
    }
}

/// Exactly `w` decimal digits of `n`, zero padded on the left
/// (the low `w` digits when `n` has more).
pub open spec fn fixed_seq(n: nat, w: nat) -> Seq<char>
    decreases w,
{
    if w == 0 {
        Seq::empty()
    } else {
        fixed_seq(n / 10, (w - 1) as nat) + seq![digit_char(n % 10)]
    }
}

pub proof fn lemma_fixed_seq_len(n: nat, w: nat)
    ensures
        fixed_seq(n, w).len() == w,
    decreases w,
{
    if w > 0 {
        lemma_fixed_seq_len(n / 10, (w - 1) as nat);
    }
}

/// A `w`-digit fractional part with its trailing zeros removed;
/// empty when every digit is zero.
pub open spec fn frac_seq(f: nat, w: nat) -> Seq<char>
    decreases w,
{
    if w == 0 {
        Seq::empty()
    } else if f % 10 == 0 {
        frac_seq(f / 10, (w - 1) as nat)
    } else {
        fixed_seq(f, w)
    }
}

/// Decimal text of the scaled value `v / pow` where `pow == pow10(w)`:
/// the integer part, then, unless the fractional part is zero, a point
/// and the fractional digits with trailing zeros removed.
pub open spec fn scaled_str(v: nat, pow: nat, w: nat) -> Seq<char> {
    dec_str(v / pow) + (if frac_seq(v % pow, w).len() == 0 {
        Seq::<char>::empty()
    } else {
        seq!['.'] + frac_seq(v % pow, w)
    })
}

/// Decimal text of a `Decimal` amount, e.g. `5000`, `0.23`, `1.5`.
pub open spec fn decimal_seq(d: Decimal) -> Seq<char> {
    scaled_str(d.units as nat, FRAC_POW as nat, FRAC_DIGITS as nat)
}

/// One-character string for a decimal digit.
pub fn digit_str(d: u64) -> (r: &'static str)
    requires
        d < 10,
    ensures
        r@ == seq![digit_char(d as nat)],
{
    if d == 0 {
        proof {
            reveal_strlit("0");
            assert("0"@ =~= seq![digit_char(0)]);
        }
        "0"
    } else if d == 1 {
        proof {
            reveal_strlit("1");
            assert("1"@ =~= seq![digit_char(1)]);
        }
        "1"
    } else if d == 2 {
        proof {
            reveal_strlit("2");
            assert("2"@ =~= seq![digit_char(2)]);
        }
        "2"
    } else if d == 3 {
        proof {
            reveal_strlit("3");
            assert("3"@ =~= seq![digit_char(3)]);
        }
        "3"
    } else if d == 4 {
        proof {
            reveal_strlit("4");
            assert("4"@ =~= seq![digit_char(4)]);
        }
        "4"
    } else if d == 5 {
        proof {
            reveal_strlit("5");
            assert("5"@ =~= seq![digit_char(5)]);
        }
        "5"
    } else if d == 6 {
        proof {
            reveal_strlit("6");
            assert("6"@ =~= seq![digit_char(6)]);
        }
        "6"
    } else if d == 7 {
        proof {
            reveal_strlit("7");
            assert("7"@ =~= seq![digit_char(7)]);
        }
        "7"
    } else if d == 8 {
        proof {
            reveal_strlit("8");
            assert("8"@ =~= seq![digit_char(8)]);
        }
        "8"
    } else {
        proof {
            reveal_strlit("9");
            assert("9"@ =~= seq![digit_char(9)]);
        }
        "9"
    }
}

/// Appends the decimal text of `n` to `out`.
pub fn push_dec(n: u128, out: &mut String)
    ensures
        final(out)@ == old(out)@ + dec_str(n as nat),
    decreases n,
{
    if n < 10 {
        let d = digit_str(n as u64);
        out.append(d);
        proof {
            assert(out@ =~= old(out)@ + dec_str(n as nat));
        }
    } else {
        push_dec(n / 10, out);
        let d = digit_str((n % 10) as u64);
        out.append(d);
        proof {
            assert(out@ =~= old(out)@ + dec_str(n as nat));
        }
    }
}

/// Appends exactly `w` zero-padded low decimal digits of `n` to `out`.
pub fn push_fixed(n: u128, w: u64, out: &mut String)
    ensures
        final(out)@ == old(out)@ + fixed_seq(n as nat, w as nat),
    decreases w,
{
    if w > 0 {
        push_fixed(n / 10, w - 1, out);
        let d = digit_str((n % 10) as u64);
        out.append(d);
        proof {
            assert(out@ =~= old(out)@ + fixed_seq(n as nat, w as nat));
        }
    } else {
        proof {
            assert(out@ =~= old(out)@ + fixed_seq(n as nat, 0));
        }
    }
}

/// Appends the decimal text of the scaled value `v / pow` to `out`.
pub fn push_scaled(v: u128, pow: u128, w: u64, out: &mut String)
    requires
        pow as nat == pow10(w as nat),
    ensures
        final(out)@ == old(out)@ + scaled_str(v as nat, pow as nat, w as nat),
{
    proof {
        lemma_pow10_pos(w as nat);
    }
    push_dec(v / pow, out);
    let ghost mid = out@;
    let mut f: u128 = v % pow;
    let mut rem: u64 = w;
    while rem > 0 && f % 10 == 0
        invariant
            frac_seq(f as nat, rem as nat) == frac_seq((v % pow) as nat, w as nat),
        decreases rem,
    {
        f = f / 10;
        rem = rem - 1;
    }
    if rem > 0 {
        proof {
            lemma_fixed_seq_len(f as nat, rem as nat);
        }
        let dot = point_str();
        out.append(dot);
        push_fixed(f, rem, out);
        proof {
            assert(out@ =~= old(out)@ + scaled_str(v as nat, pow as nat, w as nat));
        }
    } else {
        proof {
            assert(out@ =~= old(out)@ + scaled_str(v as nat, pow as nat, w as nat));
        }
    }
}

/// The decimal point as a one-character string.
fn point_str() -> (r: &'static str)
    ensures
        r@ == seq!['.'],
{
    proof {
        reveal_strlit(".");
        assert("."@ =~= seq!['.']);
    }
    "."
}

pub proof fn lemma_pow10_pos(w: nat)
    ensures
        pow10(w) >= 1,
    decreases w,
{
    if w > 0 {
        lemma_pow10_pos((w - 1) as nat);
    }
}

/// Decimal text of a `Decimal` amount.
pub fn decimal_str(d: &Decimal) -> (r: String)
    ensures
        r@ == decimal_seq(*d),
{
    let mut out = String::new();
    proof {
        lemma_pow10_small();
    }
    push_scaled(d.units as u128, FRAC_POW as u128, FRAC_DIGITS, &mut out);
    proof {
        assert(out@ =~= decimal_seq(*d));
    }
    out
}

} // verus!
