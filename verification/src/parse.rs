//! The loader: from the declarative configuration text to a validated
//! `Config`.
//!
//! The configuration is a line-oriented document of sections
//! (`[invoice]`, `[invoicer]`, `[invoicee]`, `[account]`), repeated
//! `[[product]]` sections, and `key = value` lines whose values are
//! basic strings, non-negative decimal numbers of at most four
//! fractional digits, or a one-line inline table of string pairs (the
//! bank identifier's `{type, value}` form). Strings have no escape
//! sequences, by design rather than omission: every string is typeset
//! verbatim (the renderer applies no escaping either), so the document
//! text of a value is exactly its output text, and operators write
//! typesetting markup -- full of backslashes -- without doubling it.
//! The one price is that a value cannot contain a double quote.
//! Unknown sections and keys are ignored; every declared field must be
//! present, of the declared type, and set once; number fields accept
//! integers, which are widened. A load either yields a fully populated,
//! well-formed `Config` or fails with an error naming the offending
//! field path or line; no partial document is ever produced.

use vstd::prelude::*;
use crate::model::BankCode;
use crate::model::CompanyInfo;
use crate::model::Config;
use crate::model::InvoiceInfo;
use crate::model::PaymentInfo;
use crate::model::Product;
use crate::model::parse_bank_code;
use crate::model::total_checked;
use crate::model::total_spec;
use crate::model::upper_char;
use crate::model::upper_char_x;
use crate::num::Decimal;
use crate::num::all_digits;
use crate::num::char_digit;
use crate::num::dec_str;
use crate::num::digits_val;
use crate::num::is_digit_char;
use crate::num::lemma_digits_val_bound;
use crate::num::lemma_pow10_small;
use crate::num::pow10;
use crate::num::push_dec;
use crate::render::contains_seq;
use crate::render::lemma_contains_subrange;

verus! {

/// Why a load failed. Field paths are written like `invoice.id` or
/// `product[2].rate`.
#[derive(Clone, Debug, PartialEq, Eq)]
pub enum LoadError {
    /// A line that does not parse at all.
    Syntax { line: usize },
    /// A declared field is absent.
    MissingField { path: String },
    /// A declared field carries a value of another type.
    WrongType { path: String },
    /// A declared field is set twice.
    Duplicate { path: String },
    /// A number that is negative, has more than four fractional digits,
    /// or does not fit the fixed-point range.
    BadNumber { path: String },
    /// A bank identifier tag other than the two recognized variants.
    UnknownBankTag { path: String },
    /// A bank identifier with an empty code.
    EmptyBankCode { path: String },
    /// The overall total is outside the supported numeric range.
    TotalOutOfRange,
}

/// The message text of a load error.
pub open spec fn message_spec(e: LoadError) -> Seq<char> {
    match e {
        LoadError::Syntax { line } => "syntax error at line "@ + dec_str(line as nat),
        LoadError::MissingField { path } => "missing field: "@ + path@,
        LoadError::WrongType { path } => "wrong type for field: "@ + path@,
        LoadError::Duplicate { path } => "field set twice: "@ + path@,
        LoadError::BadNumber { path } => "bad number for field: "@ + path@,
        LoadError::UnknownBankTag { path } => "unrecognized bank code tag: "@ + path@,
        LoadError::EmptyBankCode { path } => "empty bank code value: "@ + path@,
        LoadError::TotalOutOfRange => "invoice total out of range"@,
    }
}

impl LoadError {
    /// A short description of the failure, naming the offending field
    /// path or line.
    pub fn message(&self) -> (r: String)
        ensures
            r@ == message_spec(*self),
    {
        match self {
            LoadError::Syntax { line } => {
                let mut out = String::from_str("syntax error at line ");
                push_dec(*line as u128, &mut out);
                out
            },
            LoadError::MissingField { path } => {
                let mut out = String::from_str("missing field: ");
                out.append(path.as_str());
                out
            },
            LoadError::WrongType { path } => {
                let mut out = String::from_str("wrong type for field: ");
                out.append(path.as_str());
                out
            },
            LoadError::Duplicate { path } => {
                let mut out = String::from_str("field set twice: ");
                out.append(path.as_str());
                out
            },
            LoadError::BadNumber { path } => {
                let mut out = String::from_str("bad number for field: ");
                out.append(path.as_str());
                out
            },
            LoadError::UnknownBankTag { path } => {
                let mut out = String::from_str("unrecognized bank code tag: ");
                out.append(path.as_str());
                out
            },
            LoadError::EmptyBankCode { path } => {
                let mut out = String::from_str("empty bank code value: ");
                out.append(path.as_str());
                out
            },
            LoadError::TotalOutOfRange => String::from_str("invoice total out of range"),
        }
    }
}

/// A parsed right-hand side of a `key = value` line.
enum Value {
    Text(String),
    Number(Decimal),
    NumberOutOfRange,
    Table(Vec<(String, String)>),
}

/// Why a value failed to scan.
enum ValueFail {
    Malformed,
    TooBig,
}

/// The section a line belongs to.
#[derive(Clone, Copy, PartialEq, Eq)]
enum Section {
    Top,
    Invoice,
    Invoicer,
    Invoicee,
    Account,
    Product,
    Other,
}

/// Characters accepted in a bare key: ASCII letters, digits, `_`, `-`.
pub open spec fn is_key_char(c: char) -> bool {
    upper_char(c) != c || lower_char_of(c) != c || is_digit_char(c) || c == '_' || c == '-'
}

/// Whitespace inside a line.
pub open spec fn is_ws_char(c: char) -> bool {
    c == ' ' || c == '\t' || c == '\r'
}

/// First index at or after `i` whose character is not whitespace, `to`
/// when all are.
pub open spec fn ws_end(s: Seq<char>, i: int, to: int) -> int
    decreases to - i,
{
    if i < to && is_ws_char(s[i]) {
        ws_end(s, i + 1, to)
    } else {
        i
    }
}

/// First index at or after `i` whose character is not a key character,
/// `to` when all are.
pub open spec fn key_end(s: Seq<char>, i: int, to: int) -> int
    decreases to - i,
{
    if i < to && is_key_char(s[i]) {
        key_end(s, i + 1, to)
    } else {
        i
    }
}

/// First index at or after `i` holding a double quote, `to` when none
/// does.
pub open spec fn quote_close(s: Seq<char>, i: int, to: int) -> int
    decreases to - i,
{
    if i < to && s[i] != '"' {
        quote_close(s, i + 1, to)
    } else {
        i
    }
}

/// First index at or after `i` whose character is not a decimal digit,
/// `to` when all are.
pub open spec fn digit_end(s: Seq<char>, i: int, to: int) -> int
    decreases to - i,
{
    if i < to && is_digit_char(s[i]) {
        digit_end(s, i + 1, to)
    } else {
        i
    }
}

fn is_ws(c: char) -> (b: bool)
    ensures
        b == is_ws_char(c),
{
    c == ' ' || c == '\t' || c == '\r'
}

fn is_digit(c: char) -> (b: bool)
    ensures
        b == is_digit_char(c),
{
    c == '0' || c == '1' || c == '2' || c == '3' || c == '4' || c == '5' || c == '6' || c == '7'
        || c == '8' || c == '9'
}

fn digit_of(c: char) -> (d: u64)
    requires
        is_digit_char(c),
    ensures
        d as nat == char_digit(c),
        d < 10,
{
    if c == '0' {
        0
    } else if c == '1' {
        1
    } else if c == '2' {
        2
    } else if c == '3' {
        3
    } else if c == '4' {
        4
    } else if c == '5' {
        5
    } else if c == '6' {
        6
    } else if c == '7' {
        7
    } else if c == '8' {
        8
    } else {
        9
    }
}

fn is_key_char_x(c: char) -> (b: bool)
    ensures
        b == is_key_char(c),
{
    let u = upper_char_x(c);
    if u != c {
        return true;
    }
    let low = lower_of_upper(c);
    low != c || is_digit(c) || c == '_' || c == '-'
}

/// The lowercase letter whose uppercase form is `c`, if any; else `c`.
pub open spec fn lower_char_of(c: char) -> char {
    if c == 'A' {
        'a'
    } else if c == 'B' {
        'b'
    } else if c == 'C' {
        'c'
    } else if c == 'D' {
        'd'
    } else if c == 'E' {
        'e'
    } else if c == 'F' {
        'f'
    } else if c == 'G' {
        'g'
    } else if c == 'H' {
        'h'
    } else if c == 'I' {
        'i'
    } else if c == 'J' {
        'j'
    } else if c == 'K' {
        'k'
    } else if c == 'L' {
        'l'
    } else if c == 'M' {
        'm'
    } else if c == 'N' {
        'n'
    } else if c == 'O' {
        'o'
    } else if c == 'P' {
        'p'
    } else if c == 'Q' {
        'q'
    } else if c == 'R' {
        'r'
    } else if c == 'S' {
        's'
    } else if c == 'T' {
        't'
    } else if c == 'U' {
        'u'
    } else if c == 'V' {
        'v'
    } else if c == 'W' {
        'w'
    } else if c == 'X' {
        'x'
    } else if c == 'Y' {
        'y'
    } else if c == 'Z' {
        'z'
    } else {
        c
    }
}

fn lower_of_upper(c: char) -> (r: char)
    ensures
        r == lower_char_of(c),
{
    if c == 'A' {
        'a'
    } else if c == 'B' {
        'b'
    } else if c == 'C' {
        'c'
    } else if c == 'D' {
        'd'
    } else if c == 'E' {
        'e'
    } else if c == 'F' {
        'f'
    } else if c == 'G' {
        'g'
    } else if c == 'H' {
        'h'
    } else if c == 'I' {
        'i'
    } else if c == 'J' {
        'j'
    } else if c == 'K' {
        'k'
    } else if c == 'L' {
        'l'
    } else if c == 'M' {
        'm'
    } else if c == 'N' {
        'n'
    } else if c == 'O' {
        'o'
    } else if c == 'P' {
        'p'
    } else if c == 'Q' {
        'q'
    } else if c == 'R' {
        'r'
    } else if c == 'S' {
        's'
    } else if c == 'T' {
        't'
    } else if c == 'U' {
        'u'
    } else if c == 'V' {
        'v'
    } else if c == 'W' {
        'w'
    } else if c == 'X' {
        'x'
    } else if c == 'Y' {
        'y'
    } else if c == 'Z' {
        'z'
    } else {
        c
    }
}

/// Whether two string slices hold the same characters.
fn str_eq(a: &str, b: &str) -> (r: bool)
    ensures
        r == (a@ == b@),
{
    let n = a.unicode_len();
    let m = b.unicode_len();
    if n != m {
        return false;
    }
    let mut i: usize = 0;
    while i < n
        invariant
            0 <= i <= n,
            n == a@.len(),
            n == b@.len(),
            forall|j: int| 0 <= j < i ==> a@[j] == b@[j],
        decreases n - i,
    {
        if a.get_char(i) != b.get_char(i) {
            return false;
        }
        i = i + 1;
    }
    proof {
        assert(a@ =~= b@);
    }
    true
}

/// First index at or after `from` whose character is not whitespace.
fn skip_ws(s: &str, from: usize, to: usize) -> (i: usize)
    requires
        from <= to <= s@.len(),
    ensures
        from <= i <= to,
        i < to ==> !is_ws_char(s@[i as int]),
        i as int == ws_end(s@, from as int, to as int),
    decreases to - from,
{
    let mut i = from;
    while i < to && is_ws(s.get_char(i))
        invariant
            from <= i <= to,
            to <= s@.len(),
            ws_end(s@, from as int, to as int) == ws_end(s@, i as int, to as int),
        decreases to - i,
    {
        i = i + 1;
    }
    i
}

/// First index at or after `from` whose character is not a key
/// character.
fn scan_key(s: &str, from: usize, to: usize) -> (i: usize)
    requires
        from <= to <= s@.len(),
    ensures
        from <= i <= to,
        i < to ==> !is_key_char(s@[i as int]),
        i as int == key_end(s@, from as int, to as int),
    decreases to - from,
{
    let mut i = from;
    while i < to && is_key_char_x(s.get_char(i))
        invariant
            from <= i <= to,
            to <= s@.len(),
            key_end(s@, from as int, to as int) == key_end(s@, i as int, to as int),
        decreases to - i,
    {
        i = i + 1;
    }
    i
}

/// Scans a basic string starting at the opening quote at `i`; returns
/// the text up to the first following quote, and the index after that
/// quote. No escape sequences (see the module's policy): fails only
/// when no closing quote follows.
fn scan_string(s: &str, i: usize, to: usize) -> (r: Option<(String, usize)>)
    requires
        i < to <= s@.len(),
        s@[i as int] == '"',
    ensures
        r is Some <==> quote_close(s@, i + 1, to as int) < to,
        r matches Some((v, next)) ==> {
            &&& next == quote_close(s@, i + 1, to as int) + 1
            &&& i + 2 <= next <= to
            &&& s@[next - 1] == '"'
            &&& v@ == s@.subrange(i + 1, next - 1)
        },
{
    let mut j = i + 1;
    while j < to && s.get_char(j) != '"'
        invariant
            i + 1 <= j <= to,
            to <= s@.len(),
            quote_close(s@, i + 1, to as int) == quote_close(s@, j as int, to as int),
        decreases to - j,
    {
        j = j + 1;
    }
    if j == to {
        return None;
    }
    let body = s.substring_char(i + 1, j);
    Some((body.to_owned(), j + 1))
}

/// A well-formed number token starts at `i`: a non-empty digit run,
/// optionally followed by a point and one to four fraction digits.
pub open spec fn num_shape_ok(s: Seq<char>, i: int, to: int) -> bool {
    let ie = digit_end(s, i, to);
    &&& ie > i
    &&& (ie < to && s[ie] == '.' ==> {
        let fe = digit_end(s, ie + 1, to);
        1 <= fe - ie - 1 <= 4
    })
}

/// Where the number token starting at `i` ends.
pub open spec fn num_end(s: Seq<char>, i: int, to: int) -> int {
    let ie = digit_end(s, i, to);
    if ie < to && s[ie] == '.' {
        digit_end(s, ie + 1, to)
    } else {
        ie
    }
}

/// The exact fixed-point units of the number token starting at `i`:
/// the integer digits' value scaled by ten thousand, plus the fraction
/// digits' value scaled out to four places.
pub open spec fn num_units(s: Seq<char>, i: int, to: int) -> nat {
    let ie = digit_end(s, i, to);
    if ie < to && s[ie] == '.' {
        let fe = digit_end(s, ie + 1, to);
        digits_val(s.subrange(i, ie)) * 10_000 + digits_val(s.subrange(ie + 1, fe)) * pow10(
            (4 - (fe - ie - 1)) as nat,
        )
    } else {
        digits_val(s.subrange(i, ie)) * 10_000
    }
}

proof fn lemma_digit_end_range(s: Seq<char>, i: int, to: int)
    requires
        i <= to,
    ensures
        i <= digit_end(s, i, to) <= to,
    decreases to - i,
{
    if i < to && is_digit_char(s[i]) {
        lemma_digit_end_range(s, i + 1, to);
    }
}

/// Scans a non-negative decimal number starting at `i`. The outcome is
/// exact: a well-formed token in range gives precisely its fixed-point
/// units and its end; a well-formed token out of range is `TooBig`, as
/// is an integer part beyond the range whatever follows it; anything
/// else is `Malformed`.
fn scan_number(s: &str, i: usize, to: usize) -> (r: Result<(Decimal, usize), ValueFail>)
    requires
        i <= to <= s@.len(),
    ensures
        ({
            let ie = digit_end(s@, i as int, to as int);
            let intval = digits_val(s@.subrange(i as int, ie));
            let ok = num_shape_ok(s@, i as int, to as int);
            let u = num_units(s@, i as int, to as int);
            &&& (ie == i ==> r == Err::<(Decimal, usize), ValueFail>(ValueFail::Malformed))
            &&& (ie > i && intval > u64::MAX ==> r == Err::<(Decimal, usize), ValueFail>(
                ValueFail::TooBig,
            ))
            &&& (ie > i && intval <= u64::MAX && !ok ==> r == Err::<(Decimal, usize), ValueFail>(
                ValueFail::Malformed,
            ))
            &&& (ok && u > u64::MAX ==> r == Err::<(Decimal, usize), ValueFail>(ValueFail::TooBig))
            &&& (ok && u <= u64::MAX ==> (r matches Ok((d, next)) && d.units == u && next as int
                == num_end(s@, i as int, to as int)))
            &&& (r matches Ok((d, next)) ==> i < next <= to)
        }),
{
    proof {
        lemma_digit_end_range(s@, i as int, to as int);
    }
    let ghost ie = digit_end(s@, i as int, to as int);
    let mut j = i;
    let mut val: u64 = 0;
    while j < to && is_digit(s.get_char(j))
        invariant
            i <= j <= to,
            to <= s@.len(),
            ie == digit_end(s@, i as int, to as int),
            digit_end(s@, i as int, to as int) == digit_end(s@, j as int, to as int),
            val as nat == digits_val(s@.subrange(i as int, j as int)),
        decreases to - j,
    {
        let d = digit_of(s.get_char(j));
        proof {
            lemma_digit_end_range(s@, i as int, to as int);
            lemma_digit_end_range(s@, j + 1, to as int);
            let t = s@.subrange(i as int, j + 1);
            assert(t.drop_last() =~= s@.subrange(i as int, j as int));
            assert(t.last() == s@[j as int]);
            crate::num::lemma_digits_val_mono(s@, i as int, j + 1, ie);
            assert(num_units(s@, i as int, to as int) >= digits_val(s@.subrange(i as int, ie)));
        }
        let v1 = match val.checked_mul(10) {
            Some(v) => v,
            None => {
                return Err(ValueFail::TooBig);
            },
        };
        let v2 = match v1.checked_add(d) {
            Some(v) => v,
            None => {
                return Err(ValueFail::TooBig);
            },
        };
        val = v2;
        j = j + 1;
    }
    proof {
        assert(digit_end(s@, j as int, to as int) == j);
    }
    if j == i {
        return Err(ValueFail::Malformed);
    }
    if j < to && s.get_char(j) == '.' {
        let dotp = j;
        proof {
            lemma_digit_end_range(s@, dotp + 1, to as int);
        }
        let ghost fe = digit_end(s@, dotp + 1, to as int);
        let mut k = dotp + 1;
        let mut fval: u64 = 0;
        let mut fcount: u64 = 0;
        while k < to && is_digit(s.get_char(k))
            invariant
                i < dotp < to,
                dotp + 1 <= k <= to,
                to <= s@.len(),
                s@[dotp as int] == '.',
                ie == dotp,
                ie == digit_end(s@, i as int, to as int),
                val as nat == digits_val(s@.subrange(i as int, dotp as int)),
                fe == digit_end(s@, dotp + 1, to as int),
                digit_end(s@, dotp + 1, to as int) == digit_end(s@, k as int, to as int),
                fcount == k - dotp - 1,
                fcount <= 4,
                fval as nat == digits_val(s@.subrange(dotp + 1, k as int)),
                all_digits(s@.subrange(dotp + 1, k as int)),
            decreases to - k,
        {
            proof {
                lemma_digit_end_range(s@, k + 1, to as int);
            }
            if fcount == 4 {
                return Err(ValueFail::Malformed);
            }
            let d = digit_of(s.get_char(k));
            proof {
                lemma_digits_val_bound(s@.subrange(dotp + 1, k as int));
                lemma_pow10_small();
                let t = s@.subrange(dotp + 1, k + 1);
                assert(t.drop_last() =~= s@.subrange(dotp + 1, k as int));
                assert(t.last() == s@[k as int]);
            }
            fval = fval * 10 + d;
            fcount = fcount + 1;
            k = k + 1;
        }
        proof {
            assert(digit_end(s@, k as int, to as int) == k);
        }
        if fcount == 0 {
            return Err(ValueFail::Malformed);
        }
        let scale: u64 = if fcount == 1 {
            1_000
        } else if fcount == 2 {
            100
        } else if fcount == 3 {
            10
        } else {
            1
        };
        proof {
            lemma_pow10_small();
            lemma_digits_val_bound(s@.subrange(dotp + 1, k as int));
            assert(scale as nat == pow10((4 - fcount) as nat));
            assert(fval < 10_000);
            assert(fval * scale <= 9_999_000) by (nonlinear_arith)
                requires
                    fval <= 9_999,
                    scale <= 1_000,
            ;
            assert(num_shape_ok(s@, i as int, to as int));
            assert(num_units(s@, i as int, to as int) == val * 10_000 + fval * scale);
            assert(num_end(s@, i as int, to as int) == k);
        }
        let whole = match val.checked_mul(10_000) {
            Some(v) => v,
            None => {
                return Err(ValueFail::TooBig);
            },
        };
        let fscaled = match fval.checked_mul(scale) {
            Some(v) => v,
            None => {
                return Err(ValueFail::TooBig);
            },
        };
        let units = match whole.checked_add(fscaled) {
            Some(v) => v,
            None => {
                return Err(ValueFail::TooBig);
            },
        };
        Ok((Decimal { units }, k))
    } else {
        proof {
            assert(num_shape_ok(s@, i as int, to as int));
            assert(num_units(s@, i as int, to as int) == val * 10_000);
            assert(num_end(s@, i as int, to as int) == j);
        }
        let units = match val.checked_mul(10_000) {
            Some(v) => v,
            None => {
                return Err(ValueFail::TooBig);
            },
        };
        Ok((Decimal { units }, j))
    }
}

/// Scans an inline table `{ key = "value", ... }` starting at the
/// opening brace at `i`; returns the pairs in order and the index after
/// the closing brace.
fn scan_inline(s: &str, i: usize, to: usize) -> (r: Option<(Vec<(String, String)>, usize)>)
    requires
        i < to <= s@.len(),
        s@[i as int] == '{',
    ensures
        r matches Some((pairs, next)) ==> i < next <= to && (forall|t: int|
            0 <= t < pairs@.len() ==> contains_seq(s@, (#[trigger] pairs@[t]).1@)),
{
    let mut pairs: Vec<(String, String)> = Vec::new();
    let mut j = skip_ws(s, i + 1, to);
    if j < to && s.get_char(j) == '}' {
        return Some((pairs, j + 1));
    }
    loop
        invariant
            i < j <= to,
            to <= s@.len(),
            forall|t: int| 0 <= t < pairs@.len() ==> contains_seq(s@, (#[trigger] pairs@[t]).1@),
        decreases to - j,
    {
        let ke = scan_key(s, j, to);
        if ke == j {
            return None;
        }
        let key = s.substring_char(j, ke);
        let mut m = skip_ws(s, ke, to);
        if !(m < to && s.get_char(m) == '=') {
            return None;
        }
        m = skip_ws(s, m + 1, to);
        if !(m < to && s.get_char(m) == '"') {
            return None;
        }
        let (v, next) = match scan_string(s, m, to) {
            Some(p) => p,
            None => {
                return None;
            },
        };
        proof {
            lemma_contains_subrange(s@, m as int + 1, next as int - 1);
        }
        pairs.push((key.to_owned(), v));
        let e = skip_ws(s, next, to);
        if e < to && s.get_char(e) == ',' {
            j = skip_ws(s, e + 1, to);
        } else if e < to && s.get_char(e) == '}' {
            return Some((pairs, e + 1));
        } else {
            return None;
        }
    }
}

/// The fields gathered while reading the document.
struct ProductBuilder {
    description: Option<String>,
    quantity: Option<Decimal>,
    rate: Option<Decimal>,
    tax: Option<Decimal>,
}

struct Builder {
    invoice_id: Option<String>,
    invoice_date: Option<String>,
    invoice_due: Option<String>,
    er_name: Option<String>,
    er_vat: Option<String>,
    er_addr: Option<String>,
    ee_name: Option<String>,
    ee_vat: Option<String>,
    ee_addr: Option<String>,
    iban: Option<String>,
    bank: Option<BankCode>,
    bank_name: Option<String>,
    bank_addr: Option<String>,
    products: Vec<ProductBuilder>,
}

impl ProductBuilder {
    fn new() -> (r: ProductBuilder)
        ensures
            r.description is None,
            r.quantity is None,
            r.rate is None,
            r.tax is None,
    {
        ProductBuilder { description: None, quantity: None, rate: None, tax: None }
    }
}

impl Builder {
    fn new() -> (r: Builder)
        ensures
            r.invoice_id is None,
            r.invoice_date is None,
            r.invoice_due is None,
            r.er_name is None,
            r.er_vat is None,
            r.er_addr is None,
            r.ee_name is None,
            r.ee_vat is None,
            r.ee_addr is None,
            r.iban is None,
            r.bank is None,
            r.bank_name is None,
            r.bank_addr is None,
            r.products@.len() == 0,
    {
        Builder {
            invoice_id: None,
            invoice_date: None,
            invoice_due: None,
            er_name: None,
            er_vat: None,
            er_addr: None,
            ee_name: None,
            ee_vat: None,
            ee_addr: None,
            iban: None,
            bank: None,
            bank_name: None,
            bank_addr: None,
            products: Vec::new(),
        }
    }
}

/// A gathered string field came verbatim from the document.
spec fn text_opt_ok(s: Seq<char>, o: Option<String>) -> bool {
    o matches Some(v) ==> contains_seq(s, v@)
}

/// Consistency carried from line to line: inside a product section at
/// least one product has been opened; a gathered bank identifier holds
/// a non-empty code; and every gathered string value occurs verbatim in
/// the document text `s`.
spec fn state_ok(s: Seq<char>, sec: Section, b: Builder) -> bool {
    &&& (sec is Product ==> b.products.len() >= 1)
    &&& (b.bank matches Some(k) ==> crate::model::bank_value(k).len() > 0 && contains_seq(
        s,
        crate::model::bank_value(k),
    ))
    &&& text_opt_ok(s, b.invoice_id)
    &&& text_opt_ok(s, b.invoice_date)
    &&& text_opt_ok(s, b.invoice_due)
    &&& text_opt_ok(s, b.er_name)
    &&& text_opt_ok(s, b.er_vat)
    &&& text_opt_ok(s, b.er_addr)
    &&& text_opt_ok(s, b.ee_name)
    &&& text_opt_ok(s, b.ee_vat)
    &&& text_opt_ok(s, b.ee_addr)
    &&& text_opt_ok(s, b.iban)
    &&& text_opt_ok(s, b.bank_name)
    &&& text_opt_ok(s, b.bank_addr)
    &&& (forall|t: int| 0 <= t < b.products@.len() ==> text_opt_ok(
        s,
        (#[trigger] b.products@[t]).description,
    ))
}

/// Stores a string value into a declared string field.
fn set_text(slot: &mut Option<String>, val: Value, path: &str) -> (r: Result<(), LoadError>)
    ensures
        *final(slot) == *old(slot) || (val matches Value::Text(tv) && *final(slot) == Some::<
            String,
        >(tv)),
{
    match val {
        Value::Text(v) => {
            if slot.is_some() {
                Err(LoadError::Duplicate { path: path.to_owned() })
            } else {
                *slot = Some(v);
                Ok(())
            }
        },
        Value::Number(_) => Err(LoadError::WrongType { path: path.to_owned() }),
        Value::NumberOutOfRange => Err(LoadError::WrongType { path: path.to_owned() }),
        Value::Table(_) => Err(LoadError::WrongType { path: path.to_owned() }),
    }
}

/// Stores a number value into a declared number field.
fn set_num(slot: &mut Option<Decimal>, val: Value, path: &str) -> (r: Result<(), LoadError>)
{
    match val {
        Value::Number(d) => {
            if slot.is_some() {
                Err(LoadError::Duplicate { path: path.to_owned() })
            } else {
                *slot = Some(d);
                Ok(())
            }
        },
        Value::NumberOutOfRange => Err(LoadError::BadNumber { path: path.to_owned() }),
        Value::Text(_) => Err(LoadError::WrongType { path: path.to_owned() }),
        Value::Table(_) => Err(LoadError::WrongType { path: path.to_owned() }),
    }
}

/// Stores the `{type, value}` pair of the bank identifier field.
fn set_bank(slot: &mut Option<BankCode>, val: Value) -> (r: Result<(), LoadError>)
    ensures
        *final(slot) == *old(slot) || (*final(slot) matches Some(k) && crate::model::bank_value(
            k,
        ).len() > 0 && (val matches Value::Table(pairs) && exists|t: int|
            0 <= t < pairs@.len() && crate::model::bank_value(k) == (#[trigger] pairs@[t]).1@)),
{
    let pairs = match val {
        Value::Table(p) => p,
        Value::Text(_) => {
            return Err(
                LoadError::WrongType { path: String::from_str("account.bank_code") },
            );
        },
        Value::Number(_) => {
            return Err(
                LoadError::WrongType { path: String::from_str("account.bank_code") },
            );
        },
        Value::NumberOutOfRange => {
            return Err(
                LoadError::WrongType { path: String::from_str("account.bank_code") },
            );
        },
    };
    if slot.is_some() {
        return Err(LoadError::Duplicate { path: String::from_str("account.bank_code") });
    }
    let mut tag: Option<&String> = None;
    let mut value: Option<&String> = None;
    let mut i: usize = 0;
    while i < pairs.len()
        invariant
            0 <= i <= pairs.len(),
            value matches Some(v) ==> exists|t: int|
                0 <= t < pairs@.len() && (#[trigger] pairs@[t]).1@ == v@,
        decreases pairs.len() - i,
    {
        let p = &pairs[i];
        if str_eq(p.0.as_str(), "type") {
            if tag.is_none() {
                tag = Some(&p.1);
            }
        } else if str_eq(p.0.as_str(), "value") {
            if value.is_none() {
                value = Some(&p.1);
                proof {
                    assert((pairs@[i as int]).1@ == p.1@);
                }
            }
        }
        i = i + 1;
    }
    let tag = match tag {
        Some(t) => t,
        None => {
            return Err(
                LoadError::MissingField { path: String::from_str("account.bank_code.type") },
            );
        },
    };
    let value = match value {
        Some(v) => v,
        None => {
            return Err(
                LoadError::MissingField { path: String::from_str("account.bank_code.value") },
            );
        },
    };
    if value.as_str().unicode_len() == 0 {
        return Err(LoadError::EmptyBankCode { path: String::from_str("account.bank_code.value") });
    }
    match parse_bank_code(tag.as_str(), value.as_str()) {
        Some(bc) => {
            *slot = Some(bc);
            Ok(())
        },
        None => Err(LoadError::UnknownBankTag { path: String::from_str("account.bank_code.type") }),
    }
}

/// The field path of one line-item field, e.g. `product[0].rate`.
fn product_path(idx: usize, field: &str) -> (r: String)
    ensures
        r@ == "product["@ + dec_str(idx as nat) + "]."@ + field@,
{
    let mut out = String::from_str("product[");
    push_dec(idx as u128, &mut out);
    out.append("].");
    out.append(field);
    proof {
        assert(out@ =~= "product["@ + dec_str(idx as nat) + "]."@ + field@);
    }
    out
}

/// Reads one line of the document: blank or comment, a section header,
/// or a `key = value` assignment dispatched to the declared field of
/// the current section. Unknown sections and keys are ignored.
fn handle_line(
    s: &str,
    from: usize,
    to: usize,
    line_no: usize,
    sec: &mut Section,
    b: &mut Builder,
) -> (r: Result<(), LoadError>)
    requires
        from <= to <= s@.len(),
        state_ok(s@, *old(sec), *old(b)),
    ensures
        state_ok(s@, *final(sec), *final(b)),
{
    let i = skip_ws(s, from, to);
    if i == to {
        return Ok(());
    }
    let c = s.get_char(i);
    if c == '#' {
        return Ok(());
    }
    if c == '[' {
        let dbl = i + 1 < to && s.get_char(i + 1) == '[';
        let start = if dbl {
            i + 2
        } else {
            i + 1
        };
        let ks = skip_ws(s, start, to);
        let ke = scan_key(s, ks, to);
        if ke == ks {
            return Err(LoadError::Syntax { line: line_no });
        }
        let name = s.substring_char(ks, ke);
        let mut j = skip_ws(s, ke, to);
        if dbl {
            if !(j < to && s.get_char(j) == ']') {
                return Err(LoadError::Syntax { line: line_no });
            }
            if !(j + 1 < to && s.get_char(j + 1) == ']') {
                return Err(LoadError::Syntax { line: line_no });
            }
            j = skip_ws(s, j + 2, to);
        } else {
            if !(j < to && s.get_char(j) == ']') {
                return Err(LoadError::Syntax { line: line_no });
            }
            j = skip_ws(s, j + 1, to);
        }
        if !(j == to || s.get_char(j) == '#') {
            return Err(LoadError::Syntax { line: line_no });
        }
        if dbl {
            if str_eq(name, "product") {
                b.products.push(ProductBuilder::new());
                *sec = Section::Product;
            } else {
                *sec = Section::Other;
            }
        } else {
            if str_eq(name, "invoice") {
                *sec = Section::Invoice;
            } else if str_eq(name, "invoicer") {
                *sec = Section::Invoicer;
            } else if str_eq(name, "invoicee") {
                *sec = Section::Invoicee;
            } else if str_eq(name, "account") {
                *sec = Section::Account;
            } else {
                *sec = Section::Other;
            }
        }
        return Ok(());
    }
    let ke = scan_key(s, i, to);
    if ke == i {
        return Err(LoadError::Syntax { line: line_no });
    }
    let key = s.substring_char(i, ke);
    let mut j = skip_ws(s, ke, to);
    if !(j < to && s.get_char(j) == '=') {
        return Err(LoadError::Syntax { line: line_no });
    }
    j = skip_ws(s, j + 1, to);
    if j == to {
        return Err(LoadError::Syntax { line: line_no });
    }
    let vc = s.get_char(j);
    let val: Value;
    let next: usize;
    if vc == '"' {
        match scan_string(s, j, to) {
            Some((v, nx)) => {
                proof {
                    lemma_contains_subrange(s@, j as int + 1, nx as int - 1);
                }
                val = Value::Text(v);
                next = nx;
            },
            None => {
                return Err(LoadError::Syntax { line: line_no });
            },
        }
    } else if vc == '{' {
        match scan_inline(s, j, to) {
            Some((p, nx)) => {
                val = Value::Table(p);
                next = nx;
            },
            None => {
                return Err(LoadError::Syntax { line: line_no });
            },
        }
    } else if is_digit(vc) {
        match scan_number(s, j, to) {
            Ok((d, nx)) => {
                val = Value::Number(d);
                next = nx;
            },
            Err(ValueFail::TooBig) => {
                let mut nx = j;
                val = Value::NumberOutOfRange;
                // skip over the rest of the token so the line check passes
                while nx < to && !is_ws(s.get_char(nx)) && s.get_char(nx) != '#'
                    invariant
                        j <= nx <= to,
                        to <= s@.len(),
                    decreases to - nx,
                {
                    nx = nx + 1;
                }
                next = nx;
            },
            Err(ValueFail::Malformed) => {
                return Err(LoadError::Syntax { line: line_no });
            },
        }
    } else {
        return Err(LoadError::Syntax { line: line_no });
    }
    let e = skip_ws(s, next, to);
    if !(e == to || s.get_char(e) == '#') {
        return Err(LoadError::Syntax { line: line_no });
    }
    match *sec {
        Section::Invoice => {
            if str_eq(key, "id") {
                set_text(&mut b.invoice_id, val, "invoice.id")
            } else if str_eq(key, "date") {
                set_text(&mut b.invoice_date, val, "invoice.date")
            } else if str_eq(key, "due_date") {
                set_text(&mut b.invoice_due, val, "invoice.due_date")
            } else {
                Ok(())
            }
        },
        Section::Invoicer => {
            if str_eq(key, "name") {
                set_text(&mut b.er_name, val, "invoicer.name")
            } else if str_eq(key, "vat_id") {
                set_text(&mut b.er_vat, val, "invoicer.vat_id")
            } else if str_eq(key, "address") {
                set_text(&mut b.er_addr, val, "invoicer.address")
            } else {
                Ok(())
            }
        },
        Section::Invoicee => {
            if str_eq(key, "name") {
                set_text(&mut b.ee_name, val, "invoicee.name")
            } else if str_eq(key, "vat_id") {
                set_text(&mut b.ee_vat, val, "invoicee.vat_id")
            } else if str_eq(key, "address") {
                set_text(&mut b.ee_addr, val, "invoicee.address")
            } else {
                Ok(())
            }
        },
        Section::Account => {
            if str_eq(key, "iban") {
                set_text(&mut b.iban, val, "account.iban")
            } else if str_eq(key, "bank_code") {
                set_bank(&mut b.bank, val)
            } else if str_eq(key, "bank_name") {
                set_text(&mut b.bank_name, val, "account.bank_name")
            } else if str_eq(key, "address") {
                set_text(&mut b.bank_addr, val, "account.address")
            } else {
                Ok(())
            }
        },
        Section::Product => {
            let idx = b.products.len() - 1;
            if str_eq(key, "description") {
                let path = product_path(idx, "description");
                set_text(&mut b.products[idx].description, val, path.as_str())
            } else if str_eq(key, "quantity") {
                let path = product_path(idx, "quantity");
                set_num(&mut b.products[idx].quantity, val, path.as_str())
            } else if str_eq(key, "rate") {
                let path = product_path(idx, "rate");
                set_num(&mut b.products[idx].rate, val, path.as_str())
            } else if str_eq(key, "tax") {
                let path = product_path(idx, "tax");
                set_num(&mut b.products[idx].tax, val, path.as_str())
            } else {
                Ok(())
            }
        },
        Section::Top => Ok(()),
        Section::Other => Ok(()),
    }
}

/// Every declared field of one line item has been gathered.
spec fn product_complete(pb: ProductBuilder) -> bool {
    pb.description is Some && pb.quantity is Some && pb.rate is Some && pb.tax is Some
}

/// The line item a completed builder describes.
spec fn built_product(pb: ProductBuilder) -> Product {
    Product {
        description: pb.description.unwrap(),
        quantity: pb.quantity.unwrap(),
        rate: pb.rate.unwrap(),
        tax: pb.tax.unwrap(),
    }
}

/// The line items a completed builder describes.
spec fn built_products(pbs: Seq<ProductBuilder>) -> Seq<Product> {
    pbs.map_values(|pb: ProductBuilder| built_product(pb))
}

/// Every declared field of the document has been gathered.
spec fn builder_complete(b: Builder) -> bool {
    &&& b.invoice_id is Some
    &&& b.invoice_date is Some
    &&& b.invoice_due is Some
    &&& b.er_name is Some
    &&& b.er_vat is Some
    &&& b.er_addr is Some
    &&& b.ee_name is Some
    &&& b.ee_vat is Some
    &&& b.ee_addr is Some
    &&& b.iban is Some
    &&& b.bank is Some
    &&& b.bank_name is Some
    &&& b.bank_addr is Some
    &&& forall|i: int| 0 <= i < b.products@.len() ==> product_complete(#[trigger] b.products@[i])
}

/// Assembles the gathered fields. It succeeds exactly when every
/// declared field is present and the overall total is in range, and
/// then the document is exactly the gathered values; otherwise it
/// fails, an absent field named by its path.
fn finish(b: Builder) -> (r: Result<Config, LoadError>)
    requires
        b.bank matches Some(k) ==> crate::model::bank_value(k).len() > 0,
    ensures
        r is Ok <==> (builder_complete(b) && total_spec(built_products(b.products@))
            <= u128::MAX),
        (b.products@.len() == 0 && b.invoice_id is None) ==> (r matches Err(e) && e matches
            LoadError::MissingField { path } && path@ == "invoice.id"@),
        r matches Ok(c) ==> {
            &&& c.invoice.id == b.invoice_id.unwrap()
            &&& c.invoice.date == b.invoice_date.unwrap()
            &&& c.invoice.due_date == b.invoice_due.unwrap()
            &&& c.invoicer.name == b.er_name.unwrap()
            &&& c.invoicer.vat_id == b.er_vat.unwrap()
            &&& c.invoicer.address == b.er_addr.unwrap()
            &&& c.invoicee.name == b.ee_name.unwrap()
            &&& c.invoicee.vat_id == b.ee_vat.unwrap()
            &&& c.invoicee.address == b.ee_addr.unwrap()
            &&& c.account.iban == b.iban.unwrap()
            &&& c.account.bank_code == b.bank.unwrap()
            &&& c.account.bank_name == b.bank_name.unwrap()
            &&& c.account.address == b.bank_addr.unwrap()
            &&& c.product@ == built_products(b.products@)
            &&& c.wf()
        },
{
    let mut product: Vec<Product> = Vec::new();
    let mut i: usize = 0;
    while i < b.products.len()
        invariant
            0 <= i <= b.products@.len(),
            product@ == built_products(b.products@.take(i as int)),
            forall|j: int| 0 <= j < i ==> product_complete(#[trigger] b.products@[j]),
        decreases b.products@.len() - i,
    {
        let pb = &b.products[i];
        let description = match &pb.description {
            Some(v) => v.clone(),
            None => {
                return Err(LoadError::MissingField { path: product_path(i, "description") });
            },
        };
        let quantity = match &pb.quantity {
            Some(v) => *v,
            None => {
                return Err(LoadError::MissingField { path: product_path(i, "quantity") });
            },
        };
        let rate = match &pb.rate {
            Some(v) => *v,
            None => {
                return Err(LoadError::MissingField { path: product_path(i, "rate") });
            },
        };
        let tax = match &pb.tax {
            Some(v) => *v,
            None => {
                return Err(LoadError::MissingField { path: product_path(i, "tax") });
            },
        };
        product.push(Product { description, quantity, rate, tax });
        proof {
            assert(product@ =~= built_products(b.products@.take(i as int + 1)));
        }
        i = i + 1;
    }
    proof {
        assert(b.products@.take(b.products@.len() as int) =~= b.products@);
        assert(product@ =~= built_products(b.products@));
    }
    let total_ok = match total_checked(&product) {
        None => false,
        Some(_) => true,
    };
    if !total_ok {
        return Err(LoadError::TotalOutOfRange);
    }
    let invoice_id = match b.invoice_id {
        Some(v) => v,
        None => {
            return Err(LoadError::MissingField { path: String::from_str("invoice.id") });
        },
    };
    let invoice_date = match b.invoice_date {
        Some(v) => v,
        None => {
            return Err(LoadError::MissingField { path: String::from_str("invoice.date") });
        },
    };
    let invoice_due = match b.invoice_due {
        Some(v) => v,
        None => {
            return Err(LoadError::MissingField { path: String::from_str("invoice.due_date") });
        },
    };
    let er_name = match b.er_name {
        Some(v) => v,
        None => {
            return Err(LoadError::MissingField { path: String::from_str("invoicer.name") });
        },
    };
    let er_vat = match b.er_vat {
        Some(v) => v,
        None => {
            return Err(LoadError::MissingField { path: String::from_str("invoicer.vat_id") });
        },
    };
    let er_addr = match b.er_addr {
        Some(v) => v,
        None => {
            return Err(LoadError::MissingField { path: String::from_str("invoicer.address") });
        },
    };
    let ee_name = match b.ee_name {
        Some(v) => v,
        None => {
            return Err(LoadError::MissingField { path: String::from_str("invoicee.name") });
        },
    };
    let ee_vat = match b.ee_vat {
        Some(v) => v,
        None => {
            return Err(LoadError::MissingField { path: String::from_str("invoicee.vat_id") });
        },
    };
    let ee_addr = match b.ee_addr {
        Some(v) => v,
        None => {
            return Err(LoadError::MissingField { path: String::from_str("invoicee.address") });
        },
    };
    let iban = match b.iban {
        Some(v) => v,
        None => {
            return Err(LoadError::MissingField { path: String::from_str("account.iban") });
        },
    };
    let bank = match b.bank {
        Some(v) => v,
        None => {
            return Err(LoadError::MissingField { path: String::from_str("account.bank_code") });
        },
    };
    let bank_name = match b.bank_name {
        Some(v) => v,
        None => {
            return Err(LoadError::MissingField { path: String::from_str("account.bank_name") });
        },
    };
    let bank_addr = match b.bank_addr {
        Some(v) => v,
        None => {
            return Err(LoadError::MissingField { path: String::from_str("account.address") });
        },
    };
    let c = Config {
        invoice: InvoiceInfo { id: invoice_id, date: invoice_date, due_date: invoice_due },
        invoicer: CompanyInfo { name: er_name, vat_id: er_vat, address: er_addr },
        invoicee: CompanyInfo { name: ee_name, vat_id: ee_vat, address: ee_addr },
        account: PaymentInfo { iban, bank_code: bank, bank_name, address: bank_addr },
        product,
    };
    Ok(c)
}

/// Loads the configuration text into a validated `Config`. Either every
/// declared field is present, of the declared type and set once, the
/// bank identifier carries a recognized tag and a non-empty code, and
/// the totals are in range -- or the load fails with an error naming
/// the offending field path or line, and no document is produced.
pub fn load(s: &str) -> (r: Result<Config, LoadError>)
    ensures
        r matches Ok(c) ==> c.wf(),
        s@.len() == 0 ==> (r matches Err(e) && e matches LoadError::MissingField { path } && path@
            == "invoice.id"@),
        r matches Ok(c) ==> {
            &&& contains_seq(s@, c.invoice.id@)
            &&& contains_seq(s@, c.invoice.date@)
            &&& contains_seq(s@, c.invoice.due_date@)
            &&& contains_seq(s@, c.invoicer.name@)
            &&& contains_seq(s@, c.invoicer.vat_id@)
            &&& contains_seq(s@, c.invoicer.address@)
            &&& contains_seq(s@, c.invoicee.name@)
            &&& contains_seq(s@, c.invoicee.vat_id@)
            &&& contains_seq(s@, c.invoicee.address@)
            &&& contains_seq(s@, c.account.iban@)
            &&& contains_seq(s@, crate::model::bank_value(c.account.bank_code))
            &&& contains_seq(s@, c.account.bank_name@)
            &&& contains_seq(s@, c.account.address@)
            &&& (forall|t: int| 0 <= t < c.product@.len() ==> contains_seq(
                s@,
                (#[trigger] c.product@[t]).description@,
            ))
        },
{
    let n = s.unicode_len();
    let mut b = Builder::new();
    let mut sec = Section::Top;
    let mut pos: usize = 0;
    let mut line: usize = 1;
    while pos < n
        invariant
            n == s@.len(),
            pos <= n,
            state_ok(s@, sec, b),
            n == 0 ==> b.invoice_id is None && b.products@.len() == 0,
        decreases n - pos,
    {
        let mut end = pos;
        while end < n && s.get_char(end) != '\n'
            invariant
                pos <= end <= n,
                n == s@.len(),
            decreases n - end,
        {
            end = end + 1;
        }
        match handle_line(s, pos, end, line, &mut sec, &mut b) {
            Ok(()) => {},
            Err(e) => {
                return Err(e);
            },
        }
        pos = end;
        if pos < n {
            pos = pos + 1;
        }
        if line < usize::MAX {
            line = line + 1;
        }
    }
    let ghost bf = b;
    match finish(b) {
        Ok(c) => {
            proof {
                assert forall|t: int| 0 <= t < c.product@.len() implies contains_seq(
                    s@,
                    (#[trigger] c.product@[t]).description@,
                ) by {
                    assert(c.product@[t] == built_product(bf.products@[t]));
                    assert(text_opt_ok(s@, bf.products@[t].description));
                }
            }
            Ok(c)
        },
        Err(e) => Err(e),
    }
}


} // verus!
