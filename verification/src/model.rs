//! The invoice data model: metadata, the two parties, the payment account
//! with its tagged bank identifier, and the ordered line items.
//!
//! Per-line totals are specified exactly over the fixed-point units:
//! a line's total, at twelve fractional digits, is
//! `quantity.units * rate.units * (FRAC_POW + tax.units)`, which is the
//! scaled form of quantity × rate × (1 + tax); the overall total is the
//! sum of the per-line totals.

use vstd::prelude::*;
use crate::num::Decimal;
use crate::num::FRAC_POW;

verus! {

/// Invoice metadata; dates are opaque display strings.
#[derive(Clone, Debug, PartialEq)]
pub struct InvoiceInfo {
    pub id: String,
    pub date: String,
    pub due_date: String,
}

/// One party of the invoice, issuing or billed.
#[derive(Clone, Debug, PartialEq)]
pub struct CompanyInfo {
    pub name: String,
    pub vat_id: String,
    pub address: String,
}

/// One line item.
#[derive(Clone, Debug, PartialEq)]
pub struct Product {
    pub description: String,
    pub quantity: Decimal,
    pub rate: Decimal,
    pub tax: Decimal,
}

/// Tagged bank identifier: exactly one of a SWIFT or a BIC code.
#[derive(Clone, Debug, PartialEq)]
pub enum BankCode {
    Swift(String),
    Bic(String),
}

/// The payment account of the issuing party.
#[derive(Clone, Debug, PartialEq)]
pub struct PaymentInfo {
    pub iban: String,
    pub bank_code: BankCode,
    pub bank_name: String,
    pub address: String,
}

/// The root invoice document.
#[derive(Clone, Debug, PartialEq)]
pub struct Config {
    pub invoice: InvoiceInfo,
    pub invoicer: CompanyInfo,
    pub invoicee: CompanyInfo,
    pub account: PaymentInfo,
    pub product: Vec<Product>,
}

/// Per-line total at twelve fractional digits:
/// quantity × rate × (1 + tax), scaled.
pub open spec fn line_total_spec(p: Product) -> int {
    p.quantity.units * p.rate.units * (FRAC_POW + p.tax.units)
}

/// Overall total: the sum of the per-line totals.
pub open spec fn total_spec(ps: Seq<Product>) -> int
    decreases ps.len(),
{
    if ps.len() == 0 {
        0
    } else {
        total_spec(ps.drop_last()) + line_total_spec(ps.last())
    }
}

pub proof fn lemma_line_total_nonneg(p: Product)
    ensures
        line_total_spec(p) >= 0,
{
    assert(line_total_spec(p) >= 0) by (nonlinear_arith)
        requires
            p.quantity.units >= 0,
            p.rate.units >= 0,
            FRAC_POW + p.tax.units >= 0,
    ;
}

/// A prefix of the line items never sums to more than the whole:
/// every per-line total is non-negative.
pub proof fn lemma_total_prefix_bound(ps: Seq<Product>, i: int)
    requires
        0 <= i <= ps.len(),
    ensures
        total_spec(ps.take(i)) <= total_spec(ps),
        total_spec(ps.take(i)) >= 0,
    decreases ps.len() - i,
{
    lemma_total_nonneg(ps.take(i));
    if i == ps.len() {
        assert(ps.take(i) =~= ps);
    } else {
        lemma_total_prefix_bound(ps, i + 1);
        lemma_total_take_succ(ps, i);
        lemma_line_total_nonneg(ps[i]);
    }
}

pub proof fn lemma_total_nonneg(ps: Seq<Product>)
    ensures
        total_spec(ps) >= 0,
    decreases ps.len(),
{
    if ps.len() > 0 {
        lemma_total_nonneg(ps.drop_last());
        lemma_line_total_nonneg(ps.last());
    }
}

/// Unfolding step: the total of one more line item.
pub proof fn lemma_total_take_succ(ps: Seq<Product>, i: int)
    requires
        0 <= i < ps.len(),
    ensures
        total_spec(ps.take(i + 1)) == total_spec(ps.take(i)) + line_total_spec(ps[i]),
{
    assert(ps.take(i + 1).drop_last() =~= ps.take(i));
    assert(ps.take(i + 1).last() == ps[i]);
}

/// The overall total is the sum of the per-line totals: folding
/// addition over the per-line totals, in order, gives `total_spec`.
pub proof fn lemma_total_is_sum_of_lines(ps: Seq<Product>)
    ensures
        total_spec(ps) == ps.map_values(|p: Product| line_total_spec(p)).fold_left(
            0int,
            |acc: int, x: int| acc + x,
        ),
    decreases ps.len(),
{
    let f = |p: Product| line_total_spec(p);
    if ps.len() > 0 {
        lemma_total_is_sum_of_lines(ps.drop_last());
        assert(ps.map_values(f).drop_last() =~= ps.drop_last().map_values(f));
        assert(ps.map_values(f).last() == line_total_spec(ps.last()));
    }
}

impl Config {
    /// Well-formedness: the bank code's value is non-empty and the
    /// overall total fits the machine arithmetic of the renderer.
    pub open spec fn wf(self) -> bool {
        &&& bank_value(self.account.bank_code).len() > 0
        &&& total_spec(self.product@) <= u128::MAX
    }
}

/// The code carried by a bank identifier, whichever the variant.
pub open spec fn bank_value(b: BankCode) -> Seq<char> {
    match b {
        BankCode::Swift(s) => s@,
        BankCode::Bic(s) => s@,
    }
}

/// The serialized tag of a bank identifier.
pub open spec fn bank_tag(b: BankCode) -> Seq<char> {
    match b {
        BankCode::Swift(_) => "SWIFT"@,
        BankCode::Bic(_) => "BIC"@,
    }
}

/// Uppercase form of an ASCII letter; any other character is unchanged.
pub open spec fn upper_char(c: char) -> char {
    if c == 'a' {
        'A'
    } else if c == 'b' {
        'B'
    } else if c == 'c' {
        'C'
    } else if c == 'd' {
        'D'
    } else if c == 'e' {
        'E'
    } else if c == 'f' {
        'F'
    } else if c == 'g' {
        'G'
    } else if c == 'h' {
        'H'
    } else if c == 'i' {
        'I'
    } else if c == 'j' {
        'J'
    } else if c == 'k' {
        'K'
    } else if c == 'l' {
        'L'
    } else if c == 'm' {
        'M'
    } else if c == 'n' {
        'N'
    } else if c == 'o' {
        'O'
    } else if c == 'p' {
        'P'
    } else if c == 'q' {
        'Q'
    } else if c == 'r' {
        'R'
    } else if c == 's' {
        'S'
    } else if c == 't' {
        'T'
    } else if c == 'u' {
        'U'
    } else if c == 'v' {
        'V'
    } else if c == 'w' {
        'W'
    } else if c == 'x' {
        'X'
    } else if c == 'y' {
        'Y'
    } else if c == 'z' {
        'Z'
    } else {
        c
    }
}

/// ASCII-uppercased form of a character sequence.
pub open spec fn upper_seq(s: Seq<char>) -> Seq<char> {
    s.map_values(|c: char| upper_char(c))
}

/// Uppercase form of one character.
pub fn upper_char_x(c: char) -> (r: char)
    ensures
        r == upper_char(c),
{
    if c == 'a' {
        'A'
    } else if c == 'b' {
        'B'
    } else if c == 'c' {
        'C'
    } else if c == 'd' {
        'D'
    } else if c == 'e' {
        'E'
    } else if c == 'f' {
        'F'
    } else if c == 'g' {
        'G'
    } else if c == 'h' {
        'H'
    } else if c == 'i' {
        'I'
    } else if c == 'j' {
        'J'
    } else if c == 'k' {
        'K'
    } else if c == 'l' {
        'L'
    } else if c == 'm' {
        'M'
    } else if c == 'n' {
        'N'
    } else if c == 'o' {
        'O'
    } else if c == 'p' {
        'P'
    } else if c == 'q' {
        'Q'
    } else if c == 'r' {
        'R'
    } else if c == 's' {
        'S'
    } else if c == 't' {
        'T'
    } else if c == 'u' {
        'U'
    } else if c == 'v' {
        'V'
    } else if c == 'w' {
        'W'
    } else if c == 'x' {
        'X'
    } else if c == 'y' {
        'Y'
    } else if c == 'z' {
        'Z'
    } else {
        c
    }
}

/// Whether the ASCII-uppercased `s` equals `pat` character for character.
fn eq_upper(s: &str, pat: &str) -> (b: bool)
    ensures
        b == (upper_seq(s@) == pat@),
{
    let n = s.unicode_len();
    let m = pat.unicode_len();
    proof {
        assert(upper_seq(s@).len() == s@.len());
    }
    if n != m {
        return false;
    }
    let mut i: usize = 0;
    while i < n
        invariant
            0 <= i <= n,
            n == s@.len(),
            n == pat@.len(),
            forall|j: int| 0 <= j < i ==> upper_char(s@[j]) == pat@[j],
        decreases n - i,
    {
        let c = s.get_char(i);
        let u = upper_char_x(c);
        let p = pat.get_char(i);
        if u != p {
            proof {
                assert(upper_seq(s@)[i as int] == upper_char(s@[i as int]));
            }
            return false;
        }
        i = i + 1;
    }
    proof {
        assert(upper_seq(s@) =~= pat@);
    }
    true
}

/// Builds a bank identifier from its serialized `{type, value}` pair:
/// the tag is matched case-insensitively against the two recognized
/// variants, and the value must be non-empty. Any other pair is refused.
pub fn parse_bank_code(tag: &str, value: &str) -> (r: Option<BankCode>)
    ensures
        match r {
            Some(b) => {
                &&& bank_value(b) == value@
                &&& value@.len() > 0
                &&& (b is Swift <==> upper_seq(tag@) == "SWIFT"@)
                &&& (b is Bic <==> upper_seq(tag@) == "BIC"@)
            },
            None => !(value@.len() > 0 && (upper_seq(tag@) == "SWIFT"@ || upper_seq(tag@)
                == "BIC"@)),
        },
{
    proof {
        reveal_strlit("SWIFT");
        reveal_strlit("BIC");
        assert("SWIFT"@.len() == 5);
        assert("BIC"@.len() == 3);
        assert("SWIFT"@ != "BIC"@);
    }
    if value.unicode_len() == 0 {
        return None;
    }
    if eq_upper(tag, "SWIFT") {
        Some(BankCode::Swift(value.to_owned()))
    } else if eq_upper(tag, "BIC") {
        Some(BankCode::Bic(value.to_owned()))
    } else {
        None
    }
}

/// Display form of a bank identifier: `SWIFT: <code>` or `BIC: <code>`.
pub open spec fn bank_display(b: BankCode) -> Seq<char> {
    match b {
        BankCode::Swift(s) => "SWIFT: "@ + s@,
        BankCode::Bic(s) => "BIC: "@ + s@,
    }
}

pub fn bank_code_display(b: &BankCode) -> (r: String)
    ensures
        r@ == bank_display(*b),
{
    match b {
        BankCode::Swift(code) => {
            let mut out = String::from_str("SWIFT: ");
            out.append(code.as_str());
            out
        },
        BankCode::Bic(code) => {
            let mut out = String::from_str("BIC: ");
            out.append(code.as_str());
            out
        },
    }
}

/// The serialized tag of a bank identifier, as written on disk.
pub fn bank_tag_str(b: &BankCode) -> (r: &'static str)
    ensures
        r@ == bank_tag(*b),
{
    match b {
        BankCode::Swift(_) => "SWIFT",
        BankCode::Bic(_) => "BIC",
    }
}

/// The serialized `{type, value}` form of a bank identifier, as it is
/// written in the configuration.
pub open spec fn bank_toml_spec(b: BankCode) -> Seq<char> {
    "{ type = \""@ + bank_tag(b) + "\", value = \""@ + bank_value(b) + "\" }"@
}

/// Serializes a bank identifier to its `{type, value}` inline form.
pub fn bank_code_toml(b: &BankCode) -> (r: String)
    ensures
        r@ == bank_toml_spec(*b),
{
    let mut out = String::from_str("{ type = \"");
    let tag = bank_tag_str(b);
    out.append(tag);
    out.append("\", value = \"");
    match b {
        BankCode::Swift(code) => out.append(code.as_str()),
        BankCode::Bic(code) => out.append(code.as_str()),
    }
    out.append("\" }");
    proof {
        assert(out@ =~= bank_toml_spec(*b));
    }
    out
}

/// The serialized tag of a bank identifier parses back to the same
/// variant: uppercasing leaves both recognized tags unchanged, and the
/// two tags differ. With the exact contract of `parse_bank_code`, a
/// serialized `{type, value}` pair with a non-empty value always
/// deserializes to an equal bank identifier.
pub proof fn lemma_bank_tag_round_trip(b: BankCode)
    ensures
        (upper_seq(bank_tag(b)) == "SWIFT"@) <==> b is Swift,
        (upper_seq(bank_tag(b)) == "BIC"@) <==> b is Bic,
{
    reveal_strlit("SWIFT");
    reveal_strlit("BIC");
    assert(upper_char('S') == 'S');
    assert(upper_char('W') == 'W');
    assert(upper_char('I') == 'I');
    assert(upper_char('F') == 'F');
    assert(upper_char('T') == 'T');
    assert(upper_char('B') == 'B');
    assert(upper_char('C') == 'C');
    assert(upper_seq("SWIFT"@) =~= "SWIFT"@);
    assert(upper_seq("BIC"@) =~= "BIC"@);
    assert("SWIFT"@.len() != "BIC"@.len());
}

/// Per-line total, exact; `None` when it exceeds the machine range.
pub fn line_total_checked(p: &Product) -> (r: Option<u128>)
    ensures
        match r {
            Some(t) => t as int == line_total_spec(*p),
            None => line_total_spec(*p) > u128::MAX,
        },
{
    proof {
        assert(p.quantity.units * p.rate.units <= u128::MAX) by (nonlinear_arith)
            requires
                p.quantity.units <= u64::MAX,
                p.rate.units <= u64::MAX,
        ;
    }
    let qr: u128 = (p.quantity.units as u128) * (p.rate.units as u128);
    let m: u128 = (FRAC_POW as u128) + (p.tax.units as u128);
    qr.checked_mul(m)
}

/// Overall total, exact; `None` when it exceeds the machine range.
pub fn total_checked(ps: &Vec<Product>) -> (r: Option<u128>)
    ensures
        match r {
            Some(t) => t as int == total_spec(ps@) && total_spec(ps@) <= u128::MAX,
            None => total_spec(ps@) > u128::MAX,
        },
{
    let mut acc: u128 = 0;
    let mut i: usize = 0;
    while i < ps.len()
        invariant
            0 <= i <= ps.len(),
            acc as int == total_spec(ps@.take(i as int)),
        decreases ps.len() - i,
    {
        let lt_opt = line_total_checked(&ps[i]);
        proof {
            lemma_total_take_succ(ps@, i as int);
        }
        match lt_opt {
            None => {
                proof {
                    lemma_total_split_high(ps@, i as int);
                }
                return None;
            },
            Some(lt) => {
                match acc.checked_add(lt) {
                    None => {
                        proof {
                            lemma_total_split_high(ps@, i as int);
                        }
                        return None;
                    },
                    Some(s) => {
                        acc = s;
                    },
                }
            },
        }
        i = i + 1;
    }
    proof {
        assert(ps@.take(ps@.len() as int) =~= ps@);
    }
    Some(acc)
}

/// When one prefix sum plus its next line already passes a bound, the
/// whole total does too.
pub proof fn lemma_total_split_high(ps: Seq<Product>, i: int)
    requires
        0 <= i < ps.len(),
    ensures
        total_spec(ps) >= total_spec(ps.take(i)) + line_total_spec(ps[i]),
        line_total_spec(ps[i]) >= 0,
        total_spec(ps.take(i)) >= 0,
{
    lemma_total_take_succ(ps, i);
    lemma_total_prefix_bound(ps, i + 1);
    lemma_total_prefix_bound(ps, i);
    lemma_line_total_nonneg(ps[i]);
}

} // verus!
