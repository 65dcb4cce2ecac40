//! The renderer: a pure transformation from the invoice data model to
//! typesetting source text.
//!
//! The output is specified exactly, character by character, by
//! `render_spec`: a fixed template whose placeholders correspond one to
//! one to the data model's fields. User-supplied strings pass through
//! verbatim, with no escaping: invoice text is trusted operator input.
//! Line items are rendered in input order, one row per product, with the
//! per-line total quantity × rate × (1 + tax) and the overall total.

use vstd::prelude::*;
use crate::model::BankCode;
use crate::model::CompanyInfo;
use crate::model::Config;
use crate::model::Product;
use crate::model::bank_code_display;
use crate::model::bank_display;
use crate::model::line_total_spec;
use crate::model::lemma_line_total_nonneg;
use crate::model::lemma_total_nonneg;
use crate::model::lemma_total_split_high;
use crate::model::total_checked;
use crate::model::total_spec;
use crate::num::FRAC_POW;
use crate::num::decimal_seq;
use crate::num::decimal_str;
use crate::num::lemma_pow10_small;
use crate::num::pow10;
use crate::num::push_scaled;
use crate::num::scaled_str;

verus! {

/// `10 ^ TOTAL_DIGITS`, the denominator of the per-line and overall
/// totals: products of three four-digit fixed-point factors.
pub const TOTAL_POW: u128 = 1_000_000_000_000;

/// Number of fractional digits of a total.
pub const TOTAL_DIGITS: u64 = 12;

/// The only rendering failure: the overall total does not fit the
/// machine arithmetic of the renderer. It indicates a document far
/// outside the supported range, not a data problem of a correct invoice.
#[derive(Clone, Copy, Debug, PartialEq, Eq)]
pub enum RenderError {
    TotalOutOfRange,
}

impl RenderError {
    /// A short description of the failure.
    pub fn message(&self) -> (r: &'static str)
        ensures
            r@ == "invoice total out of range"@,
    {
        "invoice total out of range"
    }
}

/// The rendered block of one party.
pub open spec fn company_spec(co: CompanyInfo) -> Seq<char> {
    co.name@ + " \\\\\n"@ + co.address@ + " \\\\\nVAT ID: "@ + co.vat_id@ + " \\\\\n\n"@
}

/// The rendered text of one line-item row: the description, the three
/// fixed-point fields as given, and the exact per-line total.
pub open spec fn row_spec(p: Product) -> Seq<char> {
    p.description@ + " & "@ + decimal_seq(p.quantity) + " & "@ + decimal_seq(p.rate) + " & "@
        + decimal_seq(p.tax) + " & "@ + scaled_str(line_total_spec(p) as nat, pow10(12), 12)
        + " \\\\\n"@
}

/// The rendered rows of all line items, in input order.
pub open spec fn rows_spec(ps: Seq<Product>) -> Seq<char>
    decreases ps.len(),
{
    if ps.len() == 0 {
        Seq::empty()
    } else {
        rows_spec(ps.drop_last()) + row_spec(ps.last())
    }
}

/// Everything before the line-item rows.
pub open spec fn head_spec(c: Config) -> Seq<char> {
    "\\documentclass{article}\n\\begin{document}\n\\section*{Invoice "@ + c.invoice.id@
        + "}\nIssued: "@ + c.invoice.date@ + " \\\\\nDue: "@ + c.invoice.due_date@
        + "\n\n\\subsection*{From}\n"@ + company_spec(c.invoicer) + "\\subsection*{To}\n"@
        + company_spec(c.invoicee)
        + "\\subsection*{Items}\n\\begin{tabular}{lrrrr}\nDescription & Quantity & Rate & Tax & Total \\\\\n"@
}

/// Everything after the line-item rows: the overall total and the
/// payment block with the bank identifier in its display form.
pub open spec fn tail_spec(c: Config) -> Seq<char> {
    "\\end{tabular}\n\nTotal due: "@ + scaled_str(total_spec(c.product@) as nat, pow10(12), 12)
        + "\n\n\\subsection*{Payment}\nIBAN: "@ + c.account.iban@ + " \\\\\n"@ + bank_display(
        c.account.bank_code,
    ) + " \\\\\n"@ + c.account.bank_name@ + " \\\\\n"@ + c.account.address@
        + " \\\\\n\\end{document}\n"@
}

/// The complete rendered document.
pub open spec fn render_spec(c: Config) -> Seq<char> {
    head_spec(c) + rows_spec(c.product@) + tail_spec(c)
}

/// Unfolding step: the rows of one more line item.
pub proof fn lemma_rows_take_succ(ps: Seq<Product>, i: int)
    requires
        0 <= i < ps.len(),
    ensures
        rows_spec(ps.take(i + 1)) == rows_spec(ps.take(i)) + row_spec(ps[i]),
{
    assert(ps.take(i + 1).drop_last() =~= ps.take(i));
    assert(ps.take(i + 1).last() == ps[i]);
}

/// Appends the block of one party to `out`.
fn push_company(co: &CompanyInfo, out: &mut String)
    ensures
        final(out)@ == old(out)@ + company_spec(*co),
{
    out.append(co.name.as_str());
    out.append(" \\\\\n");
    out.append(co.address.as_str());
    out.append(" \\\\\nVAT ID: ");
    out.append(co.vat_id.as_str());
    out.append(" \\\\\n\n");
    proof {
        assert(out@ =~= old(out)@ + company_spec(*co));
    }
}

/// Exact per-line total, for a line whose total is in range.
fn line_total(p: &Product) -> (r: u128)
    requires
        line_total_spec(*p) <= u128::MAX,
    ensures
        r as int == line_total_spec(*p),
{
    proof {
        assert(p.quantity.units * p.rate.units <= u128::MAX) by (nonlinear_arith)
            requires
                p.quantity.units <= u64::MAX,
                p.rate.units <= u64::MAX,
        ;
    }
    let qr: u128 = (p.quantity.units as u128) * (p.rate.units as u128);
    let m: u128 = (FRAC_POW as u128) + (p.tax.units as u128);
    qr * m
}

/// Appends one line-item row to `out`.
fn push_row(p: &Product, out: &mut String)
    requires
        line_total_spec(*p) <= u128::MAX,
    ensures
        final(out)@ == old(out)@ + row_spec(*p),
{
    out.append(p.description.as_str());
    out.append(" & ");
    let q = decimal_str(&p.quantity);
    out.append(q.as_str());
    out.append(" & ");
    let rt = decimal_str(&p.rate);
    out.append(rt.as_str());
    out.append(" & ");
    let tx = decimal_str(&p.tax);
    out.append(tx.as_str());
    out.append(" & ");
    let lt = line_total(p);
    proof {
        lemma_pow10_small();
        lemma_line_total_nonneg(*p);
    }
    push_scaled(lt, TOTAL_POW, TOTAL_DIGITS, out);
    out.append(" \\\\\n");
    proof {
        assert(out@ =~= old(out)@ + row_spec(*p));
    }
}

/// Renders the invoice to typesetting source text. It fails only when
/// the overall total is out of the machine range; for any well-formed
/// invoice it returns exactly `render_spec`.
pub fn render(c: &Config) -> (r: Result<String, RenderError>)
    ensures
        r is Ok <==> total_spec(c.product@) <= u128::MAX,
        r matches Ok(s) ==> s@ == render_spec(*c),
{
    let total: u128;
    match total_checked(&c.product) {
        None => {
            return Err(RenderError::TotalOutOfRange);
        },
        Some(t) => {
            total = t;
        },
    }
    let mut out = String::from_str(
        "\\documentclass{article}\n\\begin{document}\n\\section*{Invoice ",
    );
    out.append(c.invoice.id.as_str());
    out.append("}\nIssued: ");
    out.append(c.invoice.date.as_str());
    out.append(" \\\\\nDue: ");
    out.append(c.invoice.due_date.as_str());
    out.append("\n\n\\subsection*{From}\n");
    push_company(&c.invoicer, &mut out);
    out.append("\\subsection*{To}\n");
    push_company(&c.invoicee, &mut out);
    out.append(
        "\\subsection*{Items}\n\\begin{tabular}{lrrrr}\nDescription & Quantity & Rate & Tax & Total \\\\\n",
    );
    proof {
        assert(out@ =~= head_spec(*c));
    }
    let mut i: usize = 0;
    while i < c.product.len()
        invariant
            0 <= i <= c.product.len(),
            out@ == head_spec(*c) + rows_spec(c.product@.take(i as int)),
            total_spec(c.product@) <= u128::MAX,
        decreases c.product.len() - i,
    {
        proof {
            lemma_total_split_high(c.product@, i as int);
        }
        push_row(&c.product[i], &mut out);
        proof {
            lemma_rows_take_succ(c.product@, i as int);
            assert(out@ =~= head_spec(*c) + rows_spec(c.product@.take(i as int + 1)));
        }
        i = i + 1;
    }
    proof {
        assert(c.product@.take(c.product@.len() as int) =~= c.product@);
    }
    let ghost before_tail = out@;
    out.append("\\end{tabular}\n\nTotal due: ");
    proof {
        lemma_pow10_small();
        lemma_total_nonneg(c.product@);
    }
    push_scaled(total, TOTAL_POW, TOTAL_DIGITS, &mut out);
    out.append("\n\n\\subsection*{Payment}\nIBAN: ");
    out.append(c.account.iban.as_str());
    out.append(" \\\\\n");
    let bank = bank_code_display(&c.account.bank_code);
    out.append(bank.as_str());
    out.append(" \\\\\n");
    out.append(c.account.bank_name.as_str());
    out.append(" \\\\\n");
    out.append(c.account.address.as_str());
    out.append(" \\\\\n\\end{document}\n");
    proof {
        assert(out@ =~= before_tail + tail_spec(*c));
        assert(out@ =~= render_spec(*c));
    }
    Ok(out)
}

/// Rendering is deterministic: equal invoices render to equal text.
pub proof fn lemma_render_deterministic(a: Config, b: Config)
    requires
        a == b,
    ensures
        render_spec(a) == render_spec(b),
{
}

/// `needle` occurs as a contiguous run inside `hay`.
pub open spec fn contains_seq(hay: Seq<char>, needle: Seq<char>) -> bool {
    exists|k: int|
        0 <= k && k + needle.len() <= hay.len() && #[trigger] hay.subrange(
            k,
            k + needle.len() as int,
        ) == needle
}

/// Any subrange of a sequence occurs in it.
pub proof fn lemma_contains_subrange(s: Seq<char>, a: int, b: int)
    requires
        0 <= a <= b <= s.len(),
    ensures
        contains_seq(s, s.subrange(a, b)),
{
    let n = s.subrange(a, b);
    assert(s.subrange(a, a + n.len() as int) =~= n);
}

pub proof fn lemma_contains_self(s: Seq<char>)
    ensures
        contains_seq(s, s),
{
    let k: int = 0;
    assert(s.subrange(k, k + s.len() as int) =~= s);
}

pub proof fn lemma_contains_mid(pre: Seq<char>, mid: Seq<char>, post: Seq<char>)
    ensures
        contains_seq(pre + mid + post, mid),
{
    let h = pre + mid + post;
    assert(h.subrange(pre.len() as int, pre.len() + mid.len() as int) =~= mid);
}

pub proof fn lemma_contains_left(a: Seq<char>, b: Seq<char>, needle: Seq<char>)
    requires
        contains_seq(a, needle),
    ensures
        contains_seq(a + b, needle),
{
    let k = choose|k: int|
        0 <= k && k + needle.len() <= a.len() && #[trigger] a.subrange(
            k,
            k + needle.len() as int,
        ) == needle;
    assert((a + b).subrange(k, k + needle.len() as int) =~= a.subrange(
        k,
        k + needle.len() as int,
    ));
}

pub proof fn lemma_contains_right(a: Seq<char>, b: Seq<char>, needle: Seq<char>)
    requires
        contains_seq(b, needle),
    ensures
        contains_seq(a + b, needle),
{
    let k = choose|k: int|
        0 <= k && k + needle.len() <= b.len() && #[trigger] b.subrange(
            k,
            k + needle.len() as int,
        ) == needle;
    assert((a + b).subrange(a.len() + k, a.len() + k + needle.len() as int) =~= b.subrange(
        k,
        k + needle.len() as int,
    ));
}

pub proof fn lemma_contains_trans(a: Seq<char>, b: Seq<char>, c: Seq<char>)
    requires
        contains_seq(a, b),
        contains_seq(b, c),
    ensures
        contains_seq(a, c),
{
    let k1 = choose|k: int|
        0 <= k && k + b.len() <= a.len() && #[trigger] a.subrange(k, k + b.len() as int) == b;
    let k2 = choose|k: int|
        0 <= k && k + c.len() <= b.len() && #[trigger] b.subrange(k, k + c.len() as int) == c;
    assert(a.subrange(k1 + k2, k1 + k2 + c.len() as int) =~= b.subrange(k2, k2 + c.len() as int));
}

/// Each field of a party's block appears in it.
proof fn lemma_company_contains(co: CompanyInfo)
    ensures
        contains_seq(company_spec(co), co.name@),
        contains_seq(company_spec(co), co.address@),
        contains_seq(company_spec(co), co.vat_id@),
{
    let rest1 = " \\\\\n"@ + co.address@ + " \\\\\nVAT ID: "@ + co.vat_id@ + " \\\\\n\n"@;
    assert(company_spec(co) =~= Seq::empty() + co.name@ + rest1);
    lemma_contains_mid(Seq::empty(), co.name@, rest1);
    let pre2 = co.name@ + " \\\\\n"@;
    let post2 = " \\\\\nVAT ID: "@ + co.vat_id@ + " \\\\\n\n"@;
    assert(company_spec(co) =~= pre2 + co.address@ + post2);
    lemma_contains_mid(pre2, co.address@, post2);
    let pre3 = co.name@ + " \\\\\n"@ + co.address@ + " \\\\\nVAT ID: "@;
    assert(company_spec(co) =~= pre3 + co.vat_id@ + " \\\\\n\n"@);
    lemma_contains_mid(pre3, co.vat_id@, " \\\\\n\n"@);
}

/// Each field of a line item appears in its row, the three fixed-point
/// fields in their decimal text form.
proof fn lemma_row_contains(p: Product)
    ensures
        contains_seq(row_spec(p), p.description@),
        contains_seq(row_spec(p), decimal_seq(p.quantity)),
        contains_seq(row_spec(p), decimal_seq(p.rate)),
        contains_seq(row_spec(p), decimal_seq(p.tax)),
{
    let lt = scaled_str(line_total_spec(p) as nat, pow10(12), 12);
    let post1 = " & "@ + decimal_seq(p.quantity) + " & "@ + decimal_seq(p.rate) + " & "@
        + decimal_seq(p.tax) + " & "@ + lt + " \\\\\n"@;
    assert(row_spec(p) =~= Seq::empty() + p.description@ + post1);
    lemma_contains_mid(Seq::empty(), p.description@, post1);
    let pre2 = p.description@ + " & "@;
    let post2 = " & "@ + decimal_seq(p.rate) + " & "@ + decimal_seq(p.tax) + " & "@ + lt
        + " \\\\\n"@;
    assert(row_spec(p) =~= pre2 + decimal_seq(p.quantity) + post2);
    lemma_contains_mid(pre2, decimal_seq(p.quantity), post2);
    let pre3 = pre2 + decimal_seq(p.quantity) + " & "@;
    let post3 = " & "@ + decimal_seq(p.tax) + " & "@ + lt + " \\\\\n"@;
    assert(row_spec(p) =~= pre3 + decimal_seq(p.rate) + post3);
    lemma_contains_mid(pre3, decimal_seq(p.rate), post3);
    let pre4 = pre3 + decimal_seq(p.rate) + " & "@;
    let post4 = " & "@ + lt + " \\\\\n"@;
    assert(row_spec(p) =~= pre4 + decimal_seq(p.tax) + post4);
    lemma_contains_mid(pre4, decimal_seq(p.tax), post4);
}

/// The row of every line item appears among the rendered rows.
proof fn lemma_rows_contains(ps: Seq<Product>, i: int)
    requires
        0 <= i < ps.len(),
    ensures
        contains_seq(rows_spec(ps), row_spec(ps[i])),
    decreases ps.len(),
{
    if i == ps.len() - 1 {
        let r = row_spec(ps.last());
        lemma_contains_self(r);
        lemma_contains_right(rows_spec(ps.drop_last()), r, row_spec(ps[i]));
    } else {
        lemma_rows_contains(ps.drop_last(), i);
        lemma_contains_left(rows_spec(ps.drop_last()), row_spec(ps.last()), row_spec(ps[i]));
    }
}

/// Every input field's value appears in the rendered document: nothing
/// is silently dropped. Scalar fields appear verbatim; each line item's
/// fields appear in its row; the bank identifier appears in its display
/// form, its code inside it.
pub proof fn lemma_render_contains_fields(c: Config)
    ensures
        contains_seq(render_spec(c), c.invoice.id@),
        contains_seq(render_spec(c), c.invoice.date@),
        contains_seq(render_spec(c), c.invoice.due_date@),
        contains_seq(render_spec(c), c.invoicer.name@),
        contains_seq(render_spec(c), c.invoicer.address@),
        contains_seq(render_spec(c), c.invoicer.vat_id@),
        contains_seq(render_spec(c), c.invoicee.name@),
        contains_seq(render_spec(c), c.invoicee.address@),
        contains_seq(render_spec(c), c.invoicee.vat_id@),
        contains_seq(render_spec(c), c.account.iban@),
        contains_seq(render_spec(c), bank_display(c.account.bank_code)),
        contains_seq(render_spec(c), crate::model::bank_value(c.account.bank_code)),
        contains_seq(render_spec(c), c.account.bank_name@),
        contains_seq(render_spec(c), c.account.address@),
        forall|i: int|
            0 <= i < c.product@.len() ==> contains_seq(render_spec(c), c.product@[i].description@),
        forall|i: int|
            0 <= i < c.product@.len() ==> contains_seq(
                render_spec(c),
                decimal_seq(c.product@[i].quantity),
            ),
        forall|i: int|
            0 <= i < c.product@.len() ==> contains_seq(
                render_spec(c),
                decimal_seq(c.product@[i].rate),
            ),
        forall|i: int|
            0 <= i < c.product@.len() ==> contains_seq(
                render_spec(c),
                decimal_seq(c.product@[i].tax),
            ),
{
    let h = head_spec(c);
    let rs = rows_spec(c.product@);
    let t = tail_spec(c);
    lemma_head_contains(c);
    lemma_tail_contains(c);
    assert forall|x: Seq<char>| contains_seq(h, x) implies contains_seq(render_spec(c), x) by {
        lemma_contains_left(h, rs, x);
        lemma_contains_left(h + rs, t, x);
    }
    assert forall|x: Seq<char>| contains_seq(t, x) implies contains_seq(render_spec(c), x) by {
        lemma_contains_right(h + rs, t, x);
    }
    let b = c.account.bank_code;
    lemma_bank_display_contains(b);
    lemma_contains_trans(render_spec(c), bank_display(b), crate::model::bank_value(b));
    assert forall|i: int| 0 <= i < c.product@.len() implies contains_seq(
        render_spec(c),
        c.product@[i].description@,
    ) && contains_seq(render_spec(c), decimal_seq(c.product@[i].quantity)) && contains_seq(
        render_spec(c),
        decimal_seq(c.product@[i].rate),
    ) && contains_seq(render_spec(c), decimal_seq(c.product@[i].tax)) by {
        lemma_rows_contains(c.product@, i);
        lemma_contains_left(rs, t, row_spec(c.product@[i]));
        lemma_contains_right(h, rs + t, row_spec(c.product@[i]));
        assert(h + (rs + t) =~= render_spec(c));
        lemma_row_contains(c.product@[i]);
        lemma_contains_trans(render_spec(c), row_spec(c.product@[i]), c.product@[i].description@);
        lemma_contains_trans(
            render_spec(c),
            row_spec(c.product@[i]),
            decimal_seq(c.product@[i].quantity),
        );
        lemma_contains_trans(
            render_spec(c),
            row_spec(c.product@[i]),
            decimal_seq(c.product@[i].rate),
        );
        lemma_contains_trans(
            render_spec(c),
            row_spec(c.product@[i]),
            decimal_seq(c.product@[i].tax),
        );
    }
}

/// The bank identifier's display form holds its code.
proof fn lemma_bank_display_contains(b: BankCode)
    ensures
        contains_seq(bank_display(b), crate::model::bank_value(b)),
{
    match b {
        BankCode::Swift(s) => {
            assert(bank_display(b) =~= "SWIFT: "@ + s@ + Seq::<char>::empty());
            lemma_contains_mid("SWIFT: "@, s@, Seq::empty());
        },
        BankCode::Bic(s) => {
            assert(bank_display(b) =~= "BIC: "@ + s@ + Seq::<char>::empty());
            lemma_contains_mid("BIC: "@, s@, Seq::empty());
        },
    }
}

/// Each scalar head field appears in the head of the document.
proof fn lemma_head_contains(c: Config)
    ensures
        contains_seq(head_spec(c), c.invoice.id@),
        contains_seq(head_spec(c), c.invoice.date@),
        contains_seq(head_spec(c), c.invoice.due_date@),
        contains_seq(head_spec(c), c.invoicer.name@),
        contains_seq(head_spec(c), c.invoicer.address@),
        contains_seq(head_spec(c), c.invoicer.vat_id@),
        contains_seq(head_spec(c), c.invoicee.name@),
        contains_seq(head_spec(c), c.invoicee.address@),
        contains_seq(head_spec(c), c.invoicee.vat_id@),
{
    let l1 = "\\documentclass{article}\n\\begin{document}\n\\section*{Invoice "@;
    let l2 = "}\nIssued: "@;
    let l3 = " \\\\\nDue: "@;
    let l4 = "\n\n\\subsection*{From}\n"@;
    let l5 = "\\subsection*{To}\n"@;
    let l6 =
        "\\subsection*{Items}\n\\begin{tabular}{lrrrr}\nDescription & Quantity & Rate & Tax & Total \\\\\n"@;
    let ce = company_spec(c.invoicer);
    let ci = company_spec(c.invoicee);
    let post1 = l2 + c.invoice.date@ + l3 + c.invoice.due_date@ + l4 + ce + l5 + ci + l6;
    assert(head_spec(c) =~= l1 + c.invoice.id@ + post1);
    lemma_contains_mid(l1, c.invoice.id@, post1);
    let pre2 = l1 + c.invoice.id@ + l2;
    let post2 = l3 + c.invoice.due_date@ + l4 + ce + l5 + ci + l6;
    assert(head_spec(c) =~= pre2 + c.invoice.date@ + post2);
    lemma_contains_mid(pre2, c.invoice.date@, post2);
    let pre3 = pre2 + c.invoice.date@ + l3;
    let post3 = l4 + ce + l5 + ci + l6;
    assert(head_spec(c) =~= pre3 + c.invoice.due_date@ + post3);
    lemma_contains_mid(pre3, c.invoice.due_date@, post3);
    let pre4 = pre3 + c.invoice.due_date@ + l4;
    let post4 = l5 + ci + l6;
    assert(head_spec(c) =~= pre4 + ce + post4);
    lemma_contains_mid(pre4, ce, post4);
    let pre5 = pre4 + ce + l5;
    assert(head_spec(c) =~= pre5 + ci + l6);
    lemma_contains_mid(pre5, ci, l6);
    lemma_company_contains(c.invoicer);
    lemma_company_contains(c.invoicee);
    lemma_contains_trans(head_spec(c), ce, c.invoicer.name@);
    lemma_contains_trans(head_spec(c), ce, c.invoicer.address@);
    lemma_contains_trans(head_spec(c), ce, c.invoicer.vat_id@);
    lemma_contains_trans(head_spec(c), ci, c.invoicee.name@);
    lemma_contains_trans(head_spec(c), ci, c.invoicee.address@);
    lemma_contains_trans(head_spec(c), ci, c.invoicee.vat_id@);
}

/// Each scalar tail field appears in the tail of the document.
proof fn lemma_tail_contains(c: Config)
    ensures
        contains_seq(tail_spec(c), c.account.iban@),
        contains_seq(tail_spec(c), bank_display(c.account.bank_code)),
        contains_seq(tail_spec(c), c.account.bank_name@),
        contains_seq(tail_spec(c), c.account.address@),
{
    let l1 = "\\end{tabular}\n\nTotal due: "@;
    let tt = scaled_str(total_spec(c.product@) as nat, pow10(12), 12);
    let l2 = "\n\n\\subsection*{Payment}\nIBAN: "@;
    let l3 = " \\\\\n"@;
    let l4 = " \\\\\n\\end{document}\n"@;
    let bd = bank_display(c.account.bank_code);
    let pre1 = l1 + tt + l2;
    let post1 = l3 + bd + l3 + c.account.bank_name@ + l3 + c.account.address@ + l4;
    assert(tail_spec(c) =~= pre1 + c.account.iban@ + post1);
    lemma_contains_mid(pre1, c.account.iban@, post1);
    let pre2 = pre1 + c.account.iban@ + l3;
    let post2 = l3 + c.account.bank_name@ + l3 + c.account.address@ + l4;
    assert(tail_spec(c) =~= pre2 + bd + post2);
    lemma_contains_mid(pre2, bd, post2);
    let pre3 = pre2 + bd + l3;
    let post3 = l3 + c.account.address@ + l4;
    assert(tail_spec(c) =~= pre3 + c.account.bank_name@ + post3);
    lemma_contains_mid(pre3, c.account.bank_name@, post3);
    let pre4 = pre3 + c.account.bank_name@ + l3;
    assert(tail_spec(c) =~= pre4 + c.account.address@ + l4);
    lemma_contains_mid(pre4, c.account.address@, l4);
}

} // verus!
