use busymess::model::bank_code_display;
use busymess::model::BankCode;
use busymess::num::decimal_str;
use busymess::num::Decimal;
use busymess::parse::load;
use busymess::render::render;

fn two_product_document() -> String {
    r#"
[invoice]
id = "2023/01/31"
date = "31.01.2023"
due_date = "14.02.2023"

[invoicer]
name = "Alan Moore"
address = "ul. Alpejska 3A, 50-552 Wroclaw, Poland"
vat_id = "PL1234567890"

[invoicee]
name = "Elvis Presley"
address = "ul. Sudecka 1C, 50-232 Wroclaw, Poland"
vat_id = "PL0987654321"

[account]
iban = "PL1111222233334444"
bank_code = { type = "SWIFT", value = "ACKXXDXX" }
bank_name = "PDK"
address = "ul. Pirenejska 2B, 50-343 Wroclaw, Poland"

[[product]]
description = "Software development"
quantity = 1
rate = 5000
tax = 0

[[product]]
description = "Consulting"
quantity = 1
rate = 500
tax = 0
"#
    .to_owned()
}

#[test]
fn rendered_example_shows_line_totals_and_overall_total() {
    let config = load(&two_product_document()).unwrap();
    let text = render(&config).unwrap();
    assert!(text.contains("Software development & 1 & 5000 & 0 & 5000 \\\\\n"));
    assert!(text.contains("Consulting & 1 & 500 & 0 & 500 \\\\\n"));
    assert!(text.contains("Total due: 5500\n"));
    assert!(text.contains("SWIFT: ACKXXDXX"));
}

#[test]
fn rendered_text_contains_every_field() {
    let config = load(&two_product_document()).unwrap();
    let text = render(&config).unwrap();
    for needle in [
        "2023/01/31",
        "31.01.2023",
        "14.02.2023",
        "Alan Moore",
        "ul. Alpejska 3A, 50-552 Wroclaw, Poland",
        "PL1234567890",
        "Elvis Presley",
        "ul. Sudecka 1C, 50-232 Wroclaw, Poland",
        "PL0987654321",
        "PL1111222233334444",
        "ACKXXDXX",
        "PDK",
        "ul. Pirenejska 2B, 50-343 Wroclaw, Poland",
    ] {
        assert!(text.contains(needle), "missing {needle}");
    }
}

#[test]
fn render_is_deterministic() {
    let config = load(&two_product_document()).unwrap();
    let a = render(&config).unwrap();
    let b = render(&config).unwrap();
    assert_eq!(a, b);
}

#[test]
fn line_total_multiplies_quantity_rate_and_tax() {
    // 2.5 × 100 × (1 + 0.23) = 307.5
    let doc = two_product_document()
        .replace("quantity = 1\nrate = 5000\ntax = 0", "quantity = 2.5\nrate = 100\ntax = 0.23")
        .replace("quantity = 1\nrate = 500\ntax = 0", "quantity = 0\nrate = 500\ntax = 0.5");
    let config = load(&doc).unwrap();
    let text = render(&config).unwrap();
    assert!(text.contains("& 2.5 & 100 & 0.23 & 307.5 \\\\\n"), "{text}");
    // zero quantity gives a zero line total
    assert!(text.contains("& 0 & 500 & 0.5 & 0 \\\\\n"), "{text}");
    assert!(text.contains("Total due: 307.5\n"), "{text}");
}

#[test]
fn bank_code_display_forms() {
    assert_eq!(bank_code_display(&BankCode::Swift("ACKXXDXX".to_owned())), "SWIFT: ACKXXDXX");
    assert_eq!(bank_code_display(&BankCode::Bic("BPKOPLPW".to_owned())), "BIC: BPKOPLPW");
}

#[test]
fn decimal_text_trims_trailing_zeros() {
    assert_eq!(decimal_str(&Decimal { units: 0 }), "0");
    assert_eq!(decimal_str(&Decimal { units: 10_000 }), "1");
    assert_eq!(decimal_str(&Decimal { units: 15_000 }), "1.5");
    assert_eq!(decimal_str(&Decimal { units: 2_300 }), "0.23");
    assert_eq!(decimal_str(&Decimal { units: 1 }), "0.0001");
    assert_eq!(decimal_str(&Decimal { units: 123_456_789 }), "12345.6789");
}
