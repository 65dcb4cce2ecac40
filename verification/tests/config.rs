use busymess::model::BankCode;
use busymess::model::CompanyInfo;
use busymess::model::Config;
use busymess::model::InvoiceInfo;
use busymess::model::PaymentInfo;
use busymess::model::Product;
use busymess::num::Decimal;
use busymess::parse::load;
use busymess::parse::LoadError;

fn example_document() -> String {
    r#"
        [invoice]
        id = "2023/01/31"
        date = "31.01.2023"
        due_date = "14.02.2023"

        [invoicer]
        name = "Alan Moore"
        address = "ul. Alpejska 3A, 50-552 Wroclaw, Poland"
        vat_id = "PL1234567890"

        [invoicee]
        name = "Elvis Presley"
        address = "ul. Sudecka 1C, 50-232 Wroclaw, Poland"
        vat_id = "PL0987654321"

        [account]
        iban = "PL1111222233334444"
        bank_code = { type = "SWIFT", value = "ACKXXDXX" }
        bank_name = "PDK"
        address = "ul. Pirenejska 2B, 50-343 Wroclaw, Poland"

        [[product]]
        description = "Software development"
        quantity = 1
        rate = 5000
        tax = 0

        [[product]]
        description = "Consulting"
        quantity = 1
        rate = 500
        tax = 0
        "#
    .to_owned()
}

#[test]
fn config_test() {
    let config: Config = load(&example_document()).unwrap();
    assert_eq!(
        config,
        Config {
            invoice: InvoiceInfo {
                id: "2023/01/31".to_owned(),
                date: "31.01.2023".to_owned(),
                due_date: "14.02.2023".to_owned(),
            },
            invoicer: CompanyInfo {
                name: "Alan Moore".to_owned(),
                address: "ul. Alpejska 3A, 50-552 Wroclaw, Poland".to_owned(),
                vat_id: "PL1234567890".to_owned(),
            },
            invoicee: CompanyInfo {
                name: "Elvis Presley".to_owned(),
                address: "ul. Sudecka 1C, 50-232 Wroclaw, Poland".to_owned(),
                vat_id: "PL0987654321".to_owned(),
            },
            account: PaymentInfo {
                iban: "PL1111222233334444".to_owned(),
                bank_code: BankCode::Swift("ACKXXDXX".to_owned()),
                bank_name: "PDK".to_owned(),
                address: "ul. Pirenejska 2B, 50-343 Wroclaw, Poland".to_owned(),
            },
            product: vec![
                Product {
                    description: "Software development".to_owned(),
                    quantity: Decimal { units: 10_000 },
                    rate: Decimal { units: 50_000_000 },
                    tax: Decimal { units: 0 },
                },
                Product {
                    description: "Consulting".to_owned(),
                    quantity: Decimal { units: 10_000 },
                    rate: Decimal { units: 5_000_000 },
                    tax: Decimal { units: 0 },
                },
            ],
        }
    );
}

#[test]
fn fractional_numbers_widen_and_parse_exactly() {
    let doc = example_document().replace("tax = 0\n", "tax = 0.23\n");
    let config = load(&doc).unwrap();
    assert_eq!(config.product[0].tax, Decimal { units: 2_300 });
    assert_eq!(config.product[1].tax, Decimal { units: 2_300 });
    let doc2 = example_document().replace("quantity = 1\n", "quantity = 2.5\n");
    let config2 = load(&doc2).unwrap();
    assert_eq!(config2.product[0].quantity, Decimal { units: 25_000 });
}

#[test]
fn bank_code_round_trips_through_serialized_form() {
    // Swift
    let config = load(&example_document()).unwrap();
    assert_eq!(config.account.bank_code, BankCode::Swift("ACKXXDXX".to_owned()));
    // Bic, through the library's own serialized form
    let bic = BankCode::Bic("BPKOPLPW".to_owned());
    let doc = example_document().replace(
        "{ type = \"SWIFT\", value = \"ACKXXDXX\" }",
        &busymess::model::bank_code_toml(&bic),
    );
    let config2 = load(&doc).unwrap();
    assert_eq!(config2.account.bank_code, bic);
    // Swift, the same way
    let swift = BankCode::Swift("ACKXXDXX".to_owned());
    let doc2 = example_document().replace(
        "{ type = \"SWIFT\", value = \"ACKXXDXX\" }",
        &busymess::model::bank_code_toml(&swift),
    );
    let config3 = load(&doc2).unwrap();
    assert_eq!(config3.account.bank_code, swift);
}

#[test]
fn bank_code_tag_matches_case_insensitively() {
    let doc = example_document().replace("type = \"SWIFT\"", "type = \"swift\"");
    let config = load(&doc).unwrap();
    assert_eq!(config.account.bank_code, BankCode::Swift("ACKXXDXX".to_owned()));
}

#[test]
fn unrecognized_bank_tag_is_a_schema_error() {
    let doc = example_document().replace("type = \"SWIFT\"", "type = \"IBAN\"");
    let err = load(&doc).unwrap_err();
    assert_eq!(
        err,
        LoadError::UnknownBankTag { path: "account.bank_code.type".to_owned() }
    );
}

#[test]
fn empty_bank_code_value_is_refused() {
    let doc = example_document().replace("value = \"ACKXXDXX\"", "value = \"\"");
    let err = load(&doc).unwrap_err();
    assert_eq!(
        err,
        LoadError::EmptyBankCode { path: "account.bank_code.value".to_owned() }
    );
}

#[test]
fn missing_field_is_reported_with_its_path() {
    let doc = example_document().replace("due_date = \"14.02.2023\"\n", "");
    let err = load(&doc).unwrap_err();
    assert_eq!(err, LoadError::MissingField { path: "invoice.due_date".to_owned() });
    let doc2 = example_document().replace("rate = 500\n", "");
    let err2 = load(&doc2).unwrap_err();
    assert_eq!(err2, LoadError::MissingField { path: "product[1].rate".to_owned() });
}

#[test]
fn wrong_type_is_reported_with_its_path() {
    let doc = example_document().replace("rate = 5000", "rate = \"5000\"");
    let err = load(&doc).unwrap_err();
    assert_eq!(err, LoadError::WrongType { path: "product[0].rate".to_owned() });
    let doc2 = example_document().replace("id = \"2023/01/31\"", "id = 7");
    let err2 = load(&doc2).unwrap_err();
    assert_eq!(err2, LoadError::WrongType { path: "invoice.id".to_owned() });
}

#[test]
fn duplicate_field_is_refused() {
    let doc = example_document().replace(
        "iban = \"PL1111222233334444\"",
        "iban = \"PL1111222233334444\"\n        iban = \"PL999\"",
    );
    let err = load(&doc).unwrap_err();
    assert_eq!(err, LoadError::Duplicate { path: "account.iban".to_owned() });
}

#[test]
fn malformed_number_is_a_syntax_error() {
    let doc = example_document().replace("tax = 0\n", "tax = 0.123456\n");
    let err = load(&doc).unwrap_err();
    assert!(matches!(err, LoadError::Syntax { .. }));
    let doc2 = example_document().replace("tax = 0\n", "tax = -1\n");
    let err2 = load(&doc2).unwrap_err();
    assert!(matches!(err2, LoadError::Syntax { .. }));
}

#[test]
fn number_out_of_range_is_a_bad_number() {
    let doc = example_document().replace("rate = 5000\n", "rate = 99999999999999999999999\n");
    let err = load(&doc).unwrap_err();
    assert_eq!(err, LoadError::BadNumber { path: "product[0].rate".to_owned() });
}

#[test]
fn unknown_keys_and_sections_are_ignored() {
    let doc = example_document()
        .replace("[invoice]", "[notes]\nauthor = \"x\"\n\n        [invoice]\ncolor = \"red\"");
    let config = load(&doc).unwrap();
    assert_eq!(config.invoice.id, "2023/01/31");
}

#[test]
fn comments_and_blank_lines_are_skipped() {
    let doc = example_document().replace("[invoice]", "# heading comment\n\n        [invoice] # section");
    let config = load(&doc).unwrap();
    assert_eq!(config.invoice.id, "2023/01/31");
}

#[test]
fn empty_document_misses_the_first_field() {
    let err = load("").unwrap_err();
    assert_eq!(err, LoadError::MissingField { path: "invoice.id".to_owned() });
}

#[test]
fn error_messages_name_the_field() {
    let e = LoadError::MissingField { path: "invoice.id".to_owned() };
    assert_eq!(e.message(), "missing field: invoice.id");
    let s = LoadError::Syntax { line: 12 };
    assert_eq!(s.message(), "syntax error at line 12");
}
