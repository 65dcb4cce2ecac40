use busymess::date::date_from_ymd;
use busymess::date::date_iso;
use busymess::date::previous_day;
use busymess::date::today_utc;
use busymess::date::Date;
use busymess::fetch::fetch_step;
use busymess::fetch::initial_state;
use busymess::fetch::rate_url;
use busymess::fetch::run_fetch;
use busymess::fetch::AttemptResult;
use busymess::fetch::FetchOutcome;
use busymess::fetch::FetchState;
use busymess::fetch::FetchStep;
use busymess::num::Decimal;
use busymess::fetch::RateQuote;

fn quote() -> RateQuote {
    RateQuote {
        table_no: "21/A/NBP/2023".to_owned(),
        effective_date: "2023-01-30".to_owned(),
        mid: Decimal { units: 47_123 },
    }
}

#[test]
fn fetcher_returns_first_date_with_data() {
    // no data for D and D-1, a valid payload for D-2
    let today = Date { year: 2023, month: 1, day: 31 };
    let results = vec![
        AttemptResult::Content(None),
        AttemptResult::Content(None),
        AttemptResult::Content(Some(quote())),
        AttemptResult::Content(None),
    ];
    let (outcome, used) = run_fetch(&today, 3, results);
    assert_eq!(outcome, FetchOutcome::Found(quote()));
    assert_eq!(used, 3);
}

#[test]
fn fetcher_aborts_on_transport_error_without_stepping_back() {
    let today = Date { year: 2023, month: 1, day: 31 };
    let results = vec![
        AttemptResult::Transport,
        AttemptResult::Content(Some(quote())),
        AttemptResult::Content(None),
    ];
    let (outcome, used) = run_fetch(&today, 2, results);
    assert_eq!(outcome, FetchOutcome::TransportFailed);
    assert_eq!(used, 1);
}

#[test]
fn fetcher_gives_up_when_the_budget_is_spent() {
    let today = Date { year: 2023, month: 1, day: 31 };
    let results = vec![
        AttemptResult::Content(None),
        AttemptResult::Content(None),
        AttemptResult::Content(None),
    ];
    let (outcome, used) = run_fetch(&today, 2, results);
    assert_eq!(outcome, FetchOutcome::NoRate);
    assert_eq!(used, 3);
}

#[test]
fn first_attempt_is_the_day_before_today() {
    let today = Date { year: 2023, month: 2, day: 1 };
    let state = initial_state(&today, 10).unwrap();
    assert_eq!(state.date, Date { year: 2023, month: 1, day: 31 });
    assert_eq!(state.remaining, 10);
}

#[test]
fn step_walks_back_one_day_on_no_data() {
    let state = FetchState { date: Date { year: 2023, month: 1, day: 31 }, remaining: 5 };
    match fetch_step(&state, AttemptResult::Content(None)) {
        FetchStep::Next(n) => {
            assert_eq!(n.date, Date { year: 2023, month: 1, day: 30 });
            assert_eq!(n.remaining, 4);
        },
        other => panic!("expected Next, got {other:?}"),
    }
}

#[test]
fn previous_day_handles_month_year_and_leap_boundaries() {
    let d = previous_day(&Date { year: 2023, month: 3, day: 1 });
    assert_eq!(d, Date { year: 2023, month: 2, day: 28 });
    let d = previous_day(&Date { year: 2024, month: 3, day: 1 });
    assert_eq!(d, Date { year: 2024, month: 2, day: 29 });
    let d = previous_day(&Date { year: 2100, month: 3, day: 1 });
    assert_eq!(d, Date { year: 2100, month: 2, day: 28 });
    let d = previous_day(&Date { year: 2000, month: 3, day: 1 });
    assert_eq!(d, Date { year: 2000, month: 2, day: 29 });
    let d = previous_day(&Date { year: 2023, month: 1, day: 1 });
    assert_eq!(d, Date { year: 2022, month: 12, day: 31 });
    let d = previous_day(&Date { year: 2023, month: 5, day: 1 });
    assert_eq!(d, Date { year: 2023, month: 4, day: 30 });
}

#[test]
fn iso_text_is_zero_padded() {
    assert_eq!(date_iso(&Date { year: 2023, month: 1, day: 30 }), "2023-01-30");
    assert_eq!(date_iso(&Date { year: 5, month: 11, day: 9 }), "0005-11-09");
}

#[test]
fn request_url_has_table_currency_and_date() {
    let url = rate_url("A", "EUR", &Date { year: 2023, month: 1, day: 30 });
    assert_eq!(url, "http://api.nbp.pl/api/exchangerates/rates/A/EUR/2023-01-30/");
}

#[test]
fn clock_components_build_exactly_the_given_date() {
    assert_eq!(
        date_from_ymd(2024, 2, 29),
        Some(Date { year: 2024, month: 2, day: 29 })
    );
    assert_eq!(date_from_ymd(2023, 2, 29), None);
    assert_eq!(date_from_ymd(2023, 13, 1), None);
    assert_eq!(date_from_ymd(0, 5, 1), None);
    assert_eq!(date_from_ymd(10_000, 5, 1), None);
    assert_eq!(date_from_ymd(2023, 4, 0), None);
}

#[test]
fn clock_reports_a_real_date() {
    let d = today_utc().expect("clock in range");
    assert!(d.year >= 2023 && d.year <= 9999);
    assert!((1..=12).contains(&d.month));
    assert!((1..=31).contains(&d.day));
}
