//! The rate fetcher's decision logic.
//!
//! The provider is queried one date at a time, walking backward day by
//! day from the day before today. A response that does not parse into
//! the expected shape counts as "no data" and sends the search one day
//! further back; a transport failure aborts the whole search at once;
//! the first parseable response ends it. The search is bounded by a
//! step budget, and running out of budget or calendar surfaces a
//! distinct "no rate available" outcome. The decisions are pure; the
//! network attempts themselves happen outside and hand their results
//! in.

use vstd::prelude::*;
use crate::date::Date;
use crate::date::iso_spec;
use crate::date::date_iso;
use crate::date::prev_date_spec;
use crate::date::previous_day;
use crate::num::Decimal;

verus! {

/// The rate read from the provider's response for one day.
#[derive(Clone, Debug, PartialEq)]
pub struct RateQuote {
    /// The rate table number, e.g. `1/A/NBP/2023`.
    pub table_no: String,
    /// The date the rate is effective for, as the provider wrote it.
    pub effective_date: String,
    /// The mid rate.
    pub mid: Decimal,
}

/// What one attempt against the provider produced, as the decision
/// logic sees it: a transport failure, or a response that either
/// parsed into the expected shape or did not ("no data").
#[derive(Clone, Debug, PartialEq)]
pub enum AttemptResult {
    Transport,
    Content(Option<RateQuote>),
}

/// The fetcher's state between attempts: the date about to be
/// requested and the budget of further steps back.
#[derive(Clone, Copy, Debug, PartialEq, Eq, Structural)]
pub struct FetchState {
    pub date: Date,
    pub remaining: u64,
}

/// What to do after one attempt.
#[derive(Clone, Debug, PartialEq)]
pub enum FetchStep {
    /// A transport failure: abort the whole search at once.
    Abort,
    /// The first parseable response: done.
    Found(RateQuote),
    /// No data for that date: request the previous day next.
    Next(FetchState),
    /// No data, and no budget or calendar left to step further back.
    Exhausted,
}

/// The outcome of a whole search.
#[derive(Clone, Debug, PartialEq)]
pub enum FetchOutcome {
    /// The first parseable response's payload.
    Found(RateQuote),
    /// A transport failure ended the search early.
    TransportFailed,
    /// Every date in the budget had no data.
    NoRate,
}

/// The decision after one attempt: a transport failure aborts, a
/// parseable response wins, "no data" steps one day back while budget
/// and calendar allow.
pub open spec fn fetch_step_spec(s: FetchState, a: AttemptResult) -> FetchStep {
    match a {
        AttemptResult::Transport => FetchStep::Abort,
        AttemptResult::Content(Some(q)) => FetchStep::Found(q),
        AttemptResult::Content(None) => {
            if s.remaining == 0 || s.date.is_min() {
                FetchStep::Exhausted
            } else {
                FetchStep::Next(
                    FetchState {
                        date: prev_date_spec(s.date),
                        remaining: (s.remaining - 1) as u64,
                    },
                )
            }
        },
    }
}

/// One decision step; exactly `fetch_step_spec`.
pub fn fetch_step(s: &FetchState, a: AttemptResult) -> (r: FetchStep)
    requires
        s.date.wf(),
    ensures
        r == fetch_step_spec(*s, a),
        r matches FetchStep::Next(n) ==> n.date.wf(),
{
    match a {
        AttemptResult::Transport => FetchStep::Abort,
        AttemptResult::Content(Some(q)) => FetchStep::Found(q),
        AttemptResult::Content(None) => {
            let min = s.date.year == 1 && s.date.month == 1 && s.date.day == 1;
            if s.remaining == 0 || min {
                FetchStep::Exhausted
            } else {
                FetchStep::Next(
                    FetchState { date: previous_day(&s.date), remaining: s.remaining - 1 },
                )
            }
        },
    }
}

/// The state of the first attempt: the day before today, with the
/// whole step budget; none when today is the first supported day.
pub fn initial_state(today: &Date, budget: u64) -> (r: Option<FetchState>)
    requires
        today.wf(),
    ensures
        match r {
            Some(s) => {
                &&& !today.is_min()
                &&& s == FetchState { date: prev_date_spec(*today), remaining: budget }
                &&& s.date.wf()
            },
            None => today.is_min(),
        },
{
    if today.year == 1 && today.month == 1 && today.day == 1 {
        return None;
    }
    Some(FetchState { date: previous_day(today), remaining: budget })
}

/// The whole search as a function of the successive attempt results,
/// latest date first: the outcome, and how many attempts were made.
pub open spec fn run_spec(s: FetchState, results: Seq<AttemptResult>) -> (FetchOutcome, nat)
    decreases results.len(),
{
    if results.len() == 0 {
        (FetchOutcome::NoRate, 0)
    } else {
        match fetch_step_spec(s, results[0]) {
            FetchStep::Abort => (FetchOutcome::TransportFailed, 1),
            FetchStep::Found(q) => (FetchOutcome::Found(q), 1),
            FetchStep::Exhausted => (FetchOutcome::NoRate, 1),
            FetchStep::Next(n) => {
                let rest = run_spec(n, results.drop_first());
                (rest.0, rest.1 + 1)
            },
        }
    }
}

/// Runs the whole search against a given list of attempt results, one
/// per successive date walking backward from the day before today.
/// Returns the outcome and the number of attempts consumed: exactly
/// `run_spec` of the initial state.
pub fn run_fetch(today: &Date, budget: u64, results: Vec<AttemptResult>) -> (r: (
    FetchOutcome,
    usize,
))
    requires
        today.wf(),
        results@.len() > budget,
    ensures
        !today.is_min() ==> (r.0, r.1 as nat) == run_spec(
            FetchState { date: prev_date_spec(*today), remaining: budget },
            results@,
        ),
        today.is_min() ==> r.0 is NoRate && r.1 == 0,
{
    let ghost results0 = results@;
    let st0 = match initial_state(today, budget) {
        None => {
            return (FetchOutcome::NoRate, 0);
        },
        Some(s) => s,
    };
    let mut state = st0;
    let mut rem = results;
    let n0 = rem.len();
    let mut used: usize = 0;
    proof {
        assert(results0.skip(0) =~= results0);
    }
    loop
        invariant
            results0 == results@,
            !today.is_min(),
            st0 == (FetchState { date: prev_date_spec(*today), remaining: budget }),
            state.date.wf(),
            rem@ =~= results0.skip(used as int),
            used + state.remaining < results0.len(),
            used <= results0.len(),
            n0 == results0.len(),
            run_spec(st0, results0) == {
                let rest = run_spec(state, results0.skip(used as int));
                (rest.0, (rest.1 + used) as nat)
            },
        decreases state.remaining,
    {
        let ghost u = used as int;
        let a = rem.remove(0);
        proof {
            assert(results0.skip(u)[0] == a);
            assert(results0.skip(u).len() > 0);
        }
        used = used + 1;
        let step = fetch_step(&state, a);
        proof {
            assert(results0.skip(u).drop_first() =~= results0.skip(u + 1));
        }
        match step {
            FetchStep::Abort => {
                proof {
                    assert(run_spec(state, results0.skip(u)) == (
                        FetchOutcome::TransportFailed,
                        1nat,
                    ));
                }
                return (FetchOutcome::TransportFailed, used);
            },
            FetchStep::Found(q) => {
                proof {
                    assert(fetch_step_spec(state, a) matches FetchStep::Found(q2) && q2 == q);
                    assert(run_spec(state, results0.skip(u)).1 == 1nat);
                }
                return (FetchOutcome::Found(q), used);
            },
            FetchStep::Exhausted => {
                proof {
                    assert(run_spec(state, results0.skip(u)) == (FetchOutcome::NoRate, 1nat));
                }
                return (FetchOutcome::NoRate, used);
            },
            FetchStep::Next(n) => {
                proof {
                    let rest = run_spec(n, results0.skip(u + 1));
                    assert(run_spec(state, results0.skip(u)) == (rest.0, (rest.1 + 1) as nat));
                }
                state = n;
            },
        }
    }
}

/// Given "no data" for the first two dates and a parseable payload for
/// the third, the search returns that payload after exactly three
/// attempts: it does not go past the first date with data.
pub proof fn lemma_first_data_wins(s: FetchState, results: Seq<AttemptResult>, q: RateQuote)
    requires
        results.len() >= 3,
        results[0] == AttemptResult::Content(None::<RateQuote>),
        results[1] == AttemptResult::Content(None::<RateQuote>),
        results[2] == AttemptResult::Content(Some(q)),
        s.remaining >= 2,
        !s.date.is_min(),
        !prev_date_spec(s.date).is_min(),
    ensures
        run_spec(s, results) == (FetchOutcome::Found(q), 3nat),
{
    let s1 = FetchState { date: prev_date_spec(s.date), remaining: (s.remaining - 1) as u64 };
    let s2 = FetchState { date: prev_date_spec(s1.date), remaining: (s1.remaining - 1) as u64 };
    let r1 = results.drop_first();
    let r2 = r1.drop_first();
    assert(r1[0] == results[1]);
    assert(r2[0] == results[2]);
    assert(fetch_step_spec(s, results[0]) == FetchStep::Next(s1));
    assert(fetch_step_spec(s1, r1[0]) == FetchStep::Next(s2));
    assert(fetch_step_spec(s2, r2[0]) == FetchStep::Found(q));
    assert(run_spec(s2, r2) == (FetchOutcome::Found(q), 1nat));
    assert(run_spec(s1, r1) == (FetchOutcome::Found(q), 2nat));
}

/// A transport failure on the first attempt aborts the whole search at
/// once: exactly one attempt is made, and no earlier date is tried.
pub proof fn lemma_transport_aborts(s: FetchState, results: Seq<AttemptResult>)
    requires
        results.len() >= 1,
        results[0] == AttemptResult::Transport,
    ensures
        run_spec(s, results) == (FetchOutcome::TransportFailed, 1nat),
{
}

/// The provider request URL for one date.
pub open spec fn rate_url_spec(table: Seq<char>, currency: Seq<char>, d: Date) -> Seq<char> {
    "http://api.nbp.pl/api/exchangerates/rates/"@ + table + seq!['/'] + currency + seq!['/']
        + iso_spec(d) + seq!['/']
}

/// Builds the provider request URL for one date.
pub fn rate_url(table: &str, currency: &str, d: &Date) -> (r: String)
    ensures
        r@ == rate_url_spec(table@, currency@, *d),
{
    let mut out = String::from_str("http://api.nbp.pl/api/exchangerates/rates/");
    out.append(table);
    let slash = slash_str();
    out.append(slash);
    out.append(currency);
    out.append(slash);
    let iso = date_iso(d);
    out.append(iso.as_str());
    out.append(slash);
    proof {
        assert(out@ =~= rate_url_spec(table@, currency@, *d));
    }
    out
}

fn slash_str() -> (r: &'static str)
    ensures
        r@ == seq!['/'],
{
    proof {
        reveal_strlit("/");
        assert("/"@ =~= seq!['/']);
    }
    "/"
}

} // verus!
