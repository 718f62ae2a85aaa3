//! The verdict one execution publishes: pass or fail, with the reason.

use crate::report::CoreReport;
use crate::report::ReportView;
use vstd::prelude::*;

verus! {

/// Why a run passed or failed.
#[derive(Debug)]
pub enum Reason {
    /// No detail is available.
    Unknown,
    /// A plain human-readable message.
    Generic(String),
    /// An output comparison that did not match.
    NotExpected { actual: String, expected: String },
    /// A full canonical report.
    Report(CoreReport),
}

/// The outcome of one run.
#[derive(Debug)]
pub enum TestResult {
    Pass(Reason),
    Fail(Reason),
}

/// The mathematical content of a reason.
pub ghost enum ReasonView {
    Unknown,
    Generic(Seq<char>),
    NotExpected { actual: Seq<char>, expected: Seq<char> },
    Report(ReportView),
}

/// The mathematical content of an outcome.
pub ghost enum ResultView {
    Pass(ReasonView),
    Fail(ReasonView),
}

impl View for Reason {
    type V = ReasonView;

    open spec fn view(&self) -> ReasonView {
        match self {
            Reason::Unknown => ReasonView::Unknown,
            Reason::Generic(s) => ReasonView::Generic(s@),
            Reason::NotExpected { actual, expected } => ReasonView::NotExpected {
                actual: actual@,
                expected: expected@,
            },
            Reason::Report(r) => ReasonView::Report(r@),
        }
    }
}

impl View for TestResult {
    type V = ResultView;

    open spec fn view(&self) -> ResultView {
        match self {
            TestResult::Pass(r) => ResultView::Pass(r@),
            TestResult::Fail(r) => ResultView::Fail(r@),
        }
    }
}

impl Clone for Reason {
    fn clone(&self) -> (r: Self)
        ensures
            r@ == self@,
    {
        match self {
            Reason::Unknown => Reason::Unknown,
            Reason::Generic(s) => Reason::Generic(s.clone()),
            Reason::NotExpected { actual, expected } => Reason::NotExpected {
                actual: actual.clone(),
                expected: expected.clone(),
            },
            Reason::Report(r) => Reason::Report(r.clone()),
        }
    }
}

impl Clone for TestResult {
    fn clone(&self) -> (r: Self)
        ensures
            r@ == self@,
    {
        match self {
            TestResult::Pass(r) => TestResult::Pass(r.clone()),
            TestResult::Fail(r) => TestResult::Fail(r.clone()),
        }
    }
}

impl Reason {
    /// A reason recording an output that differed from the expected one.
    pub fn not_expected(actual: String, expected: String) -> (r: Self)
        ensures
            r@ == (ReasonView::NotExpected { actual: actual@, expected: expected@ }),
    {
        Reason::NotExpected { actual, expected }
    }

    /// Wrap a canonical report as a reason.
    pub fn from_report(report: CoreReport) -> (r: Self)
        ensures
            r@ == ReasonView::Report(report@),
    {
        Reason::Report(report)
    }
}

/// The failure count a report carries, an absent count standing for zero.
pub open spec fn failures_or_zero(r: ReportView) -> usize {
    match r.failures {
        Some(n) => n,
        None => 0,
    }
}

/// The outcome a report yields: `Fail` exactly when the report's failure
/// count is present and positive, with the report itself as the reason.
pub open spec fn outcome_of(report: CoreReport) -> TestResult {
    if failures_or_zero(report@) == 0 {
        TestResult::Pass(Reason::Report(report))
    } else {
        TestResult::Fail(Reason::Report(report))
    }
}

impl From<CoreReport> for TestResult {
    /// Derive the published outcome from a report.
    fn from(x: CoreReport) -> (r: TestResult)
    {
        let failures = match x.failures {
            Some(n) => n,
            None => 0,
        };
        if failures == 0 {
            TestResult::Pass(Reason::Report(x))
        } else {
            TestResult::Fail(Reason::Report(x))
        }
    }
}

impl vstd::std_specs::convert::FromSpecImpl<CoreReport> for TestResult {
    open spec fn obeys_from_spec() -> bool {
        true
    }

    open spec fn from_spec(v: CoreReport) -> TestResult {
        outcome_of(v)
    }
}

/// The verdict of a data-comparison test: a pass exactly when the program's
/// output is the expected one, and otherwise a failure carrying both texts.
pub fn verdict_from_output(actual: String, expected: String) -> (r: TestResult)
    ensures
        actual@ == expected@ ==> (r matches TestResult::Pass(reason) && reason is Unknown),
        actual@ != expected@ ==> (r matches TestResult::Fail(reason) && reason@ == (
        ReasonView::NotExpected { actual: actual@, expected: expected@ })),
{
    let equal = crate::strutil::str_eq(actual.as_str(), expected.as_str());
    if equal {
        TestResult::Pass(Reason::Unknown)
    } else {
        TestResult::Fail(Reason::not_expected(actual, expected))
    }
}

/// A report whose failure count is zero or absent yields `Pass`; any
/// positive count yields `Fail`. Either way the report itself is carried as
/// the reason.
pub proof fn lemma_outcome_derivation(report: CoreReport)
    ensures
        failures_or_zero(report@) == 0 ==> outcome_of(report) == TestResult::Pass(
            Reason::Report(report),
        ),
        failures_or_zero(report@) > 0 ==> outcome_of(report) == TestResult::Fail(
            Reason::Report(report),
        ),
        report@.failures is None ==> failures_or_zero(report@) == 0,
{
}

} // verus!
