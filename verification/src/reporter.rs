//! Reporters: how an outcome is rendered for a terminal. The text itself is
//! built and specified here, character for character; only the final write
//! to a stream is the caller's work.

use crate::report::CaseView;
use crate::report::ReportView;
use crate::report::SuiteView;
use crate::result::Reason;
use crate::result::ReasonView;
use crate::result::ResultView;
use crate::result::TestResult;
use crate::strutil::dec_digits;
use crate::strutil::u64_to_string;
use vstd::prelude::*;

verus! {

/// The reporters one can ask for.
#[derive(Debug, Clone, Copy, PartialEq, Eq, Structural)]
pub enum ReporterType {
    Basic,
    Terminal,
    ColorfulTerminal,
}

/// The reporter that prints one word per run.
#[derive(Debug)]
pub struct BasicReporter;

/// The plain terminal reporter.
#[derive(Debug)]
pub struct TerminalReporter;

impl TerminalReporter {
    /// A plain terminal reporter.
    pub fn new() -> (r: Self) {
        TerminalReporter {}
    }
}

/// The colorful terminal reporter; its text is the plain one's.
#[derive(Debug)]
pub struct ThisReporter;

impl ThisReporter {
    /// A colorful terminal reporter.
    pub fn new() -> (r: Self) {
        ThisReporter {}
    }
}

/// The one-word verdict of an outcome, or a dash while none is known.
pub open spec fn spec_verdict(result: Option<ResultView>) -> Seq<char> {
    match result {
        None => "-"@,
        Some(ResultView::Pass(_)) => "PASS"@,
        Some(ResultView::Fail(_)) => "FAIL"@,
    }
}

/// The one-word verdict the basic reporter prints.
pub fn text_from_result(result: &Option<TestResult>) -> (r: &'static str)
    ensures
        r@ == spec_verdict(match result {
            Some(x) => Some(x@),
            None => None,
        }),
{
    match result {
        None => "-",
        Some(TestResult::Pass(_)) => "PASS",
        Some(TestResult::Fail(_)) => "FAIL",
    }
}

/// An optional labelled count, rendered as `label: n | ` when present.
pub open spec fn count_field(label: Seq<char>, v: Option<usize>) -> Seq<char> {
    match v {
        Some(n) => label + dec_digits(n as int) + " | "@,
        None => Seq::empty(),
    }
}

/// The line of one case: indented name and verdict, a case without
/// failures counting as passed.
pub open spec fn case_line(c: CaseView) -> Seq<char> {
    "        "@ + c.name + (if c.failures.len() == 0 {
        " PASS\n"@
    } else {
        " FAIL\n"@
    })
}

/// The lines of the cases from `i` on.
pub open spec fn cases_text_from(cs: Seq<CaseView>, i: int) -> Seq<char>
    decreases cs.len() - i,
{
    if i < 0 || i >= cs.len() {
        Seq::empty()
    } else {
        case_line(cs[i]) + cases_text_from(cs, i + 1)
    }
}

/// The text of one suite: its header line and its case lines.
pub open spec fn suite_text(s: SuiteView) -> Seq<char> {
    "    "@ + s.name + " | "@ + "tests: "@ + dec_digits(s.tests as int) + " | "@ + count_field(
        "errors: "@,
        s.errors,
    ) + count_field("failures: "@, s.failures) + count_field("disabled: "@, s.disabled) + "\n"@
        + cases_text_from(s.cases, 0)
}

/// The texts of the suites from `i` on.
pub open spec fn suites_text_from(ss: Seq<SuiteView>, i: int) -> Seq<char>
    decreases ss.len() - i,
{
    if i < 0 || i >= ss.len() {
        Seq::empty()
    } else {
        suite_text(ss[i]) + suites_text_from(ss, i + 1)
    }
}

/// The text of a whole report: its header line, then its suites.
pub open spec fn report_text(r: ReportView) -> Seq<char> {
    (match r.name {
        Some(n) => n + " | "@,
        None => Seq::empty(),
    }) + count_field("tests: "@, r.tests) + count_field("errors: "@, r.errors) + count_field(
        "failures: "@,
        r.failures,
    ) + count_field("- disabled: "@, r.disabled) + "\n"@ + suites_text_from(r.suites, 0)
}

/// The text of a reason.
pub open spec fn reason_text(v: ReasonView) -> Seq<char> {
    match v {
        ReasonView::Unknown => Seq::empty(),
        ReasonView::Generic(description) => description,
        ReasonView::NotExpected { actual, expected } => "Expected\n\n"@ + expected + "\n\nActual\n\n"@
            + actual,
        ReasonView::Report(r) => report_text(r),
    }
}

/// The text of a whole outcome: the verdict, and for a failure the reason.
pub open spec fn result_text(v: ResultView) -> Seq<char> {
    match v {
        ResultView::Pass(_) => "PASS\n"@,
        ResultView::Fail(reason) => "FAIL\n\n"@ + reason_text(reason) + "\n"@,
    }
}

fn render_count_field(acc: &mut String, label: &str, v: &Option<usize>)
    ensures
        final(acc)@ == old(acc)@ + count_field(label@, *v),
{
    match v {
        Some(n) => {
            acc.append(label);
            let digits = u64_to_string(*n as u64);
            acc.append(digits.as_str());
            acc.append(" | ");
        },
        None => {
            proof {
                assert(old(acc)@ + count_field(label@, *v) =~= old(acc)@);
            }
        },
    }
}

/// Render a report as the terminal reporter shows it.
#[verifier::rlimit(60)]
pub fn render_report(report: &crate::report::CoreReport) -> (r: String)
    ensures
        r@ == report_text(report@),
{
    let mut acc = String::new();
    match &report.name {
        Some(n) => {
            acc.append(n.as_str());
            acc.append(" | ");
        },
        None => {},
    }
    render_count_field(&mut acc, "tests: ", &report.tests);
    render_count_field(&mut acc, "errors: ", &report.errors);
    render_count_field(&mut acc, "failures: ", &report.failures);
    render_count_field(&mut acc, "- disabled: ", &report.disabled);
    acc.append("\n");
    proof {
        assert(report_text(report@) =~= acc@ + suites_text_from(report@.suites, 0));
    }
    let mut i: usize = 0;
    while i < report.testsuites.len()
        invariant
            i <= report.testsuites@.len(),
            report@.suites.len() == report.testsuites@.len(),
            report_text(report@) == acc@ + suites_text_from(report@.suites, i as int),
        decreases report.testsuites@.len() - i,
    {
        let ghost acc_prev = acc@;
        let s = &report.testsuites[i];
        proof {
            assert(report@.suites[i as int] == report.testsuites@[i as int]@);
        }
        acc.append("    ");
        acc.append(s.name.as_str());
        acc.append(" | ");
        render_count_field(&mut acc, "tests: ", &Some(s.tests));
        render_count_field(&mut acc, "errors: ", &s.errors);
        render_count_field(&mut acc, "failures: ", &s.failures);
        render_count_field(&mut acc, "disabled: ", &s.disabled);
        acc.append("\n");
        let ghost before_cases = acc@;
        proof {
            assert(count_field("tests: "@, Some(s@.tests)) =~= "tests: "@ + dec_digits(
                s@.tests as int,
            ) + " | "@);
            assert(before_cases =~= acc_prev + ("    "@ + s@.name + " | "@ + "tests: "@
                + dec_digits(s@.tests as int) + " | "@ + count_field("errors: "@, s@.errors)
                + count_field("failures: "@, s@.failures) + count_field("disabled: "@, s@.disabled)
                + "\n"@));
        }
        let mut k: usize = 0;
        while k < s.testcases.len()
            invariant
                k <= s.testcases@.len(),
                s@.cases.len() == s.testcases@.len(),
                before_cases + cases_text_from(s@.cases, 0) == acc@ + cases_text_from(
                    s@.cases,
                    k as int,
                ),
            decreases s.testcases@.len() - k,
        {
            let ghost acc_k = acc@;
            let c = &s.testcases[k];
            proof {
                assert(s@.cases[k as int] == s.testcases@[k as int]@);
            }
            acc.append("        ");
            acc.append(c.name.as_str());
            if c.failures.len() == 0 {
                acc.append(" PASS\n");
            } else {
                acc.append(" FAIL\n");
            }
            proof {
                assert(cases_text_from(s@.cases, k as int) =~= case_line(s@.cases[k as int])
                    + cases_text_from(s@.cases, k + 1));
                assert(acc@ =~= acc_k + case_line(s@.cases[k as int]));
                assert(before_cases + cases_text_from(s@.cases, 0) =~= acc@ + cases_text_from(
                    s@.cases,
                    k + 1,
                ));
            }
            k = k + 1;
        }
        proof {
            assert(cases_text_from(s@.cases, s.testcases@.len() as int) =~= Seq::<char>::empty());
            assert(acc@ =~= before_cases + cases_text_from(s@.cases, 0));
            assert(acc@ =~= acc_prev + suite_text(report@.suites[i as int]));
            assert(suites_text_from(report@.suites, i as int) =~= suite_text(
                report@.suites[i as int],
            ) + suites_text_from(report@.suites, i + 1));
            assert(report_text(report@) =~= acc@ + suites_text_from(report@.suites, i + 1));
        }
        i = i + 1;
    }
    proof {
        assert(suites_text_from(report@.suites, report.testsuites@.len() as int) =~= Seq::<
            char,
        >::empty());
        assert(report_text(report@) =~= acc@);
    }
    acc
}

/// Render a reason as the terminal reporter shows it.
pub fn render_reason(reason: &Reason) -> (r: String)
    ensures
        r@ == reason_text(reason@),
{
    match reason {
        Reason::Unknown => {
            let r = String::new();
            proof {
                assert(r@ =~= reason_text(reason@));
            }
            r
        },
        Reason::Generic(description) => description.clone(),
        Reason::NotExpected { actual, expected } => {
            let mut r = String::from_str("Expected\n\n");
            r.append(expected.as_str());
            r.append("\n\nActual\n\n");
            r.append(actual.as_str());
            r
        },
        Reason::Report(report) => render_report(report),
    }
}

/// Render a whole outcome as the terminal reporter shows it.
pub fn render_test_result(result: &TestResult) -> (r: String)
    ensures
        r@ == result_text(result@),
{
    match result {
        TestResult::Pass(_) => String::from_str("PASS\n"),
        TestResult::Fail(reason) => {
            let mut r = String::from_str("FAIL\n\n");
            let rendered = render_reason(reason);
            r.append(rendered.as_str());
            r.append("\n");
            r
        },
    }
}

} // verus!
