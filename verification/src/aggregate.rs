//! The tree-shaped report of the library's own runnable tests, and its
//! aggregation rules: a node passes when every node below it passed, fails
//! when every child fails all the way down, and is mixed otherwise.
//!
//! This full recursive fold serves suite- and report-level display; the
//! externally published verdict instead uses the failure-count rule of the
//! canonical report model. Durations are whole milliseconds.

use crate::errors::Error;
use crate::strutil::dec_digits;
use crate::strutil::u64_to_string;
use vstd::prelude::*;

verus! {

/// A place in source code: a file path and a line in it.
#[derive(Debug)]
pub struct CodeReference {
    pub path: String,
    pub line: usize,
}

impl CodeReference {
    /// Render the reference as `path:line`.
    pub fn to_string(&self) -> (r: String)
        ensures
            r@ == self.path@ + ":"@ + dec_digits(self.line as int),
    {
        let mut r = self.path.clone();
        r.append(":");
        let digits = u64_to_string(self.line as u64);
        r.append(digits.as_str());
        r
    }
}

/// What is known about one failure.
#[derive(Debug)]
pub struct FailureDetails {
    pub message: Option<String>,
    pub code_reference: Option<CodeReference>,
}

impl Default for FailureDetails {
    /// No message, no code reference.
    fn default() -> (r: Self)
        ensures
            r.message is None,
            r.code_reference is None,
    {
        FailureDetails { message: None, code_reference: None }
    }
}

/// The aggregated result of one node of the tree.
#[derive(Debug)]
pub enum TestResult {
    Passed,
    Failed(FailureDetails),
    Skipped,
    Aborted(Error),
    Mixed,
    Empty,
}

impl TestResult {
    /// Whether this result is a pass.
    pub fn is_passed(&self) -> (r: bool)
        ensures
            r == (self is Passed),
    {
        matches!(self, TestResult::Passed)
    }

    /// Whether this result is a failure.
    pub fn is_failed(&self) -> (r: bool)
        ensures
            r == (self is Failed),
    {
        matches!(self, TestResult::Failed(_))
    }
}

/// One node of the report tree: its own result, its duration and its
/// children.
#[derive(Debug)]
pub struct Report {
    pub result: TestResult,
    pub duration: Option<u64>,
    pub children: Vec<Report>,
}

/// Every node of the subtree passed.
pub open spec fn tree_passed(r: Report) -> bool
    decreases r,
{
    &&& r.result is Passed
    &&& forall|i: int| 0 <= i < r.children@.len() ==> tree_passed(#[trigger] r.children@[i])
}

/// The fold of a family of sibling reports: a pass when every subtree
/// passed, a failure when every sibling failed and its own children folded
/// to a failure, and mixed otherwise. An empty family folds to a pass.
pub open spec fn fold_of(s: Seq<Report>) -> TestResult
    decreases s,
{
    if forall|i: int| 0 <= i < s.len() ==> tree_passed(#[trigger] s[i]) {
        TestResult::Passed
    } else if forall|i: int|
        0 <= i < s.len() ==> ((#[trigger] s[i]).result is Failed && fold_of(s[i].children@)
            is Failed) {
        TestResult::Failed(FailureDetails { message: None, code_reference: None })
    } else {
        TestResult::Mixed
    }
}

/// Decide whether every subtree of the family passed.
fn all_passed(reports: &Vec<Report>) -> (r: bool)
    ensures
        r == (forall|i: int| 0 <= i < reports@.len() ==> tree_passed(#[trigger] reports@[i])),
    decreases reports@, 0int,
{
    let mut i: usize = 0;
    while i < reports.len()
        invariant
            i <= reports@.len(),
            forall|k: int| 0 <= k < i ==> tree_passed(#[trigger] reports@[k]),
        decreases reports@.len() - i,
    {
        let node = &reports[i];
        let node_passed = node.result.is_passed();
        if !node_passed {
            return false;
        }
        proof {
            assert(decreases_to!(reports@ => reports@[i as int]));
        }
        if !all_passed(&node.children) {
            return false;
        }
        i = i + 1;
    }
    true
}

/// Decide whether every sibling failed, with its children folding to a
/// failure.
fn all_failed(reports: &Vec<Report>) -> (r: bool)
    ensures
        r == (forall|i: int|
            0 <= i < reports@.len() ==> ((#[trigger] reports@[i]).result is Failed && fold_of(
                reports@[i].children@,
            ) is Failed)),
    decreases reports@, 0int,
{
    let mut i: usize = 0;
    while i < reports.len()
        invariant
            i <= reports@.len(),
            forall|k: int|
                0 <= k < i ==> ((#[trigger] reports@[k]).result is Failed && fold_of(
                    reports@[k].children@,
                ) is Failed),
        decreases reports@.len() - i,
    {
        let node = &reports[i];
        let node_failed = node.result.is_failed();
        if !node_failed {
            return false;
        }
        proof {
            assert(decreases_to!(reports@ => reports@[i as int]));
            assert(decreases_to!(reports@[i as int] => reports@[i as int].children));
            assert(decreases_to!(reports@[i as int].children => reports@[i as int].children@));
        }
        let children_fold = fold_results(&node.children);
        let children_failed = children_fold.is_failed();
        if !children_failed {
            return false;
        }
        i = i + 1;
    }
    true
}

/// Fold a family of sibling reports into one result.
pub fn fold_results(reports: &Vec<Report>) -> (r: TestResult)
    ensures
        r == fold_of(reports@),
    decreases reports@, 1int,
{
    if all_passed(reports) {
        TestResult::Passed
    } else if all_failed(reports) {
        TestResult::Failed(FailureDetails { message: None, code_reference: None })
    } else {
        TestResult::Mixed
    }
}

/// The duration of a family of reports: the sum of the children's
/// durations, or nothing as soon as one child has none.
pub open spec fn sum_of(s: Seq<Report>) -> Option<int>
    decreases s.len(),
{
    if s.len() == 0 {
        Some(0int)
    } else {
        match (sum_of(s.drop_last()), s.last().duration) {
            (Some(t), Some(d)) => Some(t + d),
            _ => None,
        }
    }
}

/// The sum of the durations that are present, whatever else is absent.
pub open spec fn some_sum(s: Seq<Report>) -> int
    decreases s.len(),
{
    if s.len() == 0 {
        0
    } else {
        some_sum(s.drop_last()) + (match s.last().duration {
            Some(d) => d as int,
            None => 0,
        })
    }
}

/// Every prefix sums to at most the whole.
proof fn lemma_some_sum_take_le(s: Seq<Report>, i: int)
    requires
        0 <= i <= s.len(),
    ensures
        some_sum(s.take(i)) <= some_sum(s),
    decreases s.len() - i,
{
    if i == s.len() {
        assert(s.take(i) =~= s);
    } else {
        assert(s.take(i + 1).drop_last() =~= s.take(i));
        assert(s.take(i + 1).last() == s[i]);
        lemma_some_sum_take_le(s, i + 1);
    }
}

/// Once a prefix sums to nothing, every longer prefix does.
proof fn lemma_sum_none_extends(s: Seq<Report>, i: int, k: int)
    requires
        0 <= i <= k <= s.len(),
        sum_of(s.take(i)) is None,
    ensures
        sum_of(s.take(k)) is None,
    decreases k - i,
{
    if k > i {
        assert(s.take(i + 1).drop_last() =~= s.take(i));
        lemma_sum_none_extends(s, i + 1, k);
    }
}

/// Sum the durations of a family of reports, or return nothing as soon as
/// one report carries no duration.
///
/// The durations that are present are required to fit in a `u64` sum.
pub fn sum_durations(reports: &Vec<Report>) -> (r: Option<u64>)
    requires
        some_sum(reports@) <= u64::MAX,
    ensures
        match sum_of(reports@) {
            Some(t) => r == Some(t as u64) && t >= 0,
            None => r is None,
        },
{
    let mut total: u64 = 0;
    let mut i: usize = 0;
    proof {
        assert(reports@.take(0) =~= Seq::<Report>::empty());
    }
    while i < reports.len()
        invariant
            i <= reports@.len(),
            some_sum(reports@) <= u64::MAX,
            sum_of(reports@.take(i as int)) == Some(total as int),
            total as int == some_sum(reports@.take(i as int)),
        decreases reports@.len() - i,
    {
        proof {
            assert(reports@.take(i + 1).drop_last() =~= reports@.take(i as int));
            assert(reports@.take(i + 1).last() == reports@[i as int]);
        }
        match &reports[i].duration {
            None => {
                proof {
                    lemma_sum_none_extends(reports@, i + 1, reports@.len() as int);
                    assert(reports@.take(reports@.len() as int) =~= reports@);
                }
                return None;
            },
            Some(d) => {
                proof {
                    lemma_some_sum_take_le(reports@, i + 1);
                }
                total = total + *d;
            },
        }
        i = i + 1;
    }
    proof {
        assert(reports@.take(reports@.len() as int) =~= reports@);
    }
    Some(total)
}

impl Report {
    /// A report for something that was not run.
    pub fn skipped() -> (r: Report)
        ensures
            r.result is Skipped,
            r.duration is None,
            r.children@.len() == 0,
    {
        Report { result: TestResult::Skipped, duration: None, children: Vec::new() }
    }

    /// Aggregate child reports: the result is their fold, the duration
    /// their sum.
    pub fn with_children(children: Vec<Report>) -> (r: Report)
        requires
            some_sum(children@) <= u64::MAX,
        ensures
            r.result == fold_of(children@),
            (match sum_of(children@) {
                Some(t) => r.duration == Some(t as u64),
                None => r.duration is None,
            }),
            r.children == children,
    {
        let result = fold_results(&children);
        let duration = sum_durations(&children);
        Report { result, duration, children }
    }

    /// A pass with no duration.
    pub fn pass() -> (r: Report)
        ensures
            r.result is Passed,
            r.duration is None,
            r.children@.len() == 0,
    {
        Report { result: TestResult::Passed, duration: None, children: Vec::new() }
    }

    /// A pass that took this long, in milliseconds.
    pub fn pass_with_duration(duration_millis: u64) -> (r: Report)
        ensures
            r.result is Passed,
            r.duration == Some(duration_millis),
            r.children@.len() == 0,
    {
        Report { result: TestResult::Passed, duration: Some(duration_millis), children: Vec::new() }
    }

    /// A failure with the given details.
    pub fn fail_with_details(details: FailureDetails) -> (r: Report)
        ensures
            r.result == TestResult::Failed(details),
            r.duration is None,
            r.children@.len() == 0,
    {
        Report { result: TestResult::Failed(details), duration: None, children: Vec::new() }
    }

    /// A failure with nothing more known about it.
    pub fn fail() -> (r: Report)
        ensures
            r.result == TestResult::Failed(
                FailureDetails { message: None, code_reference: None },
            ),
            r.duration is None,
            r.children@.len() == 0,
    {
        Report {
            result: TestResult::Failed(FailureDetails { message: None, code_reference: None }),
            duration: None,
            children: Vec::new(),
        }
    }

    /// The report of something that cannot report at all.
    pub fn not_available() -> (r: Report)
        ensures
            r.result == TestResult::Aborted(Error::NotAvailable),
            r.duration is None,
            r.children@.len() == 0,
    {
        Report { result: TestResult::Aborted(Error::NotAvailable), duration: None, children: Vec::new() }
    }
}

} // verus!
