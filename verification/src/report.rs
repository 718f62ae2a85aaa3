//! The canonical test report model: one run's outcome as a tree of suites,
//! cases and failures, normalized from whatever format a runner emits.
//!
//! A report is built once by a decoder and never mutated; a new run produces
//! a new report. Durations are carried as whole milliseconds.

use crate::identity::FullyQualifiedTestCaseId;
use crate::sequtil::lemma_filter_push;
use crate::strutil::chars_lt;
use crate::strutil::str_lt;
use vstd::multiset::Multiset;
use vstd::prelude::*;

verus! {

/// Status of a single test case. `Unknown` is the default and means that no
/// outcome has been observed yet.
#[derive(Debug, Clone, Copy, PartialEq, Eq, Structural)]
pub enum CoreStatus {
    Unknown,
    Pass,
    Fail,
    Ignored,
    Skipped,
}

/// One recorded failure of a test case.
#[derive(Debug)]
pub struct CoreFailure {
    pub message: String,
    pub ttype: String,
}

/// One test case of one suite, with its observed status and failures.
#[derive(Debug)]
pub struct CoreTestCase {
    pub name: String,
    pub classname: Option<String>,
    pub status: CoreStatus,
    pub time_millis: Option<u64>,
    pub failures: Vec<CoreFailure>,
    pub fqtc: Option<FullyQualifiedTestCaseId>,
}

/// One suite of a report: its declared totals and its cases.
#[derive(Debug)]
pub struct CoreTestSuite {
    pub name: String,
    pub tests: usize,
    pub disabled: Option<usize>,
    pub errors: Option<usize>,
    pub failures: Option<usize>,
    pub testcases: Vec<CoreTestCase>,
    pub time_millis: Option<u64>,
    pub timestamp: Option<String>,
}

/// The root of one run's outcome.
#[derive(Debug)]
pub struct CoreReport {
    pub name: Option<String>,
    pub disabled: Option<usize>,
    pub errors: Option<usize>,
    pub failures: Option<usize>,
    pub tests: Option<usize>,
    pub testsuites: Vec<CoreTestSuite>,
    pub time_millis: Option<u64>,
    pub timestamp: Option<String>,
}

// --- views ---

/// The view of an optional string.
pub open spec fn opt_str_view(s: Option<String>) -> Option<Seq<char>> {
    match s {
        Some(x) => Some(x@),
        None => None,
    }
}

/// The mathematical content of one failure.
pub ghost struct FailureView {
    pub message: Seq<char>,
    pub ttype: Seq<char>,
}

impl View for CoreFailure {
    type V = FailureView;

    open spec fn view(&self) -> FailureView {
        FailureView { message: self.message@, ttype: self.ttype@ }
    }
}

/// The mathematical content of one test case.
pub ghost struct CaseView {
    pub name: Seq<char>,
    pub classname: Option<Seq<char>>,
    pub status: CoreStatus,
    pub time_millis: Option<u64>,
    pub failures: Seq<FailureView>,
    pub fqtc: Option<u64>,
}

impl View for CoreTestCase {
    type V = CaseView;

    open spec fn view(&self) -> CaseView {
        CaseView {
            name: self.name@,
            classname: opt_str_view(self.classname),
            status: self.status,
            time_millis: self.time_millis,
            failures: self.failures@.map_values(|f: CoreFailure| f@),
            fqtc: match self.fqtc {
                Some(id) => Some(id.0),
                None => None,
            },
        }
    }
}

/// The mathematical content of one suite.
pub ghost struct SuiteView {
    pub name: Seq<char>,
    pub tests: usize,
    pub disabled: Option<usize>,
    pub errors: Option<usize>,
    pub failures: Option<usize>,
    pub cases: Seq<CaseView>,
    pub time_millis: Option<u64>,
    pub timestamp: Option<Seq<char>>,
}

impl View for CoreTestSuite {
    type V = SuiteView;

    open spec fn view(&self) -> SuiteView {
        SuiteView {
            name: self.name@,
            tests: self.tests,
            disabled: self.disabled,
            errors: self.errors,
            failures: self.failures,
            cases: self.testcases@.map_values(|c: CoreTestCase| c@),
            time_millis: self.time_millis,
            timestamp: opt_str_view(self.timestamp),
        }
    }
}

/// The mathematical content of one report.
pub ghost struct ReportView {
    pub name: Option<Seq<char>>,
    pub disabled: Option<usize>,
    pub errors: Option<usize>,
    pub failures: Option<usize>,
    pub tests: Option<usize>,
    pub suites: Seq<SuiteView>,
    pub time_millis: Option<u64>,
    pub timestamp: Option<Seq<char>>,
}

impl View for CoreReport {
    type V = ReportView;

    open spec fn view(&self) -> ReportView {
        ReportView {
            name: opt_str_view(self.name),
            disabled: self.disabled,
            errors: self.errors,
            failures: self.failures,
            tests: self.tests,
            suites: self.testsuites@.map_values(|s: CoreTestSuite| s@),
            time_millis: self.time_millis,
            timestamp: opt_str_view(self.timestamp),
        }
    }
}

// --- clones ---

fn clone_opt_string(s: &Option<String>) -> (r: Option<String>)
    ensures
        opt_str_view(r) == opt_str_view(*s),
{
    match s {
        Some(x) => Some(x.clone()),
        None => None,
    }
}

impl Clone for CoreFailure {
    fn clone(&self) -> (r: Self)
        ensures
            r@ == self@,
    {
        CoreFailure { message: self.message.clone(), ttype: self.ttype.clone() }
    }
}

impl Clone for CoreTestCase {
    fn clone(&self) -> (r: Self)
        ensures
            r@ == self@,
    {
        let mut failures: Vec<CoreFailure> = Vec::new();
        let mut i: usize = 0;
        while i < self.failures.len()
            invariant
                i <= self.failures@.len(),
                failures@.len() == i,
                forall|k: int| 0 <= k < i ==> #[trigger] failures@[k]@ == self.failures@[k]@,
            decreases self.failures@.len() - i,
        {
            failures.push(self.failures[i].clone());
            i = i + 1;
        }
        let r = CoreTestCase {
            name: self.name.clone(),
            classname: clone_opt_string(&self.classname),
            status: self.status,
            time_millis: self.time_millis,
            failures,
            fqtc: self.fqtc,
        };
        proof {
            assert(r@.failures =~= self@.failures);
        }
        r
    }
}

impl Clone for CoreTestSuite {
    fn clone(&self) -> (r: Self)
        ensures
            r@ == self@,
    {
        let mut testcases: Vec<CoreTestCase> = Vec::new();
        let mut i: usize = 0;
        while i < self.testcases.len()
            invariant
                i <= self.testcases@.len(),
                testcases@.len() == i,
                forall|k: int| 0 <= k < i ==> #[trigger] testcases@[k]@ == self.testcases@[k]@,
            decreases self.testcases@.len() - i,
        {
            testcases.push(self.testcases[i].clone());
            i = i + 1;
        }
        let r = CoreTestSuite {
            name: self.name.clone(),
            tests: self.tests,
            disabled: self.disabled,
            errors: self.errors,
            failures: self.failures,
            testcases,
            time_millis: self.time_millis,
            timestamp: clone_opt_string(&self.timestamp),
        };
        proof {
            assert(r@.cases =~= self@.cases);
        }
        r
    }
}

impl Clone for CoreReport {
    fn clone(&self) -> (r: Self)
        ensures
            r@ == self@,
    {
        let mut testsuites: Vec<CoreTestSuite> = Vec::new();
        let mut i: usize = 0;
        while i < self.testsuites.len()
            invariant
                i <= self.testsuites@.len(),
                testsuites@.len() == i,
                forall|k: int| 0 <= k < i ==> #[trigger] testsuites@[k]@ == self.testsuites@[k]@,
            decreases self.testsuites@.len() - i,
        {
            testsuites.push(self.testsuites[i].clone());
            i = i + 1;
        }
        let r = CoreReport {
            name: clone_opt_string(&self.name),
            disabled: self.disabled,
            errors: self.errors,
            failures: self.failures,
            tests: self.tests,
            testsuites,
            time_millis: self.time_millis,
            timestamp: clone_opt_string(&self.timestamp),
        };
        proof {
            assert(r@.suites =~= self@.suites);
        }
        r
    }
}

// --- failure counting ---

/// A case counts as failed when it recorded at least one failure.
pub open spec fn case_failed(c: CaseView) -> bool {
    c.failures.len() > 0
}

/// How many cases of the sequence have failed.
pub open spec fn failed_count(cases: Seq<CaseView>) -> int {
    cases.filter(|c: CaseView| case_failed(c)).len() as int
}

/// The failure count a whole report owes: the failed cases of all its
/// suites together.
pub open spec fn suites_failed_count(suites: Seq<SuiteView>) -> int
    decreases suites.len(),
{
    if suites.len() == 0 {
        0
    } else {
        suites_failed_count(suites.drop_last()) + failed_count(suites.last().cases)
    }
}

/// Every prefix of the suite sequence owes at most the whole count.
proof fn lemma_suites_failed_count_take_le(suites: Seq<SuiteView>, i: int)
    requires
        0 <= i <= suites.len(),
    ensures
        suites_failed_count(suites.take(i)) <= suites_failed_count(suites),
    decreases suites.len() - i,
{
    if i == suites.len() {
        assert(suites.take(i) =~= suites);
    } else {
        assert(suites.take(i + 1).drop_last() =~= suites.take(i));
        assert(suites.take(i + 1).last() == suites[i]);
        lemma_suites_failed_count_take_le(suites, i + 1);
    }
}

impl CoreTestSuite {
    /// Count the cases of this suite that recorded a failure.
    pub fn failures_count(&self) -> (r: usize)
        ensures
            r == failed_count(self@.cases),
    {
        let mut count: usize = 0;
        let mut i: usize = 0;
        proof {
            assert(self@.cases.take(0) =~= Seq::<CaseView>::empty());
            crate::sequtil::lemma_filter_none(
                Seq::<CaseView>::empty(),
                |c: CaseView| case_failed(c),
            );
        }
        while i < self.testcases.len()
            invariant
                i <= self.testcases@.len(),
                count <= i,
                self@.cases.len() == self.testcases@.len(),
                count == failed_count(self@.cases.take(i as int)),
            decreases self.testcases@.len() - i,
        {
            proof {
                assert(self@.cases.take(i + 1) =~= self@.cases.take(i as int).push(
                    self@.cases[i as int],
                ));
                lemma_filter_push(
                    self@.cases.take(i as int),
                    self@.cases[i as int],
                    |c: CaseView| case_failed(c),
                );
                assert(self@.cases[i as int] == self.testcases@[i as int]@);
            }
            if self.testcases[i].failures.len() > 0 {
                count = count + 1;
            }
            i = i + 1;
        }
        proof {
            assert(self@.cases.take(self.testcases@.len() as int) =~= self@.cases);
        }
        count
    }
}

impl CoreReport {
    /// Count the failed cases of the whole report, suite by suite.
    ///
    /// The total is required to fit in `usize`; it never exceeds the number
    /// of cases the report holds.
    pub fn failures_count(&self) -> (r: usize)
        requires
            suites_failed_count(self@.suites) <= usize::MAX,
        ensures
            r == suites_failed_count(self@.suites),
    {
        let mut total: usize = 0;
        let mut i: usize = 0;
        proof {
            assert(self@.suites.take(0) =~= Seq::<SuiteView>::empty());
        }
        while i < self.testsuites.len()
            invariant
                i <= self.testsuites@.len(),
                self@.suites.len() == self.testsuites@.len(),
                total == suites_failed_count(self@.suites.take(i as int)),
                suites_failed_count(self@.suites) <= usize::MAX,
            decreases self.testsuites@.len() - i,
        {
            let c = self.testsuites[i].failures_count();
            proof {
                assert(self@.suites.take(i + 1).drop_last() =~= self@.suites.take(i as int));
                assert(self@.suites.take(i + 1).last() == self@.suites[i as int]);
                assert(self@.suites[i as int] == self.testsuites@[i as int]@);
                lemma_suites_failed_count_take_le(self@.suites, i + 1);
                assert(failed_count(self@.suites[i as int].cases) >= 0);
            }
            total = total + c;
            i = i + 1;
        }
        proof {
            assert(self@.suites.take(self.testsuites@.len() as int) =~= self@.suites);
        }
        total
    }
}

// --- deterministic ordering ---

/// Non-strict name order: `a` is no later than `b`.
pub open spec fn chars_le(a: Seq<char>, b: Seq<char>) -> bool {
    !chars_lt(b, a)
}

/// Cases ordered by name, equal names keeping their relative order.
pub open spec fn cases_sorted(cases: Seq<CaseView>) -> bool {
    forall|j: int, k: int|
        0 <= j < k < cases.len() ==> chars_le(
            (#[trigger] cases[j]).name,
            (#[trigger] cases[k]).name,
        )
}

/// Suites ordered by name.
pub open spec fn suites_sorted(suites: Seq<SuiteView>) -> bool {
    forall|j: int, k: int|
        0 <= j < k < suites.len() ==> chars_le(
            (#[trigger] suites[j]).name,
            (#[trigger] suites[k]).name,
        )
}

/// What sorting may not change about a suite: everything, with the cases
/// counted as a multiset.
pub ghost struct SuiteEssence {
    pub name: Seq<char>,
    pub tests: usize,
    pub disabled: Option<usize>,
    pub errors: Option<usize>,
    pub failures: Option<usize>,
    pub cases: Multiset<CaseView>,
    pub time_millis: Option<u64>,
    pub timestamp: Option<Seq<char>>,
}

/// The essence of a suite.
pub open spec fn essence(s: SuiteView) -> SuiteEssence {
    SuiteEssence {
        name: s.name,
        tests: s.tests,
        disabled: s.disabled,
        errors: s.errors,
        failures: s.failures,
        cases: s.cases.to_multiset(),
        time_millis: s.time_millis,
        timestamp: s.timestamp,
    }
}

/// Sort the cases of one suite by name, stably.
fn sort_cases(cases: Vec<CoreTestCase>) -> (r: Vec<CoreTestCase>)
    ensures
        r@.map_values(|c: CoreTestCase| c@).to_multiset() == cases@.map_values(
            |c: CoreTestCase| c@,
        ).to_multiset(),
        cases_sorted(r@.map_values(|c: CoreTestCase| c@)),
{
    let ghost orig = cases@.map_values(|c: CoreTestCase| c@);
    let mut input = cases;
    let mut out: Vec<CoreTestCase> = Vec::new();
    proof {
        broadcast use vstd::seq_lib::group_to_multiset_ensures;

        assert(out@.map_values(|c: CoreTestCase| c@) =~= Seq::<CaseView>::empty());
        assert(Seq::<CaseView>::empty().to_multiset().add(orig.to_multiset()) =~= orig.to_multiset());
    }
    while input.len() > 0
        invariant
            out@.map_values(|c: CoreTestCase| c@).to_multiset().add(
                input@.map_values(|c: CoreTestCase| c@).to_multiset(),
            ) == orig.to_multiset(),
            cases_sorted(out@.map_values(|c: CoreTestCase| c@)),
        decreases input@.len(),
    {
        let ghost in_views = input@.map_values(|c: CoreTestCase| c@);
        let ghost out_views = out@.map_values(|c: CoreTestCase| c@);
        let x = input.remove(0);
        proof {
            broadcast use vstd::seq_lib::group_to_multiset_ensures;

            assert(input@.map_values(|c: CoreTestCase| c@) =~= in_views.remove(0));
            assert(in_views.remove(0).to_multiset() =~= in_views.to_multiset().remove(
                in_views[0],
            ));
            assert(x@ == in_views[0]);
        }
        let mut j: usize = 0;
        while j < out.len() && !str_lt(x.name.as_str(), out[j].name.as_str())
            invariant
                j <= out@.len(),
                out_views == out@.map_values(|c: CoreTestCase| c@),
                x@ == in_views[0],
                forall|k: int| 0 <= k < j ==> chars_le((#[trigger] out_views[k]).name, x@.name),
            decreases out@.len() - j,
        {
            proof {
                assert(out_views[j as int].name == out@[j as int]@.name);
            }
            j = j + 1;
        }
        proof {
            assert(j < out@.len() ==> out_views[j as int] == out@[j as int]@);
            assert(j as int == out_views.len() || chars_lt(x@.name, out_views[j as int].name));
        }
        let ghost xv = x@;
        out.insert(j, x);
        proof {
            broadcast use vstd::seq_lib::group_to_multiset_ensures;

            assert(out@.map_values(|c: CoreTestCase| c@) =~= out_views.insert(j as int, xv));
            crate::sequtil::lemma_to_multiset_insert(out_views, j as int, xv);
            let nv = out_views.insert(j as int, xv);
            assert forall|k: int| 0 <= k < j implies nv[k] == out_views[k] by {}
            assert(nv[j as int] == xv);
            assert forall|k: int| j < k < nv.len() implies nv[k] == out_views[k - 1] by {}
            assert forall|a: int, b: int| 0 <= a < b < nv.len() implies chars_le(
                (#[trigger] nv[a]).name,
                (#[trigger] nv[b]).name,
            ) by {
                if a < j && b == j {
                    assert(nv[a] == out_views[a]);
                    assert(nv[b] == xv);
                } else if a == j && b > j {
                    assert(nv[a] == xv);
                    assert(nv[b] == out_views[b - 1]);
                    assert(chars_lt(xv.name, out_views[j as int].name));
                    if b - 1 > j {
                        assert(chars_le(out_views[j as int].name, out_views[b - 1].name));
                        if chars_lt(nv[b].name, xv.name) {
                            crate::strutil::lemma_chars_lt_transitive(
                                out_views[b - 1].name,
                                xv.name,
                                out_views[j as int].name,
                            );
                            crate::strutil::lemma_chars_lt_irreflexive(out_views[b - 1].name);
                        }
                    } else {
                        if chars_lt(nv[b].name, xv.name) {
                            crate::strutil::lemma_chars_lt_transitive(
                                xv.name,
                                out_views[j as int].name,
                                xv.name,
                            );
                            crate::strutil::lemma_chars_lt_irreflexive(xv.name);
                        }
                    }
                } else if a < j && b > j {
                    assert(nv[a] == out_views[a]);
                    assert(nv[b] == out_views[b - 1]);
                    if j < b - 1 {
                        assert(chars_le(out_views[a].name, out_views[b - 1].name));
                    } else {
                        assert(chars_le(out_views[a].name, xv.name));
                        assert(chars_lt(xv.name, out_views[j as int].name));
                        if chars_lt(nv[b].name, nv[a].name) {
                            crate::strutil::lemma_chars_lt_transitive(
                                out_views[j as int].name,
                                out_views[a].name,
                                xv.name,
                            );
                            crate::strutil::lemma_chars_lt_irreflexive(xv.name);
                        }
                    }
                } else if a < j && b < j {
                    assert(nv[a] == out_views[a]);
                    assert(nv[b] == out_views[b]);
                } else if a > j && b > j {
                    assert(nv[a] == out_views[a - 1]);
                    assert(nv[b] == out_views[b - 1]);
                }
            }
            assert(out@.map_values(|c: CoreTestCase| c@).to_multiset().add(
                input@.map_values(|c: CoreTestCase| c@).to_multiset(),
            ) =~= orig.to_multiset());
        }
    }
    proof {
        broadcast use vstd::seq_lib::group_to_multiset_ensures;

        assert(input@.map_values(|c: CoreTestCase| c@) =~= Seq::<CaseView>::empty());
        assert(out@.map_values(|c: CoreTestCase| c@).to_multiset().add(
            Seq::<CaseView>::empty().to_multiset(),
        ) =~= out@.map_values(|c: CoreTestCase| c@).to_multiset());
    }
    out
}

/// Sort the suites by name, stably; each suite is moved whole.
fn sort_suites(suites: Vec<CoreTestSuite>) -> (r: Vec<CoreTestSuite>)
    ensures
        r@.map_values(|s: CoreTestSuite| essence(s@)).to_multiset() == suites@.map_values(
            |s: CoreTestSuite| essence(s@),
        ).to_multiset(),
        suites_sorted(r@.map_values(|s: CoreTestSuite| s@)),
        (forall|j: int| 0 <= j < suites@.len() ==> cases_sorted((#[trigger] suites@[j])@.cases))
            ==> (forall|j: int| 0 <= j < r@.len() ==> cases_sorted((#[trigger] r@[j])@.cases)),
{
    let ghost orig = suites@.map_values(|s: CoreTestSuite| essence(s@));
    let ghost all_cases_sorted = forall|j: int|
        0 <= j < suites@.len() ==> cases_sorted((#[trigger] suites@[j])@.cases);
    let mut input = suites;
    let mut out: Vec<CoreTestSuite> = Vec::new();
    proof {
        broadcast use vstd::seq_lib::group_to_multiset_ensures;

        assert(out@.map_values(|s: CoreTestSuite| essence(s@)) =~= Seq::<SuiteEssence>::empty());
        assert(Seq::<SuiteEssence>::empty().to_multiset().add(orig.to_multiset())
            =~= orig.to_multiset());
    }
    while input.len() > 0
        invariant
            out@.map_values(|s: CoreTestSuite| essence(s@)).to_multiset().add(
                input@.map_values(|s: CoreTestSuite| essence(s@)).to_multiset(),
            ) == orig.to_multiset(),
            suites_sorted(out@.map_values(|s: CoreTestSuite| s@)),
            all_cases_sorted ==> (forall|j: int|
                0 <= j < out@.len() ==> cases_sorted((#[trigger] out@[j])@.cases)),
            all_cases_sorted ==> (forall|j: int|
                0 <= j < input@.len() ==> cases_sorted((#[trigger] input@[j])@.cases)),
            all_cases_sorted == (forall|j: int|
                0 <= j < suites@.len() ==> cases_sorted((#[trigger] suites@[j])@.cases)),
        decreases input@.len(),
    {
        let ghost in_ess = input@.map_values(|s: CoreTestSuite| essence(s@));
        let ghost out_ess = out@.map_values(|s: CoreTestSuite| essence(s@));
        let ghost out_views = out@.map_values(|s: CoreTestSuite| s@);
        let ghost in_snapshot = input@;
        let x = input.remove(0);
        proof {
            broadcast use vstd::seq_lib::group_to_multiset_ensures;

            assert(input@.map_values(|s: CoreTestSuite| essence(s@)) =~= in_ess.remove(0));
            assert(in_ess.remove(0).to_multiset() =~= in_ess.to_multiset().remove(in_ess[0]));
            assert(essence(x@) == in_ess[0]);
            assert(forall|j: int|
                0 <= j < input@.len() ==> #[trigger] input@[j] == in_snapshot[j + 1]);
        }
        let mut j: usize = 0;
        while j < out.len() && !str_lt(x.name.as_str(), out[j].name.as_str())
            invariant
                j <= out@.len(),
                out_views == out@.map_values(|s: CoreTestSuite| s@),
                forall|k: int| 0 <= k < j ==> chars_le((#[trigger] out_views[k]).name, x@.name),
            decreases out@.len() - j,
        {
            proof {
                assert(out_views[j as int].name == out@[j as int]@.name);
            }
            j = j + 1;
        }
        proof {
            assert(j < out@.len() ==> out_views[j as int] == out@[j as int]@);
            assert(j as int == out_views.len() || chars_lt(x@.name, out_views[j as int].name));
        }
        let ghost xv = x@;
        let ghost out_pre = out@;
        out.insert(j, x);
        proof {
            broadcast use vstd::seq_lib::group_to_multiset_ensures;

            assert(out@.map_values(|s: CoreTestSuite| essence(s@)) =~= out_ess.insert(
                j as int,
                essence(xv),
            ));
            assert(out@.map_values(|s: CoreTestSuite| s@) =~= out_views.insert(j as int, xv));
            crate::sequtil::lemma_to_multiset_insert(out_ess, j as int, essence(xv));
            let nv = out_views.insert(j as int, xv);
            assert forall|k: int| 0 <= k < j implies nv[k] == out_views[k] by {}
            assert(nv[j as int] == xv);
            assert forall|k: int| j < k < nv.len() implies nv[k] == out_views[k - 1] by {}
            assert forall|a: int, b: int| 0 <= a < b < nv.len() implies chars_le(
                (#[trigger] nv[a]).name,
                (#[trigger] nv[b]).name,
            ) by {
                if a < j && b == j {
                    assert(nv[a] == out_views[a]);
                    assert(nv[b] == xv);
                } else if a == j && b > j {
                    assert(nv[a] == xv);
                    assert(nv[b] == out_views[b - 1]);
                    assert(chars_lt(xv.name, out_views[j as int].name));
                    if b - 1 > j {
                        assert(chars_le(out_views[j as int].name, out_views[b - 1].name));
                        if chars_lt(nv[b].name, xv.name) {
                            crate::strutil::lemma_chars_lt_transitive(
                                out_views[b - 1].name,
                                xv.name,
                                out_views[j as int].name,
                            );
                            crate::strutil::lemma_chars_lt_irreflexive(out_views[b - 1].name);
                        }
                    } else {
                        if chars_lt(nv[b].name, xv.name) {
                            crate::strutil::lemma_chars_lt_transitive(
                                xv.name,
                                out_views[j as int].name,
                                xv.name,
                            );
                            crate::strutil::lemma_chars_lt_irreflexive(xv.name);
                        }
                    }
                } else if a < j && b > j {
                    assert(nv[a] == out_views[a]);
                    assert(nv[b] == out_views[b - 1]);
                    if j < b - 1 {
                        assert(chars_le(out_views[a].name, out_views[b - 1].name));
                    } else {
                        assert(chars_le(out_views[a].name, xv.name));
                        assert(chars_lt(xv.name, out_views[j as int].name));
                        if chars_lt(nv[b].name, nv[a].name) {
                            crate::strutil::lemma_chars_lt_transitive(
                                out_views[j as int].name,
                                out_views[a].name,
                                xv.name,
                            );
                            crate::strutil::lemma_chars_lt_irreflexive(xv.name);
                        }
                    }
                } else if a < j && b < j {
                    assert(nv[a] == out_views[a]);
                    assert(nv[b] == out_views[b]);
                } else if a > j && b > j {
                    assert(nv[a] == out_views[a - 1]);
                    assert(nv[b] == out_views[b - 1]);
                }
            }
            if all_cases_sorted {
                assert(cases_sorted(in_snapshot[0]@.cases));
                assert forall|k: int| 0 <= k < out@.len() implies cases_sorted(
                    (#[trigger] out@[k])@.cases,
                ) by {
                    if k < j {
                        assert(out@[k] == out_pre[k]);
                    } else if k == j {
                        assert(out@[k] == in_snapshot[0]);
                    } else {
                        assert(out@[k] == out_pre[k - 1]);
                    }
                }
            }
            assert(out@.map_values(|s: CoreTestSuite| essence(s@)).to_multiset().add(
                input@.map_values(|s: CoreTestSuite| essence(s@)).to_multiset(),
            ) =~= orig.to_multiset());
        }
    }
    proof {
        broadcast use vstd::seq_lib::group_to_multiset_ensures;

        assert(input@.map_values(|s: CoreTestSuite| essence(s@)) =~= Seq::<SuiteEssence>::empty());
        assert(out@.map_values(|s: CoreTestSuite| essence(s@)).to_multiset().add(
            Seq::<SuiteEssence>::empty().to_multiset(),
        ) =~= out@.map_values(|s: CoreTestSuite| essence(s@)).to_multiset());
    }
    out
}

impl CoreReport {
    /// Order the report deterministically: suites by name, cases within
    /// each suite by name, both stably. Nothing else changes: every count,
    /// name and case survives, so two reports of the same run compare equal
    /// once sorted, whatever order their runner emitted.
    pub fn sort(self) -> (r: CoreReport)
        ensures
            r@.name == self@.name,
            r@.disabled == self@.disabled,
            r@.errors == self@.errors,
            r@.failures == self@.failures,
            r@.tests == self@.tests,
            r@.time_millis == self@.time_millis,
            r@.timestamp == self@.timestamp,
            r@.suites.map_values(|s: SuiteView| essence(s)).to_multiset()
                == self@.suites.map_values(|s: SuiteView| essence(s)).to_multiset(),
            suites_sorted(r@.suites),
            forall|j: int| 0 <= j < r@.suites.len() ==> cases_sorted((#[trigger] r@.suites[j]).cases),
    {
        let CoreReport {
            name,
            disabled,
            errors,
            failures,
            tests,
            testsuites,
            time_millis,
            timestamp,
        } = self;
        let ghost orig_suites = testsuites@;
        let mut mid: Vec<CoreTestSuite> = Vec::new();
        let mut i: usize = 0;
        while i < testsuites.len()
            invariant
                i == mid@.len() <= testsuites@.len(),
                forall|k: int|
                    0 <= k < i ==> essence((#[trigger] mid@[k])@) == essence(testsuites@[k]@)
                        && cases_sorted(mid@[k]@.cases),
            decreases testsuites@.len() - i,
        {
            let s = &testsuites[i];
            let CoreTestSuite {
                name: sname,
                tests: stests,
                disabled: sdisabled,
                errors: serrors,
                failures: sfailures,
                testcases,
                time_millis: stime,
                timestamp: stimestamp,
            } = s.clone();
            let sorted_cases = sort_cases(testcases);
            let ns = CoreTestSuite {
                name: sname,
                tests: stests,
                disabled: sdisabled,
                errors: serrors,
                failures: sfailures,
                testcases: sorted_cases,
                time_millis: stime,
                timestamp: stimestamp,
            };
            proof {
                assert(essence(ns@) == essence(testsuites@[i as int]@));
            }
            mid.push(ns);
            i = i + 1;
        }
        proof {
            assert(mid@.map_values(|s: CoreTestSuite| essence(s@)) =~= testsuites@.map_values(
                |s: CoreTestSuite| essence(s@),
            ));
        }
        let sorted = sort_suites(mid);
        let r = CoreReport {
            name,
            disabled,
            errors,
            failures,
            tests,
            testsuites: sorted,
            time_millis,
            timestamp,
        };
        proof {
            assert(r@.suites.map_values(|s: SuiteView| essence(s)) =~= r.testsuites@.map_values(
                |s: CoreTestSuite| essence(s@),
            ));
            assert(self@.suites.map_values(|s: SuiteView| essence(s))
                =~= orig_suites.map_values(|s: CoreTestSuite| essence(s@)));
            assert(suites_sorted(r@.suites)) by {
                assert(r@.suites =~= r.testsuites@.map_values(|s: CoreTestSuite| s@));
            }
            assert forall|j: int| 0 <= j < r@.suites.len() implies cases_sorted(
                (#[trigger] r@.suites[j]).cases,
            ) by {
                assert(r@.suites[j] == r.testsuites@[j]@);
            }
        }
        r
    }
}

} // verus!
