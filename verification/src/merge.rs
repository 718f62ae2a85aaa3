//! The report merger: overlays one run's outcome onto the current catalog,
//! so that the merged report shows every known case — the ones that ran with
//! their real status, and the ones that did not run as `Unknown`.
//!
//! Cases are matched by identity: a report case stands for the catalog entry
//! whose identifier equals the one computed from the report's suite name and
//! the case's own name. Merging is purely additive — it never removes or
//! alters a case of the partial outcome.

use crate::catalog::AvailableTests;
use crate::catalog::GroupView;
use crate::catalog::lemma_wf_cases;
use crate::identity::case_id_from_names;
use crate::identity::case_id_of;
use crate::identity::FqView;
use crate::report::CaseView;
use crate::report::CoreReport;
use crate::report::CoreStatus;
use crate::report::CoreTestCase;
use crate::report::CoreTestSuite;
use crate::report::FailureView;
use crate::report::ReportView;
use crate::report::SuiteView;
use crate::result::Reason;
use crate::result::ReasonView;
use crate::result::ResultView;
use crate::result::TestResult;
use crate::strutil::str_eq;
use vstd::prelude::*;

verus! {

/// Whether the suite holds a case whose computed identity is `id`.
pub open spec fn suite_has_id(s: SuiteView, id: u64) -> bool {
    exists|k: int|
        0 <= k < s.cases.len() && case_id_of(s.name, (#[trigger] s.cases[k]).name) == id
}

/// A case that stands for a catalog entry that did not run: status
/// `Unknown`, no failures, and name and identity taken from the catalog.
pub open spec fn case_unknown_from_catalog(
    suite_name: Seq<char>,
    c: CaseView,
    a: Seq<FqView>,
) -> bool {
    &&& c.status == CoreStatus::Unknown
    &&& c.failures.len() == 0
    &&& exists|i: int|
        0 <= i < a.len() && (#[trigger] a[i]).suite == suite_name && a[i].case == c.name
            && c.fqtc == Some(a[i].id)
}

/// The merged form of a suite that was present in the partial outcome: all
/// its fields and ran cases are kept exactly, and only catalog cases that
/// did not run are appended after them.
pub open spec fn suite_extends(p: SuiteView, f: SuiteView, a: Seq<FqView>) -> bool {
    &&& f.name == p.name
    &&& f.tests == p.tests
    &&& f.disabled == p.disabled
    &&& f.errors == p.errors
    &&& f.failures == p.failures
    &&& f.time_millis == p.time_millis
    &&& f.timestamp == p.timestamp
    &&& f.cases.len() >= p.cases.len()
    &&& forall|k: int| 0 <= k < p.cases.len() ==> #[trigger] f.cases[k] == p.cases[k]
    &&& forall|k: int|
        p.cases.len() <= k < f.cases.len() ==> case_unknown_from_catalog(
            f.name,
            #[trigger] f.cases[k],
            a,
        )
    &&& forall|k1: int, k2: int|
        0 <= k1 < k2 < f.cases.len() && p.cases.len() <= k2 ==> case_id_of(
            f.name,
            (#[trigger] f.cases[k1]).name,
        ) != case_id_of(f.name, (#[trigger] f.cases[k2]).name)
}

/// A suite that exists only because the catalog knows it: it declares no
/// counts and holds only catalog cases that did not run.
pub open spec fn new_suite_from_catalog(s: SuiteView, a: Seq<FqView>) -> bool {
    &&& s.tests == 0
    &&& s.disabled is None
    &&& s.errors is None
    &&& s.failures is None
    &&& s.time_millis is None
    &&& s.timestamp is None
    &&& s.cases.len() > 0
    &&& forall|k: int|
        0 <= k < s.cases.len() ==> case_unknown_from_catalog(s.name, #[trigger] s.cases[k], a)
    &&& forall|k1: int, k2: int|
        0 <= k1 < k2 < s.cases.len() ==> case_id_of(s.name, (#[trigger] s.cases[k1]).name)
            != case_id_of(s.name, (#[trigger] s.cases[k2]).name)
}

/// The catalog entry `v` is visible in the report: some suite carries its
/// suite name and holds a case with its identity.
pub open spec fn entry_covered(f: ReportView, v: FqView) -> bool {
    exists|j: int|
        0 <= j < f.suites.len() && (#[trigger] f.suites[j]).name == v.suite && suite_has_id(
            f.suites[j],
            v.id,
        )
}

/// What merging promises: the partial outcome is kept exactly — fields,
/// suites, ran cases — with catalog-only cases and suites appended as
/// `Unknown`, and every catalog entry visible in the result. An empty
/// catalog leaves the outcome untouched.
pub open spec fn merged_report(p: ReportView, a: Seq<FqView>, f: ReportView) -> bool {
    &&& f.name == p.name
    &&& f.disabled == p.disabled
    &&& f.errors == p.errors
    &&& f.failures == p.failures
    &&& f.tests == p.tests
    &&& f.time_millis == p.time_millis
    &&& f.timestamp == p.timestamp
    &&& f.suites.len() >= p.suites.len()
    &&& forall|j: int|
        0 <= j < p.suites.len() ==> suite_extends(p.suites[j], #[trigger] f.suites[j], a)
    &&& forall|j: int|
        p.suites.len() <= j < f.suites.len() ==> new_suite_from_catalog(#[trigger] f.suites[j], a)
    &&& forall|i: int| 0 <= i < a.len() ==> entry_covered(f, #[trigger] a[i])
    &&& (a.len() == 0 ==> f == p)
}

/// Find a suite of the report by name.
fn find_test_suite(report: &CoreReport, name: &str) -> (r: Option<usize>)
    ensures
        match r {
            Some(j) => j < report@.suites.len() && report@.suites[j as int].name == name@,
            None => forall|j: int|
                0 <= j < report@.suites.len() ==> (#[trigger] report@.suites[j]).name != name@,
        },
{
    let mut j: usize = 0;
    while j < report.testsuites.len()
        invariant
            j <= report.testsuites@.len(),
            report@.suites.len() == report.testsuites@.len(),
            forall|k: int| 0 <= k < j ==> (#[trigger] report@.suites[k]).name != name@,
        decreases report.testsuites@.len() - j,
    {
        if str_eq(report.testsuites[j].name.as_str(), name) {
            proof {
                assert(report@.suites[j as int] == report.testsuites@[j as int]@);
            }
            return Some(j);
        }
        proof {
            assert(report@.suites[j as int] == report.testsuites@[j as int]@);
        }
        j = j + 1;
    }
    None
}

/// Find a case of the suite by identity: the identifier computed from the
/// suite's name and the case's name.
fn find_test_case(suite: &CoreTestSuite, id: u64) -> (r: bool)
    ensures
        r == suite_has_id(suite@, id),
{
    let mut k: usize = 0;
    while k < suite.testcases.len()
        invariant
            k <= suite.testcases@.len(),
            suite@.cases.len() == suite.testcases@.len(),
            forall|k2: int|
                0 <= k2 < k ==> case_id_of(suite@.name, (#[trigger] suite@.cases[k2]).name) != id,
        decreases suite.testcases@.len() - k,
    {
        proof {
            assert(suite@.cases[k as int] == suite.testcases@[k as int]@);
        }
        let cid = case_id_from_names(suite.name.as_str(), suite.testcases[k].name.as_str());
        if cid == id {
            return true;
        }
        k = k + 1;
    }
    false
}

/// A fresh `Unknown` case standing for the catalog entry `(suite, case, id)`.
fn unknown_case(name: String, id: u64) -> (r: CoreTestCase)
    ensures
        r@.name == name@,
        r@.classname is None,
        r@.status == CoreStatus::Unknown,
        r@.time_millis is None,
        r@.failures.len() == 0,
        r@.failures == Seq::<FailureView>::empty(),
        r@.fqtc == Some(id),
{
    let r = CoreTestCase {
        name,
        classname: None,
        status: CoreStatus::Unknown,
        time_millis: None,
        failures: Vec::new(),
        fqtc: Some(crate::identity::FullyQualifiedTestCaseId(id)),
    };
    proof {
        assert(r@.failures =~= Seq::<FailureView>::empty());
    }
    r
}

/// Overlay the catalog onto a partial report: every catalog case that the
/// report does not cover (matched by identity) is appended as `Unknown`,
/// in its own suite when the report does not know the suite at all.
pub fn generate_complete_report(partial: &CoreReport, available: &AvailableTests) -> (full:
    CoreReport)
    requires
        available.wf(),
    ensures
        merged_report(partial@, available.list_view(), full@),
{
    let mut full = partial.clone();
    let ghost pv = partial@;
    let ghost a = available.list_view();
    proof {
        lemma_wf_cases(available);
    }
    let list = available.iter();
    let n = list.len();
    let mut i: usize = 0;
    while i < n
        invariant
            i <= n,
            n == list@.len(),
            crate::catalog::fq_views(list@) == a,
            forall|i2: int| 0 <= i2 < a.len() ==> (#[trigger] a[i2]).wf(),
            pv == partial@,
            full@.name == pv.name,
            full@.disabled == pv.disabled,
            full@.errors == pv.errors,
            full@.failures == pv.failures,
            full@.tests == pv.tests,
            full@.time_millis == pv.time_millis,
            full@.timestamp == pv.timestamp,
            full@.suites.len() >= pv.suites.len(),
            forall|j: int|
                0 <= j < pv.suites.len() ==> suite_extends(pv.suites[j], #[trigger] full@.suites[j], a),
            forall|j: int|
                pv.suites.len() <= j < full@.suites.len() ==> new_suite_from_catalog(
                    #[trigger] full@.suites[j],
                    a,
                ),
            forall|i2: int| 0 <= i2 < i ==> entry_covered(full@, #[trigger] a[i2]),
            i == 0 ==> full@ == pv,
        decreases n - i,
    {
        proof {
            assert(a[i as int] == list@[i as int]@);
        }
        let fqtc = &list[i];
        let ghost v = fqtc@;
        let found = find_test_suite(&full, fqtc.test_suite.0.as_str());
        match found {
            Some(j) => {
                let missing = !find_test_case(&full.testsuites[j], fqtc.id.0);
                proof {
                    assert(full@.suites[j as int] == full.testsuites@[j as int]@);
                }
                if missing {
                    let ghost old_full = full@;
                    let mut s = full.testsuites.remove(j);
                    let ghost old_s = s@;
                    let c = unknown_case(fqtc.test_case.0.clone(), fqtc.id.0);
                    s.testcases.push(c);
                    proof {
                        assert(s@.cases =~= old_s.cases.push(c@));
                    }
                    full.testsuites.insert(j, s);
                    proof {
                        assert(full@.suites =~= old_full.suites.update(j as int, s@));
                        let sv = s@;
                        let ghost jj = j as int;
                        assert(sv.name == v.suite);
                        assert(case_unknown_from_catalog(sv.name, c@, a)) by {
                            assert(a[i as int].suite == sv.name && a[i as int].case == c@.name
                                && c@.fqtc == Some(a[i as int].id));
                        }
                        assert forall|j2: int|
                            0 <= j2 < pv.suites.len() implies suite_extends(
                            pv.suites[j2],
                            #[trigger] full@.suites[j2],
                            a,
                        ) by {
                            if j2 == jj {
                                let p2 = pv.suites[j2];
                                assert(suite_extends(p2, old_full.suites[j2], a));
                                assert forall|k: int|
                                    p2.cases.len() <= k < sv.cases.len() implies case_unknown_from_catalog(
                                    sv.name,
                                    #[trigger] sv.cases[k],
                                    a,
                                ) by {
                                    if k < old_s.cases.len() {
                                        assert(sv.cases[k] == old_s.cases[k]);
                                    } else {
                                        assert(sv.cases[k] == c@);
                                    }
                                }
                            }
                        }
                        assert forall|j2: int|
                            pv.suites.len() <= j2 < full@.suites.len() implies new_suite_from_catalog(
                            #[trigger] full@.suites[j2],
                            a,
                        ) by {
                            if j2 == jj {
                                assert(new_suite_from_catalog(old_full.suites[j2], a));
                                assert forall|k: int|
                                    0 <= k < sv.cases.len() implies case_unknown_from_catalog(
                                    sv.name,
                                    #[trigger] sv.cases[k],
                                    a,
                                ) by {
                                    if k < old_s.cases.len() {
                                        assert(sv.cases[k] == old_s.cases[k]);
                                    } else {
                                        assert(sv.cases[k] == c@);
                                    }
                                }
                            }
                        }
                        assert forall|i2: int| 0 <= i2 < i + 1 implies entry_covered(
                            full@,
                            #[trigger] a[i2],
                        ) by {
                            if i2 < i {
                                assert(entry_covered(old_full, a[i2]));
                                let j2 = choose|j2: int|
                                    0 <= j2 < old_full.suites.len() && (#[trigger] old_full.suites[
                                        j2]).name == a[i2].suite && suite_has_id(
                                        old_full.suites[j2],
                                        a[i2].id,
                                    );
                                if j2 != jj {
                                    assert(full@.suites[j2] == old_full.suites[j2]);
                                } else {
                                    let k = choose|k: int|
                                        0 <= k < old_full.suites[j2].cases.len() && case_id_of(
                                            old_full.suites[j2].name,
                                            (#[trigger] old_full.suites[j2].cases[k]).name,
                                        ) == a[i2].id;
                                    assert(sv.cases[k] == old_s.cases[k]);
                                    assert(case_id_of(sv.name, sv.cases[k].name) == a[i2].id);
                                    assert(suite_has_id(full@.suites[j2], a[i2].id));
                                }
                            } else {
                                assert(a[i2] == v);
                                assert(v.wf());
                                let k = sv.cases.len() - 1;
                                assert(sv.cases[k] == c@);
                                assert(case_id_of(sv.name, c@.name) == v.id);
                                assert(suite_has_id(full@.suites[jj], v.id));
                            }
                        }
                    }
                } else {
                    proof {
                        assert forall|i2: int| 0 <= i2 < i + 1 implies entry_covered(
                            full@,
                            #[trigger] a[i2],
                        ) by {
                            if i2 == i {
                                assert(a[i2] == v);
                                assert(full@.suites[j as int].name == v.suite);
                                assert(suite_has_id(full@.suites[j as int], v.id));
                            }
                        }
                    }
                }
            },
            None => {
                let ghost old_full = full@;
                let c = unknown_case(fqtc.test_case.0.clone(), fqtc.id.0);
                let mut cases: Vec<CoreTestCase> = Vec::new();
                cases.push(c);
                let s = CoreTestSuite {
                    name: fqtc.test_suite.0.clone(),
                    tests: 0,
                    disabled: None,
                    errors: None,
                    failures: None,
                    testcases: cases,
                    time_millis: None,
                    timestamp: None,
                };
                proof {
                    assert(s@.cases =~= seq![c@]);
                }
                full.testsuites.push(s);
                proof {
                    assert(full@.suites =~= old_full.suites.push(s@));
                    let sv = s@;
                    assert(case_unknown_from_catalog(sv.name, c@, a)) by {
                        assert(a[i as int].suite == sv.name && a[i as int].case == c@.name
                            && c@.fqtc == Some(a[i as int].id));
                    }
                    assert(new_suite_from_catalog(sv, a));
                    assert forall|i2: int| 0 <= i2 < i + 1 implies entry_covered(
                        full@,
                        #[trigger] a[i2],
                    ) by {
                        if i2 < i {
                            assert(entry_covered(old_full, a[i2]));
                            let j2 = choose|j2: int|
                                0 <= j2 < old_full.suites.len() && (#[trigger] old_full.suites[
                                    j2]).name == a[i2].suite && suite_has_id(
                                    old_full.suites[j2],
                                    a[i2].id,
                                );
                            assert(full@.suites[j2] == old_full.suites[j2]);
                        } else {
                            assert(a[i2] == v);
                            assert(v.wf());
                            let jj = full@.suites.len() - 1;
                            assert(full@.suites[jj] == sv);
                            assert(sv.cases[0] == c@);
                            assert(case_id_of(sv.name, c@.name) == v.id);
                            assert(suite_has_id(sv, v.id));
                        }
                    }
                }
            },
        }
        i = i + 1;
    }
    full
}

// --- the catalog as a report of its own ---

/// The case a catalog entry projects to: `Unknown`, with its identity set.
pub open spec fn skeleton_case(v: FqView) -> CaseView {
    CaseView {
        name: v.case,
        classname: None,
        status: CoreStatus::Unknown,
        time_millis: None,
        failures: Seq::empty(),
        fqtc: Some(v.id),
    }
}

/// The suite a catalog group projects to.
pub open spec fn skeleton_suite(g: GroupView) -> SuiteView {
    SuiteView {
        name: g.name,
        tests: 0,
        disabled: None,
        errors: None,
        failures: None,
        cases: g.cases.map_values(|v: FqView| skeleton_case(v)),
        time_millis: None,
        timestamp: None,
    }
}

/// The report a whole catalog projects to: one suite per catalog suite, in
/// ascending name order, every case `Unknown`.
pub open spec fn skeleton_report_view(groups: Seq<GroupView>) -> ReportView {
    ReportView {
        name: None,
        disabled: None,
        errors: None,
        failures: None,
        tests: None,
        suites: groups.map_values(|g: GroupView| skeleton_suite(g)),
        time_millis: None,
        timestamp: None,
    }
}

/// Project the catalog to a report that shows what is available before any
/// run: every known case, all `Unknown`.
pub fn to_skeleton_report(available: &AvailableTests) -> (r: CoreReport)
    ensures
        r@ == skeleton_report_view(available.groups_view()),
{
    let groups = available.test_suites();
    let mut testsuites: Vec<CoreTestSuite> = Vec::new();
    let mut j: usize = 0;
    while j < groups.len()
        invariant
            j <= groups@.len(),
            groups@.map_values(|g: crate::catalog::SuiteGroup| g@) == available.groups_view(),
            testsuites@.len() == j,
            forall|j2: int|
                0 <= j2 < j ==> #[trigger] testsuites@[j2]@ == skeleton_suite(
                    available.groups_view()[j2],
                ),
        decreases groups@.len() - j,
    {
        let g = &groups[j];
        let mut testcases: Vec<CoreTestCase> = Vec::new();
        let mut k: usize = 0;
        while k < g.cases.len()
            invariant
                k <= g.cases@.len(),
                testcases@.len() == k,
                forall|k2: int|
                    0 <= k2 < k ==> #[trigger] testcases@[k2]@ == skeleton_case(g@.cases[k2]),
            decreases g.cases@.len() - k,
        {
            proof {
                assert(g@.cases[k as int] == g.cases@[k as int]@);
            }
            let c = unknown_case(g.cases[k].test_case.0.clone(), g.cases[k].id.0);
            proof {
                assert(c@ == skeleton_case(g@.cases[k as int]));
            }
            testcases.push(c);
            k = k + 1;
        }
        let s = CoreTestSuite {
            name: g.name.clone(),
            tests: 0,
            disabled: None,
            errors: None,
            failures: None,
            testcases,
            time_millis: None,
            timestamp: None,
        };
        proof {
            assert(s@.cases =~= g@.cases.map_values(|v: FqView| skeleton_case(v)));
            assert(g@ == available.groups_view()[j as int]);
        }
        testsuites.push(s);
        j = j + 1;
    }
    let r = CoreReport {
        name: None,
        disabled: None,
        errors: None,
        failures: None,
        tests: None,
        testsuites,
        time_millis: None,
        timestamp: None,
    };
    proof {
        assert(r@.suites =~= skeleton_report_view(available.groups_view()).suites);
    }
    r
}

// --- merging at the outcome level ---

/// The merged form of a reason: a report is completed against the catalog,
/// any other reason is kept as it is.
pub open spec fn merged_reason(p: ReasonView, a: Seq<FqView>, f: ReasonView) -> bool {
    match p {
        ReasonView::Report(rep) => f matches ReasonView::Report(m) && merged_report(rep, a, m),
        _ => f == p,
    }
}

/// The merged form of an outcome: the verdict is kept, its reason merged.
pub open spec fn merged_result(p: ResultView, a: Seq<FqView>, f: ResultView) -> bool {
    match p {
        ResultView::Pass(pr) => f matches ResultView::Pass(fr) && merged_reason(pr, a, fr),
        ResultView::Fail(pr) => f matches ResultView::Fail(fr) && merged_reason(pr, a, fr),
    }
}

/// Complete a reason against the catalog.
pub fn generate_complete_reason(partial: &Reason, available: &AvailableTests) -> (r: Reason)
    requires
        available.wf(),
    ensures
        merged_reason(partial@, available.list_view(), r@),
{
    match partial {
        Reason::Report(report) => Reason::Report(generate_complete_report(report, available)),
        other => other.clone(),
    }
}

/// Complete an outcome against the catalog: the verdict stands, the report
/// inside it is completed.
pub fn generate_complete_result(partial: &TestResult, available: &AvailableTests) -> (r:
    TestResult)
    requires
        available.wf(),
    ensures
        merged_result(partial@, available.list_view(), r@),
{
    match partial {
        TestResult::Pass(reason) => TestResult::Pass(
            generate_complete_reason(reason, available),
        ),
        TestResult::Fail(reason) => TestResult::Fail(
            generate_complete_reason(reason, available),
        ),
    }
}

/// Merge the latest outcome and the latest catalog into what the observer
/// should display. With both present the outcome is completed against the
/// catalog; with only an outcome it is shown as it is; with only a catalog
/// its skeleton is shown as a pass (nothing ran, nothing failed); with
/// neither there is nothing to show.
pub fn merge_available_tests_and_result(
    test_result: &Option<TestResult>,
    available_tests: &Option<AvailableTests>,
) -> (r: Option<TestResult>)
    requires
        match available_tests {
            Some(a) => a.wf(),
            None => true,
        },
    ensures
        match test_result {
            Some(tr) => match available_tests {
                Some(a) => r matches Some(x) && merged_result(tr@, a.list_view(), x@),
                None => r matches Some(x) && x@ == tr@,
            },
            None => match available_tests {
                Some(a) => r matches Some(x) && x@ == ResultView::Pass(
                    ReasonView::Report(skeleton_report_view(a.groups_view())),
                ),
                None => r is None,
            },
        },
{
    match test_result {
        Some(tr) => match available_tests {
            Some(a) => Some(generate_complete_result(tr, a)),
            None => Some(tr.clone()),
        },
        None => match available_tests {
            Some(a) => {
                let report = to_skeleton_report(a);
                let result = TestResult::Pass(Reason::Report(report));
                Some(result)
            },
            None => None,
        },
    }
}

// --- laws ---

/// Merging with an empty catalog changes nothing: the merged outcome is the
/// partial outcome, whatever it was.
pub proof fn lemma_merge_empty_catalog(p: ResultView, a: Seq<FqView>, f: ResultView)
    requires
        merged_result(p, a, f),
        a.len() == 0,
    ensures
        f == p,
{
}

/// The identities a suite's cases cover.
pub open spec fn suite_ids(s: SuiteView) -> Set<u64> {
    Set::new(|id: u64| suite_has_id(s, id))
}

/// The identities a report's cases cover, across all its suites.
pub open spec fn report_ids(r: ReportView) -> Set<u64> {
    Set::new(
        |id: u64| exists|j: int| 0 <= j < r.suites.len() && suite_has_id(#[trigger] r.suites[j], id),
    )
}

/// The identities a catalog lists.
pub open spec fn catalog_ids(a: Seq<FqView>) -> Set<u64> {
    Set::new(|id: u64| exists|i: int| 0 <= i < a.len() && (#[trigger] a[i]).id == id)
}

/// Merging is additive. Every case of the partial outcome is kept exactly,
/// status included; every case the merge added shows as `Unknown` and
/// carries an identity that no earlier case of its suite carries; and the
/// identities covered by the merged report are exactly those of the partial
/// outcome together with those of the catalog.
pub proof fn lemma_merge_additivity(p: ReportView, a: Seq<FqView>, f: ReportView)
    requires
        merged_report(p, a, f),
        forall|i: int| 0 <= i < a.len() ==> (#[trigger] a[i]).wf(),
    ensures
        forall|j: int, k: int|
            0 <= j < p.suites.len() && 0 <= k < p.suites[j].cases.len()
                ==> #[trigger] f.suites[j].cases[k] == p.suites[j].cases[k],
        forall|j: int, k: int|
            0 <= j < f.suites.len() && 0 <= k < f.suites[j].cases.len() && !(j < p.suites.len()
                && k < p.suites[j].cases.len()) ==> (#[trigger] f.suites[j].cases[k]).status
                == CoreStatus::Unknown,
        forall|j: int, k1: int, k2: int|
            0 <= j < f.suites.len() && 0 <= k1 < k2 < f.suites[j].cases.len() && !(j
                < p.suites.len() && k2 < p.suites[j].cases.len()) ==> case_id_of(
                f.suites[j].name,
                (#[trigger] f.suites[j].cases[k1]).name,
            ) != case_id_of(f.suites[j].name, (#[trigger] f.suites[j].cases[k2]).name),
        report_ids(f) == report_ids(p).union(catalog_ids(a)),
{
    assert forall|j: int, k1: int, k2: int|
        0 <= j < f.suites.len() && 0 <= k1 < k2 < f.suites[j].cases.len() && !(j < p.suites.len()
            && k2 < p.suites[j].cases.len()) implies case_id_of(
        f.suites[j].name,
        (#[trigger] f.suites[j].cases[k1]).name,
    ) != case_id_of(f.suites[j].name, (#[trigger] f.suites[j].cases[k2]).name) by {
        if j < p.suites.len() {
            assert(suite_extends(p.suites[j], f.suites[j], a));
        } else {
            assert(new_suite_from_catalog(f.suites[j], a));
        }
    }
    assert forall|j: int, k: int|
        0 <= j < p.suites.len() && 0 <= k < p.suites[j].cases.len()
            implies #[trigger] f.suites[j].cases[k] == p.suites[j].cases[k] by {
        assert(suite_extends(p.suites[j], f.suites[j], a));
    }
    assert forall|j: int, k: int|
        0 <= j < f.suites.len() && 0 <= k < f.suites[j].cases.len() && !(j < p.suites.len()
            && k < p.suites[j].cases.len()) implies (#[trigger] f.suites[j].cases[k]).status
        == CoreStatus::Unknown by {
        if j < p.suites.len() {
            assert(suite_extends(p.suites[j], f.suites[j], a));
            assert(case_unknown_from_catalog(f.suites[j].name, f.suites[j].cases[k], a));
        } else {
            assert(new_suite_from_catalog(f.suites[j], a));
            assert(case_unknown_from_catalog(f.suites[j].name, f.suites[j].cases[k], a));
        }
    }
    assert forall|id: u64| report_ids(f).contains(id) implies report_ids(p).union(
        catalog_ids(a),
    ).contains(id) by {
        let j = choose|j: int| 0 <= j < f.suites.len() && suite_has_id(#[trigger] f.suites[j], id);
        let k = choose|k: int|
            0 <= k < f.suites[j].cases.len() && case_id_of(
                f.suites[j].name,
                (#[trigger] f.suites[j].cases[k]).name,
            ) == id;
        if j < p.suites.len() {
            assert(suite_extends(p.suites[j], f.suites[j], a));
            if k < p.suites[j].cases.len() {
                assert(f.suites[j].cases[k] == p.suites[j].cases[k]);
                assert(suite_has_id(p.suites[j], id));
                assert(report_ids(p).contains(id));
            } else {
                assert(case_unknown_from_catalog(f.suites[j].name, f.suites[j].cases[k], a));
                let i = choose|i: int|
                    0 <= i < a.len() && (#[trigger] a[i]).suite == f.suites[j].name && a[i].case
                        == f.suites[j].cases[k].name && f.suites[j].cases[k].fqtc == Some(a[i].id);
                assert(a[i].wf());
                assert(a[i].id == id);
                assert(catalog_ids(a).contains(id));
            }
        } else {
            assert(new_suite_from_catalog(f.suites[j], a));
            assert(case_unknown_from_catalog(f.suites[j].name, f.suites[j].cases[k], a));
            let i = choose|i: int|
                0 <= i < a.len() && (#[trigger] a[i]).suite == f.suites[j].name && a[i].case
                    == f.suites[j].cases[k].name && f.suites[j].cases[k].fqtc == Some(a[i].id);
            assert(a[i].wf());
            assert(a[i].id == id);
            assert(catalog_ids(a).contains(id));
        }
    }
    assert forall|id: u64| report_ids(p).union(catalog_ids(a)).contains(id) implies report_ids(
        f,
    ).contains(id) by {
        if report_ids(p).contains(id) {
            let j = choose|j: int|
                0 <= j < p.suites.len() && suite_has_id(#[trigger] p.suites[j], id);
            let k = choose|k: int|
                0 <= k < p.suites[j].cases.len() && case_id_of(
                    p.suites[j].name,
                    (#[trigger] p.suites[j].cases[k]).name,
                ) == id;
            assert(suite_extends(p.suites[j], f.suites[j], a));
            assert(f.suites[j].cases[k] == p.suites[j].cases[k]);
            assert(suite_has_id(f.suites[j], id));
        } else {
            let i = choose|i: int| 0 <= i < a.len() && (#[trigger] a[i]).id == id;
            assert(entry_covered(f, a[i]));
        }
    }
    assert(report_ids(f) =~= report_ids(p).union(catalog_ids(a)));
}

} // verus!
