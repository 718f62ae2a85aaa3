//! The catalog of tests a runner claims to expose, independent of any run
//! outcome.
//!
//! A catalog keeps two views of the same data: the flat list of fully
//! qualified cases in encounter order, and a suite-indexed view whose suites
//! are kept in ascending name order, each with its cases in encounter order.
//! A scan builds a fresh catalog; it is never mutated afterwards.

use crate::identity::FqView;
use crate::identity::FullyQualifiedTestCase;
use crate::identity::TestCase;
use crate::identity::TestSuite;
use crate::strutil::chars_lt;
use crate::strutil::lemma_chars_lt_irreflexive;
use crate::strutil::lemma_chars_lt_total;
use crate::strutil::lemma_chars_lt_transitive;
use crate::strutil::str_eq;
use crate::strutil::str_lt;
use vstd::prelude::*;
use vstd::seq_lib::*;

verus! {

/// One suite of the suite-indexed view: a suite name and the cases the
/// catalog holds for it, in encounter order.
#[derive(Debug)]
pub struct SuiteGroup {
    pub name: String,
    pub cases: Vec<FullyQualifiedTestCase>,
}

/// The mathematical content of one suite of the view.
pub ghost struct GroupView {
    pub name: Seq<char>,
    pub cases: Seq<FqView>,
}

impl View for SuiteGroup {
    type V = GroupView;

    open spec fn view(&self) -> GroupView {
        GroupView { name: self.name@, cases: fq_views(self.cases@) }
    }
}

/// The views of a sequence of fully qualified test cases.
pub open spec fn fq_views(s: Seq<FullyQualifiedTestCase>) -> Seq<FqView> {
    s.map_values(|f: FullyQualifiedTestCase| f@)
}

/// The cases of `list` that belong to the suite called `name`, in order.
pub open spec fn suite_cases(list: Seq<FqView>, name: Seq<char>) -> Seq<FqView> {
    list.filter(|v: FqView| v.suite == name)
}

/// The ordered collection of tests available from a runner.
#[derive(Debug)]
pub struct AvailableTests {
    list: Vec<FullyQualifiedTestCase>,
    groups: Vec<SuiteGroup>,
}

impl Default for AvailableTests {
    /// The empty catalog.
    fn default() -> (r: Self)
        ensures
            r.wf(),
            r.list_view().len() == 0,
            r.groups_view().len() == 0,
    {
        let r = AvailableTests { list: Vec::new(), groups: Vec::new() };
        proof {
            assert(r.list_view() =~= Seq::<FqView>::empty());
            assert(r.groups_view() =~= Seq::<GroupView>::empty());
        }
        r
    }
}

impl AvailableTests {
    /// The flat list of cases, in encounter order.
    pub closed spec fn list_view(&self) -> Seq<FqView> {
        fq_views(self.list@)
    }

    /// The suite-indexed view, in ascending suite-name order.
    pub closed spec fn groups_view(&self) -> Seq<GroupView> {
        self.groups@.map_values(|g: SuiteGroup| g@)
    }

    /// The catalog's invariant: every case carries the identifier its names
    /// determine; the suite-indexed view lists exactly the suites that occur
    /// in the flat list, in strictly ascending name order, each holding
    /// exactly the flat list's cases of that suite, in encounter order.
    pub closed spec fn wf(&self) -> bool {
        catalog_wf_parts(self.list_view(), self.groups_view())
    }

    /// The empty catalog.
    pub fn new() -> (r: Self)
        ensures
            r.wf(),
            r.list_view().len() == 0,
            r.groups_view().len() == 0,
    {
        let r = AvailableTests { list: Vec::new(), groups: Vec::new() };
        proof {
            assert(r.list_view() =~= Seq::<FqView>::empty());
            assert(r.groups_view() =~= Seq::<GroupView>::empty());
        }
        r
    }

    /// Append one (suite, case) pair; its identifier is computed here.
    pub fn push(&mut self, test_suite: String, test_case: String)
        requires
            old(self).wf(),
            old(self).list_view().len() < usize::MAX,
        ensures
            final(self).wf(),
            final(self).list_view().len() == old(self).list_view().len() + 1,
            final(self).list_view() == old(self).list_view().push(final(self).list_view().last()),
            final(self).list_view().last().suite == test_suite@,
            final(self).list_view().last().case == test_case@,
            final(self).list_view().last().wf(),
    {
        let f = FullyQualifiedTestCase::new(TestSuite(test_suite), TestCase(test_case));
        let ghost fv = f@;
        let ghost old_listv = self.list_view();
        let ghost old_groupsv = self.groups_view();
        let fc = f.clone();
        self.list.push(fc);
        proof {
            assert(self.list_view() =~= old_listv.push(fv));
            assert forall|name: Seq<char>| true implies #[trigger] suite_cases(
                self.list_view(),
                name,
            ) == (if fv.suite == name {
                suite_cases(old_listv, name).push(fv)
            } else {
                suite_cases(old_listv, name)
            }) by {
                lemma_suite_cases_push(old_listv, fv, name);
            }
            assert(self.groups_view() == old_groupsv);
        }
        let n = self.groups.len();
        let mut j: usize = 0;
        loop
            invariant
                j <= n,
                n == self.groups@.len(),
                self.groups_view() == old_groupsv,
                self.list_view() == old_listv.push(fv),
                fv.wf(),
                fv.suite == f.test_suite.0@,
                fv.suite == test_suite@,
                fv.case == test_case@,
                f@ == fv,
                forall|k: int|
                    0 <= k < j ==> chars_lt((#[trigger] self.groups_view()[k]).name, fv.suite),
                forall|name: Seq<char>|
                    #[trigger] suite_cases(self.list_view(), name) == (if fv.suite == name {
                        suite_cases(old_listv, name).push(fv)
                    } else {
                        suite_cases(old_listv, name)
                    }),
                catalog_wf_parts(old_listv, old_groupsv),
                old_listv == old(self).list_view(),
                old_groupsv == old(self).groups_view(),
            decreases n - j,
        {
            if j == n {
                let name = f.test_suite.0.clone();
                let mut cases: Vec<FullyQualifiedTestCase> = Vec::new();
                cases.push(f);
                let g = SuiteGroup { name, cases };
                proof {
                    assert(g@.cases =~= seq![fv]);
                }
                self.groups.push(g);
                proof {
                    assert(self.groups_view() =~= old_groupsv.insert(n as int, g@));
                    assert forall|k: int|
                        0 <= k < old_groupsv.len() implies (#[trigger] old_groupsv[k]).name
                        != fv.suite by {
                        if old_groupsv[k].name == fv.suite {
                            lemma_chars_lt_irreflexive(fv.suite);
                        }
                    }
                    lemma_suite_absent(old_listv, old_groupsv, fv.suite);
                    assert(suite_cases(self.list_view(), fv.suite) =~= seq![fv]);
                    lemma_insert_wf(old_listv, old_groupsv, self.list_view(), self.groups_view(), fv, n as int);
                }
                return ;
            }
            let same = str_eq(self.groups[j].name.as_str(), f.test_suite.0.as_str());
            if same {
                let mut g = self.groups.remove(j);
                let ghost gv = g@;
                g.cases.push(f);
                proof {
                    assert(g@.cases =~= gv.cases.push(fv));
                    assert(g@.name == gv.name);
                }
                self.groups.insert(j, g);
                proof {
                    assert(self.groups_view() =~= old_groupsv.update(j as int, g@));
                    lemma_update_wf(old_listv, old_groupsv, self.list_view(), self.groups_view(), fv, j as int);
                }
                return ;
            }
            let before = str_lt(f.test_suite.0.as_str(), self.groups[j].name.as_str());
            if before {
                let name = f.test_suite.0.clone();
                let mut cases: Vec<FullyQualifiedTestCase> = Vec::new();
                cases.push(f);
                let g = SuiteGroup { name, cases };
                proof {
                    assert(g@.cases =~= seq![fv]);
                }
                self.groups.insert(j, g);
                proof {
                    assert(self.groups_view() =~= old_groupsv.insert(j as int, g@));
                    assert forall|k: int|
                        0 <= k < old_groupsv.len() implies (#[trigger] old_groupsv[k]).name
                        != fv.suite by {
                        if old_groupsv[k].name == fv.suite {
                            if k < j {
                                lemma_chars_lt_irreflexive(fv.suite);
                            } else if k == j as int {
                                lemma_chars_lt_irreflexive(fv.suite);
                            } else {
                                lemma_chars_lt_transitive(
                                    fv.suite,
                                    old_groupsv[j as int].name,
                                    old_groupsv[k].name,
                                );
                                lemma_chars_lt_irreflexive(fv.suite);
                            }
                        }
                    }
                    lemma_suite_absent(old_listv, old_groupsv, fv.suite);
                    assert(suite_cases(self.list_view(), fv.suite) =~= seq![fv]);
                    lemma_insert_wf(old_listv, old_groupsv, self.list_view(), self.groups_view(), fv, j as int);
                }
                return ;
            }
            proof {
                lemma_chars_lt_total(fv.suite, self.groups_view()[j as int].name);
            }
            j = j + 1;
        }
    }

    /// Whether the catalog holds no case at all.
    pub fn is_empty(&self) -> (r: bool)
        ensures
            r == (self.list_view().len() == 0),
    {
        self.list.len() == 0
    }

    /// How many cases the catalog holds.
    pub fn len(&self) -> (r: usize)
        ensures
            r == self.list_view().len(),
    {
        self.list.len()
    }

    /// The case at `index` in encounter order, if any.
    pub fn get(&self, index: usize) -> (r: Option<&FullyQualifiedTestCase>)
        ensures
            match r {
                Some(f) => index < self.list_view().len() && f@ == self.list_view()[index as int],
                None => index >= self.list_view().len(),
            },
    {
        if index < self.list.len() {
            Some(&self.list[index])
        } else {
            None
        }
    }

    /// The flat list of cases, in encounter order.
    pub fn iter(&self) -> (r: &Vec<FullyQualifiedTestCase>)
        ensures
            fq_views(r@) == self.list_view(),
    {
        &self.list
    }

    /// Each case of the flat list paired with its index.
    pub fn enumerate(&self) -> (r: Vec<(usize, FullyQualifiedTestCase)>)
        ensures
            r@.len() == self.list_view().len(),
            forall|i: int|
                0 <= i < r@.len() ==> (#[trigger] r@[i]).0 == i && r@[i].1@ == self.list_view()[i],
    {
        let mut r: Vec<(usize, FullyQualifiedTestCase)> = Vec::new();
        let mut i: usize = 0;
        while i < self.list.len()
            invariant
                i <= self.list@.len(),
                r@.len() == i,
                forall|k: int|
                    0 <= k < i ==> (#[trigger] r@[k]).0 == k && r@[k].1@ == self.list_view()[k],
            decreases self.list@.len() - i,
        {
            r.push((i, self.list[i].clone()));
            i = i + 1;
        }
        r
    }

    /// The suite-indexed view: suites in ascending name order, each with its
    /// ordered cases.
    pub fn test_suites(&self) -> (r: &Vec<SuiteGroup>)
        ensures
            r@.map_values(|g: SuiteGroup| g@) == self.groups_view(),
    {
        &self.groups
    }
}

/// Every case of a well-formed catalog carries the identifier its names
/// determine.
pub proof fn lemma_wf_cases(c: &AvailableTests)
    requires
        c.wf(),
    ensures
        forall|i: int| 0 <= i < c.list_view().len() ==> (#[trigger] c.list_view()[i]).wf(),
{
}

/// In a well-formed catalog's suite-indexed view, suite names ascend
/// strictly, every group is non-empty, and each case of a group belongs to
/// that group's suite and carries the identifier its names determine.
pub proof fn lemma_wf_groups(c: &AvailableTests)
    requires
        c.wf(),
    ensures
        forall|j: int, k: int|
            0 <= j < k < c.groups_view().len() ==> chars_lt(
                (#[trigger] c.groups_view()[j]).name,
                (#[trigger] c.groups_view()[k]).name,
            ),
        forall|j: int| 0 <= j < c.groups_view().len() ==> (#[trigger] c.groups_view()[j]).cases.len()
            > 0,
        forall|j: int, k: int|
            0 <= j < c.groups_view().len() && 0 <= k < (#[trigger] c.groups_view()[j]).cases.len()
                ==> {
                &&& (#[trigger] c.groups_view()[j].cases[k]).suite == c.groups_view()[j].name
                &&& c.groups_view()[j].cases[k].wf()
            },
{
    let listv = c.list_view();
    let groupsv = c.groups_view();
    assert forall|j: int, k: int|
        0 <= j < groupsv.len() && 0 <= k < (#[trigger] groupsv[j]).cases.len() implies {
        &&& (#[trigger] groupsv[j].cases[k]).suite == groupsv[j].name
        &&& groupsv[j].cases[k].wf()
    } by {
        let p = |v: FqView| v.suite == groupsv[j].name;
        let x = groupsv[j].cases[k];
        assert(groupsv[j].cases == listv.filter(p));
        listv.lemma_filter_pred(p, k);
        assert(listv.filter(p).contains(x));
        listv.lemma_filter_contains_rev(p, x);
        let i = choose|i: int| 0 <= i < listv.len() && listv[i] == x;
        assert(listv[i].wf());
    }
}

/// A catalog holding exactly one case indexes exactly one suite — the
/// case's own — and that suite holds exactly the one case.
pub proof fn lemma_catalog_singleton(c: &AvailableTests)
    requires
        c.wf(),
        c.list_view().len() == 1,
    ensures
        c.groups_view().len() == 1,
        c.groups_view()[0].name == c.list_view()[0].suite,
        c.groups_view()[0].cases == seq![c.list_view()[0]],
{
    let v = c.list_view()[0];
    let groupsv = c.groups_view();
    assert(exists|j: int|
        0 <= j < groupsv.len() && (#[trigger] groupsv[j]).name == c.list_view()[0].suite);
    assert forall|j: int| 0 <= j < groupsv.len() implies (#[trigger] groupsv[j]).name
        == v.suite by {
        if groupsv[j].name != v.suite {
            let p = |x: FqView| x.suite == groupsv[j].name;
            assert forall|i: int| 0 <= i < c.list_view().len() implies !p(
                #[trigger] c.list_view()[i],
            ) by {}
            crate::sequtil::lemma_filter_none(c.list_view(), p);
        }
    }
    if groupsv.len() > 1 {
        assert(chars_lt(groupsv[0].name, groupsv[1].name));
        lemma_chars_lt_irreflexive(v.suite);
    }
    let p = |x: FqView| x.suite == v.suite;
    assert(c.list_view() =~= Seq::<FqView>::empty().push(v));
    crate::sequtil::lemma_filter_push(Seq::<FqView>::empty(), v, p);
    assert(Seq::<FqView>::empty().filter(p) =~= Seq::<FqView>::empty()) by {
        crate::sequtil::lemma_filter_none(Seq::<FqView>::empty(), p);
    }
    assert(groupsv[0].cases == suite_cases(c.list_view(), v.suite));
    assert(groupsv[0].cases =~= seq![v]);
}

/// The invariant of the two views, free of the containing struct; used to
/// carry the pre-state facts through the push loop.
pub open spec fn catalog_wf_parts(listv: Seq<FqView>, groupsv: Seq<GroupView>) -> bool {
    &&& forall|i: int| 0 <= i < listv.len() ==> (#[trigger] listv[i]).wf()
    &&& forall|j: int|
        0 <= j < groupsv.len() ==> {
            &&& (#[trigger] groupsv[j]).cases == suite_cases(listv, groupsv[j].name)
            &&& groupsv[j].cases.len() > 0
        }
    &&& forall|j: int, k: int|
        0 <= j < k < groupsv.len() ==> chars_lt(
            (#[trigger] groupsv[j]).name,
            (#[trigger] groupsv[k]).name,
        )
    &&& forall|i: int|
        0 <= i < listv.len() ==> exists|j: int|
            0 <= j < groupsv.len() && (#[trigger] groupsv[j]).name == (#[trigger] listv[i]).suite
}

/// Appending a case extends the case list of its own suite and no other.
proof fn lemma_suite_cases_push(list: Seq<FqView>, v: FqView, name: Seq<char>)
    ensures
        suite_cases(list.push(v), name) == (if v.suite == name {
            suite_cases(list, name).push(v)
        } else {
            suite_cases(list, name)
        }),
{
    reveal(Seq::filter);
    let p = |x: FqView| x.suite == name;
    let single = seq![v];
    assert(list.push(v) =~= list + single);
    Seq::filter_distributes_over_add(list, single, p);
    assert(single.drop_last() =~= Seq::<FqView>::empty());
    assert(Seq::<FqView>::empty().filter(p) =~= Seq::<FqView>::empty());
    if p(v) {
        assert(single.filter(p) =~= single);
        assert(suite_cases(list, name) + single =~= suite_cases(list, name).push(v));
    } else {
        assert(single.filter(p) =~= Seq::<FqView>::empty());
        assert(suite_cases(list, name) + single.filter(p) =~= suite_cases(list, name));
    }
}

/// A suite name that no group carries has no case in the flat list either.
proof fn lemma_suite_absent(listv: Seq<FqView>, groupsv: Seq<GroupView>, name: Seq<char>)
    requires
        catalog_wf_parts(listv, groupsv),
        forall|j: int| 0 <= j < groupsv.len() ==> (#[trigger] groupsv[j]).name != name,
    ensures
        suite_cases(listv, name).len() == 0,
{
    let p = |x: FqView| x.suite == name;
    assert forall|i: int| 0 <= i < listv.len() implies !p(#[trigger] listv[i]) by {
        let j = choose|j: int| 0 <= j < groupsv.len() && (#[trigger] groupsv[j]).name == listv[i].suite;
    }
    crate::sequtil::lemma_filter_none(listv, p);
}

/// Re-establish the invariant after a new one-case group was inserted at
/// `at`, all names below `at` being strictly smaller and all names at and
/// above `at` strictly larger than the new case's suite.
proof fn lemma_insert_wf(
    old_listv: Seq<FqView>,
    old_groupsv: Seq<GroupView>,
    new_listv: Seq<FqView>,
    new_groupsv: Seq<GroupView>,
    v: FqView,
    at: int,
)
    requires
        catalog_wf_parts(old_listv, old_groupsv),
        v.wf(),
        0 <= at <= old_groupsv.len(),
        new_listv == old_listv.push(v),
        new_groupsv == old_groupsv.insert(at, new_groupsv[at]),
        new_groupsv[at].name == v.suite,
        new_groupsv[at].cases == seq![v],
        forall|k: int| 0 <= k < at ==> chars_lt((#[trigger] old_groupsv[k]).name, v.suite),
        at < old_groupsv.len() ==> chars_lt(v.suite, old_groupsv[at].name),
        forall|k: int| 0 <= k < old_groupsv.len() ==> (#[trigger] old_groupsv[k]).name != v.suite,
        forall|name: Seq<char>|
            #[trigger] suite_cases(new_listv, name) == (if v.suite == name {
                suite_cases(old_listv, name).push(v)
            } else {
                suite_cases(old_listv, name)
            }),
        suite_cases(new_listv, v.suite) == seq![v],
    ensures
        catalog_wf_parts(new_listv, new_groupsv),
{
    let pg = old_groupsv;
    let ng = new_groupsv;
    assert(ng.len() == pg.len() + 1);
    assert forall|k: int| 0 <= k < at implies #[trigger] ng[k] == pg[k] by {}
    assert forall|k: int| at < k < ng.len() implies #[trigger] ng[k] == pg[k - 1] by {}
    assert forall|i: int| 0 <= i < new_listv.len() implies (#[trigger] new_listv[i]).wf() by {
        if i < old_listv.len() {
            assert(new_listv[i] == old_listv[i]);
        }
    }
    assert forall|j: int| 0 <= j < ng.len() implies {
        &&& (#[trigger] ng[j]).cases == suite_cases(new_listv, ng[j].name)
        &&& ng[j].cases.len() > 0
    } by {
        if j != at {
            let oj = if j < at {
                j
            } else {
                j - 1
            };
            assert(ng[j] == pg[oj]);
            assert(pg[oj].name != v.suite);
            assert(suite_cases(new_listv, ng[j].name) == suite_cases(old_listv, ng[j].name));
        }
    }
    assert forall|j: int, k: int| 0 <= j < k < ng.len() implies chars_lt(
        (#[trigger] ng[j]).name,
        (#[trigger] ng[k]).name,
    ) by {
        if j == at {
            let ok = k - 1;
            assert(ng[k] == pg[ok]);
            if ok == at {
                assert(chars_lt(v.suite, pg[at].name));
            } else {
                assert(chars_lt(pg[at].name, pg[ok].name));
                lemma_chars_lt_transitive(v.suite, pg[at].name, pg[ok].name);
            }
        } else if k == at {
            assert(ng[j] == pg[j]);
        } else if j < at && k > at {
            assert(ng[j] == pg[j]);
            assert(ng[k] == pg[k - 1]);
            if k - 1 == j {
                assert(chars_lt(pg[j].name, v.suite));
                assert(chars_lt(v.suite, pg[k - 1].name)) by {
                    assert(k - 1 >= at);
                }
            }
        }
    }
    assert forall|i: int| 0 <= i < new_listv.len() implies exists|j: int|
        0 <= j < ng.len() && (#[trigger] ng[j]).name == (#[trigger] new_listv[i]).suite by {
        if i < old_listv.len() {
            assert(new_listv[i] == old_listv[i]);
            let j = choose|j: int|
                0 <= j < pg.len() && (#[trigger] pg[j]).name == old_listv[i].suite;
            if j < at {
                assert(ng[j].name == new_listv[i].suite);
            } else {
                assert(ng[j + 1].name == new_listv[i].suite);
            }
        } else {
            assert(new_listv[i] == v);
            assert(ng[at].name == v.suite);
        }
    }
}

/// Re-establish the invariant after the new case was appended to the
/// existing group at `at`.
proof fn lemma_update_wf(
    old_listv: Seq<FqView>,
    old_groupsv: Seq<GroupView>,
    new_listv: Seq<FqView>,
    new_groupsv: Seq<GroupView>,
    v: FqView,
    at: int,
)
    requires
        catalog_wf_parts(old_listv, old_groupsv),
        v.wf(),
        0 <= at < old_groupsv.len(),
        new_listv == old_listv.push(v),
        new_groupsv == old_groupsv.update(at, new_groupsv[at]),
        old_groupsv[at].name == v.suite,
        new_groupsv[at].name == v.suite,
        new_groupsv[at].cases == old_groupsv[at].cases.push(v),
        forall|name: Seq<char>|
            #[trigger] suite_cases(new_listv, name) == (if v.suite == name {
                suite_cases(old_listv, name).push(v)
            } else {
                suite_cases(old_listv, name)
            }),
    ensures
        catalog_wf_parts(new_listv, new_groupsv),
{
    let pg = old_groupsv;
    let ng = new_groupsv;
    assert(ng.len() == pg.len());
    assert forall|k: int| 0 <= k < ng.len() && k != at implies #[trigger] ng[k] == pg[k] by {}
    assert forall|i: int| 0 <= i < new_listv.len() implies (#[trigger] new_listv[i]).wf() by {
        if i < old_listv.len() {
            assert(new_listv[i] == old_listv[i]);
        }
    }
    assert forall|j: int| 0 <= j < ng.len() implies {
        &&& (#[trigger] ng[j]).cases == suite_cases(new_listv, ng[j].name)
        &&& ng[j].cases.len() > 0
    } by {
        if j != at {
            assert(ng[j] == pg[j]);
            assert(pg[j].name != v.suite) by {
                if pg[j].name == v.suite {
                    if j < at {
                        assert(chars_lt(pg[j].name, pg[at].name));
                    } else {
                        assert(chars_lt(pg[at].name, pg[j].name));
                    }
                    lemma_chars_lt_irreflexive(v.suite);
                }
            }
            assert(suite_cases(new_listv, ng[j].name) == suite_cases(old_listv, ng[j].name));
        }
    }
    assert forall|j: int, k: int| 0 <= j < k < ng.len() implies chars_lt(
        (#[trigger] ng[j]).name,
        (#[trigger] ng[k]).name,
    ) by {
        assert(ng[j].name == pg[j].name);
        assert(ng[k].name == pg[k].name);
    }
    assert forall|i: int| 0 <= i < new_listv.len() implies exists|j: int|
        0 <= j < ng.len() && (#[trigger] ng[j]).name == (#[trigger] new_listv[i]).suite by {
        if i < old_listv.len() {
            assert(new_listv[i] == old_listv[i]);
            let j = choose|j: int|
                0 <= j < pg.len() && (#[trigger] pg[j]).name == old_listv[i].suite;
            assert(ng[j].name == new_listv[i].suite);
        } else {
            assert(new_listv[i] == v);
            assert(ng[at].name == v.suite);
        }
    }
}

} // verus!
