//! The decisions behind the `check` and `update` commands: classifying
//! dependencies, aggregating a workspace, planning edits, and the labels the
//! commands show.

use vstd::prelude::*;
use vstd::string::*;
use crate::dependency::{Dependency, DependencyView, UpdateType, update_kind};
use crate::manifest::{copy_strings, strs_view};
use crate::text::{push_decimal, decimal, str_eq};
use crate::version::{VersionView, version_text};
use crate::version_edit::{UpdateError, update_version_in_content, updated_text};

verus! {

/// A member's checked dependencies.
#[derive(Debug)]
pub struct MemberReport {
    pub package_name: String,
    pub manifest_path: String,
    pub dependencies: Vec<Dependency>,
}

/// The view of a member report.
pub struct MemberView {
    pub package_name: Seq<char>,
    pub manifest_path: Seq<char>,
    pub dependencies: Seq<DependencyView>,
}

/// The view of a list of dependencies.
pub open spec fn deps_view(v: Seq<Dependency>) -> Seq<DependencyView> {
    v.map_values(|d: Dependency| d@)
}

impl View for MemberReport {
    type V = MemberView;

    open spec fn view(&self) -> MemberView {
        MemberView {
            package_name: self.package_name@,
            manifest_path: self.manifest_path@,
            dependencies: deps_view(self.dependencies@),
        }
    }
}

/// A dependency as it occurs across the members of a workspace.
#[derive(Debug)]
pub struct AggregatedDep {
    /// The dependency with version information.
    pub dep: Dependency,
    /// Names of the packages that use it.
    pub used_by: Vec<String>,
    /// For member-specific (not inherited) uses, the manifests that hold them.
    pub member_manifests: Vec<String>,
}

/// The view of an aggregated dependency.
pub struct AggView {
    pub dep: DependencyView,
    pub used_by: Seq<Seq<char>>,
    pub member_manifests: Seq<Seq<char>>,
}

impl View for AggregatedDep {
    type V = AggView;

    open spec fn view(&self) -> AggView {
        AggView {
            dep: self.dep@,
            used_by: strs_view(self.used_by@),
            member_manifests: strs_view(self.member_manifests@),
        }
    }
}

impl AggregatedDep {
    /// A copy of this entry.
    pub fn copy(&self) -> (r: Self)
        ensures
            r@ == self@,
    {
        AggregatedDep {
            dep: self.dep.copy(),
            used_by: copy_strings(&self.used_by),
            member_manifests: copy_strings(&self.member_manifests),
        }
    }
}

/// The view of a list of aggregated dependencies.
pub open spec fn aggs_view(v: Seq<AggregatedDep>) -> Seq<AggView> {
    v.map_values(|a: AggregatedDep| a@)
}

/// A first use of a dependency by package `pkg` whose manifest is `path`.
pub open spec fn first_use(pkg: Seq<char>, path: Seq<char>, d: DependencyView) -> AggView {
    AggView {
        dep: d,
        used_by: seq![pkg],
        member_manifests: if d.is_workspace_inherited {
            Seq::empty()
        } else {
            seq![path]
        },
    }
}

/// A further use: the package is recorded, the manifest too for a
/// member-specific use, and the dependency replaced when only the new one
/// knows a latest version.
pub open spec fn further_use(a: AggView, pkg: Seq<char>, path: Seq<char>, d: DependencyView) -> AggView {
    AggView {
        dep: if d.latest is Some && a.dep.latest is None {
            d
        } else {
            a.dep
        },
        used_by: a.used_by.push(pkg),
        member_manifests: if d.is_workspace_inherited {
            a.member_manifests
        } else {
            a.member_manifests.push(path)
        },
    }
}

/// Records one use of `d` in the aggregate `acc` (keyed by dependency name).
pub open spec fn record_use(acc: Seq<AggView>, pkg: Seq<char>, path: Seq<char>, d: DependencyView) -> Seq<
    AggView,
> {
    if exists|i: int| 0 <= i < acc.len() && #[trigger] acc[i].dep.name == d.name {
        let i = choose|i: int| 0 <= i < acc.len() && #[trigger] acc[i].dep.name == d.name;
        acc.update(i, further_use(acc[i], pkg, path, d))
    } else {
        acc.push(first_use(pkg, path, d))
    }
}

/// Records the uses of all of `deps` by one member, in order.
pub open spec fn record_member(
    acc: Seq<AggView>,
    pkg: Seq<char>,
    path: Seq<char>,
    deps: Seq<DependencyView>,
) -> Seq<AggView>
    decreases deps.len(),
{
    if deps.len() == 0 {
        acc
    } else {
        record_use(record_member(acc, pkg, path, deps.drop_last()), pkg, path, deps.last())
    }
}

/// The aggregate of the members' dependencies, members taken in order.
pub open spec fn aggregate(members: Seq<MemberView>) -> Seq<AggView>
    decreases members.len(),
{
    if members.len() == 0 {
        Seq::empty()
    } else {
        let m = members.last();
        record_member(aggregate(members.drop_last()), m.package_name, m.manifest_path, m.dependencies)
    }
}

/// No dependency name occurs twice in an aggregate.
pub open spec fn distinct_deps(acc: Seq<AggView>) -> bool {
    forall|i: int, j: int| 0 <= i < j < acc.len() ==> #[trigger] acc[i].dep.name != #[trigger] acc[j].dep.name
}

proof fn lemma_record_use_distinct(acc: Seq<AggView>, pkg: Seq<char>, path: Seq<char>, d: DependencyView)
    requires
        distinct_deps(acc),
    ensures
        distinct_deps(record_use(acc, pkg, path, d)),
{
    let r = record_use(acc, pkg, path, d);
    if exists|i: int| 0 <= i < acc.len() && #[trigger] acc[i].dep.name == d.name {
        let i = choose|i: int| 0 <= i < acc.len() && #[trigger] acc[i].dep.name == d.name;
        assert(further_use(acc[i], pkg, path, d).dep.name == acc[i].dep.name);
        assert forall|a: int, b: int| 0 <= a < b < r.len() implies #[trigger] r[a].dep.name
            != #[trigger] r[b].dep.name by {
            assert(r[a].dep.name == acc[a].dep.name);
            assert(r[b].dep.name == acc[b].dep.name);
        }
    } else {
        assert forall|a: int, b: int| 0 <= a < b < r.len() implies #[trigger] r[a].dep.name
            != #[trigger] r[b].dep.name by {
            if b < acc.len() {
                assert(r[a] == acc[a] && r[b] == acc[b]);
            } else {
                assert(r[a] == acc[a]);
            }
        }
    }
}

/// The number of uses recorded in an aggregate.
pub open spec fn total_uses(acc: Seq<AggView>) -> nat
    decreases acc.len(),
{
    if acc.len() == 0 {
        0
    } else {
        total_uses(acc.drop_last()) + acc.last().used_by.len()
    }
}

/// The number of member-specific uses recorded in an aggregate.
pub open spec fn total_member_uses(acc: Seq<AggView>) -> nat
    decreases acc.len(),
{
    if acc.len() == 0 {
        0
    } else {
        total_member_uses(acc.drop_last()) + acc.last().member_manifests.len()
    }
}

/// The number of member-specific (not inherited) dependencies in a list.
pub open spec fn member_specific(deps: Seq<DependencyView>) -> nat
    decreases deps.len(),
{
    if deps.len() == 0 {
        0
    } else {
        member_specific(deps.drop_last()) + if deps.last().is_workspace_inherited {
            0nat
        } else {
            1nat
        }
    }
}

/// The number of dependencies over all members.
pub open spec fn total_deps(members: Seq<MemberView>) -> nat
    decreases members.len(),
{
    if members.len() == 0 {
        0
    } else {
        total_deps(members.drop_last()) + members.last().dependencies.len()
    }
}

/// The number of member-specific dependencies over all members.
pub open spec fn total_member_specific(members: Seq<MemberView>) -> nat
    decreases members.len(),
{
    if members.len() == 0 {
        0
    } else {
        total_member_specific(members.drop_last()) + member_specific(members.last().dependencies)
    }
}

/// The aggregate has an entry named `name`.
pub open spec fn names_dependency(acc: Seq<AggView>, name: Seq<char>) -> bool {
    exists|k: int| 0 <= k < acc.len() && #[trigger] acc[k].dep.name == name
}

proof fn lemma_totals_update(acc: Seq<AggView>, i: int, x: AggView)
    requires
        0 <= i < acc.len(),
    ensures
        total_uses(acc.update(i, x)) + acc[i].used_by.len() == total_uses(acc) + x.used_by.len(),
        total_member_uses(acc.update(i, x)) + acc[i].member_manifests.len() == total_member_uses(acc)
            + x.member_manifests.len(),
    decreases acc.len(),
{
    let u = acc.update(i, x);
    if i == acc.len() - 1 {
        assert(u.drop_last() =~= acc.drop_last());
    } else {
        assert(u.drop_last() =~= acc.drop_last().update(i, x));
        lemma_totals_update(acc.drop_last(), i, x);
    }
}

proof fn lemma_record_use_counts(acc: Seq<AggView>, pkg: Seq<char>, path: Seq<char>, d: DependencyView)
    ensures
        total_uses(record_use(acc, pkg, path, d)) == total_uses(acc) + 1,
        total_member_uses(record_use(acc, pkg, path, d)) == total_member_uses(acc) + if d.is_workspace_inherited {
            0nat
        } else {
            1nat
        },
        names_dependency(record_use(acc, pkg, path, d), d.name),
        forall|n: Seq<char>| names_dependency(acc, n) ==> names_dependency(record_use(acc, pkg, path, d), n),
{
    let r = record_use(acc, pkg, path, d);
    if exists|i: int| 0 <= i < acc.len() && #[trigger] acc[i].dep.name == d.name {
        let i = choose|i: int| 0 <= i < acc.len() && #[trigger] acc[i].dep.name == d.name;
        lemma_totals_update(acc, i, further_use(acc[i], pkg, path, d));
        assert(r[i].dep.name == d.name);
        assert forall|n: Seq<char>| names_dependency(acc, n) implies names_dependency(r, n) by {
            let k = choose|k: int| 0 <= k < acc.len() && #[trigger] acc[k].dep.name == n;
            assert(r[k].dep.name == acc[k].dep.name);
        }
    } else {
        assert(r.drop_last() =~= acc);
        assert(r[acc.len() as int].dep.name == d.name);
        assert forall|n: Seq<char>| names_dependency(acc, n) implies names_dependency(r, n) by {
            let k = choose|k: int| 0 <= k < acc.len() && #[trigger] acc[k].dep.name == n;
            assert(r[k] == acc[k]);
        }
    }
}

proof fn lemma_record_member_counts(
    acc: Seq<AggView>,
    pkg: Seq<char>,
    path: Seq<char>,
    deps: Seq<DependencyView>,
)
    ensures
        total_uses(record_member(acc, pkg, path, deps)) == total_uses(acc) + deps.len(),
        total_member_uses(record_member(acc, pkg, path, deps)) == total_member_uses(acc)
            + member_specific(deps),
        forall|j: int| 0 <= j < deps.len() ==> names_dependency(record_member(acc, pkg, path, deps), #[trigger] deps[j].name),
        forall|n: Seq<char>| names_dependency(acc, n) ==> names_dependency(record_member(acc, pkg, path, deps), n),
    decreases deps.len(),
{
    if deps.len() > 0 {
        let prev = record_member(acc, pkg, path, deps.drop_last());
        lemma_record_member_counts(acc, pkg, path, deps.drop_last());
        lemma_record_use_counts(prev, pkg, path, deps.last());
        assert forall|j: int| 0 <= j < deps.len() implies names_dependency(
            record_member(acc, pkg, path, deps),
            #[trigger] deps[j].name,
        ) by {
            if j < deps.len() - 1 {
                assert(deps.drop_last()[j] == deps[j]);
            }
        }
    }
}

/// Aggregating a workspace loses no use: the packages recorded over all
/// entries are as many as the members' dependencies, the manifests recorded
/// as many as their member-specific dependencies, and every dependency of
/// every member has an entry.
pub proof fn law_aggregate_counts_every_use(members: Seq<MemberView>)
    ensures
        total_uses(aggregate(members)) == total_deps(members),
        total_member_uses(aggregate(members)) == total_member_specific(members),
        forall|i: int, j: int|
            0 <= i < members.len() && 0 <= j < members[i].dependencies.len() ==> names_dependency(
                aggregate(members),
                #[trigger] members[i].dependencies[j].name,
            ),
    decreases members.len(),
{
    if members.len() > 0 {
        let m = members.last();
        let prev = aggregate(members.drop_last());
        law_aggregate_counts_every_use(members.drop_last());
        lemma_record_member_counts(prev, m.package_name, m.manifest_path, m.dependencies);
        assert forall|i: int, j: int|
            0 <= i < members.len() && 0 <= j < members[i].dependencies.len() implies names_dependency(
            aggregate(members),
            #[trigger] members[i].dependencies[j].name,
        ) by {
            if i < members.len() - 1 {
                assert(members.drop_last()[i] == members[i]);
                assert(names_dependency(prev, members.drop_last()[i].dependencies[j].name));
            } else {
                assert(m.dependencies[j] == members[i].dependencies[j]);
            }
        }
    }
}

/// Finds the entry for `name` in the aggregate built so far.
fn find_aggregate(acc: &Vec<AggregatedDep>, name: &str) -> (r: Option<usize>)
    ensures
        match r {
            Some(i) => i < acc@.len() && acc@[i as int].dep.name@ == name@,
            None => forall|i: int| 0 <= i < acc@.len() ==> #[trigger] acc@[i].dep.name@ != name@,
        },
{
    let mut i: usize = 0;
    while i < acc.len()
        invariant
            i <= acc@.len(),
            forall|k: int| 0 <= k < i ==> #[trigger] acc@[k].dep.name@ != name@,
        decreases acc@.len() - i,
    {
        if str_eq(acc[i].dep.name.as_str(), name) {
            return Some(i);
        }
        i = i + 1;
    }
    None
}

/// Records one use of `d` by package `pkg` (manifest `path`) in `acc`.
fn record_use_exec(acc: &mut Vec<AggregatedDep>, pkg: &String, path: &String, d: &Dependency)
    requires
        distinct_deps(aggs_view(old(acc)@)),
    ensures
        aggs_view(final(acc)@) == record_use(aggs_view(old(acc)@), pkg@, path@, d@),
        distinct_deps(aggs_view(final(acc)@)),
{
    let ghost before = aggs_view(acc@);
    proof {
        lemma_record_use_distinct(before, pkg@, path@, d@);
    }
    match find_aggregate(acc, d.name.as_str()) {
        Some(i) => {
            let mut e = acc[i].copy();
            e.used_by.push(pkg.clone());
            if !d.is_workspace_inherited {
                e.member_manifests.push(path.clone());
            }
            if d.latest_version.is_some() && e.dep.latest_version.is_none() {
                e.dep = d.copy();
            }
            proof {
                assert(before[i as int] == acc@[i as int]@);
                assert(e@.used_by =~= before[i as int].used_by.push(pkg@));
                assert(e@.member_manifests =~= (if d@.is_workspace_inherited {
                    before[i as int].member_manifests
                } else {
                    before[i as int].member_manifests.push(path@)
                }));
                assert(e@ == further_use(before[i as int], pkg@, path@, d@));
                assert(before[i as int].dep.name == d@.name);
                let j = choose|j: int| 0 <= j < before.len() && #[trigger] before[j].dep.name == d@.name;
                if j != i {
                    assert(before[j].dep.name != before[i as int].dep.name);
                }
            }
            acc.set(i, e);
            assert(aggs_view(acc@) =~= record_use(before, pkg@, path@, d@));
        },
        None => {
            let mut used_by: Vec<String> = Vec::new();
            used_by.push(pkg.clone());
            let mut member_manifests: Vec<String> = Vec::new();
            if !d.is_workspace_inherited {
                member_manifests.push(path.clone());
            }
            let e = AggregatedDep { dep: d.copy(), used_by, member_manifests };
            proof {
                assert(e@.used_by =~= seq![pkg@]);
                assert(e@.member_manifests =~= (if d@.is_workspace_inherited {
                    Seq::<Seq<char>>::empty()
                } else {
                    seq![path@]
                }));
                assert(e@ == first_use(pkg@, path@, d@));
                assert forall|k: int| 0 <= k < before.len() implies #[trigger] before[k].dep.name
                    != d@.name by {
                    assert(before[k] == acc@[k]@);
                }
            }
            acc.push(e);
            assert(aggs_view(acc@) =~= record_use(before, pkg@, path@, d@));
        },
    }
}

/// Aggregates the members' dependencies by name: which packages use each,
/// and which manifests hold member-specific uses.  Members are taken in
/// order; an entry keeps the first dependency seen unless a later one knows
/// a latest version that it lacks.
pub fn aggregate_workspace_deps(members: &Vec<MemberReport>) -> (r: Vec<AggregatedDep>)
    ensures
        aggs_view(r@) == aggregate(members@.map_values(|m: MemberReport| m@)),
        distinct_deps(aggs_view(r@)),
{
    let ghost ms = members@.map_values(|m: MemberReport| m@);
    let mut acc: Vec<AggregatedDep> = Vec::new();
    let mut i: usize = 0;
    assert(aggs_view(acc@) =~= Seq::<AggView>::empty());
    while i < members.len()
        invariant
            i <= members@.len(),
            ms == members@.map_values(|m: MemberReport| m@),
            aggs_view(acc@) == aggregate(ms.subrange(0, i as int)),
            distinct_deps(aggs_view(acc@)),
        decreases members@.len() - i,
    {
        let m = &members[i];
        let ghost base = aggs_view(acc@);
        let mut j: usize = 0;
        while j < m.dependencies.len()
            invariant
                j <= m.dependencies@.len(),
                aggs_view(acc@) == record_member(
                    base,
                    m.package_name@,
                    m.manifest_path@,
                    deps_view(m.dependencies@).subrange(0, j as int),
                ),
                distinct_deps(aggs_view(acc@)),
            decreases m.dependencies@.len() - j,
        {
            record_use_exec(&mut acc, &m.package_name, &m.manifest_path, &m.dependencies[j]);
            proof {
                let dv = deps_view(m.dependencies@);
                assert(dv.subrange(0, j + 1).drop_last() =~= dv.subrange(0, j as int));
                assert(dv.subrange(0, j + 1).last() == m.dependencies@[j as int]@);
            }
            j = j + 1;
        }
        proof {
            let dv = deps_view(m.dependencies@);
            assert(dv.subrange(0, dv.len() as int) =~= dv);
            assert(ms.subrange(0, i + 1).drop_last() =~= ms.subrange(0, i as int));
            assert(ms.subrange(0, i + 1).last() == m@);
        }
        i = i + 1;
    }
    assert(ms.subrange(0, ms.len() as int) =~= ms);
    acc
}


/// The update kinds of a list of dependencies.
pub open spec fn kinds(deps: Seq<DependencyView>) -> Seq<UpdateType> {
    deps.map_values(|d: DependencyView| update_kind(d.current, d.latest))
}

/// The positions in `ks` that hold kind `k`, in order.
pub open spec fn positions_of(ks: Seq<UpdateType>, k: UpdateType) -> Seq<int>
    decreases ks.len(),
{
    if ks.len() == 0 {
        Seq::empty()
    } else {
        let rest = positions_of(ks.drop_last(), k);
        if ks.last() == k {
            rest.push(ks.len() - 1)
        } else {
            rest
        }
    }
}

/// The positions in `ks` that hold an available update, in order.
pub open spec fn positions_with_update(ks: Seq<UpdateType>) -> Seq<int>
    decreases ks.len(),
{
    if ks.len() == 0 {
        Seq::empty()
    } else {
        let rest = positions_with_update(ks.drop_last());
        if ks.last() != UpdateType::UpToDate {
            rest.push(ks.len() - 1)
        } else {
            rest
        }
    }
}

/// The view of a list of positions.
pub open spec fn idx_view(v: Seq<usize>) -> Seq<int> {
    v.map_values(|x: usize| x as int)
}

/// Positions of dependencies, grouped by the kind of update available.
#[derive(Debug)]
pub struct UpdateSummary {
    pub up_to_date: Vec<usize>,
    pub patch: Vec<usize>,
    pub minor: Vec<usize>,
    pub major: Vec<usize>,
}

/// Every dependency falls in exactly one group of a summary: the group
/// sizes add up to the number of dependencies.
pub proof fn law_summary_partitions(ks: Seq<UpdateType>)
    ensures
        positions_of(ks, UpdateType::UpToDate).len() + positions_of(ks, UpdateType::Patch).len()
            + positions_of(ks, UpdateType::Minor).len() + positions_of(ks, UpdateType::Major).len()
            == ks.len(),
        positions_with_update(ks).len() + positions_of(ks, UpdateType::UpToDate).len() == ks.len(),
    decreases ks.len(),
{
    if ks.len() > 0 {
        law_summary_partitions(ks.drop_last());
    }
}

fn push_position(v: &mut Vec<usize>, i: usize)
    ensures
        final(v)@ == old(v)@.push(i),
        idx_view(final(v)@) == idx_view(old(v)@).push(i as int),
{
    v.push(i);
    assert(idx_view(final(v)@) =~= idx_view(old(v)@).push(i as int));
}

/// Groups the positions of `deps` by the kind of update available.
pub fn summarize_updates(deps: &Vec<Dependency>) -> (r: UpdateSummary)
    ensures
        idx_view(r.up_to_date@) == positions_of(kinds(deps_view(deps@)), UpdateType::UpToDate),
        idx_view(r.patch@) == positions_of(kinds(deps_view(deps@)), UpdateType::Patch),
        idx_view(r.minor@) == positions_of(kinds(deps_view(deps@)), UpdateType::Minor),
        idx_view(r.major@) == positions_of(kinds(deps_view(deps@)), UpdateType::Major),
{
    let ghost ks = kinds(deps_view(deps@));
    let mut r = UpdateSummary {
        up_to_date: Vec::new(),
        patch: Vec::new(),
        minor: Vec::new(),
        major: Vec::new(),
    };
    let mut i: usize = 0;
    proof {
        assert(ks.subrange(0, 0) =~= Seq::<UpdateType>::empty());
        assert(idx_view(r.up_to_date@) =~= Seq::<int>::empty());
        assert(idx_view(r.patch@) =~= Seq::<int>::empty());
        assert(idx_view(r.minor@) =~= Seq::<int>::empty());
        assert(idx_view(r.major@) =~= Seq::<int>::empty());
    }
    while i < deps.len()
        invariant
            i <= deps@.len(),
            ks == kinds(deps_view(deps@)),
            idx_view(r.up_to_date@) == positions_of(ks.subrange(0, i as int), UpdateType::UpToDate),
            idx_view(r.patch@) == positions_of(ks.subrange(0, i as int), UpdateType::Patch),
            idx_view(r.minor@) == positions_of(ks.subrange(0, i as int), UpdateType::Minor),
            idx_view(r.major@) == positions_of(ks.subrange(0, i as int), UpdateType::Major),
        decreases deps@.len() - i,
    {
        let t = deps[i].update_type();
        proof {
            assert(ks.subrange(0, i + 1).drop_last() =~= ks.subrange(0, i as int));
            assert(ks.subrange(0, i + 1).last() == t);
        }
        match t {
            UpdateType::UpToDate => push_position(&mut r.up_to_date, i),
            UpdateType::Patch => push_position(&mut r.patch, i),
            UpdateType::Minor => push_position(&mut r.minor, i),
            UpdateType::Major => push_position(&mut r.major, i),
        }
        i = i + 1;
    }
    assert(ks.subrange(0, deps@.len() as int) =~= ks);
    r
}

/// The positions of the dependencies that have an update available.
pub fn updatable_indices(deps: &Vec<Dependency>) -> (r: Vec<usize>)
    ensures
        idx_view(r@) == positions_with_update(kinds(deps_view(deps@))),
        forall|k: int| 0 <= k < r@.len() ==> #[trigger] r@[k] < deps@.len(),
{
    let ghost ks = kinds(deps_view(deps@));
    let mut r: Vec<usize> = Vec::new();
    let mut i: usize = 0;
    assert(idx_view(r@) =~= Seq::<int>::empty());
    while i < deps.len()
        invariant
            i <= deps@.len(),
            ks == kinds(deps_view(deps@)),
            idx_view(r@) == positions_with_update(ks.subrange(0, i as int)),
            forall|k: int| 0 <= k < r@.len() ==> #[trigger] r@[k] < i,
        decreases deps@.len() - i,
    {
        proof {
            assert(ks.subrange(0, i + 1).drop_last() =~= ks.subrange(0, i as int));
        }
        if deps[i].has_update() {
            push_position(&mut r, i);
        }
        i = i + 1;
    }
    assert(ks.subrange(0, deps@.len() as int) =~= ks);
    r
}

/// Whether every dependency is up to date.
pub fn all_up_to_date(deps: &Vec<Dependency>) -> (r: bool)
    ensures
        r == forall|k: int| 0 <= k < deps@.len() ==> #[trigger] kinds(deps_view(deps@))[k]
            == UpdateType::UpToDate,
{
    let mut i: usize = 0;
    while i < deps.len()
        invariant
            i <= deps@.len(),
            forall|k: int| 0 <= k < i ==> #[trigger] kinds(deps_view(deps@))[k] == UpdateType::UpToDate,
        decreases deps@.len() - i,
    {
        if deps[i].has_update() {
            assert(kinds(deps_view(deps@))[i as int] != UpdateType::UpToDate);
            return false;
        }
        i = i + 1;
    }
    true
}

/// The dependencies of an aggregate, in order.
pub fn aggregated_dependencies(aggs: &Vec<AggregatedDep>) -> (r: Vec<Dependency>)
    ensures
        deps_view(r@) == aggs_view(aggs@).map_values(|a: AggView| a.dep),
{
    let mut r: Vec<Dependency> = Vec::new();
    let mut i: usize = 0;
    while i < aggs.len()
        invariant
            i <= aggs@.len(),
            r@.len() == i,
            forall|k: int| 0 <= k < i ==> (#[trigger] r@[k])@ == aggs@[k].dep@,
        decreases aggs@.len() - i,
    {
        r.push(aggs[i].dep.copy());
        i = i + 1;
    }
    assert(deps_view(r@) =~= aggs_view(aggs@).map_values(|a: AggView| a.dep));
    r
}

/// The version text to write for a dependency: its latest version, if known.
pub open spec fn target_text(d: DependencyView) -> Option<Seq<char>> {
    match d.latest {
        Some(l) => Some(version_text(l)),
        None => None,
    }
}

/// The text written for a dependency with a known latest version is that
/// version in full: its three numbers in decimal notation separated by
/// dots, then `-` and the pre-release text when there is one, then `+` and
/// the build text when there is one.
pub proof fn law_written_version_is_full_text(d: DependencyView, l: VersionView)
    requires
        d.latest == Some(l),
    ensures
        target_text(d) == Some(
            decimal(l.major as nat) + seq!['.'] + decimal(l.minor as nat) + seq!['.'] + decimal(
                l.patch as nat,
            ) + (if l.pre.len() > 0 {
                seq!['-'] + l.pre
            } else {
                Seq::empty()
            }) + (if l.build.len() > 0 {
                seq!['+'] + l.build
            } else {
                Seq::empty()
            }),
        ),
{
}

/// A pre-release is never dropped from the text written: for two latest
/// versions with the same numbers and no build text, the texts written are
/// the same only if the pre-release texts are.
pub proof fn law_written_version_keeps_prerelease(
    d1: DependencyView,
    d2: DependencyView,
    l1: VersionView,
    l2: VersionView,
)
    requires
        d1.latest == Some(l1),
        d2.latest == Some(l2),
        l1.major == l2.major && l1.minor == l2.minor && l1.patch == l2.patch,
        l1.build.len() == 0,
        l2.build.len() == 0,
        target_text(d1) == target_text(d2),
    ensures
        l1.pre == l2.pre,
{
    law_written_version_is_full_text(d1, l1);
    law_written_version_is_full_text(d2, l2);
    let c = decimal(l1.major as nat) + seq!['.'] + decimal(l1.minor as nat) + seq!['.'] + decimal(
        l1.patch as nat,
    );
    let p1: Seq<char> = if l1.pre.len() > 0 {
        seq!['-'] + l1.pre
    } else {
        Seq::empty()
    };
    let p2: Seq<char> = if l2.pre.len() > 0 {
        seq!['-'] + l2.pre
    } else {
        Seq::empty()
    };
    let e = Seq::<char>::empty();
    let t1 = target_text(d1).unwrap();
    assert(t1 == c + p1 + e);
    assert(t1 == c + p2 + e);
    assert(c + p1 + e =~= c + p1);
    assert(c + p2 + e =~= c + p2);
    assert(p1 =~= (c + p1).subrange(c.len() as int, (c + p1).len() as int));
    assert(p2 =~= (c + p2).subrange(c.len() as int, (c + p2).len() as int));
    assert(p1 == p2);
    if l1.pre.len() > 0 && l2.pre.len() > 0 {
        assert(l1.pre =~= p1.drop_first());
        assert(l2.pre =~= p2.drop_first());
    }
}

/// The version text to write for `dep`: its latest version, if known.
pub fn target_version(dep: &Dependency) -> (r: Option<String>)
    ensures
        match r {
            Some(t) => target_text(dep@) == Some(t@),
            None => target_text(dep@) is None,
        },
{
    match &dep.latest_version {
        Some(l) => Some(l.to_string()),
        None => None,
    }
}

/// The view of a list of (name, version) edits.
pub open spec fn edits_view(v: Seq<(String, String)>) -> Seq<(Seq<char>, Seq<char>)> {
    v.map_values(|e: (String, String)| (e.0@, e.1@))
}

/// The edits of the workspace root for the selected aggregated
/// dependencies: each inherited one with a known latest version, in
/// selection order.
pub open spec fn root_edits(aggs: Seq<AggView>, sel: Seq<int>) -> Seq<(Seq<char>, Seq<char>)>
    decreases sel.len(),
{
    if sel.len() == 0 {
        Seq::empty()
    } else {
        let rest = root_edits(aggs, sel.drop_last());
        let d = aggs[sel.last()].dep;
        if d.is_workspace_inherited && d.latest is Some {
            rest.push((d.name, version_text(d.latest.unwrap())))
        } else {
            rest
        }
    }
}

fn push_edit(v: &mut Vec<(String, String)>, name: String, version: String)
    ensures
        edits_view(final(v)@) == edits_view(old(v)@).push((name@, version@)),
{
    v.push((name, version));
    assert(edits_view(final(v)@) =~= edits_view(old(v)@).push((name@, version@)));
}

/// The edits of the workspace root manifest for the selected aggregated
/// dependencies (positions into `aggs`).
pub fn workspace_root_edits(aggs: &Vec<AggregatedDep>, selected: &Vec<usize>) -> (r: Vec<
    (String, String),
>)
    requires
        forall|k: int| 0 <= k < selected@.len() ==> #[trigger] selected@[k] < aggs@.len(),
    ensures
        edits_view(r@) == root_edits(aggs_view(aggs@), idx_view(selected@)),
{
    let ghost av = aggs_view(aggs@);
    let ghost sv = idx_view(selected@);
    let mut r: Vec<(String, String)> = Vec::new();
    let mut i: usize = 0;
    assert(edits_view(r@) =~= Seq::<(Seq<char>, Seq<char>)>::empty());
    while i < selected.len()
        invariant
            i <= selected@.len(),
            av == aggs_view(aggs@),
            sv == idx_view(selected@),
            forall|k: int| 0 <= k < selected@.len() ==> #[trigger] selected@[k] < aggs@.len(),
            edits_view(r@) == root_edits(av, sv.subrange(0, i as int)),
        decreases selected@.len() - i,
    {
        let a = &aggs[selected[i]];
        proof {
            assert(sv.subrange(0, i + 1).drop_last() =~= sv.subrange(0, i as int));
            assert(sv.subrange(0, i + 1).last() == selected@[i as int] as int);
            assert(av[selected@[i as int] as int] == a@);
        }
        if a.dep.is_workspace_inherited {
            match &a.dep.latest_version {
                Some(l) => push_edit(&mut r, a.dep.name.clone(), l.to_string()),
                None => {},
            }
        }
        i = i + 1;
    }
    assert(sv.subrange(0, sv.len() as int) =~= sv);
    r
}

/// The (manifest, edit) pairs for the member-specific selected aggregated
/// dependencies: for each with a known latest version, one pair per
/// manifest that uses it, in selection order.
pub open spec fn member_edit_pairs(aggs: Seq<AggView>, sel: Seq<int>) -> Seq<
    (Seq<char>, (Seq<char>, Seq<char>)),
>
    decreases sel.len(),
{
    if sel.len() == 0 {
        Seq::empty()
    } else {
        let rest = member_edit_pairs(aggs, sel.drop_last());
        let a = aggs[sel.last()];
        let d = a.dep;
        if !d.is_workspace_inherited && d.latest is Some {
            rest + a.member_manifests.map_values(
                |p: Seq<char>| (p, (d.name, version_text(d.latest.unwrap()))),
            )
        } else {
            rest
        }
    }
}

/// Adds one edit to the group of its manifest (a new group at the end when
/// the manifest has none yet).
pub open spec fn add_to_group(
    groups: Seq<(Seq<char>, Seq<(Seq<char>, Seq<char>)>)>,
    path: Seq<char>,
    edit: (Seq<char>, Seq<char>),
) -> Seq<(Seq<char>, Seq<(Seq<char>, Seq<char>)>)> {
    if exists|i: int| 0 <= i < groups.len() && #[trigger] groups[i].0 == path {
        let i = choose|i: int| 0 <= i < groups.len() && #[trigger] groups[i].0 == path;
        groups.update(i, (path, groups[i].1.push(edit)))
    } else {
        groups.push((path, seq![edit]))
    }
}

/// Edits grouped by manifest, manifests in order of first appearance.
pub open spec fn group_edits(pairs: Seq<(Seq<char>, (Seq<char>, Seq<char>))>) -> Seq<
    (Seq<char>, Seq<(Seq<char>, Seq<char>)>),
>
    decreases pairs.len(),
{
    if pairs.len() == 0 {
        Seq::empty()
    } else {
        add_to_group(group_edits(pairs.drop_last()), pairs.last().0, pairs.last().1)
    }
}

/// The edits of one manifest.
#[derive(Debug)]
pub struct ManifestEdits {
    pub manifest_path: String,
    pub edits: Vec<(String, String)>,
}

/// The view of a list of per-manifest edits.
pub open spec fn groups_view(v: Seq<ManifestEdits>) -> Seq<(Seq<char>, Seq<(Seq<char>, Seq<char>)>)> {
    v.map_values(|g: ManifestEdits| (g.manifest_path@, edits_view(g.edits@)))
}

/// No manifest has two groups.
pub open spec fn distinct_groups(g: Seq<(Seq<char>, Seq<(Seq<char>, Seq<char>)>)>) -> bool {
    forall|i: int, j: int| 0 <= i < j < g.len() ==> #[trigger] g[i].0 != #[trigger] g[j].0
}

fn add_to_group_exec(groups: &mut Vec<ManifestEdits>, path: &String, name: &String, version: &String)
    requires
        distinct_groups(groups_view(old(groups)@)),
    ensures
        groups_view(final(groups)@) == add_to_group(groups_view(old(groups)@), path@, (name@, version@)),
        distinct_groups(groups_view(final(groups)@)),
{
    let ghost before = groups_view(groups@);
    let mut i: usize = 0;
    while i < groups.len()
        invariant
            before == groups_view(groups@),
            groups@ == old(groups)@,
            distinct_groups(before),
            i <= groups@.len(),
            forall|k: int| 0 <= k < i ==> #[trigger] before[k].0 != path@,
        decreases groups@.len() - i,
    {
        if str_eq(groups[i].manifest_path.as_str(), path.as_str()) {
            let mut edits: Vec<(String, String)> = Vec::new();
            let mut k: usize = 0;
            while k < groups[i as usize].edits.len()
                invariant
                    before == groups_view(groups@),
                    i < groups@.len(),
                    k <= groups@[i as int].edits@.len(),
                    edits_view(edits@) == edits_view(groups@[i as int].edits@).subrange(0, k as int),
                decreases groups@[i as int].edits@.len() - k,
            {
                let e = &groups[i].edits[k];
                push_edit(&mut edits, e.0.clone(), e.1.clone());
                k = k + 1;
            }
            push_edit(&mut edits, name.clone(), version.clone());
            let g = ManifestEdits { manifest_path: path.clone(), edits };
            proof {
                let old_edits = edits_view(groups@[i as int].edits@);
                assert(old_edits.subrange(0, old_edits.len() as int) =~= old_edits);
                assert(before[i as int].0 == path@);
                let j = choose|j: int| 0 <= j < before.len() && #[trigger] before[j].0 == path@;
                if j != i {
                    assert(before[j].0 != before[i as int].0);
                }
            }
            groups.set(i, g);
            proof {
                let after = groups_view(groups@);
                assert(after =~= add_to_group(before, path@, (name@, version@)));
                assert forall|a: int, b: int| 0 <= a < b < after.len() implies #[trigger] after[a].0
                    != #[trigger] after[b].0 by {
                    assert(after[a].0 == before[a].0 && after[b].0 == before[b].0);
                }
            }
            return;
        }
        i = i + 1;
    }
    let mut edits: Vec<(String, String)> = Vec::new();
    push_edit(&mut edits, name.clone(), version.clone());
    groups.push(ManifestEdits { manifest_path: path.clone(), edits });
    proof {
        let after = groups_view(groups@);
        assert(edits_view(edits@) =~= seq![(name@, version@)]);
        assert(after =~= before.push((path@, seq![(name@, version@)])));
        assert forall|a: int, b: int| 0 <= a < b < after.len() implies #[trigger] after[a].0
            != #[trigger] after[b].0 by {
            assert(after[a].0 == before[a].0);
            if b < before.len() {
                assert(after[b].0 == before[b].0);
            }
        }
    }
}

/// The edits of member manifests for the selected aggregated dependencies
/// (positions into `aggs`): one group per manifest, in order of first
/// appearance, holding its edits in selection order.
pub fn member_edits(aggs: &Vec<AggregatedDep>, selected: &Vec<usize>) -> (r: Vec<ManifestEdits>)
    requires
        forall|k: int| 0 <= k < selected@.len() ==> #[trigger] selected@[k] < aggs@.len(),
    ensures
        groups_view(r@) == group_edits(member_edit_pairs(aggs_view(aggs@), idx_view(selected@))),
        distinct_groups(groups_view(r@)),
{
    let ghost av = aggs_view(aggs@);
    let ghost sv = idx_view(selected@);
    let mut groups: Vec<ManifestEdits> = Vec::new();
    let mut i: usize = 0;
    assert(groups_view(groups@) =~= Seq::<(Seq<char>, Seq<(Seq<char>, Seq<char>)>)>::empty());
    while i < selected.len()
        invariant
            i <= selected@.len(),
            av == aggs_view(aggs@),
            sv == idx_view(selected@),
            forall|k: int| 0 <= k < selected@.len() ==> #[trigger] selected@[k] < aggs@.len(),
            groups_view(groups@) == group_edits(member_edit_pairs(av, sv.subrange(0, i as int))),
            distinct_groups(groups_view(groups@)),
        decreases selected@.len() - i,
    {
        let a = &aggs[selected[i]];
        let ghost prefix = member_edit_pairs(av, sv.subrange(0, i as int));
        proof {
            assert(sv.subrange(0, i + 1).drop_last() =~= sv.subrange(0, i as int));
            assert(sv.subrange(0, i + 1).last() == selected@[i as int] as int);
            assert(av[selected@[i as int] as int] == a@);
        }
        if !a.dep.is_workspace_inherited {
            match &a.dep.latest_version {
                Some(l) => {
                    let version = l.to_string();
                    let ghost added = a@.member_manifests.map_values(
                        |p: Seq<char>| (p, (a.dep.name@, version@)),
                    );
                    let mut k: usize = 0;
                    while k < a.member_manifests.len()
                        invariant
                            k <= a.member_manifests@.len(),
                            added == a@.member_manifests.map_values(
                                |p: Seq<char>| (p, (a.dep.name@, version@)),
                            ),
                            groups_view(groups@) == group_edits(prefix + added.subrange(0, k as int)),
                            distinct_groups(groups_view(groups@)),
                        decreases a.member_manifests@.len() - k,
                    {
                        add_to_group_exec(&mut groups, &a.member_manifests[k], &a.dep.name, &version);
                        proof {
                            let p1 = prefix + added.subrange(0, k + 1);
                            assert(p1.drop_last() =~= prefix + added.subrange(0, k as int));
                            assert(p1.last() == added[k as int]);
                            assert(added[k as int] == (a.member_manifests@[k as int]@, (a.dep.name@, version@)));
                        }
                        k = k + 1;
                    }
                    proof {
                        assert(added.subrange(0, added.len() as int) =~= added);
                    }
                },
                None => {
                    assert(prefix + Seq::empty() =~= prefix);
                },
            }
        }
        i = i + 1;
    }
    assert(sv.subrange(0, sv.len() as int) =~= sv);
    groups
}

/// The text after applying `edits` in order; an edit whose dependency is
/// not found leaves the text as it was.
pub open spec fn apply_edits(text: Seq<char>, edits: Seq<(Seq<char>, Seq<char>)>) -> Seq<char>
    decreases edits.len(),
{
    if edits.len() == 0 {
        text
    } else {
        let before = apply_edits(text, edits.drop_last());
        match updated_text(before, edits.last().0, edits.last().1) {
            Some(u) => u,
            None => before,
        }
    }
}

/// Applies `edits` to manifest text in order.  Returns the final text and,
/// for each edit, whether it applied or why not.
pub fn apply_version_edits(content: &str, edits: &Vec<(String, String)>) -> (r: (
    String,
    Vec<Result<(), UpdateError>>,
))
    ensures
        r.0@ == apply_edits(content@, edits_view(edits@)),
        r.1@.len() == edits@.len(),
        forall|k: int|
            0 <= k < edits@.len() ==> ((#[trigger] r.1@[k]) is Ok <==> updated_text(
                apply_edits(content@, edits_view(edits@).subrange(0, k)),
                edits@[k].0@,
                edits@[k].1@,
            ) is Some),
{
    let ghost ev = edits_view(edits@);
    let mut text = String::from_str(content);
    let mut outcomes: Vec<Result<(), UpdateError>> = Vec::new();
    let mut i: usize = 0;
    assert(ev.subrange(0, 0) =~= Seq::<(Seq<char>, Seq<char>)>::empty());
    while i < edits.len()
        invariant
            i <= edits@.len(),
            ev == edits_view(edits@),
            text@ == apply_edits(content@, ev.subrange(0, i as int)),
            outcomes@.len() == i,
            forall|k: int|
                0 <= k < i ==> ((#[trigger] outcomes@[k]) is Ok <==> updated_text(
                    apply_edits(content@, ev.subrange(0, k)),
                    edits@[k].0@,
                    edits@[k].1@,
                ) is Some),
        decreases edits@.len() - i,
    {
        let e = &edits[i];
        proof {
            assert(ev.subrange(0, i + 1).drop_last() =~= ev.subrange(0, i as int));
            assert(ev.subrange(0, i + 1).last() == (e.0@, e.1@));
        }
        match update_version_in_content(text.as_str(), e.0.as_str(), e.1.as_str()) {
            Ok(updated) => {
                text = updated;
                outcomes.push(Ok(()));
            },
            Err(err) => {
                outcomes.push(Err(err));
            },
        }
        i = i + 1;
    }
    assert(ev.subrange(0, ev.len() as int) =~= ev);
    (text, outcomes)
}


/// The icon of an update kind.
pub open spec fn icon_text(t: UpdateType) -> Seq<char> {
    match t {
        UpdateType::Patch => "🟢"@,
        UpdateType::Minor => "🟡"@,
        UpdateType::Major => "🔴"@,
        UpdateType::UpToDate => "✅"@,
    }
}

/// The icon of an update kind.
pub fn update_icon(t: UpdateType) -> (r: &'static str)
    ensures
        r@ == icon_text(t),
{
    match t {
        UpdateType::Patch => "🟢",
        UpdateType::Minor => "🟡",
        UpdateType::Major => "🔴",
        UpdateType::UpToDate => "✅",
    }
}

/// The badge of an update kind in the list of updates to apply.
pub fn update_badge(t: UpdateType) -> (r: &'static str)
    ensures
        r@ == match t {
            UpdateType::Patch => "🟢 PATCH"@,
            UpdateType::Minor => "🟡 MINOR"@,
            UpdateType::Major => "🔴 MAJOR"@,
            UpdateType::UpToDate => "✅ UP-TO-DATE"@,
        },
{
    match t {
        UpdateType::Patch => "🟢 PATCH",
        UpdateType::Minor => "🟡 MINOR",
        UpdateType::Major => "🔴 MAJOR",
        UpdateType::UpToDate => "✅ UP-TO-DATE",
    }
}

/// What an update kind means for compatibility.
pub fn update_description(t: UpdateType) -> (r: &'static str)
    ensures
        r@ == match t {
            UpdateType::Patch => "patch update - likely safe"@,
            UpdateType::Minor => "minor update - should be backwards compatible"@,
            UpdateType::Major => "major update - may contain breaking changes"@,
            UpdateType::UpToDate => "up to date"@,
        },
{
    match t {
        UpdateType::Patch => "patch update - likely safe",
        UpdateType::Minor => "minor update - should be backwards compatible",
        UpdateType::Major => "major update - may contain breaking changes",
        UpdateType::UpToDate => "up to date",
    }
}

/// The marker shown after a workspace-inherited dependency.
pub fn workspace_marker(is_inherited: bool) -> (r: &'static str)
    ensures
        r@ == if is_inherited {
            " [workspace]"@
        } else {
            ""@
        },
{
    if is_inherited {
        " [workspace]"
    } else {
        ""
    }
}

/// The marker shown after an aggregated dependency: ` [workspace]` when
/// inherited, else the number of member manifests that use it.
pub fn aggregated_marker(dep: &Dependency, member_count: usize) -> (r: String)
    ensures
        r@ == if dep.is_workspace_inherited {
            " [workspace]"@
        } else {
            " ["@ + decimal(member_count as nat) + " member(s)]"@
        },
{
    if dep.is_workspace_inherited {
        String::from_str(" [workspace]")
    } else {
        let mut s = String::from_str(" [");
        push_decimal(&mut s, member_count as u64);
        s.append(" member(s)]");
        s
    }
}

/// The label of a dependency with an update, in the selection prompt:
/// icon, name, ` [ws]` when inherited, current and latest version.
pub open spec fn selection_text(d: DependencyView, marker: Seq<char>) -> Seq<char> {
    icon_text(update_kind(d.current, d.latest)) + " "@ + d.name + marker + " "@ + version_text(
        d.current,
    ) + " → "@ + version_text(d.latest.unwrap())
}

fn label_with_marker(dep: &Dependency, marker: &str) -> (r: String)
    requires
        dep@.latest is Some,
    ensures
        r@ == selection_text(dep@, marker@),
{
    let mut s = String::from_str(update_icon(dep.update_type()));
    s.append(" ");
    s.append(dep.name.as_str());
    s.append(marker);
    s.append(" ");
    let current = dep.current_version.to_string();
    s.append(current.as_str());
    s.append(" → ");
    match &dep.latest_version {
        Some(l) => {
            let latest = l.to_string();
            s.append(latest.as_str());
        },
        None => {},
    }
    s
}

/// The label of a dependency in the selection prompt.
pub fn selection_label(dep: &Dependency) -> (r: String)
    requires
        dep@.latest is Some,
    ensures
        r@ == selection_text(
            dep@,
            if dep.is_workspace_inherited {
                " [ws]"@
            } else {
                ""@
            },
        ),
{
    if dep.is_workspace_inherited {
        label_with_marker(dep, " [ws]")
    } else {
        label_with_marker(dep, "")
    }
}

/// The label of an aggregated dependency in the selection prompt; the
/// marker is ` [ws]` when inherited, else ` [Nm]` with the number of member
/// manifests.
pub fn aggregated_selection_label(agg: &AggregatedDep) -> (r: String)
    requires
        agg@.dep.latest is Some,
    ensures
        r@ == selection_text(
            agg@.dep,
            if agg.dep.is_workspace_inherited {
                " [ws]"@
            } else {
                " ["@ + decimal(agg.member_manifests@.len() as nat) + "m]"@
            },
        ),
{
    if agg.dep.is_workspace_inherited {
        label_with_marker(&agg.dep, " [ws]")
    } else {
        let mut m = String::from_str(" [");
        push_decimal(&mut m, agg.member_manifests.len() as u64);
        m.append("m]");
        label_with_marker(&agg.dep, m.as_str())
    }
}

} // verus!
