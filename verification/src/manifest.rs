//! The parts of a `Cargo.toml` manifest that dependency analysis reads.

use vstd::prelude::*;
use vstd::string::*;
use crate::text::str_eq;

verus! {

/// The view of an optional string.
pub open spec fn opt_str(o: Option<String>) -> Option<Seq<char>> {
    match o {
        Some(s) => Some(s@),
        None => None,
    }
}

/// The view of a list of strings.
pub open spec fn strs_view(v: Seq<String>) -> Seq<Seq<char>> {
    v.map_values(|s: String| s@)
}

/// The view of an optional list of strings.
pub open spec fn opt_strs(o: Option<Vec<String>>) -> Option<Seq<Seq<char>>> {
    match o {
        Some(v) => Some(strs_view(v@)),
        None => None,
    }
}

/// A copy of an optional string.
pub fn copy_opt_string(o: &Option<String>) -> (r: Option<String>)
    ensures
        opt_str(r) == opt_str(*o),
{
    match o {
        Some(s) => Some(s.clone()),
        None => None,
    }
}

/// A copy of a list of strings.
pub fn copy_strings(v: &Vec<String>) -> (r: Vec<String>)
    ensures
        strs_view(r@) == strs_view(v@),
{
    let mut out: Vec<String> = Vec::new();
    let mut i: usize = 0;
    while i < v.len()
        invariant
            i <= v@.len(),
            out@.len() == i,
            strs_view(out@) == strs_view(v@.subrange(0, i as int)),
        decreases v@.len() - i,
    {
        let ghost prev = out@;
        out.push(v[i].clone());
        proof {
            assert(out@ == prev.push(v@[i as int]));
            assert forall|k: int| 0 <= k < i + 1 implies #[trigger] strs_view(out@)[k] == strs_view(
                v@.subrange(0, i + 1),
            )[k] by {
                assert(strs_view(out@)[k] == out@[k]@);
                assert(strs_view(v@.subrange(0, i + 1))[k] == v@.subrange(0, i + 1)[k]@);
                if k < i {
                    assert(strs_view(prev)[k] == strs_view(v@.subrange(0, i as int))[k]);
                    assert(strs_view(prev)[k] == prev[k]@);
                    assert(strs_view(v@.subrange(0, i as int))[k] == v@.subrange(0, i as int)[k]@);
                }
            }
        }
        i = i + 1;
        assert(strs_view(out@) =~= strs_view(v@.subrange(0, i as int)));
    }
    assert(v@.subrange(0, v@.len() as int) =~= v@);
    out
}

/// A copy of an optional list of strings.
pub fn copy_opt_strings(o: &Option<Vec<String>>) -> (r: Option<Vec<String>>)
    ensures
        opt_strs(r) == opt_strs(*o),
{
    match o {
        Some(v) => Some(copy_strings(v)),
        None => None,
    }
}

/// A field that is either given in place or inherited from the workspace
/// (`field.workspace = true`).
#[derive(Debug, Clone)]
pub enum InheritableField<T> {
    Value(T),
    Workspace { workspace: bool },
}

impl<T> InheritableField<T> {
    /// The value if it is given in place (not inherited from the workspace).
    pub fn as_value(&self) -> (r: Option<&T>)
        ensures
            match self {
                InheritableField::Value(v) => r == Some(v),
                InheritableField::Workspace { .. } => r is None,
            },
    {
        match self {
            InheritableField::Value(v) => Some(v),
            InheritableField::Workspace { .. } => None,
        }
    }

    /// Whether the field is inherited from the workspace.
    pub fn is_workspace(&self) -> (r: bool)
        ensures
            r == (self is Workspace),
    {
        match self {
            InheritableField::Value(_) => false,
            InheritableField::Workspace { .. } => true,
        }
    }
}

/// The `[package]` table.
#[derive(Debug, Clone)]
pub struct Package {
    pub name: String,
    pub version: InheritableField<String>,
    pub edition: Option<InheritableField<String>>,
}

/// The view of a detailed dependency entry.
pub struct DetailedView {
    pub version: Option<Seq<char>>,
    pub git: Option<Seq<char>>,
    pub path: Option<Seq<char>>,
    pub features: Option<Seq<Seq<char>>>,
    pub optional: Option<bool>,
    pub default_features: Option<bool>,
}

/// A dependency given as a table: `name = { version = "...", ... }`.
#[derive(Debug)]
pub struct DetailedDependency {
    pub version: Option<String>,
    pub git: Option<String>,
    pub path: Option<String>,
    pub features: Option<Vec<String>>,
    pub optional: Option<bool>,
    pub default_features: Option<bool>,
}

impl View for DetailedDependency {
    type V = DetailedView;

    open spec fn view(&self) -> DetailedView {
        DetailedView {
            version: opt_str(self.version),
            git: opt_str(self.git),
            path: opt_str(self.path),
            features: opt_strs(self.features),
            optional: self.optional,
            default_features: self.default_features,
        }
    }
}

impl DetailedDependency {
    /// A copy of this entry.
    pub fn copy(&self) -> (r: Self)
        ensures
            r@ == self@,
    {
        DetailedDependency {
            version: copy_opt_string(&self.version),
            git: copy_opt_string(&self.git),
            path: copy_opt_string(&self.path),
            features: copy_opt_strings(&self.features),
            optional: self.optional,
            default_features: self.default_features,
        }
    }
}

impl Clone for DetailedDependency {
    fn clone(&self) -> (r: Self)
        ensures
            r@ == self@,
    {
        self.copy()
    }
}

/// The view of a dependency entry.
pub enum DependencySpecView {
    Simple(Seq<char>),
    Detailed(DetailedView),
    Workspace(bool),
}

/// How a dependency is declared.
#[derive(Debug)]
pub enum DependencySpec {
    /// `name = "1.0"`
    Simple(String),
    /// `name = { version = "1.0", ... }`
    Detailed(DetailedDependency),
    /// `name.workspace = true`
    Workspace { workspace: bool },
}

impl View for DependencySpec {
    type V = DependencySpecView;

    open spec fn view(&self) -> DependencySpecView {
        match self {
            DependencySpec::Simple(v) => DependencySpecView::Simple(v@),
            DependencySpec::Detailed(d) => DependencySpecView::Detailed(d@),
            DependencySpec::Workspace { workspace } => DependencySpecView::Workspace(*workspace),
        }
    }
}

/// The version text of a dependency entry, when it gives one in place.
pub open spec fn spec_version(s: DependencySpecView) -> Option<Seq<char>> {
    match s {
        DependencySpecView::Simple(v) => Some(v),
        DependencySpecView::Detailed(d) => d.version,
        DependencySpecView::Workspace(_) => None,
    }
}

/// The entry names a git source.
pub open spec fn spec_is_git(s: DependencySpecView) -> bool {
    s matches DependencySpecView::Detailed(d) && d.git is Some
}

/// The entry names a path source.
pub open spec fn spec_is_path(s: DependencySpecView) -> bool {
    s matches DependencySpecView::Detailed(d) && d.path is Some
}

impl DependencySpec {
    /// The version text, if the entry gives one in place.
    pub fn version(&self) -> (r: Option<&str>)
        ensures
            match r {
                Some(v) => spec_version(self@) == Some(v@),
                None => spec_version(self@) is None,
            },
    {
        match self {
            DependencySpec::Simple(v) => Some(v.as_str()),
            DependencySpec::Detailed(d) => match &d.version {
                Some(v) => Some(v.as_str()),
                None => None,
            },
            DependencySpec::Workspace { .. } => None,
        }
    }

    /// Whether this is a git dependency.
    pub fn is_git(&self) -> (r: bool)
        ensures
            r == spec_is_git(self@),
    {
        match self {
            DependencySpec::Detailed(d) => d.git.is_some(),
            _ => false,
        }
    }

    /// Whether this is a path dependency.
    pub fn is_path(&self) -> (r: bool)
        ensures
            r == spec_is_path(self@),
    {
        match self {
            DependencySpec::Detailed(d) => d.path.is_some(),
            _ => false,
        }
    }

    /// Whether this dependency comes from crates.io (neither git nor path).
    pub fn is_crates_io(&self) -> (r: bool)
        ensures
            r == (!spec_is_git(self@) && !spec_is_path(self@)),
    {
        !self.is_git() && !self.is_path()
    }

    /// Whether this dependency is inherited from the workspace
    /// (`name.workspace = ...`).
    pub fn is_workspace(&self) -> (r: bool)
        ensures
            r == (self@ is Workspace),
    {
        match self {
            DependencySpec::Workspace { .. } => true,
            _ => false,
        }
    }

    /// A copy of this entry.
    pub fn copy(&self) -> (r: Self)
        ensures
            r@ == self@,
    {
        match self {
            DependencySpec::Simple(v) => DependencySpec::Simple(v.clone()),
            DependencySpec::Detailed(d) => DependencySpec::Detailed(d.copy()),
            DependencySpec::Workspace { workspace } => DependencySpec::Workspace {
                workspace: *workspace,
            },
        }
    }
}

impl Clone for DependencySpec {
    fn clone(&self) -> (r: Self)
        ensures
            r@ == self@,
    {
        self.copy()
    }
}

/// The view of a list of named entries.
pub open spec fn entries_view(v: Seq<(String, DependencySpec)>) -> Seq<(Seq<char>, DependencySpecView)> {
    v.map_values(|e: (String, DependencySpec)| (e.0@, e.1@))
}

/// The entry for `name` in a list of named entries (the first one).
pub open spec fn table_lookup(t: Seq<(Seq<char>, DependencySpecView)>, name: Seq<char>) -> Option<
    DependencySpecView,
>
    decreases t.len(),
{
    if t.len() == 0 {
        None
    } else if t[0].0 == name {
        Some(t[0].1)
    } else {
        table_lookup(t.drop_first(), name)
    }
}

/// `t` with the entry for `name` set to `spec`: replaced in place when `name`
/// is present, else appended.
pub open spec fn table_insert(
    t: Seq<(Seq<char>, DependencySpecView)>,
    name: Seq<char>,
    spec: DependencySpecView,
) -> Seq<(Seq<char>, DependencySpecView)> {
    if exists|i: int| 0 <= i < t.len() && #[trigger] t[i].0 == name {
        let i = choose|i: int| 0 <= i < t.len() && #[trigger] t[i].0 == name;
        t.update(i, (name, spec))
    } else {
        t.push((name, spec))
    }
}

/// No name occurs twice.
pub open spec fn distinct_names(t: Seq<(Seq<char>, DependencySpecView)>) -> bool {
    forall|i: int, j: int| 0 <= i < j < t.len() ==> #[trigger] t[i].0 != #[trigger] t[j].0
}

/// A TOML table of dependencies: named entries in which no name occurs twice.
///
/// The entries are a `Vec` with that invariant rather than a map keyed by
/// `String`: what a lookup or an insertion does is then proved from the
/// entries themselves, whereas Verus knows next to nothing of a `HashMap`
/// with `String` keys.  The entries keep the order in which they were
/// inserted (a `HashMap` gives no particular order).
#[derive(Debug)]
pub struct DependencyTable {
    entries: Vec<(String, DependencySpec)>,
}

impl View for DependencyTable {
    type V = Seq<(Seq<char>, DependencySpecView)>;

    closed spec fn view(&self) -> Seq<(Seq<char>, DependencySpecView)> {
        entries_view(self.entries@)
    }
}

proof fn lemma_lookup_suffix(t: Seq<(Seq<char>, DependencySpecView)>, i: int, name: Seq<char>)
    requires
        0 <= i < t.len(),
        t[i].0 != name,
    ensures
        table_lookup(t.subrange(i, t.len() as int), name) == table_lookup(
            t.subrange(i + 1, t.len() as int),
            name,
        ),
{
    assert(t.subrange(i, t.len() as int).drop_first() =~= t.subrange(i + 1, t.len() as int));
}

/// Looking up a name that occurs at `i` in a table without repeated names
/// finds the entry at `i`.
proof fn lemma_lookup_at(t: Seq<(Seq<char>, DependencySpecView)>, i: int)
    requires
        0 <= i < t.len(),
        distinct_names(t),
    ensures
        table_lookup(t, t[i].0) == Some(t[i].1),
    decreases i,
{
    if i > 0 {
        assert(t[0].0 != t[i].0);
        let u = t.drop_first();
        assert(distinct_names(u)) by {
            assert forall|a: int, b: int| 0 <= a < b < u.len() implies #[trigger] u[a].0
                != #[trigger] u[b].0 by {
                assert(u[a] == t[a + 1] && u[b] == t[b + 1]);
            }
        }
        assert(u[i - 1] == t[i]);
        lemma_lookup_at(u, i - 1);
    }
}

/// Looking up a name that does not occur finds nothing.
proof fn lemma_lookup_absent(t: Seq<(Seq<char>, DependencySpecView)>, name: Seq<char>)
    requires
        forall|i: int| 0 <= i < t.len() ==> #[trigger] t[i].0 != name,
    ensures
        table_lookup(t, name) is None,
    decreases t.len(),
{
    if t.len() > 0 {
        let u = t.drop_first();
        assert forall|i: int| 0 <= i < u.len() implies #[trigger] u[i].0 != name by {
            assert(u[i] == t[i + 1]);
        }
        lemma_lookup_absent(u, name);
    }
}

/// After setting the entry for `name`, looking `name` up gives the new entry
/// and looking up any other name gives what it gave before; no name occurs
/// twice afterwards.
pub proof fn law_table_insert_lookup(
    t: Seq<(Seq<char>, DependencySpecView)>,
    name: Seq<char>,
    spec: DependencySpecView,
    other: Seq<char>,
)
    requires
        distinct_names(t),
        other != name,
    ensures
        distinct_names(table_insert(t, name, spec)),
        table_lookup(table_insert(t, name, spec), name) == Some(spec),
        table_lookup(table_insert(t, name, spec), other) == table_lookup(t, other),
{
    let u = table_insert(t, name, spec);
    if exists|i: int| 0 <= i < t.len() && #[trigger] t[i].0 == name {
        let i = choose|i: int| 0 <= i < t.len() && #[trigger] t[i].0 == name;
        assert(u == t.update(i, (name, spec)));
        assert(distinct_names(u)) by {
            assert forall|a: int, b: int| 0 <= a < b < u.len() implies #[trigger] u[a].0
                != #[trigger] u[b].0 by {
                if a == i {
                    assert(t[b].0 != t[i].0);
                } else if b == i {
                    assert(t[a].0 != t[i].0);
                } else {
                    assert(t[a].0 != t[b].0);
                }
            }
        }
        assert(u[i] == (name, spec));
        lemma_lookup_at(u, i);
        if exists|j: int| 0 <= j < t.len() && #[trigger] t[j].0 == other {
            let j = choose|j: int| 0 <= j < t.len() && #[trigger] t[j].0 == other;
            assert(j != i);
            assert(u[j] == t[j]);
            lemma_lookup_at(u, j);
            lemma_lookup_at(t, j);
        } else {
            assert forall|k: int| 0 <= k < u.len() implies #[trigger] u[k].0 != other by {
                if k != i {
                    assert(u[k] == t[k]);
                }
            }
            lemma_lookup_absent(u, other);
            lemma_lookup_absent(t, other);
        }
    } else {
        assert(u == t.push((name, spec)));
        assert(distinct_names(u)) by {
            assert forall|a: int, b: int| 0 <= a < b < u.len() implies #[trigger] u[a].0
                != #[trigger] u[b].0 by {
                if b == t.len() {
                    assert(u[a] == t[a]);
                } else {
                    assert(u[a] == t[a] && u[b] == t[b]);
                }
            }
        }
        assert(u[t.len() as int] == (name, spec));
        lemma_lookup_at(u, t.len() as int);
        if exists|j: int| 0 <= j < t.len() && #[trigger] t[j].0 == other {
            let j = choose|j: int| 0 <= j < t.len() && #[trigger] t[j].0 == other;
            assert(u[j] == t[j]);
            lemma_lookup_at(u, j);
            lemma_lookup_at(t, j);
        } else {
            assert forall|k: int| 0 <= k < u.len() implies #[trigger] u[k].0 != other by {
                if k < t.len() {
                    assert(u[k] == t[k]);
                }
            }
            lemma_lookup_absent(u, other);
            lemma_lookup_absent(t, other);
        }
    }
}

impl DependencyTable {
    /// No name occurs twice.
    #[verifier::type_invariant]
    spec fn names_distinct(self) -> bool {
        distinct_names(entries_view(self.entries@))
    }

    /// An empty table.
    pub fn new() -> (r: Self)
        ensures
            r@ == Seq::<(Seq<char>, DependencySpecView)>::empty(),
    {
        let r = DependencyTable { entries: Vec::new() };
        assert(entries_view(r.entries@) =~= Seq::<(Seq<char>, DependencySpecView)>::empty());
        r
    }

    /// Number of entries.
    pub fn len(&self) -> (r: usize)
        ensures
            r == self@.len(),
    {
        self.entries.len()
    }

    /// The entry at position `i`.
    pub fn entry(&self, i: usize) -> (r: (&String, &DependencySpec))
        requires
            i < self@.len(),
        ensures
            (r.0@, r.1@) == self@[i as int],
    {
        let e = &self.entries[i];
        (&e.0, &e.1)
    }

    /// Sets the entry for `name`: replaced in place if present, else appended.
    pub fn insert(&mut self, name: String, spec: DependencySpec)
        ensures
            final(self)@ == table_insert(old(self)@, name@, spec@),
    {
        proof {
            use_type_invariant(&*self);
        }
        let ghost t = self@;
        let mut i: usize = 0;
        while i < self.entries.len()
            invariant
                t == entries_view(self.entries@),
                t == old(self)@,
                distinct_names(t),
                i <= self.entries@.len(),
                forall|k: int| 0 <= k < i ==> #[trigger] t[k].0 != name@,
            decreases self.entries@.len() - i,
        {
            if str_eq(self.entries[i].0.as_str(), name.as_str()) {
                let ghost new_view = t.update(i as int, (name@, spec@));
                proof {
                    assert(t[i as int].0 == name@);
                    assert forall|k: int| 0 <= k < t.len() && #[trigger] t[k].0 == name@ implies k
                        == i by {
                        if k < i {
                        } else if k > i {
                            assert(t[i as int].0 != t[k].0);
                        }
                    }
                }
                let mut entries = Vec::new();
                std::mem::swap(&mut entries, &mut self.entries);
                entries.set(i, (name, spec));
                proof {
                    assert(entries_view(entries@) =~= new_view);
                    assert(distinct_names(new_view)) by {
                        assert forall|a: int, b: int| 0 <= a < b < new_view.len() implies #[trigger] new_view[a].0
                            != #[trigger] new_view[b].0 by {
                            if a != i && b != i {
                                assert(t[a].0 != t[b].0);
                            }
                        }
                    }
                }
                self.entries = entries;
                proof {
                    assert(exists|j: int| 0 <= j < t.len() && #[trigger] t[j].0 == name@);
                    let j = choose|j: int| 0 <= j < t.len() && #[trigger] t[j].0 == name@;
                    assert(j == i);
                    assert(table_insert(t, name@, spec@) == t.update(j, (name@, spec@)));
                    assert(self@ == new_view);
                    assert(t == old(self)@);
                    assert(self@ == table_insert(old(self)@, name@, spec@));
                }
                return;
            }
            i = i + 1;
        }
        let mut entries = Vec::new();
        std::mem::swap(&mut entries, &mut self.entries);
        entries.push((name, spec));
        proof {
            let new_view = t.push((name@, spec@));
            assert(entries_view(entries@) =~= new_view);
            assert(distinct_names(new_view)) by {
                assert forall|a: int, b: int| 0 <= a < b < new_view.len() implies #[trigger] new_view[a].0
                    != #[trigger] new_view[b].0 by {
                    if b < t.len() {
                        assert(t[a].0 != t[b].0);
                    }
                }
            }
        }
        self.entries = entries;
    }

    /// The entry for `name`, if any.
    pub fn get(&self, name: &str) -> (r: Option<&DependencySpec>)
        ensures
            match r {
                Some(s) => table_lookup(self@, name@) == Some(s@),
                None => table_lookup(self@, name@) is None,
            },
    {
        let ghost t = self@;
        assert(t.subrange(0, t.len() as int) =~= t);
        let mut i: usize = 0;
        while i < self.entries.len()
            invariant
                t == entries_view(self.entries@),
                i <= self.entries@.len(),
                table_lookup(t, name@) == table_lookup(t.subrange(i as int, t.len() as int), name@),
            decreases self.entries@.len() - i,
        {
            if str_eq(self.entries[i].0.as_str(), name) {
                assert(t.subrange(i as int, t.len() as int)[0] == t[i as int]);
                return Some(&self.entries[i].1);
            }
            proof {
                lemma_lookup_suffix(t, i as int, name@);
            }
            i = i + 1;
        }
        None
    }

    /// All entries, in order; no name occurs twice.
    pub fn to_vec(&self) -> (r: Vec<(String, DependencySpec)>)
        ensures
            entries_view(r@) == self@,
            distinct_names(entries_view(r@)),
    {
        proof {
            use_type_invariant(self);
        }
        let mut out: Vec<(String, DependencySpec)> = Vec::new();
        let mut i: usize = 0;
        while i < self.entries.len()
            invariant
                i <= self.entries@.len(),
                out@.len() == i,
                entries_view(out@) == entries_view(self.entries@.subrange(0, i as int)),
            decreases self.entries@.len() - i,
        {
            let e = &self.entries[i];
            let ghost prev = out@;
            let pair = (e.0.clone(), e.1.copy());
            out.push(pair);
            proof {
                assert(out@ == prev.push(pair));
                assert forall|k: int| 0 <= k < i + 1 implies #[trigger] entries_view(out@)[k]
                    == entries_view(self.entries@.subrange(0, i + 1))[k] by {
                    assert(entries_view(out@)[k] == (out@[k].0@, out@[k].1@));
                    assert(entries_view(self.entries@.subrange(0, i + 1))[k] == (
                        self.entries@.subrange(0, i + 1)[k].0@,
                        self.entries@.subrange(0, i + 1)[k].1@,
                    ));
                    if k < i {
                        assert(entries_view(prev)[k] == entries_view(
                            self.entries@.subrange(0, i as int),
                        )[k]);
                        assert(entries_view(prev)[k] == (prev[k].0@, prev[k].1@));
                        assert(entries_view(self.entries@.subrange(0, i as int))[k] == (
                            self.entries@.subrange(0, i as int)[k].0@,
                            self.entries@.subrange(0, i as int)[k].1@,
                        ));
                    }
                }
            }
            i = i + 1;
            assert(entries_view(out@) =~= entries_view(self.entries@.subrange(0, i as int)));
        }
        assert(self.entries@.subrange(0, self.entries@.len() as int) =~= self.entries@);
        out
    }
}

/// The tables of a manifest that dependency analysis reads.
#[derive(Debug)]
pub struct ManifestContent {
    pub package: Option<Package>,
    pub dependencies: Option<DependencyTable>,
    pub dev_dependencies: Option<DependencyTable>,
    pub build_dependencies: Option<DependencyTable>,
}

/// A manifest and the path it was read from.
#[derive(Debug)]
pub struct Manifest {
    pub path: String,
    pub content: ManifestContent,
}

impl Manifest {
    /// All direct dependencies (the `[dependencies]` table), in table order;
    /// no name occurs twice.
    pub fn get_dependencies(&self) -> (r: Vec<(String, DependencySpec)>)
        ensures
            distinct_names(entries_view(r@)),
            match self.content.dependencies {
                Some(t) => entries_view(r@) == t@,
                None => r@.len() == 0,
            },
    {
        match &self.content.dependencies {
            Some(t) => t.to_vec(),
            None => Vec::new(),
        }
    }

    /// The package name, if the manifest has a `[package]` table.
    pub fn package_name(&self) -> (r: Option<&str>)
        ensures
            match self.content.package {
                Some(p) => r matches Some(n) && n@ == p.name@,
                None => r is None,
            },
    {
        match &self.content.package {
            Some(p) => Some(p.name.as_str()),
            None => None,
        }
    }
}

} // verus!
