//! Interpreting crates.io API responses, and the cache of latest versions.

use vstd::prelude::*;
use vstd::string::*;
use crate::version::{Version, VersionView, opt_view, parse_version, semver_parse};
use crate::text::str_eq;

verus! {

/// Information about a crate (`crate` in the response of `/crates/{name}`).
#[derive(Debug)]
pub struct CrateInfo {
    pub name: String,
    pub newest_version: String,
    pub description: Option<String>,
    pub updated_at: String,
}

/// The response of `/crates/{name}`.
#[derive(Debug)]
pub struct CrateResponse {
    pub krate: CrateInfo,
}

/// One published version (`/crates/{name}/versions`).
#[derive(Debug)]
pub struct VersionInfo {
    pub num: String,
    pub yanked: bool,
}

/// The response of `/crates/{name}/versions`.
#[derive(Debug)]
pub struct VersionsResponse {
    pub versions: Vec<VersionInfo>,
}

/// The newest version that a crate response announces, if its text parses.
pub fn latest_version(response: &CrateResponse) -> (r: Option<Version>)
    ensures
        opt_view(r) == semver_parse(response.krate.newest_version@),
{
    parse_version(response.krate.newest_version.as_str())
}

/// The versions of a list that are not yanked and whose text parses, in
/// order.
pub open spec fn usable_versions(infos: Seq<VersionInfo>) -> Seq<VersionView>
    decreases infos.len(),
{
    if infos.len() == 0 {
        Seq::empty()
    } else {
        let rest = usable_versions(infos.drop_last());
        let last = infos.last();
        if !last.yanked && semver_parse(last.num@) is Some {
            rest.push(semver_parse(last.num@).unwrap())
        } else {
            rest
        }
    }
}

/// Every published version that is not yanked and whose text parses is
/// offered, and nothing else is: a version is in the list exactly when some
/// entry of the response is not yanked and its text parses to it
/// (pre-releases included).
pub proof fn law_usable_versions_members(infos: Seq<VersionInfo>)
    ensures
        forall|i: int|
            0 <= i < infos.len() && !infos[i].yanked && (#[trigger] semver_parse(infos[i].num@)) is Some
                ==> usable_versions(infos).contains(semver_parse(infos[i].num@).unwrap()),
        forall|v: VersionView|
            usable_versions(infos).contains(v) ==> exists|i: int|
                0 <= i < infos.len() && !infos[i].yanked && #[trigger] semver_parse(infos[i].num@)
                    == Some(v),
    decreases infos.len(),
{
    if infos.len() > 0 {
        let init = infos.drop_last();
        law_usable_versions_members(init);
        let rest = usable_versions(init);
        let last = infos.last();
        assert forall|i: int|
            0 <= i < infos.len() && !infos[i].yanked && (#[trigger] semver_parse(infos[i].num@)) is Some
                implies usable_versions(infos).contains(semver_parse(infos[i].num@).unwrap()) by {
            let v = semver_parse(infos[i].num@).unwrap();
            if i < infos.len() - 1 {
                assert(init[i] == infos[i]);
                assert(semver_parse(init[i].num@) is Some);
                assert(rest.contains(v));
                let k = choose|k: int| 0 <= k < rest.len() && rest[k] == v;
                if !last.yanked && (semver_parse(last.num@) is Some) {
                    assert(usable_versions(infos)[k] == v);
                }
            } else {
                assert(usable_versions(infos) == rest.push(v));
                assert(usable_versions(infos)[rest.len() as int] == v);
            }
        }
        assert forall|v: VersionView| usable_versions(infos).contains(v) implies exists|i: int|
            0 <= i < infos.len() && !infos[i].yanked && #[trigger] semver_parse(infos[i].num@)
                == Some(v) by {
            let k = choose|k: int|
                0 <= k < usable_versions(infos).len() && usable_versions(infos)[k] == v;
            if k < rest.len() {
                assert(rest[k] == v);
                assert(rest.contains(v));
                let i = choose|i: int|
                    0 <= i < init.len() && !init[i].yanked && #[trigger] semver_parse(init[i].num@)
                        == Some(v);
                assert(init[i] == infos[i]);
            } else {
                let j = infos.len() - 1;
                assert(infos[j] == last);
                assert(semver_parse(infos[j].num@) == Some(v));
            }
        }
    }
}

/// The view of a list of versions.
pub open spec fn versions_view(v: Seq<Version>) -> Seq<VersionView> {
    v.map_values(|x: Version| x@)
}

/// All published versions of a crate: those not yanked whose text parses,
/// in the order of the response.
pub fn available_versions(response: &VersionsResponse) -> (r: Vec<Version>)
    ensures
        versions_view(r@) == usable_versions(response.versions@),
        forall|i: int|
            0 <= i < response.versions@.len() && !response.versions@[i].yanked && (
            #[trigger] semver_parse(response.versions@[i].num@)) is Some ==> versions_view(
                r@,
            ).contains(semver_parse(response.versions@[i].num@).unwrap()),
{
    proof {
        law_usable_versions_members(response.versions@);
    }
    let infos = &response.versions;
    let mut out: Vec<Version> = Vec::new();
    let mut i: usize = 0;
    while i < infos.len()
        invariant
            i <= infos@.len(),
            versions_view(out@) == usable_versions(infos@.subrange(0, i as int)),
        decreases infos@.len() - i,
    {
        let info = &infos[i];
        let ghost prev = out@;
        assert(infos@.subrange(0, i + 1).drop_last() =~= infos@.subrange(0, i as int));
        if !info.yanked {
            match parse_version(info.num.as_str()) {
                Some(v) => {
                    out.push(v);
                    assert(versions_view(out@) =~= versions_view(prev).push(out@.last()@));
                },
                None => {},
            }
        }
        i = i + 1;
    }
    assert(infos@.subrange(0, infos@.len() as int) =~= infos@);
    out
}

/// Latest versions already looked up, by crate name.
///
/// Held as a `Vec` of entries in which a later entry for a name wins
/// (`cache_map`) rather than as a `HashMap` keyed by `String`, so that what a
/// lookup gives after an insertion is proved; Verus knows next to nothing of
/// a `HashMap` with `String` keys.
#[derive(Debug)]
pub struct VersionCache {
    entries: Vec<(String, Version)>,
}

/// The map that a list of cache entries describes (later entries win).
pub open spec fn cache_map(entries: Seq<(String, Version)>) -> Map<Seq<char>, VersionView>
    decreases entries.len(),
{
    if entries.len() == 0 {
        Map::empty()
    } else {
        cache_map(entries.drop_last()).insert(entries.last().0@, entries.last().1@)
    }
}

impl View for VersionCache {
    type V = Map<Seq<char>, VersionView>;

    closed spec fn view(&self) -> Map<Seq<char>, VersionView> {
        cache_map(self.entries@)
    }
}

proof fn lemma_cache_map_domain(entries: Seq<(String, Version)>, k: Seq<char>)
    ensures
        cache_map(entries).contains_key(k) <==> exists|i: int|
            0 <= i < entries.len() && #[trigger] entries[i].0@ == k,
    decreases entries.len(),
{
    if entries.len() > 0 {
        lemma_cache_map_domain(entries.drop_last(), k);
        if exists|i: int| 0 <= i < entries.len() && #[trigger] entries[i].0@ == k {
            let i = choose|i: int| 0 <= i < entries.len() && #[trigger] entries[i].0@ == k;
            if i < entries.len() - 1 {
                assert(entries.drop_last()[i].0@ == k);
            }
        }
        if exists|i: int| 0 <= i < entries.len() - 1 && #[trigger] entries.drop_last()[i].0@ == k {
            let i = choose|i: int|
                0 <= i < entries.len() - 1 && #[trigger] entries.drop_last()[i].0@ == k;
            assert(entries[i].0@ == k);
        }
    }
}

/// The value for `k` is that of the last entry with that name.
proof fn lemma_cache_map_last(entries: Seq<(String, Version)>, i: int)
    requires
        0 <= i < entries.len(),
        forall|j: int| i < j < entries.len() ==> #[trigger] entries[j].0@ != entries[i].0@,
    ensures
        cache_map(entries).contains_key(entries[i].0@),
        cache_map(entries)[entries[i].0@] == entries[i].1@,
    decreases entries.len(),
{
    if i < entries.len() - 1 {
        let d = entries.drop_last();
        assert forall|j: int| i < j < d.len() implies #[trigger] d[j].0@ != d[i].0@ by {
            assert(d[j] == entries[j]);
        }
        lemma_cache_map_last(d, i);
        assert(entries.last() == entries[entries.len() - 1]);
    }
}

/// A cache lookup after recording a version for a crate gives that version;
/// lookups of other crates are unaffected.
pub proof fn law_cache_read_after_write(
    cache: Map<Seq<char>, VersionView>,
    name: Seq<char>,
    v: VersionView,
    other: Seq<char>,
)
    requires
        other != name,
    ensures
        cache.insert(name, v).contains_key(name),
        cache.insert(name, v)[name] == v,
        cache.insert(name, v).contains_key(other) == cache.contains_key(other),
        cache.insert(name, v)[other] == cache[other],
{
}

impl VersionCache {
    /// An empty cache.
    pub fn new() -> (r: Self)
        ensures
            r@ == Map::<Seq<char>, VersionView>::empty(),
    {
        VersionCache { entries: Vec::new() }
    }

    /// The cached latest version of `name`.
    pub fn get(&self, name: &str) -> (r: Option<Version>)
        ensures
            match r {
                Some(v) => self@.contains_key(name@) && v@ == self@[name@],
                None => !self@.contains_key(name@),
            },
    {
        let n = self.entries.len();
        let mut i = n;
        while i > 0
            invariant
                i <= n == self.entries@.len(),
                forall|j: int| i <= j < n ==> #[trigger] self.entries@[j].0@ != name@,
            decreases i,
        {
            i = i - 1;
            if str_eq(self.entries[i].0.as_str(), name) {
                proof {
                    lemma_cache_map_last(self.entries@, i as int);
                }
                return Some(self.entries[i].1.copy());
            }
        }
        proof {
            lemma_cache_map_domain(self.entries@, name@);
        }
        None
    }

    /// Records `version` as the latest version of `name`.
    pub fn insert(&mut self, name: String, version: Version)
        ensures
            final(self)@ == old(self)@.insert(name@, version@),
    {
        self.entries.push((name, version));
        proof {
            let e = self.entries@;
            assert(e.drop_last() =~= old(self).entries@);
        }
    }
}

} // verus!
