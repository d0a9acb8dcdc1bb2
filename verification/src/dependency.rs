//! A checked dependency and the kind of update that is available for it.

use vstd::prelude::*;
use vstd::string::*;
use crate::version::{
    Version, VersionView, core_eq, core_lt, opt_view, semver_le, version_le,
};

verus! {

/// The kind of update from the current to the latest version.
#[derive(PartialEq, Eq, Structural, Clone, Copy, Debug)]
pub enum UpdateType {
    Patch,
    Minor,
    Major,
    UpToDate,
}

/// The mathematical content of a dependency.
pub struct DependencyView {
    pub name: Seq<char>,
    pub current: VersionView,
    pub latest: Option<VersionView>,
    pub is_direct: bool,
    pub is_workspace_inherited: bool,
}

/// A dependency of a manifest, with its current and (when known) latest
/// published version.
#[derive(Debug)]
pub struct Dependency {
    pub name: String,
    pub current_version: Version,
    pub latest_version: Option<Version>,
    pub is_direct: bool,
    /// Whether this dependency inherits from `workspace.dependencies`.
    pub is_workspace_inherited: bool,
}

impl View for Dependency {
    type V = DependencyView;

    open spec fn view(&self) -> DependencyView {
        DependencyView {
            name: self.name@,
            current: self.current_version@,
            latest: opt_view(self.latest_version),
            is_direct: self.is_direct,
            is_workspace_inherited: self.is_workspace_inherited,
        }
    }
}

/// The update available from `current` to `latest`: none when the latest
/// version is unknown or orders at or before the current one; otherwise
/// major, minor or patch by the first of those numbers that grew.
pub open spec fn update_kind(current: VersionView, latest: Option<VersionView>) -> UpdateType {
    match latest {
        None => UpdateType::UpToDate,
        Some(l) => if semver_le(l, current) {
            UpdateType::UpToDate
        } else if l.major > current.major {
            UpdateType::Major
        } else if l.minor > current.minor {
            UpdateType::Minor
        } else {
            UpdateType::Patch
        },
    }
}

/// An update is reported exactly when the latest version orders strictly
/// above the current one in semantic-version order; it is major when the
/// major number grew, minor when the major number is the same and the minor
/// number grew, and patch when both are the same (also when only the
/// pre-release moved on, as from `1.0.0-rc.1` to `1.0.0-rc.2`).
pub proof fn law_update_exactly_when_newer(current: VersionView, l: VersionView)
    ensures
        update_kind(current, None) == UpdateType::UpToDate,
        (update_kind(current, Some(l)) == UpdateType::UpToDate) <==> semver_le(l, current),
        !semver_le(l, current) && l.major > current.major ==> update_kind(current, Some(l))
            == UpdateType::Major,
        !semver_le(l, current) && l.major == current.major && l.minor > current.minor
            ==> update_kind(current, Some(l)) == UpdateType::Minor,
        !semver_le(l, current) && l.major == current.major && l.minor == current.minor
            ==> update_kind(current, Some(l)) == UpdateType::Patch,
{
}

/// A copy of an optional version.
pub fn copy_version_option(v: &Option<Version>) -> (r: Option<Version>)
    ensures
        opt_view(r) == opt_view(*v),
{
    match v {
        Some(x) => Some(x.copy()),
        None => None,
    }
}

impl Dependency {
    /// A dependency with no known latest version, not workspace-inherited.
    pub fn new(name: String, current_version: Version, is_direct: bool) -> (r: Self)
        ensures
            r@ == (DependencyView {
                name: name@,
                current: current_version@,
                latest: None,
                is_direct,
                is_workspace_inherited: false,
            }),
    {
        Dependency {
            name,
            current_version,
            latest_version: None,
            is_direct,
            is_workspace_inherited: false,
        }
    }

    /// The same dependency with `latest` as its latest version.
    pub fn with_latest(self, latest: Version) -> (r: Self)
        ensures
            r@ == (DependencyView { latest: Some(latest@), ..self@ }),
    {
        let mut d = self;
        d.latest_version = Some(latest);
        d
    }

    /// The same dependency, marked as inherited from the workspace or not.
    pub fn with_workspace_inherited(self, inherited: bool) -> (r: Self)
        ensures
            r@ == (DependencyView { is_workspace_inherited: inherited, ..self@ }),
    {
        let mut d = self;
        d.is_workspace_inherited = inherited;
        d
    }

    /// Determine the type of update available.
    pub fn update_type(&self) -> (r: UpdateType)
        ensures
            r == update_kind(self@.current, self@.latest),
            self@.latest is None ==> r == UpdateType::UpToDate,
            self@.latest matches Some(l) ==> {
                &&& core_lt(l, self@.current) ==> r == UpdateType::UpToDate
                &&& l == self@.current ==> r == UpdateType::UpToDate
                &&& l.major > self@.current.major ==> r == UpdateType::Major
                &&& l.major == self@.current.major && l.minor > self@.current.minor ==> r
                    == UpdateType::Minor
                &&& l.major == self@.current.major && l.minor == self@.current.minor && l.patch
                    > self@.current.patch ==> r == UpdateType::Patch
                &&& core_eq(l, self@.current) && l.pre.len() > 0 && self@.current.pre.len() == 0
                    ==> r == UpdateType::UpToDate
            },
    {
        match &self.latest_version {
            None => UpdateType::UpToDate,
            Some(latest) => {
                if version_le(latest, &self.current_version) {
                    UpdateType::UpToDate
                } else if latest.major() > self.current_version.major() {
                    UpdateType::Major
                } else if latest.minor() > self.current_version.minor() {
                    UpdateType::Minor
                } else {
                    UpdateType::Patch
                }
            },
        }
    }

    /// Whether an update is available.
    pub fn has_update(&self) -> (r: bool)
        ensures
            r == (update_kind(self@.current, self@.latest) != UpdateType::UpToDate),
            match self@.latest {
                Some(l) => r == !semver_le(l, self@.current),
                None => !r,
            },
    {
        proof {
            match self@.latest {
                Some(l) => law_update_exactly_when_newer(self@.current, l),
                None => {},
            }
        }
        self.update_type() != UpdateType::UpToDate
    }

    /// A copy of this dependency.
    pub fn copy(&self) -> (r: Self)
        ensures
            r@ == self@,
    {
        Dependency {
            name: self.name.clone(),
            current_version: self.current_version.copy(),
            latest_version: copy_version_option(&self.latest_version),
            is_direct: self.is_direct,
            is_workspace_inherited: self.is_workspace_inherited,
        }
    }
}

impl Clone for Dependency {
    fn clone(&self) -> (r: Self)
        ensures
            r@ == self@,
    {
        self.copy()
    }
}

} // verus!
