//! Deciding, for each declared dependency, whether and with which current
//! version it is looked up, and assembling the checked dependency from the
//! looked-up latest version.

use vstd::prelude::*;
use vstd::string::*;
use crate::dependency::{Dependency, DependencyView};
use crate::manifest::{DependencySpec, DependencySpecView, entries_view, spec_is_git, spec_is_path};
use crate::version::{
    Version, VersionView, opt_view, parse_version_req, required_version,
};
use crate::workspace::{WorkspaceContext, context_dependency_version};

verus! {

/// The version text a dependency entry declares: given in place, or (for
/// `name.workspace = true`) the one the workspace gives `name`.
pub open spec fn declared_version(
    name: Seq<char>,
    spec: DependencySpecView,
    ctx: WorkspaceContext,
) -> Option<Seq<char>> {
    match spec {
        DependencySpecView::Simple(v) => Some(v),
        DependencySpecView::Detailed(d) => d.version,
        DependencySpecView::Workspace(inherit) => if inherit {
            context_dependency_version(ctx, name)
        } else {
            None
        },
    }
}

/// The declared version text of a dependency, resolving workspace
/// inheritance through `ctx`.
pub fn resolve_version(name: &str, spec: &DependencySpec, ctx: &WorkspaceContext) -> (r: Option<
    String,
>)
    ensures
        match r {
            Some(v) => declared_version(name@, spec@, *ctx) == Some(v@),
            None => declared_version(name@, spec@, *ctx) is None,
        },
{
    match spec {
        DependencySpec::Simple(v) => Some(v.clone()),
        DependencySpec::Detailed(d) => match &d.version {
            Some(v) => Some(v.clone()),
            None => None,
        },
        DependencySpec::Workspace { workspace } => {
            if *workspace {
                match ctx.resolve_dependency_version(name) {
                    Some(v) => Some(String::from_str(v)),
                    None => None,
                }
            } else {
                None
            }
        },
    }
}

/// What checking a declared dependency comes to before any lookup.
#[derive(Debug)]
pub enum DependencyCheck {
    /// A git or path dependency: not looked up.
    Skipped { name: String },
    /// No version text could be found (`is_workspace`: the entry inherits
    /// from the workspace).
    Unresolved { name: String, is_workspace: bool },
    /// The version text names no version.
    Unparsable { name: String, version_text: String },
    /// Ready to be looked up, with the version currently required.
    Ready { name: String, is_workspace: bool, current: Version },
}

/// The view of a planned check.
pub enum CheckView {
    Skipped(Seq<char>),
    Unresolved(Seq<char>, bool),
    Unparsable(Seq<char>, Seq<char>),
    Ready(Seq<char>, bool, VersionView),
}

impl View for DependencyCheck {
    type V = CheckView;

    open spec fn view(&self) -> CheckView {
        match self {
            DependencyCheck::Skipped { name } => CheckView::Skipped(name@),
            DependencyCheck::Unresolved { name, is_workspace } => CheckView::Unresolved(
                name@,
                *is_workspace,
            ),
            DependencyCheck::Unparsable { name, version_text } => CheckView::Unparsable(
                name@,
                version_text@,
            ),
            DependencyCheck::Ready { name, is_workspace, current } => CheckView::Ready(
                name@,
                *is_workspace,
                current@,
            ),
        }
    }
}

/// The check planned for the dependency `name` declared as `spec`.
pub open spec fn planned_check(
    name: Seq<char>,
    spec: DependencySpecView,
    ctx: WorkspaceContext,
) -> CheckView {
    if spec_is_git(spec) || spec_is_path(spec) {
        CheckView::Skipped(name)
    } else {
        match declared_version(name, spec, ctx) {
            None => CheckView::Unresolved(name, spec is Workspace),
            Some(text) => match required_version(text) {
                None => CheckView::Unparsable(name, text),
                Some(v) => CheckView::Ready(name, spec is Workspace, v),
            },
        }
    }
}

/// Dependencies from a path or git source are never looked up: an entry
/// that names a path or a git repository is planned as skipped, whatever
/// version text it also gives and whatever the workspace holds.
pub proof fn law_path_and_git_sources_skipped(
    name: Seq<char>,
    spec: DependencySpecView,
    ctx: WorkspaceContext,
)
    requires
        spec matches DependencySpecView::Detailed(d) && (d.path is Some || d.git is Some),
    ensures
        planned_check(name, spec, ctx) == CheckView::Skipped(name),
{
}

/// An entry `name = "text"` is looked up with the version that `text` names
/// as a requirement, not marked as inherited; when `text` names no version
/// the check reports it as unparsable.
pub proof fn law_simple_entry_planned(name: Seq<char>, text: Seq<char>, ctx: WorkspaceContext)
    ensures
        planned_check(name, DependencySpecView::Simple(text), ctx) == match required_version(
            text,
        ) {
            Some(v) => CheckView::Ready(name, false, v),
            None => CheckView::Unparsable(name, text),
        },
{
}

/// An entry `name.workspace = true` is looked up with the version that the
/// workspace gives `name`, marked as inherited; it is unresolved when the
/// workspace gives none.
pub proof fn law_inherited_entry_planned(name: Seq<char>, ctx: WorkspaceContext)
    ensures
        planned_check(name, DependencySpecView::Workspace(true), ctx) == match context_dependency_version(
            ctx,
            name,
        ) {
            None => CheckView::Unresolved(name, true),
            Some(text) => match required_version(text) {
                Some(v) => CheckView::Ready(name, true, v),
                None => CheckView::Unparsable(name, text),
            },
        },
{
}

/// Plans the check of one declared dependency: git and path dependencies
/// are skipped; otherwise the declared version is resolved and read as a
/// requirement.
pub fn plan_check(name: &String, spec: &DependencySpec, ctx: &WorkspaceContext) -> (r:
    DependencyCheck)
    ensures
        r@ == planned_check(name@, spec@, *ctx),
{
    if spec.is_git() || spec.is_path() {
        return DependencyCheck::Skipped { name: name.clone() };
    }
    match resolve_version(name.as_str(), spec, ctx) {
        None => DependencyCheck::Unresolved { name: name.clone(), is_workspace: spec.is_workspace() },
        Some(text) => match parse_version_req(text.as_str()) {
            None => DependencyCheck::Unparsable { name: name.clone(), version_text: text },
            Some(v) => DependencyCheck::Ready {
                name: name.clone(),
                is_workspace: spec.is_workspace(),
                current: v,
            },
        },
    }
}

/// Plans the checks of declared dependencies, one per entry, in order.
pub fn plan_checks(deps: &Vec<(String, DependencySpec)>, ctx: &WorkspaceContext) -> (r: Vec<
    DependencyCheck,
>)
    ensures
        r@.len() == deps@.len(),
        forall|i: int|
            0 <= i < deps@.len() ==> (#[trigger] r@[i])@ == planned_check(
                entries_view(deps@)[i].0,
                entries_view(deps@)[i].1,
                *ctx,
            ),
{
    let mut out: Vec<DependencyCheck> = Vec::new();
    let mut i: usize = 0;
    while i < deps.len()
        invariant
            i <= deps@.len(),
            out@.len() == i,
            forall|k: int|
                0 <= k < i ==> (#[trigger] out@[k])@ == planned_check(
                    entries_view(deps@)[k].0,
                    entries_view(deps@)[k].1,
                    *ctx,
                ),
        decreases deps@.len() - i,
    {
        let c = plan_check(&deps[i].0, &deps[i].1, ctx);
        out.push(c);
        i = i + 1;
    }
    out
}

/// The text of the warning printed for a planned check, if any.
pub open spec fn check_warning(c: CheckView) -> Option<Seq<char>> {
    match c {
        CheckView::Unresolved(name, is_workspace) => if is_workspace {
            Some(
                "Warning: Could not resolve workspace dependency '"@ + name
                    + "' - workspace root not found or dependency not defined"@,
            )
        } else {
            None
        },
        CheckView::Unparsable(name, text) => Some(
            "Warning: Could not parse version '"@ + text + "' for "@ + name,
        ),
        _ => None,
    }
}

impl DependencyCheck {
    /// The warning to print for this check, if any: an unresolvable
    /// workspace dependency, or a version text that names no version.
    pub fn warning(&self) -> (r: Option<String>)
        ensures
            opt_text(r) == check_warning(self@),
    {
        match self {
            DependencyCheck::Unresolved { name, is_workspace } => {
                if *is_workspace {
                    let mut s = String::from_str("Warning: Could not resolve workspace dependency '");
                    s.append(name.as_str());
                    s.append("' - workspace root not found or dependency not defined");
                    Some(s)
                } else {
                    None
                }
            },
            DependencyCheck::Unparsable { name, version_text } => {
                let mut s = String::from_str("Warning: Could not parse version '");
                s.append(version_text.as_str());
                s.append("' for ");
                s.append(name.as_str());
                Some(s)
            },
            _ => None,
        }
    }
}

/// The view of an optional string.
pub open spec fn opt_text(o: Option<String>) -> Option<Seq<char>> {
    match o {
        Some(s) => Some(s@),
        None => None,
    }
}

/// The checked dependency for a looked-up entry: direct, marked as
/// workspace-inherited when the entry inherits, with `latest` as its latest
/// version when the lookup gave one.
pub fn checked_dependency(
    name: &String,
    is_workspace: bool,
    current: &Version,
    latest: Option<Version>,
) -> (r: Dependency)
    ensures
        r@ == (DependencyView {
            name: name@,
            current: current@,
            latest: opt_view(latest),
            is_direct: true,
            is_workspace_inherited: is_workspace,
        }),
{
    let mut dep = Dependency::new(name.clone(), current.copy(), true);
    if is_workspace {
        dep = dep.with_workspace_inherited(true);
    }
    match latest {
        Some(l) => dep.with_latest(l),
        None => dep,
    }
}

} // verus!
