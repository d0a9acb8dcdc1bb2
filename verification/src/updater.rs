//! Pending edits of a member manifest and, for inherited dependencies, of
//! its workspace root manifest.

use vstd::prelude::*;
use vstd::string::*;
use crate::dependency::Dependency;
use crate::manifest::Manifest;
use crate::version_edit::{UpdateError, update_version_in_content, updated_text};
use crate::workspace::{WorkspaceContext, same_path};

verus! {

/// The text of a member manifest and, when the member belongs to a
/// workspace of which it is not the root, the text of the root manifest,
/// with the version edits applied so far.
#[derive(Debug)]
pub struct DependencyUpdater {
    manifest: Manifest,
    original_content: String,
    /// Content of the workspace root `Cargo.toml` (if different from the
    /// manifest).
    workspace_content: Option<String>,
    /// Path to the workspace root `Cargo.toml`.
    workspace_path: Option<String>,
    /// Whether a version has been set in the workspace root text.
    workspace_edited: bool,
}

/// The path of the root manifest whose text an updater for `ctx` also
/// edits: the root's, when the manifest is a workspace member other than
/// the root.
pub open spec fn root_to_edit(ctx: WorkspaceContext) -> Option<Seq<char>> {
    match ctx.root {
        Some(root) => if same_path(root.path@, ctx.member_path@) {
            None
        } else {
            Some(root.path@)
        },
        None => None,
    }
}

/// The path of the workspace root manifest that must be loaded to edit
/// inherited dependencies of the manifest of `ctx`.
pub fn workspace_root_to_load(ctx: &WorkspaceContext) -> (r: Option<String>)
    ensures
        match r {
            Some(p) => root_to_edit(*ctx) == Some(p@),
            None => root_to_edit(*ctx) is None,
        },
{
    if ctx.is_workspace() && !ctx.is_root_manifest() {
        match ctx.workspace_root_path() {
            Some(p) => Some(String::from_str(p)),
            None => None,
        }
    } else {
        None
    }
}

/// The view of optional text.
pub open spec fn opt_chars(o: Option<String>) -> Option<Seq<char>> {
    match o {
        Some(s) => Some(s@),
        None => None,
    }
}

impl DependencyUpdater {
    /// The root text has been edited only if it is held.
    #[verifier::type_invariant]
    spec fn edited_root_held(self) -> bool {
        self.workspace_edited ==> self.workspace_content is Some
    }

    /// Whether the version of an inherited dependency has been set in the
    /// workspace root text.
    pub closed spec fn root_edited(self) -> bool {
        self.workspace_edited
    }

    /// An updater for `manifest`, whose text is `content`; `workspace_root`
    /// is the path and text of the workspace root manifest when inherited
    /// dependencies are edited there.
    pub fn new(manifest: Manifest, content: String, workspace_root: Option<(String, String)>) -> (r:
        Self)
        ensures
            r.content()@ == content@,
            r.workspace_text() == match workspace_root {
                Some(w) => Some(w.1@),
                None => None,
            },
            r.workspace_location() == match workspace_root {
                Some(w) => Some(w.0@),
                None => None,
            },
            r.manifest_path()@ == manifest.path@,
            !r.root_edited(),
    {
        let (workspace_path, workspace_content) = match workspace_root {
            Some((p, c)) => (Some(p), Some(c)),
            None => (None, None),
        };
        DependencyUpdater {
            manifest,
            original_content: content,
            workspace_content,
            workspace_path,
            workspace_edited: false,
        }
    }

    /// The member manifest text with the edits so far.
    pub closed spec fn content(self) -> String {
        self.original_content
    }

    /// The root manifest text with the edits so far, if loaded.
    pub closed spec fn workspace_text(self) -> Option<Seq<char>> {
        opt_chars(self.workspace_content)
    }

    /// The root manifest path, if known.
    pub closed spec fn workspace_location(self) -> Option<Seq<char>> {
        opt_chars(self.workspace_path)
    }

    /// The member manifest path.
    pub closed spec fn manifest_path(self) -> String {
        self.manifest.path
    }

    /// Sets the version of `dep` to `new_version`: in the workspace root
    /// text for a workspace-inherited dependency, in the member text
    /// otherwise.  On failure nothing changes.
    pub fn update_dependency(&mut self, dep: &Dependency, new_version: &str) -> (r: Result<
        (),
        UpdateError,
    >)
        ensures
            final(self).manifest_path() == old(self).manifest_path(),
            final(self).workspace_location() == old(self).workspace_location(),
            final(self).root_edited() == (old(self).root_edited() || (dep.is_workspace_inherited
                && r is Ok)),
            dep.is_workspace_inherited ==> {
                &&& final(self).content()@ == old(self).content()@
                &&& match old(self).workspace_text() {
                    None => r matches Err(UpdateError::NoWorkspaceRoot) && final(self).workspace_text()
                        is None,
                    Some(t) => match updated_text(t, dep.name@, new_version@) {
                        Some(u) => r is Ok && final(self).workspace_text() == Some(u),
                        None => r matches Err(UpdateError::DependencyNotFound { name }) && name@
                            == dep.name@ && final(self).workspace_text() == Some(t),
                    },
                }
            },
            !dep.is_workspace_inherited ==> {
                &&& final(self).workspace_text() == old(self).workspace_text()
                &&& match updated_text(old(self).content()@, dep.name@, new_version@) {
                    Some(u) => r is Ok && final(self).content()@ == u,
                    None => r matches Err(UpdateError::DependencyNotFound { name }) && name@
                        == dep.name@ && final(self).content()@ == old(self).content()@,
                }
            },
    {
        if dep.is_workspace_inherited {
            self.update_workspace_dependency(dep.name.as_str(), new_version)
        } else {
            self.update_local_dependency(dep.name.as_str(), new_version)
        }
    }

    /// Sets the version of `dep_name` in the member manifest text.
    fn update_local_dependency(&mut self, dep_name: &str, new_version: &str) -> (r: Result<
        (),
        UpdateError,
    >)
        ensures
            final(self).manifest_path() == old(self).manifest_path(),
            final(self).workspace_location() == old(self).workspace_location(),
            final(self).workspace_text() == old(self).workspace_text(),
            final(self).root_edited() == old(self).root_edited(),
            match updated_text(old(self).content()@, dep_name@, new_version@) {
                Some(u) => r is Ok && final(self).content()@ == u,
                None => r matches Err(UpdateError::DependencyNotFound { name }) && name@
                    == dep_name@ && final(self).content()@ == old(self).content()@,
            },
    {
        proof {
            use_type_invariant(&*self);
        }
        let updated = update_version_in_content(self.original_content.as_str(), dep_name, new_version);
        match updated {
            Ok(text) => {
                self.original_content = text;
                Ok(())
            },
            Err(e) => Err(e),
        }
    }

    /// Sets the version of `dep_name` in the workspace root text.
    fn update_workspace_dependency(&mut self, dep_name: &str, new_version: &str) -> (r: Result<
        (),
        UpdateError,
    >)
        ensures
            final(self).manifest_path() == old(self).manifest_path(),
            final(self).workspace_location() == old(self).workspace_location(),
            final(self).content()@ == old(self).content()@,
            final(self).root_edited() == (old(self).root_edited() || r is Ok),
            match old(self).workspace_text() {
                None => r matches Err(UpdateError::NoWorkspaceRoot) && final(self).workspace_text()
                    is None,
                Some(t) => match updated_text(t, dep_name@, new_version@) {
                    Some(u) => r is Ok && final(self).workspace_text() == Some(u),
                    None => r matches Err(UpdateError::DependencyNotFound { name }) && name@
                        == dep_name@ && final(self).workspace_text() == Some(t),
                },
            },
    {
        proof {
            use_type_invariant(&*self);
        }
        let updated = match &self.workspace_content {
            None => return Err(UpdateError::NoWorkspaceRoot),
            Some(content) => update_version_in_content(content.as_str(), dep_name, new_version),
        };
        match updated {
            Ok(text) => {
                self.workspace_content = Some(text);
                self.workspace_edited = true;
                Ok(())
            },
            Err(e) => Err(e),
        }
    }

    /// Whether the workspace root was modified: the version of an inherited
    /// dependency has been set in its text.
    pub fn workspace_modified(&self) -> (r: bool)
        ensures
            r == self.root_edited(),
            r ==> self.workspace_text() is Some,
    {
        proof {
            use_type_invariant(self);
        }
        self.workspace_edited
    }

    /// The workspace root path, when the root is known and was modified.
    pub fn workspace_root_path(&self) -> (r: Option<&str>)
        ensures
            match r {
                Some(p) => self.root_edited() && self.workspace_location() == Some(p@),
                None => !self.root_edited() || self.workspace_location() is None,
            },
    {
        if self.workspace_edited {
            match &self.workspace_path {
                Some(p) => Some(p.as_str()),
                None => None,
            }
        } else {
            None
        }
    }

    /// The member manifest text with the edits so far.
    pub fn get_content(&self) -> (r: &str)
        ensures
            r@ == self.content()@,
    {
        self.original_content.as_str()
    }

    /// The workspace root text with the edits so far, if held.
    pub fn get_workspace_content(&self) -> (r: Option<&str>)
        ensures
            match r {
                Some(t) => self.workspace_text() == Some(t@),
                None => self.workspace_text() is None,
            },
    {
        match &self.workspace_content {
            Some(c) => Some(c.as_str()),
            None => None,
        }
    }

    /// The member manifest this updater edits.
    pub fn manifest(&self) -> (r: &Manifest)
        ensures
            r.path == self.manifest_path(),
    {
        &self.manifest
    }
}

} // verus!
