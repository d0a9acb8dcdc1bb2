//! Workspace roots and the resolution of values that members inherit from
//! them (`version.workspace = true`, `serde.workspace = true`).

use vstd::prelude::*;
use vstd::string::*;
use crate::manifest::{
    DependencySpec, DependencyTable, opt_str, spec_version, table_lookup,
};
use crate::text::{contains_text, has_char, str_contains, str_eq};

verus! {

/// Package fields that members can inherit (`[workspace.package]`).
#[derive(Debug)]
pub struct WorkspacePackage {
    pub version: Option<String>,
    pub edition: Option<String>,
    pub authors: Option<Vec<String>>,
    pub description: Option<String>,
    pub documentation: Option<String>,
    pub readme: Option<String>,
    pub homepage: Option<String>,
    pub repository: Option<String>,
    pub license: Option<String>,
    pub license_file: Option<String>,
    pub keywords: Option<Vec<String>>,
    pub categories: Option<Vec<String>>,
    pub publish: Option<bool>,
    pub rust_version: Option<String>,
    pub exclude: Option<Vec<String>>,
    pub includes: Option<Vec<String>>,
}

/// The text value of an inheritable package field, by its manifest key.
/// Keys of list or boolean fields, and unknown keys, give `None`.
pub open spec fn package_field(pkg: WorkspacePackage, field: Seq<char>) -> Option<Seq<char>> {
    if field == "version"@ {
        opt_str(pkg.version)
    } else if field == "edition"@ {
        opt_str(pkg.edition)
    } else if field == "description"@ {
        opt_str(pkg.description)
    } else if field == "documentation"@ {
        opt_str(pkg.documentation)
    } else if field == "readme"@ {
        opt_str(pkg.readme)
    } else if field == "homepage"@ {
        opt_str(pkg.homepage)
    } else if field == "repository"@ {
        opt_str(pkg.repository)
    } else if field == "license"@ {
        opt_str(pkg.license)
    } else if field == "license-file"@ {
        opt_str(pkg.license_file)
    } else if field == "rust-version"@ {
        opt_str(pkg.rust_version)
    } else {
        None
    }
}

/// Each inheritable text field is found under its own manifest key:
/// `version`, `edition`, `description`, `documentation`, `readme`,
/// `homepage`, `repository`, `license`, `license-file` and `rust-version`
/// give the field of that name; the list and boolean fields (`authors`,
/// `keywords`, `categories`, `exclude`, `include`, `publish`) give nothing.
pub proof fn law_package_field_by_key(pkg: WorkspacePackage)
    ensures
        package_field(pkg, "version"@) == opt_str(pkg.version),
        package_field(pkg, "edition"@) == opt_str(pkg.edition),
        package_field(pkg, "description"@) == opt_str(pkg.description),
        package_field(pkg, "documentation"@) == opt_str(pkg.documentation),
        package_field(pkg, "readme"@) == opt_str(pkg.readme),
        package_field(pkg, "homepage"@) == opt_str(pkg.homepage),
        package_field(pkg, "repository"@) == opt_str(pkg.repository),
        package_field(pkg, "license"@) == opt_str(pkg.license),
        package_field(pkg, "license-file"@) == opt_str(pkg.license_file),
        package_field(pkg, "rust-version"@) == opt_str(pkg.rust_version),
        package_field(pkg, "authors"@) is None,
        package_field(pkg, "keywords"@) is None,
        package_field(pkg, "categories"@) is None,
        package_field(pkg, "exclude"@) is None,
        package_field(pkg, "include"@) is None,
        package_field(pkg, "publish"@) is None,
{
    reveal_strlit("version");
    reveal_strlit("edition");
    reveal_strlit("description");
    reveal_strlit("documentation");
    reveal_strlit("readme");
    reveal_strlit("homepage");
    reveal_strlit("repository");
    reveal_strlit("license");
    reveal_strlit("license-file");
    reveal_strlit("rust-version");
    reveal_strlit("authors");
    reveal_strlit("keywords");
    reveal_strlit("categories");
    reveal_strlit("exclude");
    reveal_strlit("include");
    reveal_strlit("publish");
    let keys = seq![
        "version"@,
        "edition"@,
        "description"@,
        "documentation"@,
        "readme"@,
        "homepage"@,
        "repository"@,
        "license"@,
        "license-file"@,
        "rust-version"@,
        "authors"@,
        "keywords"@,
        "categories"@,
        "exclude"@,
        "include"@,
        "publish"@
    ];
    assert forall|i: int, j: int| 0 <= i < j < keys.len() implies keys[i] != keys[j] by {
        assert(keys[i].len() != keys[j].len() || keys[i][0] != keys[j][0] || keys[i][1]
            != keys[j][1]);
    }
    assert(keys[0] != keys[1]);
}

fn clone_field(o: &Option<String>) -> (r: Option<String>)
    ensures
        opt_str(r) == opt_str(*o),
{
    match o {
        Some(s) => Some(s.clone()),
        None => None,
    }
}

impl WorkspacePackage {
    /// The text value of the field with manifest key `field`.
    pub fn field(&self, field: &str) -> (r: Option<String>)
        ensures
            opt_str(r) == package_field(*self, field@),
    {
        if str_eq(field, "version") {
            clone_field(&self.version)
        } else if str_eq(field, "edition") {
            clone_field(&self.edition)
        } else if str_eq(field, "description") {
            clone_field(&self.description)
        } else if str_eq(field, "documentation") {
            clone_field(&self.documentation)
        } else if str_eq(field, "readme") {
            clone_field(&self.readme)
        } else if str_eq(field, "homepage") {
            clone_field(&self.homepage)
        } else if str_eq(field, "repository") {
            clone_field(&self.repository)
        } else if str_eq(field, "license") {
            clone_field(&self.license)
        } else if str_eq(field, "license-file") {
            clone_field(&self.license_file)
        } else if str_eq(field, "rust-version") {
            clone_field(&self.rust_version)
        } else {
            None
        }
    }
}

/// What `std::path::Path::parent` gives for a path text (`None` for a root
/// or an empty path).
pub uninterp spec fn path_parent(path: Seq<char>) -> Option<Seq<char>>;

/// Whether `std::path::Path` considers two path texts equal (it compares
/// their components).
pub uninterp spec fn same_path(a: Seq<char>, b: Seq<char>) -> bool;

/// `std::path::Path::parent`.  Claims: the result is `path_parent` of the
/// path text.
#[verifier::external_body]
fn parent_of(path: &str) -> (r: Option<String>)
    ensures
        opt_str(r) == path_parent(path@),
{
    std::path::Path::new(path).parent().map(|p| p.to_string_lossy().into_owned())
}

/// `==` on `std::path::Path`.  Claims: the result is `same_path` of the two
/// texts, and a path equals itself.
#[verifier::external_body]
fn paths_equal(a: &str, b: &str) -> (r: bool)
    ensures
        r == same_path(a@, b@),
        a@ == b@ ==> r,
{
    std::path::Path::new(a) == std::path::Path::new(b)
}

/// The `[workspace]` table of a manifest.
#[derive(Debug)]
pub struct WorkspaceSection {
    pub members: Option<Vec<String>>,
    pub package: Option<WorkspacePackage>,
    pub dependencies: Option<DependencyTable>,
}

/// A workspace root manifest.
#[derive(Debug)]
pub struct WorkspaceRoot {
    /// Path to the workspace root `Cargo.toml`.
    pub path: String,
    /// Package defaults that members can inherit (`[workspace.package]`).
    pub package: Option<WorkspacePackage>,
    /// Dependencies that members can inherit (`[workspace.dependencies]`).
    pub dependencies: Option<DependencyTable>,
    /// Member path patterns.
    pub members: Vec<String>,
}

/// The version text of the workspace dependency `name`.
pub open spec fn root_dependency_version(root: WorkspaceRoot, name: Seq<char>) -> Option<Seq<char>> {
    match root.dependencies {
        Some(t) => match table_lookup(t@, name) {
            Some(s) => spec_version(s),
            None => None,
        },
        None => None,
    }
}

impl WorkspaceRoot {
    /// The workspace root that a manifest at `path` describes: present when
    /// the manifest has a `[workspace]` table; members default to none.
    pub fn from_section(path: String, section: Option<WorkspaceSection>) -> (r: Option<Self>)
        ensures
            section is None ==> r is None,
            section matches Some(s) ==> r matches Some(root) && root.path@ == path@
                && root.package == s.package && root.dependencies == s.dependencies && match s.members {
                Some(m) => root.members == m,
                None => root.members@.len() == 0,
            },
    {
        match section {
            Some(s) => {
                let members = match s.members {
                    Some(m) => m,
                    None => Vec::new(),
                };
                Some(
                    WorkspaceRoot {
                        path,
                        package: s.package,
                        dependencies: s.dependencies,
                        members,
                    },
                )
            },
            None => None,
        }
    }

    /// A package field value by its manifest key.
    pub fn get_package_field(&self, field: &str) -> (r: Option<String>)
        ensures
            match self.package {
                Some(p) => opt_str(r) == package_field(p, field@),
                None => r is None,
            },
    {
        match &self.package {
            Some(p) => p.field(field),
            None => None,
        }
    }

    /// The workspace dependency entry for `name`.
    pub fn get_dependency(&self, name: &str) -> (r: Option<&DependencySpec>)
        ensures
            match self.dependencies {
                Some(t) => match r {
                    Some(s) => table_lookup(t@, name@) == Some(s@),
                    None => table_lookup(t@, name@) is None,
                },
                None => r is None,
            },
    {
        match &self.dependencies {
            Some(t) => t.get(name),
            None => None,
        }
    }

    /// The version text of the workspace dependency `name`.
    pub fn get_dependency_version(&self, name: &str) -> (r: Option<&str>)
        ensures
            match r {
                Some(v) => root_dependency_version(*self, name@) == Some(v@),
                None => root_dependency_version(*self, name@) is None,
            },
    {
        match self.get_dependency(name) {
            Some(spec) => spec.version(),
            None => None,
        }
    }

    /// The directory of the workspace root (the manifest path itself when it
    /// has no parent).
    pub fn root_dir(&self) -> (r: String)
        ensures
            r@ == match path_parent(self.path@) {
                Some(p) => p,
                None => self.path@,
            },
    {
        match parent_of(self.path.as_str()) {
            Some(p) => p,
            None => self.path.clone(),
        }
    }
}

/// Whether manifest text declares a package: it contains `[package]`.
pub fn declares_package(content: &str) -> (r: bool)
    ensures
        r == contains_text(content@, "[package]"@),
{
    str_contains(content, "[package]")
}

/// Whether a member entry is a glob pattern (holds `*`, `?` or `[`).
pub fn is_glob_pattern(pattern: &str) -> (r: bool)
    ensures
        r == (pattern@.contains('*') || pattern@.contains('?') || pattern@.contains('[')),
{
    has_char(pattern, '*') || has_char(pattern, '?') || has_char(pattern, '[')
}

/// A member manifest together with the workspace root it belongs to, if any.
#[derive(Debug)]
pub struct WorkspaceContext {
    /// The workspace root, if found.
    pub root: Option<WorkspaceRoot>,
    /// Path to the member manifest being analyzed.
    pub member_path: String,
}

/// The version text that the workspace of `ctx` gives the dependency `name`.
pub open spec fn context_dependency_version(ctx: WorkspaceContext, name: Seq<char>) -> Option<
    Seq<char>,
> {
    match ctx.root {
        Some(root) => root_dependency_version(root, name),
        None => None,
    }
}

impl WorkspaceContext {
    /// A context for the manifest at `member_path` in the workspace `root`.
    pub fn new(root: Option<WorkspaceRoot>, member_path: String) -> (r: Self)
        ensures
            r.root == root,
            r.member_path == member_path,
    {
        WorkspaceContext { root, member_path }
    }

    /// Whether the manifest belongs to a workspace.
    pub fn is_workspace(&self) -> (r: bool)
        ensures
            r == (self.root is Some),
    {
        self.root.is_some()
    }

    /// Whether the manifest is the workspace root manifest itself.
    pub fn is_root_manifest(&self) -> (r: bool)
        ensures
            r == match self.root {
                Some(root) => same_path(root.path@, self.member_path@),
                None => false,
            },
    {
        match &self.root {
            Some(root) => paths_equal(root.path.as_str(), self.member_path.as_str()),
            None => false,
        }
    }

    /// The inherited value of a package field.
    pub fn resolve_package_field(&self, field: &str) -> (r: Option<String>)
        ensures
            match self.root {
                Some(root) => match root.package {
                    Some(p) => opt_str(r) == package_field(p, field@),
                    None => r is None,
                },
                None => r is None,
            },
    {
        match &self.root {
            Some(root) => root.get_package_field(field),
            None => None,
        }
    }

    /// The version text of the workspace dependency `name`.
    pub fn resolve_dependency_version(&self, name: &str) -> (r: Option<&str>)
        ensures
            match r {
                Some(v) => context_dependency_version(*self, name@) == Some(v@),
                None => context_dependency_version(*self, name@) is None,
            },
    {
        match &self.root {
            Some(root) => root.get_dependency_version(name),
            None => None,
        }
    }

    /// The workspace dependency entry for `name`.
    pub fn resolve_dependency(&self, name: &str) -> (r: Option<&DependencySpec>)
        ensures
            match self.root {
                Some(root) => match root.dependencies {
                    Some(t) => match r {
                        Some(s) => table_lookup(t@, name@) == Some(s@),
                        None => table_lookup(t@, name@) is None,
                    },
                    None => r is None,
                },
                None => r is None,
            },
    {
        match &self.root {
            Some(root) => root.get_dependency(name),
            None => None,
        }
    }

    /// The path of the workspace root manifest.
    pub fn workspace_root_path(&self) -> (r: Option<&str>)
        ensures
            match self.root {
                Some(root) => r matches Some(p) && p@ == root.path@,
                None => r is None,
            },
    {
        match &self.root {
            Some(root) => Some(root.path.as_str()),
            None => None,
        }
    }
}

} // verus!
