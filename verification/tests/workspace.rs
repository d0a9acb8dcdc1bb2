use cargo_sane::manifest::{DependencySpec, DependencyTable, DetailedDependency};
use cargo_sane::workspace::{
    declares_package, is_glob_pattern, WorkspaceContext, WorkspacePackage, WorkspaceRoot,
    WorkspaceSection,
};

fn empty_package() -> WorkspacePackage {
    WorkspacePackage {
        version: None,
        edition: None,
        authors: None,
        description: None,
        documentation: None,
        readme: None,
        homepage: None,
        repository: None,
        license: None,
        license_file: None,
        keywords: None,
        categories: None,
        publish: None,
        rust_version: None,
        exclude: None,
        includes: None,
    }
}

/// The workspace root of
/// ```toml
/// [workspace]
/// members = ["member1", "member2"]
///
/// [workspace.package]
/// version = "1.0.0"
/// edition = "2021"
/// authors = ["Test Author"]
/// license = "MIT"
///
/// [workspace.dependencies]
/// serde = { version = "1.0.193", features = ["derive"] }
/// tokio = "1.35.0"
/// anyhow = "1.0"
/// ```
fn workspace_root(root_toml: &str) -> WorkspaceRoot {
    let mut package = empty_package();
    package.version = Some("1.0.0".to_string());
    package.edition = Some("2021".to_string());
    package.authors = Some(vec!["Test Author".to_string()]);
    package.license = Some("MIT".to_string());
    let mut deps = DependencyTable::new();
    deps.insert(
        "serde".to_string(),
        DependencySpec::Detailed(DetailedDependency {
            version: Some("1.0.193".to_string()),
            git: None,
            path: None,
            features: Some(vec!["derive".to_string()]),
            optional: None,
            default_features: None,
        }),
    );
    deps.insert("tokio".to_string(), DependencySpec::Simple("1.35.0".to_string()));
    deps.insert("anyhow".to_string(), DependencySpec::Simple("1.0".to_string()));
    let section = WorkspaceSection {
        members: Some(vec!["member1".to_string(), "member2".to_string()]),
        package: Some(package),
        dependencies: Some(deps),
    };
    WorkspaceRoot::from_section(root_toml.to_string(), Some(section)).unwrap()
}

#[test]
fn test_workspace_package_fields() {
    let context = WorkspaceContext::new(
        Some(workspace_root("/tmp/ws/Cargo.toml")),
        "/tmp/ws/member1/Cargo.toml".to_string(),
    );

    assert!(context.is_workspace());
    assert!(!context.is_root_manifest());

    assert_eq!(context.resolve_package_field("version"), Some("1.0.0".to_string()));
    assert_eq!(context.resolve_package_field("edition"), Some("2021".to_string()));
    assert_eq!(context.resolve_package_field("license"), Some("MIT".to_string()));
}

#[test]
fn test_workspace_dependency_resolution() {
    let context = WorkspaceContext::new(
        Some(workspace_root("/tmp/ws/Cargo.toml")),
        "/tmp/ws/member1/Cargo.toml".to_string(),
    );

    assert_eq!(context.resolve_dependency_version("serde"), Some("1.0.193"));
    assert_eq!(context.resolve_dependency_version("tokio"), Some("1.35.0"));
    assert_eq!(context.resolve_dependency_version("anyhow"), Some("1.0"));

    assert_eq!(context.resolve_dependency_version("unknown"), None);
}

#[test]
fn test_no_workspace() {
    let context = WorkspaceContext::new(None, "/tmp/standalone/Cargo.toml".to_string());

    assert!(!context.is_workspace());
    assert_eq!(context.resolve_package_field("version"), None);
    assert_eq!(context.resolve_dependency_version("serde"), None);
}

#[test]
fn test_workspace_root_is_member() {
    let context = WorkspaceContext::new(
        Some(workspace_root("/tmp/ws/Cargo.toml")),
        "/tmp/ws/Cargo.toml".to_string(),
    );

    assert!(context.is_workspace());
    assert!(context.is_root_manifest());
}

#[test]
fn workspace_root_from_section() {
    let root = workspace_root("/tmp/ws/Cargo.toml");
    assert_eq!(root.members, vec!["member1", "member2"]);
    assert_eq!(root.root_dir(), "/tmp/ws");
    assert!(WorkspaceRoot::from_section("/x/Cargo.toml".to_string(), None).is_none());
    let bare = WorkspaceRoot::from_section(
        "/x/Cargo.toml".to_string(),
        Some(WorkspaceSection { members: None, package: None, dependencies: None }),
    )
    .unwrap();
    assert!(bare.members.is_empty());
    assert_eq!(bare.get_package_field("version"), None);
    assert!(bare.get_dependency("serde").is_none());
}

#[test]
fn package_fields_by_key() {
    let root = workspace_root("/tmp/ws/Cargo.toml");
    assert_eq!(root.get_package_field("authors"), None);
    assert_eq!(root.get_package_field("rust-version"), None);
    assert_eq!(root.get_package_field("unknown"), None);
    let mut pkg = empty_package();
    pkg.license_file = Some("LICENSE".to_string());
    pkg.rust_version = Some("1.70".to_string());
    assert_eq!(pkg.field("license-file"), Some("LICENSE".to_string()));
    assert_eq!(pkg.field("rust-version"), Some("1.70".to_string()));
}

#[test]
fn workspace_dependency_lookup() {
    let root = workspace_root("/tmp/ws/Cargo.toml");
    assert!(root.get_dependency("serde").unwrap().is_crates_io());
    assert_eq!(root.get_dependency_version("serde"), Some("1.0.193"));
    let context = WorkspaceContext::new(Some(root), "/tmp/ws/m/Cargo.toml".to_string());
    assert!(context.resolve_dependency("tokio").is_some());
    assert!(context.resolve_dependency("log").is_none());
    assert_eq!(context.workspace_root_path(), Some("/tmp/ws/Cargo.toml"));
}

#[test]
fn root_manifest_detection_compares_paths() {
    let context = WorkspaceContext::new(
        Some(workspace_root("/tmp/ws/Cargo.toml")),
        "/tmp/ws//Cargo.toml".to_string(),
    );
    assert!(context.is_root_manifest());
}

#[test]
fn package_declaration_and_glob_detection() {
    assert!(declares_package("[workspace]\n\n[package]\nname = \"x\"\n"));
    assert!(!declares_package("[workspace]\nmembers = []\n"));
    assert!(is_glob_pattern("crates/*"));
    assert!(is_glob_pattern("crate?"));
    assert!(is_glob_pattern("c[ab]"));
    assert!(!is_glob_pattern("member1"));
}
