use cargo_sane::dependency::Dependency;
use cargo_sane::manifest::{DependencySpec, DependencyTable, InheritableField, Manifest, ManifestContent, Package};
use cargo_sane::updater::{workspace_root_to_load, DependencyUpdater};
use cargo_sane::version::Version;
use cargo_sane::version_edit::{update_version_in_content, UpdateError};
use cargo_sane::workspace::{WorkspaceContext, WorkspaceRoot};

#[test]
fn test_update_version_in_content_simple() {
    let content = r#"
[dependencies]
serde = "1.0.0"
tokio = "1.0"
"#;
    let result = update_version_in_content(content, "serde", "1.0.200");
    assert!(result.is_ok());
    let updated = result.unwrap();
    assert!(updated.contains(r#"serde = "1.0.200""#));
    assert!(updated.contains(r#"tokio = "1.0""#));
}

#[test]
fn test_update_version_in_content_detailed() {
    let content = r#"
[workspace.dependencies]
serde = { version = "1.0.0", features = ["derive"] }
tokio = "1.0"
"#;
    let result = update_version_in_content(content, "serde", "1.0.200");
    assert!(result.is_ok());
    let updated = result.unwrap();
    assert!(updated.contains(r#"serde = { version = "1.0.200", features = ["derive"] }"#));
}

fn manifest(path: &str, name: &str) -> Manifest {
    Manifest {
        path: path.to_string(),
        content: ManifestContent {
            package: Some(Package {
                name: name.to_string(),
                version: InheritableField::Value("0.1.0".to_string()),
                edition: None,
            }),
            dependencies: Some(DependencyTable::new()),
            dev_dependencies: None,
            build_dependencies: None,
        },
    }
}

const ROOT: &str = r#"
[workspace]
members = ["member1"]

[workspace.package]
version = "1.0.0"
edition = "2021"

[workspace.dependencies]
serde = { version = "1.0.193", features = ["derive"] }
tokio = "1.35.0"
"#;

const MEMBER: &str = r#"
[package]
name = "member1"
version.workspace = true

[dependencies]
serde.workspace = true
anyhow = "1.0"
"#;

fn member_updater() -> DependencyUpdater {
    let root = WorkspaceRoot {
        path: "/tmp/ws/Cargo.toml".to_string(),
        package: None,
        dependencies: None,
        members: vec!["member1".to_string()],
    };
    let ctx = WorkspaceContext::new(Some(root), "/tmp/ws/member1/Cargo.toml".to_string());
    let root_path = workspace_root_to_load(&ctx).expect("member of a workspace");
    assert_eq!(root_path, "/tmp/ws/Cargo.toml");
    DependencyUpdater::new(
        manifest("/tmp/ws/member1/Cargo.toml", "member1"),
        MEMBER.to_string(),
        Some((root_path, ROOT.to_string())),
    )
}

#[test]
fn test_update_local_dependency() {
    let content = r#"
[package]
name = "test"
version = "0.1.0"

[dependencies]
serde = "1.0.0"
"#;
    let ctx = WorkspaceContext::new(None, "/tmp/t/Cargo.toml".to_string());
    assert_eq!(workspace_root_to_load(&ctx), None);
    let mut updater = DependencyUpdater::new(manifest("/tmp/t/Cargo.toml", "test"), content.to_string(), None);

    let dep = Dependency::new("serde".to_string(), Version::new(1, 0, 0), true);
    updater.update_dependency(&dep, "1.0.200").unwrap();

    assert!(updater.get_content().contains(r#"serde = "1.0.200""#));
    assert!(!updater.workspace_modified());
}

#[test]
fn test_update_workspace_dependency() {
    let mut updater = member_updater();

    let mut dep = Dependency::new("serde".to_string(), Version::new(1, 0, 193), true);
    dep = dep.with_workspace_inherited(true);

    updater.update_dependency(&dep, "1.0.200").unwrap();

    assert!(updater.workspace_modified());
    let ws_content = updater.get_workspace_content().unwrap();
    assert!(ws_content.contains("1.0.200"));
}

#[test]
fn test_mixed_updates() {
    let mut updater = member_updater();

    let mut serde_dep = Dependency::new("serde".to_string(), Version::new(1, 0, 193), true);
    serde_dep = serde_dep.with_workspace_inherited(true);
    updater.update_dependency(&serde_dep, "1.0.200").unwrap();

    let anyhow_dep = Dependency::new("anyhow".to_string(), Version::new(1, 0, 0), true);
    updater.update_dependency(&anyhow_dep, "1.0.100").unwrap();

    assert!(updater.workspace_modified());
    assert!(updater.get_workspace_content().unwrap().contains("1.0.200"));
    assert!(updater.get_content().contains(r#"anyhow = "1.0.100""#));
}

#[test]
fn root_manifest_is_not_loaded_twice() {
    let root = WorkspaceRoot {
        path: "/tmp/ws/Cargo.toml".to_string(),
        package: None,
        dependencies: None,
        members: vec![],
    };
    let ctx = WorkspaceContext::new(Some(root), "/tmp/ws/Cargo.toml".to_string());
    assert_eq!(workspace_root_to_load(&ctx), None);
}

#[test]
fn inherited_update_without_root_fails() {
    let mut updater = DependencyUpdater::new(manifest("/tmp/t/Cargo.toml", "t"), MEMBER.to_string(), None);
    let dep = Dependency::new("serde".to_string(), Version::new(1, 0, 0), true).with_workspace_inherited(true);
    assert!(matches!(updater.update_dependency(&dep, "2.0.0"), Err(UpdateError::NoWorkspaceRoot)));
    assert_eq!(updater.get_content(), MEMBER);
    assert_eq!(updater.workspace_root_path(), None);
}

#[test]
fn missing_dependency_leaves_text_unchanged() {
    let mut updater = member_updater();
    let dep = Dependency::new("rand".to_string(), Version::new(0, 8, 0), true);
    match updater.update_dependency(&dep, "0.9.0") {
        Err(UpdateError::DependencyNotFound { name }) => assert_eq!(name, "rand"),
        other => panic!("unexpected {:?}", other),
    }
    assert_eq!(updater.get_content(), MEMBER);
    assert!(!updater.workspace_modified());
    assert_eq!(updater.workspace_root_path(), None);
    assert_eq!(updater.manifest().path, "/tmp/ws/member1/Cargo.toml");
    let _ = DependencySpec::Simple(String::new());
}

#[test]
fn fresh_member_updater_has_not_modified_root() {
    let mut updater = member_updater();
    assert!(!updater.workspace_modified());
    assert_eq!(updater.workspace_root_path(), None);
    assert!(updater.get_workspace_content().is_some());

    let local = Dependency::new("anyhow".to_string(), Version::new(1, 0, 0), true);
    updater.update_dependency(&local, "1.0.100").unwrap();
    assert!(!updater.workspace_modified());

    let missing = Dependency::new("rand".to_string(), Version::new(0, 8, 0), true)
        .with_workspace_inherited(true);
    match updater.update_dependency(&missing, "0.9.0") {
        Err(UpdateError::DependencyNotFound { name }) => assert_eq!(name, "rand"),
        other => panic!("unexpected {:?}", other),
    }
    assert!(!updater.workspace_modified());

    let inherited = Dependency::new("serde".to_string(), Version::new(1, 0, 193), true)
        .with_workspace_inherited(true);
    updater.update_dependency(&inherited, "1.0.200").unwrap();
    assert!(updater.workspace_modified());
    assert_eq!(updater.workspace_root_path(), Some("/tmp/ws/Cargo.toml"));
}
