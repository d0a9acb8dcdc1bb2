use cargo_sane::manifest::{
    DependencySpec, DependencyTable, DetailedDependency, InheritableField, Manifest, ManifestContent,
    Package,
};

fn detailed(git: Option<&str>, path: Option<&str>) -> DependencySpec {
    DependencySpec::Detailed(DetailedDependency {
        version: Some("1.0".to_string()),
        git: git.map(|s| s.to_string()),
        path: path.map(|s| s.to_string()),
        features: Some(vec!["derive".to_string()]),
        optional: Some(true),
        default_features: Some(false),
    })
}

#[test]
fn inheritable_field_accessors() {
    let v: InheritableField<String> = InheritableField::Value("0.1.0".to_string());
    assert_eq!(v.as_value(), Some(&"0.1.0".to_string()));
    assert!(!v.is_workspace());
    let w: InheritableField<String> = InheritableField::Workspace { workspace: true };
    assert_eq!(w.as_value(), None);
    assert!(w.is_workspace());
}

#[test]
fn dependency_spec_kinds() {
    let simple = DependencySpec::Simple("1.2".to_string());
    assert_eq!(simple.version(), Some("1.2"));
    assert!(simple.is_crates_io());
    let git = detailed(Some("https://github.com/x/y"), None);
    assert!(git.is_git() && !git.is_path() && !git.is_crates_io());
    let path = detailed(None, Some("../y"));
    assert!(path.is_path() && !path.is_crates_io());
    assert_eq!(path.version(), Some("1.0"));
    let ws = DependencySpec::Workspace { workspace: true };
    assert!(ws.is_workspace());
    assert_eq!(ws.version(), None);
    assert!(ws.is_crates_io());
    assert!(!simple.is_workspace());
}

#[test]
fn table_insert_replaces_in_place() {
    let mut t = DependencyTable::new();
    t.insert("serde".to_string(), DependencySpec::Simple("1.0".to_string()));
    t.insert("tokio".to_string(), DependencySpec::Workspace { workspace: true });
    t.insert("serde".to_string(), DependencySpec::Simple("2.0".to_string()));
    assert_eq!(t.len(), 2);
    assert_eq!(t.get("serde").unwrap().version(), Some("2.0"));
    assert!(t.get("tokio").unwrap().is_workspace());
    assert!(t.get("rand").is_none());
    assert_eq!(t.entry(0).0, "serde");
}

#[test]
fn manifest_accessors() {
    let mut deps = DependencyTable::new();
    deps.insert("serde".to_string(), DependencySpec::Workspace { workspace: true });
    deps.insert("tokio".to_string(), DependencySpec::Simple("1.0".to_string()));
    let m = Manifest {
        path: "/tmp/Cargo.toml".to_string(),
        content: ManifestContent {
            package: Some(Package {
                name: "test-package".to_string(),
                version: InheritableField::Workspace { workspace: true },
                edition: Some(InheritableField::Workspace { workspace: true }),
            }),
            dependencies: Some(deps),
            dev_dependencies: None,
            build_dependencies: None,
        },
    };
    assert_eq!(m.package_name(), Some("test-package"));
    let got = m.get_dependencies();
    assert_eq!(got.len(), 2);
    assert_eq!(got[0].0, "serde");
    let empty = Manifest {
        path: "/tmp/x/Cargo.toml".to_string(),
        content: ManifestContent { package: None, dependencies: None, dev_dependencies: None, build_dependencies: None },
    };
    assert_eq!(empty.package_name(), None);
    assert!(empty.get_dependencies().is_empty());
}
