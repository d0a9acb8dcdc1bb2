use cargo_sane::checker::{checked_dependency, plan_check, resolve_version, DependencyCheck};
use cargo_sane::manifest::{DependencySpec, DependencyTable, DetailedDependency};
use cargo_sane::version::{normalize_version, parse_version, parse_version_req, Version};
use cargo_sane::workspace::{WorkspaceContext, WorkspaceRoot};

#[test]
fn test_normalize_version() {
    assert_eq!(normalize_version("1"), "1.0.0");
    assert_eq!(normalize_version("1.0"), "1.0.0");
    assert_eq!(normalize_version("1.0.5"), "1.0.5");
    assert_eq!(normalize_version("1.35"), "1.35.0");
}

#[test]
fn test_parse_version_req() {
    assert_eq!(parse_version_req("1.0.5"), Some(Version::new(1, 0, 5)));
    assert_eq!(parse_version_req("1.0"), Some(Version::new(1, 0, 0)));
    assert_eq!(parse_version_req("1"), Some(Version::new(1, 0, 0)));
    assert_eq!(parse_version_req("^1.0.5"), Some(Version::new(1, 0, 5)));
    assert_eq!(parse_version_req("~1.0.5"), Some(Version::new(1, 0, 5)));
    assert_eq!(parse_version_req("1.35"), Some(Version::new(1, 35, 0)));
}

#[test]
fn parse_version_req_comparison_operators() {
    assert_eq!(parse_version_req(">=1.0.5"), Some(Version::new(1, 0, 5)));
    assert_eq!(parse_version_req("=2.3"), Some(Version::new(2, 3, 0)));
    assert_eq!(parse_version_req("<3"), Some(Version::new(3, 0, 0)));
    assert_eq!(parse_version_req("  ^ 0.4.1  "), Some(Version::new(0, 4, 1)));
}

#[test]
fn parse_version_req_rejects_non_versions() {
    assert_eq!(parse_version_req(""), None);
    assert_eq!(parse_version_req("*"), None);
    assert_eq!(parse_version_req("abc"), None);
    assert_eq!(parse_version_req("1.0.01"), None);
}

#[test]
fn parse_version_req_keeps_prerelease() {
    let v = parse_version_req("^1.0.0-rc.1").unwrap();
    assert_eq!((v.major(), v.minor(), v.patch()), (1, 0, 0));
    assert_eq!(v.pre(), "rc.1");
    assert_eq!(v.to_string(), "1.0.0-rc.1");
}

#[test]
fn normalize_version_edge_cases() {
    assert_eq!(normalize_version(""), ".0.0");
    assert_eq!(normalize_version("1.2.3.4"), "1.2.3.4");
}

#[test]
fn version_text_round_trips() {
    let v = Version::new(12, 0, 345);
    assert_eq!(v.to_string(), "12.0.345");
    assert_eq!(parse_version(&v.to_string()), Some(v));
    let full = parse_version("1.2.3-alpha.1+build.5").unwrap();
    assert_eq!(full.to_string(), "1.2.3-alpha.1+build.5");
    assert_eq!(full.build(), "build.5");
}

fn workspace_ctx() -> WorkspaceContext {
    let mut deps = DependencyTable::new();
    deps.insert("tokio".to_string(), DependencySpec::Simple("1.35.0".to_string()));
    let root = WorkspaceRoot {
        path: "/ws/Cargo.toml".to_string(),
        package: None,
        dependencies: Some(deps),
        members: vec!["member1".to_string()],
    };
    WorkspaceContext::new(Some(root), "/ws/member1/Cargo.toml".to_string())
}

fn detailed(version: Option<&str>, git: Option<&str>, path: Option<&str>) -> DependencySpec {
    DependencySpec::Detailed(DetailedDependency {
        version: version.map(|s| s.to_string()),
        git: git.map(|s| s.to_string()),
        path: path.map(|s| s.to_string()),
        features: None,
        optional: None,
        default_features: None,
    })
}

#[test]
fn resolve_version_of_each_form() {
    let ctx = workspace_ctx();
    assert_eq!(resolve_version("a", &DependencySpec::Simple("1.2".to_string()), &ctx), Some("1.2".to_string()));
    assert_eq!(resolve_version("a", &detailed(Some("0.3"), None, None), &ctx), Some("0.3".to_string()));
    assert_eq!(resolve_version("a", &detailed(None, None, None), &ctx), None);
    assert_eq!(
        resolve_version("tokio", &DependencySpec::Workspace { workspace: true }, &ctx),
        Some("1.35.0".to_string())
    );
    assert_eq!(resolve_version("tokio", &DependencySpec::Workspace { workspace: false }, &ctx), None);
    assert_eq!(resolve_version("serde", &DependencySpec::Workspace { workspace: true }, &ctx), None);
}

#[test]
fn plan_check_outcomes() {
    let ctx = workspace_ctx();
    let name = "dep".to_string();
    assert!(matches!(plan_check(&name, &detailed(Some("1"), Some("https://x"), None), &ctx), DependencyCheck::Skipped { .. }));
    assert!(matches!(plan_check(&name, &detailed(None, None, Some("../x")), &ctx), DependencyCheck::Skipped { .. }));
    let unresolved = plan_check(&name, &DependencySpec::Workspace { workspace: true }, &ctx);
    assert!(matches!(unresolved, DependencyCheck::Unresolved { is_workspace: true, .. }));
    assert_eq!(
        unresolved.warning(),
        Some("Warning: Could not resolve workspace dependency 'dep' - workspace root not found or dependency not defined".to_string())
    );
    let unparsable = plan_check(&name, &DependencySpec::Simple("latest".to_string()), &ctx);
    assert_eq!(unparsable.warning(), Some("Warning: Could not parse version 'latest' for dep".to_string()));
    let tokio = "tokio".to_string();
    match plan_check(&tokio, &DependencySpec::Workspace { workspace: true }, &ctx) {
        DependencyCheck::Ready { name, is_workspace, current } => {
            assert_eq!(name, "tokio");
            assert!(is_workspace);
            assert_eq!(current, Version::new(1, 35, 0));
        }
        other => panic!("unexpected {:?}", other),
    }
    let silent = plan_check(&name, &detailed(None, None, None), &ctx);
    assert!(matches!(silent, DependencyCheck::Unresolved { is_workspace: false, .. }));
    assert_eq!(silent.warning(), None);
}

#[test]
fn checked_dependency_carries_lookup() {
    let name = "serde".to_string();
    let d = checked_dependency(&name, true, &Version::new(1, 0, 0), Some(Version::new(1, 0, 5)));
    assert!(d.is_direct);
    assert!(d.is_workspace_inherited);
    assert_eq!(d.latest_version, Some(Version::new(1, 0, 5)));
    let e = checked_dependency(&name, false, &Version::new(1, 0, 0), None);
    assert!(!e.is_workspace_inherited);
    assert_eq!(e.latest_version, None);
}

#[test]
fn parsed_text_is_read_as_requirement() {
    for text in ["1.2.3", "0.1.0-alpha.1", "2.0.0+build.7"] {
        let v = parse_version(text).unwrap();
        for req in [text.to_string(), format!("^{}", text), format!("~{}", text), format!(" {} ", text), format!(">={}", text)] {
            assert_eq!(parse_version_req(&req), Some(v.clone()));
        }
    }
}

#[test]
fn operators_are_removed_in_fixed_order() {
    assert_eq!(parse_version_req(">=1.0.5"), Some(Version::new(1, 0, 5)));
    assert_eq!(parse_version_req("^^~1.2"), Some(Version::new(1, 2, 0)));
    assert_eq!(parse_version_req("<=1.0.5"), None);
    assert_eq!(parse_version_req("=^1.0.5"), None);
    assert_eq!(parse_version_req("~^1.0"), None);
}
