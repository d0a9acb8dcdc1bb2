use cargo_sane::commands::{
    aggregate_workspace_deps, aggregated_dependencies, aggregated_marker, aggregated_selection_label,
    all_up_to_date, apply_version_edits, member_edits, selection_label, summarize_updates,
    target_version, updatable_indices, update_badge, update_description, update_icon,
    workspace_marker, workspace_root_edits, MemberReport,
};
use cargo_sane::dependency::{Dependency, UpdateType};
use cargo_sane::version::Version;
use cargo_sane::version_edit::UpdateError;

fn dep(name: &str, current: (u64, u64, u64), latest: Option<(u64, u64, u64)>, inherited: bool) -> Dependency {
    let d = Dependency::new(name.to_string(), Version::new(current.0, current.1, current.2), true)
        .with_workspace_inherited(inherited);
    match latest {
        Some(l) => d.with_latest(Version::new(l.0, l.1, l.2)),
        None => d,
    }
}

#[test]
fn summary_groups_by_update_kind() {
    let deps = vec![
        dep("a", (1, 0, 0), Some((1, 0, 1)), false),
        dep("b", (1, 0, 0), None, false),
        dep("c", (1, 0, 0), Some((2, 0, 0)), false),
        dep("d", (1, 0, 0), Some((1, 1, 0)), false),
        dep("e", (1, 0, 0), Some((1, 0, 2)), false),
    ];
    let s = summarize_updates(&deps);
    assert_eq!(s.up_to_date, vec![1]);
    assert_eq!(s.patch, vec![0, 4]);
    assert_eq!(s.minor, vec![3]);
    assert_eq!(s.major, vec![2]);
    assert_eq!(updatable_indices(&deps), vec![0, 2, 3, 4]);
    assert!(!all_up_to_date(&deps));
    assert!(all_up_to_date(&vec![dep("x", (1, 0, 0), Some((0, 9, 0)), false)]));
    assert!(all_up_to_date(&Vec::new()));
}

fn workspace_members() -> Vec<MemberReport> {
    vec![
        MemberReport {
            package_name: "app".to_string(),
            manifest_path: "/ws/app/Cargo.toml".to_string(),
            dependencies: vec![
                dep("serde", (1, 0, 0), None, true),
                dep("log", (0, 4, 0), Some((0, 4, 20)), false),
            ],
        },
        MemberReport {
            package_name: "lib".to_string(),
            manifest_path: "/ws/lib/Cargo.toml".to_string(),
            dependencies: vec![
                dep("serde", (1, 0, 0), Some((1, 0, 200)), true),
                dep("log", (0, 4, 0), Some((0, 4, 20)), false),
                dep("rand", (0, 8, 0), Some((0, 9, 0)), false),
            ],
        },
    ]
}

#[test]
fn aggregation_by_name() {
    let aggs = aggregate_workspace_deps(&workspace_members());
    assert_eq!(aggs.len(), 3);
    assert_eq!(aggs[0].dep.name, "serde");
    assert_eq!(aggs[0].used_by, vec!["app", "lib"]);
    assert!(aggs[0].member_manifests.is_empty());
    assert_eq!(aggs[0].dep.latest_version, Some(Version::new(1, 0, 200)));
    assert_eq!(aggs[1].dep.name, "log");
    assert_eq!(aggs[1].member_manifests, vec!["/ws/app/Cargo.toml", "/ws/lib/Cargo.toml"]);
    assert_eq!(aggs[2].used_by, vec!["lib"]);
    let total: usize = aggs.iter().map(|a| a.used_by.len()).sum();
    assert_eq!(total, 5);
    let deps = aggregated_dependencies(&aggs);
    assert_eq!(deps.len(), 3);
    assert_eq!(deps[2].name, "rand");
}

#[test]
fn workspace_edit_planning() {
    let aggs = aggregate_workspace_deps(&workspace_members());
    let selected = vec![0, 1, 2];
    let root = workspace_root_edits(&aggs, &selected);
    assert_eq!(root, vec![("serde".to_string(), "1.0.200".to_string())]);
    let members = member_edits(&aggs, &selected);
    assert_eq!(members.len(), 2);
    assert_eq!(members[0].manifest_path, "/ws/app/Cargo.toml");
    assert_eq!(members[0].edits, vec![("log".to_string(), "0.4.20".to_string())]);
    assert_eq!(members[1].manifest_path, "/ws/lib/Cargo.toml");
    assert_eq!(
        members[1].edits,
        vec![("log".to_string(), "0.4.20".to_string()), ("rand".to_string(), "0.9.0".to_string())]
    );
    assert!(member_edits(&aggs, &vec![0]).is_empty());
}

#[test]
fn edits_applied_in_order() {
    let content = "[dependencies]\nlog = \"0.4\"\nrand = { version = \"0.8\" }\n";
    let edits = vec![
        ("log".to_string(), "0.4.20".to_string()),
        ("missing".to_string(), "1.0.0".to_string()),
        ("rand".to_string(), "0.9.0".to_string()),
    ];
    let (text, outcomes) = apply_version_edits(content, &edits);
    assert_eq!(text, "[dependencies]\nlog = \"0.4.20\"\nrand = { version = \"0.9.0\" }\n");
    assert!(outcomes[0].is_ok());
    match &outcomes[1] {
        Err(e @ UpdateError::DependencyNotFound { .. }) => {
            assert_eq!(e.message(), "Could not find dependency missing in Cargo.toml")
        }
        other => panic!("unexpected {:?}", other),
    }
    assert!(outcomes[2].is_ok());
    assert_eq!(UpdateError::NoWorkspaceRoot.message(), "No workspace root found for inherited dependency");
}

#[test]
fn labels() {
    assert_eq!(update_icon(UpdateType::Patch), "🟢");
    assert_eq!(update_badge(UpdateType::Major), "🔴 MAJOR");
    assert_eq!(update_badge(UpdateType::UpToDate), "✅ UP-TO-DATE");
    assert_eq!(update_description(UpdateType::Minor), "minor update - should be backwards compatible");
    assert_eq!(workspace_marker(true), " [workspace]");
    assert_eq!(workspace_marker(false), "");
    let d = dep("serde", (1, 0, 0), Some((1, 2, 0)), true);
    assert_eq!(selection_label(&d), "🟡 serde [ws] 1.0.0 → 1.2.0");
    assert_eq!(aggregated_marker(&d, 3), " [workspace]");
    let e = dep("log", (0, 4, 0), Some((0, 4, 20)), false);
    assert_eq!(selection_label(&e), "🟢 log 0.4.0 → 0.4.20");
    assert_eq!(aggregated_marker(&e, 12), " [12 member(s)]");
    assert_eq!(target_version(&e), Some("0.4.20".to_string()));
    assert_eq!(target_version(&dep("x", (1, 0, 0), None, false)), None);
    let aggs = aggregate_workspace_deps(&workspace_members());
    assert_eq!(aggregated_selection_label(&aggs[1]), "🟢 log [2m] 0.4.0 → 0.4.20");
    assert_eq!(aggregated_selection_label(&aggs[0]), "🟢 serde [ws] 1.0.0 → 1.0.200");
}
