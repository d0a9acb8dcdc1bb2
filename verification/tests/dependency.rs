use cargo_sane::dependency::{Dependency, UpdateType};
use cargo_sane::version::{parse_version, Version};

fn dep(current: Version, latest: Option<Version>) -> Dependency {
    let d = Dependency::new("serde".to_string(), current, true);
    match latest {
        Some(l) => d.with_latest(l),
        None => d,
    }
}

#[test]
fn update_type_classification() {
    assert_eq!(dep(Version::new(1, 0, 0), None).update_type(), UpdateType::UpToDate);
    assert_eq!(dep(Version::new(1, 0, 0), Some(Version::new(1, 0, 0))).update_type(), UpdateType::UpToDate);
    assert_eq!(dep(Version::new(1, 2, 0), Some(Version::new(1, 1, 9))).update_type(), UpdateType::UpToDate);
    assert_eq!(dep(Version::new(1, 0, 0), Some(Version::new(1, 0, 7))).update_type(), UpdateType::Patch);
    assert_eq!(dep(Version::new(1, 0, 9), Some(Version::new(1, 3, 0))).update_type(), UpdateType::Minor);
    assert_eq!(dep(Version::new(1, 9, 9), Some(Version::new(2, 0, 0))).update_type(), UpdateType::Major);
}

#[test]
fn prerelease_is_not_an_update() {
    let latest = parse_version("1.0.0-rc.1").unwrap();
    assert_eq!(dep(Version::new(1, 0, 0), Some(latest)).update_type(), UpdateType::UpToDate);
    let current = parse_version("1.0.0-rc.1").unwrap();
    assert_eq!(dep(current, Some(Version::new(1, 0, 0))).update_type(), UpdateType::Patch);
}

#[test]
fn has_update_matches_update_type() {
    assert!(!dep(Version::new(1, 0, 0), None).has_update());
    assert!(dep(Version::new(0, 1, 0), Some(Version::new(0, 2, 0))).has_update());
}

#[test]
fn builders_set_fields() {
    let d = Dependency::new("a".to_string(), Version::new(0, 1, 0), false);
    assert_eq!(d.latest_version, None);
    assert!(!d.is_workspace_inherited);
    assert!(!d.is_direct);
    let d = d.with_workspace_inherited(true).with_latest(Version::new(0, 2, 0));
    assert!(d.is_workspace_inherited);
    assert_eq!(d.latest_version, Some(Version::new(0, 2, 0)));
    let c = d.clone();
    assert_eq!(c.name, "a");
    assert_eq!(c.current_version, Version::new(0, 1, 0));
}
