use cargo_sane::crates_io::{
    available_versions, latest_version, CrateInfo, CrateResponse, VersionCache, VersionInfo,
    VersionsResponse,
};
use cargo_sane::version::Version;

fn response(newest: &str) -> CrateResponse {
    CrateResponse {
        krate: CrateInfo {
            name: "serde".to_string(),
            newest_version: newest.to_string(),
            description: None,
            updated_at: "2024-01-01T00:00:00Z".to_string(),
        },
    }
}

#[test]
fn latest_version_from_response() {
    assert_eq!(latest_version(&response("1.0.193")), Some(Version::new(1, 0, 193)));
    assert_eq!(latest_version(&response("not-a-version")), None);
}

#[test]
fn available_versions_skip_yanked_and_invalid() {
    let r = VersionsResponse {
        versions: vec![
            VersionInfo { num: "1.0.2".to_string(), yanked: false },
            VersionInfo { num: "1.0.1".to_string(), yanked: true },
            VersionInfo { num: "garbage".to_string(), yanked: false },
            VersionInfo { num: "1.0.0".to_string(), yanked: false },
        ],
    };
    assert_eq!(available_versions(&r), vec![Version::new(1, 0, 2), Version::new(1, 0, 0)]);
}

#[test]
fn cache_returns_what_was_recorded() {
    let mut cache = VersionCache::new();
    assert_eq!(cache.get("serde"), None);
    cache.insert("serde".to_string(), Version::new(1, 0, 0));
    cache.insert("tokio".to_string(), Version::new(1, 35, 0));
    assert_eq!(cache.get("serde"), Some(Version::new(1, 0, 0)));
    cache.insert("serde".to_string(), Version::new(1, 0, 1));
    assert_eq!(cache.get("serde"), Some(Version::new(1, 0, 1)));
    assert_eq!(cache.get("tokio"), Some(Version::new(1, 35, 0)));
    assert_eq!(cache.get("anyhow"), None);
}
