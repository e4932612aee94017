use smol_launcher::manifest::find_version;
use smol_launcher::manifest::select_version_id;
use smol_launcher::manifest::LatestPointers;
use smol_launcher::manifest::Version;
use smol_launcher::record::InstalledRecord;

fn catalog() -> Vec<Version> {
    vec![
        Version { id: "1.21".to_string(), url: "https://example.com/1.21.json".to_string() },
        Version { id: "24w14a".to_string(), url: "https://example.com/24w14a.json".to_string() },
        Version { id: "1.20.6".to_string(), url: "https://example.com/1.20.6.json".to_string() },
    ]
}

#[test]
fn latest_release_or_snapshot_is_selected() {
    let latest = LatestPointers { release: "1.21".to_string(), snapshot: "24w14a".to_string() };
    assert_eq!(select_version_id(latest, false), "1.21");
    let latest = LatestPointers { release: "1.21".to_string(), snapshot: "24w14a".to_string() };
    assert_eq!(select_version_id(latest, true), "24w14a");
}

#[test]
fn catalog_lookup_finds_the_requested_version() {
    let versions = catalog();
    assert_eq!(find_version(&versions, &"24w14a".to_string()), Some(1));
    assert_eq!(find_version(&versions, &"1.20.6".to_string()), Some(2));
    assert_eq!(find_version(&versions, &"0.0.0".to_string()), None);
}

#[test]
fn catalog_lookup_takes_the_last_of_duplicate_ids() {
    let mut versions = catalog();
    versions.push(Version {
        id: "1.21".to_string(),
        url: "https://example.com/1.21-republished.json".to_string(),
    });
    assert_eq!(find_version(&versions, &"1.21".to_string()), Some(3));
}

#[test]
fn installed_versions_skip_the_pipeline() {
    let mut record = InstalledRecord::new();
    assert!(!record.is_installed(&"1.21".to_string()));
    record.mark_installed("1.21".to_string());
    assert!(record.is_installed(&"1.21".to_string()));
    assert!(!record.is_installed(&"1.20.6".to_string()));
    record.set_classpath("/data/versions/1.21.jar".to_string());
    record.set_refresh_token("identity-refresh".to_string());
    assert_eq!(record.classpath.as_deref(), Some("/data/versions/1.21.jar"));
    assert_eq!(record.refresh_token.as_deref(), Some("identity-refresh"));
    assert_eq!(record.versions, vec!["1.21".to_string()]);
}
