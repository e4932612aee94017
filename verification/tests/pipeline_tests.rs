use smol_launcher::digest::digest_matches;
use smol_launcher::manifest::AssetObject;
use smol_launcher::manifest::ClientDownload;
use smol_launcher::manifest::LibraryEntry;
use smol_launcher::manifest::VersionData;
use smol_launcher::pipeline::assemble_classpath;
use smol_launcher::pipeline::finish_install;
use smol_launcher::pipeline::InstallPlan;
use smol_launcher::pipeline::asset_index_path;
use smol_launcher::pipeline::asset_object_path;
use smol_launcher::pipeline::asset_url;
use smol_launcher::pipeline::client_path;
use smol_launcher::pipeline::join_paths;
use smol_launcher::pipeline::library_path;
use smol_launcher::pipeline::plan_assets;
use smol_launcher::pipeline::plan_install;
use smol_launcher::pipeline::rule_allows;
use smol_launcher::pipeline::verify_download;
use smol_launcher::pipeline::verify_downloads;
use smol_launcher::pipeline::FetchTask;
use smol_launcher::pipeline::PipelineError;
use smol_launcher::platform::classpath_separator;
use smol_launcher::platform::Os;

fn lib_entry(rel: &str, url: &str, sha1: &str, rule: Option<Os>) -> LibraryEntry {
    LibraryEntry {
        relative_path: rel.to_string(),
        url: url.to_string(),
        sha1: sha1.to_string(),
        rule,
    }
}

fn sample_data() -> VersionData {
    VersionData {
        libraries: vec![
            lib_entry("org/lwjgl/lwjgl.jar", "https://example.com/lwjgl.jar", "aa", Some(Os::Windows)),
            lib_entry("com/mojang/brigadier.jar", "https://example.com/brigadier.jar", "bb", None),
        ],
        client: ClientDownload {
            url: "https://example.com/client.jar".to_string(),
            sha1: "cc".to_string(),
        },
        asset_index_url: "https://example.com/index.json".to_string(),
    }
}

#[test]
fn separator_is_platform_specific() {
    assert_eq!(classpath_separator(Os::Windows), ";");
    assert_eq!(classpath_separator(Os::Linux), ":");
    assert_eq!(classpath_separator(Os::Osx), ":");
}

#[test]
fn universal_entry_applies_everywhere() {
    let rule: Option<Os> = None;
    assert!(rule_allows(&rule, Os::Linux));
    assert!(rule_allows(&rule, Os::Windows));
    assert!(rule_allows(&rule, Os::Osx));
}

#[test]
fn platform_rule_admits_only_its_platform() {
    let rule = Some(Os::Windows);
    assert!(rule_allows(&rule, Os::Windows));
    assert!(!rule_allows(&rule, Os::Linux));
    assert!(!rule_allows(&rule, Os::Osx));
}

#[test]
fn destination_paths_follow_store_layout() {
    assert_eq!(
        library_path("/data", "org/lwjgl/lwjgl.jar"),
        "/data/libraries/org/lwjgl/lwjgl.jar"
    );
    assert_eq!(client_path("/data", "1.21"), "/data/versions/1.21.jar");
    assert_eq!(asset_index_path("/data", "1.21"), "/data/assets/indexes/1.21.json");
    assert_eq!(
        asset_object_path("/data", "2aae6c35c94fcfb415dbe95f408b9ce91ee846ed"),
        "/data/assets/objects/2a/2aae6c35c94fcfb415dbe95f408b9ce91ee846ed"
    );
    assert_eq!(
        asset_url("2aae6c35c94fcfb415dbe95f408b9ce91ee846ed"),
        "https://resources.download.minecraft.net/2a/2aae6c35c94fcfb415dbe95f408b9ce91ee846ed"
    );
}

#[test]
fn fresh_run_on_linux_dispatches_two_tasks() {
    // the scenario: one Windows-only library, one universal library, a
    // client artifact, all missing, on a non-Windows host
    let data = sample_data();
    let version_id = "1.21".to_string();
    let dir = "/data".to_string();
    let plan = plan_install(&data, &version_id, &vec![false, false], false, Os::Linux, &dir);
    assert!(plan.present.is_empty());
    assert_eq!(plan.tasks.len(), 2);
    assert_eq!(plan.tasks[0].destination, "/data/libraries/com/mojang/brigadier.jar");
    assert_eq!(plan.tasks[0].url, "https://example.com/brigadier.jar");
    assert_eq!(plan.tasks[0].sha1, "bb");
    assert_eq!(plan.tasks[1].destination, "/data/versions/1.21.jar");
    assert_eq!(plan.tasks[1].url, "https://example.com/client.jar");
    assert_eq!(plan.tasks[1].sha1, "cc");
    // the resulting classpath holds exactly the universal library and the client
    let fetched: Vec<String> = plan.tasks.iter().map(|t| t.destination.clone()).collect();
    let classpath = assemble_classpath(&plan.present, &fetched, classpath_separator(Os::Linux));
    assert_eq!(
        classpath,
        "/data/libraries/com/mojang/brigadier.jar:/data/versions/1.21.jar"
    );
}

#[test]
fn windows_host_includes_the_windows_library() {
    let data = sample_data();
    let version_id = "1.21".to_string();
    let dir = "/data".to_string();
    let plan = plan_install(&data, &version_id, &vec![false, false], false, Os::Windows, &dir);
    assert_eq!(plan.tasks.len(), 3);
    assert_eq!(plan.tasks[0].destination, "/data/libraries/org/lwjgl/lwjgl.jar");
}

#[test]
fn rerun_with_everything_present_fetches_nothing() {
    let data = sample_data();
    let version_id = "1.21".to_string();
    let dir = "/data".to_string();
    let fresh = plan_install(&data, &version_id, &vec![false, false], false, Os::Linux, &dir);
    let rerun = plan_install(&data, &version_id, &vec![true, true], true, Os::Linux, &dir);
    // zero fetches on the rerun
    assert!(rerun.tasks.is_empty());
    // and the same set of classpath paths as the fresh run's fetch set
    let mut fresh_paths: Vec<String> = fresh
        .tasks
        .iter()
        .map(|t| t.destination.clone())
        .chain(fresh.present.iter().cloned())
        .collect();
    let mut rerun_paths = rerun.present.clone();
    fresh_paths.sort();
    rerun_paths.sort();
    assert_eq!(fresh_paths, rerun_paths);
}

#[test]
fn partly_present_library_set_is_partitioned() {
    let data = sample_data();
    let version_id = "1.21".to_string();
    let dir = "/data".to_string();
    // universal library present, client missing, on windows: windows library missing
    let plan = plan_install(&data, &version_id, &vec![false, true], false, Os::Windows, &dir);
    assert_eq!(plan.present, vec!["/data/libraries/com/mojang/brigadier.jar".to_string()]);
    assert_eq!(plan.tasks.len(), 2);
    assert_eq!(plan.tasks[0].destination, "/data/libraries/org/lwjgl/lwjgl.jar");
    assert_eq!(plan.tasks[1].destination, "/data/versions/1.21.jar");
}

#[test]
fn asset_plan_covers_exactly_the_missing_objects() {
    let objects = vec![
        AssetObject { hash: "2aae6c35c94fcfb415dbe95f408b9ce91ee846ed".to_string() },
        AssetObject { hash: "da39a3ee5e6b4b0d3255bfef95601890afd80709".to_string() },
    ];
    let dir = "/data".to_string();
    let tasks = plan_assets(&objects, &vec![true, false], &dir);
    assert_eq!(tasks.len(), 1);
    assert_eq!(
        tasks[0].url,
        "https://resources.download.minecraft.net/da/da39a3ee5e6b4b0d3255bfef95601890afd80709"
    );
    assert_eq!(tasks[0].sha1, "da39a3ee5e6b4b0d3255bfef95601890afd80709");
    assert_eq!(
        tasks[0].destination,
        "/data/assets/objects/da/da39a3ee5e6b4b0d3255bfef95601890afd80709"
    );
}

#[test]
fn digest_of_known_bytes_matches() {
    let bytes = b"hello world".to_vec();
    let expected = "2aae6c35c94fcfb415dbe95f408b9ce91ee846ed".to_string();
    assert!(digest_matches(&bytes, &expected));
    let empty: Vec<u8> = Vec::new();
    let empty_digest = "da39a3ee5e6b4b0d3255bfef95601890afd80709".to_string();
    assert!(digest_matches(&empty, &empty_digest));
}

#[test]
fn digest_mismatch_is_detected() {
    let bytes = b"hello world".to_vec();
    let wrong = "da39a3ee5e6b4b0d3255bfef95601890afd80709".to_string();
    assert!(!digest_matches(&bytes, &wrong));
    // the digest is of the bytes, not the expected string handed back
    let itself = String::from_utf8(bytes.clone()).unwrap();
    assert!(!digest_matches(&bytes, &itself));
}

#[test]
fn corrupted_download_fails_and_names_the_artifact() {
    let task = FetchTask {
        url: "https://example.com/brigadier.jar".to_string(),
        sha1: "2aae6c35c94fcfb415dbe95f408b9ce91ee846ed".to_string(),
        destination: "/data/libraries/com/mojang/brigadier.jar".to_string(),
    };
    let good = verify_download(&task, b"hello world");
    assert!(good.is_ok());
    let bad = verify_download(&task, b"hello w0rld");
    match bad {
        Err(PipelineError::DigestMismatch { url, destination }) => {
            assert_eq!(url, "https://example.com/brigadier.jar");
            assert_eq!(destination, "/data/libraries/com/mojang/brigadier.jar");
        }
        Ok(()) => panic!("corrupted payload accepted"),
    }
}

#[test]
fn batch_verification_accepts_only_an_intact_batch() {
    let tasks = vec![
        FetchTask {
            url: "https://example.com/a".to_string(),
            sha1: "2aae6c35c94fcfb415dbe95f408b9ce91ee846ed".to_string(),
            destination: "/data/a".to_string(),
        },
        FetchTask {
            url: "https://example.com/b".to_string(),
            sha1: "da39a3ee5e6b4b0d3255bfef95601890afd80709".to_string(),
            destination: "/data/b".to_string(),
        },
    ];
    let ok = verify_downloads(&tasks, &vec![b"hello world".to_vec(), Vec::new()]);
    assert_eq!(ok.unwrap(), vec!["/data/a".to_string(), "/data/b".to_string()]);
    let bad = verify_downloads(&tasks, &vec![b"hello world".to_vec(), b"x".to_vec()]);
    match bad {
        Err(PipelineError::DigestMismatch { url, destination }) => {
            assert_eq!(url, "https://example.com/b");
            assert_eq!(destination, "/data/b");
        }
        Ok(_) => panic!("corrupted batch accepted"),
    }
}

#[test]
fn pipeline_outcome_is_classpath_or_failing_artifact() {
    let plan = InstallPlan {
        present: vec!["/present".to_string()],
        tasks: vec![
            FetchTask {
                url: "https://example.com/a".to_string(),
                sha1: "2aae6c35c94fcfb415dbe95f408b9ce91ee846ed".to_string(),
                destination: "/data/a".to_string(),
            },
            FetchTask {
                url: "https://example.com/b".to_string(),
                sha1: "da39a3ee5e6b4b0d3255bfef95601890afd80709".to_string(),
                destination: "/data/b".to_string(),
            },
        ],
    };
    let good = finish_install(&plan, &vec![b"hello world".to_vec(), Vec::new()], ":");
    assert_eq!(good.unwrap(), "/present:/data/a:/data/b");
    let bad = finish_install(&plan, &vec![b"hello world".to_vec(), b"x".to_vec()], ":");
    match bad {
        Err(PipelineError::DigestMismatch { url, destination }) => {
            assert_eq!(url, "https://example.com/b");
            assert_eq!(destination, "/data/b");
        }
        Ok(_) => panic!("a failing artifact still produced a classpath"),
    }
}

#[test]
fn error_description_names_url_and_destination() {
    let err = PipelineError::DigestMismatch {
        url: "https://example.com/a".to_string(),
        destination: "/data/a".to_string(),
    };
    assert_eq!(
        err.describe(),
        "failed integrity check: https://example.com/a -> /data/a"
    );
}

#[test]
fn classpath_joins_without_trailing_separator() {
    assert_eq!(join_paths(&Vec::new(), ":"), "");
    assert_eq!(join_paths(&vec!["/a".to_string()], ":"), "/a");
    assert_eq!(join_paths(&vec!["/a".to_string(), "/b".to_string()], ";"), "/a;/b");
    let classpath = assemble_classpath(
        &vec!["/present".to_string()],
        &vec!["/fetched1".to_string(), "/fetched2".to_string()],
        ":",
    );
    assert_eq!(classpath, "/present:/fetched1:/fetched2");
}
