use zed_registry::catalog::{
    artifact_headers, artifact_serve_concurrency, default_limit, has_all_tags, latest_visible_version,
    list_limit, package_metadata, package_summary, parse_tag_filter, tagged_page, tags_of, version_metadata, visible_versions_desc,
    yank_outcome, AuditQuery, StoredTags, VersionRow,
};
use zed_registry::audit::AuditAction;
use zed_registry::embeddings::{check_model, neighbor_limit, semantic_fetch, valid_model};
use zed_registry::publish::ArtifactFormat;
use zed_registry::storage::{artifact_key, guard_buffered, MemoryStore, StoreError};
use zed_registry::versions::{sort_versions_desc, version_less};

fn version_row(identity: &str, yanked: bool, published_offset: i64) -> VersionRow {
    VersionRow {
        id: 1,
        package_id: 0,
        version: identity.to_string(),
        sha256: "a".repeat(64),
        size: 1,
        format: "tar.gz".to_string(),
        vcs_tag: format!("v{identity}"),
        vcs_commit: None,
        artifact_key: format!("artifacts/{identity}.tar.gz"),
        yanked,
        published_at: format!("2026-07-26T00:00:{published_offset:02}+00:00"),
    }
}

fn strings(values: &[&str]) -> Vec<String> {
    values.iter().map(|v| v.to_string()).collect()
}

#[test]
fn keys_are_sha_addressed() {
    assert_eq!(artifact_key("abc123", "tar.gz"), "artifacts/abc123.tar.gz");
}

#[test]
fn memory_store_roundtrips_without_disk() {
    let mut store = MemoryStore::new(64);
    let payload = b"zed-memory-artifact".to_vec();
    store.put("artifacts/test.tar.gz", payload.clone()).unwrap();
    assert_eq!(store.download("artifacts/test.tar.gz").unwrap(), payload);
    assert_eq!(store.get_bytes("artifacts/test.tar.gz").unwrap(), payload);
}

#[test]
fn memory_store_enforces_total_capacity_atomically() {
    let mut store = MemoryStore::new(4);
    store.put("artifacts/one", b"1234".to_vec()).unwrap();
    let error = store.put("artifacts/two", b"5".to_vec()).unwrap_err();
    assert!(error.message().contains("capacity exceeded"));
    assert_eq!(
        error.message(),
        "in-memory artifact store capacity exceeded: write would use 5 bytes, limit is 4 bytes"
    );
    assert_eq!(store.download("artifacts/one").unwrap(), b"1234".to_vec());
    assert!(matches!(store.download("artifacts/two"), Err(StoreError::NotFound { .. })));
}

#[test]
fn republishing_a_key_replaces_without_double_counting() {
    let mut store = MemoryStore::new(4);
    store.put("artifacts/one", b"1234".to_vec()).unwrap();
    store.put("artifacts/one", b"abcd".to_vec()).unwrap();
    assert_eq!(store.download("artifacts/one").unwrap(), b"abcd".to_vec());
    store.put("artifacts/one", b"z".to_vec()).unwrap();
    store.put("artifacts/two", b"xyz".to_vec()).unwrap();
    assert_eq!(store.download("artifacts/two").unwrap(), b"xyz".to_vec());
}

#[test]
fn missing_and_oversized_reads() {
    let store = MemoryStore::new(10);
    let err = store.get_bytes("artifacts/nope").unwrap_err();
    assert_eq!(err.message(), "in-memory artifact artifacts/nope not found");
    assert!(guard_buffered("k", 104857600).is_ok());
    let big = guard_buffered("k", 104857601).unwrap_err();
    assert_eq!(
        big.message(),
        "artifact k is 104857601 bytes, over the 104857600-byte in-memory ceiling; refusing to buffer it"
    );
}

#[test]
fn latest_visible_version_is_ordered_and_yank_safe() {
    let mut rows = vec![
        version_row("2.0.0", false, 0),
        version_row("1.9.0", false, 10),
        version_row("3.0.0", true, 5),
    ];

    assert_eq!(latest_visible_version(&rows).as_deref(), Some("2.0.0"));
    assert_eq!(visible_versions_desc(&rows), ["2.0.0", "1.9.0"]);

    rows[2].yanked = false;
    assert_eq!(latest_visible_version(&rows).as_deref(), Some("3.0.0"));

    for row in &mut rows {
        row.yanked = true;
    }
    assert_eq!(latest_visible_version(&rows), None);
}

#[test]
fn versions_compare_numerically_per_part() {
    assert!(version_less("1.9.0", "1.10.0"));
    assert!(version_less("1.2", "1.2.0"));
    assert!(version_less("2024.1.5", "2024.10.1"));
    assert!(version_less("1.0.0", "1.0.rc1"));
    assert!(!version_less("1.10.0", "1.9.0"));
    assert!(!version_less("1.0.0", "1.0.0"));
    assert_eq!(
        sort_versions_desc(strings(&["0.1.0", "10.0.0", "2.0.0", "2.0.0-beta", "1.0"])),
        ["10.0.0", "2.0.0-beta", "2.0.0", "1.0", "0.1.0"]
    );
}

#[test]
fn tags_and_filters() {
    let tags = tags_of(&StoredTags::Array(vec![Some("cli".to_string()), None, Some("rust".to_string())]));
    assert_eq!(tags, ["cli", "rust"]);
    assert!(tags_of(&StoredTags::NotArray).is_empty());
    let want = parse_tag_filter(&Some(" cli , rust,, ".to_string()));
    assert_eq!(want, ["cli", "rust"]);
    assert!(parse_tag_filter(&None).is_empty());
    assert!(has_all_tags(&tags, &want));
    assert!(!has_all_tags(&strings(&["web"]), &want));
    assert!(has_all_tags(&strings(&["web"]), &[]));
}

#[test]
fn tag_filtered_pages() {
    let packages = vec![strings(&["cli", "rust"]), strings(&["web"]), strings(&["rust", "cli", "x"]), strings(&["cli"])];
    let want = strings(&["cli", "rust"]);
    assert_eq!(tagged_page(&packages, &want, 0, 50), (2, vec![0, 2]));
    assert_eq!(tagged_page(&packages, &want, 1, 50), (2, vec![2]));
    assert_eq!(tagged_page(&packages, &want, 5, 50), (2, vec![]));
    assert_eq!(tagged_page(&packages, &want, 0, 1), (2, vec![0]));
    assert_eq!(default_limit(), 50);
    assert_eq!(list_limit(0), 1);
    assert_eq!(list_limit(1000), 200);
}

#[test]
fn audit_query_limits_and_action_filter() {
    let q = AuditQuery { limit: None, action: Some("yankk".to_string()), before: None };
    let err = q.check_action().unwrap_err();
    assert_eq!(err.code, "invalid_action");
    assert_eq!(err.message, "unknown action `yankk`; expected publish, yank, unyank, or org_claim");
    assert_eq!(q.page_limit(), 100);
    let ok = AuditQuery { limit: Some(5000), action: Some("yank".to_string()), before: Some(10) };
    assert!(ok.check_action().is_ok());
    assert_eq!(ok.page_limit(), 1000);
    assert_eq!(AuditQuery { limit: Some(0), action: None, before: None }.page_limit(), 1);
}

#[test]
fn version_metadata_points_at_the_artifact() {
    let mut row = version_row("1.2.0", false, 0);
    row.format = "zip".to_string();
    let m = version_metadata("https://zed.example", "acme", "kit", &row);
    assert_eq!(m.download_url, format!("https://zed.example/v1/artifacts/{}", "a".repeat(64)));
    assert_eq!(m.format, ArtifactFormat::Zip);
    assert_eq!(m.size, 1);
    assert_eq!(m.version, "1.2.0");
}

#[test]
fn a_yanked_version_stays_downloadable_but_hidden() {
    let rows = vec![version_row("1.0.0", false, 0), version_row("2.0.0", true, 1)];
    let m = version_metadata("https://zed.example", "acme", "kit", &rows[1]);
    assert!(m.yanked);
    assert_eq!(m.download_url, format!("https://zed.example/v1/artifacts/{}", "a".repeat(64)));
    assert_eq!(visible_versions_desc(&rows), ["1.0.0"]);
    assert_eq!(latest_visible_version(&rows).as_deref(), Some("1.0.0"));
}

#[test]
fn yank_records_the_direction() {
    let (resp, entry) = yank_outcome(7, "acme", "http-kit", "1.0.0", true);
    assert!(resp.yanked);
    assert_eq!(entry.action, AuditAction::Yank);
    assert_eq!(entry.subject, "acme/http-kit@1.0.0");
    let (_, restore) = yank_outcome(7, "acme", "http-kit", "1.0.0", false);
    assert_eq!(restore.action, AuditAction::Unyank);
}

#[test]
fn artifact_downloads_are_cached_forever() {
    let h = artifact_headers(ArtifactFormat::TarGz, 1234);
    assert_eq!(h[0], ("content-type", "application/gzip".to_string()));
    assert_eq!(h[1].1, "public, max-age=31536000, immutable");
    assert_eq!(h[2], ("content-length", "1234".to_string()));
    assert_eq!(artifact_serve_concurrency(268435456, 104857600), 2);
    assert_eq!(artifact_serve_concurrency(10, 0), 10);
    assert_eq!(artifact_serve_concurrency(1, 104857600), 1);
    assert_eq!(artifact_serve_concurrency(u64::MAX, 1), 512);
}

#[test]
fn model_name_validation() {
    assert!(valid_model("openai/text-embedding-3-small"));
    assert!(valid_model("bge-small-en-v1.5"));
    assert!(!valid_model(""));
    assert!(!valid_model("bad name with spaces"));
    assert!(!valid_model(&"x".repeat(121)));
}

#[test]
fn embedding_limits() {
    assert!(valid_model(&"x".repeat(120)));
    assert_eq!(check_model("a b").unwrap_err(), "invalid embedding model name `a b`");
    assert_eq!(neighbor_limit(0), 1);
    assert_eq!(neighbor_limit(500), 100);
    assert_eq!(semantic_fetch(10, false), (10, 10));
    assert_eq!(semantic_fetch(10, true), (10, 40));
    assert_eq!(semantic_fetch(50, true), (50, 100));
}

#[test]
fn latest_does_not_depend_on_publication_order() {
    let a = vec![version_row("1.0.0", false, 0), version_row("1.10.0", false, 0), version_row("1.9.0", false, 0)];
    let b = vec![version_row("1.9.0", false, 30), version_row("1.0.0", false, 20), version_row("1.10.0", false, 10)];
    assert_eq!(latest_visible_version(&a), latest_visible_version(&b));
    assert_eq!(latest_visible_version(&a).as_deref(), Some("1.10.0"));
}

#[test]
fn package_metadata_lists_visible_versions_highest_first() {
    let rows = vec![version_row("1.0.0", false, 0), version_row("2.0.0", true, 0), version_row("1.1.0", false, 0)];
    let tags = StoredTags::Array(vec![Some("cli".to_string())]);
    let m = package_metadata("acme", "kit", &None, "git", "https://github.com/acme/kit", "semver", &tags, &rows);
    assert_eq!(m.versions, ["1.1.0", "1.0.0"]);
    assert_eq!(m.latest.as_deref(), Some("1.1.0"));
    assert_eq!(m.tags, ["cli"]);
    let s = package_summary("acme", "kit", &Some("d".to_string()), &StoredTags::NotArray, &rows);
    assert_eq!(s.latest.as_deref(), Some("1.1.0"));
    assert!(s.tags.is_empty());
    assert_eq!(s.description.as_deref(), Some("d"));
}
