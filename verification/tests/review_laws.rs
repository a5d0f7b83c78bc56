use zed_registry::air::{build_report, diagnose, CliState, ManifestIdentity, Observation};
use zed_registry::audit::{expected_hash, next_row, verify_chain, AuditAction, AuditRow, ChainProblem};
use zed_registry::auth::Token;
use zed_registry::manifest::{manifest_identity, parse_toml, read_lock, read_manifest, TomlNode};
use zed_registry::metrics::AppMetrics;
use zed_registry::tokens::{filter_of, revoke_filter, revoke_tokens, RevokeFilter, RevokeTokenArgs};

const MANIFEST: &str = r#"
[package]
org = "acme"
name = "http-kit"
version = "1.2.0"

[dependencies]
"acme/json" = "^1.0"
"acme/log" = { version = "^2", optional = true }
"#;

#[test]
fn a_manifest_gives_its_identity_and_dependency_count() {
    let m = read_manifest(MANIFEST).unwrap();
    assert_eq!(m.org.as_deref(), Some("acme"));
    assert_eq!(m.name.as_deref(), Some("http-kit"));
    assert_eq!(m.version.as_deref(), Some("1.2.0"));
    assert_eq!(m.direct_dependency_count, 2);
}

#[test]
fn missing_or_non_string_identity_fields_are_absent() {
    let m = read_manifest("[package]\norg = \"acme\"\nversion = 3\n").unwrap();
    assert_eq!(m.org.as_deref(), Some("acme"));
    assert_eq!(m.name, None);
    assert_eq!(m.version, None);
    assert_eq!(m.direct_dependency_count, 0);
    let m = read_manifest("dependencies = \"none\"\n").unwrap();
    assert_eq!(m.org, None);
    assert_eq!(m.direct_dependency_count, 0);
}

#[test]
fn invalid_toml_is_reported_with_the_parser_message() {
    let err = read_manifest("[package\norg = ").unwrap_err();
    assert!(!err.is_empty());
    assert!(read_lock("not = = toml").is_err());
    assert!(read_lock("version = 1\n[[package]]\nname = \"a\"\n").is_ok());
}

#[test]
fn the_parsed_document_keeps_strings_tables_and_other_values() {
    match parse_toml("b = 1\na = \"x\"\n[t]\nk = \"v\"\n").unwrap() {
        TomlNode::Table(entries) => {
            let keys: Vec<&str> = entries.iter().map(|(k, _)| k.as_str()).collect();
            assert_eq!(keys, vec!["a", "b", "t"]);
            assert!(matches!(&entries[0].1, TomlNode::Text(s) if s == "x"));
            assert!(matches!(&entries[1].1, TomlNode::Other));
            assert!(matches!(&entries[2].1, TomlNode::Table(inner) if inner.len() == 1));
        }
        _ => panic!("a document is a table"),
    }
}

#[test]
fn manifest_identity_reads_a_hand_built_document() {
    let doc = TomlNode::Table(vec![
        ("package".to_string(), TomlNode::Table(vec![("org".to_string(), TomlNode::Text("zed".to_string()))])),
        ("dependencies".to_string(), TomlNode::Table(vec![
            ("a".to_string(), TomlNode::Other),
            ("b".to_string(), TomlNode::Other),
            ("c".to_string(), TomlNode::Other),
        ])),
    ]);
    let m = manifest_identity(&doc);
    assert_eq!(m.org.as_deref(), Some("zed"));
    assert_eq!(m.name, None);
    assert_eq!(m.direct_dependency_count, 3);
}

fn observation(manifest: Result<ManifestIdentity, String>, lock: bool, modules: bool) -> Observation {
    Observation {
        manifest_path: Some("/w/.zpkg.toml".to_string()),
        manifest,
        lock_path: if lock { Some("/w/.zpkg.lock".to_string()) } else { None },
        lock: Ok(()),
        modules_path: if modules { Some("/w/zed_modules".to_string()) } else { None },
        manifest_newer: true,
    }
}

#[test]
fn no_diagnostic_code_occurs_twice() {
    let identity = ManifestIdentity { org: None, name: None, version: None, direct_dependency_count: 0 };
    let (_, ds) = diagnose(false, &observation(Ok(identity), true, false));
    let codes: Vec<&str> = ds.iter().map(|d| d.code).collect();
    assert_eq!(codes, vec!["ZED001", "ZED007", "ZED008", "ZED009"]);
    let identity = ManifestIdentity {
        org: Some("a".to_string()),
        name: Some("b".to_string()),
        version: Some("1.0.0".to_string()),
        direct_dependency_count: 0,
    };
    let mut o = observation(Ok(identity), true, true);
    o.manifest_newer = false;
    let (_, ds) = diagnose(true, &o);
    let codes: Vec<&str> = ds.iter().map(|d| d.code).collect();
    assert_eq!(codes, vec!["ZED000"]);
}

#[test]
fn the_report_keeps_the_cli_state_it_was_given() {
    let cli = CliState { available: true, version: Some("zed 0.4.1".to_string()), error: None };
    let report = build_report("/w".to_string(), cli, &observation(Err("bad".to_string()), false, false));
    assert!(report.cli.available);
    assert_eq!(report.cli.version.as_deref(), Some("zed 0.4.1"));
    assert_eq!(report.cli.error, None);
    let cli = CliState { available: false, version: None, error: Some("not found".to_string()) };
    let report = build_report("/w".to_string(), cli, &observation(Err("bad".to_string()), false, false));
    assert_eq!(report.cli.error.as_deref(), Some("not found"));
}

fn token(id: u128, name: &str, revoked_at: Option<i64>) -> Token {
    Token {
        id,
        name: name.to_string(),
        token_hash: "h".to_string(),
        org_id: Some(1),
        role: "publisher".to_string(),
        created_at: 0,
        expires_at: None,
        revoked_at,
    }
}

#[test]
fn an_id_that_is_not_a_uuid_is_refused() {
    let err = revoke_filter(RevokeTokenArgs { name: None, id: Some("abc".to_string()) }).unwrap_err();
    assert_eq!(err, "--id must be a UUID");
    let f = revoke_filter(RevokeTokenArgs {
        name: Some("ci".to_string()),
        id: Some("00000000-0000-0000-0000-00000000002a".to_string()),
    })
    .unwrap();
    assert_eq!(f.id, Some(42));
    assert_eq!(f.name.as_deref(), Some("ci"));
    let f = revoke_filter(RevokeTokenArgs { name: None, id: Some("0000000000000000000000000000002A".to_string()) }).unwrap();
    assert_eq!(f.id, Some(42));
}

#[test]
fn revoking_marks_live_matches_and_keeps_earlier_times() {
    let mut table = vec![token(1, "ci", None), token(2, "ci", Some(5)), token(3, "deploy", None)];
    let filter = RevokeFilter { name: Some("ci".to_string()), id: None };
    assert_eq!(revoke_tokens(&mut table, &filter, 100), Ok(1));
    assert_eq!(table[0].revoked_at, Some(100));
    assert_eq!(table[1].revoked_at, Some(5));
    assert_eq!(table[2].revoked_at, None);
    // Idempotent: a second revocation changes nothing and revokes none.
    assert_eq!(revoke_tokens(&mut table, &filter, 200), Ok(0));
    assert_eq!(table[0].revoked_at, Some(100));
    assert_eq!(table[1].revoked_at, Some(5));
    assert_eq!(table[2].revoked_at, None);
}

#[test]
fn revoking_with_no_match_fails_and_changes_nothing() {
    let mut table = vec![token(1, "ci", None)];
    let filter = RevokeFilter { name: Some("ci".to_string()), id: Some(9) };
    assert_eq!(revoke_tokens(&mut table, &filter, 100), Err("no token matched".to_string()));
    assert_eq!(table[0].revoked_at, None);
}

fn legacy(id: u128) -> AuditRow {
    AuditRow {
        id,
        org_id: 7,
        at: "2025-01-01T00:00:00+00:00".to_string(),
        action: "publish".to_string(),
        subject: "acme/old@0.1.0".to_string(),
        actor_token_id: None,
        actor_token_name: "ci".to_string(),
        actor_role: "publisher".to_string(),
        detail: None,
        seq: 0,
        entry_hash: String::new(),
        prev_hash: None,
    }
}

#[test]
fn appending_after_legacy_rows_starts_an_intact_chain() {
    let t = token(77, "ci", None);
    let mut rows = vec![legacy(1), legacy(2)];
    assert!(verify_chain(&rows).intact);
    let first = next_row(10, 7, "2026-01-01T00:00:00+00:00".to_string(), AuditAction::Publish,
        "acme/a@1.0.0".to_string(), &t, None, rows.last());
    assert_eq!(first.seq, 1);
    assert_eq!(first.prev_hash, None);
    rows.push(first);
    let report = verify_chain(&rows);
    assert!(report.intact, "{report:?}");
    assert_eq!(report.entries_checked, 1);
    assert_eq!(report.head_hash.as_deref(), Some(rows[2].entry_hash.as_str()));
    let second = next_row(11, 7, "2026-01-02T00:00:00+00:00".to_string(), AuditAction::Yank,
        "acme/a@1.0.0".to_string(), &t, Some("why".to_string()), rows.last());
    assert_eq!(second.prev_hash.as_deref(), Some(rows[2].entry_hash.as_str()));
    rows.push(second);
    let report = verify_chain(&rows);
    assert!(report.intact, "{report:?}");
    assert_eq!(report.entries_checked, 2);
    assert_eq!(report.head_hash.as_deref(), Some(rows[3].entry_hash.as_str()));
}

#[test]
fn a_chained_row_at_the_last_position_is_followed_by_a_gap() {
    let t = token(77, "ci", None);
    let mut a = next_row(1, 7, "2026-01-01T00:00:00+00:00".to_string(), AuditAction::Publish,
        "acme/a@1.0.0".to_string(), &t, None, None);
    a.seq = i64::MAX;
    a.entry_hash = expected_hash(&a, "");
    let mut b = next_row(2, 7, "2026-01-01T00:00:00+00:00".to_string(), AuditAction::Publish,
        "acme/a@1.0.1".to_string(), &t, None, None);
    b.seq = 3;
    b.prev_hash = Some(a.entry_hash.clone());
    b.entry_hash = expected_hash(&b, &a.entry_hash);
    let rows = vec![a, b];
    let report = verify_chain(&rows);
    assert!(!report.intact);
    assert_eq!(report.entries_checked, 1);
    assert_eq!(report.problem, Some(ChainProblem::SequenceGap));
    assert_eq!(report.first_bad_seq, Some(i64::MIN));
    assert_eq!(report.head_hash.as_deref(), Some(rows[0].entry_hash.as_str()));
}

#[test]
fn snapshot_routes_come_out_in_ascending_order() {
    let mut m = AppMetrics::new();
    m.observe("/v1/packages", 200, 3);
    m.observe("/metrics", 200, 1);
    m.observe("/v1/orgs", 500, 40);
    m.observe("/metrics", 200, 2);
    let snap = m.snapshot(None);
    let routes: Vec<&str> = snap.routes().iter().map(|(r, _)| r.as_str()).collect();
    assert_eq!(routes, vec!["/metrics", "/v1/orgs", "/v1/packages"]);
    assert_eq!(snap.routes()[0].1.requests_total, 2);
    assert_eq!(snap.routes()[1].1.errors_total, 1);
}

#[test]
fn a_filter_needs_a_parsed_uuid_when_an_id_was_given() {
    assert_eq!(filter_of(None, Some(None)).unwrap_err(), "--id must be a UUID");
    let f = filter_of(Some("ci".to_string()), Some(Some(7))).unwrap();
    assert_eq!((f.name.as_deref(), f.id), (Some("ci"), Some(7)));
    let f = filter_of(Some("ci".to_string()), None).unwrap();
    assert_eq!(f.id, None);
}

#[test]
fn explanations_ignore_case_and_differ() {
    let upper = zed_registry::air::explain_code("ZED003");
    assert_eq!(zed_registry::air::explain_code("zed003"), upper);
    assert_eq!(zed_registry::air::explain_code("Zed003"), upper);
    assert_ne!(upper, zed_registry::air::explain_code("ZED004"));
    assert_eq!(
        zed_registry::air::explain_code("zed010"),
        "Unknown diagnostic code `zed010`. Run zed_project_status to obtain current supported codes."
    );
}

#[test]
fn a_prefix_of_an_intact_log_with_legacy_rows_verifies() {
    let t = token(77, "ci", None);
    let mut rows = vec![legacy(1)];
    for k in 0..3 {
        let row = next_row(10 + k, 7, "2026-01-01T00:00:00+00:00".to_string(), AuditAction::Publish,
            format!("acme/a@1.0.{k}"), &t, None, rows.last());
        rows.push(row);
    }
    let whole = verify_chain(&rows);
    assert!(whole.intact);
    let prefix = verify_chain(&rows[..3]);
    assert!(prefix.intact);
    assert_eq!(prefix.entries_checked, 2);
    assert_eq!(prefix.head_hash.as_deref(), Some(rows[2].entry_hash.as_str()));
    assert_ne!(prefix.head_hash, whole.head_hash);
}
