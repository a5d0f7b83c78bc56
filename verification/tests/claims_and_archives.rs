use std::io::Write;

use zed_registry::audit::{chain_timestamp_at, AuditAction};
use zed_registry::auth::hash_token;
use zed_registry::files::{extract_zip_file, ExtractError, MAX_SERVED_FILE_BYTES};
use zed_registry::orgs::{ClaimAction, ClaimPhase, InsertOutcome, OrgClaim};
use zed_registry::tokens::{created_token_row, parse_create_token_args};

fn zip_of(files: &[(&str, &[u8])]) -> Vec<u8> {
    let mut writer = zip::ZipWriter::new(std::io::Cursor::new(Vec::new()));
    let options = zip::write::SimpleFileOptions::default().compression_method(zip::CompressionMethod::Stored);
    for (name, bytes) in files {
        writer.start_file(*name, options).unwrap();
        writer.write_all(bytes).unwrap();
    }
    writer.finish().unwrap().into_inner()
}

#[test]
fn a_zip_entry_is_found_under_pkg() {
    let archive = zip_of(&[("pkg/dist/style.css", b"body{}"), ("pkg/README.md", b"hi")]);
    assert_eq!(extract_zip_file(&archive, "dist/style.css").unwrap(), Some(b"body{}".to_vec()));
    assert_eq!(extract_zip_file(&archive, "README.md").unwrap(), Some(b"hi".to_vec()));
    assert_eq!(extract_zip_file(&archive, "missing.js").unwrap(), None);
}

#[test]
fn an_oversized_zip_entry_is_refused() {
    let big = vec![b'x'; (MAX_SERVED_FILE_BYTES + 1) as usize];
    let archive = zip_of(&[("pkg/big.bin", &big)]);
    assert!(matches!(extract_zip_file(&archive, "big.bin"), Err(ExtractError::TooLarge)));
}

#[test]
fn bytes_that_are_not_a_zip_are_an_archive_error() {
    match extract_zip_file(b"not a zip at all", "a.txt") {
        Err(ExtractError::Archive(message)) => assert!(!message.is_empty()),
        other => panic!("expected an archive error, got {other:?}"),
    }
}

#[test]
fn chain_timestamps_are_cut_to_microseconds() {
    assert_eq!(chain_timestamp_at(None), None);
    assert_eq!(chain_timestamp_at(Some((0, 0))).as_deref(), Some("1970-01-01T00:00:00+00:00"));
    assert_eq!(chain_timestamp_at(Some((0, 1_999))).as_deref(), Some("1970-01-01T00:00:00.000001+00:00"));
    assert_eq!(
        chain_timestamp_at(Some((1_700_000_000, 123_456_789))).as_deref(),
        Some("2023-11-14T22:13:20.123456+00:00")
    );
    assert_eq!(chain_timestamp_at(Some((u64::MAX, 0))), None);
}

/// Drive one claim against an in-memory org table of (id, slug, created_by).
fn claim(table: &mut Vec<(u128, String, u128)>, slug: &str, token_id: u128, token_org: Option<u128>, limit: u64) -> ClaimAction {
    let (mut c, mut action) = OrgClaim::start(slug.to_string(), token_id, token_org, limit);
    loop {
        action = match action {
            ClaimAction::LookupOrg { slug } => {
                c.on_existing(table.iter().find(|(_, s, _)| *s == slug).map(|(id, _, _)| *id))
            }
            ClaimAction::CountClaims { token_id } => {
                c.on_count(table.iter().filter(|(_, _, by)| *by == token_id).count() as u64)
            }
            ClaimAction::InsertOrg { slug, created_by } => {
                let id = 1000 + table.len() as u128;
                if table.iter().any(|(_, s, _)| *s == slug) {
                    c.on_insert(id, InsertOutcome::SlugTaken)
                } else {
                    table.push((id, slug, created_by));
                    c.on_insert(id, InsertOutcome::Inserted)
                }
            }
            finish @ ClaimAction::Finish { .. } => {
                assert_eq!(c.phase, ClaimPhase::Finished);
                return finish;
            }
        };
    }
}

#[test]
fn the_claim_after_the_quota_writes_no_row() {
    let mut table = Vec::new();
    for i in 0..5 {
        match claim(&mut table, &format!("org-{i}"), 7, Some(1), 5) {
            ClaimAction::Finish { outcome: Ok(resp), audit: Some(entry) } => {
                assert!(resp.created);
                assert_eq!(entry.action, AuditAction::OrgClaim);
            }
            other => panic!("claims under the quota succeed: {other:?}"),
        }
    }
    match claim(&mut table, "one-too-many", 7, Some(1), 5) {
        ClaimAction::Finish { outcome: Err(e), audit: None } => {
            assert_eq!(e.status, 403);
            assert_eq!(e.code, "org_quota_exceeded");
        }
        other => panic!("the claim over the quota must fail: {other:?}"),
    }
    assert_eq!(table.len(), 5, "no org row is created past the quota");
}

#[test]
fn an_owned_org_is_answered_before_the_quota() {
    let mut table = vec![(1, "acme".to_string(), 99)];
    for i in 0..3 {
        table.push((10 + i, format!("x{i}"), 7));
    }
    match claim(&mut table, "acme", 7, Some(1), 3) {
        ClaimAction::Finish { outcome: Ok(resp), audit: None } => assert!(!resp.created),
        other => panic!("the token's own org is not newly created: {other:?}"),
    }
    match claim(&mut table, "Bad Slug", 7, None, 3) {
        ClaimAction::Finish { outcome: Err(e), .. } => assert_eq!(e.code, "invalid_slug"),
        other => panic!("{other:?}"),
    }
    match claim(&mut table, "acme", 8, Some(2), 3) {
        ClaimAction::Finish { outcome: Err(e), .. } => assert_eq!(e.code, "org_taken"),
        other => panic!("{other:?}"),
    }
    match claim(&mut table, "fresh", 8, None, 0) {
        ClaimAction::Finish { outcome: Ok(resp), audit: Some(_) } => assert!(resp.created),
        other => panic!("admin tokens are not limited: {other:?}"),
    }
    assert_eq!(table.len(), 5);
}

fn args(values: &[&str]) -> Vec<String> {
    values.iter().map(|v| v.to_string()).collect()
}

#[test]
fn a_created_token_row_hashes_the_printed_plaintext() {
    let a = parse_create_token_args(&args(&["--name", "ci", "--org", "acme", "--role", "publisher", "--expires-in-days", "2"])).unwrap();
    let t = created_token_row(&a, 5, Some(42), "zpkg_secret", 1_000);
    assert_eq!(t.id, 5);
    assert_eq!(t.name, "ci");
    assert_eq!(t.token_hash, hash_token("zpkg_secret"));
    assert_eq!(t.org_id, Some(42));
    assert_eq!(t.role, "publisher");
    assert_eq!(t.created_at, 1_000);
    assert_eq!(t.expires_at, Some(1_000 + 2 * 86_400));
    assert_eq!(t.revoked_at, None);
    let admin = parse_create_token_args(&args(&["--name", "ops"])).unwrap();
    let t = created_token_row(&admin, 6, None, "zpkg_other", 7);
    assert_eq!((t.org_id, t.role.as_str(), t.expires_at), (None, "owner", None));
}

