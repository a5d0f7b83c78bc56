use zed_registry::crypto::sha256_hex;
use zed_registry::publish::{
    artifact_format, body_parts, ArtifactFormat, CommitOutcome, Publish, PublishAction, PublishMeta, PublishPhase,
};
use zed_registry::audit::AuditAction;
use zed_registry::rbac::Role;
use zed_registry::verify::TagCheck;

fn meta(org: &str, name: &str, version: &str, sha256: &str) -> PublishMeta {
    PublishMeta {
        org: org.to_string(),
        name: name.to_string(),
        version: version.to_string(),
        description: Some("ORIGINAL".to_string()),
        vcs: "git".to_string(),
        repo_url: "https://github.com/acme/http-kit".to_string(),
        version_scheme: "semver".to_string(),
        keywords: vec!["cli".to_string()],
        sha256: sha256.to_string(),
        vcs_tag: "v1.1.0".to_string(),
        vcs_commit: None,
        format: ArtifactFormat::TarGz,
    }
}

fn started(token_org: Option<u128>, role: Role) -> Publish {
    let (p, action) = Publish::start("acme".into(), "http-kit".into(), "1.1.0".into(), token_org, role);
    assert!(matches!(action, PublishAction::LookupOrg { ref slug } if slug == "acme"));
    p
}

fn finish_err(action: PublishAction) -> (u16, &'static str, String) {
    match action {
        PublishAction::Finish { outcome: Err(e), audit: None } => (e.status, e.code, e.message),
        _ => panic!("expected a rejection"),
    }
}

#[test]
fn missing_org_is_a_404_naming_the_claim_command() {
    let mut p = started(None, Role::Owner);
    let (status, code, message) = finish_err(p.on_org(None));
    assert_eq!((status, code), (404, "org_not_found"));
    assert_eq!(message, "org `acme` does not exist; claim it first with `zed org claim acme`");
    assert_eq!(p.phase, PublishPhase::Finished);
}

#[test]
fn a_reader_is_refused_before_the_body_is_read() {
    let mut p = started(Some(1), Role::Reader);
    let (status, code, _) = finish_err(p.on_org(Some(1)));
    assert_eq!((status, code), (403, "insufficient_role"));
    let mut q = started(Some(2), Role::Owner);
    assert_eq!(finish_err(q.on_org(Some(1))).1, "unauthorized");
}

#[test]
fn a_full_publish_stores_then_commits_then_audits() {
    let artifact = b"hi!".to_vec();
    let sha = sha256_hex(&artifact);
    let mut p = started(Some(1), Role::Publisher);
    assert!(matches!(p.on_org(Some(1)), PublishAction::ReadBody));
    match p.on_body(meta("acme", "http-kit", "1.1.0", &sha), artifact.clone(), None) {
        PublishAction::VerifyTag { vcs, repo_url, tag } => {
            assert_eq!(vcs, "git");
            assert_eq!(repo_url, "https://github.com/acme/http-kit");
            assert_eq!(tag, "v1.1.0");
        }
        _ => panic!("expected the tag check"),
    }
    assert!(matches!(p.on_tag(TagCheck::Skipped), PublishAction::LookupVersion { org_id: 1, .. }));
    match p.on_existing(false) {
        PublishAction::StoreBlob { key, bytes, content_type } => {
            assert_eq!(key, format!("artifacts/{sha}.tar.gz"));
            assert_eq!(bytes, artifact);
            assert_eq!(content_type, "application/gzip");
        }
        _ => panic!("expected the blob store"),
    }
    match p.on_stored() {
        PublishAction::Commit { org_id, meta, sha256, size, artifact_key } => {
            assert_eq!(org_id, 1);
            assert_eq!(meta.description.as_deref(), Some("ORIGINAL"));
            assert_eq!(sha256, sha);
            assert_eq!(size, 3);
            assert_eq!(artifact_key, format!("artifacts/{sha}.tar.gz"));
        }
        _ => panic!("expected the commit"),
    }
    match p.on_commit(CommitOutcome::Committed) {
        PublishAction::Finish { outcome: Ok(resp), audit: Some(entry) } => {
            assert_eq!(resp.sha256, sha);
            assert_eq!(resp.version, "1.1.0");
            assert_eq!(entry.action, AuditAction::Publish);
            assert_eq!(entry.subject, "acme/http-kit@1.1.0");
            assert_eq!(entry.detail, Some(format!("sha256={sha}")));
        }
        _ => panic!("expected success"),
    }
}

#[test]
fn duplicate_version_publish_preserves_description() {
    let artifact = b"hi!".to_vec();
    let sha = sha256_hex(&artifact);
    let mut p = started(None, Role::Owner);
    p.on_org(Some(1));
    p.on_body(meta("acme", "http-kit", "1.1.0", &sha), artifact, None);
    p.on_tag(TagCheck::Verified { commit: None });
    let (status, code, message) = finish_err(p.on_existing(true));
    assert_eq!((status, code), (409, "version_exists"));
    assert_eq!(message, "acme/http-kit@1.1.0 is already published; versions are immutable");
}

#[test]
fn body_checks() {
    let artifact = b"hi!".to_vec();
    let sha = sha256_hex(&artifact);

    let mut p = started(None, Role::Owner);
    p.on_org(Some(1));
    let (_, code, message) = finish_err(p.on_body(meta("acme", "http-kit", "9.9.9", &sha), artifact.clone(), None));
    assert_eq!(code, "manifest_url_mismatch");
    assert_eq!(message, "manifest says acme/http-kit@9.9.9, url says acme/http-kit@1.1.0");

    let mut p = started(None, Role::Owner);
    p.on_org(Some(1));
    let (_, code, message) = finish_err(p.on_body(meta("acme", "http-kit", "1.1.0", "deadbeef"), artifact.clone(), None));
    assert_eq!(code, "sha256_mismatch");
    assert_eq!(message, format!("client declared deadbeef, server computed {sha}"));

    let mut p = started(None, Role::Owner);
    p.on_org(Some(1));
    let (_, code, message) = finish_err(p.on_body(meta("acme", "http-kit", "1.1.0", &sha), artifact, Some("missing version".to_string())));
    assert_eq!(code, "invalid_manifest");
    assert_eq!(message, "missing version");
}

#[test]
fn a_missing_tag_is_refused() {
    let artifact = b"hi!".to_vec();
    let sha = sha256_hex(&artifact);
    let mut p = started(None, Role::Owner);
    p.on_org(Some(1));
    p.on_body(meta("acme", "http-kit", "1.1.0", &sha), artifact, None);
    let (_, code, message) = finish_err(p.on_tag(TagCheck::Missing));
    assert_eq!(code, "tag_not_found");
    assert_eq!(
        message,
        "tag `v1.1.0` not found on https://github.com/acme/http-kit; authors must tag the backing repo before publishing"
    );
}

#[test]
fn a_lost_race_on_commit_is_the_same_conflict() {
    let artifact = b"hi!".to_vec();
    let sha = sha256_hex(&artifact);
    let mut p = started(None, Role::Owner);
    p.on_org(Some(1));
    p.on_body(meta("acme", "http-kit", "1.1.0", &sha), artifact, None);
    p.on_tag(TagCheck::Skipped);
    p.on_existing(false);
    p.on_stored();
    assert_eq!(finish_err(p.on_commit(CommitOutcome::VersionTaken)).1, "version_exists");
}

#[test]
fn a_package_row_lost_after_upsert_is_reported() {
    let artifact = b"hi!".to_vec();
    let sha = sha256_hex(&artifact);
    let mut p = started(None, Role::Owner);
    p.on_org(Some(1));
    p.on_body(meta("acme", "http-kit", "1.1.0", &sha), artifact, None);
    p.on_tag(TagCheck::Skipped);
    p.on_existing(false);
    p.on_stored();
    let (status, code, message) = finish_err(p.on_commit(CommitOutcome::PackageRowMissing));
    assert_eq!((status, code), (500, "package_upsert_missing"));
    assert_eq!(message, "package row missing immediately after upsert");
}

#[test]
fn failures_end_the_publish() {
    let mut p = started(None, Role::Owner);
    let (status, _, message) = finish_err(p.on_failure(true));
    assert_eq!(status, 500);
    assert_eq!(message, "internal database error");
    assert_eq!(p.phase, PublishPhase::Finished);
}

#[test]
fn missing_body_fields() {
    assert_eq!(body_parts(None, Some(vec![1])).unwrap_err().message, "missing meta field");
    assert_eq!(body_parts(Some(meta("a", "b", "c", "d")), None).unwrap_err().code, "invalid_artifact");
    assert!(body_parts(Some(meta("a", "b", "c", "d")), Some(vec![1])).is_ok());
}

#[test]
fn stored_formats() {
    assert_eq!(artifact_format("zip"), ArtifactFormat::Zip);
    assert_eq!(artifact_format("tar.gz"), ArtifactFormat::TarGz);
    assert_eq!(artifact_format("rar"), ArtifactFormat::TarGz);
    assert_eq!(ArtifactFormat::Zip.extension(), "zip");
    assert_eq!(ArtifactFormat::Zip.content_type(), "application/zip");
}
