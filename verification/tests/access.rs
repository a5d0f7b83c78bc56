use zed_registry::auth::{authenticate, bearer_token, hash_token, insecure_operator_token, Token};
use zed_registry::orgs::{check_org_quota, check_slug, finish_claim, is_slug, resolve_existing, InsertOutcome};
use zed_registry::audit::AuditAction;
use zed_registry::rbac::{authorize_manage, authorize_publish, Role};

fn token(revoked_at: Option<i64>, expires_at: Option<i64>) -> Token {
    Token {
        id: 3,
        name: "ci".to_string(),
        token_hash: hash_token("zpkg_ci"),
        org_id: Some(1),
        role: "publisher".to_string(),
        created_at: 0,
        expires_at,
        revoked_at,
    }
}

#[test]
fn role_capabilities() {
    assert!(Role::Owner.can_publish() && Role::Owner.can_manage());
    assert!(Role::Publisher.can_publish() && !Role::Publisher.can_manage());
    assert!(!Role::Reader.can_publish() && !Role::Reader.can_manage());
    assert_eq!(Role::parse("publisher"), Role::Publisher);
    assert_eq!(Role::parse("nonsense"), Role::Reader);
}

#[test]
fn manage_authorization_is_owner_only() {
    let org = 1u128;
    let other = 2u128;
    assert!(authorize_manage(None, Role::Reader, org).is_ok());
    assert!(authorize_manage(Some(org), Role::Owner, org).is_ok());
    assert_eq!(authorize_manage(Some(org), Role::Publisher, org).unwrap_err().code, "insufficient_role");
    assert_eq!(authorize_manage(Some(org), Role::Reader, org).unwrap_err().code, "insufficient_role");
    assert_eq!(authorize_manage(Some(other), Role::Owner, org).unwrap_err().code, "unauthorized");
}

#[test]
fn publish_authorization() {
    let org = 1u128;
    let other = 2u128;
    assert!(authorize_publish(None, Role::Reader, org).is_ok());
    assert!(authorize_publish(Some(org), Role::Publisher, org).is_ok());
    assert!(authorize_publish(Some(org), Role::Owner, org).is_ok());
    let denied = authorize_publish(Some(org), Role::Reader, org).unwrap_err();
    assert_eq!(denied.code, "insufficient_role");
    assert_eq!(denied.status, 403);
    assert_eq!(
        denied.message,
        "this token's role (`reader`) cannot publish; a `publisher` or `owner` token is required"
    );
    let wrong = authorize_publish(Some(other), Role::Owner, org).unwrap_err();
    assert_eq!(wrong.code, "unauthorized");
    assert_eq!(wrong.status, 401);
}

#[test]
fn role_names_round_trip() {
    for role in [Role::Owner, Role::Publisher, Role::Reader] {
        assert_eq!(Role::parse(role.as_str()), role);
        assert!(Role::is_valid(role.as_str()));
    }
    assert!(!Role::is_valid("admin"));
}

#[test]
fn hashing_is_stable_and_hex() {
    let h = hash_token("zpkg_example");
    assert_eq!(h.len(), 64);
    assert_eq!(h, hash_token("zpkg_example"));
    assert_ne!(h, hash_token("zpkg_other"));
}

#[test]
fn token_hash_is_the_sha256_of_the_plaintext() {
    assert_eq!(
        hash_token("abc"),
        "ba7816bf8f01cfea414140de5dae2223b00361a396177a9cb410ff61f20015ad"
    );
}

#[test]
fn bearer_extraction() {
    assert!(bearer_token(None).is_none());
    assert_eq!(bearer_token(Some("Bearer zpkg_abc")).as_deref(), Some("zpkg_abc"));
    assert_eq!(bearer_token(Some("Bearer   zpkg_abc  ")).as_deref(), Some("zpkg_abc"));
    assert!(bearer_token(Some("Basic dXNlcg==")).is_none());
}

#[test]
fn live_revoked_and_expired_tokens() {
    let now = 1_000_000;
    assert!(authenticate(Some(token(None, None)), now).is_ok());
    assert!(authenticate(Some(token(None, Some(now + 86_400_000_000))), now).is_ok());
    let revoked = authenticate(Some(token(Some(5), None)), now).unwrap_err();
    assert_eq!(revoked.code, "unauthorized");
    let expired = authenticate(Some(token(None, Some(now))), now).unwrap_err();
    assert_eq!(expired.message, "missing or invalid bearer token");
    let both = authenticate(Some(token(Some(5), Some(now + 30))), now).unwrap_err();
    assert_eq!(both.status, 401);
    assert_eq!(authenticate(None, now).unwrap_err().code, "unauthorized");
}

#[test]
fn operator_token_is_an_admin_token() {
    let t = insecure_operator_token(17);
    assert_eq!(t.id, 1);
    assert_eq!(t.name, "auth-disabled-operator");
    assert_eq!(t.token_hash, hash_token("zed-auth-disabled-operator"));
    assert_eq!(t.org_id, None);
    assert_eq!(t.role, "admin");
    assert_eq!(t.created_at, 17);
}

#[test]
fn slugs_are_lowercase_letters_digits_and_hyphens() {
    assert!(is_slug("acme"));
    assert!(is_slug("org-42"));
    assert!(!is_slug(""));
    assert!(!is_slug("Acme"));
    assert!(!is_slug("ac me"));
    let err = check_slug("ACME").unwrap_err();
    assert_eq!(err.code, "invalid_slug");
    assert_eq!(err.message, "org slugs are lowercase letters, digits, and hyphens");
}

#[test]
fn claiming_a_taken_org_conflicts() {
    let err = resolve_existing("acme", Some(2), Some(1)).unwrap_err();
    assert_eq!(err.status, 409);
    assert_eq!(err.code, "org_taken");
    assert_eq!(err.message, "org `acme` is already claimed");
    let admin = resolve_existing("acme", None, Some(1)).unwrap_err();
    assert_eq!(admin.code, "org_taken");
}

#[test]
fn reclaiming_your_own_org_is_not_a_new_claim() {
    let resp = resolve_existing("acme", Some(1), Some(1)).unwrap().unwrap();
    assert_eq!(resp.slug, "acme");
    assert!(!resp.created);
    assert!(resolve_existing("acme", Some(1), None).unwrap().is_none());
}

#[test]
fn org_quota_is_enforced() {
    assert!(check_org_quota(Some(1), 4, 5).is_ok());
    let err = check_org_quota(Some(1), 5, 5).unwrap_err();
    assert_eq!(err.status, 403);
    assert_eq!(err.code, "org_quota_exceeded");
    assert_eq!(
        err.message,
        "this token has already claimed 5 orgs (limit 5); contact the registry operator"
    );
    assert!(check_org_quota(None, 500, 5).is_ok());
}

#[test]
fn claiming_a_free_org_succeeds() {
    let (resp, entry) = finish_claim("acme", 42, InsertOutcome::Inserted);
    let resp = resp.unwrap();
    assert_eq!(resp.slug, "acme");
    assert!(resp.created);
    let entry = entry.unwrap();
    assert_eq!(entry.org_id, 42);
    assert_eq!(entry.action, AuditAction::OrgClaim);
    assert_eq!(entry.subject, "acme");
    assert_eq!(entry.detail, None);
    let (taken, none) = finish_claim("acme", 42, InsertOutcome::SlugTaken);
    assert_eq!(taken.unwrap_err().code, "org_taken");
    assert!(none.is_none());
    let (failed, none) = finish_claim("acme", 42, InsertOutcome::Failed);
    assert_eq!(failed.unwrap_err().status, 500);
    assert!(none.is_none());
}
