use zed_registry::tokens::{
    created_message, parse_create_token_args, parse_revoke_token_args, revoke_tokens, revoked_message,
    token_plaintext, RevokeFilter,
};
use zed_registry::auth::Token;
use zed_registry::verify::{encode_path_segment, parse_github, tag_check, tag_lookup_url, valid_repo_segment, TagCheck};
use zed_registry::config::TagPolicy;

fn args(values: &[&str]) -> Vec<String> {
    values.iter().map(|v| v.to_string()).collect()
}

#[test]
fn github_url_parsing() {
    assert_eq!(parse_github("https://github.com/acme/http-kit"), Some(("acme".into(), "http-kit".into())));
    assert_eq!(parse_github("https://github.com/acme/http-kit.git"), Some(("acme".into(), "http-kit".into())));
    assert_eq!(parse_github("git@github.com:acme/http-kit.git"), Some(("acme".into(), "http-kit".into())));
    assert_eq!(parse_github("https://gitlab.com/acme/x"), None);
    assert_eq!(parse_github("https://github.com/acme"), None);
}

#[test]
fn rejects_path_traversal_owner_and_repo() {
    assert_eq!(parse_github("https://github.com/../evil/foo"), None);
    assert_eq!(parse_github("https://github.com/../foo"), None);
    assert_eq!(parse_github("https://github.com/acme/.."), None);
    assert_eq!(parse_github("https://github.com/./foo"), None);
    assert_eq!(parse_github("https://github.com/ac me/foo"), None);
    assert_eq!(parse_github("https://github.com/acme/foo%2e"), None);
    assert_eq!(parse_github("https://github.com/acme/foo.bar"), Some(("acme".into(), "foo.bar".into())));
}

#[test]
fn trailing_slashes_and_git_suffixes_are_dropped() {
    assert_eq!(parse_github("http://github.com/acme/kit.git.git//"), Some(("acme".into(), "kit".into())));
    assert_eq!(parse_github("https://github.com/acme/kit/extra"), None);
    assert!(valid_repo_segment("a.b_c-1"));
    assert!(!valid_repo_segment("..."));
    assert!(!valid_repo_segment(""));
}

#[test]
fn tags_are_percent_encoded_for_urls() {
    assert_eq!(encode_path_segment("v1.2.0"), "v1.2.0");
    assert_eq!(encode_path_segment("release_1~rc"), "release_1~rc");
    assert_eq!(encode_path_segment("a/b?x=1#f"), "a%2Fb%3Fx%3D1%23f");
    assert_eq!(encode_path_segment("é"), "%C3%A9");
}

#[test]
fn tag_lookups_are_skipped_unless_verifiable() {
    assert_eq!(tag_lookup_url(TagPolicy::Off, true, "https://github.com/acme/kit", "v1"), None);
    assert_eq!(tag_lookup_url(TagPolicy::Github, false, "https://github.com/acme/kit", "v1"), None);
    assert_eq!(tag_lookup_url(TagPolicy::Github, true, "https://gitlab.com/acme/kit", "v1"), None);
    assert_eq!(
        tag_lookup_url(TagPolicy::Github, true, "https://github.com/acme/kit.git", "v1/../x"),
        Some("https://api.github.com/repos/acme/kit/git/ref/tags/v1%2F..%2Fx".to_string())
    );
}

#[test]
fn tag_answers() {
    assert_eq!(tag_check(404, None, None), Ok(TagCheck::Missing));
    assert_eq!(tag_check(500, None, None), Err(500));
    assert_eq!(tag_check(403, None, None), Err(403));
    assert_eq!(
        tag_check(200, Some("commit"), Some("abc")),
        Ok(TagCheck::Verified { commit: Some("abc".to_string()) })
    );
    assert_eq!(tag_check(200, Some("tag"), Some("abc")), Ok(TagCheck::Verified { commit: None }));
}

#[test]
fn create_token_arguments() {
    let a = parse_create_token_args(&args(&["--name", "ci", "--org", "acme", "--role", "publisher", "--expires-in-days", "30"])).unwrap();
    assert_eq!(a.name, "ci");
    assert_eq!(a.org.as_deref(), Some("acme"));
    assert_eq!(a.role, "publisher");
    assert_eq!(a.expires_in_days, Some(30));

    let admin = parse_create_token_args(&args(&["--name", "root"])).unwrap();
    assert_eq!(admin.role, "owner");
    assert!(admin.org.is_none());
}

#[test]
fn create_token_errors() {
    let e = |v: &[&str]| parse_create_token_args(&args(v)).err().unwrap();
    assert_eq!(e(&[]), "--name is required");
    assert_eq!(e(&["--name", "ci", "--bogus"]), "unknown argument `--bogus`");
    assert_eq!(e(&["--name", "ci", "--role"]), "--role needs a value");
    assert_eq!(e(&["--name", "ci", "--expires-in-days"]), "--expires-in-days needs a value");
    assert_eq!(e(&["--name", "ci", "--expires-in-days", "soon"]), "--expires-in-days must be a positive integer (got `soon`)");
    assert_eq!(e(&["--name", "ci", "--expires-in-days", "-3"]), "--expires-in-days must be positive (got -3)");
    assert_eq!(e(&["--name", "ci", "--org", "acme", "--role", "admin"]), "--role must be one of: owner, publisher, reader (got `admin`)");
    assert_eq!(e(&["--name", "ci", "--role", "reader"]), "--role only applies to org-scoped tokens; pass --org, or omit --role for an admin token");
    assert_eq!(e(&["--name", "ci", "--name"]), "--name is required");
}

#[test]
fn revoke_token_arguments() {
    let a = parse_revoke_token_args(&args(&["--id", "x"])).unwrap();
    assert_eq!(a.id.as_deref(), Some("x"));
    assert!(a.name.is_none());
    assert_eq!(
        parse_revoke_token_args(&args(&[])).err().unwrap(),
        "pass --name <name> or --id <uuid> to identify the token to revoke"
    );
    assert_eq!(parse_revoke_token_args(&args(&["-n"])).err().unwrap(), "unknown argument `-n`");
}

#[test]
fn revocation_is_idempotent() {
    let row = |id: u128, revoked_at: Option<i64>| Token {
        id,
        name: "ci".to_string(),
        token_hash: "h".to_string(),
        org_id: None,
        role: "owner".to_string(),
        created_at: 0,
        expires_at: None,
        revoked_at,
    };
    let filter = RevokeFilter { name: Some("ci".to_string()), id: None };
    let mut empty: Vec<Token> = Vec::new();
    assert_eq!(revoke_tokens(&mut empty, &filter, 9).unwrap_err(), "no token matched");
    let mut table = vec![row(1, None), row(2, Some(5)), row(3, None)];
    assert_eq!(revoke_tokens(&mut table, &filter, 9), Ok(2));
    let times: Vec<Option<i64>> = table.iter().map(|t| t.revoked_at).collect();
    assert_eq!(times, vec![Some(9), Some(5), Some(9)]);
    assert_eq!(revoke_tokens(&mut table, &filter, 10), Ok(0));
    let again: Vec<Option<i64>> = table.iter().map(|t| t.revoked_at).collect();
    assert_eq!(again, times);
    assert_eq!(revoked_message(2), "revoked 2 token(s)");
}

#[test]
fn token_texts() {
    let p = token_plaintext(1, 0xffff_ffff_ffff_ffff_ffff_ffff_ffff_fffe);
    assert_eq!(p, "zpkg_00000000000000000000000000000001fffffffffffffffffffffffffffffffe");
    assert_eq!(
        created_message("ci", Some("acme"), "publisher", Some("2026-08-01T00:00:00+00:00")),
        "token `ci` created (org `acme`, role `publisher`, expires 2026-08-01T00:00:00+00:00); save it now, it is shown exactly once:"
    );
    assert_eq!(
        created_message("root", None, "owner", None),
        "token `root` created (admin (all orgs)); save it now, it is shown exactly once:"
    );
}
