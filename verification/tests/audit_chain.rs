use zed_registry::audit::{
    audit_chain_preimage, entry_digest, AuditChainInput,
    actor_role, after_append, expected_hash, next_row, verify_chain, AppendNext, AppendOutcome,
    AuditAction, AuditRow, ChainProblem, ADMIN_ROLE,
};
use zed_registry::auth::Token;

const AT: &str = "2026-07-26T12:00:00.123456+00:00";

fn token(org_id: Option<u128>, role: &str) -> Token {
    Token {
        id: 77,
        name: "t".to_string(),
        token_hash: "h".to_string(),
        org_id,
        role: role.to_string(),
        created_at: 0,
        expires_at: None,
        revoked_at: None,
    }
}

/// A correctly chained run of rows.
fn chained(org_id: u128, count: i64) -> Vec<AuditRow> {
    let mut rows: Vec<AuditRow> = Vec::new();
    let mut prev = String::new();
    for seq in 1..=count {
        let mut row = AuditRow {
            id: 1000 + seq as u128,
            org_id,
            at: AT.to_string(),
            action: "publish".to_string(),
            subject: format!("acme/pkg@1.0.{seq}"),
            actor_token_id: Some(5000 + seq as u128),
            actor_token_name: "ci".to_string(),
            actor_role: "publisher".to_string(),
            detail: None,
            seq,
            entry_hash: String::new(),
            prev_hash: if prev.is_empty() { None } else { Some(prev.clone()) },
        };
        row.entry_hash = expected_hash(&row, &prev);
        prev = row.entry_hash.clone();
        rows.push(row);
    }
    rows
}

#[test]
fn admin_tokens_are_labelled_admin() {
    assert_eq!(actor_role(&token(None, "owner")), ADMIN_ROLE);
    assert_eq!(actor_role(&token(Some(9), "publisher")), "publisher");
}

#[test]
fn an_untouched_chain_verifies() {
    let rows = chained(42, 5);
    let report = verify_chain(&rows);
    assert!(report.intact, "{report:?}");
    assert_eq!(report.entries_checked, 5);
    assert_eq!(report.head_hash.as_ref(), rows.last().map(|r| &r.entry_hash));
}

#[test]
fn editing_an_entry_is_detected() {
    let edits: [(&str, fn(&mut AuditRow)); 5] = [
        ("subject", |r| r.subject = "acme/evil@9.9.9".into()),
        ("action", |r| r.action = "unyank".into()),
        ("actor", |r| r.actor_token_name = "someone-else".into()),
        ("role", |r| r.actor_role = "reader".into()),
        ("detail", |r| r.detail = Some("sha256=deadbeef".into())),
    ];
    for (label, mutate) in edits {
        let mut rows = chained(42, 4);
        mutate(&mut rows[1]);
        let report = verify_chain(&rows);
        assert!(!report.intact, "editing {label} went undetected");
        assert_eq!(report.first_bad_seq, Some(2), "{label}");
        assert_eq!(report.problem, Some(ChainProblem::HashMismatch), "{label}");
    }
}

#[test]
fn deleting_an_entry_is_detected() {
    let mut rows = chained(42, 5);
    rows.remove(2);
    let report = verify_chain(&rows);
    assert!(!report.intact);
    assert_eq!(report.problem, Some(ChainProblem::SequenceGap));
    assert_eq!(report.first_bad_seq, Some(3));
    assert_eq!(report.entries_checked, 2, "the prefix before the gap is fine");
}

#[test]
fn truncating_the_tail_still_verifies_but_moves_the_head() {
    let rows = chained(42, 5);
    let full_head = verify_chain(&rows).head_hash;
    let truncated = verify_chain(&rows[..3]);
    assert!(truncated.intact, "a truncated prefix is internally consistent");
    assert_ne!(
        truncated.head_hash, full_head,
        "the head must move, which is what an external anchor detects"
    );
}

#[test]
fn a_rewritten_link_is_reported_as_a_broken_link() {
    let mut rows = chained(42, 4);
    let forged_prev = "0".repeat(64);
    rows[2].prev_hash = Some(forged_prev.clone());
    rows[2].entry_hash = expected_hash(&rows[2], &forged_prev);
    let report = verify_chain(&rows);
    assert!(!report.intact);
    assert_eq!(report.first_bad_seq, Some(3));
    assert_eq!(report.problem, Some(ChainProblem::BrokenLink));
}

#[test]
fn legacy_unchained_rows_do_not_report_tampering() {
    let mut rows = vec![AuditRow {
        id: 1,
        org_id: 42,
        at: AT.to_string(),
        action: "publish".to_string(),
        subject: "acme/old@0.1.0".to_string(),
        actor_token_id: None,
        actor_token_name: "legacy".to_string(),
        actor_role: "owner".to_string(),
        detail: None,
        seq: 0,
        entry_hash: String::new(),
        prev_hash: None,
    }];
    rows.extend(chained(42, 3));
    let report = verify_chain(&rows);
    assert!(report.intact, "{report:?}");
    assert_eq!(report.entries_checked, 3, "only chained rows are counted");
}

#[test]
fn an_empty_chain_is_intact() {
    let report = verify_chain(&[]);
    assert!(report.intact);
    assert_eq!(report.entries_checked, 0);
    assert_eq!(report.head_hash, None);
}

#[test]
fn problems_have_stable_names() {
    assert_eq!(ChainProblem::HashMismatch.as_str(), "hash_mismatch");
    assert_eq!(ChainProblem::BrokenLink.as_str(), "broken_link");
    assert_eq!(ChainProblem::SequenceGap.as_str(), "sequence_gap");
}

#[test]
fn appended_rows_extend_an_intact_chain() {
    let mut rows = chained(42, 2);
    let actor = token(Some(42), "owner");
    let next = next_row(
        99,
        42,
        AT.to_string(),
        AuditAction::Yank,
        "acme/pkg@1.0.1".to_string(),
        &actor,
        None,
        rows.last(),
    );
    assert_eq!(next.seq, 3);
    assert_eq!(next.action, "yank");
    assert_eq!(next.actor_role, "owner");
    assert_eq!(next.prev_hash.as_ref(), Some(&rows[1].entry_hash));
    assert_eq!(next.entry_hash.len(), 64);
    rows.push(next);
    let report = verify_chain(&rows);
    assert!(report.intact);
    assert_eq!(report.entries_checked, 3);
}

#[test]
fn the_first_row_of_an_org_starts_the_chain() {
    let actor = token(None, "owner");
    let first = next_row(1, 7, AT.to_string(), AuditAction::OrgClaim, "acme".to_string(), &actor, None, None);
    assert_eq!(first.seq, 1);
    assert_eq!(first.prev_hash, None);
    assert_eq!(first.actor_role, "admin");
    assert!(verify_chain(&[first]).intact);
}

#[test]
fn hashes_depend_on_the_predecessor() {
    let rows = chained(42, 1);
    assert_ne!(expected_hash(&rows[0], ""), expected_hash(&rows[0], "x"));
    assert!(expected_hash(&rows[0], "").chars().all(|c| c.is_ascii_hexdigit() && !c.is_ascii_uppercase()));
}

#[test]
fn lost_races_are_retried_a_bounded_number_of_times() {
    assert_eq!(after_append(0, AppendOutcome::Appended), AppendNext::Done);
    assert_eq!(after_append(0, AppendOutcome::PositionTaken), AppendNext::Retry);
    assert_eq!(after_append(2, AppendOutcome::PositionTaken), AppendNext::Retry);
    assert_eq!(after_append(3, AppendOutcome::PositionTaken), AppendNext::GiveUp);
    assert_eq!(after_append(0, AppendOutcome::Failed), AppendNext::GiveUp);
}

#[test]
fn action_names_round_trip() {
    for (a, n) in [
        (AuditAction::Publish, "publish"),
        (AuditAction::Yank, "yank"),
        (AuditAction::Unyank, "unyank"),
        (AuditAction::OrgClaim, "org_claim"),
    ] {
        assert_eq!(a.as_str(), n);
        assert_eq!(AuditAction::parse(n), Some(a));
    }
    assert_eq!(AuditAction::parse("yankk"), None);
}

#[test]
fn preimage_names_every_covered_field() {
    let input = AuditChainInput {
        org_id: 0x0123_4567_89ab_cdef_0123_4567_89ab_cdef,
        seq: 7,
        at: AT.to_string(),
        action: "yank".to_string(),
        subject: "acme/kit@1.0.0".to_string(),
        actor_token_id: Some(1),
        actor_token_name: "ci".to_string(),
        actor_role: "publisher".to_string(),
        detail: None,
        prev_hash: "ab".to_string(),
    };
    let text = audit_chain_preimage(&input);
    assert_eq!(
        text,
        format!(
            "zed-audit-chain-v1\norg_id=01234567-89ab-cdef-0123-456789abcdef\nseq=7\nat={AT}\naction=yank\nsubject=acme/kit@1.0.0\nactor_token_id=00000000-0000-0000-0000-000000000001\nactor_token_name=ci\nactor_role=publisher\ndetail=\nprev_hash=ab\n"
        )
    );
    assert_eq!(entry_digest(&input).len(), 64);
}

#[test]
fn chain_timestamp_survives_rfc3339_roundtrip() {
    let at = zed_registry::audit::chain_timestamp().unwrap();
    let parsed = chrono::DateTime::parse_from_rfc3339(&at).unwrap().with_timezone(&chrono::Utc);
    assert_eq!(parsed.timestamp_subsec_nanos() % 1_000, 0);
    assert_eq!(at, parsed.to_rfc3339());
}

#[test]
fn chain_instants_keep_whole_microseconds() {
    assert_eq!(zed_registry::audit::chain_instant(1_700_000_000, 123_456_789), (1_700_000_000, 123_456_000));
    assert_eq!(zed_registry::audit::chain_instant(5, 999), (5, 0));
    assert_eq!(zed_registry::audit::chain_instant(-1, 7_000), (-1, 7_000));
}
