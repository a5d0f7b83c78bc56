//! Claiming an org namespace.
//!
//! A claim goes through these decisions, with the database lookups between
//! them done by the caller, in this order (`OrgClaim`, a step machine): the
//! slug must be well formed; an existing org is either already the caller's
//! (answered as not newly created) or taken; an org-scoped token may only
//! have created a bounded number of orgs (admin tokens are exempt); and an
//! insert that loses a race on the unique slug is the same conflict as an
//! already-claimed org. Only the last step writes a row, so every refusal
//! leaves the org table as it was.
use vstd::prelude::*;
use crate::error::{ApiErr, ApiErrView, ApiResult, err_view};
use crate::text::{chars_of, owned, push_decimal, decimal};
use crate::audit::AuditAction;
use crate::publish::AuditEntry;

verus! {

/// The body of a claim request.
#[derive(Debug)]
pub struct ClaimOrgRequest {
    pub slug: String,
}

/// The answer to a claim: the slug and whether this claim created the org.
#[derive(Debug)]
pub struct ClaimOrgResponse {
    pub slug: String,
    pub created: bool,
}

/// Characters allowed in a slug.
pub open spec fn is_slug_char(c: char) -> bool {
    ('a' <= c && c <= 'z') || ('0' <= c && c <= '9') || c == '-'
}

/// A slug: non-empty, lowercase ASCII letters, digits and hyphens only.
pub open spec fn is_slug_spec(s: Seq<char>) -> bool {
    s.len() > 0 && forall|i: int| 0 <= i < s.len() ==> is_slug_char(#[trigger] s[i])
}

/// Whether `s` is a valid org or package slug.
pub fn is_slug(s: &str) -> (r: bool)
    ensures
        r == is_slug_spec(s@),
{
    let cs = chars_of(s);
    if cs.len() == 0 {
        return false;
    }
    let mut i: usize = 0;
    while i < cs.len()
        invariant
            i <= cs@.len(),
            cs@ == s@,
            forall|j: int| 0 <= j < i ==> is_slug_char(#[trigger] cs@[j]),
        decreases cs.len() - i,
    {
        let c = cs[i];
        if !(('a' <= c && c <= 'z') || ('0' <= c && c <= '9') || c == '-') {
            return false;
        }
        i = i + 1;
    }
    true
}

/// The message of the 400 for a malformed slug.
pub open spec fn invalid_slug_message() -> Seq<char> {
    "org slugs are lowercase letters, digits, and hyphens"@
}

/// The message of the 409 for an org claimed by someone else.
pub open spec fn org_taken_message(slug: Seq<char>) -> Seq<char> {
    "org `"@ + slug + "` is already claimed"@
}

/// The message of the 403 for a token at its claim quota.
pub open spec fn quota_message(claimed: u64, limit: u64) -> Seq<char> {
    "this token has already claimed "@ + decimal(claimed as nat) + " orgs (limit "@ + decimal(
        limit as nat,
    ) + "); contact the registry operator"@
}

/// Refuse a malformed slug before any lookup.
pub fn check_slug(slug: &str) -> (r: ApiResult<()>)
    ensures
        r is Ok <==> is_slug_spec(slug@),
        r matches Err(e) ==> e@ == err_view(400, "invalid_slug"@, invalid_slug_message()),
{
    if is_slug(slug) {
        Ok(())
    } else {
        Err(ApiErr::bad_request("invalid_slug", owned("org slugs are lowercase letters, digits, and hyphens")))
    }
}

fn org_taken(slug: &str) -> (r: ApiErr)
    ensures
        r@ == err_view(409, "org_taken"@, org_taken_message(slug@)),
{
    let mut m = owned("org `");
    m.append(slug);
    m.append("` is already claimed");
    ApiErr::conflict("org_taken", m)
}

/// What an existing org with the slug means for the claim: none lets the
/// claim go on (`Ok(None)`); one owned by the token's own org answers the
/// claim as not newly created; one owned by anyone else is taken.
pub fn resolve_existing(slug: &str, token_org: Option<u128>, existing_org: Option<u128>) -> (r:
    ApiResult<Option<ClaimOrgResponse>>)
    ensures
        existing_org is None ==> r matches Ok(None),
        (existing_org is Some && token_org == existing_org) ==> (r matches Ok(Some(resp)) && resp.slug@
            == slug@ && !resp.created),
        (existing_org is Some && token_org != existing_org) ==> (r matches Err(e) && e@ == err_view(
            409,
            "org_taken"@,
            org_taken_message(slug@),
        )),
{
    match existing_org {
        None => Ok(None),
        Some(existing) => {
            let mine = match token_org {
                Some(t) => t == existing,
                None => false,
            };
            if mine {
                Ok(Some(ClaimOrgResponse { slug: owned(slug), created: false }))
            } else {
                Err(org_taken(slug))
            }
        },
    }
}

/// The claim quota: an org-scoped token that has already created `claimed`
/// orgs may create another only while `claimed` is below `limit`; an admin
/// token (no org scope) is never limited.
pub fn check_org_quota(token_org: Option<u128>, claimed: u64, limit: u64) -> (r: ApiResult<()>)
    ensures
        r is Ok <==> (token_org is None || claimed < limit),
        r matches Err(e) ==> e@ == err_view(403, "org_quota_exceeded"@, quota_message(claimed, limit)),
{
    if token_org.is_some() && claimed >= limit {
        let mut m = owned("this token has already claimed ");
        push_decimal(&mut m, claimed as u128);
        m.append(" orgs (limit ");
        push_decimal(&mut m, limit as u128);
        m.append("); contact the registry operator");
        assert(m@ =~= quota_message(claimed, limit));
        Err(ApiErr { status: 403, code: "org_quota_exceeded", message: m })
    } else {
        Ok(())
    }
}

/// How the insert of the new org row ended.
#[derive(Debug)]
pub enum InsertOutcome {
    /// The row was inserted (and the transaction committed).
    Inserted,
    /// A concurrent claim took the slug first.
    SlugTaken,
    /// Any other database failure.
    Failed,
}

/// The answer once the insert of the org `new_org_id` has run: created, the
/// same conflict as an already-claimed org when a concurrent claim won the
/// slug, or a 500. A created org also yields the audit entry to record
/// against it after the commit (an `org_claim` of the slug, with no detail).
pub fn finish_claim(slug: &str, new_org_id: u128, outcome: InsertOutcome) -> (r: (
    ApiResult<ClaimOrgResponse>,
    Option<AuditEntry>,
))
    ensures
        outcome is Inserted ==> (r.0 matches Ok(resp) && resp.slug@ == slug@ && resp.created),
        outcome is Inserted ==> (r.1 matches Some(a) && a.org_id == new_org_id && a.action
            == AuditAction::OrgClaim && a.subject@ == slug@ && a.detail is None),
        !(outcome is Inserted) ==> r.1 is None,
        outcome is SlugTaken ==> (r.0 matches Err(e) && e@ == err_view(
            409,
            "org_taken"@,
            org_taken_message(slug@),
        )),
        outcome is Failed ==> (r.0 matches Err(e) && e@ == err_view(
            500,
            "internal"@,
            "internal database error"@,
        )),
{
    match outcome {
        InsertOutcome::Inserted => (
            Ok(ClaimOrgResponse { slug: owned(slug), created: true }),
            Some(AuditEntry { org_id: new_org_id, action: AuditAction::OrgClaim, subject: owned(slug), detail: None }),
        ),
        InsertOutcome::SlugTaken => (Err(org_taken(slug)), None),
        InsertOutcome::Failed => (Err(ApiErr::internal("internal database error")), None),
    }
}


/// Where a claim stands.
#[derive(Debug, Clone, Copy, PartialEq, Eq, Structural)]
pub enum ClaimPhase {
    AwaitExisting,
    AwaitCount,
    AwaitInsert,
    Finished,
}

/// What the caller must do next for a claim.
#[derive(Debug)]
pub enum ClaimAction {
    /// Find the id of the org with this slug, if there is one.
    LookupOrg { slug: String },
    /// Enter the token's claim critical section (a transaction holding the
    /// token's lock) and count the orgs the token has created.
    CountClaims { token_id: u128 },
    /// Insert the org (a fresh id, this slug, created by this token) and
    /// commit, inside the critical section when one was entered.
    InsertOrg { slug: String, created_by: u128 },
    /// Record `audit` (when present, best-effort) and answer with `outcome`.
    Finish { outcome: ApiResult<ClaimOrgResponse>, audit: Option<AuditEntry> },
}

/// One org claim in progress, by the token `token_id` scoped to
/// `token_org`, under a quota of `limit` orgs per org-scoped token.
#[derive(Debug)]
pub struct OrgClaim {
    pub slug: String,
    pub token_id: u128,
    pub token_org: Option<u128>,
    pub limit: u64,
    pub phase: ClaimPhase,
}

/// The error a finishing action answers with (and no audit entry).
pub open spec fn claim_err(a: ClaimAction) -> Option<ApiErrView> {
    match a {
        ClaimAction::Finish { outcome: Err(e), audit: None } => Some(e@),
        _ => None,
    }
}

/// The action is the insert of the claimed org by the claiming token: the
/// only action that writes an org row.
pub open spec fn inserts(a: ClaimAction, slug: Seq<char>, token_id: u128) -> bool {
    a matches ClaimAction::InsertOrg { slug: s, created_by } && s@ == slug && created_by == token_id
}

impl OrgClaim {
    /// The claim's fields other than its phase are those of `other`.
    pub open spec fn same_claim(&self, other: OrgClaim) -> bool {
        self.slug@ == other.slug@ && self.token_id == other.token_id && self.token_org == other.token_org
            && self.limit == other.limit
    }

    /// Start a claim of `slug`: a malformed slug is refused before any
    /// lookup; otherwise the existing org with the slug is looked up.
    pub fn start(slug: String, token_id: u128, token_org: Option<u128>, limit: u64) -> (r: (OrgClaim, ClaimAction))
        ensures
            r.0.slug@ == slug@ && r.0.token_id == token_id && r.0.token_org == token_org && r.0.limit == limit,
            is_slug_spec(slug@) ==> r.0.phase == ClaimPhase::AwaitExisting
                && (r.1 matches ClaimAction::LookupOrg { slug: s } && s@ == slug@),
            !is_slug_spec(slug@) ==> r.0.phase == ClaimPhase::Finished
                && claim_err(r.1) == Some(err_view(400, "invalid_slug"@, invalid_slug_message())),
    {
        match check_slug(slug.as_str()) {
            Err(e) => (
                OrgClaim { slug, token_id, token_org, limit, phase: ClaimPhase::Finished },
                ClaimAction::Finish { outcome: Err(e), audit: None },
            ),
            Ok(()) => {
                let look = owned(slug.as_str());
                (
                    OrgClaim { slug, token_id, token_org, limit, phase: ClaimPhase::AwaitExisting },
                    ClaimAction::LookupOrg { slug: look },
                )
            },
        }
    }

    /// The lookup answered: an existing org is the token's own (answered as
    /// not newly created) or taken; with none, an org-scoped token's claims
    /// are counted first, and an admin token's org is inserted directly.
    pub fn on_existing(&mut self, existing: Option<u128>) -> (a: ClaimAction)
        requires
            old(self).phase == ClaimPhase::AwaitExisting,
        ensures
            final(self).same_claim(*old(self)),
            (existing is Some && old(self).token_org == existing) ==> final(self).phase == ClaimPhase::Finished
                && (a matches ClaimAction::Finish { outcome: Ok(resp), audit: None } && resp.slug@ == old(self).slug@
                && !resp.created),
            (existing is Some && old(self).token_org != existing) ==> final(self).phase == ClaimPhase::Finished
                && claim_err(a) == Some(err_view(409, "org_taken"@, org_taken_message(old(self).slug@))),
            (existing is None && old(self).token_org is Some) ==> final(self).phase == ClaimPhase::AwaitCount
                && (a matches ClaimAction::CountClaims { token_id } && token_id == old(self).token_id),
            (existing is None && old(self).token_org is None) ==> final(self).phase == ClaimPhase::AwaitInsert
                && inserts(a, old(self).slug@, old(self).token_id),
    {
        match resolve_existing(self.slug.as_str(), self.token_org, existing) {
            Err(e) => {
                self.phase = ClaimPhase::Finished;
                ClaimAction::Finish { outcome: Err(e), audit: None }
            },
            Ok(Some(resp)) => {
                self.phase = ClaimPhase::Finished;
                ClaimAction::Finish { outcome: Ok(resp), audit: None }
            },
            Ok(None) => {
                if self.token_org.is_some() {
                    self.phase = ClaimPhase::AwaitCount;
                    ClaimAction::CountClaims { token_id: self.token_id }
                } else {
                    self.phase = ClaimPhase::AwaitInsert;
                    ClaimAction::InsertOrg { slug: owned(self.slug.as_str()), created_by: self.token_id }
                }
            },
        }
    }

    /// The (org-scoped) token has created `claimed` orgs: at the quota the
    /// claim is refused (no row written); below it the org is inserted.
    pub fn on_count(&mut self, claimed: u64) -> (a: ClaimAction)
        requires
            old(self).phase == ClaimPhase::AwaitCount,
            old(self).token_org is Some,
        ensures
            final(self).same_claim(*old(self)),
            claimed >= old(self).limit ==> final(self).phase == ClaimPhase::Finished
                && claim_err(a) == Some(err_view(403, "org_quota_exceeded"@, quota_message(claimed, old(self).limit))),
            claimed < old(self).limit ==> final(self).phase == ClaimPhase::AwaitInsert
                && inserts(a, old(self).slug@, old(self).token_id),
    {
        match check_org_quota(self.token_org, claimed, self.limit) {
            Err(e) => {
                self.phase = ClaimPhase::Finished;
                ClaimAction::Finish { outcome: Err(e), audit: None }
            },
            Ok(()) => {
                self.phase = ClaimPhase::AwaitInsert;
                ClaimAction::InsertOrg { slug: owned(self.slug.as_str()), created_by: self.token_id }
            },
        }
    }

    /// The insert of the org `new_org_id` ended with `outcome`: see
    /// `finish_claim`.
    pub fn on_insert(&mut self, new_org_id: u128, outcome: InsertOutcome) -> (a: ClaimAction)
        requires
            old(self).phase == ClaimPhase::AwaitInsert,
        ensures
            final(self).same_claim(*old(self)),
            final(self).phase == ClaimPhase::Finished,
            outcome is Inserted ==> (a matches ClaimAction::Finish { outcome: Ok(resp), audit: Some(e) }
                && resp.slug@ == old(self).slug@ && resp.created && e.org_id == new_org_id
                && e.action == AuditAction::OrgClaim && e.subject@ == old(self).slug@ && e.detail is None),
            outcome is SlugTaken ==> claim_err(a) == Some(err_view(409, "org_taken"@, org_taken_message(old(self).slug@))),
            outcome is Failed ==> claim_err(a) == Some(err_view(500, "internal"@, "internal database error"@)),
    {
        self.phase = ClaimPhase::Finished;
        let (outcome, audit) = finish_claim(self.slug.as_str(), new_org_id, outcome);
        ClaimAction::Finish { outcome, audit }
    }

    /// A database call failed before the insert: a 500, and no row written.
    pub fn on_failure(&mut self) -> (a: ClaimAction)
        requires
            old(self).phase != ClaimPhase::Finished,
        ensures
            final(self).same_claim(*old(self)),
            final(self).phase == ClaimPhase::Finished,
            claim_err(a) == Some(err_view(500, "internal"@, "internal database error"@)),
    {
        self.phase = ClaimPhase::Finished;
        ClaimAction::Finish { outcome: Err(ApiErr::internal("internal database error")), audit: None }
    }
}

} // verus!
