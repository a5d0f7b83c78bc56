//! Role-based access control for org-scoped tokens.
//!
//! A token is either an admin token (no org scope, owner-equivalent
//! everywhere) or scoped to one org with a [`Role`]: a `reader` can install
//! but not publish, a `publisher` can publish, an `owner` can also manage the
//! org.

use vstd::prelude::*;
use crate::error::{ApiErr, ApiResult, err_view, unauthorized_view};
use crate::text::{chars_eq, chars_of, owned};

verus! {

/// A token's capability within its org scope.
#[derive(Debug, Clone, Copy, PartialEq, Eq, Structural)]
pub enum Role {
    Owner,
    Publisher,
    Reader,
}

/// The role a stored role string denotes: the three names map to their role,
/// anything else to the most restrictive one.
pub open spec fn role_of(s: Seq<char>) -> Role {
    if s == "owner"@ {
        Role::Owner
    } else if s == "publisher"@ {
        Role::Publisher
    } else {
        Role::Reader
    }
}

/// The stored name of a role.
pub open spec fn role_name(r: Role) -> Seq<char> {
    match r {
        Role::Owner => "owner"@,
        Role::Publisher => "publisher"@,
        Role::Reader => "reader"@,
    }
}

/// Whether `s` is one of the three role names.
pub open spec fn is_role_name(s: Seq<char>) -> bool {
    s == "owner"@ || s == "publisher"@ || s == "reader"@
}

/// Whether a role may publish (and yank, and write embeddings).
pub open spec fn publishes(r: Role) -> bool {
    r == Role::Owner || r == Role::Publisher
}

/// Whether a role may manage its org (read and verify the audit log).
pub open spec fn manages(r: Role) -> bool {
    r == Role::Owner
}

impl Role {
    /// Parse a stored role string; unknown input becomes `Reader`.
    pub fn parse(s: &str) -> (r: Role)
        ensures
            r == role_of(s@),
    {
        let cs = chars_of(s);
        if chars_eq(cs.as_slice(), "owner") {
            Role::Owner
        } else if chars_eq(cs.as_slice(), "publisher") {
            Role::Publisher
        } else {
            Role::Reader
        }
    }

    pub fn as_str(&self) -> (r: &'static str)
        ensures
            r@ == role_name(*self),
    {
        match self {
            Role::Owner => "owner",
            Role::Publisher => "publisher",
            Role::Reader => "reader",
        }
    }

    /// Valid role names accepted by `create-token --role`.
    pub fn is_valid(s: &str) -> (r: bool)
        ensures
            r == is_role_name(s@),
    {
        let cs = chars_of(s);
        chars_eq(cs.as_slice(), "owner") || chars_eq(cs.as_slice(), "publisher")
            || chars_eq(cs.as_slice(), "reader")
    }

    pub fn can_publish(&self) -> (r: bool)
        ensures
            r == publishes(*self),
    {
        match self {
            Role::Owner | Role::Publisher => true,
            Role::Reader => false,
        }
    }

    pub fn can_manage(&self) -> (r: bool)
        ensures
            r == manages(*self),
    {
        match self {
            Role::Owner => true,
            _ => false,
        }
    }
}

/// The message of the 403 answered to a scoped token whose role cannot
/// publish.
pub open spec fn publish_denied_message(role: Role) -> Seq<char> {
    "this token's role (`"@ + role_name(role)
        + "`) cannot publish; a `publisher` or `owner` token is required"@
}

/// The message of the 403 answered to a scoped token whose role cannot
/// manage the org.
pub open spec fn manage_denied_message(role: Role) -> Seq<char> {
    "this token's role (`"@ + role_name(role)
        + "`) cannot manage the org; an `owner` token is required"@
}

/// Authorize a publish of `target_org` by a token scoped to `token_org`
/// with `role`. Admin tokens (`token_org == None`) may publish anywhere; a
/// scoped token must target its own org (else 401, whatever its role) and
/// hold a publishing role (else 403 `insufficient_role`).
pub fn authorize_publish(token_org: Option<u128>, role: Role, target_org: u128) -> (r: ApiResult<()>)
    ensures
        token_org is None ==> r is Ok,
        token_org is Some && token_org->0 != target_org ==> (r matches Err(e) && e@ == unauthorized_view()),
        token_org == Some(target_org) && publishes(role) ==> r is Ok,
        token_org == Some(target_org) && !publishes(role) ==> (r matches Err(e)
            && e@ == err_view(403, "insufficient_role"@, publish_denied_message(role))),
{
    match token_org {
        None => Ok(()),
        Some(scope) => {
            if scope != target_org {
                Err(ApiErr::unauthorized())
            } else if role.can_publish() {
                Ok(())
            } else {
                let mut m = owned("this token's role (`");
                m.append(role.as_str());
                m.append("`) cannot publish; a `publisher` or `owner` token is required");
                assert(m@ =~= publish_denied_message(role));
                Err(ApiErr::forbidden("insufficient_role", m))
            }
        },
    }
}

/// Authorize an org-management read or write (reading and verifying the
/// audit log) of `target_org`: the same scope rule as publishing, but only
/// the `owner` role passes.
pub fn authorize_manage(token_org: Option<u128>, role: Role, target_org: u128) -> (r: ApiResult<()>)
    ensures
        token_org is None ==> r is Ok,
        token_org is Some && token_org->0 != target_org ==> (r matches Err(e) && e@ == unauthorized_view()),
        token_org == Some(target_org) && manages(role) ==> r is Ok,
        token_org == Some(target_org) && !manages(role) ==> (r matches Err(e)
            && e@ == err_view(403, "insufficient_role"@, manage_denied_message(role))),
{
    match token_org {
        None => Ok(()),
        Some(scope) => {
            if scope != target_org {
                Err(ApiErr::unauthorized())
            } else if role.can_manage() {
                Ok(())
            } else {
                let mut m = owned("this token's role (`");
                m.append(role.as_str());
                m.append("`) cannot manage the org; an `owner` token is required");
                assert(m@ =~= manage_denied_message(role));
                Err(ApiErr::forbidden("insufficient_role", m))
            }
        },
    }
}

/// Whatever may manage may also publish: the owner-only check is never
/// weaker than the publish check, for every scope and target.
pub proof fn lemma_manage_implies_publish(token_org: Option<u128>, role: Role, target_org: u128)
    ensures
        (token_org is None || token_org == Some(target_org)) && manages(role)
            ==> publishes(role),
{
}

} // verus!
