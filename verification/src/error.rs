//! The error every request handler returns: an HTTP status, a stable
//! machine-readable code and a human-readable message.

use vstd::prelude::*;
use crate::files::{ExtractError, MAX_SERVED_FILE_BYTES};
use crate::text::{owned, push_decimal, decimal};

verus! {

/// A handler error: the status code, the stable `code` string clients match
/// on, and a message for humans.
#[derive(Debug)]
pub struct ApiErr {
    pub status: u16,
    pub code: &'static str,
    pub message: String,
}

/// The plain content of an [`ApiErr`].
pub struct ApiErrView {
    pub status: u16,
    pub code: Seq<char>,
    pub message: Seq<char>,
}

impl View for ApiErr {
    type V = ApiErrView;

    open spec fn view(&self) -> ApiErrView {
        ApiErrView { status: self.status, code: self.code@, message: self.message@ }
    }
}

pub type ApiResult<T> = Result<T, ApiErr>;

/// The error content with the given parts.
pub open spec fn err_view(status: u16, code: Seq<char>, message: Seq<char>) -> ApiErrView {
    ApiErrView { status, code, message }
}

/// The 401 answered for a missing, unknown, revoked or expired token.
pub open spec fn unauthorized_view() -> ApiErrView {
    err_view(401, "unauthorized"@, "missing or invalid bearer token"@)
}

impl ApiErr {
    /// 404 for a missing `what`.
    pub fn not_found(what: &str) -> (r: ApiErr)
        ensures
            r@ == err_view(404, "not_found"@, what@ + " not found"@),
    {
        let mut message = owned(what);
        message.append(" not found");
        ApiErr { status: 404, code: "not_found", message }
    }

    /// 400 with the given code and message.
    pub fn bad_request(code: &'static str, message: String) -> (r: ApiErr)
        ensures
            r@ == err_view(400, code@, message@),
    {
        ApiErr { status: 400, code, message }
    }

    /// 401 for a missing or invalid bearer token.
    pub fn unauthorized() -> (r: ApiErr)
        ensures
            r@ == unauthorized_view(),
    {
        ApiErr { status: 401, code: "unauthorized", message: owned("missing or invalid bearer token") }
    }

    /// 403 with the given code and message.
    pub fn forbidden(code: &'static str, message: String) -> (r: ApiErr)
        ensures
            r@ == err_view(403, code@, message@),
    {
        ApiErr { status: 403, code, message }
    }

    /// 409 with the given code and message.
    pub fn conflict(code: &'static str, message: String) -> (r: ApiErr)
        ensures
            r@ == err_view(409, code@, message@),
    {
        ApiErr { status: 409, code, message }
    }

    /// 500 reported for a storage or database failure; the cause itself is
    /// logged, never sent to the client.
    pub fn internal(message: &str) -> (r: ApiErr)
        ensures
            r@ == err_view(500, "internal"@, message@),
    {
        ApiErr { status: 500, code: "internal", message: owned(message) }
    }
}

/// The message sent with a 413 for an entry over the single-file limit.
pub open spec fn too_large_message() -> Seq<char> {
    "files larger than "@ + decimal(MAX_SERVED_FILE_BYTES as nat)
        + " bytes are not served individually; download the artifact instead"@
}

/// The message sent with a 413 for an archive over the inflation budget.
pub open spec fn budget_message(budget: u64) -> Seq<char> {
    "this artifact inflates past the "@ + decimal(budget as nat)
        + " byte decompression budget; download the artifact instead of requesting files from it"@
}

/// The response for an extraction failure: 413 for either size limit (naming
/// the limit that applied), 500 for an unreadable archive.
pub fn extract_error_response(err: &ExtractError, budget: u64) -> (r: ApiErr)
    ensures
        *err is TooLarge ==> r@ == err_view(413, "file_too_large"@, too_large_message()),
        *err is InflationBudgetExceeded ==> r@ == err_view(413, "archive_too_large"@, budget_message(budget)),
        *err is Archive ==> r@ == err_view(500, "internal"@, "internal error"@),
{
    match err {
        ExtractError::TooLarge => {
            let mut m = owned("files larger than ");
            push_decimal(&mut m, MAX_SERVED_FILE_BYTES as u128);
            m.append(" bytes are not served individually; download the artifact instead");
            assert(m@ =~= too_large_message());
            ApiErr { status: 413, code: "file_too_large", message: m }
        },
        ExtractError::InflationBudgetExceeded => {
            let mut m = owned("this artifact inflates past the ");
            push_decimal(&mut m, budget as u128);
            m.append(" byte decompression budget; download the artifact instead of requesting files from it");
            assert(m@ =~= budget_message(budget));
            ApiErr { status: 413, code: "archive_too_large", message: m }
        },
        ExtractError::Archive(_) => ApiErr::internal("internal error"),
    }
}

} // verus!
