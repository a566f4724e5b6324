//! The middleware in front of protected routes.
//!
//! Each request is either forwarded unchanged to the wrapped handler,
//! carrying its verified identity, or answered at once with a 401 and a
//! short generic message. The message distinguishes only the three coarse
//! rejection categories; in particular a token owned by another user is
//! answered exactly as an unknown token.

use crate::extract::{extract, opt_view, spec_extract, Identity, IdentityData, RejectReason};
use crate::store::TokenStore;
use vstd::prelude::*;

verus! {

/// The status every rejected request is answered with.
pub const STATUS_UNAUTHORIZED: u16 = 401;

/// What the middleware does with one request.
pub enum RequestDecision {
    /// The request is forwarded unchanged to the wrapped handler.
    Forward(Identity),
    /// Processing stops; the handler is never invoked.
    Reject { status: u16, body: String },
}

/// The response body for each rejection category.
pub open spec fn spec_reason_message(r: RejectReason) -> Seq<char> {
    match r {
        RejectReason::MissingOrInvalidUserId => "No user_id specified in request"@,
        RejectReason::MissingToken => "not authorized, no token found in Authorization"@,
        RejectReason::InvalidToken => "Token invalid"@,
    }
}

/// The short, non-revealing message a rejection is answered with.
pub fn reason_message(r: RejectReason) -> (s: String)
    ensures
        s@ == spec_reason_message(r),
{
    match r {
        RejectReason::MissingOrInvalidUserId => String::from_str("No user_id specified in request"),
        RejectReason::MissingToken => String::from_str(
            "not authorized, no token found in Authorization",
        ),
        RejectReason::InvalidToken => String::from_str("Token invalid"),
    }
}

/// Screens one request: runs the extractor and either forwards the request
/// with its verified identity or rejects it with a 401 and the category's
/// generic message.
pub fn authorize_request(
    store: &TokenStore,
    user_id_header: Option<&str>,
    authorization_header: Option<&str>,
    now: u64,
) -> (d: RequestDecision)
    requires
        store.wf(),
    ensures
        ({
            let ex = spec_extract(
                store@,
                opt_view(user_id_header),
                opt_view(authorization_header),
                now,
            );
            match d {
                RequestDecision::Forward(id) => ex == Result::<IdentityData, RejectReason>::Ok(
                    id@,
                ),
                RequestDecision::Reject { status, body } => {
                    &&& status == STATUS_UNAUTHORIZED
                    &&& ex matches Result::Err(reason) && body@ == spec_reason_message(reason)
                },
            }
        }),
{
    match extract(store, user_id_header, authorization_header, now) {
        Result::Ok(id) => RequestDecision::Forward(id),
        Result::Err(reason) => RequestDecision::Reject {
            status: STATUS_UNAUTHORIZED,
            body: reason_message(reason),
        },
    }
}

} // verus!
