//! Request authentication: turning a request's headers into a verified
//! identity or a rejection reason, by consulting the session registry.
//!
//! Policy, in order: a missing or unparseable `user_id` header is rejected
//! first; then a missing `Authorization` header; then a token the registry
//! does not validate. A token that validates but belongs to another user is
//! rejected with the same reason as an unknown token, so that the response
//! cannot serve as an oracle for which tokens are currently valid.

use crate::parse::{parse_i32, spec_parse_i32};
use crate::store::{spec_validate, SessionData, TokenStore};
use vstd::prelude::*;

verus! {

/// The claimed identity read from the `user_id` header.
#[derive(Debug)]
pub struct User {
    pub user_id: i32,
}

/// The verified identity attached to an authenticated request: the bearer
/// token and the user id the registry validated it to.
#[derive(Debug, PartialEq, Eq)]
pub struct Identity {
    pub token: String,
    pub user_id: i32,
}

/// The model of a verified identity.
pub ghost struct IdentityData {
    pub token: Seq<char>,
    pub user_id: i32,
}

impl View for Identity {
    type V = IdentityData;

    open spec fn view(&self) -> IdentityData {
        IdentityData { token: self.token@, user_id: self.user_id }
    }
}

/// Why a request was rejected. An unknown token and a token owned by a
/// different user share one reason, `InvalidToken`, by design.
#[derive(Clone, Copy, Debug, PartialEq, Eq, Structural)]
pub enum RejectReason {
    MissingOrInvalidUserId,
    MissingToken,
    InvalidToken,
}

/// The view of an optional header value.
pub open spec fn opt_view(o: Option<&str>) -> Option<Seq<char>> {
    match o {
        Option::Some(s) => Option::Some(s@),
        Option::None => Option::None,
    }
}

/// The model of `extract`: the authentication policy over the registry's
/// model and the two header texts.
pub open spec fn spec_extract(
    m: Seq<SessionData>,
    user_id_header: Option<Seq<char>>,
    authorization_header: Option<Seq<char>>,
    now: u64,
) -> Result<IdentityData, RejectReason> {
    match user_id_header {
        Option::None => Result::Err(RejectReason::MissingOrInvalidUserId),
        Option::Some(u) => match spec_parse_i32(u) {
            Option::None => Result::Err(RejectReason::MissingOrInvalidUserId),
            Option::Some(claimed) => match authorization_header {
                Option::None => Result::Err(RejectReason::MissingToken),
                Option::Some(t) => match spec_validate(m, t, now) {
                    Option::None => Result::Err(RejectReason::InvalidToken),
                    Option::Some(owner) => if owner == claimed {
                        Result::Ok(IdentityData { token: t, user_id: owner })
                    } else {
                        Result::Err(RejectReason::InvalidToken)
                    },
                },
            },
        },
    }
}

/// Reads the claimed identity from the `user_id` header: present and a
/// well-formed decimal integer, or rejected.
pub fn user_from_header(user_id_header: Option<&str>) -> (r: Result<User, RejectReason>)
    ensures
        match r {
            Result::Ok(u) => {
                &&& user_id_header is Some
                &&& spec_parse_i32(opt_view(user_id_header)->Some_0) == Option::Some(u.user_id)
            },
            Result::Err(e) => {
                &&& e == RejectReason::MissingOrInvalidUserId
                &&& (user_id_header is None || spec_parse_i32(opt_view(user_id_header)->Some_0)
                    is None)
            },
        },
{
    match user_id_header {
        Option::Some(h) => match parse_i32(h) {
            Option::Some(v) => Result::Ok(User { user_id: v }),
            Option::None => Result::Err(RejectReason::MissingOrInvalidUserId),
        },
        Option::None => Result::Err(RejectReason::MissingOrInvalidUserId),
    }
}

/// Produces a verified identity from the request's two headers, or the
/// reason the request is rejected. Read-only with respect to the registry.
pub fn extract(
    store: &TokenStore,
    user_id_header: Option<&str>,
    authorization_header: Option<&str>,
    now: u64,
) -> (r: Result<Identity, RejectReason>)
    requires
        store.wf(),
    ensures
        match r {
            Result::Ok(id) => spec_extract(
                store@,
                opt_view(user_id_header),
                opt_view(authorization_header),
                now,
            ) == Result::<IdentityData, RejectReason>::Ok(id@),
            Result::Err(e) => spec_extract(
                store@,
                opt_view(user_id_header),
                opt_view(authorization_header),
                now,
            ) == Result::<IdentityData, RejectReason>::Err(e),
        },
{
    let claimed = match user_from_header(user_id_header) {
        Result::Ok(u) => u.user_id,
        Result::Err(e) => {
            return Result::Err(e);
        },
    };
    let tok = match authorization_header {
        Option::Some(t) => t,
        Option::None => {
            return Result::Err(RejectReason::MissingToken);
        },
    };
    match store.validate(tok, now) {
        Option::Some(owner) => {
            if owner == claimed {
                Result::Ok(Identity { token: String::from_str(tok), user_id: owner })
            } else {
                Result::Err(RejectReason::InvalidToken)
            }
        },
        Option::None => Result::Err(RejectReason::InvalidToken),
    }
}

} // verus!
