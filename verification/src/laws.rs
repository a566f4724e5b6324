//! The stated guarantees of the session registry and of the
//! request-authentication policy, proved over their models.

use crate::extract::{spec_extract, IdentityData, RejectReason};
use crate::middleware::spec_reason_message;
use crate::parse::spec_parse_i32;
use crate::store::{
    has_token, lemma_filter_elems, lemma_issue_preserves_wf, live_at, sat_add, spec_expired_count,
    spec_invalidate, spec_issue, spec_sweep, spec_validate, token_index, unique_tokens,
    wf_sessions, SessionData,
};
use vstd::prelude::*;

verus! {

broadcast use vstd::seq_lib::group_filter_ensures, vstd::string::group_string_axioms;

/// A session just issued validates to its owner: `issue(u)` followed
/// immediately by `validate` of the returned token yields `Some(u)`.
/// (At `now == u64::MAX` no session can be live, so that instant is
/// excluded.)
pub proof fn lemma_issue_then_validate(
    m: Seq<SessionData>,
    user_id: i32,
    tok: Seq<char>,
    now: u64,
    ttl: u64,
)
    requires
        wf_sessions(m, ttl),
        now < u64::MAX,
    ensures
        spec_validate(spec_issue(m, user_id, tok, now, ttl), tok, now) == Some(user_id),
{
    let pred = |e: SessionData| e.user_id != user_id && e.token != tok;
    let f = m.filter(pred);
    let m2 = spec_issue(m, user_id, tok, now, ttl);
    let last = m2.len() - 1;
    assert(m2[last].token == tok);
    assert(has_token(m2, tok));
    let k = token_index(m2, tok);
    assert(0 <= k < m2.len() && m2[k].token == tok);
    if k < f.len() {
        assert(pred(f[k]));
    }
    assert(k == last);
    assert(live_at(m2[last], now));
}

/// Sessions of two distinct users never cross: after `issue(u1)` and
/// `issue(u2)` with distinct tokens, each token validates to its own user.
/// (The astronomically unlikely case that the generator hands both calls the
/// same 64-character token is excluded: the later issue then replaces the
/// earlier session, as the registry's contract states.)
pub proof fn lemma_issue_no_crossover(
    m: Seq<SessionData>,
    u1: i32,
    u2: i32,
    t1: Seq<char>,
    t2: Seq<char>,
    now: u64,
    ttl: u64,
)
    requires
        wf_sessions(m, ttl),
        now < u64::MAX,
        u1 != u2,
        t1 != t2,
    ensures
        ({
            let m2 = spec_issue(spec_issue(m, u1, t1, now, ttl), u2, t2, now, ttl);
            spec_validate(m2, t1, now) == Some(u1) && spec_validate(m2, t2, now) == Some(u2)
        }),
{
    let m1 = spec_issue(m, u1, t1, now, ttl);
    let m2 = spec_issue(m1, u2, t2, now, ttl);
    lemma_issue_preserves_wf(m, u1, t1, now, ttl);
    lemma_issue_preserves_wf(m1, u2, t2, now, ttl);
    lemma_issue_then_validate(m1, u2, t2, now, ttl);
    let entry1 = SessionData { token: t1, user_id: u1, issued_at: now, expires_at: sat_add(now, ttl) };
    assert(m1[m1.len() - 1] == entry1);
    let pred2 = |e: SessionData| e.user_id != u2 && e.token != t2;
    assert(pred2(entry1));
    let f2 = m1.filter(pred2);
    assert(f2.contains(entry1));
    let j = choose|j: int| 0 <= j < f2.len() && f2[j] == entry1;
    assert(m2[j] == entry1);
    assert(has_token(m2, t1));
    let k = token_index(m2, t1);
    assert(0 <= k < m2.len() && m2[k].token == t1);
    if k != j {
        assert(m2[k].token != m2[j].token);
    }
    assert(live_at(entry1, now));
}

/// An invalidated token no longer validates, at any time: `invalidate(t)`
/// followed by `validate(t)` yields `None`.
pub proof fn lemma_invalidate_then_validate(m: Seq<SessionData>, tok: Seq<char>, now: u64)
    ensures
        spec_validate(spec_invalidate(m, tok), tok, now) == None::<i32>,
{
    let m2 = spec_invalidate(m, tok);
    if has_token(m2, tok) {
        let k = choose|k: int| 0 <= k < m2.len() && m2[k].token == tok;
        assert(m2[k].token != tok);
    }
}

/// The sweep changes no validation outcome taken at the same instant: it
/// removes only sessions that were already expired (hence already invalid)
/// and leaves every not-yet-expired session untouched.
pub proof fn lemma_sweep_preserves_validate(m: Seq<SessionData>, now: u64, tok: Seq<char>)
    requires
        unique_tokens(m),
    ensures
        spec_validate(spec_sweep(m, now), tok, now) == spec_validate(m, tok, now),
{
    let pred = |e: SessionData| e.expires_at >= now;
    let m2 = spec_sweep(m, now);
    lemma_filter_elems(m, pred);
    if has_token(m, tok) {
        let k = token_index(m, tok);
        assert(0 <= k < m.len() && m[k].token == tok);
        if m[k].expires_at >= now {
            assert(pred(m[k]));
            assert(m2.contains(m[k]));
            let j = choose|j: int| 0 <= j < m2.len() && m2[j] == m[k];
            assert(has_token(m2, tok));
            let k2 = token_index(m2, tok);
            assert(0 <= k2 < m2.len() && m2[k2].token == tok);
            assert(m.contains(m2[k2]));
            let a = choose|a: int| 0 <= a < m.len() && m[a] == m2[k2];
            if a != k {
                assert(m[a].token != m[k].token);
            }
            assert(m2[k2] == m[k]);
        } else {
            assert(!live_at(m[k], now));
            if has_token(m2, tok) {
                let k2 = token_index(m2, tok);
                assert(0 <= k2 < m2.len() && m2[k2].token == tok);
                assert(pred(m2[k2]));
                assert(m.contains(m2[k2]));
                let a = choose|a: int| 0 <= a < m.len() && m[a] == m2[k2];
                if a != k {
                    assert(m[a].token != m[k].token);
                }
                assert(m2[k2] == m[k]);
            }
        }
    } else {
        if has_token(m2, tok) {
            let k2 = token_index(m2, tok);
            assert(0 <= k2 < m2.len() && m2[k2].token == tok);
            assert(m.contains(m2[k2]));
            let a = choose|a: int| 0 <= a < m.len() && m[a] == m2[k2];
            assert(m[a].token == tok);
        }
    }
}

/// The sweep removes exactly the expired sessions: what it drops and what
/// it keeps add up to the whole registry.
pub proof fn lemma_sweep_removes_exactly_expired(m: Seq<SessionData>, now: u64)
    ensures
        spec_sweep(m, now).len() + spec_expired_count(m, now) == m.len(),
    decreases m.len(),
{
    reveal(Seq::filter);
    if m.len() != 0 {
        lemma_sweep_removes_exactly_expired(m.drop_last(), now);
    }
}

/// A token owned by a different user is rejected exactly as an unknown
/// token: the extractor yields the same reason, `InvalidToken`, for both,
/// so a caller cannot learn from the response that the mismatched token was
/// valid.
pub proof fn lemma_wrong_user_indistinguishable(
    m: Seq<SessionData>,
    user_header: Seq<char>,
    claimed: i32,
    tok_wrong_user: Seq<char>,
    tok_unknown: Seq<char>,
    now: u64,
)
    requires
        spec_parse_i32(user_header) == Some(claimed),
        spec_validate(m, tok_wrong_user, now) matches Some(owner) && owner != claimed,
        spec_validate(m, tok_unknown, now) is None,
    ensures
        spec_extract(m, Some(user_header), Some(tok_wrong_user), now) == Result::<
            IdentityData,
            RejectReason,
        >::Err(RejectReason::InvalidToken),
        spec_extract(m, Some(user_header), Some(tok_unknown), now) == Result::<
            IdentityData,
            RejectReason,
        >::Err(RejectReason::InvalidToken),
{
}

/// A request with a well-formed `user_id` but no `Authorization` header is
/// rejected with the dedicated no-token reason, whose message differs from
/// both other categories. (When the `user_id` header itself is missing or
/// malformed, that earlier check rejects the request first, by design.)
pub proof fn lemma_missing_token_rejected(m: Seq<SessionData>, user_header: Seq<char>, now: u64)
    requires
        spec_parse_i32(user_header) is Some,
    ensures
        spec_extract(m, Some(user_header), None, now) == Result::<
            IdentityData,
            RejectReason,
        >::Err(RejectReason::MissingToken),
        spec_reason_message(RejectReason::MissingToken) != spec_reason_message(
            RejectReason::InvalidToken,
        ),
        spec_reason_message(RejectReason::MissingToken) != spec_reason_message(
            RejectReason::MissingOrInvalidUserId,
        ),
{
    reveal_strlit("No user_id specified in request");
    reveal_strlit("not authorized, no token found in Authorization");
    reveal_strlit("Token invalid");
    assert("not authorized, no token found in Authorization"@.len() == 47);
    assert("Token invalid"@.len() == 13);
    assert("No user_id specified in request"@.len() == 31);
}

} // verus!
