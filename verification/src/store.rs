//! The session registry: the authoritative map from bearer token to session.
//!
//! The registry owns issuance, lookup, invalidation and the expiry sweep.
//! Its mathematical model is a sequence of session records with pairwise
//! distinct tokens and pairwise distinct owners (at most one active session
//! per user), every record carrying `expires_at == issued_at + ttl`
//! (saturating at the top of `u64`).
//!
//! Every operation takes the current time as an explicit argument; the
//! clock-reading convenience methods (`validate_user`, `check_token`,
//! `check_expiry`) read the wall clock once and delegate.

use crate::clock::clock_now_seconds;
use crate::token::{generate_token, is_token_text};
use vstd::prelude::*;

verus! {

broadcast use vstd::seq_lib::group_filter_ensures;

/// The model of one session: the binding of a token to its owning user and
/// its validity window, in whole seconds since the Unix epoch.
pub ghost struct SessionData {
    pub token: Seq<char>,
    pub user_id: i32,
    pub issued_at: u64,
    pub expires_at: u64,
}

/// One stored session record.
struct Session {
    token: String,
    user_id: i32,
    issued_at: u64,
    expires_at: u64,
}

impl View for Session {
    type V = SessionData;

    closed spec fn view(&self) -> SessionData {
        SessionData {
            token: self.token@,
            user_id: self.user_id,
            issued_at: self.issued_at,
            expires_at: self.expires_at,
        }
    }
}

impl Session {
    fn duplicate(&self) -> (r: Session)
        ensures
            r@ == self@,
    {
        Session {
            token: self.token.clone(),
            user_id: self.user_id,
            issued_at: self.issued_at,
            expires_at: self.expires_at,
        }
    }
}

/// The model of a sequence of stored records.
spec fn session_models(v: Seq<Session>) -> Seq<SessionData> {
    v.map_values(|s: Session| s@)
}

/// `a + b`, saturating at `u64::MAX`.
pub open spec fn sat_add(a: u64, b: u64) -> u64 {
    if a + b > u64::MAX {
        u64::MAX
    } else {
        (a + b) as u64
    }
}

/// A session is live at `now` iff its expiry lies strictly in the future.
pub open spec fn live_at(e: SessionData, now: u64) -> bool {
    now < e.expires_at
}

/// No two records share a token.
pub open spec fn unique_tokens(m: Seq<SessionData>) -> bool {
    forall|i: int, j: int| 0 <= i < j < m.len() ==> m[i].token != m[j].token
}

/// No two records share an owner: at most one session per user.
pub open spec fn unique_users(m: Seq<SessionData>) -> bool {
    forall|i: int, j: int| 0 <= i < j < m.len() ==> m[i].user_id != m[j].user_id
}

/// Every record's expiry is its issue time plus the fixed TTL.
pub open spec fn ttl_consistent(m: Seq<SessionData>, ttl: u64) -> bool {
    forall|i: int| 0 <= i < m.len() ==> m[i].expires_at == sat_add(m[i].issued_at, ttl)
}

/// The registry's invariant over its model.
pub open spec fn wf_sessions(m: Seq<SessionData>, ttl: u64) -> bool {
    &&& unique_tokens(m)
    &&& unique_users(m)
    &&& ttl_consistent(m, ttl)
    &&& 1 <= ttl
}

/// The model of `issue`: any prior session of the same user goes away (the
/// at-most-one-session-per-user policy), any prior binding of the same token
/// is replaced, and the new record is appended.
pub open spec fn spec_issue(
    m: Seq<SessionData>,
    user_id: i32,
    tok: Seq<char>,
    now: u64,
    ttl: u64,
) -> Seq<SessionData> {
    m.filter(|e: SessionData| e.user_id != user_id && e.token != tok).push(
        SessionData { token: tok, user_id, issued_at: now, expires_at: sat_add(now, ttl) },
    )
}

/// Whether some record carries the given token.
pub open spec fn has_token(m: Seq<SessionData>, tok: Seq<char>) -> bool {
    exists|i: int| 0 <= i < m.len() && m[i].token == tok
}

/// The index of the record carrying the given token; meaningful only when
/// `has_token` holds and tokens are unique.
pub open spec fn token_index(m: Seq<SessionData>, tok: Seq<char>) -> int {
    choose|i: int| 0 <= i < m.len() && m[i].token == tok
}

/// The model of `validate`: the owning user of a present, still-live
/// session; an expired-but-present record counts as absent.
pub open spec fn spec_validate(m: Seq<SessionData>, tok: Seq<char>, now: u64) -> Option<i32> {
    if has_token(m, tok) && live_at(m[token_index(m, tok)], now) {
        Some(m[token_index(m, tok)].user_id)
    } else {
        None
    }
}

/// The model of `invalidate`: the record carrying the token goes away.
pub open spec fn spec_invalidate(m: Seq<SessionData>, tok: Seq<char>) -> Seq<SessionData> {
    m.filter(|e: SessionData| e.token != tok)
}

/// The model of `invalidate_user`: any record owned by the user goes away.
pub open spec fn spec_invalidate_user(m: Seq<SessionData>, user_id: i32) -> Seq<SessionData> {
    m.filter(|e: SessionData| e.user_id != user_id)
}

/// The model of `sweep_expired`: every record with `expires_at < now` goes
/// away; the rest stay, in order.
pub open spec fn spec_sweep(m: Seq<SessionData>, now: u64) -> Seq<SessionData> {
    m.filter(|e: SessionData| e.expires_at >= now)
}

/// How many records are expired at `now`: exactly those the sweep removes.
pub open spec fn spec_expired_count(m: Seq<SessionData>, now: u64) -> nat {
    m.filter(|e: SessionData| e.expires_at < now).len()
}

/// Every element of a filtered sequence occurs in the original.
pub proof fn lemma_filter_elems(m: Seq<SessionData>, pred: spec_fn(SessionData) -> bool)
    ensures
        forall|k: int|
            0 <= k < m.filter(pred).len() ==> m.contains(#[trigger] m.filter(pred)[k]),
    decreases m.len(),
{
    reveal(Seq::filter);
    if m.len() != 0 {
        let dl = m.drop_last();
        lemma_filter_elems(dl, pred);
        assert forall|k: int|
            0 <= k < m.filter(pred).len() implies m.contains(#[trigger] m.filter(pred)[k]) by {
            if k < dl.filter(pred).len() {
                assert(dl.contains(dl.filter(pred)[k]));
                let j = choose|j: int| 0 <= j < dl.len() && dl[j] == dl.filter(pred)[k];
                assert(m[j] == m.filter(pred)[k]);
            } else {
                assert(m.filter(pred)[k] == m.last());
                assert(m[m.len() - 1] == m.last());
            }
        }
    }
}

/// Filtering preserves distinctness of tokens and of owners.
pub proof fn lemma_filter_unique(m: Seq<SessionData>, pred: spec_fn(SessionData) -> bool)
    requires
        unique_tokens(m),
        unique_users(m),
    ensures
        unique_tokens(m.filter(pred)),
        unique_users(m.filter(pred)),
    decreases m.len(),
{
    reveal(Seq::filter);
    if m.len() != 0 {
        let dl = m.drop_last();
        assert forall|i: int, j: int| 0 <= i < j < dl.len() implies dl[i].token != dl[j].token
            && dl[i].user_id != dl[j].user_id by {
            assert(dl[i] == m[i] && dl[j] == m[j]);
        }
        lemma_filter_unique(dl, pred);
        lemma_filter_elems(dl, pred);
        if pred(m.last()) {
            let f = dl.filter(pred);
            assert forall|k: int| 0 <= k < f.len() implies f[k].token != m.last().token
                && f[k].user_id != m.last().user_id by {
                assert(dl.contains(f[k]));
                let j = choose|j: int| 0 <= j < dl.len() && dl[j] == f[k];
                assert(m[j] == f[k] && m[m.len() - 1] == m.last());
            }
        }
    }
}

/// Extending a prefix by one element extends its filtered image by that
/// element exactly when the element passes the predicate.
pub proof fn lemma_filter_step(m: Seq<SessionData>, pred: spec_fn(SessionData) -> bool, i: int)
    requires
        0 <= i < m.len(),
    ensures
        m.subrange(0, i + 1).filter(pred) == if pred(m[i]) {
            m.subrange(0, i).filter(pred).push(m[i])
        } else {
            m.subrange(0, i).filter(pred)
        },
{
    reveal_with_fuel(Seq::filter, 3);
    let a = m.subrange(0, i);
    let b = seq![m[i]];
    assert(m.subrange(0, i + 1) =~= a + b);
    Seq::filter_distributes_over_add(a, b, pred);
    assert(b.drop_last() =~= Seq::<SessionData>::empty());
    if pred(m[i]) {
        assert(b.filter(pred) =~= seq![m[i]]);
        assert(a.filter(pred) + seq![m[i]] =~= a.filter(pred).push(m[i]));
    } else {
        assert(b.filter(pred) =~= Seq::<SessionData>::empty());
        assert(a.filter(pred) + b.filter(pred) =~= a.filter(pred));
    }
}

/// Dropping records cannot break the registry invariant.
pub proof fn lemma_filter_preserves_wf(
    m: Seq<SessionData>,
    ttl: u64,
    pred: spec_fn(SessionData) -> bool,
)
    requires
        wf_sessions(m, ttl),
    ensures
        wf_sessions(m.filter(pred), ttl),
{
    lemma_filter_unique(m, pred);
    lemma_filter_elems(m, pred);
    let f = m.filter(pred);
    assert forall|a: int| 0 <= a < f.len() implies f[a].expires_at == sat_add(
        f[a].issued_at,
        ttl,
    ) by {
        assert(m.contains(f[a]));
        let j = choose|j: int| 0 <= j < m.len() && m[j] == f[a];
        assert(m[j].expires_at == sat_add(m[j].issued_at, ttl));
    }
}

/// Issuing a session preserves the registry invariant.
pub proof fn lemma_issue_preserves_wf(
    m: Seq<SessionData>,
    user_id: i32,
    tok: Seq<char>,
    now: u64,
    ttl: u64,
)
    requires
        wf_sessions(m, ttl),
    ensures
        wf_sessions(spec_issue(m, user_id, tok, now, ttl), ttl),
{
    let pred = |e: SessionData| e.user_id != user_id && e.token != tok;
    lemma_filter_preserves_wf(m, ttl, pred);
    let f = m.filter(pred);
    let m2 = spec_issue(m, user_id, tok, now, ttl);
    assert forall|a: int, b: int| 0 <= a < b < m2.len() implies m2[a].token != m2[b].token
        && m2[a].user_id != m2[b].user_id by {
        if b < f.len() {
            assert(m2[a] == f[a] && m2[b] == f[b]);
        } else {
            assert(pred(f[a]));
        }
    }
}

/// Failure of `invalidate`: the token to drop is not in the registry. A
/// caller error on the logout path, distinct from a successful removal.
#[derive(Clone, Copy, Debug, PartialEq, Eq, Structural)]
pub enum InvalidateError {
    UnknownTokenOnInvalidate,
}

/// The default session lifetime, in seconds.
pub const DEFAULT_TTL_SECONDS: u64 = 30;

/// The session registry: the authoritative mapping from bearer token to
/// session, with a fixed session lifetime.
pub struct TokenStore {
    sessions: Vec<Session>,
    ttl_seconds: u64,
}

impl View for TokenStore {
    type V = Seq<SessionData>;

    closed spec fn view(&self) -> Seq<SessionData> {
        session_models(self.sessions@)
    }
}

impl TokenStore {
    /// The fixed session lifetime, in seconds.
    pub closed spec fn ttl(&self) -> u64 {
        self.ttl_seconds
    }

    /// The registry's invariant: distinct tokens, at most one session per
    /// user, and every expiry equal to its issue time plus the TTL.
    pub open spec fn wf(&self) -> bool {
        wf_sessions(self@, self.ttl())
    }

    /// An empty registry with the default session lifetime.
    pub fn new() -> (r: TokenStore)
        ensures
            r.wf(),
            r@ == Seq::<SessionData>::empty(),
            r.ttl() == DEFAULT_TTL_SECONDS,
    {
        let r = TokenStore { sessions: Vec::new(), ttl_seconds: DEFAULT_TTL_SECONDS };
        proof {
            assert(r@ =~= Seq::<SessionData>::empty());
        }
        r
    }

    /// An empty registry whose sessions live for `ttl_seconds`.
    pub fn with_ttl(ttl_seconds: u64) -> (r: TokenStore)
        requires
            1 <= ttl_seconds,
        ensures
            r.wf(),
            r@ == Seq::<SessionData>::empty(),
            r.ttl() == ttl_seconds,
    {
        let r = TokenStore { sessions: Vec::new(), ttl_seconds };
        proof {
            assert(r@ =~= Seq::<SessionData>::empty());
        }
        r
    }

    /// Issues a fresh token for `user_id` at time `now`: generates a token,
    /// drops any prior session of that user (at most one session per user)
    /// and any prior binding of the same token text, and records the new
    /// session, live until `now + ttl`. Never fails.
    #[verifier::loop_isolation(false)]
    pub fn issue(&mut self, user_id: i32, now: u64) -> (token: String)
        requires
            old(self).wf(),
        ensures
            final(self).wf(),
            final(self).ttl() == old(self).ttl(),
            final(self)@ == spec_issue(old(self)@, user_id, token@, now, old(self).ttl()),
            is_token_text(token@),
    {
        let token = generate_token();
        let ghost m = self@;
        let ghost pred = |e: SessionData| e.user_id != user_id && e.token != token@;
        let mut kept: Vec<Session> = Vec::new();
        let mut i: usize = 0;
        while i < self.sessions.len()
            invariant
                i <= self.sessions.len(),
                session_models(kept@) == m.subrange(0, i as int).filter(pred),
            decreases self.sessions.len() - i,
        {
            let ghost prev = session_models(kept@);
            let s = &self.sessions[i];
            if s.user_id != user_id && !(s.token == token) {
                kept.push(s.duplicate());
                proof {
                    assert(session_models(kept@) =~= prev.push(m[i as int]));
                }
            }
            proof {
                lemma_filter_step(m, pred, i as int);
            }
            i += 1;
        }
        proof {
            assert(m.subrange(0, m.len() as int) =~= m);
        }
        let expires_at = if now > u64::MAX - self.ttl_seconds {
            u64::MAX
        } else {
            now + self.ttl_seconds
        };
        kept.push(
            Session { token: token.clone(), user_id, issued_at: now, expires_at },
        );
        self.sessions = kept;
        proof {
            assert(self@ =~= spec_issue(m, user_id, token@, now, self.ttl()));
            lemma_issue_preserves_wf(m, user_id, token@, now, self.ttl());
        }
        token
    }

    /// Looks the token up at time `now`: the owning user id if a session
    /// with that token is present and still live, `None` otherwise. An
    /// expired-but-present session counts as absent. Read-only: eviction is
    /// the sweeper's job.
    #[verifier::loop_isolation(false)]
    pub fn validate(&self, token: &str, now: u64) -> (r: Option<i32>)
        requires
            self.wf(),
        ensures
            r == spec_validate(self@, token@, now),
    {
        let t = String::from_str(token);
        let ghost m = self@;
        let mut i: usize = 0;
        while i < self.sessions.len()
            invariant
                i <= self.sessions.len(),
                forall|j: int| 0 <= j < i ==> m[j].token != token@,
            decreases self.sessions.len() - i,
        {
            let s = &self.sessions[i];
            if s.token == t {
                proof {
                    assert(m[i as int].token == token@);
                    let k = token_index(m, token@);
                    assert(0 <= k < m.len() && m[k].token == token@);
                    if k != i as int {
                        assert(m[k].token != m[i as int].token);
                    }
                }
                if now < s.expires_at {
                    return Some(s.user_id);
                } else {
                    return None;
                }
            }
            i += 1;
        }
        proof {
            if has_token(m, token@) {
                let k = choose|k: int| 0 <= k < m.len() && m[k].token == token@;
                assert(m[k].token != token@);
            }
        }
        None
    }

    /// Removes the session for the given token and returns the user id it
    /// belonged to; fails, changing nothing, if the token is unknown.
    #[verifier::loop_isolation(false)]
    pub fn invalidate(&mut self, token: &str) -> (r: Result<i32, InvalidateError>)
        requires
            old(self).wf(),
        ensures
            final(self).wf(),
            final(self).ttl() == old(self).ttl(),
            final(self)@ == spec_invalidate(old(self)@, token@),
            match r {
                Ok(uid) => has_token(old(self)@, token@) && uid == old(self)@[token_index(
                    old(self)@,
                    token@,
                )].user_id,
                Err(e) => !has_token(old(self)@, token@)
                    && e == InvalidateError::UnknownTokenOnInvalidate,
            },
    {
        let t = String::from_str(token);
        let ghost m = self@;
        let ghost pred = |e: SessionData| e.token != token@;
        let mut kept: Vec<Session> = Vec::new();
        let mut found: Option<i32> = None;
        let mut i: usize = 0;
        while i < self.sessions.len()
            invariant
                i <= self.sessions.len(),
                session_models(kept@) == m.subrange(0, i as int).filter(pred),
                match found {
                    Some(uid) => exists|j: int|
                        0 <= j < i && m[j].token == token@ && m[j].user_id == uid,
                    None => forall|j: int| 0 <= j < i ==> m[j].token != token@,
                },
            decreases self.sessions.len() - i,
        {
            let ghost prev = session_models(kept@);
            let s = &self.sessions[i];
            if s.token == t {
                found = Some(s.user_id);
            } else {
                kept.push(s.duplicate());
                proof {
                    assert(session_models(kept@) =~= prev.push(m[i as int]));
                }
            }
            proof {
                lemma_filter_step(m, pred, i as int);
            }
            i += 1;
        }
        proof {
            assert(m.subrange(0, m.len() as int) =~= m);
            lemma_filter_preserves_wf(m, self.ttl(), pred);
        }
        self.sessions = kept;
        match found {
            Some(uid) => {
                proof {
                    let k = token_index(m, token@);
                    let j = choose|j: int|
                        0 <= j < m.len() && m[j].token == token@ && m[j].user_id == uid;
                    if k != j {
                        assert(m[k].token != m[j].token);
                    }
                }
                Ok(uid)
            },
            None => {
                proof {
                    if has_token(m, token@) {
                        let k = choose|k: int| 0 <= k < m.len() && m[k].token == token@;
                        assert(m[k].token != token@);
                    }
                }
                Err(InvalidateError::UnknownTokenOnInvalidate)
            },
        }
    }

    /// Removes any session owned by `user_id`; a no-op if none exists.
    #[verifier::loop_isolation(false)]
    pub fn invalidate_user(&mut self, user_id: i32)
        requires
            old(self).wf(),
        ensures
            final(self).wf(),
            final(self).ttl() == old(self).ttl(),
            final(self)@ == spec_invalidate_user(old(self)@, user_id),
    {
        let ghost m = self@;
        let ghost pred = |e: SessionData| e.user_id != user_id;
        let mut kept: Vec<Session> = Vec::new();
        let mut i: usize = 0;
        while i < self.sessions.len()
            invariant
                i <= self.sessions.len(),
                session_models(kept@) == m.subrange(0, i as int).filter(pred),
            decreases self.sessions.len() - i,
        {
            let ghost prev = session_models(kept@);
            let s = &self.sessions[i];
            if !(s.user_id == user_id) {
                kept.push(s.duplicate());
                proof {
                    assert(session_models(kept@) =~= prev.push(m[i as int]));
                }
            }
            proof {
                lemma_filter_step(m, pred, i as int);
            }
            i += 1;
        }
        proof {
            assert(m.subrange(0, m.len() as int) =~= m);
            lemma_filter_preserves_wf(m, self.ttl(), pred);
        }
        self.sessions = kept;
    }

    /// Scans all sessions and removes every one whose expiry lies strictly
    /// before `now`; returns how many were removed. Sessions not yet expired
    /// are untouched.
    #[verifier::loop_isolation(false)]
    pub fn sweep_expired(&mut self, now: u64) -> (removed: usize)
        requires
            old(self).wf(),
        ensures
            final(self).wf(),
            final(self).ttl() == old(self).ttl(),
            final(self)@ == spec_sweep(old(self)@, now),
            removed == old(self)@.len() - final(self)@.len(),
    {
        let ghost m = self@;
        let ghost pred = |e: SessionData| e.expires_at >= now;
        let mut kept: Vec<Session> = Vec::new();
        let mut i: usize = 0;
        while i < self.sessions.len()
            invariant
                i <= self.sessions.len(),
                kept@.len() <= i,
                session_models(kept@) == m.subrange(0, i as int).filter(pred),
            decreases self.sessions.len() - i,
        {
            let ghost prev = session_models(kept@);
            let s = &self.sessions[i];
            if s.expires_at >= now {
                kept.push(s.duplicate());
                proof {
                    assert(session_models(kept@) =~= prev.push(m[i as int]));
                }
            }
            proof {
                lemma_filter_step(m, pred, i as int);
            }
            i += 1;
        }
        proof {
            assert(m.subrange(0, m.len() as int) =~= m);
            lemma_filter_preserves_wf(m, self.ttl(), pred);
        }
        let removed = self.sessions.len() - kept.len();
        self.sessions = kept;
        removed
    }

    /// Issues a session for a user who has just been authenticated, stamped
    /// with the wall clock. The clock's reading is not knowable in advance,
    /// so the contract holds for some time value.
    pub fn validate_user(&mut self, user_id: i32) -> (token: String)
        requires
            old(self).wf(),
        ensures
            final(self).wf(),
            final(self).ttl() == old(self).ttl(),
            is_token_text(token@),
            exists|now: u64|
                final(self)@ == spec_issue(old(self)@, user_id, token@, now, old(self).ttl()),
    {
        let now = clock_now_seconds();
        let token = self.issue(user_id, now);
        token
    }

    /// Looks a token up against the wall clock. A token with no session is
    /// rejected whatever the clock reads; a hit names the session's owner.
    pub fn check_token(&self, token: &str) -> (r: Option<i32>)
        requires
            self.wf(),
        ensures
            exists|now: u64| r == spec_validate(self@, token@, now),
            !has_token(self@, token@) ==> r is None,
            r is Some ==> has_token(self@, token@) && r == Some(
                self@[token_index(self@, token@)].user_id,
            ),
    {
        let now = clock_now_seconds();
        let r = self.validate(token, now);
        r
    }

    /// Removes the session for the given token, whatever the clock reads,
    /// and returns the user id it belonged to; fails if the token is
    /// unknown.
    pub fn invalidate_token(&mut self, token: String) -> (r: Result<i32, InvalidateError>)
        requires
            old(self).wf(),
        ensures
            final(self).wf(),
            final(self).ttl() == old(self).ttl(),
            final(self)@ == spec_invalidate(old(self)@, token@),
            match r {
                Ok(uid) => has_token(old(self)@, token@) && uid == old(self)@[token_index(
                    old(self)@,
                    token@,
                )].user_id,
                Err(e) => !has_token(old(self)@, token@)
                    && e == InvalidateError::UnknownTokenOnInvalidate,
            },
    {
        self.invalidate(token.as_str())
    }

    /// Sweeps expired sessions against the wall clock and reports how many
    /// were removed.
    pub fn check_expiry(&mut self) -> (removed: usize)
        requires
            old(self).wf(),
        ensures
            final(self).wf(),
            final(self).ttl() == old(self).ttl(),
            exists|now: u64|
                final(self)@ == spec_sweep(old(self)@, now) && removed == old(self)@.len()
                    - final(self)@.len(),
    {
        let now = clock_now_seconds();
        let removed = self.sweep_expired(now);
        removed
    }

    /// How many sessions the registry holds, expired-but-unswept included.
    pub fn session_count(&self) -> (n: usize)
        ensures
            n == self@.len(),
    {
        self.sessions.len()
    }
}

} // verus!
