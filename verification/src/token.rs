//! Keeping access tokens valid: when a cached token may be used, when it has
//! to be exchanged, and how concurrent requests share one exchange.
//!
//! The exchange itself is a network call and is made by the caller. This
//! module decides before the call and takes the outcome in after it.

use vstd::prelude::*;
use crate::error::SchedulingError;
use crate::pool::{
    deadline, has_id, renewed, with_suspended, AccountPool, IneligibleReason, PoolEntry,
};

verus! {

/// A token is exchanged this many seconds before it expires.
pub const REFRESH_SKEW_SECS: i64 = 60;

/// Seconds for which an account is suspended after a failed exchange.
pub const REFRESH_COOLDOWN_SECS: u32 = 300;

/// The token that expires at `expires_at` can still be used at `now`.
pub open spec fn fresh(expires_at: i64, now: i64) -> bool {
    now < expires_at - REFRESH_SKEW_SECS
}

/// Whether the token that expires at `expires_at` can still be used at `now`.
pub fn is_fresh(expires_at: i64, now: i64) -> (ok: bool)
    ensures
        ok == fresh(expires_at, now),
{
    (now as i128) < expires_at as i128 - REFRESH_SKEW_SECS as i128
}

/// What a request has to do before it uses an account's token.
#[derive(Debug, Clone, Copy, PartialEq, Eq, Structural)]
pub enum TokenDecision {
    /// The cached token is valid: use it, with no call to anyone.
    UseCached,
    /// The token must be exchanged, and this request makes the call.
    Refresh,
    /// Another request is exchanging the token: wait for its outcome.
    Wait,
}

/// The decision for a token that expires at `expires_at`, at time `now`,
/// where `in_flight` says whether an exchange for the account is under way.
pub open spec fn decide(expires_at: i64, in_flight: bool, now: i64) -> TokenDecision {
    if fresh(expires_at, now) {
        TokenDecision::UseCached
    } else if in_flight {
        TokenDecision::Wait
    } else {
        TokenDecision::Refresh
    }
}

/// The accounts whose exchange is under way after a request decided `d` for
/// account `id`.
pub open spec fn gate_after(gate: Set<i64>, id: i64, d: TokenDecision) -> Set<i64> {
    if d == TokenDecision::Refresh {
        gate.insert(id)
    } else {
        gate
    }
}

/// How many of `n` requests, arriving one after another for account `id`
/// before any exchange has come back, are told to make the exchange.
pub open spec fn refreshes_started(gate: Set<i64>, id: i64, expires_at: i64, now: i64, n: nat) -> nat
    decreases n,
{
    if n == 0 {
        0
    } else {
        let d = decide(expires_at, gate.contains(id), now);
        let started: nat = if d == TokenDecision::Refresh {
            1
        } else {
            0
        };
        started + refreshes_started(gate_after(gate, id, d), id, expires_at, now, (n - 1) as nat)
    }
}

/// A fresh token is used as it is, whatever else is going on: no request is
/// told to make an exchange, however often it asks.
pub proof fn fresh_token_needs_no_call(gate: Set<i64>, id: i64, expires_at: i64, now: i64, n: nat)
    requires
        fresh(expires_at, now),
    ensures
        decide(expires_at, gate.contains(id), now) == TokenDecision::UseCached,
        gate_after(gate, id, decide(expires_at, gate.contains(id), now)) == gate,
        refreshes_started(gate, id, expires_at, now, n) == 0,
    decreases n,
{
    if n > 0 {
        fresh_token_needs_no_call(gate, id, expires_at, now, (n - 1) as nat);
    }
}

/// While an exchange for an account is under way, no further request is told
/// to make one.
pub proof fn none_started_while_in_flight(gate: Set<i64>, id: i64, expires_at: i64, now: i64, n: nat)
    requires
        gate.contains(id),
    ensures
        refreshes_started(gate, id, expires_at, now, n) == 0,
    decreases n,
{
    if n > 0 {
        none_started_while_in_flight(gate, id, expires_at, now, (n - 1) as nat);
    }
}

/// Of any number of requests that find the same account in need of an
/// exchange, exactly one is told to make it.
pub proof fn single_flight(gate: Set<i64>, id: i64, expires_at: i64, now: i64, n: nat)
    requires
        n >= 1,
        !fresh(expires_at, now),
        !gate.contains(id),
    ensures
        refreshes_started(gate, id, expires_at, now, n) == 1,
{
    none_started_while_in_flight(gate.insert(id), id, expires_at, now, (n - 1) as nat);
}

/// The accounts for which an exchange is under way.
pub struct RefreshGate {
    in_flight: Vec<i64>,
}

impl RefreshGate {
    /// The ids of the accounts whose exchange is under way.
    pub closed spec fn view(&self) -> Set<i64> {
        Set::new(|id: i64| self.in_flight@.contains(id))
    }

    /// The invariant: each id is stored once.
    pub closed spec fn wf(&self) -> bool {
        forall|i: int, j: int|
            0 <= i < self.in_flight@.len() && 0 <= j < self.in_flight@.len() && i != j
                ==> self.in_flight@[i] != self.in_flight@[j]
    }

    /// A gate with no exchange under way.
    pub fn new() -> (g: Self)
        ensures
            g.wf(),
            g@ == Set::<i64>::empty(),
    {
        let g = RefreshGate { in_flight: Vec::new() };
        proof {
            assert(g@ =~= Set::<i64>::empty());
        }
        g
    }

    fn find(&self, id: i64) -> (at: Option<usize>)
        ensures
            match at {
                Some(i) => i < self.in_flight@.len() && self.in_flight@[i as int] == id,
                None => !self.in_flight@.contains(id),
            },
    {
        let mut i: usize = 0;
        while i < self.in_flight.len()
            invariant
                i <= self.in_flight@.len(),
                forall|j: int| 0 <= j < i ==> self.in_flight@[j] != id,
            decreases self.in_flight@.len() - i,
        {
            if self.in_flight[i] == id {
                return Some(i);
            }
            i += 1;
        }
        None
    }

    /// Whether an exchange for account `id` is under way.
    pub fn in_flight(&self, id: i64) -> (yes: bool)
        ensures
            yes == self@.contains(id),
    {
        self.find(id).is_some()
    }

    /// Decides what a request does before it uses the token that expires at
    /// `expires_at`, and notes the exchange as under way where the request
    /// is told to make it.
    pub fn enter(&mut self, id: i64, expires_at: i64, now: i64) -> (d: TokenDecision)
        requires
            old(self).wf(),
        ensures
            final(self).wf(),
            d == decide(expires_at, old(self)@.contains(id), now),
            final(self)@ == gate_after(old(self)@, id, d),
    {
        if is_fresh(expires_at, now) {
            return TokenDecision::UseCached;
        }
        if self.find(id).is_some() {
            return TokenDecision::Wait;
        }
        self.in_flight.push(id);
        proof {
            let s = old(self).in_flight@;
            let t = self.in_flight@;
            assert forall|x: i64| t.contains(x) <==> (s.contains(x) || x == id) by {
                if t.contains(x) {
                    let i = choose|i: int| 0 <= i < t.len() && t[i] == x;
                    if i < s.len() {
                        assert(s[i] == x);
                    }
                }
                if s.contains(x) {
                    let i = choose|i: int| 0 <= i < s.len() && s[i] == x;
                    assert(t[i] == x);
                }
                if x == id {
                    assert(t[s.len() as int] == x);
                }
            }
            assert(self@ =~= old(self)@.insert(id));
        }
        TokenDecision::Refresh
    }

    /// Notes that the exchange for account `id` has come back.
    pub fn leave(&mut self, id: i64)
        requires
            old(self).wf(),
        ensures
            final(self).wf(),
            final(self)@ == old(self)@.remove(id),
    {
        match self.find(id) {
            Some(i) => {
                let _ = self.in_flight.remove(i);
                proof {
                    let s = old(self).in_flight@;
                    let t = self.in_flight@;
                    assert forall|a: int, b: int|
                        0 <= a < t.len() && 0 <= b < t.len() && a != b implies t[a] != t[b] by {
                        let a0 = if a < i { a } else { a + 1 };
                        let b0 = if b < i { b } else { b + 1 };
                        assert(s[a0] != s[b0]);
                    }
                    assert forall|x: i64| t.contains(x) <==> (s.contains(x) && x != id) by {
                        if t.contains(x) {
                            let a = choose|a: int| 0 <= a < t.len() && t[a] == x;
                            let a0 = if a < i { a } else { a + 1 };
                            assert(s[a0] == x);
                            assert(s[a0] != s[i as int]);
                        }
                        if s.contains(x) && x != id {
                            let a = choose|a: int| 0 <= a < s.len() && s[a] == x;
                            let a1 = if a < i { a } else { a - 1 };
                            assert(t[a1] == x);
                        }
                    }
                    assert(self@ =~= old(self)@.remove(id));
                }
            },
            None => {
                proof {
                    assert(self@ =~= old(self)@.remove(id));
                }
            },
        }
    }
}

/// What a request does next, with the token that it needs for it.
#[derive(Debug)]
pub enum TokenStep {
    /// Use this access token.
    Ready(String),
    /// Exchange this refresh token, then report the outcome.
    Refresh(String),
    /// Wait for the exchange that another request is making.
    Wait,
    /// The pool does not hold the account.
    UnknownAccount,
}

/// The step that decision `d` means for the account of `e`.
pub open spec fn step_for(e: PoolEntry, d: TokenDecision) -> TokenStep {
    match d {
        TokenDecision::UseCached => TokenStep::Ready(e.account.access_token),
        TokenDecision::Refresh => TokenStep::Refresh(e.account.refresh_token),
        TokenDecision::Wait => TokenStep::Wait,
    }
}

/// What a successful exchange returns.
#[derive(Debug)]
pub struct TokenGrant {
    pub access_token: String,
    /// Seconds from now for which the token is valid.
    pub expires_in: u64,
}

/// The time at which a token granted at `now` for `expires_in` seconds
/// expires, held at the largest time that can be written.
pub open spec fn expiry_after(now: i64, expires_in: u64) -> i64 {
    if now + expires_in > i64::MAX {
        i64::MAX
    } else {
        (now + expires_in) as i64
    }
}

/// Makes sure that account `id` has a valid access token, without any call
/// to the outside. A fresh token is handed out as it is. One that needs an
/// exchange is exchanged by the first request that finds it so; the others
/// wait for that request's outcome.
pub fn ensure_valid(pool: &AccountPool, gate: &mut RefreshGate, id: i64, now: i64) -> (step: TokenStep)
    requires
        pool.wf(),
        old(gate).wf(),
    ensures
        final(gate).wf(),
        !has_id(pool@, id) ==> step == TokenStep::UnknownAccount && final(gate)@ == old(gate)@,
        forall|i: int|
            0 <= i < pool@.len() && (#[trigger] pool@[i]).account.id == id ==> {
                let d = decide(pool@[i].account.expires_at, old(gate)@.contains(id), now);
                step == step_for(pool@[i], d) && final(gate)@ == gate_after(old(gate)@, id, d)
            },
{
    match pool.position(id) {
        None => TokenStep::UnknownAccount,
        Some(at) => {
            let e = pool.entry(at);
            match gate.enter(id, e.account.expires_at, now) {
                TokenDecision::UseCached => TokenStep::Ready(e.account.access_token.clone()),
                TokenDecision::Refresh => TokenStep::Refresh(e.account.refresh_token.clone()),
                TokenDecision::Wait => TokenStep::Wait,
            }
        },
    }
}

/// Takes in the outcome of the exchange for account `id`. The exchange is
/// no longer under way. After a grant the account holds the new token with
/// its expiry, and the token is returned. After a failure the account is
/// suspended for [`REFRESH_COOLDOWN_SECS`], so that the scheduler passes on
/// to the next account.
pub fn complete_refresh(
    pool: &mut AccountPool,
    gate: &mut RefreshGate,
    id: i64,
    outcome: Result<TokenGrant, String>,
    now: i64,
) -> (token: Result<String, SchedulingError>)
    requires
        old(pool).wf(),
        old(gate).wf(),
    ensures
        final(pool).wf(),
        final(gate).wf(),
        final(gate)@ == old(gate)@.remove(id),
        match outcome {
            Ok(grant) => {
                &&& final(pool)@.len() == old(pool)@.len()
                &&& forall|i: int|
                    0 <= i < old(pool)@.len() ==> if old(pool)@[i].account.id == id {
                        renewed(
                            old(pool)@[i],
                            #[trigger] final(pool)@[i],
                            grant.access_token@,
                            expiry_after(now, grant.expires_in),
                            now,
                        )
                    } else {
                        final(pool)@[i] == old(pool)@[i]
                    }
                &&& token == if has_id(old(pool)@, id) {
                    Ok::<String, SchedulingError>(grant.access_token)
                } else {
                    Err::<String, SchedulingError>(SchedulingError::TokenRefreshFailed)
                }
            },
            Err(_) => {
                &&& token == Err::<String, SchedulingError>(SchedulingError::TokenRefreshFailed)
                &&& final(pool)@ == with_suspended(
                    old(pool)@,
                    id,
                    IneligibleReason::TokenRefreshFailed,
                    deadline(now, REFRESH_COOLDOWN_SECS),
                )
            },
        },
{
    gate.leave(id);
    match outcome {
        Ok(grant) => {
            let wide: i128 = now as i128 + grant.expires_in as i128;
            let expires_at: i64 = if wide > i64::MAX as i128 {
                i64::MAX
            } else {
                wide as i64
            };
            let token = grant.access_token.clone();
            if pool.set_tokens(id, grant.access_token, expires_at, now) {
                Ok(token)
            } else {
                Err(SchedulingError::TokenRefreshFailed)
            }
        },
        Err(_) => {
            pool.mark_ineligible(id, IneligibleReason::TokenRefreshFailed, now, REFRESH_COOLDOWN_SECS);
            Err(SchedulingError::TokenRefreshFailed)
        },
    }
}

/// A token that was just granted for longer than the skew is fresh: the
/// next request uses it without an exchange.
pub proof fn granted_token_is_fresh(now: i64, expires_in: u64)
    requires
        expires_in > REFRESH_SKEW_SECS,
        now < i64::MAX - REFRESH_SKEW_SECS,
    ensures
        fresh(expiry_after(now, expires_in), now),
{
}

} // verus!
