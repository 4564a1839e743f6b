//! Choosing the account that serves a request.
//!
//! An account can serve when it is active, not suspended, and has room in
//! its quota for the estimated cost. A session that is bound to such an
//! account stays with it; otherwise the configured mode ranks the accounts,
//! and of equally ranked ones the first in sort order is taken.

use vstd::prelude::*;
use crate::affinity::{live_binding, AffinityMap, BindingKey, Bound, SESSION_TTL_SECS};
use crate::error::SchedulingError;
use crate::models::{text_of, ProxyConfig, SchedulingMode};
use crate::pool::{
    cooling, distinct_ids, entry_wf, with_suspended, AccountPool, IneligibleReason, PoolEntry,
};
use crate::quota::{admits, can_admit, is_output_exhausted, output_exhausted};

verus! {

/// The input size that is assumed of a request before it has been read.
pub const DEFAULT_TOKEN_ESTIMATE: u64 = 1024;

/// What the scheduler is told of a request.
#[derive(Debug)]
pub struct RequestContext {
    pub session_key: Option<String>,
    pub model: String,
    /// The input tokens that the request is expected to cost.
    pub estimated_input_tokens: u64,
}

impl RequestContext {
    /// The context of a request for `model`, with the default cost estimate.
    pub fn new(session_key: Option<String>, model: String) -> (ctx: Self)
        ensures
            ctx.session_key == session_key,
            ctx.model == model,
            ctx.estimated_input_tokens == DEFAULT_TOKEN_ESTIMATE,
    {
        RequestContext { session_key, model, estimated_input_tokens: DEFAULT_TOKEN_ESTIMATE }
    }
}

/// The account that was chosen.
#[derive(Debug, Clone, Copy, PartialEq, Eq, Structural)]
pub struct SelectedAccount {
    pub account_id: i64,
    /// The session or its model was served from this account before, and
    /// that is why it was chosen.
    pub reused: bool,
}

/// The account can serve a request of the estimated cost at time `now`.
pub open spec fn eligible(e: PoolEntry, now: i64, estimate: u64) -> bool {
    &&& e.account.is_active
    &&& !cooling(e, now)
    &&& admits(e.quota, estimate)
    &&& !output_exhausted(e.quota)
}

/// Some account of `s` can serve.
pub open spec fn some_eligible(s: Seq<PoolEntry>, now: i64, estimate: u64) -> bool {
    exists|i: int| 0 <= i < s.len() && eligible(#[trigger] s[i], now, estimate)
}

/// Account `id` is in `s` and can serve.
pub open spec fn eligible_id(s: Seq<PoolEntry>, id: i64, now: i64, estimate: u64) -> bool {
    exists|i: int| 0 <= i < s.len() && (#[trigger] s[i]).account.id == id && eligible(s[i], now, estimate)
}

/// The tokens that the account has used, input and output together.
pub open spec fn used_of(e: PoolEntry) -> int {
    e.quota.input_used + e.quota.output_used
}

/// The tokens that the account may use, input and output together, and at
/// least one.
pub open spec fn cap_of(e: PoolEntry) -> int {
    if e.quota.input_quota + e.quota.output_quota < 1 {
        1
    } else {
        e.quota.input_quota + e.quota.output_quota
    }
}

/// `a` has used a smaller share of its quota than `b`: the two fractions
/// `used / cap` compared without dividing.
pub open spec fn lighter(a: PoolEntry, b: PoolEntry) -> bool {
    used_of(a) * cap_of(b) < used_of(b) * cap_of(a)
}

/// The latency by which an account is ranked: its moving average, and zero
/// as long as nothing was observed, so that a new account gets its turn.
pub open spec fn latency_of(e: PoolEntry) -> int {
    match e.latency_ewma_ms {
        Some(ms) => ms as int,
        None => 0,
    }
}

/// Under `mode`, `a` ranks strictly before `b`. Cache-first ranks by sort
/// order alone, so that no account ranks before another here.
pub open spec fn better(mode: SchedulingMode, a: PoolEntry, b: PoolEntry) -> bool {
    match mode {
        SchedulingMode::CacheFirst => false,
        SchedulingMode::Balanced => lighter(a, b),
        SchedulingMode::Performance => latency_of(a) < latency_of(b),
    }
}

/// Among the first `n` entries of `s`, entry `i` is the one that the mode
/// picks: it can serve, none that can serve ranks before it, and it ranks
/// before each one that can serve and stands earlier.
pub open spec fn is_pick_upto(
    s: Seq<PoolEntry>,
    n: int,
    i: int,
    mode: SchedulingMode,
    now: i64,
    estimate: u64,
) -> bool {
    &&& 0 <= i < n <= s.len()
    &&& eligible(s[i], now, estimate)
    &&& forall|j: int|
        0 <= j < n && eligible(#[trigger] s[j], now, estimate) ==> !better(mode, s[j], s[i]) && (j < i
            ==> better(mode, s[i], s[j]))
}

/// Entry `i` is the one that the mode picks among all of `s`.
pub open spec fn is_pick(s: Seq<PoolEntry>, i: int, mode: SchedulingMode, now: i64, estimate: u64) -> bool {
    is_pick_upto(s, s.len() as int, i, mode, now, estimate)
}

/// The place of the entry that the mode picks.
pub open spec fn pick_index(s: Seq<PoolEntry>, mode: SchedulingMode, now: i64, estimate: u64) -> int {
    choose|i: int| is_pick(s, i, mode, now, estimate)
}

/// Why nothing can be selected: no active account, or a model that may not
/// be asked for; else a quota that is used up, where an active account is
/// not suspended; else the failed token exchange for which an account is
/// suspended; else, again, no account.
pub open spec fn failure(s: Seq<PoolEntry>, allowed: bool, now: i64) -> SchedulingError {
    if !allowed || !(exists|i: int| 0 <= i < s.len() && (#[trigger] s[i]).account.is_active) {
        SchedulingError::NoEligibleAccount
    } else if exists|i: int| 0 <= i < s.len() && (#[trigger] s[i]).account.is_active && !cooling(s[i], now) {
        SchedulingError::QuotaExhausted
    } else if exists|i: int|
        0 <= i < s.len() && (#[trigger] s[i]).account.is_active && s[i].cooldown_reason == Some(
            IneligibleReason::TokenRefreshFailed,
        ) {
        SchedulingError::TokenRefreshFailed
    } else {
        SchedulingError::NoEligibleAccount
    }
}

/// The outcome of a selection. `sticky` is the account that the session is
/// bound to, where bindings count; `recent` the one that last served the
/// session and model, where the mode asks for it. Either is taken if it can
/// serve, the first before the second; else the mode picks.
pub open spec fn selection(
    s: Seq<PoolEntry>,
    sticky: Option<i64>,
    recent: Option<i64>,
    mode: SchedulingMode,
    allowed: bool,
    now: i64,
    estimate: u64,
) -> Result<SelectedAccount, SchedulingError> {
    if !allowed || !some_eligible(s, now, estimate) {
        Err(failure(s, allowed, now))
    } else if sticky is Some && eligible_id(s, sticky->0, now, estimate) {
        Ok(SelectedAccount { account_id: sticky->0, reused: true })
    } else if recent is Some && eligible_id(s, recent->0, now, estimate) {
        Ok(SelectedAccount { account_id: recent->0, reused: true })
    } else {
        Ok(SelectedAccount { account_id: s[pick_index(s, mode, now, estimate)].account.id, reused: false })
    }
}

/// The account that the session is bound to at `now`, where bindings count.
pub open spec fn sticky_for(
    m: Map<BindingKey, Bound>,
    stickiness: bool,
    session: Option<Seq<char>>,
    now: i64,
) -> Option<i64> {
    match session {
        Some(k) if stickiness => live_binding(m, (k, None), now),
        _ => None,
    }
}

/// The account that last served the session and model, where the mode is
/// cache-first.
pub open spec fn recent_for(
    m: Map<BindingKey, Bound>,
    mode: SchedulingMode,
    session: Option<Seq<char>>,
    model: Seq<char>,
    now: i64,
) -> Option<i64> {
    match session {
        Some(k) if mode == SchedulingMode::CacheFirst => live_binding(m, (k, Some(model)), now),
        _ => None,
    }
}

/// The bindings after a selection: a session that got an account is bound
/// to it, as a whole and for the model.
pub open spec fn bound_after(
    m: Map<BindingKey, Bound>,
    session: Option<Seq<char>>,
    model: Seq<char>,
    r: Result<SelectedAccount, SchedulingError>,
    now: i64,
) -> Map<BindingKey, Bound> {
    match (r, session) {
        (Ok(sel), Some(k)) => m.insert((k, None), Bound { account_id: sel.account_id, last_used_at: now }).insert(
            (k, Some(model)),
            Bound { account_id: sel.account_id, last_used_at: now },
        ),
        _ => m,
    }
}

/// No account ranks before itself, and of two accounts at most one ranks
/// before the other.
pub proof fn better_is_asymmetric(mode: SchedulingMode, a: PoolEntry, b: PoolEntry)
    ensures
        better(mode, a, b) ==> !better(mode, b, a),
{
}

/// If `a` ranks before `b`, and `c` does not rank before `b`, then `a`
/// ranks before `c`.
pub proof fn better_chains(mode: SchedulingMode, a: PoolEntry, b: PoolEntry, c: PoolEntry)
    requires
        better(mode, a, b),
        !better(mode, c, b),
    ensures
        better(mode, a, c),
{
    if mode == SchedulingMode::Balanced {
        let ua = used_of(a);
        let ub = used_of(b);
        let uc = used_of(c);
        let ca = cap_of(a);
        let cb = cap_of(b);
        let cc = cap_of(c);
        assert(ua * cb < ub * ca);
        assert(ub * cc <= uc * cb);
        assert(ua * cc < uc * ca) by (nonlinear_arith)
            requires
                ua * cb < ub * ca,
                ub * cc <= uc * cb,
                ca >= 1,
                cb >= 1,
                cc >= 1,
        {
            assert((ua * cb) * cc < (ub * ca) * cc);
            assert((ub * cc) * ca <= (uc * cb) * ca);
            assert((ua * cc) * cb < (uc * ca) * cb);
        }
    }
}

/// At most one entry is the pick.
pub proof fn pick_is_unique(s: Seq<PoolEntry>, i: int, j: int, mode: SchedulingMode, now: i64, estimate: u64)
    requires
        is_pick(s, i, mode, now, estimate),
        is_pick(s, j, mode, now, estimate),
    ensures
        i == j,
{
    if i < j {
        assert(better(mode, s[j], s[i]));
        assert(!better(mode, s[j], s[i]));
    } else if j < i {
        assert(better(mode, s[i], s[j]));
        assert(!better(mode, s[i], s[j]));
    }
}

/// What taking one more entry into account does to the pick: entry `n`
/// becomes the pick if it can serve and ranks before the pick so far, or if
/// there is none so far; else the pick stays.
pub proof fn pick_extends(
    s: Seq<PoolEntry>,
    n: int,
    b: int,
    mode: SchedulingMode,
    now: i64,
    estimate: u64,
)
    requires
        0 <= n < s.len(),
        is_pick_upto(s, n, b, mode, now, estimate),
    ensures
        eligible(s[n], now, estimate) && better(mode, s[n], s[b]) ==> is_pick_upto(
            s,
            n + 1,
            n,
            mode,
            now,
            estimate,
        ),
        !(eligible(s[n], now, estimate) && better(mode, s[n], s[b])) ==> is_pick_upto(
            s,
            n + 1,
            b,
            mode,
            now,
            estimate,
        ),
{
    if eligible(s[n], now, estimate) && better(mode, s[n], s[b]) {
        assert forall|j: int| 0 <= j < n + 1 && eligible(#[trigger] s[j], now, estimate) implies !better(
            mode,
            s[j],
            s[n],
        ) && (j < n ==> better(mode, s[n], s[j])) by {
            if j < n {
                better_chains(mode, s[n], s[b], s[j]);
                better_is_asymmetric(mode, s[n], s[j]);
            }
        }
    }
}

/// Where some account can serve, the mode picks one.
pub proof fn pick_exists(s: Seq<PoolEntry>, n: int, mode: SchedulingMode, now: i64, estimate: u64)
    requires
        0 <= n <= s.len(),
        exists|i: int| 0 <= i < n && eligible(#[trigger] s[i], now, estimate),
    ensures
        exists|b: int| is_pick_upto(s, n, b, mode, now, estimate),
    decreases n,
{
    let k = n - 1;
    if exists|i: int| 0 <= i < k && eligible(#[trigger] s[i], now, estimate) {
        pick_exists(s, k, mode, now, estimate);
        let b = choose|b: int| is_pick_upto(s, k, b, mode, now, estimate);
        pick_extends(s, k, b, mode, now, estimate);
        if eligible(s[k], now, estimate) && better(mode, s[k], s[b]) {
            assert(is_pick_upto(s, n, k, mode, now, estimate));
        } else {
            assert(is_pick_upto(s, n, b, mode, now, estimate));
        }
    } else {
        let i = choose|i: int| 0 <= i < n && eligible(#[trigger] s[i], now, estimate);
        assert(i == k);
        assert(is_pick_upto(s, n, k, mode, now, estimate));
    }
}

/// Whether the account can serve a request of the estimated cost at `now`.
pub fn can_serve(e: &PoolEntry, now: i64, estimate: u64) -> (ok: bool)
    ensures
        ok == eligible(*e, now, estimate),
{
    e.account.is_active && !(now < e.cooldown_until) && can_admit(&e.quota, estimate)
        && !is_output_exhausted(&e.quota)
}

/// Whether `a` ranks strictly before `b` under `mode`.
pub fn prefers(mode: SchedulingMode, a: &PoolEntry, b: &PoolEntry) -> (yes: bool)
    requires
        entry_wf(*a),
        entry_wf(*b),
    ensures
        yes == better(mode, *a, *b),
{
    match mode {
        SchedulingMode::CacheFirst => false,
        SchedulingMode::Balanced => {
            let ua: u128 = a.quota.input_used as u128 + a.quota.output_used as u128;
            let ub: u128 = b.quota.input_used as u128 + b.quota.output_used as u128;
            let qa: u128 = a.quota.input_quota as u128 + a.quota.output_quota as u128;
            let qb: u128 = b.quota.input_quota as u128 + b.quota.output_quota as u128;
            let ca: u128 = if qa < 1 { 1 } else { qa };
            let cb: u128 = if qb < 1 { 1 } else { qb };
            assert(ua * cb <= 0xFFFF_FFFF_FFFF_FFFE * 0xFFFF_FFFF_FFFF_FFFE) by (nonlinear_arith)
                requires
                    0 <= ua <= 0xFFFF_FFFF_FFFF_FFFE,
                    0 <= cb <= 0xFFFF_FFFF_FFFF_FFFE,
            ;
            assert(ub * ca <= 0xFFFF_FFFF_FFFF_FFFE * 0xFFFF_FFFF_FFFF_FFFE) by (nonlinear_arith)
                requires
                    0 <= ub <= 0xFFFF_FFFF_FFFF_FFFE,
                    0 <= ca <= 0xFFFF_FFFF_FFFF_FFFE,
            ;
            ua * cb < ub * ca
        },
        SchedulingMode::Performance => {
            let la: u64 = match a.latency_ewma_ms {
                Some(ms) => ms,
                None => 0,
            };
            let lb: u64 = match b.latency_ewma_ms {
                Some(ms) => ms,
                None => 0,
            };
            la < lb
        },
    }
}

/// Selects the account that serves the request, and binds the request's
/// session to it.
///
/// The result is an error exactly where the model may not be asked for or
/// no account can serve. Otherwise the account that the session is bound to
/// is taken if session stickiness is on and the account can serve; else, in
/// cache-first mode, the account that last served the session and model, if
/// it can serve; else the account that the mode picks.
pub fn select(
    pool: &AccountPool,
    cfg: &ProxyConfig,
    affinity: &mut AffinityMap,
    ctx: &RequestContext,
    now: i64,
) -> (r: Result<SelectedAccount, SchedulingError>)
    requires
        pool.wf(),
        old(affinity).wf(),
    ensures
        final(affinity).wf(),
        r == selection(
            pool@,
            sticky_for(old(affinity)@, cfg.session_stickiness, text_of(ctx.session_key), now),
            recent_for(old(affinity)@, cfg.mode_spec(), text_of(ctx.session_key), ctx.model@, now),
            cfg.mode_spec(),
            cfg.allows_spec(ctx.model@),
            now,
            ctx.estimated_input_tokens,
        ),
        final(affinity)@ == bound_after(old(affinity)@, text_of(ctx.session_key), ctx.model@, r, now),
        r is Ok ==> eligible_id(pool@, r->Ok_0.account_id, now, ctx.estimated_input_tokens),
{
    let mode = cfg.mode();
    let allowed = cfg.allows(&ctx.model);
    let estimate = ctx.estimated_input_tokens;
    let ghost s = pool@;
    let (sticky, recent): (Option<i64>, Option<i64>) = match &ctx.session_key {
        Some(k) => {
            let whole: Option<String> = None;
            let sticky = if cfg.session_stickiness {
                affinity.binding_for(k, &whole, now)
            } else {
                None
            };
            let recent = match mode {
                SchedulingMode::CacheFirst => {
                    let for_model: Option<String> = Some(ctx.model.clone());
                    affinity.binding_for(k, &for_model, now)
                },
                _ => None,
            };
            (sticky, recent)
        },
        None => (None, None),
    };
    assert(sticky == sticky_for(affinity@, cfg.session_stickiness, text_of(ctx.session_key), now));
    assert(recent == recent_for(affinity@, mode, text_of(ctx.session_key), ctx.model@, now));

    let mut best: Option<usize> = None;
    let mut sticky_at: Option<usize> = None;
    let mut recent_at: Option<usize> = None;
    let mut active_at: Option<usize> = None;
    let mut ready_at: Option<usize> = None;
    let mut failed_at: Option<usize> = None;
    let n = pool.len();
    let mut i: usize = 0;
    while i < n
        invariant
            s == pool@,
            n == s.len(),
            i <= n,
            pool.wf(),
            match best {
                Some(b) => is_pick_upto(s, i as int, b as int, mode, now, estimate),
                None => forall|j: int| 0 <= j < i ==> !eligible(#[trigger] s[j], now, estimate),
            },
            match sticky_at {
                Some(k) => k < i && sticky == Some(s[k as int].account.id) && eligible(
                    s[k as int],
                    now,
                    estimate,
                ),
                None => forall|j: int|
                    0 <= j < i ==> !(sticky == Some((#[trigger] s[j]).account.id) && eligible(
                        s[j],
                        now,
                        estimate,
                    )),
            },
            match recent_at {
                Some(k) => k < i && recent == Some(s[k as int].account.id) && eligible(
                    s[k as int],
                    now,
                    estimate,
                ),
                None => forall|j: int|
                    0 <= j < i ==> !(recent == Some((#[trigger] s[j]).account.id) && eligible(
                        s[j],
                        now,
                        estimate,
                    )),
            },
            match active_at {
                Some(k) => k < i && s[k as int].account.is_active,
                None => forall|j: int| 0 <= j < i ==> !(#[trigger] s[j]).account.is_active,
            },
            match ready_at {
                Some(k) => k < i && s[k as int].account.is_active && !cooling(s[k as int], now),
                None => forall|j: int|
                    0 <= j < i ==> !((#[trigger] s[j]).account.is_active && !cooling(s[j], now)),
            },
            match failed_at {
                Some(k) => k < i && s[k as int].account.is_active && s[k as int].cooldown_reason == Some(
                    IneligibleReason::TokenRefreshFailed,
                ),
                None => forall|j: int|
                    0 <= j < i ==> !((#[trigger] s[j]).account.is_active && s[j].cooldown_reason == Some(
                        IneligibleReason::TokenRefreshFailed,
                    )),
            },
        decreases n - i,
    {
        let e = pool.entry(i);
        if e.account.is_active {
            if active_at.is_none() {
                active_at = Some(i);
            }
            if ready_at.is_none() && !(now < e.cooldown_until) {
                ready_at = Some(i);
            }
            if failed_at.is_none() {
                match e.cooldown_reason {
                    Some(IneligibleReason::TokenRefreshFailed) => {
                        failed_at = Some(i);
                    },
                    _ => {},
                }
            }
        }
        let ok = can_serve(e, now, estimate);
        if ok {
            if sticky_at.is_none() {
                match sticky {
                    Some(id) => {
                        if id == e.account.id {
                            sticky_at = Some(i);
                        }
                    },
                    None => {},
                }
            }
            if recent_at.is_none() {
                match recent {
                    Some(id) => {
                        if id == e.account.id {
                            recent_at = Some(i);
                        }
                    },
                    None => {},
                }
            }
        }
        match best {
            None => {
                if ok {
                    best = Some(i);
                }
            },
            Some(b) => {
                proof {
                    pick_extends(s, i as int, b as int, mode, now, estimate);
                }
                if ok && prefers(mode, e, pool.entry(b)) {
                    best = Some(i);
                }
            },
        }
        i += 1;
    }
    let picked: Option<(usize, bool)> = if !allowed {
        None
    } else {
        match best {
            None => None,
            Some(b) => match sticky_at {
                Some(k) => Some((k, true)),
                None => match recent_at {
                    Some(k) => Some((k, true)),
                    None => Some((b, false)),
                },
            },
        }
    };
    match picked {
        None => {
            let err = if !allowed || active_at.is_none() {
                SchedulingError::NoEligibleAccount
            } else if ready_at.is_some() {
                SchedulingError::QuotaExhausted
            } else if failed_at.is_some() {
                SchedulingError::TokenRefreshFailed
            } else {
                SchedulingError::NoEligibleAccount
            };
            Err(err)
        },
        Some((k, reused)) => {
            let id = pool.entry(k).account.id;
            proof {
                let b = best->0 as int;
                assert(is_pick(s, b, mode, now, estimate));
                assert(eligible(s[b], now, estimate));
                if !reused {
                    let c = pick_index(s, mode, now, estimate);
                    pick_is_unique(s, b, c, mode, now, estimate);
                }
            }
            match &ctx.session_key {
                Some(key) => {
                    affinity.bind(key.clone(), None, id, now);
                    affinity.bind(key.clone(), Some(ctx.model.clone()), id, now);
                },
                None => {},
            }
            Ok(SelectedAccount { account_id: id, reused })
        },
    }
}

/// Where the model may be asked for and some account can serve, an account
/// is selected, and it is one that can serve.
pub proof fn selection_succeeds(
    s: Seq<PoolEntry>,
    sticky: Option<i64>,
    recent: Option<i64>,
    mode: SchedulingMode,
    now: i64,
    estimate: u64,
)
    requires
        some_eligible(s, now, estimate),
    ensures
        selection(s, sticky, recent, mode, true, now, estimate) is Ok,
        eligible_id(
            s,
            selection(s, sticky, recent, mode, true, now, estimate)->Ok_0.account_id,
            now,
            estimate,
        ),
{
    pick_exists(s, s.len() as int, mode, now, estimate);
    let b = choose|b: int| is_pick_upto(s, s.len() as int, b, mode, now, estimate);
    assert(is_pick(s, b, mode, now, estimate));
    let c = pick_index(s, mode, now, estimate);
    assert(is_pick(s, c, mode, now, estimate));
    assert(eligible(s[c], now, estimate));
}

/// A pool that is empty, or holds inactive accounts only, yields no
/// account, whatever the request.
pub proof fn nothing_selected_without_active_account(
    s: Seq<PoolEntry>,
    sticky: Option<i64>,
    recent: Option<i64>,
    mode: SchedulingMode,
    allowed: bool,
    now: i64,
    estimate: u64,
)
    requires
        forall|i: int| 0 <= i < s.len() ==> !(#[trigger] s[i]).account.is_active,
    ensures
        selection(s, sticky, recent, mode, allowed, now, estimate) == Err::<
            SelectedAccount,
            SchedulingError,
        >(SchedulingError::NoEligibleAccount),
{
}

/// Where an active account is not suspended, but no account has room for
/// the request, the quota is reported as exhausted.
pub proof fn exhausted_quota_is_reported(
    s: Seq<PoolEntry>,
    sticky: Option<i64>,
    recent: Option<i64>,
    mode: SchedulingMode,
    now: i64,
    estimate: u64,
)
    requires
        exists|i: int| 0 <= i < s.len() && (#[trigger] s[i]).account.is_active && !cooling(s[i], now),
        forall|i: int|
            0 <= i < s.len() ==> !admits((#[trigger] s[i]).quota, estimate) || output_exhausted(s[i].quota),
    ensures
        selection(s, sticky, recent, mode, true, now, estimate) == Err::<SelectedAccount, SchedulingError>(
            SchedulingError::QuotaExhausted,
        ),
{
    let i = choose|i: int| 0 <= i < s.len() && (#[trigger] s[i]).account.is_active && !cooling(s[i], now);
    assert(s[i].account.is_active);
}

/// A session stays with its account: once a selection has bound the
/// session to an account, a later selection for the same session, made
/// with session stickiness on and before the binding is idle, names that
/// account again as long as it can serve, whatever else has changed in the
/// pool, the mode or the rest of the request.
pub proof fn bound_session_stays(
    before: Map<BindingKey, Bound>,
    session: Seq<char>,
    model: Seq<char>,
    first: SelectedAccount,
    bound_at: i64,
    s: Seq<PoolEntry>,
    recent: Option<i64>,
    mode: SchedulingMode,
    now: i64,
    estimate: u64,
)
    requires
        now - bound_at <= SESSION_TTL_SECS,
        eligible_id(s, first.account_id, now, estimate),
    ensures
        selection(
            s,
            sticky_for(
                bound_after(before, Some(session), model, Ok(first), bound_at),
                true,
                Some(session),
                now,
            ),
            recent,
            mode,
            true,
            now,
            estimate,
        ) == Ok::<SelectedAccount, SchedulingError>(
            SelectedAccount { account_id: first.account_id, reused: true },
        ),
{
    let after = bound_after(before, Some(session), model, Ok(first), bound_at);
    let whole: BindingKey = (session, None);
    let for_model: BindingKey = (session, Some(model));
    assert(whole != for_model);
    assert(after.contains_key(whole));
    assert(after[whole] == Bound { account_id: first.account_id, last_used_at: bound_at });
    let i = choose|i: int|
        0 <= i < s.len() && (#[trigger] s[i]).account.id == first.account_id && eligible(s[i], now, estimate);
    assert(eligible(s[i], now, estimate));
}

/// A suspension ends by itself: from the time that it was set to end at,
/// the account is no longer held back by it, and can serve if it is active
/// and has room in its quota. The other accounts are never touched.
pub proof fn suspension_ends(
    s: Seq<PoolEntry>,
    id: i64,
    reason: IneligibleReason,
    until: i64,
    now: i64,
    estimate: u64,
)
    requires
        now >= until,
    ensures
        with_suspended(s, id, reason, until).len() == s.len(),
        forall|i: int|
            0 <= i < s.len() ==> {
                let e = #[trigger] with_suspended(s, id, reason, until)[i];
                if s[i].account.id == id {
                    !cooling(e, now) && eligible(e, now, estimate) == (s[i].account.is_active && admits(
                        s[i].quota,
                        estimate,
                    ) && !output_exhausted(s[i].quota))
                } else {
                    e == s[i]
                }
            },
{
}

/// How many accounts of `s` can serve.
pub open spec fn eligible_count(s: Seq<PoolEntry>, now: i64, estimate: u64) -> nat
    decreases s.len(),
{
    if s.len() == 0 {
        0
    } else {
        let rest = eligible_count(s.drop_last(), now, estimate);
        if eligible(s.last(), now, estimate) {
            rest + 1
        } else {
            rest
        }
    }
}

/// Suspending an account that could serve leaves one account less that can
/// serve, so that a request which passes on after each failure has tried
/// every account after as many failures as the pool has accounts.
pub proof fn suspension_leaves_one_less(
    s: Seq<PoolEntry>,
    id: i64,
    reason: IneligibleReason,
    until: i64,
    now: i64,
    estimate: u64,
)
    requires
        distinct_ids(s),
        now < until,
    ensures
        !eligible_id(with_suspended(s, id, reason, until), id, now, estimate),
        eligible_id(s, id, now, estimate) ==> eligible_count(
            with_suspended(s, id, reason, until),
            now,
            estimate,
        ) + 1 == eligible_count(s, now, estimate),
        !eligible_id(s, id, now, estimate) ==> eligible_count(
            with_suspended(s, id, reason, until),
            now,
            estimate,
        ) == eligible_count(s, now, estimate),
        eligible_count(s, now, estimate) <= s.len(),
    decreases s.len(),
{
    let t = with_suspended(s, id, reason, until);
    if s.len() > 0 {
        let rest = s.drop_last();
        suspension_leaves_one_less(rest, id, reason, until, now, estimate);
        assert(t.drop_last() =~= with_suspended(rest, id, reason, until));
        assert(t.last() == t[s.len() - 1]);
        if eligible_id(rest, id, now, estimate) {
            let i = choose|i: int|
                0 <= i < rest.len() && (#[trigger] rest[i]).account.id == id && eligible(rest[i], now, estimate);
            assert(s[i].account.id == id && eligible(s[i], now, estimate));
            assert(s[i].account.id != s[s.len() - 1].account.id);
        } else if eligible_id(s, id, now, estimate) {
            let i = choose|i: int|
                0 <= i < s.len() && (#[trigger] s[i]).account.id == id && eligible(s[i], now, estimate);
            if i < rest.len() {
                assert(rest[i].account.id == id && eligible(rest[i], now, estimate));
            }
        } else {
            if s.last().account.id == id && eligible(s.last(), now, estimate) {
                assert(s[s.len() - 1].account.id == id);
            }
        }
    }
    assert(!eligible_id(t, id, now, estimate)) by {
        if eligible_id(t, id, now, estimate) {
            let i = choose|i: int|
                0 <= i < t.len() && (#[trigger] t[i]).account.id == id && eligible(t[i], now, estimate);
            assert(cooling(t[i], now));
        }
    }
}

/// The ids of the accounts of `s` that can serve, in the order of `s`.
pub open spec fn eligible_ids(s: Seq<PoolEntry>, now: i64, estimate: u64) -> Seq<i64>
    decreases s.len(),
{
    if s.len() == 0 {
        Seq::empty()
    } else if eligible(s.last(), now, estimate) {
        eligible_ids(s.drop_last(), now, estimate).push(s.last().account.id)
    } else {
        eligible_ids(s.drop_last(), now, estimate)
    }
}

/// An id is among the eligible ids exactly if its account is in the pool
/// and can serve.
pub proof fn eligible_ids_are_the_eligible(s: Seq<PoolEntry>, id: i64, now: i64, estimate: u64)
    ensures
        eligible_ids(s, now, estimate).contains(id) <==> eligible_id(s, id, now, estimate),
    decreases s.len(),
{
    if s.len() > 0 {
        let rest = s.drop_last();
        eligible_ids_are_the_eligible(rest, id, now, estimate);
        let ids = eligible_ids(s, now, estimate);
        let before = eligible_ids(rest, now, estimate);
        if eligible_id(s, id, now, estimate) {
            let i = choose|i: int|
                0 <= i < s.len() && (#[trigger] s[i]).account.id == id && eligible(s[i], now, estimate);
            if i < rest.len() {
                assert(rest[i].account.id == id && eligible(rest[i], now, estimate));
                let k = choose|k: int| 0 <= k < before.len() && before[k] == id;
                assert(ids[k] == id);
            } else {
                assert(ids[ids.len() - 1] == id);
            }
        }
        if ids.contains(id) {
            let k = choose|k: int| 0 <= k < ids.len() && ids[k] == id;
            if k < before.len() {
                assert(before[k] == id);
                let i = choose|i: int|
                    0 <= i < rest.len() && (#[trigger] rest[i]).account.id == id && eligible(
                        rest[i],
                        now,
                        estimate,
                    );
                assert(s[i].account.id == id && eligible(s[i], now, estimate));
            } else {
                assert(s[s.len() - 1].account.id == id);
            }
        }
    }
}

/// The ids of the accounts that can serve a request of the estimated cost
/// at `now`.
pub fn usable_ids(pool: &AccountPool, now: i64, estimate: u64) -> (ids: Vec<i64>)
    ensures
        ids@ == eligible_ids(pool@, now, estimate),
{
    let mut ids: Vec<i64> = Vec::new();
    let n = pool.len();
    let mut i: usize = 0;
    while i < n
        invariant
            n == pool@.len(),
            i <= n,
            ids@ == eligible_ids(pool@.take(i as int), now, estimate),
        decreases n - i,
    {
        proof {
            assert(pool@.take(i + 1).drop_last() =~= pool@.take(i as int));
        }
        let e = pool.entry(i);
        if can_serve(e, now, estimate) {
            ids.push(e.account.id);
        }
        i += 1;
    }
    proof {
        assert(pool@.take(n as int) =~= pool@);
    }
    ids
}

} // verus!
