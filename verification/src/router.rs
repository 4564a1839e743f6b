//! Routing one request: admission, the choice of an account, its token, the
//! outcome of the upstream call, and the one record that is written of it.
//!
//! The calls to the outside (the token exchange, the upstream request) are
//! made by the caller. The router says what to do next and takes in what came
//! back, so that every decision is made here.

use vstd::prelude::*;
use crate::affinity::AffinityMap;
use crate::error::{error_name, lifted, status_of, ProxyError, SchedulingError};
use crate::models::{clone_opt_string, text_of, MonitorLog, ProxyConfig};
use crate::pool::{
    deadline, email_of, has_id, renewed, with_charged, with_observed, with_suspended, AccountPool,
    IneligibleReason, PoolEntry,
};
use crate::affinity::{swept, BindingKey, Bound};
use crate::scheduler::{
    bound_after, eligible_ids, recent_for, select, selection, sticky_for, usable_ids,
    RequestContext, SelectedAccount, DEFAULT_TOKEN_ESTIMATE,
};
use crate::token::{
    complete_refresh, decide, ensure_valid, expiry_after, gate_after, RefreshGate, TokenDecision,
    TokenGrant, TokenStep, REFRESH_COOLDOWN_SECS,
};

verus! {

/// Seconds for which an account is suspended after the upstream API
/// refused its credentials or could not be reached with them.
pub const UPSTREAM_COOLDOWN_SECS: u32 = 60;

/// What the router is told of a request.
#[derive(Debug)]
pub struct InboundRequest {
    pub method: String,
    pub path: String,
    pub model: String,
    pub session_key: Option<String>,
    /// The key that the request presents, if any.
    pub api_key: Option<String>,
}

/// How the upstream call ended.
#[derive(Debug, Clone, Copy, PartialEq, Eq, Structural)]
pub enum UpstreamOutcome {
    /// The upstream API answered, with the token counts of its answer.
    Answered { status: u16, input_tokens: u64, output_tokens: u64 },
    /// The upstream API could not be reached, or did not answer in time.
    Unreachable,
    /// The caller went away before the answer came.
    Cancelled,
}

/// Whether a request that presents `presented` is let in: not while the
/// proxy is switched off, and where a key is configured, only with that key.
pub open spec fn admitted(cfg: ProxyConfig, presented: Option<Seq<char>>) -> Result<(), ProxyError> {
    if !cfg.enabled {
        Err(ProxyError::ConfigDisabled)
    } else if cfg.api_key is Some && presented != Some(cfg.api_key->0@) {
        Err(ProxyError::Unauthorized)
    } else {
        Ok(())
    }
}

/// Whether a request that presents `presented` is let in.
pub fn authorize(cfg: &ProxyConfig, presented: &Option<String>) -> (r: Result<(), ProxyError>)
    ensures
        r == admitted(*cfg, text_of(*presented)),
{
    if !cfg.enabled {
        return Err(ProxyError::ConfigDisabled);
    }
    match &cfg.api_key {
        None => Ok(()),
        Some(key) => match presented {
            Some(given) => {
                if *given == *key {
                    Ok(())
                } else {
                    Err(ProxyError::Unauthorized)
                }
            },
            None => Err(ProxyError::Unauthorized),
        },
    }
}

/// A token count as the log holds it: the count itself, or the largest
/// number that the log can hold.
pub open spec fn logged_count(n: u64) -> i32 {
    if n > i32::MAX {
        i32::MAX
    } else {
        n as i32
    }
}

/// A token count as the log holds it.
pub fn log_count(n: u64) -> (c: i32)
    ensures
        c == logged_count(n),
{
    if n > i32::MAX as u64 {
        i32::MAX
    } else {
        n as i32
    }
}

/// The status, the error and the token counts that are recorded of an
/// upstream outcome: an answer below 400 is a success and carries its
/// counts; any other answer keeps its status and is an error.
pub open spec fn verdict(outcome: UpstreamOutcome) -> (u16, Option<ProxyError>, Option<(i32, i32)>) {
    match outcome {
        UpstreamOutcome::Answered { status, input_tokens, output_tokens } => if status < 400 {
            (status, None, Some((logged_count(input_tokens), logged_count(output_tokens))))
        } else {
            (status, Some(ProxyError::UpstreamRejected), None)
        },
        UpstreamOutcome::Unreachable => (
            status_of(ProxyError::UpstreamUnavailable),
            Some(ProxyError::UpstreamUnavailable),
            None,
        ),
        UpstreamOutcome::Cancelled => (status_of(ProxyError::Cancelled), Some(ProxyError::Cancelled), None),
    }
}

/// The pool after an upstream outcome for account `id`. A success is
/// charged to the account and its latency observed. An answer that refuses
/// the credentials, and an upstream that cannot be reached, suspend the
/// account for a while. Nothing else changes the pool; a cancelled call in
/// particular is not charged.
pub open spec fn settled(
    s: Seq<PoolEntry>,
    id: i64,
    outcome: UpstreamOutcome,
    latency_ms: u32,
    now: i64,
) -> Seq<PoolEntry> {
    match outcome {
        UpstreamOutcome::Answered { status, input_tokens, output_tokens } => if status < 400 {
            with_observed(with_charged(s, id, input_tokens, output_tokens, now), id, latency_ms)
        } else if status == 401 || status == 403 {
            with_suspended(
                s,
                id,
                IneligibleReason::UpstreamRejected,
                deadline(now, UPSTREAM_COOLDOWN_SECS),
            )
        } else {
            s
        },
        UpstreamOutcome::Unreachable => with_suspended(
            s,
            id,
            IneligibleReason::UpstreamUnavailable,
            deadline(now, UPSTREAM_COOLDOWN_SECS),
        ),
        UpstreamOutcome::Cancelled => s,
    }
}

/// `log` is the record of request `req`, ended at `now` with `status`
/// after `latency_ms`, served from the account with `email` if any, with
/// the token counts of a success or the name of the error.
pub open spec fn records(
    log: MonitorLog,
    req: InboundRequest,
    email: Option<String>,
    status: u16,
    latency_ms: u32,
    tokens: Option<(i32, i32)>,
    error: Option<ProxyError>,
    now: i64,
) -> bool {
    &&& log.id == 0
    &&& log.timestamp == now
    &&& log.method == req.method
    &&& log.path == req.path
    &&& log.status_code == status
    &&& log.latency_ms == latency_ms
    &&& log.account_email == email
    &&& log.model == Some(req.model)
    &&& log.input_tokens == match tokens {
        Some(t) => Some(t.0),
        None => None,
    }
    &&& log.output_tokens == match tokens {
        Some(t) => Some(t.1),
        None => None,
    }
    &&& text_of(log.error_message) == match error {
        Some(e) => Some(error_name(e)),
        None => None,
    }
}

/// Writes the record of a request.
pub fn make_log(
    req: &InboundRequest,
    email: Option<String>,
    status: u16,
    latency_ms: u32,
    tokens: Option<(i32, i32)>,
    error: Option<ProxyError>,
    now: i64,
) -> (log: MonitorLog)
    ensures
        records(log, *req, email, status, latency_ms, tokens, error, now),
{
    let (input_tokens, output_tokens): (Option<i32>, Option<i32>) = match tokens {
        Some(t) => (Some(t.0), Some(t.1)),
        None => (None, None),
    };
    let error_message: Option<String> = match error {
        Some(e) => Some(String::from_str(e.name())),
        None => None,
    };
    MonitorLog {
        id: 0,
        timestamp: now,
        method: req.method.clone(),
        path: req.path.clone(),
        status_code: status,
        latency_ms,
        account_email: email,
        model: Some(req.model.clone()),
        input_tokens,
        output_tokens,
        error_message,
    }
}

/// What the caller does next for a request.
#[derive(Debug)]
pub enum Progress {
    /// Send the request upstream with this token, then report the outcome.
    Forward { account_id: i64, access_token: String },
    /// Exchange this refresh token, then report the outcome.
    Exchange { account_id: i64, refresh_token: String },
    /// Wait for the exchange that another request is making for this
    /// account, then begin again.
    Wait { account_id: i64 },
    /// The request is over: answer with the record's status, and store the
    /// record.
    Finished(MonitorLog),
}

/// What decision `d` on the token of `e` makes the caller do.
pub open spec fn progress_for(e: PoolEntry, d: TokenDecision) -> Progress {
    match d {
        TokenDecision::UseCached => Progress::Forward {
            account_id: e.account.id,
            access_token: e.account.access_token,
        },
        TokenDecision::Refresh => Progress::Exchange {
            account_id: e.account.id,
            refresh_token: e.account.refresh_token,
        },
        TokenDecision::Wait => Progress::Wait { account_id: e.account.id },
    }
}

/// The state that requests are routed on.
pub struct Shared {
    pub pool: Seq<PoolEntry>,
    pub bindings: Map<BindingKey, Bound>,
    pub in_flight: Set<i64>,
}

/// The account that is selected for `req` in state `st`.
pub open spec fn selected_for(
    st: Shared,
    cfg: ProxyConfig,
    req: InboundRequest,
    now: i64,
) -> Result<SelectedAccount, SchedulingError> {
    selection(
        st.pool,
        sticky_for(st.bindings, cfg.session_stickiness, text_of(req.session_key), now),
        recent_for(st.bindings, cfg.mode_spec(), text_of(req.session_key), req.model@, now),
        cfg.mode_spec(),
        cfg.allows_spec(req.model@),
        now,
        DEFAULT_TOKEN_ESTIMATE,
    )
}

/// Beginning request `req` in state `before` gives `p` and leaves state
/// `after`.
///
/// A request that is not let in, or for which no account can be selected,
/// is over: its record names the error and no account. Otherwise the
/// session is bound to the selected account, and the account's token
/// decides what comes next.
pub open spec fn begins(
    before: Shared,
    cfg: ProxyConfig,
    req: InboundRequest,
    elapsed_ms: u32,
    now: i64,
    p: Progress,
    after: Shared,
) -> bool {
    match admitted(cfg, text_of(req.api_key)) {
        Err(e) => {
            &&& after == before
            &&& p is Finished
            &&& records(p->Finished_0, req, None, status_of(e), elapsed_ms, None, Some(e), now)
        },
        Ok(_) => {
            let r = selected_for(before, cfg, req, now);
            &&& after.pool == before.pool
            &&& after.bindings == bound_after(before.bindings, text_of(req.session_key), req.model@, r, now)
            &&& match r {
                Err(e) => {
                    &&& after.in_flight == before.in_flight
                    &&& p is Finished
                    &&& records(
                        p->Finished_0,
                        req,
                        None,
                        status_of(lifted(e)),
                        elapsed_ms,
                        None,
                        Some(lifted(e)),
                        now,
                    )
                },
                Ok(sel) => forall|i: int|
                    0 <= i < before.pool.len() && (#[trigger] before.pool[i]).account.id == sel.account_id ==> {
                        let d = decide(
                            before.pool[i].account.expires_at,
                            before.in_flight.contains(sel.account_id),
                            now,
                        );
                        p == progress_for(before.pool[i], d) && after.in_flight == gate_after(
                            before.in_flight,
                            sel.account_id,
                            d,
                        )
                    },
            }
        },
    }
}

/// The router: the pool, the session bindings, the exchanges under way and
/// the proxy's setup.
pub struct Router {
    pub pool: AccountPool,
    pub affinity: AffinityMap,
    pub gate: RefreshGate,
    pub config: ProxyConfig,
}

impl Router {
    /// The invariant of the router: that of each of its parts.
    pub open spec fn wf(&self) -> bool {
        self.pool.wf() && self.affinity.wf() && self.gate.wf()
    }

    /// The state that requests are routed on.
    pub open spec fn shared(&self) -> Shared {
        Shared { pool: self.pool@, bindings: self.affinity@, in_flight: self.gate@ }
    }

    /// A router over `pool`, set up by `config`, with no session bound and
    /// no exchange under way.
    pub fn new(pool: AccountPool, config: ProxyConfig) -> (r: Self)
        requires
            pool.wf(),
        ensures
            r.wf(),
            r.pool == pool,
            r.config == config,
            r.affinity@ == Map::<BindingKey, Bound>::empty(),
            r.gate@ == Set::<i64>::empty(),
    {
        Router { pool, affinity: AffinityMap::new(), gate: RefreshGate::new(), config }
    }

    /// Replaces the proxy's setup; requests that begin from now on see the
    /// new one.
    pub fn reload(&mut self, config: ProxyConfig)
        ensures
            final(self).config == config,
            final(self).pool == old(self).pool,
            final(self).affinity == old(self).affinity,
            final(self).gate == old(self).gate,
    {
        self.config = config;
    }

    /// Removes the session bindings that are idle at `now`, and those of
    /// accounts that cannot serve at `now`. It is meant to be called from
    /// time to time, so that the bindings do not pile up.
    pub fn sweep(&mut self, now: i64)
        requires
            old(self).wf(),
        ensures
            final(self).wf(),
            final(self).config == old(self).config,
            final(self).pool@ == old(self).pool@,
            final(self).gate@ == old(self).gate@,
            final(self).affinity@ == swept(
                old(self).affinity@,
                eligible_ids(old(self).pool@, now, DEFAULT_TOKEN_ESTIMATE),
                now,
            ),
    {
        let usable = usable_ids(&self.pool, now, DEFAULT_TOKEN_ESTIMATE);
        self.affinity.sweep(&usable, now);
    }

    /// Begins a request: lets it in, selects its account and looks at the
    /// account's token. `elapsed_ms` is the time that the request has taken
    /// so far, which is recorded if the request ends here.
    pub fn begin(&mut self, req: &InboundRequest, elapsed_ms: u32, now: i64) -> (p: Progress)
        requires
            old(self).wf(),
        ensures
            final(self).wf(),
            final(self).config == old(self).config,
            begins(old(self).shared(), old(self).config, *req, elapsed_ms, now, p, final(self).shared()),
    {
        match authorize(&self.config, &req.api_key) {
            Err(e) => {
                return Progress::Finished(make_log(req, None, e.status(), elapsed_ms, None, Some(e), now));
            },
            Ok(_) => {},
        }
        let ctx = RequestContext::new(clone_opt_string(&req.session_key), req.model.clone());
        match select(&self.pool, &self.config, &mut self.affinity, &ctx, now) {
            Err(e) => {
                let e = e.lift();
                Progress::Finished(make_log(req, None, e.status(), elapsed_ms, None, Some(e), now))
            },
            Ok(sel) => {
                let id = sel.account_id;
                match ensure_valid(&self.pool, &mut self.gate, id, now) {
                    TokenStep::Ready(access_token) => Progress::Forward { account_id: id, access_token },
                    TokenStep::Refresh(refresh_token) => Progress::Exchange {
                        account_id: id,
                        refresh_token,
                    },
                    TokenStep::Wait => Progress::Wait { account_id: id },
                    TokenStep::UnknownAccount => {
                        // Not reached: the selected account is one of the pool.
                        proof {
                            let i = choose|i: int|
                                0 <= i < self.pool@.len() && (#[trigger] self.pool@[i]).account.id == id;
                            assert(has_id(self.pool@, id));
                            assert(false);
                        }
                        Progress::Wait { account_id: id }
                    },
                }
            },
        }
    }

    /// Takes in the outcome of the token exchange for `account_id`, which
    /// this request was told to make. After a grant the request goes
    /// upstream with the new token. After a failure the account is
    /// suspended, and the request begins again with the accounts that are
    /// left.
    pub fn after_exchange(
        &mut self,
        req: &InboundRequest,
        account_id: i64,
        outcome: Result<TokenGrant, String>,
        elapsed_ms: u32,
        now: i64,
    ) -> (p: Progress)
        requires
            old(self).wf(),
        ensures
            final(self).wf(),
            final(self).config == old(self).config,
            outcome is Ok && has_id(old(self).pool@, account_id) ==> {
                &&& p == Progress::Forward { account_id, access_token: outcome->Ok_0.access_token }
                &&& final(self).affinity@ == old(self).affinity@
                &&& final(self).gate@ == old(self).gate@.remove(account_id)
                &&& final(self).pool@.len() == old(self).pool@.len()
                &&& forall|i: int|
                    0 <= i < old(self).pool@.len() ==> if old(self).pool@[i].account.id == account_id {
                        renewed(
                            old(self).pool@[i],
                            #[trigger] final(self).pool@[i],
                            outcome->Ok_0.access_token@,
                            expiry_after(now, outcome->Ok_0.expires_in),
                            now,
                        )
                    } else {
                        final(self).pool@[i] == old(self).pool@[i]
                    }
            },
            outcome is Err ==> begins(
                Shared {
                    pool: with_suspended(
                        old(self).pool@,
                        account_id,
                        IneligibleReason::TokenRefreshFailed,
                        deadline(now, REFRESH_COOLDOWN_SECS),
                    ),
                    bindings: old(self).affinity@,
                    in_flight: old(self).gate@.remove(account_id),
                },
                old(self).config,
                *req,
                elapsed_ms,
                now,
                p,
                final(self).shared(),
            ),
            outcome is Ok && !has_id(old(self).pool@, account_id) ==> begins(
                Shared {
                    pool: old(self).pool@,
                    bindings: old(self).affinity@,
                    in_flight: old(self).gate@.remove(account_id),
                },
                old(self).config,
                *req,
                elapsed_ms,
                now,
                p,
                final(self).shared(),
            ),
    {
        match complete_refresh(&mut self.pool, &mut self.gate, account_id, outcome, now) {
            Ok(access_token) => Progress::Forward { account_id, access_token },
            Err(_) => {
                proof {
                    if outcome is Ok {
                        assert(self.pool@ =~= old(self).pool@);
                    }
                }
                self.begin(req, elapsed_ms, now)
            },
        }
    }

    /// Takes in how the upstream call with `account_id` ended, after
    /// `latency_ms`, and writes the request's record. A success is charged
    /// to the account's quota and its latency is observed.
    pub fn after_upstream(
        &mut self,
        req: &InboundRequest,
        account_id: i64,
        outcome: UpstreamOutcome,
        latency_ms: u32,
        now: i64,
    ) -> (log: MonitorLog)
        requires
            old(self).wf(),
        ensures
            final(self).wf(),
            final(self).config == old(self).config,
            final(self).affinity@ == old(self).affinity@,
            final(self).gate@ == old(self).gate@,
            final(self).pool@ == settled(old(self).pool@, account_id, outcome, latency_ms, now),
            records(
                log,
                *req,
                email_of(old(self).pool@, account_id),
                verdict(outcome).0,
                latency_ms,
                verdict(outcome).2,
                verdict(outcome).1,
                now,
            ),
    {
        let email = self.pool.email(account_id);
        match outcome {
            UpstreamOutcome::Answered { status, input_tokens, output_tokens } => {
                if status < 400 {
                    self.pool.commit(account_id, input_tokens, output_tokens, now);
                    self.pool.record_latency(account_id, latency_ms);
                    let tokens = Some((log_count(input_tokens), log_count(output_tokens)));
                    make_log(req, email, status, latency_ms, tokens, None, now)
                } else {
                    if status == 401 || status == 403 {
                        self.pool.mark_ineligible(
                            account_id,
                            IneligibleReason::UpstreamRejected,
                            now,
                            UPSTREAM_COOLDOWN_SECS,
                        );
                    }
                    make_log(req, email, status, latency_ms, None, Some(ProxyError::UpstreamRejected), now)
                }
            },
            UpstreamOutcome::Unreachable => {
                self.pool.mark_ineligible(
                    account_id,
                    IneligibleReason::UpstreamUnavailable,
                    now,
                    UPSTREAM_COOLDOWN_SECS,
                );
                let e = ProxyError::UpstreamUnavailable;
                make_log(req, email, e.status(), latency_ms, None, Some(e), now)
            },
            UpstreamOutcome::Cancelled => {
                let e = ProxyError::Cancelled;
                make_log(req, email, e.status(), latency_ms, None, Some(e), now)
            },
        }
    }
}

/// A request that is not let in, or for which no account can be selected,
/// ends where it begins, with a record that names no account and does name
/// the error.
pub proof fn refused_request_is_recorded(
    before: Shared,
    cfg: ProxyConfig,
    req: InboundRequest,
    elapsed_ms: u32,
    now: i64,
    p: Progress,
    after: Shared,
)
    requires
        begins(before, cfg, req, elapsed_ms, now, p, after),
        admitted(cfg, text_of(req.api_key)) is Err || selected_for(before, cfg, req, now) is Err,
    ensures
        p is Finished,
        p->Finished_0.account_email is None,
        p->Finished_0.error_message is Some,
        p->Finished_0.status_code >= 400,
        p->Finished_0.input_tokens is None && p->Finished_0.output_tokens is None,
        after.pool == before.pool,
        after.in_flight == before.in_flight,
{
}

/// Where the upstream call was made, the request's record says how it
/// ended: a success carries the token counts and no error, anything else
/// an error and no counts.
pub proof fn forwarded_request_is_recorded(
    log: MonitorLog,
    req: InboundRequest,
    email: Option<String>,
    outcome: UpstreamOutcome,
    latency_ms: u32,
    now: i64,
)
    requires
        records(log, req, email, verdict(outcome).0, latency_ms, verdict(outcome).2, verdict(outcome).1, now),
    ensures
        (log.error_message is None) == (outcome is Answered && outcome->status < 400),
        (log.input_tokens is Some) == (log.error_message is None),
        (log.output_tokens is Some) == (log.error_message is None),
        log.error_message is Some ==> log.status_code >= 400,
{
}

} // verus!
