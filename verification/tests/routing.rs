use better_manager::error::{ProxyError, SchedulingError};
use better_manager::models::{Account, MonitorLog, ProxyConfig, QuotaInfo};
use better_manager::pool::{AccountPool, IneligibleReason};
use better_manager::router::{
    authorize, log_count, make_log, InboundRequest, Progress, Router, UpstreamOutcome,
    UPSTREAM_COOLDOWN_SECS,
};
use better_manager::scheduler::usable_ids;
use better_manager::token::{
    complete_refresh, ensure_valid, is_fresh, RefreshGate, TokenDecision, TokenGrant, TokenStep,
    REFRESH_COOLDOWN_SECS, REFRESH_SKEW_SECS,
};

fn account(id: i64, sort_order: i32, expires_at: i64) -> Account {
    Account {
        id,
        email: format!("user{}@example.com", id),
        display_name: None,
        photo_url: None,
        access_token: format!("access-{}", id),
        refresh_token: format!("refresh-{}", id),
        expires_at,
        is_active: true,
        sort_order,
        created_at: 0,
        updated_at: 0,
    }
}

fn open_quota(id: i64) -> QuotaInfo {
    QuotaInfo { account_id: id, input_quota: 0, input_used: 0, output_quota: 0, output_used: 0, updated_at: 0 }
}

fn enabled_config() -> ProxyConfig {
    let mut cfg = ProxyConfig::default();
    cfg.enabled = true;
    cfg
}

fn request(session: Option<&str>) -> InboundRequest {
    InboundRequest {
        method: "POST".to_string(),
        path: "/v1/generate".to_string(),
        model: "gemini".to_string(),
        session_key: session.map(|s| s.to_string()),
        api_key: None,
    }
}

fn finished(p: Progress) -> MonitorLog {
    match p {
        Progress::Finished(log) => log,
        other => panic!("the request is not over: {:?}", other),
    }
}

#[test]
fn fresh_token_is_used_without_an_exchange() {
    let mut pool = AccountPool::new();
    assert!(pool.insert(account(1, 0, 1000), open_quota(1)));
    let mut gate = RefreshGate::new();
    for _ in 0..2 {
        match ensure_valid(&pool, &mut gate, 1, 939) {
            TokenStep::Ready(token) => assert_eq!(token, "access-1"),
            other => panic!("unexpected step {:?}", other),
        }
        assert!(!gate.in_flight(1));
    }
}

#[test]
fn token_is_exchanged_from_sixty_seconds_before_expiry() {
    assert_eq!(REFRESH_SKEW_SECS, 60);
    assert!(is_fresh(1000, 939));
    assert!(!is_fresh(1000, 940));
    assert!(!is_fresh(1000, 2000));
    assert!(!is_fresh(i64::MIN, 0));
    assert!(is_fresh(i64::MAX, i64::MAX - 61));
}

#[test]
fn concurrent_requests_share_one_exchange() {
    let mut pool = AccountPool::new();
    assert!(pool.insert(account(1, 0, 1000), open_quota(1)));
    assert!(pool.insert(account(2, 1, 1000), open_quota(2)));
    let mut gate = RefreshGate::new();
    let mut exchanges = 0;
    let mut waits = 0;
    for _ in 0..5 {
        match ensure_valid(&pool, &mut gate, 1, 5000) {
            TokenStep::Refresh(token) => {
                assert_eq!(token, "refresh-1");
                exchanges += 1;
            },
            TokenStep::Wait => waits += 1,
            other => panic!("unexpected step {:?}", other),
        }
    }
    assert_eq!((exchanges, waits), (1, 4));
    // another account is exchanged on its own
    assert!(matches!(ensure_valid(&pool, &mut gate, 2, 5000), TokenStep::Refresh(_)));
    assert!(matches!(ensure_valid(&pool, &mut gate, 9, 5000), TokenStep::UnknownAccount));
    // once the exchange is back, the new token serves everyone
    let grant = TokenGrant { access_token: "new".to_string(), expires_in: 3600 };
    assert_eq!(complete_refresh(&mut pool, &mut gate, 1, Ok(grant), 5000), Ok("new".to_string()));
    assert!(!gate.in_flight(1));
    assert!(gate.in_flight(2));
    assert_eq!(pool.entry(0).account.expires_at, 8600);
    assert_eq!(pool.entry(0).account.updated_at, 5000);
    match ensure_valid(&pool, &mut gate, 1, 5001) {
        TokenStep::Ready(token) => assert_eq!(token, "new"),
        other => panic!("unexpected step {:?}", other),
    }
}

#[test]
fn gate_decides_by_freshness_and_flight() {
    let mut gate = RefreshGate::new();
    assert_eq!(gate.enter(1, 1000, 0), TokenDecision::UseCached);
    assert!(!gate.in_flight(1));
    assert_eq!(gate.enter(1, 1000, 990), TokenDecision::Refresh);
    assert_eq!(gate.enter(1, 1000, 990), TokenDecision::Wait);
    assert_eq!(gate.enter(1, 1000, 0), TokenDecision::UseCached);
    gate.leave(1);
    gate.leave(7);
    assert_eq!(gate.enter(1, 1000, 990), TokenDecision::Refresh);
}

#[test]
fn failed_exchange_suspends_the_account() {
    let mut pool = AccountPool::new();
    assert!(pool.insert(account(1, 0, 0), open_quota(1)));
    let mut gate = RefreshGate::new();
    assert!(matches!(ensure_valid(&pool, &mut gate, 1, 100), TokenStep::Refresh(_)));
    let r = complete_refresh(&mut pool, &mut gate, 1, Err("invalid_grant".to_string()), 100);
    assert_eq!(r, Err(SchedulingError::TokenRefreshFailed));
    assert!(!gate.in_flight(1));
    assert_eq!(pool.entry(0).cooldown_reason, Some(IneligibleReason::TokenRefreshFailed));
    assert_eq!(pool.entry(0).cooldown_until, 100 + REFRESH_COOLDOWN_SECS as i64);
    assert_eq!(pool.entry(0).account.access_token, "access-1");
}

#[test]
fn grant_expiry_stops_at_the_largest_time() {
    let mut pool = AccountPool::new();
    assert!(pool.insert(account(1, 0, 0), open_quota(1)));
    let mut gate = RefreshGate::new();
    let grant = TokenGrant { access_token: "t".to_string(), expires_in: u64::MAX };
    assert!(complete_refresh(&mut pool, &mut gate, 1, Ok(grant), 100).is_ok());
    assert_eq!(pool.entry(0).account.expires_at, i64::MAX);
    let grant = TokenGrant { access_token: "t".to_string(), expires_in: 10 };
    assert_eq!(
        complete_refresh(&mut pool, &mut gate, 5, Ok(grant), 100),
        Err(SchedulingError::TokenRefreshFailed)
    );
}

#[test]
fn failover_passes_on_to_the_next_account() {
    let mut pool = AccountPool::new();
    assert!(pool.insert(account(1, 0, 50), open_quota(1)));
    assert!(pool.insert(account(2, 1, 10_000), open_quota(2)));
    let mut router = Router::new(pool, enabled_config());
    let req = request(None);
    let step = router.begin(&req, 0, 100);
    let (id, refresh_token) = match step {
        Progress::Exchange { account_id, refresh_token } => (account_id, refresh_token),
        other => panic!("unexpected step {:?}", other),
    };
    assert_eq!((id, refresh_token.as_str()), (1, "refresh-1"));
    let next = router.after_exchange(&req, 1, Err("invalid_grant".to_string()), 3, 100);
    match next {
        Progress::Forward { account_id, access_token } => {
            assert_eq!(account_id, 2);
            assert_eq!(access_token, "access-2");
        },
        other => panic!("unexpected step {:?}", other),
    }
    assert_eq!(router.pool.entry(0).cooldown_reason, Some(IneligibleReason::TokenRefreshFailed));
    assert_eq!(router.pool.entry(0).cooldown_until, 400);
    assert_eq!(router.pool.entry(1).cooldown_reason, None);
    assert!(!router.gate.in_flight(1));
}

#[test]
fn failed_exchange_of_the_last_account_ends_the_request() {
    let mut pool = AccountPool::new();
    assert!(pool.insert(account(1, 0, 50), open_quota(1)));
    let mut router = Router::new(pool, enabled_config());
    let req = request(Some("s"));
    assert!(matches!(router.begin(&req, 0, 100), Progress::Exchange { account_id: 1, .. }));
    let log = finished(router.after_exchange(&req, 1, Err("revoked".to_string()), 12, 100));
    assert_eq!(log.status_code, 502);
    assert_eq!(log.latency_ms, 12);
    assert_eq!(log.account_email, None);
    assert_eq!(log.error_message, Some("token refresh failed".to_string()));
}

#[test]
fn granted_exchange_goes_upstream_with_the_new_token() {
    let mut pool = AccountPool::new();
    assert!(pool.insert(account(1, 0, 50), open_quota(1)));
    let mut router = Router::new(pool, enabled_config());
    let req = request(None);
    assert!(matches!(router.begin(&req, 0, 100), Progress::Exchange { account_id: 1, .. }));
    assert!(matches!(router.begin(&req, 0, 100), Progress::Wait { account_id: 1 }));
    let grant = TokenGrant { access_token: "fresh".to_string(), expires_in: 3600 };
    match router.after_exchange(&req, 1, Ok(grant), 0, 100) {
        Progress::Forward { account_id, access_token } => {
            assert_eq!((account_id, access_token.as_str()), (1, "fresh"));
        },
        other => panic!("unexpected step {:?}", other),
    }
    assert_eq!(router.pool.entry(0).account.access_token, "fresh");
    assert_eq!(router.pool.entry(0).account.expires_at, 3700);
    assert!(matches!(router.begin(&req, 0, 101), Progress::Forward { account_id: 1, .. }));
}

#[test]
fn pool_exhaustion_is_recorded_without_an_account() {
    let mut pool = AccountPool::new();
    let q = QuotaInfo { account_id: 1, input_quota: 100, input_used: 100, output_quota: 0, output_used: 0, updated_at: 0 };
    assert!(pool.insert(account(1, 0, 10_000), q));
    let mut router = Router::new(pool, enabled_config());
    let log = finished(router.begin(&request(Some("s")), 7, 1234));
    assert_eq!(log.account_email, None);
    assert_eq!(log.error_message, Some("quota exhausted".to_string()));
    assert_eq!(log.status_code, 429);
    assert_eq!(log.timestamp, 1234);
    assert_eq!(log.latency_ms, 7);
    assert_eq!(log.method, "POST");
    assert_eq!(log.path, "/v1/generate");
    assert_eq!(log.model, Some("gemini".to_string()));
    assert_eq!((log.input_tokens, log.output_tokens), (None, None));
    assert_eq!(router.affinity.len(), 0);

    let mut empty = Router::new(AccountPool::new(), enabled_config());
    let log = finished(empty.begin(&request(None), 0, 5));
    assert_eq!(log.account_email, None);
    assert_eq!(log.error_message, Some("no eligible account".to_string()));
    assert_eq!(log.status_code, 503);
}

#[test]
fn disabled_proxy_and_wrong_key_end_the_request() {
    let mut pool = AccountPool::new();
    assert!(pool.insert(account(1, 0, 10_000), open_quota(1)));
    let mut router = Router::new(pool, ProxyConfig::default());
    let log = finished(router.begin(&request(None), 0, 5));
    assert_eq!(log.status_code, 503);
    assert_eq!(log.error_message, Some("proxy disabled".to_string()));
    assert_eq!(log.account_email, None);

    let mut cfg = enabled_config();
    cfg.api_key = Some("secret".to_string());
    router.reload(cfg);
    let log = finished(router.begin(&request(None), 0, 5));
    assert_eq!(log.status_code, 401);
    assert_eq!(log.error_message, Some("invalid api key".to_string()));
    let mut req = request(None);
    req.api_key = Some("secret".to_string());
    assert!(matches!(router.begin(&req, 0, 5), Progress::Forward { account_id: 1, .. }));
}

#[test]
fn authorize_checks_the_switch_before_the_key() {
    let mut cfg = ProxyConfig::default();
    cfg.api_key = Some("k".to_string());
    assert_eq!(authorize(&cfg, &Some("k".to_string())), Err(ProxyError::ConfigDisabled));
    cfg.enabled = true;
    assert_eq!(authorize(&cfg, &Some("k".to_string())), Ok(()));
    assert_eq!(authorize(&cfg, &Some("K".to_string())), Err(ProxyError::Unauthorized));
    assert_eq!(authorize(&cfg, &None), Err(ProxyError::Unauthorized));
    cfg.api_key = None;
    assert_eq!(authorize(&cfg, &None), Ok(()));
    assert_eq!(authorize(&cfg, &Some("anything".to_string())), Ok(()));
}

#[test]
fn success_is_charged_and_recorded() {
    let mut pool = AccountPool::new();
    let q = QuotaInfo { account_id: 1, input_quota: 10_000, input_used: 10, output_quota: 10_000, output_used: 20, updated_at: 0 };
    assert!(pool.insert(account(1, 0, 10_000), q));
    let mut router = Router::new(pool, enabled_config());
    let req = request(Some("s"));
    assert!(matches!(router.begin(&req, 0, 100), Progress::Forward { account_id: 1, .. }));
    let outcome = UpstreamOutcome::Answered { status: 200, input_tokens: 5, output_tokens: 7 };
    let log = router.after_upstream(&req, 1, outcome, 250, 101);
    assert_eq!(log.status_code, 200);
    assert_eq!(log.account_email, Some("user1@example.com".to_string()));
    assert_eq!((log.input_tokens, log.output_tokens), (Some(5), Some(7)));
    assert_eq!(log.error_message, None);
    assert_eq!(log.latency_ms, 250);
    assert_eq!(log.timestamp, 101);
    let e = router.pool.entry(0);
    assert_eq!((e.quota.input_used, e.quota.output_used), (15, 27));
    assert_eq!(e.latency_ewma_ms, Some(250));
    assert_eq!(e.cooldown_reason, None);
}

#[test]
fn refused_credentials_suspend_the_account() {
    for status in [401u16, 403] {
        let mut pool = AccountPool::new();
        assert!(pool.insert(account(1, 0, 10_000), open_quota(1)));
        let mut router = Router::new(pool, enabled_config());
        let req = request(None);
        let outcome = UpstreamOutcome::Answered { status, input_tokens: 5, output_tokens: 7 };
        let log = router.after_upstream(&req, 1, outcome, 30, 100);
        assert_eq!(log.status_code, status);
        assert_eq!(log.error_message, Some("upstream rejected the request".to_string()));
        assert_eq!((log.input_tokens, log.output_tokens), (None, None));
        let e = router.pool.entry(0);
        assert_eq!(e.cooldown_reason, Some(IneligibleReason::UpstreamRejected));
        assert_eq!(e.cooldown_until, 100 + UPSTREAM_COOLDOWN_SECS as i64);
        assert_eq!((e.quota.input_used, e.quota.output_used), (0, 0));
        assert_eq!(e.latency_ewma_ms, None);
    }
}

#[test]
fn other_upstream_errors_change_nothing() {
    let mut pool = AccountPool::new();
    assert!(pool.insert(account(1, 0, 10_000), open_quota(1)));
    let mut router = Router::new(pool, enabled_config());
    let req = request(None);
    for status in [400u16, 404, 429, 500] {
        let outcome = UpstreamOutcome::Answered { status, input_tokens: 5, output_tokens: 7 };
        let log = router.after_upstream(&req, 1, outcome, 30, 100);
        assert_eq!(log.status_code, status);
        assert_eq!(log.error_message, Some("upstream rejected the request".to_string()));
    }
    let e = router.pool.entry(0);
    assert_eq!(e.cooldown_reason, None);
    assert_eq!((e.quota.input_used, e.quota.output_used), (0, 0));
    // 399 still counts as a success
    let outcome = UpstreamOutcome::Answered { status: 399, input_tokens: 1, output_tokens: 1 };
    assert_eq!(router.after_upstream(&req, 1, outcome, 30, 100).error_message, None);
}

#[test]
fn unreachable_upstream_suspends_and_cancellation_does_not_charge() {
    let mut pool = AccountPool::new();
    assert!(pool.insert(account(1, 0, 10_000), open_quota(1)));
    let mut router = Router::new(pool, enabled_config());
    let req = request(None);
    let log = router.after_upstream(&req, 1, UpstreamOutcome::Cancelled, 30, 100);
    assert_eq!(log.status_code, 499);
    assert_eq!(log.error_message, Some("cancelled by the caller".to_string()));
    assert_eq!(log.account_email, Some("user1@example.com".to_string()));
    assert_eq!(router.pool.entry(0).cooldown_reason, None);
    assert_eq!(router.pool.entry(0).quota.input_used, 0);
    let log = router.after_upstream(&req, 1, UpstreamOutcome::Unreachable, 30_000, 100);
    assert_eq!(log.status_code, 504);
    assert_eq!(log.error_message, Some("upstream unavailable".to_string()));
    assert_eq!(router.pool.entry(0).cooldown_reason, Some(IneligibleReason::UpstreamUnavailable));
    assert_eq!(router.pool.entry(0).cooldown_until, 160);
    // an account that the pool does not hold leaves the record without an email
    let log = router.after_upstream(&req, 9, UpstreamOutcome::Cancelled, 1, 100);
    assert_eq!(log.account_email, None);
}

#[test]
fn error_statuses_and_names() {
    let all = [
        (ProxyError::NoEligibleAccount, 503, "no eligible account"),
        (ProxyError::QuotaExhausted, 429, "quota exhausted"),
        (ProxyError::TokenRefreshFailed, 502, "token refresh failed"),
        (ProxyError::UpstreamUnavailable, 504, "upstream unavailable"),
        (ProxyError::UpstreamRejected, 502, "upstream rejected the request"),
        (ProxyError::ConfigDisabled, 503, "proxy disabled"),
        (ProxyError::Unauthorized, 401, "invalid api key"),
        (ProxyError::Cancelled, 499, "cancelled by the caller"),
    ];
    for (e, status, name) in all {
        assert_eq!(e.status(), status);
        assert_eq!(e.name(), name);
    }
    assert_eq!(SchedulingError::NoEligibleAccount.lift(), ProxyError::NoEligibleAccount);
    assert_eq!(SchedulingError::QuotaExhausted.lift(), ProxyError::QuotaExhausted);
    assert_eq!(SchedulingError::TokenRefreshFailed.lift(), ProxyError::TokenRefreshFailed);
}

#[test]
fn log_counts_stop_at_the_largest_number() {
    assert_eq!(log_count(0), 0);
    assert_eq!(log_count(2_147_483_647), i32::MAX);
    assert_eq!(log_count(2_147_483_648), i32::MAX);
    assert_eq!(log_count(u64::MAX), i32::MAX);
    let log = make_log(&request(None), Some("a@b".to_string()), 200, 1, Some((3, 4)), None, 9);
    assert_eq!(log.id, 0);
    assert_eq!((log.input_tokens, log.output_tokens), (Some(3), Some(4)));
    assert_eq!(log.clone().account_email, Some("a@b".to_string()));
}

#[test]
fn sweep_keeps_the_bindings_of_accounts_that_can_serve() {
    let mut pool = AccountPool::new();
    assert!(pool.insert(account(1, 0, 10_000), open_quota(1)));
    assert!(pool.insert(account(2, 1, 10_000), open_quota(2)));
    let mut off = account(3, 2, 10_000);
    off.is_active = false;
    assert!(pool.insert(off, open_quota(3)));
    assert!(pool.mark_ineligible(2, IneligibleReason::UpstreamUnavailable, 100, 60));
    assert_eq!(usable_ids(&pool, 100, 1), vec![1]);
    assert_eq!(usable_ids(&pool, 160, 1), vec![1, 2]);
    let mut router = Router::new(pool, enabled_config());
    router.affinity.bind("a".to_string(), None, 1, 100);
    router.affinity.bind("b".to_string(), None, 2, 100);
    router.affinity.bind("c".to_string(), None, 3, 100);
    router.affinity.bind("d".to_string(), Some("gemini".to_string()), 1, 100);
    router.sweep(110);
    assert_eq!(router.affinity.len(), 2);
    assert_eq!(router.affinity.binding_for(&"a".to_string(), &None, 110), Some(1));
    assert_eq!(router.affinity.binding_for(&"b".to_string(), &None, 110), None);
    assert_eq!(router.affinity.binding_for(&"d".to_string(), &Some("gemini".to_string()), 110), Some(1));
    router.sweep(100 + 1801);
    assert_eq!(router.affinity.len(), 0);
    assert_eq!(router.pool.len(), 3);
}
