use better_manager::affinity::{AffinityMap, SESSION_TTL_SECS};
use better_manager::error::SchedulingError;
use better_manager::models::{Account, ProxyConfig, QuotaInfo, SchedulingMode};
use better_manager::pool::{AccountPool, IneligibleReason};
use better_manager::quota::{bump, can_admit, commit, is_output_exhausted};
use better_manager::scheduler::{
    can_serve, prefers, select, RequestContext, SelectedAccount, DEFAULT_TOKEN_ESTIMATE,
};

fn account(id: i64, sort_order: i32) -> Account {
    Account {
        id,
        email: format!("user{}@example.com", id),
        display_name: None,
        photo_url: None,
        access_token: format!("access-{}", id),
        refresh_token: format!("refresh-{}", id),
        expires_at: 10_000,
        is_active: true,
        sort_order,
        created_at: 0,
        updated_at: 0,
    }
}

fn quota(id: i64, input_quota: i64, input_used: i64, output_quota: i64, output_used: i64) -> QuotaInfo {
    QuotaInfo { account_id: id, input_quota, input_used, output_quota, output_used, updated_at: 0 }
}

fn config(mode: &str, sticky: bool) -> ProxyConfig {
    let mut cfg = ProxyConfig::default();
    cfg.enabled = true;
    cfg.scheduling_mode = mode.to_string();
    cfg.session_stickiness = sticky;
    cfg
}

fn ctx(session: Option<&str>, model: &str) -> RequestContext {
    RequestContext::new(session.map(|s| s.to_string()), model.to_string())
}

#[test]
fn select_returns_account_when_one_can_serve() {
    let mut pool = AccountPool::new();
    assert!(pool.insert(account(1, 0), quota(1, 0, 0, 0, 0)));
    let mut aff = AffinityMap::new();
    let r = select(&pool, &config("cache-first", true), &mut aff, &ctx(None, "gemini"), 100);
    assert_eq!(r, Ok(SelectedAccount { account_id: 1, reused: false }));
}

#[test]
fn select_on_empty_pool_reports_no_eligible_account() {
    let pool = AccountPool::new();
    let mut aff = AffinityMap::new();
    let r = select(&pool, &config("balanced", true), &mut aff, &ctx(Some("s"), "gemini"), 100);
    assert_eq!(r, Err(SchedulingError::NoEligibleAccount));
    assert_eq!(aff.len(), 0);
}

#[test]
fn select_on_inactive_pool_reports_no_eligible_account() {
    let mut pool = AccountPool::new();
    let mut a = account(1, 0);
    a.is_active = false;
    let mut b = account(2, 1);
    b.is_active = false;
    assert!(pool.insert(a, quota(1, 0, 0, 0, 0)));
    assert!(pool.insert(b, quota(2, 0, 0, 0, 0)));
    let mut aff = AffinityMap::new();
    let r = select(&pool, &config("performance", false), &mut aff, &ctx(None, "gemini"), 100);
    assert_eq!(r, Err(SchedulingError::NoEligibleAccount));
}

#[test]
fn balanced_mode_takes_the_least_used_share() {
    let mut pool = AccountPool::new();
    assert!(pool.insert(account(1, 0), quota(1, 500_000, 450_000, 500_000, 450_000)));
    assert!(pool.insert(account(2, 1), quota(2, 500_000, 250_000, 500_000, 250_000)));
    assert!(pool.insert(account(3, 2), quota(3, 500_000, 50_000, 500_000, 50_000)));
    let mut aff = AffinityMap::new();
    let r = select(&pool, &config("balanced", true), &mut aff, &ctx(None, "gemini"), 100);
    assert_eq!(r, Ok(SelectedAccount { account_id: 3, reused: false }));
}

#[test]
fn balanced_mode_breaks_ties_by_sort_order() {
    let mut pool = AccountPool::new();
    assert!(pool.insert(account(5, 7), quota(5, 1000, 0, 1000, 100)));
    assert!(pool.insert(account(6, 3), quota(6, 2000, 0, 2000, 200)));
    let mut aff = AffinityMap::new();
    let mut c = ctx(None, "gemini");
    c.estimated_input_tokens = 10;
    let r = select(&pool, &config("balanced", true), &mut aff, &c, 100);
    assert_eq!(r, Ok(SelectedAccount { account_id: 6, reused: false }));
}

#[test]
fn single_exhausted_account_reports_quota_exhausted() {
    let mut pool = AccountPool::new();
    assert!(pool.insert(account(1, 0), quota(1, 100, 100, 0, 0)));
    let mut aff = AffinityMap::new();
    let r = select(&pool, &config("cache-first", true), &mut aff, &ctx(None, "gemini"), 100);
    assert_eq!(r, Err(SchedulingError::QuotaExhausted));
}

#[test]
fn suspended_pool_reports_the_failed_refresh() {
    let mut pool = AccountPool::new();
    assert!(pool.insert(account(1, 0), quota(1, 0, 0, 0, 0)));
    assert!(pool.mark_ineligible(1, IneligibleReason::TokenRefreshFailed, 100, 300));
    let mut aff = AffinityMap::new();
    let cfg = config("cache-first", true);
    assert_eq!(
        select(&pool, &cfg, &mut aff, &ctx(None, "gemini"), 399),
        Err(SchedulingError::TokenRefreshFailed)
    );
    // the suspension ends by itself
    assert_eq!(
        select(&pool, &cfg, &mut aff, &ctx(None, "gemini"), 400),
        Ok(SelectedAccount { account_id: 1, reused: false })
    );
}

#[test]
fn suspended_pool_without_failed_refresh_reports_no_account() {
    let mut pool = AccountPool::new();
    assert!(pool.insert(account(1, 0), quota(1, 0, 0, 0, 0)));
    assert!(pool.mark_ineligible(1, IneligibleReason::UpstreamRejected, 100, 60));
    let mut aff = AffinityMap::new();
    assert_eq!(
        select(&pool, &config("cache-first", true), &mut aff, &ctx(None, "gemini"), 120),
        Err(SchedulingError::NoEligibleAccount)
    );
}

#[test]
fn model_outside_the_allowed_list_is_refused() {
    let mut pool = AccountPool::new();
    assert!(pool.insert(account(1, 0), quota(1, 0, 0, 0, 0)));
    let mut cfg = config("cache-first", true);
    cfg.allowed_models = vec!["gemini-pro".to_string(), "gemini-flash".to_string()];
    let mut aff = AffinityMap::new();
    assert_eq!(
        select(&pool, &cfg, &mut aff, &ctx(None, "other"), 100),
        Err(SchedulingError::NoEligibleAccount)
    );
    assert_eq!(
        select(&pool, &cfg, &mut aff, &ctx(None, "gemini-flash"), 100),
        Ok(SelectedAccount { account_id: 1, reused: false })
    );
    assert!(cfg.allows(&"gemini-pro".to_string()));
    assert!(!cfg.allows(&"gemini".to_string()));
}

#[test]
fn bound_session_keeps_its_account() {
    let mut pool = AccountPool::new();
    assert!(pool.insert(account(1, 0), quota(1, 1_000_000, 900_000, 0, 0)));
    assert!(pool.insert(account(2, 1), quota(2, 1_000_000, 100_000, 0, 0)));
    let cfg = config("balanced", true);
    let mut aff = AffinityMap::new();
    let first = select(&pool, &cfg, &mut aff, &ctx(Some("sess"), "gemini"), 100);
    assert_eq!(first, Ok(SelectedAccount { account_id: 2, reused: false }));
    // account 2 becomes the more loaded one, and the session stays with it
    assert_eq!(pool.commit(2, 850_000, 0, 110), Some(false));
    for now in [120, 500, 120 + SESSION_TTL_SECS] {
        let again = select(&pool, &cfg, &mut aff, &ctx(Some("sess"), "gemini"), now);
        assert_eq!(again, Ok(SelectedAccount { account_id: 2, reused: true }));
    }
    // another session is ranked afresh
    let other = select(&pool, &cfg, &mut aff, &ctx(Some("other"), "gemini"), 130);
    assert_eq!(other, Ok(SelectedAccount { account_id: 1, reused: false }));
}

#[test]
fn binding_is_ignored_without_stickiness_and_after_the_idle_timeout() {
    let mut pool = AccountPool::new();
    assert!(pool.insert(account(1, 0), quota(1, 0, 0, 0, 0)));
    assert!(pool.insert(account(2, 1), quota(2, 0, 0, 0, 0)));
    let mut aff = AffinityMap::new();
    aff.bind("sess".to_string(), None, 2, 100);
    let loose = config("performance", false);
    assert_eq!(
        select(&pool, &loose, &mut aff, &ctx(Some("sess"), "gemini"), 100),
        Ok(SelectedAccount { account_id: 1, reused: false })
    );
    let mut aff = AffinityMap::new();
    aff.bind("sess".to_string(), None, 2, 100);
    let sticky = config("performance", true);
    assert_eq!(
        select(&pool, &sticky, &mut aff, &ctx(Some("sess"), "gemini"), 101 + SESSION_TTL_SECS),
        Ok(SelectedAccount { account_id: 1, reused: false })
    );
}

#[test]
fn binding_to_an_account_that_cannot_serve_is_replaced() {
    let mut pool = AccountPool::new();
    assert!(pool.insert(account(1, 0), quota(1, 0, 0, 0, 0)));
    assert!(pool.insert(account(2, 1), quota(2, 0, 0, 0, 0)));
    let cfg = config("cache-first", true);
    let mut aff = AffinityMap::new();
    aff.bind("sess".to_string(), None, 2, 100);
    assert!(pool.mark_ineligible(2, IneligibleReason::UpstreamUnavailable, 100, 60));
    let r = select(&pool, &cfg, &mut aff, &ctx(Some("sess"), "gemini"), 110);
    assert_eq!(r, Ok(SelectedAccount { account_id: 1, reused: false }));
    assert_eq!(aff.binding_for(&"sess".to_string(), &None, 110), Some(1));
    assert_eq!(aff.binding_for(&"sess".to_string(), &Some("gemini".to_string()), 110), Some(1));
}

#[test]
fn cache_first_prefers_the_account_that_last_served_session_and_model() {
    let mut pool = AccountPool::new();
    assert!(pool.insert(account(1, 0), quota(1, 0, 0, 0, 0)));
    assert!(pool.insert(account(2, 1), quota(2, 0, 0, 0, 0)));
    let cfg = config("cache-first", false);
    let mut aff = AffinityMap::new();
    aff.bind("sess".to_string(), Some("gemini".to_string()), 2, 100);
    assert_eq!(
        select(&pool, &cfg, &mut aff, &ctx(Some("sess"), "gemini"), 100),
        Ok(SelectedAccount { account_id: 2, reused: true })
    );
    // another model of the session falls back to the sort order
    assert_eq!(
        select(&pool, &cfg, &mut aff, &ctx(Some("sess"), "other-model"), 100),
        Ok(SelectedAccount { account_id: 1, reused: false })
    );
}

#[test]
fn performance_mode_takes_the_fastest_account() {
    let mut pool = AccountPool::new();
    assert!(pool.insert(account(1, 0), quota(1, 0, 0, 0, 0)));
    assert!(pool.insert(account(2, 1), quota(2, 0, 0, 0, 0)));
    assert!(pool.insert(account(3, 2), quota(3, 0, 0, 0, 0)));
    assert!(pool.record_latency(1, 800));
    assert!(pool.record_latency(2, 200));
    assert!(pool.record_latency(3, 200));
    let mut aff = AffinityMap::new();
    let cfg = config("performance", true);
    assert_eq!(
        select(&pool, &cfg, &mut aff, &ctx(None, "gemini"), 100),
        Ok(SelectedAccount { account_id: 2, reused: false })
    );
}

#[test]
fn latency_average_weights_one_to_seven() {
    let mut pool = AccountPool::new();
    assert!(pool.insert(account(1, 0), quota(1, 0, 0, 0, 0)));
    assert_eq!(pool.entry(0).latency_ewma_ms, None);
    assert!(pool.record_latency(1, 800));
    assert_eq!(pool.entry(0).latency_ewma_ms, Some(800));
    assert!(pool.record_latency(1, 0));
    assert_eq!(pool.entry(0).latency_ewma_ms, Some(700));
    assert!(pool.record_latency(1, 100));
    assert_eq!(pool.entry(0).latency_ewma_ms, Some(625));
    assert!(!pool.record_latency(9, 100));
}

#[test]
fn unknown_mode_name_means_cache_first() {
    assert_eq!(config("round-robin", true).mode(), SchedulingMode::CacheFirst);
    assert_eq!(config("balanced", true).mode(), SchedulingMode::Balanced);
    assert_eq!(SchedulingMode::parse("performance"), Some(SchedulingMode::Performance));
    assert_eq!(SchedulingMode::parse("cache-first"), Some(SchedulingMode::CacheFirst));
    assert_eq!(SchedulingMode::parse("Balanced"), None);
    assert_eq!(SchedulingMode::Performance.name(), "performance");
    assert_eq!(SchedulingMode::parse(SchedulingMode::Balanced.name()), Some(SchedulingMode::Balanced));
}

#[test]
fn admission_checks_the_input_quota() {
    assert!(can_admit(&quota(1, 100, 60, 0, 0), 40));
    assert!(!can_admit(&quota(1, 100, 60, 0, 0), 41));
    assert!(!can_admit(&quota(1, 100, 100, 0, 0), 1));
    assert!(can_admit(&quota(1, 100, 100, 0, 0), 0));
    // no limits at all: unlimited
    assert!(can_admit(&quota(1, 0, 5_000_000, 0, 0), u64::MAX));
    // an output limit alone leaves no room for input
    assert!(!can_admit(&quota(1, 0, 0, 10, 0), 1));
    assert_eq!(DEFAULT_TOKEN_ESTIMATE, 1024);
}

#[test]
fn commit_adds_exactly_what_was_used() {
    let mut q = quota(1, 1000, 10, 500, 20);
    assert!(!commit(&mut q, 5, 7, 99));
    assert_eq!((q.input_used, q.output_used, q.updated_at), (15, 27, 99));
    assert_eq!((q.input_quota, q.output_quota, q.account_id), (1000, 500, 1));
    assert!(commit(&mut q, 0, 474, 100));
    assert_eq!((q.input_used, q.output_used), (15, 501));
    assert!(is_output_exhausted(&q));
}

#[test]
fn commit_stops_at_the_largest_counter_value() {
    assert_eq!(bump(i64::MAX - 1, 5), i64::MAX);
    assert_eq!(bump(7, u64::MAX), i64::MAX);
    assert_eq!(bump(7, 8), 15);
    let mut q = quota(1, 0, i64::MAX - 1, 0, 0);
    assert!(!commit(&mut q, 10, 0, 1));
    assert_eq!(q.input_used, i64::MAX);
}

#[test]
fn pool_commit_charges_one_account_only() {
    let mut pool = AccountPool::new();
    assert!(pool.insert(account(1, 0), quota(1, 1000, 0, 100, 0)));
    assert!(pool.insert(account(2, 1), quota(2, 1000, 0, 100, 0)));
    assert_eq!(pool.commit(2, 30, 40, 50), Some(false));
    assert_eq!(pool.commit(2, 30, 61, 51), Some(true));
    assert_eq!(pool.commit(3, 1, 1, 52), None);
    assert_eq!(pool.entry(0).quota, quota(1, 1000, 0, 100, 0));
    assert_eq!(pool.entry(1).quota.input_used, 60);
    assert_eq!(pool.entry(1).quota.output_used, 101);
    assert_eq!(pool.entry(1).quota.updated_at, 51);
    // spent output makes the account ineligible from now on
    assert!(!can_serve(pool.entry(1), 52, 1));
    assert!(can_serve(pool.entry(0), 52, 1));
}

#[test]
fn pool_keeps_sort_order_and_rejects_duplicates() {
    let mut pool = AccountPool::new();
    assert!(pool.insert(account(1, 5), quota(1, 0, 0, 0, 0)));
    assert!(pool.insert(account(2, 1), quota(2, 0, 0, 0, 0)));
    assert!(pool.insert(account(3, 5), quota(3, 0, 0, 0, 0)));
    assert!(pool.insert(account(4, 3), quota(4, 0, 0, 0, 0)));
    assert!(!pool.insert(account(2, 0), quota(2, 0, 0, 0, 0)));
    assert!(!pool.insert(account(7, 0), quota(8, 0, 0, 0, 0)));
    assert!(!pool.insert(account(7, 0), quota(7, -1, 0, 0, 0)));
    let mut twin = account(7, 0);
    twin.email = "user4@example.com".to_string();
    assert!(!pool.insert(twin, quota(7, 0, 0, 0, 0)));
    assert!(pool.holds_email(&"user4@example.com".to_string()));
    assert!(!pool.holds_email(&"user7@example.com".to_string()));
    assert_eq!(pool.len(), 4);
    let ids: Vec<i64> = (0..4).map(|i| pool.entry(i).account.id).collect();
    assert_eq!(ids, vec![2, 4, 1, 3]);
    assert_eq!(pool.position(1), Some(2));
    assert_eq!(pool.position(9), None);
    assert_eq!(pool.email(4), Some("user4@example.com".to_string()));
    assert_eq!(pool.email(9), None);
}

#[test]
fn snapshot_holds_the_active_accounts_in_order() {
    let mut pool = AccountPool::new();
    let mut off = account(2, 1);
    off.is_active = false;
    assert!(pool.insert(account(1, 2), quota(1, 0, 0, 0, 0)));
    assert!(pool.insert(off, quota(2, 0, 0, 0, 0)));
    assert!(pool.insert(account(3, 0), quota(3, 10, 1, 10, 2)));
    let snap = pool.snapshot();
    let ids: Vec<i64> = snap.iter().map(|e| e.account.id).collect();
    assert_eq!(ids, vec![3, 1]);
    assert_eq!(snap[0].quota, quota(3, 10, 1, 10, 2));
    assert_eq!(snap[0].account.email, "user3@example.com");
}

#[test]
fn mark_ineligible_suspends_without_deactivating() {
    let mut pool = AccountPool::new();
    assert!(pool.insert(account(1, 0), quota(1, 0, 0, 0, 0)));
    assert!(pool.mark_ineligible(1, IneligibleReason::UpstreamRejected, 1000, 60));
    assert!(!pool.mark_ineligible(2, IneligibleReason::UpstreamRejected, 1000, 60));
    let e = pool.entry(0);
    assert!(e.account.is_active);
    assert_eq!(e.cooldown_until, 1060);
    assert_eq!(e.cooldown_reason, Some(IneligibleReason::UpstreamRejected));
    assert!(!can_serve(e, 1059, 1));
    assert!(can_serve(e, 1060, 1));
    assert!(pool.mark_ineligible(1, IneligibleReason::UpstreamUnavailable, i64::MAX - 5, 60));
    assert_eq!(pool.entry(0).cooldown_until, i64::MAX);
}

#[test]
fn ranking_compares_shares_without_dividing() {
    let mut pool = AccountPool::new();
    assert!(pool.insert(account(1, 0), quota(1, i64::MAX, i64::MAX, i64::MAX, i64::MAX - 1)));
    assert!(pool.insert(account(2, 1), quota(2, i64::MAX, i64::MAX, i64::MAX, i64::MAX)));
    assert!(pool.insert(account(3, 2), quota(3, 0, 3, 0, 0)));
    let (a, b, c) = (pool.entry(0), pool.entry(1), pool.entry(2));
    assert!(prefers(SchedulingMode::Balanced, a, b));
    assert!(!prefers(SchedulingMode::Balanced, b, a));
    assert!(!prefers(SchedulingMode::Balanced, a, a));
    // without limits the share is the usage itself
    assert!(prefers(SchedulingMode::Balanced, b, c));
    assert!(!prefers(SchedulingMode::CacheFirst, a, b));
    assert!(!prefers(SchedulingMode::Performance, a, b));
}
