use std::time::{SystemTime, UNIX_EPOCH};

use auto_proxy::dispatch::{Action, Outcome, ProxyReply};
use auto_proxy::provider::{Provider, ProviderHealth, RateLimiter};
use auto_proxy::proxy::ProxyState;
use auto_proxy::ui::{LogLevel, Logger, ServerInfo};

fn trio() -> Vec<Provider> {
    ["A", "B", "C"]
        .iter()
        .map(|n| Provider {
            name: n.to_string(),
            token: "sk-t".to_string(),
            base_url: "https://x.example.com".to_string(),
            key_type: "AUTH_TOKEN".to_string(),
        })
        .collect()
}

fn unix_now() -> u64 {
    SystemTime::now().duration_since(UNIX_EPOCH).map(|d| d.as_secs()).unwrap_or(0)
}

fn local_now() -> i64 {
    unix_now() as i64
}

#[test]
fn events_are_stamped_with_the_present() {
    let before = unix_now();
    let mut health = ProviderHealth::new();
    health.record_failure();
    let after = unix_now();
    // The failure was had between the two readings: no idle drift until
    // more than five minutes after the first, one step from then on at the
    // latest five minutes after the second.
    let mut early = health;
    assert_eq!(early.get_health_score_at(before + 300), 95);
    let mut late = health;
    assert_eq!(late.get_health_score_at(after + 301), 100);
}

#[test]
fn limiter_counts_requests_made_now() {
    let mut limiter = RateLimiter::new(2);
    assert!(limiter.can_request());
    limiter.record_request();
    assert!(limiter.can_request());
    limiter.record_request();
    assert!(!limiter.can_request());
    assert_eq!(limiter.current_requests(), 2);
    // A minute and more after now, the window is empty again.
    assert!(limiter.can_request_at(unix_now() + 120));
    assert_eq!(limiter.current_requests_at(unix_now() + 120), 0);
}

#[test]
fn health_follows_events_had_now() {
    let mut health = ProviderHealth::new();
    assert_eq!(health.get_health_score(), 100);
    assert!(health.is_healthy());
    health.record_failure();
    health.record_failure();
    assert_eq!(health.get_health_score(), 85);
    health.record_success();
    assert_eq!(health.get_health_score(), 95);
    for _ in 0..5 {
        health.record_failure();
    }
    assert!(health.is_completely_down());
    health.emergency_recovery();
    assert_eq!(health.get_health_score(), 10);
    assert!(!health.is_healthy());
    assert!(!health.is_completely_down());
    assert_eq!(health.get_consecutive_failures(), 0);
}

#[test]
fn state_serves_its_observers_now() {
    let mut state = ProxyState::new_with_rate_limit(1);
    let providers = trio();
    assert!(state.can_request("A"));
    state.record_request("A");
    assert!(!state.can_request("A"));
    assert_eq!(state.get_current_requests("A"), 1);
    state.record_provider_failure("A");
    assert_eq!(state.get_provider_health_score("A"), 95);
    state.record_provider_success("A");
    assert!(state.is_provider_healthy("A"));
    assert!(!state.all_providers_unhealthy(&providers));
    assert!(!state.all_providers_down(&providers));
    assert_eq!(state.health_summary(&providers), (3, 100));
    assert_eq!(state.select_next_provider(&providers), Some(1));
    assert_eq!(state.select_provider_randomly(&providers, 3), Some(1));
    assert_eq!(state.select_provider_randomly(&providers, 5), Some(2));
}

#[test]
fn state_revives_all_providers_now() {
    let mut state = ProxyState::new();
    let providers = trio();
    for p in ["A", "B", "C"] {
        for _ in 0..5 {
            state.record_provider_failure(p);
        }
    }
    assert!(state.all_providers_down(&providers));
    state.emergency_recovery_all(&providers);
    assert!(!state.all_providers_down(&providers));
    assert!(state.all_providers_unhealthy(&providers));
    assert_eq!(state.health_summary(&providers), (0, 10));
}

#[test]
fn dispatch_runs_on_the_clock() {
    let mut state = ProxyState::new_with_rate_limit(5);
    let providers = trio();
    let (dispatch, action) = state.begin_dispatch(&providers);
    assert_eq!(action, Action::Forward(0));
    let (dispatch, action) = state.resume_dispatch(&providers, dispatch, Outcome::Status(500), 3);
    assert_eq!(action, Action::Forward(1));
    let (dispatch, action) = state.resume_dispatch(&providers, dispatch, Outcome::NetworkError, 3);
    assert_eq!(action, Action::Forward(2));
    let (dispatch, action) = state.resume_dispatch(&providers, dispatch, Outcome::Status(200), 3);
    assert_eq!(action, Action::Relay(2));
    assert_eq!(dispatch.forwarded, 3);
    assert_eq!(state.get_token_usage("C"), 3);
    assert_eq!(state.get_current_requests("A"), 1);
    assert_eq!(state.get_last_status_code("B"), Some(0));
}

#[test]
fn dispatch_on_the_clock_answers_itself_when_all_are_disabled() {
    let mut state = ProxyState::new();
    let providers = trio();
    for p in ["A", "B", "C"] {
        state.toggle_provider(p);
    }
    let (_, action) = state.begin_dispatch(&providers);
    assert_eq!(action, Action::Reply(ProxyReply::AllDisabled));
}

#[test]
fn log_stamps_events_with_the_present() {
    let mut log = Logger::with_capacity(5);
    let before = local_now() - 1;
    log.info("i".to_string());
    log.success("s".to_string());
    log.warning("w".to_string());
    log.error("e".to_string());
    log.debug("d".to_string());
    log.log(LogLevel::Info, "last".to_string());
    let after = local_now() + 1;
    assert_eq!(log.len(), 5);
    assert_eq!(log.entry(0).message, "s");
    assert_eq!(log.entry(0).level, LogLevel::Success);
    assert_eq!(log.entry(1).level, LogLevel::Warning);
    assert_eq!(log.entry(2).level, LogLevel::Error);
    assert_eq!(log.entry(3).level, LogLevel::Debug);
    assert_eq!(log.entry(4).message, "last");
    for i in 0..5 {
        assert!(before <= log.entry(i).timestamp && log.entry(i).timestamp <= after);
    }
}

#[test]
fn server_info_starts_now() {
    let before = local_now() - 1;
    let info = ServerInfo::new(8080, 5);
    assert_eq!(info.port, 8080);
    assert_eq!(info.rate_limit, 5);
    assert!(info.start_time >= before);
    assert!(info.uptime() <= 5);
}
