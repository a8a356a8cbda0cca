use auto_proxy::dispatch::{unmarked, Action, Dispatch, DispatchMode, Outcome, ProxyReply};
use auto_proxy::provider::Provider;
use auto_proxy::proxy::ProxyState;

fn abc() -> Vec<Provider> {
    ["A", "B", "C"]
        .iter()
        .map(|n| Provider {
            name: n.to_string(),
            token: format!("sk-token-of-{}", n),
            base_url: format!("https://{}.example.com", n),
            key_type: "AUTH_TOKEN".to_string(),
        })
        .collect()
}

fn down(state: &mut ProxyState, name: &str, now: u64) {
    for _ in 0..5 {
        state.record_provider_failure_at(name, now);
    }
}

#[test]
fn replies_have_their_status_header_and_text() {
    assert_eq!(ProxyReply::BadRequest.status(), 400);
    assert_eq!(ProxyReply::BadRequest.retry_after(), None);
    assert_eq!(ProxyReply::BadRequest.body(), "Bad Request");
    assert_eq!(ProxyReply::NoProviders.status(), 503);
    assert_eq!(ProxyReply::NoProviders.retry_after(), Some(60));
    assert_eq!(ProxyReply::NoProviders.body(), "No providers configured");
    assert_eq!(ProxyReply::AllDisabled.status(), 503);
    assert_eq!(ProxyReply::AllDisabled.retry_after(), Some(30));
    assert_eq!(
        ProxyReply::AllDisabled.body(),
        "All providers are disabled by user. Please enable at least one provider."
    );
    assert_eq!(ProxyReply::Exhausted.status(), 503);
    assert_eq!(ProxyReply::Exhausted.retry_after(), Some(30));
    assert_eq!(
        ProxyReply::Exhausted.body(),
        "Service temporarily unavailable - all providers failed"
    );
    assert_eq!(ProxyReply::EmergencyExhausted.status(), 503);
    assert_eq!(ProxyReply::EmergencyExhausted.retry_after(), Some(120));
    assert_eq!(
        ProxyReply::EmergencyExhausted.body(),
        "Service unavailable - all providers are down. Please try again in 2 minutes."
    );
}

#[test]
fn dispatch_without_providers_answers_at_once() {
    let mut state = ProxyState::new();
    let (dispatch, action) = state.begin_dispatch_at(&Vec::new(), 10);
    assert_eq!(action, Action::Reply(ProxyReply::NoProviders));
    assert_eq!(dispatch.forwarded, 0);
    assert_eq!(state.get_round_robin_counter(), 0);
}

#[test]
fn happy_path_relays_the_first_provider() {
    let mut state = ProxyState::new_with_rate_limit(5);
    let providers = abc();
    let (dispatch, action) = state.begin_dispatch_at(&providers, 1_000);
    assert_eq!(action, Action::Forward(0));
    assert_eq!(dispatch.mode, DispatchMode::Normal);
    assert_eq!(dispatch.pending, Some(0));
    let (dispatch, action) =
        state.resume_dispatch_at(&providers, dispatch, Outcome::Status(200), 42, 1_001);
    assert_eq!(action, Action::Relay(0));
    assert_eq!(dispatch.forwarded, 1);
    assert_eq!(dispatch.pending, None);
    assert!(state.get_token_usage("A") > 0);
    assert_eq!(state.get_token_usage("A"), 42);
    assert_eq!(state.get_round_robin_counter(), 1);
    assert_eq!(state.get_last_status_code("A"), Some(200));
}

#[test]
fn success_counts_one_request_and_one_success_for_the_winner_only() {
    let mut state = ProxyState::new_with_rate_limit(5);
    let providers = abc();
    state.record_provider_failure_at("A", 900);
    let (dispatch, action) = state.begin_dispatch_at(&providers, 1_000);
    assert_eq!(action, Action::Forward(0));
    let (_, action) = state.resume_dispatch_at(&providers, dispatch, Outcome::Status(204), 7, 1_000);
    assert_eq!(action, Action::Relay(0));
    assert_eq!(state.get_current_requests_at("A", 1_000), 1);
    assert_eq!(state.get_current_requests_at("B", 1_000), 0);
    assert_eq!(state.get_current_requests_at("C", 1_000), 0);
    // One failure took 5, one success after one failure gives 10, capped.
    assert_eq!(state.get_provider_health_score_at("A", 1_000), 100);
    assert_eq!(state.get_token_usage("B"), 0);
    assert_eq!(state.get_last_status_code("B"), None);
}

#[test]
fn single_failover_moves_to_the_next_provider() {
    let mut state = ProxyState::new_with_rate_limit(5);
    let providers = abc();
    let (dispatch, action) = state.begin_dispatch_at(&providers, 1_000);
    assert_eq!(action, Action::Forward(0));
    let (dispatch, action) =
        state.resume_dispatch_at(&providers, dispatch, Outcome::Status(500), 9, 1_000);
    assert_eq!(action, Action::Forward(1));
    let (dispatch, action) =
        state.resume_dispatch_at(&providers, dispatch, Outcome::Status(200), 9, 1_000);
    assert_eq!(action, Action::Relay(1));
    assert_eq!(dispatch.forwarded, 2);
    assert_eq!(state.get_provider_health_score_at("A", 1_000), 95);
    assert_eq!(state.get_provider_health_score_at("B", 1_000), 100);
    assert_eq!(state.get_last_status_code("A"), Some(500));
    assert_eq!(state.get_last_status_code("B"), Some(200));
    assert_eq!(state.get_token_usage("A"), 0);
    assert_eq!(state.get_token_usage("B"), 9);
}

#[test]
fn rate_limited_provider_is_skipped_without_penalty() {
    let mut state = ProxyState::new_with_rate_limit(5);
    let providers = abc();
    for i in 0..5 {
        state.record_request_at("A", 990 + i);
    }
    let (_, action) = state.begin_dispatch_at(&providers, 1_000);
    assert_eq!(action, Action::Forward(1));
    assert_eq!(state.get_provider_health_score_at("A", 1_000), 100);
    assert_eq!(state.get_current_requests_at("A", 1_000), 5);
    assert_eq!(state.get_last_status_code("A"), None);
}

#[test]
fn all_disabled_answers_503_without_any_attempt() {
    let mut state = ProxyState::new_with_rate_limit(5);
    let providers = abc();
    for p in ["A", "B", "C"] {
        state.toggle_provider(p);
    }
    let (dispatch, action) = state.begin_dispatch_at(&providers, 1_000);
    assert_eq!(action, Action::Reply(ProxyReply::AllDisabled));
    assert_eq!(dispatch.forwarded, 0);
    assert_eq!(dispatch.pending, None);
    match action {
        Action::Reply(reply) => {
            assert_eq!(reply.status(), 503);
            assert!(reply.body().to_lowercase().contains("all providers are disabled"));
        }
        _ => unreachable!(),
    }
    for p in ["A", "B", "C"] {
        assert_eq!(state.get_current_requests_at(p, 1_000), 0);
    }
    assert_eq!(state.get_round_robin_counter(), 0);
}

#[test]
fn emergency_mode_tries_each_provider_once_in_order() {
    let mut state = ProxyState::new_with_rate_limit(5);
    let providers = abc();
    for p in ["A", "B", "C"] {
        down(&mut state, p, 900);
    }
    let (dispatch, action) = state.begin_dispatch_at(&providers, 1_000);
    assert_eq!(dispatch.mode, DispatchMode::Emergency);
    assert_eq!(action, Action::Forward(0));
    // The recovery gave each provider a score of 10 before the first attempt.
    assert_eq!(state.get_provider_health_score_at("B", 1_000), 10);
    assert_eq!(state.get_provider_health_score_at("C", 1_000), 10);
    let (dispatch, action) =
        state.resume_dispatch_at(&providers, dispatch, Outcome::Status(502), 1, 1_000);
    assert_eq!(action, Action::Forward(1));
    let (dispatch, action) =
        state.resume_dispatch_at(&providers, dispatch, Outcome::NetworkError, 1, 1_000);
    assert_eq!(action, Action::Forward(2));
    let (dispatch, action) =
        state.resume_dispatch_at(&providers, dispatch, Outcome::Status(500), 1, 1_000);
    assert_eq!(action, Action::Reply(ProxyReply::EmergencyExhausted));
    assert_eq!(dispatch.forwarded, 3);
    assert_eq!(ProxyReply::EmergencyExhausted.retry_after(), Some(120));
    assert_eq!(state.get_last_status_code("A"), Some(502));
    assert_eq!(state.get_last_status_code("B"), Some(0));
    assert_eq!(state.get_last_status_code("C"), Some(500));
    // Emergency mode does not move the round-robin cursor.
    assert_eq!(state.get_round_robin_counter(), 0);
}

#[test]
fn emergency_mode_relays_the_first_success() {
    let mut state = ProxyState::new_with_rate_limit(5);
    let providers = abc();
    for p in ["A", "B", "C"] {
        down(&mut state, p, 900);
    }
    let (dispatch, action) = state.begin_dispatch_at(&providers, 1_000);
    assert_eq!(action, Action::Forward(0));
    let (dispatch, action) =
        state.resume_dispatch_at(&providers, dispatch, Outcome::Status(503), 5, 1_000);
    assert_eq!(action, Action::Forward(1));
    let (dispatch, action) =
        state.resume_dispatch_at(&providers, dispatch, Outcome::Status(200), 5, 1_000);
    assert_eq!(action, Action::Relay(1));
    assert_eq!(dispatch.forwarded, 2);
    // B: revived to 10, then a success with no failure streak: +3.
    assert_eq!(state.get_provider_health_score_at("B", 1_000), 13);
    assert_eq!(state.get_token_usage("B"), 5);
}

#[test]
fn emergency_mode_skips_disabled_providers() {
    let mut state = ProxyState::new_with_rate_limit(5);
    let providers = abc();
    for p in ["A", "B", "C"] {
        down(&mut state, p, 900);
    }
    state.toggle_provider("A");
    state.toggle_provider("C");
    let (dispatch, action) = state.begin_dispatch_at(&providers, 1_000);
    assert_eq!(dispatch.mode, DispatchMode::Emergency);
    assert_eq!(action, Action::Forward(1));
    let (dispatch, action) =
        state.resume_dispatch_at(&providers, dispatch, Outcome::NetworkError, 1, 1_000);
    assert_eq!(action, Action::Reply(ProxyReply::EmergencyExhausted));
    assert_eq!(dispatch.forwarded, 1);
    assert_eq!(state.get_current_requests_at("A", 1_000), 0);
    assert_eq!(state.get_current_requests_at("C", 1_000), 0);
}

#[test]
fn emergency_mode_counts_a_refused_provider_as_failed_without_a_request() {
    let mut state = ProxyState::new_with_rate_limit(1);
    let providers = abc();
    for p in ["A", "B", "C"] {
        down(&mut state, p, 900);
    }
    state.record_request_at("A", 990);
    let (dispatch, action) = state.begin_dispatch_at(&providers, 1_000);
    assert_eq!(dispatch.mode, DispatchMode::Emergency);
    assert_eq!(action, Action::Forward(1));
    assert_eq!(dispatch.forwarded, 1);
    assert_eq!(dispatch.progress, 2);
    assert_eq!(state.get_last_status_code("A"), Some(0));
    assert_eq!(state.get_current_requests_at("A", 1_000), 1);
    // Revived to 10, then one failure: 5.
    assert_eq!(state.get_provider_health_score_at("A", 1_000), 5);
}

#[test]
fn network_error_counts_like_a_failed_answer() {
    let mut state = ProxyState::new_with_rate_limit(5);
    let providers = abc();
    let (dispatch, action) = state.begin_dispatch_at(&providers, 1_000);
    assert_eq!(action, Action::Forward(0));
    let (_, action) = state.resume_dispatch_at(&providers, dispatch, Outcome::NetworkError, 3, 1_000);
    assert_eq!(action, Action::Forward(1));
    assert_eq!(state.get_last_status_code("A"), Some(0));
    assert_eq!(state.get_provider_health_score_at("A", 1_000), 95);
    assert_eq!(state.get_token_usage("A"), 0);
}

#[test]
fn normal_mode_gives_up_after_as_many_attempts_as_providers() {
    let mut state = ProxyState::new_with_rate_limit(5);
    let providers = abc();
    let (mut dispatch, mut action) = state.begin_dispatch_at(&providers, 1_000);
    let mut sent = Vec::new();
    while let Action::Forward(i) = action {
        sent.push(i);
        let next = state.resume_dispatch_at(&providers, dispatch, Outcome::Status(500), 1, 1_000);
        dispatch = next.0;
        action = next.1;
    }
    assert_eq!(sent, vec![0, 1, 2]);
    assert_eq!(action, Action::Reply(ProxyReply::Exhausted));
    assert_eq!(dispatch.forwarded, 3);
    match action {
        Action::Reply(reply) => assert_eq!(reply.retry_after(), Some(30)),
        _ => unreachable!(),
    }
}

#[test]
fn normal_mode_gives_up_when_nobody_can_be_selected() {
    let mut state = ProxyState::new_with_rate_limit(1);
    let providers = abc();
    state.record_request_at("B", 1_000);
    state.record_request_at("C", 1_000);
    let (dispatch, action) = state.begin_dispatch_at(&providers, 1_000);
    assert_eq!(action, Action::Forward(0));
    let (dispatch, action) =
        state.resume_dispatch_at(&providers, dispatch, Outcome::Status(429), 1, 1_000);
    assert_eq!(action, Action::Reply(ProxyReply::Exhausted));
    assert_eq!(dispatch.forwarded, 1);
}

#[test]
fn statuses_from_200_to_299_are_successes() {
    for (code, relayed) in [(199u16, false), (200, true), (299, true), (300, false), (404, false)] {
        let mut state = ProxyState::new_with_rate_limit(5);
        let providers = abc();
        let (dispatch, _) = state.begin_dispatch_at(&providers, 1_000);
        let (_, action) =
            state.resume_dispatch_at(&providers, dispatch, Outcome::Status(code), 1, 1_000);
        assert_eq!(matches!(action, Action::Relay(_)), relayed);
        assert_eq!(state.get_last_status_code("A"), Some(code));
    }
}

#[test]
fn a_dispatch_value_can_be_compared_and_cloned() {
    let d = Dispatch {
        mode: DispatchMode::Normal,
        progress: 1,
        forwarded: 1,
        pending: Some(0),
        tried: vec![true, false],
        refused: Vec::new(),
    };
    let e = d.clone();
    assert_eq!(d, e);
    assert_ne!(d, Dispatch { pending: None, ..e });
}

#[test]
fn a_limiter_that_admits_again_does_not_bring_a_tried_provider_back() {
    let mut state = ProxyState::new_with_rate_limit(1);
    let providers = abc();
    state.record_request_at("B", 999);
    let (mut dispatch, mut action) = state.begin_dispatch_at(&providers, 1_000);
    let mut sent = Vec::new();
    while let Action::Forward(i) = action {
        assert!(!sent.contains(&i));
        sent.push(i);
        // A minute later every limiter admits again.
        let next = state.resume_dispatch_at(&providers, dispatch, Outcome::Status(500), 1, 1_061);
        dispatch = next.0;
        action = next.1;
    }
    assert_eq!(action, Action::Reply(ProxyReply::Exhausted));
    assert_eq!(sent, vec![0, 1, 2]);
    assert_eq!(dispatch.tried, vec![true, true, true]);
}

#[test]
fn marks_start_unset() {
    assert_eq!(unmarked(0), Vec::<bool>::new());
    assert_eq!(unmarked(3), vec![false, false, false]);
}

#[test]
fn a_provider_that_failed_is_not_sent_to_again() {
    // Two providers, the second disabled: after the first answered 500
    // nobody is left.
    let mut state = ProxyState::new_with_rate_limit(5);
    let providers: Vec<Provider> = abc().into_iter().take(2).collect();
    state.toggle_provider("B");
    let (dispatch, action) = state.begin_dispatch_at(&providers, 1_000);
    assert_eq!(action, Action::Forward(0));
    assert_eq!(dispatch.tried, vec![true, false]);
    let (dispatch, action) =
        state.resume_dispatch_at(&providers, dispatch, Outcome::Status(500), 1, 1_000);
    assert_eq!(action, Action::Reply(ProxyReply::Exhausted));
    assert_eq!(dispatch.forwarded, 1);
    assert_eq!(state.get_current_requests_at("A", 1_000), 1);
}

#[test]
fn every_provider_gets_at_most_one_attempt() {
    // B is at its rate limit; A and C answer 500.
    let mut state = ProxyState::new_with_rate_limit(1);
    let providers = abc();
    state.record_request_at("B", 999);
    let (mut dispatch, mut action) = state.begin_dispatch_at(&providers, 1_000);
    let mut sent = Vec::new();
    while let Action::Forward(i) = action {
        assert!(!sent.contains(&i));
        sent.push(i);
        let next = state.resume_dispatch_at(&providers, dispatch, Outcome::Status(500), 1, 1_000);
        dispatch = next.0;
        action = next.1;
    }
    assert_eq!(action, Action::Reply(ProxyReply::Exhausted));
    assert_eq!(sent, vec![0, 2]);
    assert_eq!(dispatch.tried, vec![true, false, true]);
    assert_eq!(state.get_current_requests_at("A", 1_000), 1);
    assert_eq!(state.get_current_requests_at("B", 1_000), 1);
    assert_eq!(state.get_current_requests_at("C", 1_000), 1);
}

#[test]
fn failover_passes_over_tried_places_whatever_the_cursor() {
    let mut state = ProxyState::new_with_rate_limit(5);
    let providers = abc();
    state.toggle_provider("C");
    // The cursor stands at B.
    assert_eq!(state.select_next_provider_at(&providers, 1_000), Some(0));
    let (dispatch, action) = state.begin_dispatch_at(&providers, 1_000);
    assert_eq!(action, Action::Forward(1));
    // The next round starts at C, which is disabled, and comes to A.
    let (dispatch, action) =
        state.resume_dispatch_at(&providers, dispatch, Outcome::NetworkError, 1, 1_000);
    assert_eq!(action, Action::Forward(0));
    // The round after starts at A: A and B were tried, C is disabled.
    let (dispatch, action) =
        state.resume_dispatch_at(&providers, dispatch, Outcome::Status(503), 1, 1_000);
    assert_eq!(action, Action::Reply(ProxyReply::Exhausted));
    assert_eq!(dispatch.forwarded, 2);
    assert_eq!(dispatch.tried, vec![true, true, false]);
}

#[test]
fn emergency_mode_notes_the_places_it_turned_away() {
    let mut state = ProxyState::new_with_rate_limit(1);
    let providers = abc();
    for p in ["A", "B", "C"] {
        down(&mut state, p, 900);
    }
    state.record_request_at("A", 990);
    state.record_request_at("C", 990);
    let (dispatch, action) = state.begin_dispatch_at(&providers, 1_000);
    assert_eq!(action, Action::Forward(1));
    assert_eq!(dispatch.refused, vec![0]);
    let (dispatch, action) =
        state.resume_dispatch_at(&providers, dispatch, Outcome::Status(500), 1, 1_000);
    assert_eq!(action, Action::Reply(ProxyReply::EmergencyExhausted));
    assert_eq!(dispatch.refused, vec![2]);
    assert_eq!(dispatch.tried, vec![false, true, false]);
    assert_eq!(state.get_last_status_code("C"), Some(0));
}

#[test]
fn a_step_that_turns_nobody_away_notes_nothing() {
    let mut state = ProxyState::new_with_rate_limit(5);
    let providers = abc();
    let (dispatch, _) = state.begin_dispatch_at(&providers, 1_000);
    assert_eq!(dispatch.refused, Vec::<usize>::new());
    let (dispatch, _) =
        state.resume_dispatch_at(&providers, dispatch, Outcome::Status(200), 1, 1_000);
    assert_eq!(dispatch.refused, Vec::<usize>::new());
}
