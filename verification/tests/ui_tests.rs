use auto_proxy::interactive::{layout_rows, row_at, InteractiveProviderManager};
use auto_proxy::network::{
    address_in_answer, address_in_document, status_from_probes, NetworkStatus,
};
use auto_proxy::provider::Provider;
use auto_proxy::text::{append_decimal, decimal_string};
use auto_proxy::token::calculate_display_width;
use auto_proxy::ui::{
    action_for, button_at, display_width, format_duration, is_exit_event, layout_buttons,
    LogColor, LogLevel, Logger, ServerInfo, UiAction, UiEvent,
};

fn pool(names: &[&str]) -> Vec<Provider> {
    names
        .iter()
        .map(|n| Provider {
            name: n.to_string(),
            token: "t".to_string(),
            base_url: "https://x".to_string(),
            key_type: "AUTH_TOKEN".to_string(),
        })
        .collect()
}

#[test]
fn numbers_are_written_in_base_ten() {
    assert_eq!(decimal_string(0), "0");
    assert_eq!(decimal_string(42), "42");
    assert_eq!(decimal_string(u64::MAX), "18446744073709551615");
    let mut s = "n=".to_string();
    append_decimal(&mut s, 1_005);
    assert_eq!(s, "n=1005");
}

#[test]
fn wide_characters_count_double() {
    assert_eq!(calculate_display_width(""), 0);
    assert_eq!(calculate_display_width("abc"), 3);
    assert_eq!(calculate_display_width("中文"), 4);
    assert_eq!(calculate_display_width("a中b"), 4);
    assert_eq!(calculate_display_width("ＡＢ"), 4);
    assert_eq!(calculate_display_width("㐀"), 2);
    assert_eq!(calculate_display_width("𠀀"), 2);
    assert_eq!(calculate_display_width("✅"), 1);
}

#[test]
fn shown_width_knows_icons_and_selectors() {
    assert_eq!(display_width(""), 0);
    assert_eq!(display_width("abc"), 3);
    assert_eq!(display_width("中文"), 4);
    assert_eq!(display_width("✅ok"), 4);
    assert_eq!(display_width("🚀 Auto Proxy"), 13);
    assert_eq!(display_width("\u{26A0}\u{FE0F}"), 2);
    assert_eq!(display_width("\u{2139}"), 2);
    assert_eq!(display_width("\u{2139}\u{FE0F}x"), 3);
    assert_eq!(display_width("\u{FE0F}"), 0);
    assert_eq!(display_width("x\u{FE0F}"), 1);
    assert_eq!(display_width("ＡＢ"), 2);
}

#[test]
fn durations_are_written_with_their_units() {
    assert_eq!(format_duration(0), "0s");
    assert_eq!(format_duration(59), "59s");
    assert_eq!(format_duration(60), "1m0s");
    assert_eq!(format_duration(3_599), "59m59s");
    assert_eq!(format_duration(3_600), "1h0m0s");
    assert_eq!(format_duration(3_661), "1h1m1s");
    assert_eq!(format_duration(90_061), "25h1m1s");
}

#[test]
fn levels_have_icons_and_colours() {
    assert_eq!(LogLevel::Info.icon(), "ℹ️");
    assert_eq!(LogLevel::Success.icon(), "✅");
    assert_eq!(LogLevel::Warning.icon(), "⚠️");
    assert_eq!(LogLevel::Error.icon(), "❌");
    assert_eq!(LogLevel::Debug.icon(), "🔍");
    assert_eq!(LogLevel::Info.color(), LogColor::Cyan);
    assert_eq!(LogLevel::Success.color(), LogColor::Green);
    assert_eq!(LogLevel::Warning.color(), LogColor::Yellow);
    assert_eq!(LogLevel::Error.color(), LogColor::Red);
    assert_eq!(LogLevel::Debug.color(), LogColor::DarkGrey);
}

#[test]
fn log_keeps_the_most_recent_events() {
    let mut log = Logger::with_capacity(3);
    log.info_at(1, "one".to_string());
    log.success_at(2, "two".to_string());
    log.warning_at(3, "three".to_string());
    assert_eq!(log.len(), 3);
    assert_eq!(log.entry(0).message, "one");
    log.error_at(4, "four".to_string());
    log.debug_at(5, "five".to_string());
    assert_eq!(log.len(), 3);
    assert_eq!(log.entry(0).message, "three");
    assert_eq!(log.entry(0).level, LogLevel::Warning);
    assert_eq!(log.entry(1).message, "four");
    assert_eq!(log.entry(1).level, LogLevel::Error);
    assert_eq!(log.entry(2).message, "five");
    assert_eq!(log.entry(2).level, LogLevel::Debug);
    assert_eq!(log.entry(2).timestamp, 5);
}

#[test]
fn default_log_keeps_a_hundred_events() {
    let mut log = Logger::new();
    for i in 0..150 {
        log.log_at(i, LogLevel::Info, format!("event {}", i));
    }
    assert_eq!(log.len(), 100);
    assert_eq!(log.entry(0).message, "event 50");
    assert_eq!(log.entry(99).message, "event 149");
}

#[test]
fn log_of_capacity_zero_keeps_nothing() {
    let mut log = Logger::with_capacity(0);
    log.info_at(1, "gone".to_string());
    assert_eq!(log.len(), 0);
}

#[test]
fn log_area_shows_the_last_events_that_fit() {
    let mut log = Logger::new();
    for i in 0..10 {
        log.info_at(i, "x".to_string());
    }
    assert_eq!(log.first_visible(4), 6);
    assert_eq!(log.first_visible(10), 0);
    assert_eq!(log.first_visible(50), 0);
    assert_eq!(log.first_visible(0), 10);
}

#[test]
fn buttons_lie_in_the_action_column() {
    let buttons = layout_buttons(&pool(&["A", "B"]));
    assert_eq!(buttons.len(), 2);
    assert_eq!(buttons[0].provider_name, "A");
    assert_eq!(buttons[0].row, 6);
    assert_eq!(buttons[0].start_col, 72);
    assert_eq!(buttons[0].end_col, 82);
    assert_eq!(buttons[1].provider_name, "B");
    assert_eq!(buttons[1].row, 7);
}

#[test]
fn clicks_find_their_button() {
    let buttons = layout_buttons(&pool(&["A", "B"]));
    assert_eq!(button_at(&buttons, 72, 6), Some(0));
    assert_eq!(button_at(&buttons, 82, 7), Some(1));
    assert_eq!(button_at(&buttons, 71, 6), None);
    assert_eq!(button_at(&buttons, 83, 6), None);
    assert_eq!(button_at(&buttons, 75, 8), None);
    assert!(buttons[0].is_hit(80, 6));
    assert!(!buttons[0].is_hit(80, 7));
}

#[test]
fn keys_that_ask_to_leave() {
    assert!(is_exit_event(UiEvent::Char { c: 'q', control: false }));
    assert!(is_exit_event(UiEvent::Char { c: 'Q', control: false }));
    assert!(is_exit_event(UiEvent::Char { c: 'c', control: true }));
    assert!(is_exit_event(UiEvent::Escape));
    assert!(!is_exit_event(UiEvent::Char { c: 'c', control: false }));
    assert!(!is_exit_event(UiEvent::Char { c: 'x', control: true }));
    assert!(!is_exit_event(UiEvent::Click { column: 1, row: 1 }));
    assert!(!is_exit_event(UiEvent::Other));
}

#[test]
fn events_become_actions() {
    let buttons = layout_buttons(&pool(&["A", "B"]));
    assert_eq!(action_for(&buttons, UiEvent::Escape), UiAction::Exit);
    assert_eq!(
        action_for(&buttons, UiEvent::Click { column: 73, row: 7 }),
        UiAction::Toggle("B".to_string())
    );
    assert_eq!(action_for(&buttons, UiEvent::Click { column: 1, row: 7 }), UiAction::Nothing);
    assert_eq!(action_for(&buttons, UiEvent::Other), UiAction::Nothing);
    assert_eq!(
        action_for(&buttons, UiEvent::Char { c: 'x', control: false }),
        UiAction::Nothing
    );
}

#[test]
fn server_info_knows_its_uptime() {
    let mut info = ServerInfo::new_at(8080, 5, 1_000);
    assert_eq!(info.port, 8080);
    assert_eq!(info.rate_limit, 5);
    assert_eq!(info.uptime_at(1_000), 0);
    assert_eq!(info.uptime_at(4_661), 3_661);
    assert_eq!(info.uptime_at(999), 0);
    assert!(!info.get_network_status().is_online);
    let mut status = NetworkStatus::new();
    status.is_online = true;
    info.update_network_status(status);
    assert!(info.get_network_status().is_online);
    let early = ServerInfo::new_at(1, 1, -10);
    assert_eq!(early.uptime_at(5), 15);
    assert_eq!(early.uptime_at(-4), 6);
    let extreme = ServerInfo::new_at(1, 1, i64::MIN);
    assert_eq!(extreme.uptime_at(i64::MAX), u64::MAX);
}

#[test]
fn network_status_starts_offline() {
    let status = NetworkStatus::new();
    assert!(!status.is_online);
    assert_eq!(status.latency_ms, None);
    assert!(!status.dns_working);
    assert_eq!(status.external_ip, None);
    assert_eq!(status.error_message, None);
    assert_eq!(status.status_text(), "离线");
    assert_eq!(status.status_icon(), "🔴");
}

#[test]
fn network_status_text_lists_what_is_known() {
    let mut status = NetworkStatus::new();
    status.is_online = true;
    assert_eq!(status.status_text(), "在线");
    status.dns_working = true;
    assert_eq!(status.status_text(), "在线 | DNS正常");
    status.latency_ms = Some(42);
    assert_eq!(status.status_text(), "在线 | 延迟42ms | DNS正常");
    status.dns_working = false;
    assert_eq!(status.status_text(), "在线 | 延迟42ms");
}

#[test]
fn network_status_icon_follows_the_latency() {
    let mut status = NetworkStatus::new();
    status.is_online = true;
    assert_eq!(status.status_icon(), "🟢");
    status.latency_ms = Some(99);
    assert_eq!(status.status_icon(), "🟢");
    status.latency_ms = Some(100);
    assert_eq!(status.status_icon(), "🟡");
    status.latency_ms = Some(299);
    assert_eq!(status.status_icon(), "🟡");
    status.latency_ms = Some(300);
    assert_eq!(status.status_icon(), "🟠");
    status.is_online = false;
    assert_eq!(status.status_icon(), "🔴");
}

#[test]
fn manager_toggles_and_remembers() {
    let mut manager = InteractiveProviderManager::new();
    assert!(!manager.is_provider_disabled("A"));
    assert!(manager.toggle_provider("A"));
    assert!(manager.is_provider_disabled("A"));
    assert!(!manager.is_provider_disabled("B"));
    assert!(!manager.toggle_provider("A"));
    assert!(!manager.is_provider_disabled("A"));
}

#[test]
fn rows_are_laid_out_one_below_the_other() {
    let rows = layout_rows(&pool(&["A", "B", "C"]));
    assert_eq!(rows.len(), 3);
    for (i, row) in rows.iter().enumerate() {
        assert_eq!(row.index, i);
        assert_eq!(row.y_position, 3 + i as u16);
        assert_eq!(row.toggle_button_x, 65);
        assert_eq!(row.toggle_button_width, 8);
    }
    assert_eq!(rows[2].provider_name, "C");
}

#[test]
fn clicks_find_their_row() {
    let rows = layout_rows(&pool(&["A", "B"]));
    assert_eq!(row_at(&rows, 65, 3), Some(0));
    assert_eq!(row_at(&rows, 72, 4), Some(1));
    assert_eq!(row_at(&rows, 73, 4), None);
    assert_eq!(row_at(&rows, 64, 3), None);
    assert_eq!(row_at(&rows, 70, 5), None);
    assert!(rows[0].is_hit(70, 3));
}

#[test]
fn manager_names_the_provider_that_was_clicked() {
    let mut manager = InteractiveProviderManager::new();
    assert_eq!(manager.clicked_provider(66, 3), None);
    manager.set_rows(&pool(&["A", "B"]));
    assert_eq!(manager.clicked_provider(66, 4), Some("B".to_string()));
    assert_eq!(manager.clicked_provider(10, 4), None);
}

#[test]
fn probe_answers_name_the_address() {
    assert_eq!(address_in_document(r#"{"ip":"203.0.113.7"}"#), Some("203.0.113.7".to_string()));
    assert_eq!(address_in_document(r#"{"origin":"198.51.100.2"}"#), Some("198.51.100.2".to_string()));
    assert_eq!(
        address_in_document(r#"{"origin":"198.51.100.2","ip":"203.0.113.7"}"#),
        Some("203.0.113.7".to_string())
    );
    assert_eq!(address_in_document(r#"{"ip":7,"origin":"198.51.100.2"}"#), Some("198.51.100.2".to_string()));
    assert_eq!(address_in_document(r#"{"ip":7}"#), None);
    assert_eq!(address_in_document("203.0.113.7"), None);
    assert_eq!(address_in_document(r#""203.0.113.7""#), None);
    assert_eq!(address_in_document(""), None);
}

#[test]
fn default_manager_has_every_provider_enabled() {
    let manager = InteractiveProviderManager::default();
    assert!(!manager.is_provider_disabled("A"));
    assert_eq!(manager.clicked_provider(66, 3), None);
}

#[test]
fn probe_answers_fall_back_to_the_bare_text() {
    assert_eq!(
        address_in_answer(r#"{"ip":"203.0.113.7"}"#, "ignored", true),
        Some("203.0.113.7".to_string())
    );
    assert_eq!(
        address_in_answer(" 203.0.113.7\n", "203.0.113.7", true),
        Some("203.0.113.7".to_string())
    );
    assert_eq!(address_in_answer("<html>", "<html>", false), None);
    assert_eq!(address_in_answer(r#"{"ip":7}"#, r#"{"ip":7}"#, false), None);
}

#[test]
fn status_without_name_resolution_is_offline() {
    let status = status_from_probes(
        Err("no route".to_string()),
        Some((12, Some("203.0.113.7".to_string()))),
        Some(30),
    );
    assert!(!status.is_online);
    assert!(!status.dns_working);
    assert_eq!(status.latency_ms, None);
    assert_eq!(status.external_ip, None);
    assert_eq!(status.error_message, Some("DNS解析失败: no route".to_string()));
}

#[test]
fn status_follows_the_first_probe_that_answered() {
    let status = status_from_probes(Ok(()), Some((12, Some("203.0.113.7".to_string()))), Some(30));
    assert!(status.is_online);
    assert!(status.dns_working);
    assert_eq!(status.latency_ms, Some(12));
    assert_eq!(status.external_ip, Some("203.0.113.7".to_string()));
    assert_eq!(status.error_message, None);
    let status = status_from_probes(Ok(()), Some((15, None)), None);
    assert!(status.is_online);
    assert_eq!(status.latency_ms, Some(15));
    assert_eq!(status.external_ip, None);
}

#[test]
fn status_falls_back_to_the_plain_connection() {
    let status = status_from_probes(Ok(()), None, Some(30));
    assert!(status.is_online);
    assert!(status.dns_working);
    assert_eq!(status.latency_ms, Some(30));
    assert_eq!(status.external_ip, None);
    let status = status_from_probes(Ok(()), None, None);
    assert!(!status.is_online);
    assert!(status.dns_working);
    assert_eq!(status.latency_ms, None);
    assert_eq!(status.error_message, None);
}
