use auto_proxy::dispatch::{DispatchMode, Outcome};
use auto_proxy::events::{
    describe_status, forward_event, outcome_event, outcome_event_for, status_description,
};
use auto_proxy::ui::{
    format_table_row, format_text_with_width, name_padding, score_color, score_icon,
    status_code_color, status_code_text, LogColor, LogLevel, ScoreColor, TextAlign,
};

#[test]
fn statuses_are_described_by_number_and_phrase() {
    assert_eq!(describe_status(200), "200 OK");
    assert_eq!(describe_status(404), "404 Not Found");
    assert_eq!(describe_status(500), "500 Internal Server Error");
    assert_eq!(describe_status(529), "529 <unknown status code>");
}

#[test]
fn numbers_that_are_no_status_are_written_alone() {
    assert_eq!(describe_status(0), "0");
    assert_eq!(describe_status(99), "99");
    assert_eq!(describe_status(1000), "1000");
}

#[test]
fn description_follows_the_phrase_it_is_given() {
    assert_eq!(status_description(418, Some(Some("I'm a teapot".to_string()))), "418 I'm a teapot");
    assert_eq!(status_description(418, Some(None)), "418 <unknown status code>");
    assert_eq!(status_description(418, None), "418");
}

#[test]
fn forward_events_name_the_provider() {
    assert_eq!(
        forward_event(DispatchMode::Normal, "GET", "/v1/messages", "A"),
        (LogLevel::Info, "🔄 GET /v1/messages 转发至 A".to_string())
    );
    assert_eq!(
        forward_event(DispatchMode::Emergency, "POST", "/v1/messages", "B"),
        (LogLevel::Warning, "🚨 紧急模式 POST /v1/messages 转发至 B".to_string())
    );
}

#[test]
fn outcome_events_tell_how_an_attempt_ended() {
    assert_eq!(
        outcome_event(DispatchMode::Normal, "GET", "/x", "A", Outcome::Status(200), "200 OK"),
        (LogLevel::Success, "✅ GET /x → A [200]".to_string())
    );
    assert_eq!(
        outcome_event(
            DispatchMode::Normal,
            "GET",
            "/x",
            "A",
            Outcome::Status(500),
            "500 Internal Server Error"
        ),
        (LogLevel::Warning, "❌ GET /x → A [500 Internal Server Error]".to_string())
    );
    assert_eq!(
        outcome_event(DispatchMode::Normal, "GET", "/x", "A", Outcome::NetworkError, "timed out"),
        (LogLevel::Error, "❌ GET /x → A [网络错误: timed out]".to_string())
    );
}

#[test]
fn emergency_outcome_events_are_tagged() {
    assert_eq!(
        outcome_event(DispatchMode::Emergency, "GET", "/x", "A", Outcome::Status(204), ""),
        (LogLevel::Success, "✅ 紧急模式 GET /x → A [204]".to_string())
    );
    assert_eq!(
        outcome_event(DispatchMode::Emergency, "GET", "/x", "A", Outcome::Status(503), "503 S"),
        (LogLevel::Error, "❌ 紧急模式 GET /x → A [503 S]".to_string())
    );
    assert_eq!(
        outcome_event(DispatchMode::Emergency, "GET", "/x", "A", Outcome::NetworkError, "reset"),
        (LogLevel::Error, "❌ 紧急模式 GET /x → A [网络错误: reset]".to_string())
    );
}

#[test]
fn outcome_events_put_the_status_in_words() {
    assert_eq!(
        outcome_event_for(DispatchMode::Normal, "GET", "/x", "A", Outcome::Status(429), "unused"),
        (LogLevel::Warning, "❌ GET /x → A [429 Too Many Requests]".to_string())
    );
    assert_eq!(
        outcome_event_for(DispatchMode::Normal, "GET", "/x", "A", Outcome::Status(201), "unused"),
        (LogLevel::Success, "✅ GET /x → A [201]".to_string())
    );
    assert_eq!(
        outcome_event_for(DispatchMode::Normal, "GET", "/x", "A", Outcome::NetworkError, "boom"),
        (LogLevel::Error, "❌ GET /x → A [网络错误: boom]".to_string())
    );
}

#[test]
fn short_texts_are_padded() {
    assert_eq!(format_text_with_width("ab", 6, TextAlign::Center), "  ab  ");
    assert_eq!(format_text_with_width("ab", 7, TextAlign::Center), "  ab   ");
    assert_eq!(format_text_with_width("ab", 6, TextAlign::Right), "    ab");
    assert_eq!(format_text_with_width("状态", 8, TextAlign::Center), "  状态  ");
    assert_eq!(format_text_with_width("", 3, TextAlign::Right), "   ");
    assert_eq!(format_text_with_width("100%", 8, TextAlign::Right), "    100%");
}

#[test]
fn long_texts_are_cut_with_an_ellipsis() {
    assert_eq!(format_text_with_width("abcdef", 6, TextAlign::Center), "abcde…");
    assert_eq!(format_text_with_width("abcdefgh", 4, TextAlign::Right), "abc…");
    assert_eq!(format_text_with_width("中文中文", 5, TextAlign::Center), "中文…");
    assert_eq!(format_text_with_width("中文中文", 6, TextAlign::Center), "中文… ");
    assert_eq!(format_text_with_width("x", 1, TextAlign::Center), "…");
    assert_eq!(format_text_with_width("", 0, TextAlign::Center), "");
}

#[test]
fn texts_that_fit_their_cut_are_filled_with_spaces() {
    // The sign with its selector shows two columns wide, but counts one
    // column for each of its two characters when the text is cut.
    assert_eq!(format_text_with_width("\u{26A0}\u{FE0F}", 2, TextAlign::Center), "\u{26A0}…");
    assert_eq!(format_text_with_width("\u{2139}", 2, TextAlign::Center), "\u{2139} ");
}

#[test]
fn table_rows_are_their_cells_in_a_row() {
    assert_eq!(format_table_row("a", "b", "c", "d", "e", "f", "g"), "abcdefg");
    assert_eq!(format_table_row("", "", "", "", "", "", ""), "");
}

#[test]
fn scores_have_icons() {
    assert_eq!(score_icon(100), "🟢");
    assert_eq!(score_icon(90), "🟢");
    assert_eq!(score_icon(89), "🟡");
    assert_eq!(score_icon(70), "🟡");
    assert_eq!(score_icon(69), "🟠");
    assert_eq!(score_icon(40), "🟠");
    assert_eq!(score_icon(39), "🔴");
    assert_eq!(score_icon(20), "🔴");
    assert_eq!(score_icon(19), "💀");
    assert_eq!(score_icon(0), "💀");
    assert_eq!(score_icon(101), "💀");
}

#[test]
fn last_statuses_are_shown_in_words_and_colours() {
    assert_eq!(status_code_text(None), "--");
    assert_eq!(status_code_text(Some(0)), "网络错误");
    assert_eq!(status_code_text(Some(200)), "200");
    assert_eq!(status_code_text(Some(503)), "503");
    assert_eq!(status_code_color(None), LogColor::DarkGrey);
    assert_eq!(status_code_color(Some(0)), LogColor::DarkGrey);
    assert_eq!(status_code_color(Some(200)), LogColor::Green);
    assert_eq!(status_code_color(Some(299)), LogColor::Green);
    assert_eq!(status_code_color(Some(302)), LogColor::DarkGrey);
    assert_eq!(status_code_color(Some(404)), LogColor::Yellow);
    assert_eq!(status_code_color(Some(500)), LogColor::Red);
}

#[test]
fn scores_have_colours() {
    assert_eq!(score_color(100), ScoreColor::Green);
    assert_eq!(score_color(90), ScoreColor::Green);
    assert_eq!(score_color(89), ScoreColor::Yellow);
    assert_eq!(score_color(70), ScoreColor::Yellow);
    assert_eq!(score_color(69), ScoreColor::DarkYellow);
    assert_eq!(score_color(40), ScoreColor::DarkYellow);
    assert_eq!(score_color(39), ScoreColor::Red);
    assert_eq!(score_color(20), ScoreColor::Red);
    assert_eq!(score_color(19), ScoreColor::DarkRed);
    assert_eq!(score_color(0), ScoreColor::DarkRed);
}

#[test]
fn names_are_padded_to_their_column() {
    assert_eq!(name_padding(0), 15);
    assert_eq!(name_padding(14), 1);
    assert_eq!(name_padding(15), 1);
    assert_eq!(name_padding(40), 1);
}
