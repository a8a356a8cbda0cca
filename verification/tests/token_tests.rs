use auto_proxy::chars::{
    chars_of, count_han, count_words, has_char, has_word, is_han_char, is_space_char, stands_at,
    text_has_word,
};
use auto_proxy::json::{get_items, get_number, get_text};
use auto_proxy::token::{add_counts, same_text, TokenCalculator};

fn doc(text: &str) -> serde_json::Value {
    serde_json::from_str(text).unwrap()
}

fn cs(text: &str) -> Vec<char> {
    text.chars().collect()
}

#[test]
fn characters_are_listed_in_order() {
    assert_eq!(chars_of(""), Vec::<char>::new());
    assert_eq!(chars_of("aé中"), vec!['a', 'é', '中']);
}

#[test]
fn white_space_is_what_unicode_says() {
    for c in [' ', '\t', '\n', '\r', '\u{0B}', '\u{0C}', '\u{85}', '\u{A0}', '\u{1680}', '\u{2003}', '\u{2028}', '\u{2029}', '\u{202F}', '\u{205F}', '\u{3000}'] {
        assert!(is_space_char(c));
    }
    for c in ['a', '0', '\u{200B}', '\u{180E}', '中', '\u{1F}', '\u{0E}'] {
        assert!(!is_space_char(c));
    }
    let mut c = 0u32;
    while c < 0x3100 {
        if let Some(ch) = char::from_u32(c) {
            assert_eq!(is_space_char(ch), ch.is_whitespace());
        }
        c += 1;
    }
}

#[test]
fn han_ideographs_are_recognised() {
    assert!(is_han_char('中'));
    assert!(is_han_char('\u{3400}'));
    assert!(is_han_char('\u{20000}'));
    assert!(!is_han_char('a'));
    assert!(!is_han_char('Ａ'));
    assert_eq!(count_han(&cs("a中b文c")), 2);
}

#[test]
fn words_are_counted_between_white_space() {
    assert_eq!(count_words(&cs("")), 0);
    assert_eq!(count_words(&cs("   ")), 0);
    assert_eq!(count_words(&cs("one")), 1);
    assert_eq!(count_words(&cs("  one   two\tthree\n")), 3);
    for text in ["a b  c", " x", "x ", "\u{3000}中文 字", "a\u{A0}b"] {
        assert_eq!(count_words(&cs(text)), text.split_whitespace().count());
    }
}

#[test]
fn words_and_characters_are_found_in_texts() {
    assert!(has_char(&cs("a{b"), '{'));
    assert!(!has_char(&cs("ab"), '{'));
    assert!(stands_at(&cs("hello"), &cs("ll"), 2));
    assert!(!stands_at(&cs("hello"), &cs("ll"), 3));
    assert!(!stands_at(&cs("hello"), &cs("lo"), 4));
    assert!(has_word(&cs("a function here"), &cs("function")));
    assert!(!has_word(&cs("functio"), &cs("function")));
    assert!(has_word(&cs("abc"), &cs("")));
    assert!(has_word(&cs(""), &cs("")));
    assert!(!has_word(&cs(""), &cs("a")));
    assert!(text_has_word("/v1/messages", "messages"));
    assert!(!text_has_word("/v1/message", "messages"));
}

#[test]
fn counts_add_up_to_the_largest_number() {
    assert_eq!(add_counts(1, 2), 3);
    assert_eq!(add_counts(u64::MAX, 1), u64::MAX);
    assert_eq!(add_counts(u64::MAX - 1, 1), u64::MAX);
    assert!(same_text("image", "image"));
    assert!(!same_text("image", "images"));
}

#[test]
fn members_are_read_by_their_kind() {
    let d = doc(r#"{"t":"x","n":7,"neg":-1,"f":1.5,"a":[1,2],"o":{}}"#);
    assert_eq!(get_text(&d, "t"), Some("x"));
    assert_eq!(get_text(&d, "n"), None);
    assert_eq!(get_text(&d, "missing"), None);
    assert_eq!(get_number(&d, "n"), Some(7));
    assert_eq!(get_number(&d, "neg"), None);
    assert_eq!(get_number(&d, "f"), None);
    assert_eq!(get_number(&d, "t"), None);
    assert_eq!(get_items(&d, "a").map(|l| l.len()), Some(2));
    assert_eq!(get_items(&d, "o").map(|l| l.len()), None);
    assert_eq!(get_text(&doc("[1]"), "t"), None);
}

#[test]
fn text_tokens_follow_words_ideographs_and_length() {
    assert_eq!(TokenCalculator::estimate_text_tokens(""), 0);
    // One word: 1.3 rounded down; five characters: one quarter.
    assert_eq!(TokenCalculator::estimate_text_tokens("hello"), 1);
    // Ten words: 13.
    assert_eq!(TokenCalculator::estimate_text_tokens("a b c d e f g h i j"), 13);
    // Four ideographs, one word.
    assert_eq!(TokenCalculator::estimate_text_tokens("中文中文"), 4);
    // One word of forty characters: ten.
    assert_eq!(TokenCalculator::estimate_text_tokens(&"x".repeat(40)), 10);
    assert_eq!(TokenCalculator::estimate_text_tokens("   "), 0);
}

#[test]
fn code_counts_half_as_much_again() {
    assert_eq!(TokenCalculator::estimate_text_tokens("a b c d e f g h i {}"), 19);
    assert_eq!(TokenCalculator::estimate_text_tokens("a b c d e f g h i {"), 13);
    assert_eq!(TokenCalculator::estimate_text_tokens("a b c d e f g h i ```"), 19);
    assert_eq!(TokenCalculator::estimate_text_tokens("one function two three four"), 9);
    assert_eq!(TokenCalculator::estimate_text_tokens("my class is a good one here"), 13);
    assert_eq!(TokenCalculator::estimate_text_tokens("the classes are good ones"), 6);
}

#[test]
fn content_is_a_text_or_a_list_of_parts() {
    assert_eq!(TokenCalculator::estimate_content_tokens(&doc(r#""a b c d e f g h i j""#)), 13);
    assert_eq!(TokenCalculator::estimate_content_tokens(&doc("42")), 20);
    assert_eq!(TokenCalculator::estimate_content_tokens(&doc("{}")), 20);
    assert_eq!(TokenCalculator::estimate_content_tokens(&doc("[]")), 0);
    let parts = doc(
        r#"[{"type":"text","text":"a b c d e f g h i j"},{"type":"image","source":{}},"skipped",{"type":"image","text":"中文中文"}]"#,
    );
    assert_eq!(TokenCalculator::estimate_content_tokens(&parts), 13 + 85 + 85 + 4);
}

#[test]
fn paths_add_their_tokens() {
    assert_eq!(TokenCalculator::estimate_path_tokens("/v1/messages"), 5);
    assert_eq!(TokenCalculator::estimate_path_tokens("/v1/chat/completions"), 5);
    assert_eq!(TokenCalculator::estimate_path_tokens("/v1/completions"), 3);
    assert_eq!(TokenCalculator::estimate_path_tokens("/v1/models"), 2);
}

#[test]
fn request_documents_are_estimated_by_their_fields() {
    // 10 + 13 (message) + 150 (no limit named) + 5 (path).
    let d = doc(r#"{"messages":[{"role":"user","content":"a b c d e f g h i j"}]}"#);
    assert_eq!(TokenCalculator::estimate_from_json(&d, "/v1/messages"), 178);
    // 10 + 13 + 13 (system) + 50 (half the limit) + 2.
    let d = doc(
        r#"{"messages":[{"content":"a b c d e f g h i j"},{"role":"x"}],"system":"a b c d e f g h i j","max_tokens":100}"#,
    );
    assert_eq!(TokenCalculator::estimate_from_json(&d, "/x"), 88);
    // Messages come before a prompt, a prompt before an input.
    let d = doc(r#"{"prompt":"a b c d e f g h i j","input":"中文中文","max_tokens":0}"#);
    assert_eq!(TokenCalculator::estimate_from_json(&d, "/v1/completions"), 10 + 13 + 3);
    let d = doc(r#"{"input":["x"],"max_tokens":1}"#);
    assert_eq!(TokenCalculator::estimate_from_json(&d, "/x"), 15);
    let d = doc(r#"{"input":7,"max_tokens":2}"#);
    assert_eq!(TokenCalculator::estimate_from_json(&d, "/x"), 10 + 20 + 1 + 2);
}

#[test]
fn request_estimates_stay_in_their_range() {
    assert_eq!(TokenCalculator::estimate_from_json(&doc("[]"), "/x"), 15);
    assert_eq!(TokenCalculator::estimate_from_json(&doc(r#"{"max_tokens":0}"#), "/x"), 15);
    let d = doc(r#"{"max_tokens":18446744073709551615}"#);
    assert_eq!(TokenCalculator::estimate_from_json(&d, "/x"), 100000);
}

#[test]
fn bodies_that_are_no_documents_fall_back_to_their_length() {
    assert_eq!(TokenCalculator::fallback_estimation(0, 0), 15);
    assert_eq!(TokenCalculator::fallback_estimation(300, 12), 118);
    assert_eq!(TokenCalculator::fallback_estimation(1_000_000, 0), 80000);
    assert_eq!(TokenCalculator::estimate_request_usage(Some("not json"), 8, "/v1/messages"), 20);
    assert_eq!(TokenCalculator::estimate_request_usage(None, 300, "/v1/messages"), 118);
    assert_eq!(TokenCalculator::estimate_request_usage(Some("{}"), 2, "/v1/messages"), 165);
}

#[test]
fn answers_report_their_tokens_or_are_estimated() {
    let d = doc(r#"{"choices":[{"message":{"content":"a b c d e f g h i j"},"text":"中文中文"}]}"#);
    assert_eq!(TokenCalculator::estimate_response_from_json(&d), 17);
    let d = doc(r#"{"content":[{"type":"text","text":"a b c d e f g h i j"}]}"#);
    assert_eq!(TokenCalculator::estimate_response_from_json(&d), 13);
    let d = doc(r#"{"text":"a b c d e f g h i j","usage":{"completion_tokens":7}}"#);
    assert_eq!(TokenCalculator::estimate_response_from_json(&d), 7);
    let d = doc(r#"{"text":"a b c d e f g h i j","usage":{"completion_tokens":0}}"#);
    assert_eq!(TokenCalculator::estimate_response_from_json(&d), 0);
    assert_eq!(TokenCalculator::estimate_response_from_json(&doc("{}")), 1);
    assert_eq!(TokenCalculator::estimate_response_from_json(&doc("[1,2]")), 1);
    assert_eq!(TokenCalculator::estimate_response_usage(r#"{"text":"a b c d e f g h i j"}"#, true), 13);
    assert_eq!(TokenCalculator::estimate_response_usage("a b c d e f g h i j", true), 13);
    // A body that was no valid text is counted as text, though it reads as a document.
    assert_eq!(
        TokenCalculator::estimate_response_usage(r#"{"usage":{"completion_tokens":7}}"#, false),
        12
    );
}

#[test]
fn expected_answers_follow_the_size_of_the_request() {
    assert_eq!(TokenCalculator::expected_reply(0), 0);
    assert_eq!(TokenCalculator::expected_reply(15), 22);
    assert_eq!(TokenCalculator::expected_reply(99), 148);
    assert_eq!(TokenCalculator::expected_reply(100), 120);
    assert_eq!(TokenCalculator::expected_reply(499), 598);
    assert_eq!(TokenCalculator::expected_reply(500), 400);
    assert_eq!(TokenCalculator::expected_reply(999), 799);
    assert_eq!(TokenCalculator::expected_reply(1000), 600);
    assert_eq!(TokenCalculator::expected_reply(100000), 60000);
    assert_eq!(TokenCalculator::expected_reply(1_000_000_007), 600_000_004);
    assert_eq!(TokenCalculator::expected_reply(u64::MAX), 11_068_046_444_225_730_969);
    for input in 0..=100000u64 {
        let factor = if input < 100 {
            1.5
        } else if input < 500 {
            1.2
        } else if input < 1000 {
            0.8
        } else {
            0.6
        };
        assert_eq!(TokenCalculator::expected_reply(input), ((input as f64) * factor) as u64);
    }
}

#[test]
fn whole_number_factors_agree_with_decimal_ones() {
    for words in (0..50u64).chain((0..20u64).map(|k| 997 * k + 3)) {
        let text = "w ".repeat(words as usize);
        let expected = if words == 0 {
            0
        } else {
            (((words as f64) * 1.3) as u64).max(words * 2 / 4)
        };
        assert_eq!(TokenCalculator::estimate_text_tokens(&text), expected);
    }
}

#[test]
fn usage_of_a_request_is_its_tokens_and_those_expected_back() {
    let body = r#"{"messages":[{"role":"user","content":"a b c d e f g h i j"}]}"#;
    assert_eq!(TokenCalculator::estimate_request_usage(Some(body), body.len(), "/v1/messages"), 178);
    assert_eq!(TokenCalculator::estimate_response_from_request(Some(body), body.len(), "/v1/messages"), 213);
    assert_eq!(
        TokenCalculator::estimate_conversation_usage(Some(body), body.len(), "/v1/messages"),
        (178, 213, 391)
    );
    assert_eq!(TokenCalculator::estimate_usage(Some(body), body.len(), "/v1/messages"), 391);
    assert_eq!(TokenCalculator::estimate_usage(None, 0, "/"), 15 + 22);
    assert_eq!(
        TokenCalculator::estimate_total_usage(Some(body), body.len(), "/v1/messages", r#"{"usage":{"completion_tokens":9}}"#, true),
        (178, 9, 187)
    );
}
