//! Estimates of the tokens that requests and answers count for, and the
//! width that a text takes on a terminal.
//!
//! The estimates are whole numbers throughout: a factor such as 1.3 is
//! thirteen tenths, rounded down. Sums stay at the largest number that fits.

use vstd::prelude::*;
use vstd::string::*;
use crate::chars::{
    chars_of, count_han, count_words, han_count, has_char, has_word, occurs, text_has_word,
    word_count,
};
use crate::json::{
    get_items, get_number, get_text, is_object, items, items_member, json_is_object, json_items,
    json_member, json_parse, json_text, member, number_member, parse, text, text_member,
};

verus! {

/// Whether a character is a CJK ideograph or a full-width form, which take
/// two columns.
pub open spec fn is_wide(c: char) -> bool {
    let cp = c as u32;
    ||| 0x4E00 <= cp <= 0x9FFF
    ||| 0x3400 <= cp <= 0x4DBF
    ||| 0x20000 <= cp <= 0x2A6DF
    ||| 0xFF00 <= cp <= 0xFFEF
}

/// Columns that the first `count` characters of `text` take: two for each
/// wide one, one for each other.
pub open spec fn columns(text: Seq<char>, count: int) -> nat
    decreases count,
{
    if count <= 0 {
        0
    } else {
        columns(text, count - 1) + if is_wide(text[count - 1]) {
            2nat
        } else {
            1nat
        }
    }
}

/// Columns that `text` takes on a terminal, wide characters counting double.
/// The result stays at the largest number that fits.
pub fn calculate_display_width(text: &str) -> (r: usize)
    ensures
        r as nat == if columns(text@, text@.len() as int) <= usize::MAX {
            columns(text@, text@.len() as int)
        } else {
            usize::MAX as nat
        },
{
    let chars = chars_of(text);
    let n = chars.len();
    let mut width: usize = 0;
    let mut i: usize = 0;
    while i < n
        invariant
            chars@ == text@,
            n == text@.len(),
            i <= n,
            width as nat == if columns(text@, i as int) <= usize::MAX {
                columns(text@, i as int)
            } else {
                usize::MAX as nat
            },
        decreases n - i,
    {
        let c = chars[i];
        let cp = c as u32;
        let w: usize = if (0x4E00 <= cp && cp <= 0x9FFF) || (0x3400 <= cp && cp <= 0x4DBF) || (0x20000
            <= cp && cp <= 0x2A6DF) || (0xFF00 <= cp && cp <= 0xFFEF) {
            2
        } else {
            1
        };
        width = if width > usize::MAX - w {
            usize::MAX
        } else {
            width + w
        };
        i = i + 1;
    }
    width
}

/// A count as a number of 64 bits: itself, or the largest such number where
/// it does not fit.
pub open spec fn clamp64(n: nat) -> u64 {
    if n > u64::MAX {
        u64::MAX
    } else {
        n as u64
    }
}

/// A count held between `low` and `high`.
pub open spec fn bounded(n: nat, low: nat, high: nat) -> nat {
    if n < low {
        if low < high {
            low
        } else {
            high
        }
    } else if n > high {
        high
    } else {
        n
    }
}

/// The larger of two counts.
pub open spec fn larger(a: nat, b: nat) -> nat {
    if a >= b {
        a
    } else {
        b
    }
}

/// Whether a text looks like code: it has both braces, a code fence, or one
/// of the words `function` and `class`.
pub open spec fn looks_like_code(text: Seq<char>) -> bool {
    ||| (text.contains('{') && text.contains('}'))
    ||| occurs(text, "```"@)
    ||| occurs(text, "function"@)
    ||| occurs(text, "class "@)
}

/// Tokens of a text: 1.3 for each word, or one for each Han ideograph, or
/// one for every four characters, whichever is most; and half as much again
/// for what looks like code. An empty text has none.
pub open spec fn text_tokens(text: Seq<char>) -> nat {
    if text.len() == 0 {
        0
    } else {
        let english = word_count(text, text.len() as int) * 13 / 10;
        let han = han_count(text, text.len() as int);
        let base = larger(larger(english, han), text.len() / 4);
        if looks_like_code(text) {
            base * 3 / 2
        } else {
            base
        }
    }
}

/// Tokens of one part of a content list: those of its text, and 85 for an
/// image. A part that is no object has none.
pub open spec fn part_tokens(item: serde_json::Value) -> nat {
    if json_is_object(item) {
        (match text_member(item, "text"@) {
            Some(t) => text_tokens(t),
            None => 0,
        }) + if text_member(item, "type"@) == Some("image"@) {
            85nat
        } else {
            0nat
        }
    } else {
        0
    }
}

/// Tokens of the first `upto` parts of a content list.
pub open spec fn parts_tokens(list: Seq<serde_json::Value>, upto: int) -> nat
    decreases upto,
{
    if upto <= 0 {
        0
    } else {
        parts_tokens(list, upto - 1) + part_tokens(list[upto - 1])
    }
}

/// Tokens of a content: those of a text, or of the parts of a list; 20 for
/// anything else.
pub open spec fn content_tokens(content: serde_json::Value) -> nat {
    match json_text(content) {
        Some(t) => text_tokens(t),
        None => match json_items(content) {
            Some(list) => parts_tokens(list, list.len() as int),
            None => 20,
        },
    }
}

/// Tokens of the contents of the first `upto` messages.
pub open spec fn messages_tokens(list: Seq<serde_json::Value>, upto: int) -> nat
    decreases upto,
{
    if upto <= 0 {
        0
    } else {
        messages_tokens(list, upto - 1) + match json_member(list[upto - 1], "content"@) {
            Some(c) => content_tokens(c),
            None => 0,
        }
    }
}

/// Tokens of what a request asks: its messages, or else its prompt, or else
/// its input.
pub open spec fn asked_tokens(json: serde_json::Value) -> nat {
    match items_member(json, "messages"@) {
        Some(list) => messages_tokens(list, list.len() as int),
        None => match text_member(json, "prompt"@) {
            Some(p) => text_tokens(p),
            None => match json_member(json, "input"@) {
                Some(i) => content_tokens(i),
                None => 0,
            },
        },
    }
}

/// Tokens that the path of a request adds.
pub open spec fn path_tokens(path: Seq<char>) -> nat {
    if occurs(path, "messages"@) || occurs(path, "chat"@) {
        5
    } else if occurs(path, "completions"@) {
        3
    } else {
        2
    }
}

/// Tokens of a request whose body is the document `json`: ten for the call;
/// for an object what it asks, its system prompt, and half of the answer's
/// limit or 150 where it names none; and those of the path. At least 15 and
/// at most 100000.
pub open spec fn request_tokens(json: serde_json::Value, path: Seq<char>) -> nat {
    let body = if json_is_object(json) {
        asked_tokens(json) + (match text_member(json, "system"@) {
            Some(t) => text_tokens(t),
            None => 0,
        }) + match number_member(json, "max_tokens"@) {
            Some(max) => (max / 2) as nat,
            None => 150,
        }
    } else {
        0
    };
    bounded(10 + body + path_tokens(path), 15, 100000)
}

/// Tokens of a request whose body is no document: a third of the body's
/// bytes, a quarter of the path's, and 15; at least 10 and at most 80000.
pub open spec fn fallback_tokens(body_len: nat, path_len: nat) -> nat {
    bounded(body_len / 3 + path_len / 4 + 15, 10, 80000)
}

/// Tokens of a request: those of its document where the body is text that
/// is one, else the fallback.
pub open spec fn input_tokens(body: Option<Seq<char>>, body_len: nat, path: Seq<char>, path_len: nat) -> nat {
    match body {
        Some(t) => match json_parse(t) {
            Some(json) => request_tokens(json, path),
            None => fallback_tokens(body_len, path_len),
        },
        None => fallback_tokens(body_len, path_len),
    }
}

/// Tokens that the answer to a request of `input` tokens is expected to
/// take: one and a half times as many for a short request, then 1.2, 0.8
/// and 0.6 times as many as requests grow.
pub open spec fn expected_reply_tokens(input: nat) -> nat {
    if input < 100 {
        input * 3 / 2
    } else if input < 500 {
        input * 6 / 5
    } else if input < 1000 {
        input * 4 / 5
    } else {
        input * 3 / 5
    }
}

/// Tokens of the first `upto` choices of an answer: for each the content of
/// its message and its text.
pub open spec fn choices_tokens(list: Seq<serde_json::Value>, upto: int) -> nat
    decreases upto,
{
    if upto <= 0 {
        0
    } else {
        choices_tokens(list, upto - 1) + (match json_member(list[upto - 1], "message"@) {
            Some(m) => match text_member(m, "content"@) {
                Some(t) => text_tokens(t),
                None => 0,
            },
            None => 0,
        }) + match text_member(list[upto - 1], "text"@) {
            Some(t) => text_tokens(t),
            None => 0,
        }
    }
}

/// Tokens of what an answer says: its choices, or else its content, or else
/// its text.
pub open spec fn said_tokens(json: serde_json::Value) -> nat {
    match items_member(json, "choices"@) {
        Some(list) => choices_tokens(list, list.len() as int),
        None => match json_member(json, "content"@) {
            Some(c) => content_tokens(c),
            None => match text_member(json, "text"@) {
                Some(t) => text_tokens(t),
                None => 0,
            },
        },
    }
}

/// The count of completion tokens that an answer reports for itself.
pub open spec fn reported_tokens(json: serde_json::Value) -> Option<u64> {
    match json_member(json, "usage"@) {
        Some(u) => number_member(u, "completion_tokens"@),
        None => None,
    }
}

/// Tokens of an answer that is the document `json`: what an object reports
/// for itself, else what it says, and at least one.
pub open spec fn reply_tokens(json: serde_json::Value) -> nat {
    if json_is_object(json) {
        match reported_tokens(json) {
            Some(n) => n as nat,
            None => larger(said_tokens(json), 1),
        }
    } else {
        1
    }
}

/// Tokens of an answer: those of its document where it is valid text that
/// is one, else those of its text.
pub open spec fn output_tokens(text: Seq<char>, valid: bool) -> nat {
    if valid {
        match json_parse(text) {
            Some(json) => reply_tokens(json),
            None => text_tokens(text),
        }
    } else {
        text_tokens(text)
    }
}

/// The sum of two counts, held at the largest number that fits.
pub fn add_counts(a: u64, b: u64) -> (r: u64)
    ensures
        r == clamp64(a as nat + b as nat),
{
    if b > u64::MAX - a {
        u64::MAX
    } else {
        a + b
    }
}

/// Whether two texts are the same.
pub fn same_text(a: &str, b: &str) -> (r: bool)
    ensures
        r == (a@ == b@),
{
    let x = a.to_owned();
    let y = b.to_owned();
    x == y
}

/// Estimates of token usage.
pub struct TokenCalculator;

impl TokenCalculator {
    /// Tokens of a text.
    pub fn estimate_text_tokens(text: &str) -> (r: u64)
        ensures
            r == clamp64(text_tokens(text@)),
    {
        let chars = chars_of(text);
        if chars.len() == 0 {
            return 0;
        }
        let words = count_words(&chars) as u128;
        let han = count_han(&chars) as u128;
        let quarter = (chars.len() / 4) as u128;
        let english = words * 13 / 10;
        let most = if english >= han {
            english
        } else {
            han
        };
        let base = if most >= quarter {
            most
        } else {
            quarter
        };
        let fence = chars_of("```");
        let function = chars_of("function");
        let class = chars_of("class ");
        let code = (has_char(&chars, '{') && has_char(&chars, '}')) || has_word(&chars, &fence)
            || has_word(&chars, &function) || has_word(&chars, &class);
        let total: u128 = if code {
            base * 3 / 2
        } else {
            base
        };
        if total > u64::MAX as u128 {
            u64::MAX
        } else {
            total as u64
        }
    }

    /// Tokens of one part of a content list.
    fn estimate_part_tokens(item: &serde_json::Value) -> (r: u64)
        ensures
            r == clamp64(part_tokens(*item)),
    {
        if !is_object(item) {
            return 0;
        }
        let words = match get_text(item, "text") {
            Some(t) => Self::estimate_text_tokens(t),
            None => 0,
        };
        let image: u64 = match get_text(item, "type") {
            Some(kind) => if same_text(kind, "image") {
                85
            } else {
                0
            },
            None => 0,
        };
        add_counts(words, image)
    }

    /// Tokens of a content: a text, or a list of parts.
    pub fn estimate_content_tokens(content: &serde_json::Value) -> (r: u64)
        ensures
            r == clamp64(content_tokens(*content)),
    {
        match text(content) {
            Some(t) => Self::estimate_text_tokens(t),
            None => match items(content) {
                Some(list) => {
                    let mut tokens: u64 = 0;
                    let mut i: usize = 0;
                    while i < list.len()
                        invariant
                            i <= list.len(),
                            tokens == clamp64(parts_tokens(list@, i as int)),
                        decreases list.len() - i,
                    {
                        tokens = add_counts(tokens, Self::estimate_part_tokens(&list[i]));
                        i = i + 1;
                    }
                    tokens
                },
                None => 20,
            },
        }
    }

    /// Tokens of the contents of a list of messages.
    fn estimate_messages_tokens(list: &Vec<serde_json::Value>) -> (r: u64)
        ensures
            r == clamp64(messages_tokens(list@, list.len() as int)),
    {
        let mut tokens: u64 = 0;
        let mut i: usize = 0;
        while i < list.len()
            invariant
                i <= list.len(),
                tokens == clamp64(messages_tokens(list@, i as int)),
            decreases list.len() - i,
        {
            let more = match member(&list[i], "content") {
                Some(c) => Self::estimate_content_tokens(c),
                None => 0,
            };
            tokens = add_counts(tokens, more);
            i = i + 1;
        }
        tokens
    }

    /// Tokens that the path of a request adds.
    pub fn estimate_path_tokens(path: &str) -> (r: u64)
        ensures
            r == path_tokens(path@),
    {
        if text_has_word(path, "messages") || text_has_word(path, "chat") {
            5
        } else if text_has_word(path, "completions") {
            3
        } else {
            2
        }
    }

    /// Tokens of a request whose body is the document `json`.
    pub fn estimate_from_json(json: &serde_json::Value, path: &str) -> (r: u64)
        ensures
            r == request_tokens(*json, path@),
            15 <= r <= 100000,
    {
        let mut total: u64 = 10;
        if is_object(json) {
            let asked = match get_items(json, "messages") {
                Some(list) => Self::estimate_messages_tokens(list),
                None => match get_text(json, "prompt") {
                    Some(p) => Self::estimate_text_tokens(p),
                    None => match member(json, "input") {
                        Some(i) => Self::estimate_content_tokens(i),
                        None => 0,
                    },
                },
            };
            total = add_counts(total, asked);
            let system = match get_text(json, "system") {
                Some(t) => Self::estimate_text_tokens(t),
                None => 0,
            };
            total = add_counts(total, system);
            let reply: u64 = match get_number(json, "max_tokens") {
                Some(max) => max / 2,
                None => 150,
            };
            total = add_counts(total, reply);
        }
        total = add_counts(total, Self::estimate_path_tokens(path));
        if total < 15 {
            15
        } else if total > 100000 {
            100000
        } else {
            total
        }
    }

    /// Tokens of a request whose body of `body_len` bytes is no document,
    /// for a path of `path_len` bytes.
    pub fn fallback_estimation(body_len: usize, path_len: usize) -> (r: u64)
        ensures
            r == fallback_tokens(body_len as nat, path_len as nat),
            10 <= r <= 80000,
    {
        let estimated = add_counts(add_counts((body_len / 3) as u64, (path_len / 4) as u64), 15);
        if estimated < 10 {
            10
        } else if estimated > 80000 {
            80000
        } else {
            estimated
        }
    }

    /// Tokens of a request. `body` is the body where it is valid text,
    /// `body_len` its length in bytes, `path` the path of the request.
    pub fn estimate_request_usage(body: Option<&str>, body_len: usize, path: &str) -> (r: u64)
        ensures
            r == input_tokens(
                match body {
                    Some(t) => Some(t@),
                    None => None,
                },
                body_len as nat,
                path@,
                path.len() as nat,
            ),
            10 <= r <= 100000,
    {
        match body {
            Some(t) => match parse(t) {
                Some(json) => Self::estimate_from_json(&json, path),
                None => Self::fallback_estimation(body_len, path.len()),
            },
            None => Self::fallback_estimation(body_len, path.len()),
        }
    }

    /// Tokens of the choices of an answer.
    fn estimate_choices_tokens(list: &Vec<serde_json::Value>) -> (r: u64)
        ensures
            r == clamp64(choices_tokens(list@, list.len() as int)),
    {
        let mut tokens: u64 = 0;
        let mut i: usize = 0;
        while i < list.len()
            invariant
                i <= list.len(),
                tokens == clamp64(choices_tokens(list@, i as int)),
            decreases list.len() - i,
        {
            let choice = &list[i];
            let message = match member(choice, "message") {
                Some(m) => match get_text(m, "content") {
                    Some(t) => Self::estimate_text_tokens(t),
                    None => 0,
                },
                None => 0,
            };
            let plain = match get_text(choice, "text") {
                Some(t) => Self::estimate_text_tokens(t),
                None => 0,
            };
            tokens = add_counts(add_counts(tokens, message), plain);
            i = i + 1;
        }
        tokens
    }

    /// Tokens of an answer that is the document `json`.
    pub fn estimate_response_from_json(json: &serde_json::Value) -> (r: u64)
        ensures
            r == clamp64(reply_tokens(*json)),
    {
        if !is_object(json) {
            return 1;
        }
        let said = match get_items(json, "choices") {
            Some(list) => Self::estimate_choices_tokens(list),
            None => match member(json, "content") {
                Some(c) => Self::estimate_content_tokens(c),
                None => match get_text(json, "text") {
                    Some(t) => Self::estimate_text_tokens(t),
                    None => 0,
                },
            },
        };
        let reported = match member(json, "usage") {
            Some(u) => get_number(u, "completion_tokens"),
            None => None,
        };
        match reported {
            Some(n) => n,
            None => if said < 1 {
                1
            } else {
                said
            },
        }
    }

    /// Tokens of an answer. `text` is its body as text, and `valid` says
    /// whether the body was valid text to begin with.
    pub fn estimate_response_usage(text: &str, valid: bool) -> (r: u64)
        ensures
            r == clamp64(output_tokens(text@, valid)),
    {
        if valid {
            match parse(text) {
                Some(json) => Self::estimate_response_from_json(&json),
                None => Self::estimate_text_tokens(text),
            }
        } else {
            Self::estimate_text_tokens(text)
        }
    }

    /// Tokens of a request, of its answer, and of both together.
    pub fn estimate_total_usage(
        body: Option<&str>,
        body_len: usize,
        path: &str,
        response: &str,
        response_valid: bool,
    ) -> (r: (u64, u64, u64))
        ensures
            r.0 == input_tokens(
                match body {
                    Some(t) => Some(t@),
                    None => None,
                },
                body_len as nat,
                path@,
                path.len() as nat,
            ),
            r.1 == clamp64(output_tokens(response@, response_valid)),
            r.2 == clamp64(r.0 as nat + r.1 as nat),
    {
        let input = Self::estimate_request_usage(body, body_len, path);
        let output = Self::estimate_response_usage(response, response_valid);
        (input, output, add_counts(input, output))
    }

    /// Tokens that the answer to a request is expected to take.
    pub fn estimate_response_from_request(body: Option<&str>, body_len: usize, path: &str) -> (r: u64)
        ensures
            r == expected_reply_tokens(
                input_tokens(
                    match body {
                        Some(t) => Some(t@),
                        None => None,
                    },
                    body_len as nat,
                    path@,
                    path.len() as nat,
                ),
            ),
    {
        let input = Self::estimate_request_usage(body, body_len, path);
        Self::expected_reply(input)
    }

    /// Tokens that the answer to a request of `input` tokens is expected to
    /// take.
    pub fn expected_reply(input: u64) -> (r: u64)
        ensures
            r == expected_reply_tokens(input as nat),
    {
        if input < 100 {
            input * 3 / 2
        } else if input < 500 {
            input * 6 / 5
        } else if input < 1000 {
            input * 4 / 5
        } else {
            input / 5 * 3 + input % 5 * 3 / 5
        }
    }

    /// Tokens of a request, of its expected answer, and of both together.
    pub fn estimate_conversation_usage(body: Option<&str>, body_len: usize, path: &str) -> (r: (
        u64,
        u64,
        u64,
    ))
        ensures
            r.0 == input_tokens(
                match body {
                    Some(t) => Some(t@),
                    None => None,
                },
                body_len as nat,
                path@,
                path.len() as nat,
            ),
            r.1 == expected_reply_tokens(r.0 as nat),
            r.2 == r.0 + r.1,
    {
        let input = Self::estimate_request_usage(body, body_len, path);
        let output = Self::expected_reply(input);
        (input, output, input + output)
    }

    /// Tokens that a request and its expected answer count for together.
    pub fn estimate_usage(body: Option<&str>, body_len: usize, path: &str) -> (r: u64)
        ensures
            ({
                let input = input_tokens(
                    match body {
                        Some(t) => Some(t@),
                        None => None,
                    },
                    body_len as nat,
                    path@,
                    path.len() as nat,
                );
                r == input + expected_reply_tokens(input)
            }),
            r > 0,
    {
        let (_input, _output, total) = Self::estimate_conversation_usage(body, body_len, path);
        total
    }
}

} // verus!
