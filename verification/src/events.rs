//! The log events of a dispatch: one when a request is sent, one when its
//! outcome is known.

use vstd::prelude::*;
use vstd::string::*;
use crate::dispatch::{is_success, DispatchMode, Outcome};
use crate::text::{append_decimal, decimal_text};
use crate::ui::LogLevel;

verus! {

/// The reason phrase that the `http` crate knows for a status, if it knows
/// one.
pub uninterp spec fn canonical_reason_of(code: u16) -> Option<Seq<char>>;

/// A reason phrase as a value.
pub open spec fn phrase_view(phrase: Option<String>) -> Option<Seq<char>> {
    match phrase {
        Some(p) => Some(p@),
        None => None,
    }
}

/// Whether a number is a status that the `http` crate accepts: three digits.
pub open spec fn is_status(code: u16) -> bool {
    100 <= code < 1000
}

/// Looks a status up with `http::StatusCode::from_u16` and reads its phrase
/// with `StatusCode::canonical_reason`. The first takes exactly the numbers
/// from 100 to 999; the phrase is the named value `canonical_reason_of` of
/// the number.
#[verifier::external_body]
fn reason_phrase(code: u16) -> (r: Option<Option<String>>)
    ensures
        r is Some <==> is_status(code),
        r is Some ==> phrase_view(r->Some_0) == canonical_reason_of(code),
{
    match http::StatusCode::from_u16(code) {
        Ok(status) => Some(status.canonical_reason().map(|p| p.to_string())),
        Err(_) => None,
    }
}

/// A status in words: the number, then its reason phrase or a note that
/// there is none. A number that is no status is written alone.
pub open spec fn description_text(code: u16, phrase: Option<Option<Seq<char>>>) -> Seq<char> {
    match phrase {
        Some(Some(p)) => decimal_text(code as nat) + " "@ + p,
        Some(None) => decimal_text(code as nat) + " "@ + "<unknown status code>"@,
        None => decimal_text(code as nat),
    }
}

/// A status in words, from the number and what is known of its phrase.
pub fn status_description(code: u16, phrase: Option<Option<String>>) -> (r: String)
    ensures
        r@ == description_text(
            code,
            match phrase {
                Some(p) => Some(phrase_view(p)),
                None => None,
            },
        ),
{
    let mut out = String::new();
    append_decimal(&mut out, code as u64);
    match phrase {
        Some(Some(p)) => {
            out.append(" ");
            out.append(p.as_str());
        },
        Some(None) => {
            out.append(" ");
            out.append("<unknown status code>");
        },
        None => {},
    }
    out
}

/// A status in words.
pub fn describe_status(code: u16) -> (r: String)
    ensures
        r@ == description_text(
            code,
            if is_status(code) {
                Some(canonical_reason_of(code))
            } else {
                None
            },
        ),
{
    status_description(code, reason_phrase(code))
}

/// The words that open every event, by what it tells and in which mode.
pub open spec fn opening(mark: Seq<char>, mode: DispatchMode) -> Seq<char> {
    match mode {
        DispatchMode::Normal => mark + " "@,
        DispatchMode::Emergency => mark + " "@ + "紧急模式"@ + " "@,
    }
}

/// The event of a request sent to a provider: what is forwarded and where.
pub open spec fn forward_text(mode: DispatchMode, method: Seq<char>, uri: Seq<char>, provider: Seq<
    char,
>) -> Seq<char> {
    let mark = match mode {
        DispatchMode::Normal => "🔄"@,
        DispatchMode::Emergency => "🚨"@,
    };
    opening(mark, mode) + method + " "@ + uri + " "@ + "转发至"@ + " "@ + provider
}

/// The level of the event of a request sent: a warning in emergency mode.
pub open spec fn forward_level(mode: DispatchMode) -> LogLevel {
    match mode {
        DispatchMode::Normal => LogLevel::Info,
        DispatchMode::Emergency => LogLevel::Warning,
    }
}

/// The level of the event of an outcome: a success for a status of success;
/// for any other status a warning in normal mode and an error in emergency
/// mode; an error when there was no answer.
pub open spec fn outcome_level(mode: DispatchMode, outcome: Outcome) -> LogLevel {
    match outcome {
        Outcome::Status(code) => if is_success(code) {
            LogLevel::Success
        } else {
            match mode {
                DispatchMode::Normal => LogLevel::Warning,
                DispatchMode::Emergency => LogLevel::Error,
            }
        },
        Outcome::NetworkError => LogLevel::Error,
    }
}

/// What stands in the brackets of the event of an outcome: the number of a
/// status of success, any other status in words, or what went wrong.
pub open spec fn outcome_note(outcome: Outcome, words: Seq<char>) -> Seq<char> {
    match outcome {
        Outcome::Status(code) => if is_success(code) {
            decimal_text(code as nat)
        } else {
            words
        },
        Outcome::NetworkError => "网络错误: "@ + words,
    }
}

/// The event of an outcome.
pub open spec fn outcome_text(
    mode: DispatchMode,
    method: Seq<char>,
    uri: Seq<char>,
    provider: Seq<char>,
    outcome: Outcome,
    words: Seq<char>,
) -> Seq<char> {
    let mark = match outcome {
        Outcome::Status(code) => if is_success(code) {
            "✅"@
        } else {
            "❌"@
        },
        Outcome::NetworkError => "❌"@,
    };
    opening(mark, mode) + method + " "@ + uri + " "@ + "→"@ + " "@ + provider + " "@ + "["@
        + outcome_note(outcome, words) + "]"@
}

/// Appends the words that open an event.
fn append_opening(out: &mut String, mark: &str, mode: DispatchMode)
    ensures
        final(out)@ == old(out)@ + opening(mark@, mode),
{
    out.append(mark);
    out.append(" ");
    match mode {
        DispatchMode::Normal => {},
        DispatchMode::Emergency => {
            out.append("紧急模式");
            out.append(" ");
        },
    }
    assert(out@ =~= old(out)@ + opening(mark@, mode));
}

/// The event of a request sent to a provider.
pub fn forward_event(mode: DispatchMode, method: &str, uri: &str, provider: &str) -> (r: (
    LogLevel,
    String,
))
    ensures
        r.0 == forward_level(mode),
        r.1@ == forward_text(mode, method@, uri@, provider@),
{
    let mut out = String::new();
    let level = match mode {
        DispatchMode::Normal => {
            append_opening(&mut out, "🔄", mode);
            LogLevel::Info
        },
        DispatchMode::Emergency => {
            append_opening(&mut out, "🚨", mode);
            LogLevel::Warning
        },
    };
    out.append(method);
    out.append(" ");
    out.append(uri);
    out.append(" ");
    out.append("转发至");
    out.append(" ");
    out.append(provider);
    assert(out@ =~= forward_text(mode, method@, uri@, provider@));
    (level, out)
}

/// The event of an outcome. `words` is the status in words where the
/// outcome is a status, and what went wrong where there was no answer.
pub fn outcome_event(
    mode: DispatchMode,
    method: &str,
    uri: &str,
    provider: &str,
    outcome: Outcome,
    words: &str,
) -> (r: (LogLevel, String))
    ensures
        r.0 == outcome_level(mode, outcome),
        r.1@ == outcome_text(mode, method@, uri@, provider@, outcome, words@),
{
    let mut out = String::new();
    let success = match outcome {
        Outcome::Status(code) => 200 <= code && code < 300,
        Outcome::NetworkError => false,
    };
    if success {
        append_opening(&mut out, "✅", mode);
    } else {
        append_opening(&mut out, "❌", mode);
    }
    out.append(method);
    out.append(" ");
    out.append(uri);
    out.append(" ");
    out.append("→");
    out.append(" ");
    out.append(provider);
    out.append(" ");
    out.append("[");
    let level = match outcome {
        Outcome::Status(code) => {
            if success {
                append_decimal(&mut out, code as u64);
                LogLevel::Success
            } else {
                out.append(words);
                match mode {
                    DispatchMode::Normal => LogLevel::Warning,
                    DispatchMode::Emergency => LogLevel::Error,
                }
            }
        },
        Outcome::NetworkError => {
            out.append("网络错误: ");
            out.append(words);
            LogLevel::Error
        },
    };
    out.append("]");
    assert(out@ =~= outcome_text(mode, method@, uri@, provider@, outcome, words@));
    (level, out)
}

/// The event of an outcome, with a status put in words by the `http` crate.
/// `error` is what went wrong where there was no answer.
pub fn outcome_event_for(
    mode: DispatchMode,
    method: &str,
    uri: &str,
    provider: &str,
    outcome: Outcome,
    error: &str,
) -> (r: (LogLevel, String))
    ensures
        r.0 == outcome_level(mode, outcome),
        r.1@ == outcome_text(
            mode,
            method@,
            uri@,
            provider@,
            outcome,
            match outcome {
                Outcome::Status(code) => description_text(
                    code,
                    if is_status(code) {
                        Some(canonical_reason_of(code))
                    } else {
                        None
                    },
                ),
                Outcome::NetworkError => error@,
            },
        ),
{
    match outcome {
        Outcome::Status(code) => {
            let words = describe_status(code);
            outcome_event(mode, method, uri, provider, outcome, words.as_str())
        },
        Outcome::NetworkError => outcome_event(mode, method, uri, provider, outcome, error),
    }
}

} // verus!
