//! What is known of the network that the proxy runs in, and how it is shown.

use vstd::prelude::*;
use vstd::string::*;
use crate::json::{get_text, json_parse, parse, text_member};
use crate::text::{append_decimal, decimal_text};

verus! {

/// Latency below which the network counts as fast, in milliseconds.
pub const FAST_BELOW_MS: u64 = 100;

/// Latency below which the network counts as fair, in milliseconds.
pub const FAIR_BELOW_MS: u64 = 300;

/// Result of a probe of the network.
#[derive(Debug, Clone)]
pub struct NetworkStatus {
    pub is_online: bool,
    pub latency_ms: Option<u64>,
    pub dns_working: bool,
    pub external_ip: Option<String>,
    pub error_message: Option<String>,
}

/// The text for a status: `离线` when offline; else `在线`, then the latency
/// if it is known, then a note if name resolution works, with ` | ` between.
pub open spec fn status_text_of(is_online: bool, latency_ms: Option<u64>, dns_working: bool) -> Seq<
    char,
> {
    if !is_online {
        "离线"@
    } else {
        let with_latency = match latency_ms {
            Some(ms) => "在线"@ + " | "@ + "延迟"@ + decimal_text(ms as nat) + "ms"@,
            None => "在线"@,
        };
        if dns_working {
            with_latency + " | "@ + "DNS正常"@
        } else {
            with_latency
        }
    }
}

/// The icon for a status: red when offline, else by latency green, yellow or
/// orange, and green when the latency is not known.
pub open spec fn status_icon_of(is_online: bool, latency_ms: Option<u64>) -> Seq<char> {
    if !is_online {
        "🔴"@
    } else {
        match latency_ms {
            Some(ms) => if ms < FAST_BELOW_MS {
                "🟢"@
            } else if ms < FAIR_BELOW_MS {
                "🟡"@
            } else {
                "🟠"@
            },
            None => "🟢"@,
        }
    }
}

impl NetworkStatus {
    /// The status before any probe: offline, nothing known.
    pub fn new() -> (r: NetworkStatus)
        ensures
            !r.is_online,
            r.latency_ms is None,
            !r.dns_working,
            r.external_ip is None,
            r.error_message is None,
    {
        NetworkStatus {
            is_online: false,
            latency_ms: None,
            dns_working: false,
            external_ip: None,
            error_message: None,
        }
    }

    /// The status in words.
    pub fn status_text(&self) -> (r: String)
        ensures
            r@ == status_text_of(self.is_online, self.latency_ms, self.dns_working),
    {
        if !self.is_online {
            return String::from_str("离线");
        }
        let mut out = String::from_str("在线");
        match self.latency_ms {
            Some(ms) => {
                out.append(" | ");
                out.append("延迟");
                append_decimal(&mut out, ms);
                out.append("ms");
            },
            None => {},
        }
        if self.dns_working {
            out.append(" | ");
            out.append("DNS正常");
        }
        out
    }

    /// The status as an icon.
    pub fn status_icon(&self) -> (r: &'static str)
        ensures
            r@ == status_icon_of(self.is_online, self.latency_ms),
    {
        if !self.is_online {
            "🔴"
        } else {
            match self.latency_ms {
                Some(latency) => {
                    if latency < FAST_BELOW_MS {
                        "🟢"
                    } else if latency < FAIR_BELOW_MS {
                        "🟡"
                    } else {
                        "🟠"
                    }
                },
                None => "🟢",
            }
        }
    }
}

/// The address that a probe service names in its answer, where the answer
/// is a JSON document: the text under `ip`, or else the text under `origin`.
pub open spec fn named_address(answer: Seq<char>) -> Option<Seq<char>> {
    match json_parse(answer) {
        Some(json) => match text_member(json, "ip"@) {
            Some(ip) => Some(ip),
            None => text_member(json, "origin"@),
        },
        None => None,
    }
}

/// The address that a probe service names in its answer, where the answer
/// is a JSON document that names one.
pub fn address_in_document(answer: &str) -> (r: Option<String>)
    ensures
        match r {
            Some(ip) => named_address(answer@) == Some(ip@),
            None => named_address(answer@) is None,
        },
{
    match parse(answer) {
        Some(json) => match get_text(&json, "ip") {
            Some(ip) => Some(String::from_str(ip)),
            None => match get_text(&json, "origin") {
                Some(ip) => Some(String::from_str(ip)),
                None => None,
            },
        },
        None => None,
    }
}

/// The address in the answer of a probe service: the one that the answer
/// names as a document, or else the answer itself without the white space
/// around it, if that is an address.
pub open spec fn answered_address(answer: Seq<char>, trimmed: Seq<char>, trimmed_is_address: bool) -> Option<
    Seq<char>,
> {
    match named_address(answer) {
        Some(ip) => Some(ip),
        None => if trimmed_is_address {
            Some(trimmed)
        } else {
            None
        },
    }
}

/// The address in the answer of a probe service. `trimmed` is the answer
/// without the white space around it, and `trimmed_is_address` says whether
/// that is an address.
pub fn address_in_answer(answer: &str, trimmed: &str, trimmed_is_address: bool) -> (r: Option<String>)
    ensures
        match r {
            Some(ip) => answered_address(answer@, trimmed@, trimmed_is_address) == Some(ip@),
            None => answered_address(answer@, trimmed@, trimmed_is_address) is None,
        },
{
    match address_in_document(answer) {
        Some(ip) => Some(ip),
        None => if trimmed_is_address {
            Some(String::from_str(trimmed))
        } else {
            None
        },
    }
}

/// What is said of a failed name resolution.
pub open spec fn dns_failure_text(error: Seq<char>) -> Seq<char> {
    "DNS解析失败: "@ + error
}

/// The status that the probes give. `dns` is the outcome of the name
/// resolution; `answer` is the latency of the first probe service that
/// answered, with the address it named; `tcp_ms` is the latency of a plain
/// connection, tried where no service answered.
///
/// Without name resolution nothing else counts: the status is offline, with
/// what went wrong. With it, the network is online exactly if a service
/// answered or the connection was made, and the latency is that of the one
/// that decides.
pub fn status_from_probes(
    dns: Result<(), String>,
    answer: Option<(u64, Option<String>)>,
    tcp_ms: Option<u64>,
) -> (r: NetworkStatus)
    ensures
        r.is_online == (r.latency_ms is Some),
        r.is_online ==> r.dns_working,
        r.external_ip is Some ==> r.is_online,
        r.error_message is Some ==> !r.is_online,
        dns is Err ==> !r.is_online && !r.dns_working && r.error_message is Some,
        dns is Err ==> r.error_message->Some_0@ == dns_failure_text(dns->Err_0@),
        dns is Err ==> r.external_ip is None,
        dns is Ok ==> r.dns_working && r.error_message is None,
        dns is Ok ==> r.latency_ms == match answer {
            Some(found) => Some(found.0),
            None => tcp_ms,
        },
        dns is Ok ==> r.external_ip == match answer {
            Some(found) => found.1,
            None => None,
        },
{
    match dns {
        Err(error) => {
            let mut message = String::from_str("DNS解析失败: ");
            message.append(error.as_str());
            NetworkStatus {
                is_online: false,
                latency_ms: None,
                dns_working: false,
                external_ip: None,
                error_message: Some(message),
            }
        },
        Ok(_) => match answer {
            Some((latency, address)) => NetworkStatus {
                is_online: true,
                latency_ms: Some(latency),
                dns_working: true,
                external_ip: address,
                error_message: None,
            },
            None => match tcp_ms {
                Some(latency) => NetworkStatus {
                    is_online: true,
                    latency_ms: Some(latency),
                    dns_working: true,
                    external_ip: None,
                    error_message: None,
                },
                None => NetworkStatus {
                    is_online: false,
                    latency_ms: None,
                    dns_working: true,
                    external_ip: None,
                    error_message: None,
                },
            },
        },
    }
}

} // verus!
