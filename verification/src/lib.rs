//! Dispatch engine of a local reverse proxy that fronts a pool of upstream
//! API providers: per-provider rate limiting and health scoring, provider
//! selection, failover, and the rewriting of a request for its upstream.

pub mod chars;
mod clock;
pub mod dispatch;
pub mod events;
pub mod interactive;
pub mod json;
pub mod network;
pub mod provider;
pub mod proxy;
pub mod rewrite;
pub mod table;
pub mod text;
pub mod token;
pub mod ui;

pub use dispatch::{Action, Dispatch, DispatchMode, Outcome, ProxyReply};
pub use interactive::{InteractiveProviderManager, ProviderRow};
pub use network::NetworkStatus;
pub use provider::{Provider, ProviderHealth, RateLimiter};
pub use proxy::ProxyState;
pub use rewrite::{build_outbound, ForwardError, Header, Outbound};
pub use token::{calculate_display_width, TokenCalculator};
pub use ui::{LogEntry, LogLevel, Logger, ProviderButton, ServerInfo};
