//! A low-level client for the ChatGPT backend, which is called with the OAuth token of a
//! ChatGPT subscription.
//!
//! The backend answers with streams of server-sent events only. This library holds what
//! a client has to decide and to compute, and what it promises of that is proved:
//!
//! - [`options`], [`input`] and [`headers`] make a request out of what the caller wants;
//! - [`exchange`] says where a request goes and what the status of its response means;
//! - [`retry`] says whether and when a request that has failed is sent again;
//! - [`sse`] takes the bytes of a stream apart into events;
//! - [`response`] puts events together into one response, and [`event`] gives both a
//!   type;
//! - [`double`] rounds as doubles do, for the jitter of a wait;
//! - [`usage`] and [`capture`] are about quotas and about raw responses.
//!
//! Sockets and files stay outside: the caller sends what it is given here, and
//! hands back what came.

pub mod assembly_laws;
pub mod calendar;
pub mod capture;
pub mod credentials;
pub mod double;
pub mod error;
pub mod event;
pub mod event_laws;
pub mod exchange;
pub mod headers;
pub mod input;
pub mod json;
pub mod json_laws;
pub mod options;
pub mod request_laws;
pub mod response;
pub mod response_laws;
pub mod retry;
pub mod sse;
pub mod sse_laws;
pub mod text;
pub mod text_laws;
pub mod time;
pub mod usage;

pub use calendar::today_utc;
pub use capture::RawCapture;
pub use credentials::{CheckedCredentials, CodexCredentials};
pub use error::{ClientError, NetworkError};
pub use event::{GeneratedImage, Response, StreamEvent, TokenUsage, ToolCall, WebSearch};
pub use exchange::usage_url_from_base;
pub use input::{InputItem, Tool};
pub use json::Value;
pub use options::SendOptions;
pub use response::extract_text;
pub use retry::backoff_delay;
pub use time::Duration;
pub use usage::{RateLimit, RateWindow, Usage};
