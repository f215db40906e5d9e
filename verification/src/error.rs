//! What can go wrong in a call, told apart by kind so that a caller can decide what to
//! do about it.

use vstd::prelude::*;

use crate::json::view_of;
use crate::text::{decimal, decimal_text};
use crate::time::Duration;

verus! {

/// A failure of the transport: what kinds it belongs to, and its message.
#[derive(Debug)]
pub struct NetworkError {
    /// The request ran into a timeout.
    pub timeout: bool,
    /// No connection could be made.
    pub connect: bool,
    /// The request could not be sent.
    pub request: bool,
    /// The message of the transport.
    pub message: String,
}

/// The failure of a call.
#[derive(Debug)]
pub enum ClientError {
    /// 429: too many requests. `retry_after` is what the server asked to wait.
    RateLimited { retry_after: Option<Duration> },
    /// 5xx: a failure of the server.
    Server { status: u16, body: String },
    /// Any other response that is no success.
    Http { status: u16, body: String },
    /// A failure of the transport.
    Network(NetworkError),
    /// The response is not what the protocol promises.
    Protocol(String),
    /// Anything else, such as credentials that could not be resolved.
    Other(String),
}

/// The mathematical view of a [`NetworkError`].
pub struct NetworkErrorView {
    pub timeout: bool,
    pub connect: bool,
    pub request: bool,
    pub message: Seq<char>,
}

/// The mathematical view of a [`ClientError`]. A wait is counted in nanoseconds.
pub enum ClientErrorView {
    RateLimited { retry_after: Option<nat> },
    Server { status: u16, body: Seq<char> },
    Http { status: u16, body: Seq<char> },
    Network(NetworkErrorView),
    Protocol(Seq<char>),
    Other(Seq<char>),
}

impl View for NetworkError {
    type V = NetworkErrorView;

    open spec fn view(&self) -> NetworkErrorView {
        NetworkErrorView {
            timeout: self.timeout,
            connect: self.connect,
            request: self.request,
            message: self.message@,
        }
    }
}

impl View for ClientError {
    type V = ClientErrorView;

    open spec fn view(&self) -> ClientErrorView {
        match self {
            ClientError::RateLimited { retry_after } => ClientErrorView::RateLimited {
                retry_after: view_of(*retry_after),
            },
            ClientError::Server { status, body } => ClientErrorView::Server {
                status: *status,
                body: body@,
            },
            ClientError::Http { status, body } => ClientErrorView::Http {
                status: *status,
                body: body@,
            },
            ClientError::Network(e) => ClientErrorView::Network(e@),
            ClientError::Protocol(message) => ClientErrorView::Protocol(message@),
            ClientError::Other(message) => ClientErrorView::Other(message@),
        }
    }
}

impl ClientErrorView {
    /// Whether a request without side effects may be sent again after this failure.
    pub open spec fn retryable(self) -> bool {
        match self {
            ClientErrorView::RateLimited { .. } => true,
            ClientErrorView::Server { status, .. } => 500 <= status < 600,
            ClientErrorView::Network(e) => e.timeout || e.connect || e.request,
            _ => false,
        }
    }

    /// Whether a request with side effects may be sent again after this failure: only
    /// where the server has refused it or has never received it.
    pub open spec fn retryable_non_idempotent(self) -> bool {
        match self {
            ClientErrorView::RateLimited { .. } => true,
            ClientErrorView::Network(e) => e.connect,
            _ => false,
        }
    }

    /// The wait that the server asked for.
    pub open spec fn wait(self) -> Option<nat> {
        match self {
            ClientErrorView::RateLimited { retry_after } => retry_after,
            _ => None,
        }
    }

    /// The HTTP status of the response.
    pub open spec fn http_status(self) -> Option<u16> {
        match self {
            ClientErrorView::RateLimited { .. } => Some(429),
            ClientErrorView::Server { status, .. } => Some(status),
            ClientErrorView::Http { status, .. } => Some(status),
            _ => None,
        }
    }

    /// The message shown for this failure.
    pub open spec fn shown(self) -> Seq<char> {
        match self {
            ClientErrorView::RateLimited { .. } => "rate limited (HTTP 429)"@,
            ClientErrorView::Server { status, body } => "server error: HTTP "@ + decimal_text(
                status as nat,
            ) + ": "@ + body,
            ClientErrorView::Http { status, body } => "HTTP "@ + decimal_text(status as nat)
                + ": "@ + body,
            ClientErrorView::Network(e) => "network error: "@ + e.message,
            ClientErrorView::Protocol(message) => "protocol error: "@ + message,
            ClientErrorView::Other(message) => message,
        }
    }
}

impl ClientError {
    /// Whether a request without side effects may be sent again after this failure.
    pub fn is_retryable(&self) -> (r: bool)
        ensures
            r == self@.retryable(),
    {
        match self {
            ClientError::RateLimited { .. } => true,
            ClientError::Server { status, .. } => 500 <= *status && *status < 600,
            ClientError::Network(e) => e.timeout || e.connect || e.request,
            _ => false,
        }
    }

    /// Whether a request with side effects may be sent again after this failure without
    /// the danger that the server acts on it twice.
    pub fn is_retryable_non_idempotent(&self) -> (r: bool)
        ensures
            r == self@.retryable_non_idempotent(),
    {
        match self {
            ClientError::RateLimited { .. } => true,
            ClientError::Network(e) => e.connect,
            _ => false,
        }
    }

    /// The wait that the server asked for, if any.
    pub fn retry_after(&self) -> (r: Option<Duration>)
        ensures
            view_of(r) == self@.wait(),
    {
        match self {
            ClientError::RateLimited { retry_after } => *retry_after,
            _ => None,
        }
    }

    /// The HTTP status of the response, if there was one.
    pub fn status(&self) -> (r: Option<u16>)
        ensures
            r == self@.http_status(),
    {
        match self {
            ClientError::RateLimited { .. } => Some(429),
            ClientError::Server { status, .. } => Some(*status),
            ClientError::Http { status, .. } => Some(*status),
            _ => None,
        }
    }

    /// The message shown for this failure.
    pub fn message(&self) -> (r: String)
        ensures
            r@ == self@.shown(),
    {
        match self {
            ClientError::RateLimited { .. } => "rate limited (HTTP 429)".to_owned(),
            ClientError::Server { status, body } => {
                "server error: HTTP ".to_owned().concat(decimal(*status as u64).as_str()).concat(
                    ": ",
                ).concat(body.as_str())
            },
            ClientError::Http { status, body } => {
                "HTTP ".to_owned().concat(decimal(*status as u64).as_str()).concat(": ").concat(
                    body.as_str(),
                )
            },
            ClientError::Network(e) => "network error: ".to_owned().concat(e.message.as_str()),
            ClientError::Protocol(message) => {
                "protocol error: ".to_owned().concat(message.as_str())
            },
            ClientError::Other(message) => message.clone(),
        }
    }

    /// A protocol failure with the given message.
    pub fn protocol(message: &str) -> (r: ClientError)
        ensures
            r@ == ClientErrorView::Protocol(message@),
    {
        ClientError::Protocol(message.to_owned())
    }
}

/// What may be sent again although it has side effects may be sent again without them.
pub proof fn lemma_non_idempotent_retry_is_narrower(e: ClientErrorView)
    ensures
        e.retryable_non_idempotent() ==> e.retryable(),
{
}

/// A request without side effects may be sent again after a rate limit, after a failure of the
/// server, and after a failure of the transport that may pass; one with side effects only after
/// a rate limit and where no connection was made.
pub proof fn lemma_what_may_be_sent_again(e: ClientErrorView)
    ensures
        e.retryable() <==> (e is RateLimited) || (e is Server && 500 <= e->Server_status < 600) || (
        e is Network && (e->Network_0.timeout || e->Network_0.connect || e->Network_0.request)),
        e.retryable_non_idempotent() <==> (e is RateLimited) || (e is Network
            && e->Network_0.connect),
{
}

/// Only a rate limit asks for a wait, and it asks for the one that it holds.
pub proof fn lemma_wait_is_the_one_asked_for(e: ClientErrorView)
    ensures
        e is RateLimited ==> e.wait() == e->retry_after,
        !(e is RateLimited) ==> e.wait() is None,
{
}

/// A failure tells the status of its response, where there was one.
pub proof fn lemma_status_is_told(e: ClientErrorView)
    ensures
        e is RateLimited ==> e.http_status() == Some(429u16),
        e is Server ==> e.http_status() == Some(e->Server_status),
        e is Http ==> e.http_status() == Some(e->Http_status),
        e is Network || e is Protocol || e is Other ==> e.http_status() is None,
{
}

/// The message of a failure says its kind, its status and what was said of it, as it is.
pub proof fn lemma_message_says_the_failure(
    status: u16,
    text: Seq<char>,
    wait: Option<nat>,
    lost: NetworkErrorView,
)
    ensures
        (ClientErrorView::RateLimited { retry_after: wait }).shown()
            == "rate limited (HTTP 429)"@,
        (ClientErrorView::Server { status, body: text }).shown() == "server error: HTTP "@
            + decimal_text(status as nat) + ": "@ + text,
        (ClientErrorView::Http { status, body: text }).shown() == "HTTP "@ + decimal_text(
            status as nat,
        ) + ": "@ + text,
        ClientErrorView::Network(lost).shown() == "network error: "@ + lost.message,
        ClientErrorView::Protocol(text).shown() == "protocol error: "@ + text,
        ClientErrorView::Other(text).shown() == text,
{
}

/// A failure is seen as what it is, each of its fields in its place.
pub proof fn lemma_failure_views(
    status: u16,
    text: String,
    wait: Option<Duration>,
    lost: NetworkError,
)
    ensures
        lost@.timeout == lost.timeout,
        lost@.connect == lost.connect,
        lost@.request == lost.request,
        lost@.message == lost.message@,
        (ClientError::RateLimited { retry_after: wait })@ == (ClientErrorView::RateLimited {
            retry_after: view_of(wait),
        }),
        (ClientError::Server { status, body: text })@ == (ClientErrorView::Server {
            status,
            body: text@,
        }),
        (ClientError::Http { status, body: text })@ == (ClientErrorView::Http {
            status,
            body: text@,
        }),
        ClientError::Network(lost)@ == ClientErrorView::Network(lost@),
        ClientError::Protocol(text)@ == ClientErrorView::Protocol(text@),
        ClientError::Other(text)@ == ClientErrorView::Other(text@),
{
}

} // verus!
