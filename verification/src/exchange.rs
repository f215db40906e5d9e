//! One exchange with the server: where a request goes, what a status means for it, and
//! what a response to it holds.

use reqwest::header::HeaderMap;
use vstd::prelude::*;

use crate::credentials::{CheckedCredentials, CredentialsView};
use crate::error::{ClientError, ClientErrorView};
use crate::headers::{bearer, build_headers, header_values, is_value_text, request_headers};
use crate::json::{documents, json_of_text, view_of, Json, Value};
use crate::sse::{decoded, from_utf8};
use crate::text::{ends_in, replace, replaced, starts_in, strip_suffix};
use crate::time::{Duration, NANOS_PER_SEC};

verus! {

/// How long, in seconds, a request that asks for no stream may take.
pub const REQUEST_TIMEOUT_SECS: u64 = 15;

/// How long, in seconds, a probe may take: a request for a stream that is not read.
pub const PROBE_TIMEOUT_SECS: u64 = 30;

// ---------------------------------------------------------------------------
// Where requests go
// ---------------------------------------------------------------------------

/// What a request can be sent to.
#[derive(Debug, Clone, Copy, PartialEq, Eq, Structural)]
pub enum Endpoint {
    /// The models that the account can use.
    Models,
    /// How much of its quota the account has used.
    Usage,
    /// The model itself.
    Responses,
}

/// The URL of the usage for a base URL: beside `/codex`, not under it.
pub open spec fn usage_url(base_url: Seq<char>) -> Seq<char> {
    if ends_in(base_url, "/codex"@) {
        base_url.take(base_url.len() - "/codex"@.len()) + "/wham/usage"@
    } else {
        replaced(base_url, "/backend-api/codex"@, "/backend-api/wham/usage"@)
    }
}

/// The URL of an endpoint for a base URL.
pub open spec fn url_of(endpoint: Endpoint, base_url: Seq<char>) -> Seq<char> {
    match endpoint {
        Endpoint::Models => base_url + "/models?client_version=1.0.0"@,
        Endpoint::Usage => usage_url(base_url),
        Endpoint::Responses => base_url + "/responses"@,
    }
}

/// The URL of the usage for a base URL.
pub fn usage_url_from_base(base_url: &str) -> (r: String)
    ensures
        r@ == usage_url(base_url@),
{
    match strip_suffix(base_url, "/codex") {
        Some(prefix) => prefix.concat("/wham/usage"),
        None => {
            proof {
                reveal_strlit("/backend-api/codex");
            }
            replace(base_url, "/backend-api/codex", "/backend-api/wham/usage")
        },
    }
}

impl Endpoint {
    /// The URL of this endpoint for a base URL.
    pub fn url(self, base_url: &str) -> (r: String)
        ensures
            r@ == url_of(self, base_url@),
    {
        match self {
            Endpoint::Models => base_url.to_owned().concat("/models?client_version=1.0.0"),
            Endpoint::Usage => usage_url_from_base(base_url),
            Endpoint::Responses => base_url.to_owned().concat("/responses"),
        }
    }

    /// Whether the response is a stream of events.
    pub open spec fn streams(self) -> bool {
        self is Responses
    }

    /// How long, in nanoseconds, a request may take. One for a stream has no limit: a
    /// long answer must not be cut off.
    pub open spec fn limit(self) -> Option<nat> {
        if self.streams() {
            None
        } else {
            Some(REQUEST_TIMEOUT_SECS as nat * NANOS_PER_SEC as nat)
        }
    }
}

// ---------------------------------------------------------------------------
// Requests
// ---------------------------------------------------------------------------

/// A request that is ready to be sent.
pub struct Request {
    pub url: String,
    pub headers: HeaderMap,
    /// How long it may take.
    pub timeout: Option<Duration>,
}

/// What a response status means for an exchange.
#[derive(Debug, Clone, Copy, PartialEq, Eq, Structural)]
pub enum Verdict {
    /// The token has run out: get new credentials and send the request once more.
    Refresh,
    /// The response is what was asked for.
    Accept,
    /// The response is a failure.
    Reject,
}

/// One exchange: a request, and once more with new credentials where the first ones have
/// run out.
#[derive(Debug, Clone, Copy, PartialEq, Eq, Structural)]
pub struct Exchange {
    pub endpoint: Endpoint,
    /// Whether credentials that have run out may be renewed.
    pub refresh_on_401: bool,
    /// Whether they have been.
    pub refreshed: bool,
}

/// Whether a request matches an endpoint, a limit of time and credentials: it goes to the
/// base URL of the same credentials whose token it carries.
pub open spec fn is_request_for(
    request: Request,
    endpoint: Endpoint,
    limit: Option<nat>,
    creds: CredentialsView,
) -> bool {
    &&& request.url@ == url_of(endpoint, creds.base_url)
    &&& header_values(request.headers) == request_headers(creds, endpoint.streams())
    &&& view_of(request.timeout) == limit
}

fn request_to(endpoint: Endpoint, timeout: Option<Duration>, creds: &CheckedCredentials) -> (r:
    Result<Request, ClientError>)
    ensures
        match r {
            Ok(request) => is_value_text(bearer(creds@.access_token)) && is_request_for(
                request,
                endpoint,
                view_of(timeout),
                creds@,
            ),
            Err(e) => !is_value_text(bearer(creds@.access_token)) && e@
                == ClientErrorView::Other("failed to parse header value"@),
        },
{
    let stream = match endpoint {
        Endpoint::Responses => true,
        _ => false,
    };
    match build_headers(creds.credentials(), stream) {
        Ok(headers) => {
            let url = endpoint.url(creds.credentials().base_url.as_str());
            Ok(Request { url, headers, timeout })
        },
        Err(e) => Err(e),
    }
}

/// The request that probes what the server accepts. It asks for a stream as any request to
/// the model does, and has a limit of time since the stream is not read.
pub fn probe_request(creds: &CheckedCredentials) -> (r: Result<Request, ClientError>)
    ensures
        match r {
            Ok(request) => is_value_text(bearer(creds@.access_token)) && is_request_for(
                request,
                Endpoint::Responses,
                Some(PROBE_TIMEOUT_SECS as nat * NANOS_PER_SEC as nat),
                creds@,
            ),
            Err(e) => !is_value_text(bearer(creds@.access_token)) && e@
                == ClientErrorView::Other("failed to parse header value"@),
        },
{
    request_to(Endpoint::Responses, Some(Duration::from_secs(PROBE_TIMEOUT_SECS)), creds)
}

impl Exchange {
    /// An exchange in which nothing has been sent yet.
    pub fn new(endpoint: Endpoint, refresh_on_401: bool) -> (r: Exchange)
        ensures
            r == (Exchange { endpoint, refresh_on_401, refreshed: false }),
    {
        Exchange { endpoint, refresh_on_401, refreshed: false }
    }

    /// The request to send with `creds`, whose destination has been checked: the token of
    /// any other credentials goes nowhere. Fails where the token cannot stand in a header.
    pub fn request(&self, creds: &CheckedCredentials) -> (r: Result<Request, ClientError>)
        ensures
            match r {
                Ok(request) => is_value_text(bearer(creds@.access_token)) && is_request_for(
                    request,
                    self.endpoint,
                    self.endpoint.limit(),
                    creds@,
                ),
                Err(e) => !is_value_text(bearer(creds@.access_token)) && e@
                    == ClientErrorView::Other("failed to parse header value"@),
            },
    {
        let timeout = match self.endpoint {
            Endpoint::Responses => None,
            _ => Some(Duration::from_secs(REQUEST_TIMEOUT_SECS)),
        };
        request_to(self.endpoint, timeout, creds)
    }

    /// What a status means at this point.
    pub open spec fn verdict(self, status: u16) -> Verdict {
        if self.refresh_on_401 && !self.refreshed && status == 401 {
            Verdict::Refresh
        } else if 200 <= status < 300 {
            Verdict::Accept
        } else {
            Verdict::Reject
        }
    }

    /// The exchange after a response with a status.
    pub open spec fn after(self, status: u16) -> Exchange {
        Exchange {
            refreshed: self.refreshed || self.verdict(status) == Verdict::Refresh,
            ..self
        }
    }

    /// Takes the status of a response.
    pub fn on_status(&mut self, status: u16) -> (r: Verdict)
        ensures
            r == old(self).verdict(status),
            *final(self) == old(self).after(status),
    {
        if self.refresh_on_401 && !self.refreshed && status == 401 {
            self.refreshed = true;
            Verdict::Refresh
        } else if 200 <= status && status < 300 {
            Verdict::Accept
        } else {
            Verdict::Reject
        }
    }
}

// ---------------------------------------------------------------------------
// The list of models
// ---------------------------------------------------------------------------

/// The models that a document lists.
pub open spec fn models_listed(document: Json) -> Seq<Json> {
    match document.member_elements("models"@) {
        Some(models) => models,
        None => seq![],
    }
}

/// The models that the reading of a body gives.
pub open spec fn models_of_parse(parsed: Result<Json, Seq<char>>) -> Result<
    Seq<Json>,
    ClientErrorView,
> {
    match parsed {
        Ok(document) => Ok(models_listed(document)),
        Err(_) => Err(ClientErrorView::Other("failed to parse /models response JSON"@)),
    }
}

/// What reading a body as JSON gives. A body that is no UTF-8 is no JSON.
pub open spec fn body_document(body: Seq<u8>) -> Result<Json, Seq<char>> {
    match decoded(body) {
        Ok(text) => json_of_text(text),
        Err(message) => Err(message),
    }
}

/// The view of the reading of a body.
pub open spec fn parse_view(parsed: Result<Value, String>) -> Result<Json, Seq<char>> {
    match parsed {
        Ok(document) => Ok(document@),
        Err(message) => Err(message@),
    }
}

/// The view of a list of models.
pub open spec fn models_view(r: Result<Vec<Value>, ClientError>) -> Result<
    Seq<Json>,
    ClientErrorView,
> {
    match r {
        Ok(models) => Ok(documents(models@)),
        Err(e) => Err(e@),
    }
}

/// The models that the reading of a body gives.
pub fn models_in(parsed: Result<Value, String>) -> (r: Result<Vec<Value>, ClientError>)
    ensures
        models_view(r) == models_of_parse(parse_view(parsed)),
{
    let document = match parsed {
        Ok(document) => document,
        Err(_) => {
            return Err(ClientError::Other("failed to parse /models response JSON".to_owned()));
        },
    };
    let mut models: Vec<Value> = Vec::new();
    if let Some(listed) = document.get_array("models") {
        let mut i: usize = 0;
        while i < listed.len()
            invariant
                i <= listed@.len(),
                models@.len() == i,
                forall|j: int| 0 <= j < i ==> (#[trigger] models@[j])@ == listed@[j]@,
            decreases listed@.len() - i,
        {
            models.push(listed[i].clone());
            i += 1;
        }
        assert(documents(models@) =~= documents(listed@));
    } else {
        assert(documents(models@) =~= seq![]);
    }
    Ok(models)
}

/// The models that the body of a response lists.
pub fn models_from_body(body: &[u8]) -> (r: Result<Vec<Value>, ClientError>)
    ensures
        models_view(r) == models_of_parse(body_document(body@)),
{
    let parsed = match from_utf8(body) {
        Ok(text) => Value::parse(text),
        Err(message) => Err(message),
    };
    models_in(parsed)
}

// ---------------------------------------------------------------------------
// Laws
// ---------------------------------------------------------------------------

/// How many requests an exchange sends where the responses have these statuses. It ends
/// with the first response that does not ask for new credentials.
pub open spec fn requests_sent(exchange: Exchange, statuses: Seq<u16>) -> nat
    decreases statuses.len(),
{
    if statuses.len() == 0 {
        0
    } else if exchange.verdict(statuses[0]) == Verdict::Refresh {
        1 + requests_sent(exchange.after(statuses[0]), statuses.skip(1))
    } else {
        1
    }
}

/// An exchange sends two requests at most, and only one where credentials may not be
/// renewed or are not refused.
pub proof fn lemma_refreshed_once(endpoint: Endpoint, refresh_on_401: bool, statuses: Seq<u16>)
    ensures
        requests_sent(Exchange { endpoint, refresh_on_401, refreshed: false }, statuses) <= 2,
        !refresh_on_401 || (statuses.len() > 0 && statuses[0] != 401) ==> requests_sent(
            Exchange { endpoint, refresh_on_401, refreshed: false },
            statuses,
        ) <= 1,
{
    let first = Exchange { endpoint, refresh_on_401, refreshed: false };
    if statuses.len() > 0 && first.verdict(statuses[0]) == Verdict::Refresh {
        assert(requests_sent(first.after(statuses[0]), statuses.skip(1)) <= 1);
    }
}

/// A second refusal of the credentials is a failure.
pub proof fn lemma_second_refusal_is_final(exchange: Exchange)
    ensures
        exchange.after(401).verdict(401) == Verdict::Reject,
{
}

/// A success is never asked for again.
pub proof fn lemma_success_is_accepted(exchange: Exchange, status: u16)
    requires
        200 <= status < 300,
    ensures
        exchange.verdict(status) == Verdict::Accept,
        exchange.after(status) == exchange,
{
}

/// One try within an exchange: credentials, whether the check of their destination has
/// passed, and the status of the response to a request with them.
pub struct Try {
    pub creds: CredentialsView,
    pub checked: bool,
    pub status: u16,
}

/// The credentials that an exchange sends requests with, one after the other. It ends with
/// credentials that do not pass the check, and with a response that does not ask for new
/// ones.
pub open spec fn credentials_sent(exchange: Exchange, tries: Seq<Try>) -> Seq<CredentialsView>
    decreases tries.len(),
{
    if tries.len() == 0 || !tries[0].checked {
        seq![]
    } else if exchange.verdict(tries[0].status) == Verdict::Refresh {
        seq![tries[0].creds] + credentials_sent(
            exchange.after(tries[0].status),
            tries.skip(1),
        )
    } else {
        seq![tries[0].creds]
    }
}

/// No token is sent whose destination has not been checked, renewed ones included.
pub proof fn lemma_only_checked_tokens_are_sent(exchange: Exchange, tries: Seq<Try>)
    ensures
        credentials_sent(exchange, tries).len() <= tries.len(),
        forall|i: int|
            0 <= i < credentials_sent(exchange, tries).len() ==> (#[trigger] tries[i]).checked
                && credentials_sent(exchange, tries)[i] == tries[i].creds,
    decreases tries.len(),
{
    if tries.len() > 0 && tries[0].checked && exchange.verdict(tries[0].status)
        == Verdict::Refresh {
        let others = tries.skip(1);
        let after = exchange.after(tries[0].status);
        lemma_only_checked_tokens_are_sent(after, others);
        let sent = credentials_sent(exchange, tries);
        assert forall|i: int| 0 <= i < sent.len() implies (#[trigger] tries[i]).checked && sent[i]
            == tries[i].creds by {
            if i > 0 {
                assert(others[i - 1] == tries[i]);
                assert(sent[i] == credentials_sent(after, others)[i - 1]);
            }
        }
    }
}

/// A request stays under the base URL of the credentials that it carries. For the usage
/// that is what stands before `/codex`.
pub proof fn lemma_request_stays_under_its_base(base_url: Seq<char>)
    ensures
        starts_in(url_of(Endpoint::Models, base_url), base_url),
        starts_in(url_of(Endpoint::Responses, base_url), base_url),
        ends_in(base_url, "/codex"@) ==> starts_in(
            url_of(Endpoint::Usage, base_url),
            base_url.take(base_url.len() - "/codex"@.len()),
        ),
{
    let models = url_of(Endpoint::Models, base_url);
    let responses = url_of(Endpoint::Responses, base_url);
    assert(models.take(base_url.len() as int) =~= base_url);
    assert(responses.take(base_url.len() as int) =~= base_url);
    if ends_in(base_url, "/codex"@) {
        let prefix = base_url.take(base_url.len() - "/codex"@.len());
        assert(usage_url(base_url).take(prefix.len() as int) =~= prefix);
    }
}

} // verus!
