//! Laws of requests: what a request says, where it goes, and what is made of the answer.

use vstd::prelude::*;
use vstd::utf8::*;

use crate::capture::{captured, probed, RawCapture};
use crate::credentials::{CodexCredentials, CredentialsView};
use crate::error::{ClientError, ClientErrorView};
use crate::event::document_in;
use crate::exchange::{
    body_document, is_request_for, models_of_parse, models_view, parse_view, url_of, Endpoint,
    Exchange, Request, Verdict,
};
use crate::headers::{
    bearer, header_text, header_values, http_failure, is_value_text, is_visible,
    other_content_type, request_headers, retry_after_in,
};
use crate::input::{builtin_tool, call_output, described_tool, function_tool};
use crate::json::{documents, json_of_text, view_of, Json, Value};
use crate::options::{
    body_members, default_model, default_options, user_item, SendOptions, SendOptionsView,
};
use crate::text::{ascii_lower, ends_in, occurs_at, occurs_in, replaced, trimmed, unsigned_of};
use crate::text_laws::{
    lemma_first_is_replaced, lemma_nothing_to_replace, lemma_what_stands_there_is_found,
};

verus! {

// ---------------------------------------------------------------------------
// Options
// ---------------------------------------------------------------------------

/// The model that is asked is the one that was set up, letter for letter, unless that is
/// blank.
pub proof fn lemma_configured_model_is_asked(model: Seq<char>)
    ensures
        trimmed(model).len() > 0 ==> default_model(Some(model)) == model,
        trimmed(model).len() == 0 ==> default_model(Some(model)) == "gpt-5.3-codex"@,
        default_model(None) == "gpt-5.3-codex"@,
{
}

/// Where nothing else is asked for, a request has the default model and instructions, two
/// retries, two minutes of silence, and nothing that is optional.
pub proof fn lemma_defaults(configured: Option<Seq<char>>)
    ensures
        default_options(configured).model == default_model(configured),
        default_options(configured).instructions == "You are a helpful assistant."@,
        default_options(configured).max_retries == 2,
        default_options(configured).idle_timeout == 120_000_000_000,
        default_options(configured).reasoning_effort is None,
        default_options(configured).prompt_cache_key is None,
        default_options(configured).tools.len() == 0,
        default_options(configured).tool_choice is None,
        default_options(configured).parallel_tool_calls is None,
        default_options(configured).text is None,
{
}

proof fn lemma_body_keys()
    ensures
        "model"@.len() == 5 && "model"@[0] == 'm',
        "instructions"@.len() == 12,
        "input"@.len() == 5 && "input"@[0] == 'i',
        "store"@.len() == 5 && "store"@[0] == 's',
        "stream"@.len() == 6,
        "reasoning"@.len() == 9,
        "include"@.len() == 7,
        "prompt_cache_key"@.len() == 16,
        "tools"@.len() == 5 && "tools"@[0] == 't',
        "tool_choice"@.len() == 11,
        "parallel_tool_calls"@.len() == 19,
        "text"@.len() == 4,
{
    reveal_strlit("model");
    reveal_strlit("instructions");
    reveal_strlit("input");
    reveal_strlit("store");
    reveal_strlit("stream");
    reveal_strlit("reasoning");
    reveal_strlit("include");
    reveal_strlit("prompt_cache_key");
    reveal_strlit("tools");
    reveal_strlit("tool_choice");
    reveal_strlit("parallel_tool_calls");
    reveal_strlit("text");
}

/// The body of a request says the model, the instructions and the input as they are, asks for
/// a stream, and asks to store nothing.
pub proof fn lemma_body_says_what_is_asked(input: Json, opts: SendOptionsView)
    ensures
        body_members(input, opts).contains_pair("model"@, Json::String(opts.model)),
        body_members(input, opts).contains_pair("instructions"@, Json::String(opts.instructions)),
        body_members(input, opts).contains_pair("input"@, input),
        body_members(input, opts).contains_pair("store"@, Json::Bool(false)),
        body_members(input, opts).contains_pair("stream"@, Json::Bool(true)),
{
    lemma_body_keys();
}

/// The body of a request has all the tools, in order, and does not speak of tools where there
/// are none.
pub proof fn lemma_body_has_all_tools(input: Json, opts: SendOptionsView)
    ensures
        opts.tools.len() > 0 ==> body_members(input, opts).contains_pair(
            "tools"@,
            Json::Array(opts.tools),
        ),
        opts.tools.len() == 0 ==> !body_members(input, opts).dom().contains("tools"@),
{
    lemma_body_keys();
}

/// The body of a request has every option that is set, as it is set, and none that is not.
pub proof fn lemma_body_has_the_options_that_are_set(input: Json, opts: SendOptionsView)
    ensures
        ({
            let body = body_members(input, opts);
            &&& match opts.prompt_cache_key {
                Some(key) => body.contains_pair("prompt_cache_key"@, Json::String(key)),
                None => !body.dom().contains("prompt_cache_key"@),
            }
            &&& match opts.tool_choice {
                Some(choice) => body.contains_pair("tool_choice"@, choice),
                None => !body.dom().contains("tool_choice"@),
            }
            &&& match opts.parallel_tool_calls {
                Some(parallel) => body.contains_pair(
                    "parallel_tool_calls"@,
                    Json::Bool(parallel),
                ),
                None => !body.dom().contains("parallel_tool_calls"@),
            }
            &&& match opts.text {
                Some(text) => body.contains_pair("text"@, text),
                None => !body.dom().contains("text"@),
            }
            &&& match opts.reasoning_effort {
                Some(effort) => {
                    &&& body.dom().contains("reasoning"@)
                    &&& body["reasoning"@] is Object
                    &&& body["reasoning"@]->Object_0.dom() == set!["effort"@]
                    &&& body["reasoning"@]->Object_0["effort"@] == Json::String(effort)
                    &&& body.contains_pair(
                        "include"@,
                        Json::Array(seq![Json::String("reasoning.encrypted_content"@)]),
                    )
                },
                None => !body.dom().contains("reasoning"@) && !body.dom().contains("include"@),
            }
        }),
{
    lemma_body_keys();
    let body = body_members(input, opts);
    if opts.reasoning_effort is Some {
        assert(body["reasoning"@]->Object_0.dom() =~= set!["effort"@]);
    }
}

/// The body of a request says nothing else.
pub proof fn lemma_body_says_nothing_else(input: Json, opts: SendOptionsView, key: Seq<char>)
    requires
        body_members(input, opts).dom().contains(key),
    ensures
        key == "model"@ || key == "instructions"@ || key == "input"@ || key == "store"@ || key
            == "stream"@ || key == "reasoning"@ || key == "include"@ || key == "prompt_cache_key"@
            || key == "tools"@ || key == "tool_choice"@ || key == "parallel_tool_calls"@ || key
            == "text"@,
{
}

// ---------------------------------------------------------------------------
// Input
// ---------------------------------------------------------------------------

/// A message of the user carries the user's text, exactly as it stands.
pub proof fn lemma_user_message_carries_the_text(text: Seq<char>)
    ensures
        user_item(text) is Object,
        ({
            let message = user_item(text)->Object_0;
            let content = message["content"@];
            &&& message.dom() == set!["role"@, "content"@]
            &&& message["role"@] == Json::String("user"@)
            &&& content is Array
            &&& content->Array_0.len() == 1
            &&& content->Array_0[0] is Object
            &&& content->Array_0[0]->Object_0.dom() == set!["type"@, "text"@]
            &&& content->Array_0[0]->Object_0["type"@] == Json::String("input_text"@)
            &&& content->Array_0[0]->Object_0["text"@] == Json::String(text)
        }),
{
    reveal_strlit("role");
    reveal_strlit("content");
    reveal_strlit("type");
    reveal_strlit("text");
    assert("role"@.len() != "content"@.len());
    assert("type"@[1] != "text"@[1]);
    let message = user_item(text)->Object_0;
    assert(message.dom() =~= set!["role"@, "content"@]);
    assert(message["content"@]->Array_0[0]->Object_0.dom() =~= set!["type"@, "text"@]);
}

/// A function tool says its name and its parameters as they are, and its description where it
/// has one.
pub proof fn lemma_function_tool_says_what_it_is(
    name: Seq<char>,
    description: Seq<char>,
    parameters: Json,
)
    ensures
        function_tool(name, parameters) is Object,
        function_tool(name, parameters)->Object_0.dom() == set!["type"@, "name"@, "parameters"@],
        function_tool(name, parameters)->Object_0["type"@] == Json::String("function"@),
        function_tool(name, parameters)->Object_0["name"@] == Json::String(name),
        function_tool(name, parameters)->Object_0["parameters"@] == parameters,
        described_tool(name, description, parameters) == Json::Object(
            function_tool(name, parameters)->Object_0.insert(
                "description"@,
                Json::String(description),
            ),
        ),
{
    reveal_strlit("type");
    reveal_strlit("name");
    reveal_strlit("parameters");
    reveal_strlit("description");
    assert("type"@[0] != "name"@[0]);
    assert("parameters"@.len() == 10 && "description"@.len() == 11);
    let tool = function_tool(name, parameters)->Object_0;
    assert(tool.dom() =~= set!["type"@, "name"@, "parameters"@]);
    assert(described_tool(name, description, parameters)->Object_0 =~= tool.insert(
        "description"@,
        Json::String(description),
    ));
}

/// A tool of the server says its kind, and nothing more.
pub proof fn lemma_builtin_tool_says_its_kind(kind: Seq<char>)
    ensures
        builtin_tool(kind) is Object,
        builtin_tool(kind)->Object_0.dom() == set!["type"@],
        builtin_tool(kind)->Object_0["type"@] == Json::String(kind),
{
    assert(builtin_tool(kind)->Object_0.dom() =~= set!["type"@]);
}

/// The result of a call says which call it answers and what came of it, as it is.
pub proof fn lemma_call_output_says_the_result(call_id: Seq<char>, output: Seq<char>)
    ensures
        call_output(call_id, output) is Object,
        call_output(call_id, output)->Object_0.dom() == set!["type"@, "call_id"@, "output"@],
        call_output(call_id, output)->Object_0["type"@] == Json::String("function_call_output"@),
        call_output(call_id, output)->Object_0["call_id"@] == Json::String(call_id),
        call_output(call_id, output)->Object_0["output"@] == Json::String(output),
{
    reveal_strlit("type");
    reveal_strlit("call_id");
    reveal_strlit("output");
    assert("type"@.len() == 4 && "call_id"@.len() == 7 && "output"@.len() == 6);
    assert(call_output(call_id, output)->Object_0.dom() =~= set!["type"@, "call_id"@, "output"@]);
}

// ---------------------------------------------------------------------------
// Where requests go
// ---------------------------------------------------------------------------

/// The models and the responses are under the base URL, and the usage is beside the last part
/// of a base URL that ends in `/codex`.
pub proof fn lemma_urls(base_url: Seq<char>, prefix: Seq<char>)
    ensures
        url_of(Endpoint::Models, base_url) == base_url + "/models?client_version=1.0.0"@,
        url_of(Endpoint::Responses, base_url) == base_url + "/responses"@,
        url_of(Endpoint::Usage, prefix + "/codex"@) == prefix + "/wham/usage"@,
{
    lemma_what_stands_there_is_found(prefix, "/codex"@, seq![]);
    let base = prefix + "/codex"@;
    assert(base.take(base.len() - "/codex"@.len()) =~= prefix);
}

/// The usage of any other base URL is where the part that names the backend is exchanged, and
/// at the base URL itself where it has no such part.
pub proof fn lemma_usage_url_of_other_bases(a: Seq<char>, b: Seq<char>)
    ensures
        !ends_in(a, "/codex"@) && !occurs_in(a, "/backend-api/codex"@) ==> url_of(
            Endpoint::Usage,
            a,
        ) == a,
        ({
            let base = a + "/backend-api/codex"@ + b;
            !ends_in(base, "/codex"@) && (forall|i: int|
                0 <= i < a.len() ==> !#[trigger] occurs_at(base, "/backend-api/codex"@, i))
                ==> url_of(Endpoint::Usage, base) == a + "/backend-api/wham/usage"@ + replaced(
                b,
                "/backend-api/codex"@,
                "/backend-api/wham/usage"@,
            )
        }),
{
    reveal_strlit("/backend-api/codex");
    let pattern = "/backend-api/codex"@;
    let base = a + pattern + b;
    if !occurs_in(a, pattern) {
        lemma_nothing_to_replace(a, pattern, "/backend-api/wham/usage"@);
    }
    if forall|i: int| 0 <= i < a.len() ==> !#[trigger] occurs_at(base, pattern, i) {
        lemma_first_is_replaced(a, pattern, b, "/backend-api/wham/usage"@);
    }
}

/// Only a request to the model asks for a stream. It has no limit of time; every other has
/// fifteen seconds.
pub proof fn lemma_streams_have_no_limit(endpoint: Endpoint)
    ensures
        endpoint.streams() <==> endpoint == Endpoint::Responses,
        endpoint == Endpoint::Responses ==> endpoint.limit() is None,
        endpoint != Endpoint::Responses ==> endpoint.limit() == Some(15_000_000_000nat),
{
}

/// A request goes to the URL of its endpoint under the base URL of its credentials, and its
/// headers carry the token of the same credentials.
pub proof fn lemma_request_carries_its_credentials(
    request: Request,
    endpoint: Endpoint,
    limit: Option<nat>,
    creds: CredentialsView,
)
    requires
        is_request_for(request, endpoint, limit, creds),
    ensures
        request.url@ == url_of(endpoint, creds.base_url),
        header_values(request.headers).contains_pair(
            "authorization"@,
            seq![encode_utf8("Bearer "@ + creds.access_token)],
        ),
        header_values(request.headers).contains_pair(
            "accept"@,
            seq![encode_utf8(if endpoint == Endpoint::Responses {
                "text/event-stream"@
            } else {
                "application/json"@
            })],
        ),
        header_values(request.headers) == request_headers(creds, endpoint == Endpoint::Responses),
        view_of(request.timeout) == limit,
{
    lemma_header_names();
}

// ---------------------------------------------------------------------------
// Headers
// ---------------------------------------------------------------------------

proof fn lemma_header_names()
    ensures
        "authorization"@.len() == 13,
        "content-type"@.len() == 12,
        "accept"@.len() == 6,
        "user-agent"@.len() == 10 && "user-agent"@[0] == 'u',
        "originator"@.len() == 10 && "originator"@[0] == 'o',
        "chatgpt-account-id"@.len() == 18,
{
    reveal_strlit("authorization");
    reveal_strlit("content-type");
    reveal_strlit("accept");
    reveal_strlit("user-agent");
    reveal_strlit("originator");
    reveal_strlit("chatgpt-account-id");
}

/// The headers of a request carry the token as it is, say what is sent and what is accepted,
/// and name the client. They name the account where there is one that a header can hold, and
/// nothing else.
pub proof fn lemma_headers_say_what_they_must(creds: CredentialsView, stream: bool)
    ensures
        ({
            let headers = request_headers(creds, stream);
            &&& headers.contains_pair(
                "authorization"@,
                seq![encode_utf8("Bearer "@ + creds.access_token)],
            )
            &&& headers.contains_pair("content-type"@, seq![encode_utf8("application/json"@)])
            &&& stream ==> headers.contains_pair(
                "accept"@,
                seq![encode_utf8("text/event-stream"@)],
            )
            &&& !stream ==> headers.contains_pair(
                "accept"@,
                seq![encode_utf8("application/json"@)],
            )
            &&& headers.contains_pair(
                "user-agent"@,
                seq![encode_utf8("codex_cli_rs/0.0.0 (chatgpt-oauth)"@)],
            )
            &&& headers.contains_pair("originator"@, seq![encode_utf8("codex_cli_rs"@)])
            &&& match creds.account_id {
                Some(id) => if is_value_text(id) {
                    headers.contains_pair("chatgpt-account-id"@, seq![encode_utf8(id)])
                } else {
                    !headers.dom().contains("chatgpt-account-id"@)
                },
                None => !headers.dom().contains("chatgpt-account-id"@),
            }
            &&& forall|name: Seq<char>| #[trigger]
                headers.dom().contains(name) ==> name == "authorization"@ || name
                    == "content-type"@ || name == "accept"@ || name == "user-agent"@ || name
                    == "originator"@ || name == "chatgpt-account-id"@
        }),
{
    lemma_header_names();
}

/// What is tested before a token is sent is the very value that is sent.
pub proof fn lemma_bearer_is_the_token(token: Seq<char>)
    ensures
        bearer(token) == "Bearer "@ + token,
        is_value_text(token) <==> forall|i: int|
            0 <= i < encode_utf8(token).len() ==> {
                let b = #[trigger] encode_utf8(token)[i];
                b == 9 || (b >= 32 && b != 127)
            },
{
    if forall|i: int|
        0 <= i < encode_utf8(token).len() ==> {
            let b = #[trigger] encode_utf8(token)[i];
            b == 9 || (b >= 32 && b != 127)
        } {
        assert(is_value_text(token));
    }
}

/// The text of a header is that of its first value, character by character, where all of it is
/// visible.
pub proof fn lemma_header_text_is_the_first_value(
    values: Map<Seq<char>, Seq<Seq<u8>>>,
    name: Seq<char>,
)
    ensures
        header_text(values, name) is Some <==> values.dom().contains(name) && forall|i: int|
            0 <= i < values[name][0].len() ==> {
                let b = #[trigger] values[name][0][i];
                b == 9 || 32 <= b < 127
            },
        header_text(values, name) is Some ==> {
            let text = header_text(values, name)->Some_0;
            &&& text.len() == values[name][0].len()
            &&& forall|i: int|
                0 <= i < text.len() ==> #[trigger] text[i] as int == values[name][0][i] as int
        },
{
    if values.dom().contains(name) && forall|i: int|
        0 <= i < values[name][0].len() ==> {
            let b = #[trigger] values[name][0][i];
            b == 9 || 32 <= b < 127
        } {
        assert(is_visible(values[name][0]));
    }
}

/// A wait that a server asks for is the number of seconds that its header spells, a minute at
/// most. What spells no number asks for nothing.
pub proof fn lemma_server_asks_in_seconds(values: Map<Seq<char>, Seq<Seq<u8>>>)
    ensures
        match header_text(values, "retry-after"@) {
            Some(text) => match unsigned_of(trimmed(text)) {
                Some(secs) => retry_after_in(values) == Some(
                    1_000_000_000 * (if secs <= 60 {
                        secs as nat
                    } else {
                        60nat
                    }),
                ),
                None => retry_after_in(values) is None,
            },
            None => retry_after_in(values) is None,
        },
{
}

/// A rate limit is told with the wait that the server asks for, and any other failure with its
/// status and its body as they are.
pub proof fn lemma_failure_by_status(
    status: u16,
    values: Map<Seq<char>, Seq<Seq<u8>>>,
    body: Seq<char>,
)
    ensures
        status == 429 ==> http_failure(status, values, body) == (ClientErrorView::RateLimited {
            retry_after: retry_after_in(values),
        }),
        500 <= status < 600 ==> http_failure(status, values, body) == (ClientErrorView::Server {
            status,
            body,
        }),
        status != 429 && !(500 <= status < 600) ==> http_failure(status, values, body) == (
        ClientErrorView::Http { status, body }),
{
}

/// A response is taken for a stream unless it names another type, in capitals or not. The type
/// that it names is told in lower case.
pub proof fn lemma_streams_by_content_type(values: Map<Seq<char>, Seq<Seq<u8>>>)
    ensures
        match header_text(values, "content-type"@) {
            Some(text) => if occurs_in(ascii_lower(text), "text/event-stream"@) {
                other_content_type(values) is None
            } else {
                other_content_type(values) == Some(ascii_lower(text))
            },
            None => other_content_type(values) is None,
        },
{
}

// ---------------------------------------------------------------------------
// Answers
// ---------------------------------------------------------------------------

/// A success is accepted, a first refusal of credentials that may be renewed renews them, and
/// all else is a failure.
pub proof fn lemma_verdicts(exchange: Exchange, status: u16)
    ensures
        200 <= status < 300 ==> exchange.verdict(status) == Verdict::Accept,
        status == 401 && exchange.refresh_on_401 && !exchange.refreshed ==> exchange.verdict(status)
            == Verdict::Refresh,
        status == 401 && (!exchange.refresh_on_401 || exchange.refreshed) ==> exchange.verdict(
            status,
        ) == Verdict::Reject,
        status != 401 && !(200 <= status < 300) ==> exchange.verdict(status) == Verdict::Reject,
        exchange.after(status).endpoint == exchange.endpoint,
        exchange.after(status).refresh_on_401 == exchange.refresh_on_401,
        exchange.after(status).refreshed <==> exchange.refreshed || (status == 401
            && exchange.refresh_on_401),
{
}

/// The models are all that the answer lists, in order. An answer that lists none has none.
pub proof fn lemma_models_are_those_listed(members: Map<Seq<char>, Json>, models: Seq<Json>)
    ensures
        members.contains_pair("models"@, Json::Array(models)) ==> models_of_parse(
            Ok(Json::Object(members)),
        ) == Ok::<Seq<Json>, ClientErrorView>(models),
        (forall|other: Seq<Json>|
            !#[trigger] members.contains_pair("models"@, Json::Array(other))) ==> models_of_parse(
            Ok(Json::Object(members)),
        ) == Ok::<Seq<Json>, ClientErrorView>(seq![]),
{
    let document = Json::Object(members);
    if document.member_elements("models"@) is Some {
        assert(members.contains_pair(
            "models"@,
            Json::Array(document.member_elements("models"@)->Some_0),
        ));
    }
}

/// An answer that is no object lists no models, and one that is no JSON is an error.
pub proof fn lemma_models_of_odd_answers(document: Json, message: Seq<char>)
    ensures
        !(document is Object) ==> models_of_parse(Ok(document)) == Ok::<Seq<Json>, ClientErrorView>(
            seq![],
        ),
        models_of_parse(Err(message)) == Err::<Seq<Json>, ClientErrorView>(
            ClientErrorView::Other("failed to parse /models response JSON"@),
        ),
{
}

/// The body of an answer is read as the text that its bytes encode.
pub proof fn lemma_body_is_read_as_its_text(text: Seq<char>, bytes: Seq<u8>)
    ensures
        body_document(encode_utf8(text)) == json_of_text(text),
        !valid_utf8(bytes) ==> body_document(bytes) is Err,
{
    encode_utf8_valid_utf8(text);
    encode_utf8_decode_utf8(text);
}

/// A capture keeps the answer as it came, with the document that its body holds.
pub proof fn lemma_capture_keeps_the_answer(
    method: Seq<char>,
    endpoint: Seq<char>,
    status: u16,
    body: Seq<char>,
)
    ensures
        captured(method, endpoint, status, body).method == method,
        captured(method, endpoint, status, body).endpoint == endpoint,
        captured(method, endpoint, status, body).status == status,
        captured(method, endpoint, status, body).body == body,
        captured(method, endpoint, status, body).body_json == document_in(body),
{
}

/// A probe keeps a refusal as it came. Of an acceptance it keeps the status and where it came
/// from.
pub proof fn lemma_probe_keeps_a_refusal(endpoint: Seq<char>, status: u16, body: Seq<char>)
    ensures
        probed(endpoint, status, body).method == "POST"@,
        probed(endpoint, status, body).endpoint == endpoint,
        probed(endpoint, status, body).status == status,
        status != 200 ==> probed(endpoint, status, body).body == body && probed(
            endpoint,
            status,
            body,
        ).body_json == document_in(body),
        status == 200 ==> probed(endpoint, status, body).body
            == "(accepted — 200, SSE body not captured)"@ && probed(
            endpoint,
            status,
            body,
        ).body_json is None,
{
}

// ---------------------------------------------------------------------------
// Views
// ---------------------------------------------------------------------------

/// A view holds the fields of what it is a view of, each in its place.
pub proof fn lemma_request_views(
    opts: SendOptions,
    creds: CodexCredentials,
    capture: RawCapture,
)
    ensures
        opts@.model == opts.model@,
        opts@.instructions == opts.instructions@,
        opts@.reasoning_effort == view_of(opts.reasoning_effort),
        opts@.prompt_cache_key == view_of(opts.prompt_cache_key),
        opts@.tools == documents(opts.tools@),
        opts@.max_retries == opts.max_retries,
        opts@.idle_timeout == opts.idle_timeout@,
        opts@.tool_choice == view_of(opts.tool_choice),
        opts@.parallel_tool_calls == opts.parallel_tool_calls,
        opts@.text == view_of(opts.text),
        creds@.access_token == creds.access_token@,
        creds@.base_url == creds.base_url@,
        creds@.account_id == view_of(creds.account_id),
        capture@.method == capture.method@,
        capture@.endpoint == capture.endpoint@,
        capture@.status == capture.status,
        capture@.body == capture.body@,
        capture@.body_json == view_of(capture.body_json),
{
}

/// A list of models and the reading of a body are seen as what they are.
pub proof fn lemma_answer_views(
    models: Vec<Value>,
    e: ClientError,
    document: Value,
    message: String,
)
    ensures
        models_view(Ok(models)) == Ok::<Seq<Json>, ClientErrorView>(documents(models@)),
        models_view(Err(e)) == Err::<Seq<Json>, ClientErrorView>(e@),
        parse_view(Ok(document)) == Ok::<Json, Seq<char>>(document@),
        parse_view(Err(message)) == Err::<Json, Seq<char>>(message@),
{
}

} // verus!
