//! The options of a request to `/responses`, and the body that they make.

use vstd::prelude::*;

use crate::json::{documents, view_of, Json, Object, Value};
use crate::retry::DEFAULT_MAX_RETRIES;
use crate::text::trimmed;
use crate::time::{Duration, NANOS_PER_SEC};

verus! {

/// The longest silence, in seconds, between two chunks of a stream.
pub const SSE_IDLE_TIMEOUT_SECS: u64 = 120;

// ---------------------------------------------------------------------------
// Options
// ---------------------------------------------------------------------------

/// What a request to `/responses` asks for.
#[derive(Debug, Clone)]
pub struct SendOptions {
    pub model: String,
    pub instructions: String,
    pub reasoning_effort: Option<String>,
    /// A key that is the same over the calls of one session makes them share the prompt
    /// cache. Without it the server makes one up for each call.
    pub prompt_cache_key: Option<String>,
    /// The tools that the model may use. Without any, the request does not speak of
    /// tools.
    pub tools: Vec<Value>,
    /// How often a request that has failed is sent again at most.
    pub max_retries: u32,
    /// The longest silence between two chunks of the stream.
    pub idle_timeout: Duration,
    /// How tools are used: `"auto"`, `"none"`, `"required"`, or one tool.
    pub tool_choice: Option<Value>,
    /// Whether several tools may be called in one turn.
    pub parallel_tool_calls: Option<bool>,
    /// What the text of the output is like.
    pub text: Option<Value>,
}

/// The mathematical view of [`SendOptions`]. The silence is counted in nanoseconds.
pub struct SendOptionsView {
    pub model: Seq<char>,
    pub instructions: Seq<char>,
    pub reasoning_effort: Option<Seq<char>>,
    pub prompt_cache_key: Option<Seq<char>>,
    pub tools: Seq<Json>,
    pub max_retries: u32,
    pub idle_timeout: nat,
    pub tool_choice: Option<Json>,
    pub parallel_tool_calls: Option<bool>,
    pub text: Option<Json>,
}

impl View for SendOptions {
    type V = SendOptionsView;

    open spec fn view(&self) -> SendOptionsView {
        SendOptionsView {
            model: self.model@,
            instructions: self.instructions@,
            reasoning_effort: view_of(self.reasoning_effort),
            prompt_cache_key: view_of(self.prompt_cache_key),
            tools: documents(self.tools@),
            max_retries: self.max_retries,
            idle_timeout: self.idle_timeout@,
            tool_choice: view_of(self.tool_choice),
            parallel_tool_calls: self.parallel_tool_calls,
            text: view_of(self.text),
        }
    }
}

/// The model that is asked where `configured` is what the user has set up.
pub open spec fn default_model(configured: Option<Seq<char>>) -> Seq<char> {
    match configured {
        Some(model) => if trimmed(model).len() == 0 {
            "gpt-5.3-codex"@
        } else {
            model
        },
        None => "gpt-5.3-codex"@,
    }
}

/// The options that hold where nothing else is asked for.
pub open spec fn default_options(configured: Option<Seq<char>>) -> SendOptionsView {
    SendOptionsView {
        model: default_model(configured),
        instructions: "You are a helpful assistant."@,
        reasoning_effort: None,
        prompt_cache_key: None,
        tools: seq![],
        max_retries: 2,
        idle_timeout: 120 * NANOS_PER_SEC as nat,
        tool_choice: None,
        parallel_tool_calls: None,
        text: None,
    }
}

impl SendOptions {
    /// The options that hold where nothing else is asked for. `configured` is the model
    /// that the user has set up for their environment; a blank one counts as none.
    pub fn with_configured_model(configured: Option<&str>) -> (r: SendOptions)
        ensures
            r@ == default_options(view_of(configured)),
    {
        let model = match configured {
            Some(model) => if model.trim().is_empty() {
                "gpt-5.3-codex".to_owned()
            } else {
                model.to_owned()
            },
            None => "gpt-5.3-codex".to_owned(),
        };
        let r = SendOptions {
            model,
            instructions: "You are a helpful assistant.".to_owned(),
            reasoning_effort: None,
            prompt_cache_key: None,
            tools: Vec::new(),
            max_retries: DEFAULT_MAX_RETRIES,
            idle_timeout: Duration::from_secs(SSE_IDLE_TIMEOUT_SECS),
            tool_choice: None,
            parallel_tool_calls: None,
            text: None,
        };
        assert(r@.tools =~= seq![]);
        r
    }
}

// ---------------------------------------------------------------------------
// The body of a request
// ---------------------------------------------------------------------------

/// A message of the user.
pub open spec fn user_item(text: Seq<char>) -> Json {
    Json::Object(
        map![
            "role"@ => Json::String("user"@),
            "content"@ => Json::Array(seq![
                Json::Object(map![
                    "type"@ => Json::String("input_text"@),
                    "text"@ => Json::String(text),
                ]),
            ]),
        ],
    )
}

/// The members that every body has.
pub open spec fn required_members(input: Json, opts: SendOptionsView) -> Map<Seq<char>, Json> {
    map![
        "model"@ => Json::String(opts.model),
        "instructions"@ => Json::String(opts.instructions),
        "input"@ => input,
        "store"@ => Json::Bool(false),
        "stream"@ => Json::Bool(true),
    ]
}

/// The members with those that go with reasoning. What the model has reasoned comes back
/// in encrypted form, so that a later turn can go on from it.
pub open spec fn with_reasoning(
    members: Map<Seq<char>, Json>,
    effort: Option<Seq<char>>,
) -> Map<Seq<char>, Json> {
    match effort {
        Some(effort) => members.insert(
            "reasoning"@,
            Json::Object(map!["effort"@ => Json::String(effort)]),
        ).insert("include"@, Json::Array(seq![Json::String("reasoning.encrypted_content"@)])),
        None => members,
    }
}

/// The members with one more, where there is a value for it.
pub open spec fn with_optional(
    members: Map<Seq<char>, Json>,
    key: Seq<char>,
    value: Option<Json>,
) -> Map<Seq<char>, Json> {
    match value {
        Some(value) => members.insert(key, value),
        None => members,
    }
}

/// A text as a document, where there is one.
pub open spec fn optional_string(text: Option<Seq<char>>) -> Option<Json> {
    match text {
        Some(text) => Some(Json::String(text)),
        None => None,
    }
}

/// A truth value as a document, where there is one.
pub open spec fn optional_bool(b: Option<bool>) -> Option<Json> {
    match b {
        Some(b) => Some(Json::Bool(b)),
        None => None,
    }
}

/// An array of tools, where there are any.
pub open spec fn optional_tools(tools: Seq<Json>) -> Option<Json> {
    if tools.len() > 0 {
        Some(Json::Array(tools))
    } else {
        None
    }
}

/// The members of the body of a request.
pub open spec fn body_members(input: Json, opts: SendOptionsView) -> Map<Seq<char>, Json> {
    let members = with_reasoning(required_members(input, opts), opts.reasoning_effort);
    let members = with_optional(
        members,
        "prompt_cache_key"@,
        optional_string(opts.prompt_cache_key),
    );
    let members = with_optional(members, "tools"@, optional_tools(opts.tools));
    let members = with_optional(members, "tool_choice"@, opts.tool_choice);
    let members = with_optional(
        members,
        "parallel_tool_calls"@,
        optional_bool(opts.parallel_tool_calls),
    );
    with_optional(members, "text"@, opts.text)
}

/// A message of the user, as an item of the input.
pub(crate) fn message_from_user(text: &str) -> (r: Value)
    ensures
        r@ == user_item(text@),
{
    let part = Value::object(
        Object::new().with("type", Value::string("input_text")).with("text", Value::string(text)),
    );
    assert(part@->Object_0 =~= map![
        "type"@ => Json::String("input_text"@),
        "text"@ => Json::String(text@),
    ]);
    let mut parts: Vec<Value> = Vec::new();
    parts.push(part);
    let content = Value::array(parts);
    assert(content@->Array_0 =~= seq![part@]);
    let r = Value::object(
        Object::new().with("role", Value::string("user")).with("content", content),
    );
    assert(r@->Object_0 =~= user_item(text@)->Object_0);
    r
}

/// The input that consists of one message of the user.
pub fn normalize_input(user_message: &str) -> (r: Value)
    ensures
        r@ == Json::Array(seq![user_item(user_message@)]),
{
    let mut items: Vec<Value> = Vec::new();
    items.push(message_from_user(user_message));
    let r = Value::array(items);
    assert(r@->Array_0 =~= seq![user_item(user_message@)]);
    r
}

fn copied(values: &Vec<Value>) -> (r: Vec<Value>)
    ensures
        documents(r@) == documents(values@),
{
    let mut out: Vec<Value> = Vec::new();
    let mut i: usize = 0;
    while i < values.len()
        invariant
            i <= values@.len(),
            out@.len() == i,
            forall|j: int| 0 <= j < i ==> (#[trigger] out@[j])@ == values@[j]@,
        decreases values@.len() - i,
    {
        out.push(values[i].clone());
        i += 1;
    }
    assert(documents(out@) =~= documents(values@));
    out
}

fn insert_reasoning(members: &mut Object, effort: &str)
    ensures
        final(members)@ == with_reasoning(old(members)@, Some(effort@)),
{
    let reasoning = Value::object(Object::new().with("effort", Value::string(effort)));
    assert(reasoning@->Object_0 =~= map!["effort"@ => Json::String(effort@)]);
    let mut wanted: Vec<Value> = Vec::new();
    wanted.push(Value::string("reasoning.encrypted_content"));
    assert(documents(wanted@) =~= seq![Json::String("reasoning.encrypted_content"@)]);
    members.insert("reasoning", reasoning);
    members.insert("include", Value::array(wanted));
}

/// The body of a request for `input`.
pub fn build_request_body(input: Value, opts: &SendOptions) -> (r: Value)
    ensures
        r@ == Json::Object(body_members(input@, opts@)),
{
    let mut members = Object::new();
    members.insert("model", Value::string(opts.model.as_str()));
    members.insert("instructions", Value::string(opts.instructions.as_str()));
    members.insert("input", input);
    members.insert("store", Value::boolean(false));
    members.insert("stream", Value::boolean(true));
    assert(members@ =~= required_members(input@, opts@));
    if let Some(effort) = &opts.reasoning_effort {
        insert_reasoning(&mut members, effort.as_str());
    }
    if let Some(key) = &opts.prompt_cache_key {
        members.insert("prompt_cache_key", Value::string(key.as_str()));
    }
    if !opts.tools.is_empty() {
        members.insert("tools", Value::array(copied(&opts.tools)));
    }
    if let Some(choice) = &opts.tool_choice {
        members.insert("tool_choice", choice.clone());
    }
    if let Some(parallel) = opts.parallel_tool_calls {
        members.insert("parallel_tool_calls", Value::boolean(parallel));
    }
    if let Some(text) = &opts.text {
        members.insert("text", text.clone());
    }
    Value::object(members)
}

// ---------------------------------------------------------------------------
// Laws
// ---------------------------------------------------------------------------

proof fn lemma_keys_differ()
    ensures
        "model"@.len() == 5 && "model"@[0] == 'm',
        "instructions"@.len() == 12,
        "input"@.len() == 5 && "input"@[0] == 'i',
        "store"@.len() == 5 && "store"@[0] == 's',
        "stream"@.len() == 6,
        "reasoning"@.len() == 9,
        "include"@.len() == 7,
        "prompt_cache_key"@.len() == 16,
        "tools"@.len() == 5 && "tools"@[0] == 't',
        "tool_choice"@.len() == 11,
        "parallel_tool_calls"@.len() == 19,
        "text"@.len() == 4,
{
    reveal_strlit("model");
    reveal_strlit("instructions");
    reveal_strlit("input");
    reveal_strlit("store");
    reveal_strlit("stream");
    reveal_strlit("reasoning");
    reveal_strlit("include");
    reveal_strlit("prompt_cache_key");
    reveal_strlit("tools");
    reveal_strlit("tool_choice");
    reveal_strlit("parallel_tool_calls");
    reveal_strlit("text");
}

/// Whatever the options, a request asks for a stream, asks the server to store nothing,
/// and carries the model, the instructions and the input unchanged.
pub proof fn lemma_required_members_stand(input: Json, opts: SendOptionsView)
    ensures
        Json::Object(body_members(input, opts)).member("stream"@) == Some(Json::Bool(true)),
        Json::Object(body_members(input, opts)).member("store"@) == Some(Json::Bool(false)),
        Json::Object(body_members(input, opts)).member("model"@) == Some(
            Json::String(opts.model),
        ),
        Json::Object(body_members(input, opts)).member("instructions"@) == Some(
            Json::String(opts.instructions),
        ),
        Json::Object(body_members(input, opts)).member("input"@) == Some(input),
{
    lemma_keys_differ();
}

/// An option that is not set leaves no trace in the request, and one that is set is
/// passed on as it is.
pub proof fn lemma_only_what_is_set_is_sent(input: Json, opts: SendOptionsView)
    ensures
        Json::Object(body_members(input, opts)).member("prompt_cache_key"@) == optional_string(
            opts.prompt_cache_key,
        ),
        Json::Object(body_members(input, opts)).member("tools"@) == optional_tools(opts.tools),
        Json::Object(body_members(input, opts)).member("tool_choice"@) == opts.tool_choice,
        Json::Object(body_members(input, opts)).member("parallel_tool_calls"@) == optional_bool(
            opts.parallel_tool_calls,
        ),
        Json::Object(body_members(input, opts)).member("text"@) == opts.text,
{
    lemma_keys_differ();
}

/// Encrypted reasoning is asked for exactly where reasoning is.
pub proof fn lemma_reasoning_is_included(input: Json, opts: SendOptionsView)
    ensures
        Json::Object(body_members(input, opts)).member("reasoning"@) is Some
            <==> opts.reasoning_effort is Some,
        Json::Object(body_members(input, opts)).member("include"@) is Some
            <==> opts.reasoning_effort is Some,
        opts.reasoning_effort is Some ==> Json::Object(body_members(input, opts)).member_or_null(
            "reasoning"@,
        ).member_text("effort"@) == opts.reasoning_effort,
{
    lemma_keys_differ();
}

/// How often a request is sent again and how long a silence may last are no business of
/// the server: neither changes what is sent.
pub proof fn lemma_local_options_are_not_sent(input: Json, a: SendOptionsView, b: SendOptionsView)
    requires
        b == (SendOptionsView { max_retries: b.max_retries, idle_timeout: b.idle_timeout, ..a }),
    ensures
        body_members(input, a) == body_members(input, b),
{
}

} // verus!
