//! A thin typed layer over the documents of `/responses`: [`StreamEvent`] for the events
//! of a stream, [`Response`] for a whole response.
//!
//! Only what callers act on is typed. Everything else stays a document, and an event of
//! a kind that is not known here comes through as [`StreamEvent::Other`].

use vstd::prelude::*;

use crate::json::{documents, view_of, Json, Object, Value};
use crate::response::{extract_text, is_text, reported, reported_by, response_text};
use crate::text::texts;

verus! {

// ---------------------------------------------------------------------------
// Members of items
// ---------------------------------------------------------------------------

/// The text of the member `key`; empty where there is none.
pub open spec fn text_or_empty(v: Json, key: Seq<char>) -> Seq<char> {
    match v.member_text(key) {
        Some(text) => text,
        None => seq![],
    }
}

/// The texts among the elements of an array, in their order.
pub open spec fn texts_among(elements: Seq<Json>) -> Seq<Seq<char>>
    decreases elements.len(),
{
    if elements.len() == 0 {
        seq![]
    } else {
        match elements.last().text() {
            Some(text) => texts_among(elements.drop_last()).push(text),
            None => texts_among(elements.drop_last()),
        }
    }
}

fn str_of(v: &Value, key: &str) -> (r: String)
    ensures
        r@ == text_or_empty(v@, key@),
{
    match v.get_str(key) {
        Some(text) => text.to_owned(),
        None => String::new(),
    }
}

fn owned_str_of(v: &Value, key: &str) -> (r: Option<String>)
    ensures
        view_of(r) == v@.member_text(key@),
{
    match v.get_str(key) {
        Some(text) => Some(text.to_owned()),
        None => None,
    }
}

fn strings_among(elements: &Vec<Value>) -> (r: Vec<String>)
    ensures
        texts(r@) == texts_among(documents(elements@)),
{
    let mut out: Vec<String> = Vec::new();
    let mut i: usize = 0;
    assert(texts(out@) =~= seq![]);
    while i < elements.len()
        invariant
            i <= elements@.len(),
            texts(out@) == texts_among(documents(elements@).take(i as int)),
        decreases elements@.len() - i,
    {
        let ghost before = texts(out@);
        proof {
            let next = documents(elements@).take(i + 1);
            assert(next.drop_last() =~= documents(elements@).take(i as int));
            assert(next.last() == elements@[i as int]@);
        }
        if let Some(text) = elements[i].as_str() {
            out.push(text.to_owned());
            assert(texts(out@) =~= before.push(text@));
        }
        i += 1;
    }
    assert(documents(elements@).take(i as int) =~= documents(elements@));
    out
}

// ---------------------------------------------------------------------------
// Tool calls
// ---------------------------------------------------------------------------

/// One call of a custom function tool by the model. The caller runs the function and
/// feeds its result back.
#[derive(Debug, Clone)]
pub struct ToolCall {
    /// By this the result is matched with the call.
    pub call_id: String,
    /// The name of the function.
    pub name: String,
    /// The arguments, as a JSON text.
    pub arguments: String,
}

/// The mathematical view of a [`ToolCall`].
pub struct ToolCallView {
    pub call_id: Seq<char>,
    pub name: Seq<char>,
    pub arguments: Seq<char>,
}

impl View for ToolCall {
    type V = ToolCallView;

    open spec fn view(&self) -> ToolCallView {
        ToolCallView {
            call_id: self.call_id@,
            name: self.name@,
            arguments: self.arguments@,
        }
    }
}

/// The tool call that an output item stands for. One without an id or without a name is
/// malformed and stands for none.
pub open spec fn tool_call_in(item: Json) -> Option<ToolCallView> {
    let call_id = text_or_empty(item, "call_id"@);
    let name = text_or_empty(item, "name"@);
    if item.member_text("type"@) != Some("function_call"@) || call_id.len() == 0 || name.len()
        == 0 {
        None
    } else {
        Some(ToolCallView { call_id, name, arguments: text_or_empty(item, "arguments"@) })
    }
}

/// The item by which a tool call is echoed in the next input.
pub open spec fn echo_of(call: ToolCallView) -> Json {
    Json::Object(
        map![
            "type"@ => Json::String("function_call"@),
            "name"@ => Json::String(call.name),
            "call_id"@ => Json::String(call.call_id),
            "arguments"@ => Json::String(call.arguments),
        ],
    )
}

/// The document that a text holds, if it is a JSON text.
pub open spec fn document_in(text: Seq<char>) -> Option<Json> {
    match crate::json::json_of_text(text) {
        Ok(document) => Some(document),
        Err(_) => None,
    }
}

impl ToolCall {
    /// The tool call that an output item stands for, if it is a well-formed
    /// `function_call`.
    pub fn from_item(item: &Value) -> (r: Option<ToolCall>)
        ensures
            view_of(r) == tool_call_in(item@),
    {
        if !is_text(item.get_str("type"), "function_call") {
            return None;
        }
        let call_id = str_of(item, "call_id");
        let name = str_of(item, "name");
        if call_id.as_str().is_empty() || name.as_str().is_empty() {
            return None;
        }
        Some(ToolCall { call_id, name, arguments: str_of(item, "arguments") })
    }

    /// The arguments as a document; nothing where they are no JSON text.
    pub fn arguments_json(&self) -> (r: Option<Value>)
        ensures
            view_of(r) == document_in(self@.arguments),
    {
        match Value::parse(self.arguments.as_str()) {
            Ok(document) => Some(document),
            Err(_) => None,
        }
    }

    /// The item that echoes this call in the next input. The result of the call goes
    /// along with it.
    pub fn to_input_item(&self) -> (r: Value)
        ensures
            r@ == echo_of(self@),
    {
        let r = Value::object(
            Object::new().with("type", Value::string("function_call")).with(
                "name",
                Value::string(self.name.as_str()),
            ).with("call_id", Value::string(self.call_id.as_str())).with(
                "arguments",
                Value::string(self.arguments.as_str()),
            ),
        );
        assert(r@->Object_0 =~= echo_of(self@)->Object_0);
        r
    }
}

// ---------------------------------------------------------------------------
// Tools of the server
// ---------------------------------------------------------------------------

/// A web search that the server has run. Its findings stay with the server; only what
/// was searched for is told.
#[derive(Debug, Clone)]
pub struct WebSearch {
    pub id: String,
    pub status: String,
    /// The one search term.
    pub query: Option<String>,
    /// The search terms, where there are several.
    pub queries: Vec<String>,
}

/// The mathematical view of a [`WebSearch`].
pub struct WebSearchView {
    pub id: Seq<char>,
    pub status: Seq<char>,
    pub query: Option<Seq<char>>,
    pub queries: Seq<Seq<char>>,
}

impl View for WebSearch {
    type V = WebSearchView;

    open spec fn view(&self) -> WebSearchView {
        WebSearchView {
            id: self.id@,
            status: self.status@,
            query: view_of(self.query),
            queries: texts(self.queries@),
        }
    }
}

/// The web search that an output item stands for.
pub open spec fn web_search_in(item: Json) -> Option<WebSearchView> {
    if item.member_text("type"@) != Some("web_search_call"@) {
        None
    } else {
        let action = item.member_or_null("action"@);
        Some(
            WebSearchView {
                id: text_or_empty(item, "id"@),
                status: text_or_empty(item, "status"@),
                query: action.member_text("query"@),
                queries: match action.member_elements("queries"@) {
                    Some(elements) => texts_among(elements),
                    None => seq![],
                },
            },
        )
    }
}

impl WebSearch {
    /// The web search that an output item stands for, if it is a `web_search_call`.
    pub fn from_item(item: &Value) -> (r: Option<WebSearch>)
        ensures
            view_of(r) == web_search_in(item@),
    {
        if !is_text(item.get_str("type"), "web_search_call") {
            return None;
        }
        let action = item.get_or_null("action");
        let queries = match action.get_array("queries") {
            Some(elements) => strings_among(elements),
            None => Vec::new(),
        };
        assert(action@.member_elements("queries"@) is None ==> texts(queries@) =~= seq![]);
        Some(
            WebSearch {
                id: str_of(item, "id"),
                status: str_of(item, "status"),
                query: owned_str_of(&action, "query"),
                queries,
            },
        )
    }
}

/// An image that the server has made.
#[derive(Debug, Clone)]
pub struct GeneratedImage {
    pub id: String,
    pub status: String,
    /// The image in base64, as the server sent it.
    pub result_b64: Option<String>,
    /// The prompt as the model rewrote it.
    pub revised_prompt: Option<String>,
    pub size: Option<String>,
    pub quality: Option<String>,
    pub output_format: Option<String>,
}

/// The mathematical view of a [`GeneratedImage`].
pub struct GeneratedImageView {
    pub id: Seq<char>,
    pub status: Seq<char>,
    pub result_b64: Option<Seq<char>>,
    pub revised_prompt: Option<Seq<char>>,
    pub size: Option<Seq<char>>,
    pub quality: Option<Seq<char>>,
    pub output_format: Option<Seq<char>>,
}

impl View for GeneratedImage {
    type V = GeneratedImageView;

    open spec fn view(&self) -> GeneratedImageView {
        GeneratedImageView {
            id: self.id@,
            status: self.status@,
            result_b64: view_of(self.result_b64),
            revised_prompt: view_of(self.revised_prompt),
            size: view_of(self.size),
            quality: view_of(self.quality),
            output_format: view_of(self.output_format),
        }
    }
}

/// The image that an output item stands for.
pub open spec fn image_in(item: Json) -> Option<GeneratedImageView> {
    if item.member_text("type"@) != Some("image_generation_call"@) {
        None
    } else {
        Some(
            GeneratedImageView {
                id: text_or_empty(item, "id"@),
                status: text_or_empty(item, "status"@),
                result_b64: item.member_text("result"@),
                revised_prompt: item.member_text("revised_prompt"@),
                size: item.member_text("size"@),
                quality: item.member_text("quality"@),
                output_format: item.member_text("output_format"@),
            },
        )
    }
}

impl GeneratedImage {
    /// The image that an output item stands for, if it is an `image_generation_call`.
    pub fn from_item(item: &Value) -> (r: Option<GeneratedImage>)
        ensures
            view_of(r) == image_in(item@),
    {
        if !is_text(item.get_str("type"), "image_generation_call") {
            return None;
        }
        Some(
            GeneratedImage {
                id: str_of(item, "id"),
                status: str_of(item, "status"),
                result_b64: owned_str_of(item, "result"),
                revised_prompt: owned_str_of(item, "revised_prompt"),
                size: owned_str_of(item, "size"),
                quality: owned_str_of(item, "quality"),
                output_format: owned_str_of(item, "output_format"),
            },
        )
    }
}

// ---------------------------------------------------------------------------
// Events
// ---------------------------------------------------------------------------

/// An event of a stream.
#[derive(Debug, Clone)]
pub enum StreamEvent {
    /// A piece of the assistant's text.
    TextDelta(String),
    /// A call of a custom tool, with its arguments complete.
    ToolCall(ToolCall),
    /// A web search that the server has finished.
    WebSearchCall(WebSearch),
    /// An image that the server has finished.
    ImageGenerated(GeneratedImage),
    /// The end of the stream, with the whole response.
    Completed(Value),
    /// The response has failed; what the server says of the error.
    Failed(Value),
    /// The response has stopped early; what the server says of the reason.
    Incomplete(Value),
    /// Any other event, as it came.
    Other { kind: String, raw: Value },
}

/// The mathematical view of a [`StreamEvent`].
pub enum StreamEventView {
    TextDelta(Seq<char>),
    ToolCall(ToolCallView),
    WebSearchCall(WebSearchView),
    ImageGenerated(GeneratedImageView),
    Completed(Json),
    Failed(Json),
    Incomplete(Json),
    Other { kind: Seq<char>, raw: Json },
}

impl View for StreamEvent {
    type V = StreamEventView;

    open spec fn view(&self) -> StreamEventView {
        match self {
            StreamEvent::TextDelta(text) => StreamEventView::TextDelta(text@),
            StreamEvent::ToolCall(call) => StreamEventView::ToolCall(call@),
            StreamEvent::WebSearchCall(search) => StreamEventView::WebSearchCall(search@),
            StreamEvent::ImageGenerated(image) => StreamEventView::ImageGenerated(image@),
            StreamEvent::Completed(response) => StreamEventView::Completed(response@),
            StreamEvent::Failed(error) => StreamEventView::Failed(error@),
            StreamEvent::Incomplete(details) => StreamEventView::Incomplete(details@),
            StreamEvent::Other { kind, raw } => StreamEventView::Other { kind: kind@, raw: raw@ },
        }
    }
}

/// The event that a `response.completed` stands for. A response that has ended without
/// success is no completion.
pub open spec fn completion_of(response: Json) -> StreamEventView {
    let status = response.member_text("status"@);
    if status == Some("failed"@) || status == Some("cancelled"@) || status == Some("expired"@) {
        StreamEventView::Failed(response.member_or_null("error"@))
    } else if status == Some("incomplete"@) {
        StreamEventView::Incomplete(response.member_or_null("incomplete_details"@))
    } else {
        StreamEventView::Completed(response)
    }
}

/// The event that a finished output item stands for, if it is one of a typed kind.
pub open spec fn item_event(item: Json) -> Option<StreamEventView> {
    match tool_call_in(item) {
        Some(call) => Some(StreamEventView::ToolCall(call)),
        None => match web_search_in(item) {
            Some(search) => Some(StreamEventView::WebSearchCall(search)),
            None => match image_in(item) {
                Some(image) => Some(StreamEventView::ImageGenerated(image)),
                None => None,
            },
        },
    }
}

/// The event that a document of the stream stands for.
pub open spec fn stream_event_of(event: Json) -> StreamEventView {
    let kind = event.member_text("type"@);
    let other = StreamEventView::Other { kind: text_or_empty(event, "type"@), raw: event };
    if kind == Some("response.output_text.delta"@) {
        StreamEventView::TextDelta(text_or_empty(event, "delta"@))
    } else if kind == Some("response.completed"@) {
        completion_of(event.member_or_null("response"@))
    } else if kind == Some("response.failed"@) {
        StreamEventView::Failed(reported(event, "error"@))
    } else if kind == Some("response.incomplete"@) {
        StreamEventView::Incomplete(reported(event, "incomplete_details"@))
    } else if kind == Some("response.output_item.done"@) {
        match item_event(event.member_or_null("item"@)) {
            Some(typed) => typed,
            None => other,
        }
    } else {
        other
    }
}

fn completed_event(response: Value) -> (r: StreamEvent)
    ensures
        r@ == completion_of(response@),
{
    let status = response.get_str("status");
    if is_text(status, "failed") || is_text(status, "cancelled") || is_text(status, "expired") {
        StreamEvent::Failed(response.get_or_null("error"))
    } else if is_text(status, "incomplete") {
        StreamEvent::Incomplete(response.get_or_null("incomplete_details"))
    } else {
        StreamEvent::Completed(response)
    }
}

fn typed_item(item: &Value) -> (r: Option<StreamEvent>)
    ensures
        view_of(r) == item_event(item@),
{
    if let Some(call) = ToolCall::from_item(item) {
        Some(StreamEvent::ToolCall(call))
    } else if let Some(search) = WebSearch::from_item(item) {
        Some(StreamEvent::WebSearchCall(search))
    } else if let Some(image) = GeneratedImage::from_item(item) {
        Some(StreamEvent::ImageGenerated(image))
    } else {
        None
    }
}

impl StreamEvent {
    /// The event that a document of the stream stands for.
    pub fn from_event(event: &Value) -> (r: StreamEvent)
        ensures
            r@ == stream_event_of(event@),
    {
        let kind = event.get_str("type");
        if is_text(kind, "response.output_text.delta") {
            return StreamEvent::TextDelta(str_of(event, "delta"));
        }
        if is_text(kind, "response.completed") {
            return completed_event(event.get_or_null("response"));
        }
        if is_text(kind, "response.failed") {
            return StreamEvent::Failed(reported_by(event, "error"));
        }
        if is_text(kind, "response.incomplete") {
            return StreamEvent::Incomplete(reported_by(event, "incomplete_details"));
        }
        if is_text(kind, "response.output_item.done") {
            if let Some(typed) = typed_item(&event.get_or_null("item")) {
                return typed;
            }
        }
        StreamEvent::Other { kind: str_of(event, "type"), raw: event.clone() }
    }
}

// ---------------------------------------------------------------------------
// Token usage
// ---------------------------------------------------------------------------

/// The tokens that one request has used.
#[derive(Debug, Clone, Copy, PartialEq, Eq, Structural)]
pub struct TokenUsage {
    pub input: u64,
    pub output: u64,
    pub total: u64,
    /// Input tokens that came from the prompt cache.
    pub cached: u64,
    /// Output tokens spent on reasoning.
    pub reasoning: u64,
}

impl Default for TokenUsage {
    fn default() -> (r: TokenUsage)
        ensures
            r.input == 0,
            r.output == 0,
            r.total == 0,
            r.cached == 0,
            r.reasoning == 0,
    {
        TokenUsage { input: 0, output: 0, total: 0, cached: 0, reasoning: 0 }
    }
}

/// The count that the member `key` holds; zero where it holds none.
pub open spec fn count_in(v: Json, key: Seq<char>) -> u64 {
    match v.member_or_null(key).unsigned() {
        Some(n) => n,
        None => 0,
    }
}

/// The token usage that a response reports.
pub open spec fn token_usage_in(response: Json) -> Option<TokenUsage> {
    match response.member("usage"@) {
        Some(usage) => Some(
            TokenUsage {
                input: count_in(usage, "input_tokens"@),
                output: count_in(usage, "output_tokens"@),
                total: count_in(usage, "total_tokens"@),
                cached: count_in(
                    usage.member_or_null("input_tokens_details"@),
                    "cached_tokens"@,
                ),
                reasoning: count_in(
                    usage.member_or_null("output_tokens_details"@),
                    "reasoning_tokens"@,
                ),
            },
        ),
        None => None,
    }
}

fn count_of(v: &Value, key: &str) -> (r: u64)
    ensures
        r == count_in(v@, key@),
{
    match v.get(key) {
        Some(found) => match found.as_u64() {
            Some(n) => n,
            None => 0,
        },
        None => 0,
    }
}

impl TokenUsage {
    /// The token usage that a response reports, if it reports any.
    pub fn from_response(response: &Value) -> (r: Option<TokenUsage>)
        ensures
            r == token_usage_in(response@),
    {
        let usage = match response.get("usage") {
            Some(usage) => usage,
            None => {
                return None;
            },
        };
        Some(
            TokenUsage {
                input: count_of(usage, "input_tokens"),
                output: count_of(usage, "output_tokens"),
                total: count_of(usage, "total_tokens"),
                cached: count_of(&usage.get_or_null("input_tokens_details"), "cached_tokens"),
                reasoning: count_of(
                    &usage.get_or_null("output_tokens_details"),
                    "reasoning_tokens",
                ),
            },
        )
    }
}

// ---------------------------------------------------------------------------
// Responses
// ---------------------------------------------------------------------------

/// A whole response.
#[derive(Debug, Clone)]
pub struct Response {
    raw: Value,
}

impl View for Response {
    type V = Json;

    closed spec fn view(&self) -> Json {
        self.raw@
    }
}

/// The output items of a response.
pub open spec fn output_of(response: Json) -> Seq<Json> {
    match response.member_elements("output"@) {
        Some(items) => items,
        None => seq![],
    }
}

/// What `f` finds in the items, in their order.
pub open spec fn found_in<T>(items: Seq<Json>, f: spec_fn(Json) -> Option<T>) -> Seq<T>
    decreases items.len(),
{
    if items.len() == 0 {
        seq![]
    } else {
        match f(items.last()) {
            Some(found) => found_in(items.drop_last(), f).push(found),
            None => found_in(items.drop_last(), f),
        }
    }
}

/// The views of the elements of a sequence.
pub open spec fn views<T: View>(values: Seq<T>) -> Seq<T::V> {
    values.map_values(|v: T| v@)
}

/// What an output item can stand for.
trait OutputItem: View + Sized {
    /// What an output item stands for, if it is of this kind.
    spec fn found(item: Json) -> Option<Self::V>;

    /// Reads an output item.
    fn read(item: &Value) -> (r: Option<Self>)
        ensures
            view_of(r) == Self::found(item@),
    ;
}

impl OutputItem for ToolCall {
    spec fn found(item: Json) -> Option<ToolCallView> {
        tool_call_in(item)
    }

    fn read(item: &Value) -> Option<ToolCall> {
        ToolCall::from_item(item)
    }
}

impl OutputItem for WebSearch {
    spec fn found(item: Json) -> Option<WebSearchView> {
        web_search_in(item)
    }

    fn read(item: &Value) -> Option<WebSearch> {
        WebSearch::from_item(item)
    }
}

impl OutputItem for GeneratedImage {
    spec fn found(item: Json) -> Option<GeneratedImageView> {
        image_in(item)
    }

    fn read(item: &Value) -> Option<GeneratedImage> {
        GeneratedImage::from_item(item)
    }
}

/// Reads the output items of one kind.
fn read_all<T: OutputItem>(response: &Value) -> (r: Vec<T>)
    ensures
        views(r@) == found_in(output_of(response@), |item: Json| T::found(item)),
{
    let ghost f = |item: Json| T::found(item);
    let mut out: Vec<T> = Vec::new();
    assert(views(out@) =~= seq![]);
    if let Some(items) = response.get_array("output") {
        let mut i: usize = 0;
        while i < items.len()
            invariant
                i <= items@.len(),
                f == (|item: Json| T::found(item)),
                views(out@) == found_in(documents(items@).take(i as int), f),
            decreases items@.len() - i,
        {
            let ghost before = views(out@);
            proof {
                let next = documents(items@).take(i + 1);
                assert(next.drop_last() =~= documents(items@).take(i as int));
                assert(next.last() == items@[i as int]@);
            }
            if let Some(found) = T::read(&items[i]) {
                out.push(found);
                assert(views(out@) =~= before.push(found@));
            }
            i += 1;
        }
        assert(documents(items@).take(i as int) =~= documents(items@));
    }
    out
}

impl Response {
    /// The response that a document holds.
    pub fn new(raw: Value) -> (r: Response)
        ensures
            r@ == raw@,
    {
        Response { raw }
    }

    /// The assistant's text.
    pub fn text(&self) -> (r: String)
        ensures
            r@ == response_text(self@),
    {
        extract_text(&self.raw)
    }

    /// The calls of custom tools among the output items.
    pub fn tool_calls(&self) -> (r: Vec<ToolCall>)
        ensures
            views(r@) == found_in(output_of(self@), |item: Json| tool_call_in(item)),
    {
        assert((|item: Json| ToolCall::found(item)) =~= (|item: Json| tool_call_in(item)));
        read_all(&self.raw)
    }

    /// The web searches among the output items.
    pub fn web_searches(&self) -> (r: Vec<WebSearch>)
        ensures
            views(r@) == found_in(output_of(self@), |item: Json| web_search_in(item)),
    {
        assert((|item: Json| WebSearch::found(item)) =~= (|item: Json| web_search_in(item)));
        read_all(&self.raw)
    }

    /// The images among the output items.
    pub fn images(&self) -> (r: Vec<GeneratedImage>)
        ensures
            views(r@) == found_in(output_of(self@), |item: Json| image_in(item)),
    {
        assert((|item: Json| GeneratedImage::found(item)) =~= (|item: Json| image_in(item)));
        read_all(&self.raw)
    }

    /// The token usage, if the response reports it.
    pub fn usage(&self) -> (r: Option<TokenUsage>)
        ensures
            r == token_usage_in(self@),
    {
        TokenUsage::from_response(&self.raw)
    }

    /// The document.
    pub fn raw(&self) -> (r: &Value)
        ensures
            r@ == self@,
    {
        &self.raw
    }

    /// The document, handed over.
    pub fn into_raw(self) -> (r: Value)
        ensures
            r@ == self@,
    {
        self.raw
    }
}

} // verus!
