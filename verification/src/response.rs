//! From the events of a stream to one response, and from a response to its text.

use vstd::prelude::*;
use vstd::utf8::*;

use crate::error::{ClientError, ClientErrorView};
use crate::json::{documents, text_of_json, view_of, Json, Object, Value};
use crate::text::{concat3, join, joined, same_text, texts};

verus! {

/// The most bytes of text that the deltas of one response may add up to.
pub const MAX_RESPONSE_TEXT_BYTES: usize = 64 * 1024 * 1024;

/// The most output items of one response.
pub const MAX_RESPONSE_OUTPUT_ITEMS: usize = 100_000;

// ---------------------------------------------------------------------------
// The text of a response
// ---------------------------------------------------------------------------

/// The text of one part of a message: that of an `output_text` part.
pub open spec fn part_text(part: Json) -> Seq<char> {
    if part.member_text("type"@) == Some("output_text"@) {
        match part.member_text("text"@) {
            Some(text) => text,
            None => seq![],
        }
    } else {
        seq![]
    }
}

/// The texts of the parts of a message, one behind the other.
pub open spec fn parts_text(parts: Seq<Json>) -> Seq<char>
    decreases parts.len(),
{
    if parts.len() == 0 {
        seq![]
    } else {
        parts_text(parts.drop_last()) + part_text(parts.last())
    }
}

/// The text of one output item: that of a message.
pub open spec fn item_text(item: Json) -> Seq<char> {
    if item.member_text("type"@) == Some("message"@) {
        match item.member_elements("content"@) {
            Some(parts) => parts_text(parts),
            None => seq![],
        }
    } else {
        seq![]
    }
}

/// The texts of output items, one behind the other.
pub open spec fn items_text(items: Seq<Json>) -> Seq<char>
    decreases items.len(),
{
    if items.len() == 0 {
        seq![]
    } else {
        items_text(items.drop_last()) + item_text(items.last())
    }
}

/// The assistant's text in a response.
pub open spec fn response_text(response: Json) -> Seq<char> {
    match response.member_elements("output"@) {
        Some(items) => items_text(items),
        None => seq![],
    }
}

/// Whether a text is there and equals `expected`.
pub fn is_text(text: Option<&str>, expected: &str) -> (r: bool)
    ensures
        r == (view_of(text) == Some(expected@)),
{
    match text {
        Some(t) => same_text(t, expected),
        None => false,
    }
}

fn push_item_text(out: &mut String, item: &Value)
    ensures
        final(out)@ == old(out)@ + item_text(item@),
{
    if !is_text(item.get_str("type"), "message") {
        assert(out@ =~= old(out)@ + item_text(item@));
        return ;
    }
    match item.get_array("content") {
        None => {
            assert(out@ =~= old(out)@ + item_text(item@));
        },
        Some(parts) => {
            let mut i: usize = 0;
            assert(out@ + parts_text(documents(parts@).take(0)) =~= out@);
            while i < parts.len()
                invariant
                    i <= parts@.len(),
                    out@ == old(out)@ + parts_text(documents(parts@).take(i as int)),
                decreases parts@.len() - i,
            {
                proof {
                    let next = documents(parts@).take(i + 1);
                    assert(next.drop_last() =~= documents(parts@).take(i as int));
                    assert(next.last() == parts@[i as int]@);
                }
                let part = &parts[i];
                if is_text(part.get_str("type"), "output_text") {
                    match part.get_str("text") {
                        Some(text) => {
                            out.append(text);
                        },
                        None => {},
                    }
                }
                i += 1;
                assert(out@ =~= old(out)@ + parts_text(documents(parts@).take(i as int)));
            }
            assert(documents(parts@).take(i as int) =~= documents(parts@));
        },
    }
}

/// Pulls the assistant's text out of a response.
pub fn extract_text(response: &Value) -> (r: String)
    ensures
        r@ == response_text(response@),
{
    let mut out = String::new();
    match response.get_array("output") {
        None => {},
        Some(items) => {
            let mut i: usize = 0;
            while i < items.len()
                invariant
                    i <= items@.len(),
                    out@ == items_text(documents(items@).take(i as int)),
                decreases items@.len() - i,
            {
                proof {
                    let next = documents(items@).take(i + 1);
                    assert(next.drop_last() =~= documents(items@).take(i as int));
                    assert(next.last() == items@[i as int]@);
                }
                push_item_text(&mut out, &items[i]);
                i += 1;
            }
            assert(documents(items@).take(i as int) =~= documents(items@));
        },
    }
    out
}

// ---------------------------------------------------------------------------
// Gathering the events of a stream
// ---------------------------------------------------------------------------

/// What has been gathered from the events of a stream so far.
pub struct Gathered {
    /// The response that the last `response.completed` carried.
    pub completed: Option<Json>,
    /// The pieces of text.
    pub deltas: Seq<Seq<char>>,
    /// The output items.
    pub items: Seq<Json>,
}

/// The member `key` of the event's response, or else of the event itself, with JSON null
/// where neither has it.
pub open spec fn reported(event: Json, key: Seq<char>) -> Json {
    match event.member_or_null("response"@).member(key) {
        Some(found) => found,
        None => event.member_or_null(key),
    }
}

/// The bytes that the pieces of text take together.
pub open spec fn text_bytes(deltas: Seq<Seq<char>>) -> nat
    decreases deltas.len(),
{
    if deltas.len() == 0 {
        0
    } else {
        text_bytes(deltas.drop_last()) + encode_utf8(deltas.last()).len()
    }
}

/// Nothing gathered yet.
pub open spec fn nothing_gathered() -> Gathered {
    Gathered { completed: None, deltas: seq![], items: seq![] }
}

/// A protocol failure of the given wording.
pub open spec fn fault(message: Seq<char>) -> ClientErrorView {
    ClientErrorView::Protocol(message)
}

/// What is gathered after one more event, or the failure that ends the stream.
pub open spec fn gathered(s: Gathered, event: Json) -> Result<Gathered, ClientErrorView> {
    let kind = event.member_text("type"@);
    if kind == Some("response.completed"@) {
        match event.member("response"@) {
            Some(response) => Ok(Gathered { completed: Some(response), ..s }),
            None => Ok(s),
        }
    } else if kind == Some("response.failed"@) {
        Err(fault("Codex response failed: "@ + text_of_json(reported(event, "error"@))))
    } else if kind == Some("response.incomplete"@) {
        Err(
            fault(
                "Codex response incomplete: "@ + text_of_json(
                    reported(event, "incomplete_details"@),
                ),
            ),
        )
    } else if kind == Some("response.output_text.delta"@) {
        match event.member_text("delta"@) {
            Some(delta) => if text_bytes(s.deltas) + encode_utf8(delta).len()
                > MAX_RESPONSE_TEXT_BYTES {
                Err(fault("Codex response exceeded max accumulated text (64MB) — aborting"@))
            } else {
                Ok(Gathered { deltas: s.deltas.push(delta), ..s })
            },
            None => Ok(s),
        }
    } else if kind == Some("response.output_item.done"@) {
        match event.member("item"@) {
            Some(item) => if s.items.len() >= MAX_RESPONSE_OUTPUT_ITEMS {
                Err(fault("Codex response exceeded max output items (100000) — aborting"@))
            } else {
                Ok(Gathered { items: s.items.push(item), ..s })
            },
            None => Ok(s),
        }
    } else {
        Ok(s)
    }
}

/// What is gathered after one more item of the stream: an event, or an error, which ends
/// the stream as it is.
pub open spec fn taken(s: Gathered, item: Result<Json, ClientErrorView>) -> Result<
    Gathered,
    ClientErrorView,
> {
    match item {
        Ok(event) => gathered(s, event),
        Err(e) => Err(e),
    }
}

// ---------------------------------------------------------------------------
// The response at the end of the stream
// ---------------------------------------------------------------------------

/// Whether a response of this status has ended without success.
pub open spec fn terminal_failure(status: Seq<char>) -> bool {
    status == "failed"@ || status == "cancelled"@ || status == "incomplete"@ || status
        == "expired"@
}

/// A response without output.
pub open spec fn empty_response() -> Json {
    Json::Object(map!["output"@ => Json::Array(seq![])])
}

/// The message that one text stands for.
pub open spec fn message_of(text: Seq<char>) -> Json {
    Json::Object(
        map![
            "type"@ => Json::String("message"@),
            "role"@ => Json::String("assistant"@),
            "content"@ => Json::Array(seq![
                Json::Object(map![
                    "type"@ => Json::String("output_text"@),
                    "text"@ => Json::String(text),
                ]),
            ]),
        ],
    )
}

/// The error of a response, unless it is JSON null.
pub open spec fn carried_error(response: Json) -> Option<Json> {
    match response.member("error"@) {
        Some(error) => if error is Null {
            None
        } else {
            Some(error)
        },
        None => None,
    }
}

/// Why a response cannot be handed out as a success; nothing where it can.
pub open spec fn rejection(response: Json) -> Option<ClientErrorView> {
    let status = response.member_text("status"@);
    if !(response is Object) {
        Some(fault("Codex response is not an object: "@ + text_of_json(response)))
    } else if status is Some && terminal_failure(status->Some_0) {
        let detail = match carried_error(response) {
            Some(error) => error,
            None => response.member_or_null("incomplete_details"@),
        };
        Some(
            fault(
                "Codex response terminal status `"@ + status->Some_0 + "`: "@ + text_of_json(
                    detail,
                ),
            ),
        )
    } else {
        match carried_error(response) {
            Some(error) => Some(
                fault("Codex response carried an error: "@ + text_of_json(error)),
            ),
            None => None,
        }
    }
}

/// Whether a response has no output item.
pub open spec fn output_is_empty(response: Json) -> bool {
    match response.member_elements("output"@) {
        Some(items) => items.len() == 0,
        None => true,
    }
}

/// A response whose missing output is filled in from what the stream brought.
pub open spec fn filled(response: Json, items: Seq<Json>, deltas: Seq<Seq<char>>) -> Json {
    if !output_is_empty(response) {
        response
    } else if items.len() > 0 {
        Json::Object(response->Object_0.insert("output"@, Json::Array(items)))
    } else if deltas.len() > 0 {
        Json::Object(
            response->Object_0.insert(
                "output"@,
                Json::Array(seq![message_of(joined(deltas, ""@))]),
            ),
        )
    } else {
        response
    }
}

/// The response that stands at the end of the stream.
pub open spec fn concluded(s: Gathered) -> Result<Json, ClientErrorView> {
    if s.completed is None && s.deltas.len() == 0 && s.items.len() == 0 {
        Err(fault("Codex stream ended without response.completed or any deltas"@))
    } else {
        let response = match s.completed {
            Some(response) => response,
            None => empty_response(),
        };
        match rejection(response) {
            Some(e) => Err(e),
            None => Ok(filled(response, s.items, s.deltas)),
        }
    }
}

/// The view of a result whose error is a [`ClientError`].
pub open spec fn outcome<T: View>(r: Result<T, ClientError>) -> Result<T::V, ClientErrorView> {
    match r {
        Ok(v) => Ok(v@),
        Err(e) => Err(e@),
    }
}

// ---------------------------------------------------------------------------
// The assembler
// ---------------------------------------------------------------------------

/// Puts the events of a stream together into one response.
///
/// Every item of the stream goes to [`ResponseAssembler::take`], or an event on its own to
/// [`ResponseAssembler::push`], and at the end of the stream [`ResponseAssembler::finish`] gives the response.
pub struct ResponseAssembler {
    completed: Option<Value>,
    deltas: Vec<String>,
    delta_bytes: usize,
    items: Vec<Value>,
}

impl View for ResponseAssembler {
    type V = Gathered;

    closed spec fn view(&self) -> Gathered {
        Gathered {
            completed: view_of(self.completed),
            deltas: texts(self.deltas@),
            items: documents(self.items@),
        }
    }
}

fn fault_of(prefix: &str, detail: &Value) -> (r: ClientError)
    ensures
        r@ == fault(prefix@ + text_of_json(detail@)),
{
    ClientError::Protocol(prefix.to_owned().concat(detail.render().as_str()))
}

pub(crate) fn reported_by(event: &Value, key: &str) -> (r: Value)
    ensures
        r@ == reported(event@, key@),
{
    if let Some(response) = event.get("response") {
        if let Some(found) = response.get(key) {
            return found.clone();
        }
    }
    event.get_or_null(key)
}

impl ResponseAssembler {
    /// The bytes of the pieces of text are counted, and are within their bound.
    pub closed spec fn wf(self) -> bool {
        self.delta_bytes == text_bytes(texts(self.deltas@)) && self.delta_bytes
            <= MAX_RESPONSE_TEXT_BYTES
    }

    /// An assembler that has seen no event.
    pub fn new() -> (r: ResponseAssembler)
        ensures
            r.wf(),
            r@ == nothing_gathered(),
    {
        let r = ResponseAssembler {
            completed: None,
            deltas: Vec::new(),
            delta_bytes: 0,
            items: Vec::new(),
        };
        assert(r@.deltas =~= seq![]);
        assert(r@.items =~= seq![]);
        r
    }

    /// Takes one event. An error ends the stream.
    pub fn push(&mut self, event: &Value) -> (r: Result<(), ClientError>)
        requires
            old(self).wf(),
        ensures
            final(self).wf(),
            match r {
                Ok(()) => gathered(old(self)@, event@) == Ok::<Gathered, ClientErrorView>(
                    final(self)@,
                ),
                Err(e) => gathered(old(self)@, event@) == Err::<Gathered, ClientErrorView>(e@)
                    && final(self)@ == old(self)@,
            },
    {
        let kind = event.get_str("type");
        if is_text(kind, "response.completed") {
            if let Some(response) = event.get("response") {
                self.completed = Some(response.clone());
            }
            Ok(())
        } else if is_text(kind, "response.failed") {
            Err(fault_of("Codex response failed: ", &reported_by(event, "error")))
        } else if is_text(kind, "response.incomplete") {
            Err(fault_of("Codex response incomplete: ", &reported_by(event, "incomplete_details")))
        } else if is_text(kind, "response.output_text.delta") {
            match event.get_str("delta") {
                Some(delta) => self.push_delta(delta),
                None => Ok(()),
            }
        } else if is_text(kind, "response.output_item.done") {
            match event.get("item") {
                Some(item) => {
                    if self.items.len() >= MAX_RESPONSE_OUTPUT_ITEMS {
                        return Err(
                            ClientError::protocol(
                                "Codex response exceeded max output items (100000) — aborting",
                            ),
                        );
                    }
                    self.items.push(item.clone());
                    assert(self@.items =~= old(self)@.items.push(item@));
                    Ok(())
                },
                None => Ok(()),
            }
        } else {
            Ok(())
        }
    }

    /// Takes one item of the stream: an event, or an error, which is handed back as it is.
    pub fn take(&mut self, item: Result<Value, ClientError>) -> (r: Result<(), ClientError>)
        requires
            old(self).wf(),
        ensures
            final(self).wf(),
            match r {
                Ok(()) => taken(old(self)@, outcome(item)) == Ok::<Gathered, ClientErrorView>(
                    final(self)@,
                ),
                Err(e) => taken(old(self)@, outcome(item)) == Err::<Gathered, ClientErrorView>(e@)
                    && final(self)@ == old(self)@,
            },
    {
        match item {
            Ok(event) => self.push(&event),
            Err(e) => Err(e),
        }
    }

    fn push_delta(&mut self, delta: &str) -> (r: Result<(), ClientError>)
        requires
            old(self).wf(),
        ensures
            final(self).wf(),
            match r {
                Ok(()) => text_bytes(old(self)@.deltas) + encode_utf8(delta@).len()
                    <= MAX_RESPONSE_TEXT_BYTES && final(self)@ == (Gathered {
                    deltas: old(self)@.deltas.push(delta@),
                    ..old(self)@
                }),
                Err(e) => text_bytes(old(self)@.deltas) + encode_utf8(delta@).len()
                    > MAX_RESPONSE_TEXT_BYTES && final(self)@ == old(self)@ && e@ == fault(
                    "Codex response exceeded max accumulated text (64MB) — aborting"@,
                ),
            },
    {
        let size = delta.as_bytes().len();
        let total = self.delta_bytes.saturating_add(size);
        if total > MAX_RESPONSE_TEXT_BYTES {
            return Err(
                ClientError::protocol(
                    "Codex response exceeded max accumulated text (64MB) — aborting",
                ),
            );
        }
        self.delta_bytes = total;
        self.deltas.push(delta.to_owned());
        proof {
            let before = old(self)@.deltas;
            assert(self@.deltas =~= before.push(delta@));
            assert(self@.deltas.drop_last() =~= before);
        }
        Ok(())
    }

    /// The response at the end of the stream.
    pub fn finish(self) -> (r: Result<Value, ClientError>)
        ensures
            outcome(r) == concluded(self@),
    {
        let response = match self.completed {
            Some(response) => response,
            None => {
                if self.deltas.is_empty() && self.items.is_empty() {
                    return Err(
                        ClientError::protocol(
                            "Codex stream ended without response.completed or any deltas",
                        ),
                    );
                }
                let output = Value::array(Vec::new());
                assert(output@->Array_0 =~= seq![]);
                let response = Value::object(Object::new().with("output", output));
                assert(response@->Object_0 =~= empty_response()->Object_0);
                response
            },
        };
        match rejection_of(&response) {
            Some(e) => Err(e),
            None => Ok(fill_output(response, self.items, &self.deltas)),
        }
    }
}

fn is_terminal_failure(status: &str) -> (r: bool)
    ensures
        r == terminal_failure(status@),
{
    same_text(status, "failed") || same_text(status, "cancelled") || same_text(
        status,
        "incomplete",
    ) || same_text(status, "expired")
}

fn error_in(response: &Value) -> (r: Option<&Value>)
    ensures
        view_of(r) == carried_error(response@),
{
    match response.get("error") {
        Some(error) => if error.is_null() {
            None
        } else {
            Some(error)
        },
        None => None,
    }
}

fn rejection_of(response: &Value) -> (r: Option<ClientError>)
    ensures
        view_of(r) == rejection(response@),
{
    if !response.is_object() {
        return Some(fault_of("Codex response is not an object: ", response));
    }
    if let Some(status) = response.get_str("status") {
        if is_terminal_failure(status) {
            let detail = match error_in(response) {
                Some(error) => error.clone(),
                None => response.get_or_null("incomplete_details"),
            };
            let prefix = concat3("Codex response terminal status `", status, "`: ");
            return Some(fault_of(prefix.as_str(), &detail));
        }
    }
    match error_in(response) {
        Some(error) => Some(fault_of("Codex response carried an error: ", error)),
        None => None,
    }
}

fn message_from(text: &str) -> (r: Value)
    ensures
        r@ == message_of(text@),
{
    let part = Value::object(
        Object::new().with("type", Value::string("output_text")).with("text", Value::string(text)),
    );
    assert(part@->Object_0 =~= map![
        "type"@ => Json::String("output_text"@),
        "text"@ => Json::String(text@),
    ]);
    let mut parts: Vec<Value> = Vec::new();
    parts.push(part);
    let content = Value::array(parts);
    assert(content@->Array_0 =~= seq![part@]);
    let message = Value::object(
        Object::new().with("type", Value::string("message")).with(
            "role",
            Value::string("assistant"),
        ).with("content", content),
    );
    assert(message@->Object_0 =~= message_of(text@)->Object_0);
    message
}

fn fill_output(response: Value, items: Vec<Value>, deltas: &Vec<String>) -> (r: Value)
    requires
        response@ is Object,
    ensures
        r@ == filled(response@, documents(items@), texts(deltas@)),
{
    let empty = match response.get_array("output") {
        Some(output) => output.is_empty(),
        None => true,
    };
    if !empty {
        response
    } else if !items.is_empty() {
        response.with_member("output", Value::array(items))
    } else if !deltas.is_empty() {
        let mut output: Vec<Value> = Vec::new();
        output.push(message_from(join(deltas, "").as_str()));
        assert(documents(output@) =~= seq![message_of(joined(texts(deltas@), ""@))]);
        response.with_member("output", Value::array(output))
    } else {
        response
    }
}

} // verus!
