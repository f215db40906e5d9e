//! Laws of typed events and items: what each is read from, and that nothing of it is lost or
//! made up.

use vstd::prelude::*;

use crate::event::{
    count_in, document_in, echo_of, found_in, image_in, output_of, stream_event_of, text_or_empty,
    texts_among, token_usage_in, tool_call_in, views, web_search_in, GeneratedImage,
    StreamEvent, StreamEventView, ToolCall, ToolCallView, WebSearch,
};
use crate::json::{json_of_text, view_of, Json, JsonNumber, Value};
use crate::text::texts;

verus! {

// ---------------------------------------------------------------------------
// Saying what members hold
// ---------------------------------------------------------------------------

/// Whether `key` holds no string.
pub open spec fn has_no_text(members: Map<Seq<char>, Json>, key: Seq<char>) -> bool {
    forall|text: Seq<char>| !#[trigger] members.contains_pair(key, Json::String(text))
}

/// Whether `text` is the string under `key`, or is empty since there is none.
pub open spec fn says(members: Map<Seq<char>, Json>, key: Seq<char>, text: Seq<char>) -> bool {
    members.contains_pair(key, Json::String(text)) || (text.len() == 0 && has_no_text(
        members,
        key,
    ))
}

/// Whether `text` is the string under `key`, or is nothing since there is none.
pub open spec fn says_maybe(
    members: Map<Seq<char>, Json>,
    key: Seq<char>,
    text: Option<Seq<char>>,
) -> bool {
    match text {
        Some(text) => members.contains_pair(key, Json::String(text)),
        None => has_no_text(members, key),
    }
}

/// Whether `found` is what stands under `key`, or JSON null since nothing does.
pub open spec fn holds(members: Map<Seq<char>, Json>, key: Seq<char>, found: Json) -> bool {
    members.contains_pair(key, found) || (found == Json::Null && !members.dom().contains(key))
}

/// Whether `n` is the count under `key` of an object, or is zero since there is none.
pub open spec fn counts(document: Json, key: Seq<char>, n: u64) -> bool {
    (document is Object && document->Object_0.contains_pair(
        key,
        Json::Number(JsonNumber::PosInt(n)),
    )) || (n == 0 && forall|k: u64|
        !(document is Object && #[trigger] document->Object_0.contains_pair(
            key,
            Json::Number(JsonNumber::PosInt(k)),
        )))
}

proof fn lemma_text_or_empty(members: Map<Seq<char>, Json>, key: Seq<char>)
    ensures
        says(members, key, text_or_empty(Json::Object(members), key)),
        says_maybe(members, key, Json::Object(members).member_text(key)),
{
}

// ---------------------------------------------------------------------------
// Items
// ---------------------------------------------------------------------------

/// A function call with an id and a name is a tool call with that id, that name, and its
/// arguments as they stand.
pub proof fn lemma_function_call_is_read(
    members: Map<Seq<char>, Json>,
    call_id: Seq<char>,
    name: Seq<char>,
)
    requires
        members.contains_pair("type"@, Json::String("function_call"@)),
        members.contains_pair("call_id"@, Json::String(call_id)),
        members.contains_pair("name"@, Json::String(name)),
        call_id.len() > 0,
        name.len() > 0,
    ensures
        tool_call_in(Json::Object(members)) is Some,
        tool_call_in(Json::Object(members))->Some_0.call_id == call_id,
        tool_call_in(Json::Object(members))->Some_0.name == name,
        says(members, "arguments"@, tool_call_in(Json::Object(members))->Some_0.arguments),
{
    lemma_text_or_empty(members, "arguments"@);
}

/// Nothing else is a tool call.
pub proof fn lemma_tool_call_is_a_function_call(item: Json)
    requires
        tool_call_in(item) is Some,
    ensures
        item is Object,
        item->Object_0.contains_pair("type"@, Json::String("function_call"@)),
        item->Object_0.contains_pair("call_id"@, Json::String(tool_call_in(item)->Some_0.call_id)),
        item->Object_0.contains_pair("name"@, Json::String(tool_call_in(item)->Some_0.name)),
{
}

/// The echo of a tool call says of it what it is, and nothing more.
pub proof fn lemma_echo_says_the_call(call: ToolCallView)
    ensures
        echo_of(call) is Object,
        echo_of(call)->Object_0.dom() == set!["type"@, "name"@, "call_id"@, "arguments"@],
        echo_of(call)->Object_0.contains_pair("type"@, Json::String("function_call"@)),
        echo_of(call)->Object_0.contains_pair("name"@, Json::String(call.name)),
        echo_of(call)->Object_0.contains_pair("call_id"@, Json::String(call.call_id)),
        echo_of(call)->Object_0.contains_pair("arguments"@, Json::String(call.arguments)),
{
    reveal_strlit("type");
    reveal_strlit("name");
    reveal_strlit("call_id");
    reveal_strlit("arguments");
    assert("type"@[0] != "name"@[0]);
    assert("call_id"@.len() == 7 && "arguments"@.len() == 9);
    assert(echo_of(call)->Object_0.dom() =~= set!["type"@, "name"@, "call_id"@, "arguments"@]);
}

/// The arguments of a tool call are the document that their text holds.
pub proof fn lemma_arguments_are_read(text: Seq<char>)
    ensures
        json_of_text(text) is Ok ==> document_in(text) == Some(json_of_text(text)->Ok_0),
        json_of_text(text) is Err ==> document_in(text) is None,
{
}

/// The texts among elements are all the strings, in order, and only those.
pub proof fn lemma_texts_among_elements(elements: Seq<Json>, last: Json)
    ensures
        texts_among(seq![]) == Seq::<Seq<char>>::empty(),
        last is String ==> texts_among(elements.push(last)) == texts_among(elements).push(
            last->String_0,
        ),
        !(last is String) ==> texts_among(elements.push(last)) == texts_among(elements),
{
    assert(elements.push(last).drop_last() =~= elements);
}

/// A web search is read from a web search call, with what its action was.
pub proof fn lemma_web_search_is_read(members: Map<Seq<char>, Json>)
    requires
        members.contains_pair("type"@, Json::String("web_search_call"@)),
    ensures
        web_search_in(Json::Object(members)) is Some,
        ({
            let search = web_search_in(Json::Object(members))->Some_0;
            &&& says(members, "id"@, search.id)
            &&& says(members, "status"@, search.status)
            &&& forall|action: Map<Seq<char>, Json>| #[trigger]
                members.contains_pair("action"@, Json::Object(action)) ==> {
                    &&& says_maybe(action, "query"@, search.query)
                    &&& forall|queries: Seq<Json>| #[trigger]
                        action.contains_pair("queries"@, Json::Array(queries)) ==> search.queries
                            == texts_among(queries)
                    &&& (forall|queries: Seq<Json>|
                        !#[trigger] action.contains_pair("queries"@, Json::Array(queries)))
                        ==> search.queries.len() == 0
                }
            &&& (forall|action: Map<Seq<char>, Json>|
                !#[trigger] members.contains_pair("action"@, Json::Object(action)))
                ==> search.query is None && search.queries.len() == 0
        }),
{
    lemma_text_or_empty(members, "id"@);
    lemma_text_or_empty(members, "status"@);
    let document = Json::Object(members);
    let search = web_search_in(document)->Some_0;
    let found = document.member_or_null("action"@);
    if found is Object {
        let action = found->Object_0;
        assert(members.contains_pair("action"@, Json::Object(action)));
        lemma_text_or_empty(action, "query"@);
        if found.member_elements("queries"@) is Some {
            let queries = found.member_elements("queries"@)->Some_0;
            assert(action.contains_pair("queries"@, Json::Array(queries)));
        }
    }
}

/// An image is read from an image generation call, with each of its properties.
pub proof fn lemma_image_is_read(members: Map<Seq<char>, Json>)
    requires
        members.contains_pair("type"@, Json::String("image_generation_call"@)),
    ensures
        image_in(Json::Object(members)) is Some,
        ({
            let image = image_in(Json::Object(members))->Some_0;
            &&& says(members, "id"@, image.id)
            &&& says(members, "status"@, image.status)
            &&& says_maybe(members, "result"@, image.result_b64)
            &&& says_maybe(members, "revised_prompt"@, image.revised_prompt)
            &&& says_maybe(members, "size"@, image.size)
            &&& says_maybe(members, "quality"@, image.quality)
            &&& says_maybe(members, "output_format"@, image.output_format)
        }),
{
    lemma_text_or_empty(members, "id"@);
    lemma_text_or_empty(members, "status"@);
    lemma_text_or_empty(members, "result"@);
    lemma_text_or_empty(members, "revised_prompt"@);
    lemma_text_or_empty(members, "size"@);
    lemma_text_or_empty(members, "quality"@);
    lemma_text_or_empty(members, "output_format"@);
}

/// Nothing but a web search call is a web search, and nothing but an image generation call is
/// an image.
pub proof fn lemma_searches_and_images_are_calls(item: Json)
    ensures
        web_search_in(item) is Some ==> item is Object && item->Object_0.contains_pair(
            "type"@,
            Json::String("web_search_call"@),
        ),
        image_in(item) is Some ==> item is Object && item->Object_0.contains_pair(
            "type"@,
            Json::String("image_generation_call"@),
        ),
{
}

// ---------------------------------------------------------------------------
// Events
// ---------------------------------------------------------------------------

proof fn lemma_kinds()
    ensures
        "response.completed"@.len() == 18,
        "response.failed"@.len() == 15,
        "response.incomplete"@.len() == 19,
        "response.output_text.delta"@.len() == 26,
        "response.output_item.done"@.len() == 25,
{
    reveal_strlit("response.completed");
    reveal_strlit("response.failed");
    reveal_strlit("response.incomplete");
    reveal_strlit("response.output_text.delta");
    reveal_strlit("response.output_item.done");
}

proof fn lemma_statuses()
    ensures
        "failed"@.len() == 6,
        "cancelled"@.len() == 9,
        "expired"@.len() == 7,
        "incomplete"@.len() == 10,
{
    reveal_strlit("failed");
    reveal_strlit("cancelled");
    reveal_strlit("expired");
    reveal_strlit("incomplete");
}

/// A text delta brings its piece of text exactly as it stands.
pub proof fn lemma_text_delta_is_kept(members: Map<Seq<char>, Json>)
    requires
        members.contains_pair("type"@, Json::String("response.output_text.delta"@)),
    ensures
        stream_event_of(Json::Object(members)) is TextDelta,
        says(members, "delta"@, stream_event_of(Json::Object(members))->TextDelta_0),
{
    lemma_text_or_empty(members, "delta"@);
}

/// Two pieces of text that come one after the other make the text that they make side by
/// side.
pub proof fn lemma_text_deltas_add_up(a: Seq<char>, b: Seq<char>)
    ensures
        ({
            let event = |text: Seq<char>|
                Json::Object(
                    map![
                        "type"@ => Json::String("response.output_text.delta"@),
                        "delta"@ => Json::String(text),
                    ],
                );
            stream_event_of(event(a + b))->TextDelta_0 == stream_event_of(event(a))->TextDelta_0
                + stream_event_of(event(b))->TextDelta_0
        }),
{
    reveal_strlit("type");
    reveal_strlit("delta");
    assert("type"@.len() != "delta"@.len());
}

/// A completed response is handed on whole, unless its status says that it has failed or
/// stopped early.
pub proof fn lemma_completion_is_kept(members: Map<Seq<char>, Json>, response: Json)
    requires
        members.contains_pair("type"@, Json::String("response.completed"@)),
        holds(members, "response"@, response),
    ensures
        ({
            let event = stream_event_of(Json::Object(members));
            let status = |text: Seq<char>|
                response is Object && response->Object_0.contains_pair(
                    "status"@,
                    Json::String(text),
                );
            if status("failed"@) || status("cancelled"@) || status("expired"@) {
                event is Failed && holds(response->Object_0, "error"@, event->Failed_0)
            } else if status("incomplete"@) {
                event is Incomplete && holds(
                    response->Object_0,
                    "incomplete_details"@,
                    event->Incomplete_0,
                )
            } else {
                event == StreamEventView::Completed(response)
            }
        }),
{
    lemma_kinds();
    lemma_statuses();
}

/// What a failure reports is taken from its response, or else from the event itself.
pub proof fn lemma_failure_is_reported(members: Map<Seq<char>, Json>)
    requires
        members.contains_pair("type"@, Json::String("response.failed"@)),
    ensures
        stream_event_of(Json::Object(members)) is Failed,
        forall|response: Map<Seq<char>, Json>, error: Json|
            #![trigger members.contains_pair("response"@, Json::Object(response)), response.contains_pair("error"@, error)]
            members.contains_pair("response"@, Json::Object(response)) && response.contains_pair(
                "error"@,
                error,
            ) ==> stream_event_of(Json::Object(members))->Failed_0 == error,
        (forall|response: Map<Seq<char>, Json>| #[trigger]
            members.contains_pair("response"@, Json::Object(response))
                ==> !response.dom().contains("error"@)) ==> holds(
            members,
            "error"@,
            stream_event_of(Json::Object(members))->Failed_0,
        ),
{
    lemma_kinds();
    let document = Json::Object(members);
    let found = document.member_or_null("response"@);
    if found is Object {
        assert(members.contains_pair("response"@, Json::Object(found->Object_0)));
    }
}

/// What an early stop reports is taken from its response, or else from the event itself.
pub proof fn lemma_early_stop_is_reported(members: Map<Seq<char>, Json>)
    requires
        members.contains_pair("type"@, Json::String("response.incomplete"@)),
    ensures
        stream_event_of(Json::Object(members)) is Incomplete,
        forall|response: Map<Seq<char>, Json>, details: Json|
            #![trigger members.contains_pair("response"@, Json::Object(response)), response.contains_pair("incomplete_details"@, details)]
            members.contains_pair("response"@, Json::Object(response)) && response.contains_pair(
                "incomplete_details"@,
                details,
            ) ==> stream_event_of(Json::Object(members))->Incomplete_0 == details,
        (forall|response: Map<Seq<char>, Json>| #[trigger]
            members.contains_pair("response"@, Json::Object(response))
                ==> !response.dom().contains("incomplete_details"@)) ==> holds(
            members,
            "incomplete_details"@,
            stream_event_of(Json::Object(members))->Incomplete_0,
        ),
{
    lemma_kinds();
    let document = Json::Object(members);
    let found = document.member_or_null("response"@);
    if found is Object {
        assert(members.contains_pair("response"@, Json::Object(found->Object_0)));
    }
}

/// A finished item is shown as the tool call, the web search or the image that it is, and any
/// other as it came.
pub proof fn lemma_finished_item_is_shown(members: Map<Seq<char>, Json>, item: Json)
    requires
        members.contains_pair("type"@, Json::String("response.output_item.done"@)),
        holds(members, "item"@, item),
    ensures
        ({
            let event = stream_event_of(Json::Object(members));
            &&& tool_call_in(item) is Some ==> event == StreamEventView::ToolCall(
                tool_call_in(item)->Some_0,
            )
            &&& web_search_in(item) is Some ==> event == StreamEventView::WebSearchCall(
                web_search_in(item)->Some_0,
            )
            &&& image_in(item) is Some ==> event == StreamEventView::ImageGenerated(
                image_in(item)->Some_0,
            )
            &&& tool_call_in(item) is None && web_search_in(item) is None && image_in(item) is None
                ==> event == StreamEventView::Other {
                kind: "response.output_item.done"@,
                raw: Json::Object(members),
            }
        }),
{
    lemma_kinds();
    crate::response_laws::lemma_item_has_one_kind(item);
}

/// Every other event comes through whole, under its own name.
pub proof fn lemma_other_event_keeps_its_name(event: Json, kind: Seq<char>)
    requires
        (event is Object && says(event->Object_0, "type"@, kind)) || (!(event is Object)
            && kind.len() == 0),
        kind != "response.output_text.delta"@,
        kind != "response.completed"@,
        kind != "response.failed"@,
        kind != "response.incomplete"@,
        kind != "response.output_item.done"@,
    ensures
        stream_event_of(event) is Other,
        stream_event_of(event)->kind =~= kind,
        stream_event_of(event)->raw == event,
{
    lemma_kinds();
    if event is Object {
        lemma_text_or_empty(event->Object_0, "type"@);
    }
}

// ---------------------------------------------------------------------------
// Whole responses
// ---------------------------------------------------------------------------

/// The token usage is what the response counts, each under its own name.
pub proof fn lemma_token_usage_is_counted(members: Map<Seq<char>, Json>, usage: Json)
    requires
        members.contains_pair("usage"@, usage),
    ensures
        token_usage_in(Json::Object(members)) is Some,
        ({
            let tokens = token_usage_in(Json::Object(members))->Some_0;
            &&& counts(usage, "input_tokens"@, tokens.input)
            &&& counts(usage, "output_tokens"@, tokens.output)
            &&& counts(usage, "total_tokens"@, tokens.total)
            &&& forall|details: Json|
                usage is Object && #[trigger] usage->Object_0.contains_pair(
                    "input_tokens_details"@,
                    details,
                ) ==> counts(details, "cached_tokens"@, tokens.cached)
            &&& forall|details: Json|
                usage is Object && #[trigger] usage->Object_0.contains_pair(
                    "output_tokens_details"@,
                    details,
                ) ==> counts(details, "reasoning_tokens"@, tokens.reasoning)
            &&& (usage is Object && usage->Object_0.dom().contains("input_tokens_details"@))
                || tokens.cached == 0
            &&& (usage is Object && usage->Object_0.dom().contains("output_tokens_details"@))
                || tokens.reasoning == 0
        }),
{
    lemma_count(usage, "input_tokens"@);
    lemma_count(usage, "output_tokens"@);
    lemma_count(usage, "total_tokens"@);
    lemma_count(usage.member_or_null("input_tokens_details"@), "cached_tokens"@);
    lemma_count(usage.member_or_null("output_tokens_details"@), "reasoning_tokens"@);
}

proof fn lemma_count(document: Json, key: Seq<char>)
    ensures
        counts(document, key, count_in(document, key)),
{
}

/// A response that does not speak of usage has none.
pub proof fn lemma_no_usage(response: Json)
    requires
        !(response is Object) || !response->Object_0.dom().contains("usage"@),
    ensures
        token_usage_in(response) is None,
{
}

/// The output of a response is the array that it holds.
pub proof fn lemma_output_is_the_array(members: Map<Seq<char>, Json>, items: Seq<Json>)
    ensures
        members.contains_pair("output"@, Json::Array(items)) ==> output_of(Json::Object(members))
            == items,
        (forall|other: Seq<Json>|
            !#[trigger] members.contains_pair("output"@, Json::Array(other))) ==> output_of(
            Json::Object(members),
        ).len() == 0,
{
    let document = Json::Object(members);
    if document.member_elements("output"@) is Some {
        assert(members.contains_pair(
            "output"@,
            Json::Array(document.member_elements("output"@)->Some_0),
        ));
    }
}

/// What is found in items is what is found in each of them, in order.
pub proof fn lemma_found_item_by_item<T>(
    items: Seq<Json>,
    last: Json,
    f: spec_fn(Json) -> Option<T>,
)
    ensures
        found_in(seq![], f) == Seq::<T>::empty(),
        f(last) is Some ==> found_in(items.push(last), f) == found_in(items, f).push(
            f(last)->Some_0,
        ),
        f(last) is None ==> found_in(items.push(last), f) == found_in(items, f),
{
    assert(items.push(last).drop_last() =~= items);
}

// ---------------------------------------------------------------------------
// Views
// ---------------------------------------------------------------------------

/// A view holds the fields of what it is a view of, each in its place.
pub proof fn lemma_item_views(
    call: ToolCall,
    search: WebSearch,
    image: GeneratedImage,
    calls: Seq<ToolCall>,
)
    ensures
        call@.call_id == call.call_id@,
        call@.name == call.name@,
        call@.arguments == call.arguments@,
        search@.id == search.id@,
        search@.status == search.status@,
        search@.query == view_of(search.query),
        search@.queries == texts(search.queries@),
        image@.id == image.id@,
        image@.status == image.status@,
        image@.result_b64 == view_of(image.result_b64),
        image@.revised_prompt == view_of(image.revised_prompt),
        image@.size == view_of(image.size),
        image@.quality == view_of(image.quality),
        image@.output_format == view_of(image.output_format),
        views(calls).len() == calls.len(),
        forall|i: int| 0 <= i < calls.len() ==> #[trigger] views(calls)[i] == calls[i]@,
{
}

/// An event is seen as what it is.
pub proof fn lemma_event_views(
    text: String,
    call: ToolCall,
    search: WebSearch,
    image: GeneratedImage,
    document: Value,
)
    ensures
        StreamEvent::TextDelta(text)@ == StreamEventView::TextDelta(text@),
        StreamEvent::ToolCall(call)@ == StreamEventView::ToolCall(call@),
        StreamEvent::WebSearchCall(search)@ == StreamEventView::WebSearchCall(search@),
        StreamEvent::ImageGenerated(image)@ == StreamEventView::ImageGenerated(image@),
        StreamEvent::Completed(document)@ == StreamEventView::Completed(document@),
        StreamEvent::Failed(document)@ == StreamEventView::Failed(document@),
        StreamEvent::Incomplete(document)@ == StreamEventView::Incomplete(document@),
        (StreamEvent::Other { kind: text, raw: document })@ == (StreamEventView::Other {
            kind: text@,
            raw: document@,
        }),
{
}

} // verus!
