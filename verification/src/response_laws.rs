//! Laws of streams and responses: what the typed events, the assembled response and its
//! text have to do with each other.

use vstd::prelude::*;

use crate::error::ClientErrorView;
use crate::event::{
    completion_of, echo_of, found_in, image_in, output_of, stream_event_of, token_usage_in,
    tool_call_in, web_search_in, GeneratedImageView, StreamEventView, ToolCallView, WebSearchView,
};
use crate::input::call_output;
use crate::json::Json;
use crate::response::{
    concluded, gathered, item_text, items_text, message_of, nothing_gathered, output_is_empty,
    part_text, parts_text, rejection, response_text, taken, text_bytes, Gathered,
    MAX_RESPONSE_OUTPUT_ITEMS, MAX_RESPONSE_TEXT_BYTES,
};
use crate::sse::SseItemView;
use crate::text::joined;

verus! {

// ---------------------------------------------------------------------------
// Whole streams
// ---------------------------------------------------------------------------

/// What has been gathered once all `events` have come, or the failure that ended the
/// stream before.
pub open spec fn gathered_all(events: Seq<Json>) -> Result<Gathered, ClientErrorView>
    decreases events.len(),
{
    if events.len() == 0 {
        Ok(nothing_gathered())
    } else {
        match gathered_all(events.drop_last()) {
            Ok(s) => gathered(s, events.last()),
            Err(e) => Err(e),
        }
    }
}

/// An event as an item of a stream.
pub open spec fn as_item(event: Json) -> SseItemView {
    Ok(event)
}

/// What has been gathered once all `items` of a stream have come, or the failure that ended
/// it before.
pub open spec fn taken_all(items: Seq<SseItemView>) -> Result<Gathered, ClientErrorView>
    decreases items.len(),
{
    if items.len() == 0 {
        Ok(nothing_gathered())
    } else {
        match taken_all(items.drop_last()) {
            Ok(s) => taken(s, items.last()),
            Err(e) => Err(e),
        }
    }
}

/// The text that the typed events bring, piece by piece.
pub open spec fn streamed_text(events: Seq<Json>) -> Seq<char>
    decreases events.len(),
{
    if events.len() == 0 {
        seq![]
    } else {
        let before = streamed_text(events.drop_last());
        match stream_event_of(events.last()) {
            StreamEventView::TextDelta(text) => before + text,
            _ => before,
        }
    }
}

/// The tool calls that the typed events bring.
pub open spec fn streamed_tool_calls(events: Seq<Json>) -> Seq<ToolCallView>
    decreases events.len(),
{
    if events.len() == 0 {
        seq![]
    } else {
        let before = streamed_tool_calls(events.drop_last());
        match stream_event_of(events.last()) {
            StreamEventView::ToolCall(call) => before.push(call),
            _ => before,
        }
    }
}

/// The web searches that the typed events bring.
pub open spec fn streamed_web_searches(events: Seq<Json>) -> Seq<WebSearchView>
    decreases events.len(),
{
    if events.len() == 0 {
        seq![]
    } else {
        let before = streamed_web_searches(events.drop_last());
        match stream_event_of(events.last()) {
            StreamEventView::WebSearchCall(search) => before.push(search),
            _ => before,
        }
    }
}

/// The images that the typed events bring.
pub open spec fn streamed_images(events: Seq<Json>) -> Seq<GeneratedImageView>
    decreases events.len(),
{
    if events.len() == 0 {
        seq![]
    } else {
        let before = streamed_images(events.drop_last());
        match stream_event_of(events.last()) {
            StreamEventView::ImageGenerated(image) => before.push(image),
            _ => before,
        }
    }
}

/// Whether the memory that gathering takes is within its bounds.
pub open spec fn bounded(s: Gathered) -> bool {
    text_bytes(s.deltas) <= MAX_RESPONSE_TEXT_BYTES && s.items.len() <= MAX_RESPONSE_OUTPUT_ITEMS
}

/// However long a stream goes on, what is gathered from it stays within its bounds.
pub proof fn lemma_gathering_is_bounded(events: Seq<Json>)
    ensures
        gathered_all(events) is Ok ==> bounded(gathered_all(events)->Ok_0),
    decreases events.len(),
{
    if events.len() > 0 {
        lemma_gathering_is_bounded(events.drop_last());
        if gathered_all(events) is Ok {
            let before = gathered_all(events.drop_last())->Ok_0;
            let after = gathered_all(events)->Ok_0;
            if after.deltas != before.deltas {
                assert(after.deltas.drop_last() =~= before.deltas);
            }
        }
    }
}

/// The first error of a stream is the outcome of the whole, whatever came before and
/// whatever would have followed.
pub proof fn lemma_stream_error_is_handed_on(items: Seq<SseItemView>, i: int)
    requires
        0 <= i < items.len(),
        items[i] is Err,
        taken_all(items.take(i)) is Ok,
    ensures
        taken_all(items) == Err::<Gathered, ClientErrorView>(items[i]->Err_0),
    decreases items.len(),
{
    let before = items.drop_last();
    if i < before.len() {
        assert(before.take(i) =~= items.take(i));
        lemma_stream_error_is_handed_on(before, i);
    } else {
        assert(before =~= items.take(i));
    }
}

/// A stream without errors gathers what its events give.
pub proof fn lemma_stream_of_events(events: Seq<Json>)
    ensures
        taken_all(events.map_values(|event: Json| as_item(event))) == gathered_all(events),
    decreases events.len(),
{
    let items = events.map_values(|event: Json| as_item(event));
    if events.len() > 0 {
        assert(items.drop_last() =~= events.drop_last().map_values(|event: Json| as_item(event)));
        lemma_stream_of_events(events.drop_last());
    }
}

/// An event that reports a failure or an early stop fails the whole stream, whatever
/// comes before and after it.
pub proof fn lemma_failed_event_fails_the_stream(events: Seq<Json>, i: int)
    requires
        0 <= i < events.len(),
        events[i].member_text("type"@) == Some("response.failed"@) || events[i].member_text(
            "type"@,
        ) == Some("response.incomplete"@),
    ensures
        gathered_all(events) is Err,
    decreases events.len(),
{
    if i < events.len() - 1 {
        assert(events.drop_last()[i] == events[i]);
        lemma_failed_event_fails_the_stream(events.drop_last(), i);
    } else {
        reveal_strlit("response.completed");
        reveal_strlit("response.failed");
        reveal_strlit("response.incomplete");
        assert("response.completed"@.len() != "response.failed"@.len());
        assert("response.completed"@[9] != "response.incomplete"@[9]);
    }
}

/// A response that the typed events would show as failed or incomplete is never handed
/// out as a success.
pub proof fn lemma_no_failure_passes_as_success(s: Gathered)
    requires
        concluded(s) is Ok,
        s.completed is Some,
    ensures
        completion_of(s.completed->Some_0) == StreamEventView::Completed(s.completed->Some_0),
{
}

// ---------------------------------------------------------------------------
// Text
// ---------------------------------------------------------------------------

proof fn lemma_joined_push(parts: Seq<Seq<char>>, part: Seq<char>)
    ensures
        joined(parts.push(part), ""@) == joined(parts, ""@) + part,
{
    reveal_strlit("");
    assert(parts.push(part).drop_last() =~= parts);
    assert(joined(parts.push(part), ""@) =~= joined(parts, ""@) + part);
}

/// The pieces that are gathered make up the text that the typed events bring.
pub proof fn lemma_gathered_text_is_streamed_text(events: Seq<Json>)
    ensures
        gathered_all(events) is Ok ==> joined(gathered_all(events)->Ok_0.deltas, ""@)
            == streamed_text(events),
    decreases events.len(),
{
    if events.len() > 0 && gathered_all(events) is Ok {
        lemma_gathered_text_is_streamed_text(events.drop_last());
        let before = gathered_all(events.drop_last())->Ok_0;
        let event = events.last();
        lemma_kinds_differ();
        if event.member_text("type"@) == Some("response.output_text.delta"@) {
            match event.member_text("delta"@) {
                Some(delta) => lemma_joined_push(before.deltas, delta),
                None => assert(streamed_text(events.drop_last()) + seq![] =~= streamed_text(
                    events.drop_last(),
                )),
            }
        }
    }
}

proof fn lemma_kinds_differ()
    ensures
        "response.completed"@ != "response.failed"@,
        "response.completed"@ != "response.incomplete"@,
        "response.completed"@ != "response.output_text.delta"@,
        "response.completed"@ != "response.output_item.done"@,
        "response.failed"@ != "response.incomplete"@,
        "response.failed"@ != "response.output_text.delta"@,
        "response.failed"@ != "response.output_item.done"@,
        "response.incomplete"@ != "response.output_text.delta"@,
        "response.incomplete"@ != "response.output_item.done"@,
        "response.output_text.delta"@ != "response.output_item.done"@,
{
    reveal_strlit("response.completed");
    reveal_strlit("response.failed");
    reveal_strlit("response.incomplete");
    reveal_strlit("response.output_text.delta");
    reveal_strlit("response.output_item.done");
    assert("response.completed"@.len() == 18);
    assert("response.failed"@.len() == 15);
    assert("response.incomplete"@.len() == 19);
    assert("response.output_text.delta"@.len() == 26);
    assert("response.output_item.done"@.len() == 25);
}

proof fn lemma_message_text(text: Seq<char>)
    ensures
        item_text(message_of(text)) == text,
{
    reveal_strlit("type");
    reveal_strlit("role");
    reveal_strlit("content");
    reveal_strlit("text");
    assert("content"@.len() == 7);
    assert("type"@[1] == 'y' && "role"@[1] == 'o' && "text"@[1] == 'e');
    let message = message_of(text);
    let parts = message.member_elements("content"@)->Some_0;
    let part = parts[0];
    assert(part_text(part) == text);
    assert(parts.drop_last() =~= seq![]);
    assert(parts_text(parts.drop_last()) =~= seq![]);
    assert(parts_text(parts) =~= text);
}

/// Where the output of a response is put together from the pieces of text, the text of
/// the response is those pieces, one behind the other.
pub proof fn lemma_assembled_text(s: Gathered)
    requires
        concluded(s) is Ok,
        s.items.len() == 0,
        s.completed is None || output_is_empty(s.completed->Some_0),
    ensures
        response_text(concluded(s)->Ok_0) == joined(s.deltas, ""@),
{
    let response = concluded(s)->Ok_0;
    if s.deltas.len() > 0 {
        let text = joined(s.deltas, ""@);
        let items = response.member_elements("output"@)->Some_0;
        assert(items =~= seq![message_of(text)]);
        lemma_message_text(text);
        assert(items.drop_last() =~= seq![]);
        assert(items_text(items.drop_last()) =~= seq![]);
        assert(items_text(items) =~= text);
    } else {
        assert(response_text(response) =~= seq![]);
    }
}

/// A stream of text gives the same text either way: event by event, or from the response
/// that is put together at its end.
pub proof fn lemma_text_is_the_same_either_way(events: Seq<Json>)
    requires
        gathered_all(events) is Ok,
        concluded(gathered_all(events)->Ok_0) is Ok,
        gathered_all(events)->Ok_0.items.len() == 0,
        gathered_all(events)->Ok_0.completed is None || output_is_empty(
            gathered_all(events)->Ok_0.completed->Some_0,
        ),
    ensures
        response_text(concluded(gathered_all(events)->Ok_0)->Ok_0) == streamed_text(events),
{
    lemma_gathered_text_is_streamed_text(events);
    lemma_assembled_text(gathered_all(events)->Ok_0);
}

// ---------------------------------------------------------------------------
// The response
// ---------------------------------------------------------------------------

/// A complete response with output comes through untouched.
pub proof fn lemma_complete_response_is_kept(s: Gathered)
    requires
        s.completed is Some,
        !output_is_empty(s.completed->Some_0),
        rejection(s.completed->Some_0) is None,
    ensures
        concluded(s) == Ok::<Json, ClientErrorView>(s.completed->Some_0),
{
}

/// Only the output of a response is ever filled in: every other member is what the
/// server sent, and so is the token usage.
pub proof fn lemma_other_members_are_kept(s: Gathered, key: Seq<char>)
    requires
        concluded(s) is Ok,
        s.completed is Some,
        key != "output"@,
    ensures
        concluded(s)->Ok_0.member(key) == s.completed->Some_0.member(key),
        token_usage_in(concluded(s)->Ok_0) == token_usage_in(s.completed->Some_0),
{
    reveal_strlit("output");
    reveal_strlit("usage");
    assert("output"@.len() != "usage"@.len());
}

/// Items that the stream has brought are the output of a response that has none of its
/// own.
pub proof fn lemma_items_become_the_output(s: Gathered)
    requires
        concluded(s) is Ok,
        s.items.len() > 0,
        s.completed is None || output_is_empty(s.completed->Some_0),
    ensures
        output_of(concluded(s)->Ok_0) == s.items,
{
}

/// The items that a stream has finished.
pub open spec fn finished_items(events: Seq<Json>) -> Seq<Json>
    decreases events.len(),
{
    if events.len() == 0 {
        seq![]
    } else {
        let before = finished_items(events.drop_last());
        let event = events.last();
        if event.member_text("type"@) == Some("response.output_item.done"@) && event.member(
            "item"@,
        ) is Some {
            before.push(event.member_or_null("item"@))
        } else {
            before
        }
    }
}

/// The gathered items are those that the stream has finished, in their order.
pub proof fn lemma_finished_items_are_gathered(events: Seq<Json>)
    ensures
        gathered_all(events) is Ok ==> gathered_all(events)->Ok_0.items == finished_items(events),
    decreases events.len(),
{
    if events.len() > 0 && gathered_all(events) is Ok {
        lemma_finished_items_are_gathered(events.drop_last());
        lemma_kinds_differ();
    }
}

/// The tool calls, web searches and images among the gathered items are those that the
/// typed events bring.
pub proof fn lemma_gathered_items_are_streamed_items(events: Seq<Json>)
    ensures
        gathered_all(events) is Ok ==> found_in(
            gathered_all(events)->Ok_0.items,
            |item: Json| tool_call_in(item),
        ) == streamed_tool_calls(events),
        gathered_all(events) is Ok ==> found_in(
            gathered_all(events)->Ok_0.items,
            |item: Json| web_search_in(item),
        ) == streamed_web_searches(events),
        gathered_all(events) is Ok ==> found_in(
            gathered_all(events)->Ok_0.items,
            |item: Json| image_in(item),
        ) == streamed_images(events),
    decreases events.len(),
{
    if events.len() > 0 && gathered_all(events) is Ok {
        lemma_gathered_items_are_streamed_items(events.drop_last());
        lemma_kinds_differ();
        lemma_item_has_one_kind(events.last().member_or_null("item"@));
        let before = gathered_all(events.drop_last())->Ok_0;
        let after = gathered_all(events)->Ok_0;
        let event = events.last();
        if event.member_text("type"@) == Some("response.output_item.done"@) {
            if event.member("item"@) is Some {
                assert(after.items.drop_last() =~= before.items);
            }
        }
    }
}

// ---------------------------------------------------------------------------
// Typed items and events
// ---------------------------------------------------------------------------

/// A tool call that is echoed in the next input reads back as the same call.
pub proof fn lemma_echo_reads_back(call: ToolCallView)
    requires
        call.call_id.len() > 0,
        call.name.len() > 0,
    ensures
        tool_call_in(echo_of(call)) == Some(call),
{
    reveal_strlit("type");
    reveal_strlit("name");
    reveal_strlit("call_id");
    reveal_strlit("arguments");
    assert("type"@[0] != "name"@[0]);
    assert("call_id"@.len() == 7 && "arguments"@.len() == 9);
}

/// The result of a tool call goes by the same id as the call that it answers.
pub proof fn lemma_result_matches_its_call(call: ToolCallView, output: Seq<char>)
    ensures
        call_output(call.call_id, output).member_text("call_id"@) == echo_of(call).member_text(
            "call_id"@,
        ),
        call_output(call.call_id, output).member_text("output"@) == Some(output),
{
    reveal_strlit("type");
    reveal_strlit("name");
    reveal_strlit("call_id");
    reveal_strlit("arguments");
    reveal_strlit("output");
    assert("type"@.len() == 4 && "name"@.len() == 4 && "output"@.len() == 6);
    assert("call_id"@.len() == 7 && "arguments"@.len() == 9);
}

/// Every tool call that is read can be answered: it has an id and a name.
pub proof fn lemma_tool_call_can_be_answered(item: Json)
    ensures
        tool_call_in(item) is Some ==> tool_call_in(item)->Some_0.call_id.len() > 0
            && tool_call_in(item)->Some_0.name.len() > 0,
{
}

/// An item is of one typed kind at most.
pub proof fn lemma_item_has_one_kind(item: Json)
    ensures
        tool_call_in(item) is Some ==> web_search_in(item) is None && image_in(item) is None,
        web_search_in(item) is Some ==> image_in(item) is None,
{
    reveal_strlit("function_call");
    reveal_strlit("web_search_call");
    reveal_strlit("image_generation_call");
    assert("function_call"@.len() == 13);
    assert("web_search_call"@.len() == 15);
    assert("image_generation_call"@.len() == 21);
}

/// An event of a kind that is not known comes through as it is, and leaves what is
/// gathered alone.
pub proof fn lemma_unknown_event_comes_through(s: Gathered, event: Json)
    requires
        event.member_text("type"@) != Some("response.output_text.delta"@),
        event.member_text("type"@) != Some("response.completed"@),
        event.member_text("type"@) != Some("response.failed"@),
        event.member_text("type"@) != Some("response.incomplete"@),
        event.member_text("type"@) != Some("response.output_item.done"@),
    ensures
        stream_event_of(event) is Other,
        stream_event_of(event)->raw == event,
        gathered(s, event) == Ok::<Gathered, ClientErrorView>(s),
{
}

/// An event that is not typed keeps the whole document.
pub proof fn lemma_other_keeps_the_document(event: Json)
    ensures
        stream_event_of(event) is Other ==> stream_event_of(event)->raw == event,
{
}

} // verus!
