//! Laws of the response that is put together from a stream: what each event adds, when a
//! response is handed out, and what its output and its text are.

use vstd::prelude::*;
use vstd::utf8::*;

use crate::error::{ClientError, ClientErrorView};
use crate::event::stream_event_of;
use crate::event_laws::holds;
use crate::json::{json_of_text, text_of_json, Json, Value};
use crate::response::{
    concluded, gathered, item_text, items_text, nothing_gathered, outcome, part_text, parts_text,
    response_text, taken, text_bytes, Gathered,
};
use crate::response_laws::{
    as_item, gathered_all, lemma_assembled_text, lemma_stream_of_events, taken_all,
};
use crate::sse::fresh;
use crate::sse_laws::{bytes_of, fits, is_payload, items_of, lemma_what_is_sent_arrives, sent};
use crate::text::{joined, trimmed};

verus! {

// ---------------------------------------------------------------------------
// Gathering
// ---------------------------------------------------------------------------

proof fn lemma_kinds()
    ensures
        "response.completed"@.len() == 18,
        "response.failed"@.len() == 15,
        "response.incomplete"@.len() == 19,
        "response.output_text.delta"@.len() == 26,
        "response.output_item.done"@.len() == 25,
{
    reveal_strlit("response.completed");
    reveal_strlit("response.failed");
    reveal_strlit("response.incomplete");
    reveal_strlit("response.output_text.delta");
    reveal_strlit("response.output_item.done");
}

/// Nothing has been gathered before the first event.
pub proof fn lemma_nothing_at_first()
    ensures
        nothing_gathered().completed is None,
        nothing_gathered().deltas.len() == 0,
        nothing_gathered().items.len() == 0,
{
}

/// A piece of text is gathered exactly as it stands, behind those that came before, and
/// changes nothing else. It is refused exactly where it would make more than 64 MiB.
pub proof fn lemma_delta_is_gathered_as_it_stands(
    s: Gathered,
    members: Map<Seq<char>, Json>,
    text: Seq<char>,
)
    requires
        members.contains_pair("type"@, Json::String("response.output_text.delta"@)),
        members.contains_pair("delta"@, Json::String(text)),
    ensures
        ({
            let next = gathered(s, Json::Object(members));
            if text_bytes(s.deltas) + encode_utf8(text).len() <= 67_108_864 {
                &&& next is Ok
                &&& next->Ok_0.deltas == s.deltas.push(text)
                &&& next->Ok_0.items == s.items
                &&& next->Ok_0.completed == s.completed
            } else {
                next == Err::<Gathered, ClientErrorView>(
                    ClientErrorView::Protocol(
                        "Codex response exceeded max accumulated text (64MB) — aborting"@,
                    ),
                )
            }
        }),
{
    lemma_kinds();
}

/// The size of the pieces of text is the sum of their bytes.
pub proof fn lemma_text_bytes_add_up(deltas: Seq<Seq<char>>, last: Seq<char>)
    ensures
        text_bytes(seq![]) == 0,
        text_bytes(deltas.push(last)) == text_bytes(deltas) + encode_utf8(last).len(),
{
    assert(deltas.push(last).drop_last() =~= deltas);
}

/// A finished item is gathered exactly as it stands, behind those that came before, and
/// changes nothing else. It is refused exactly where it would be more than the hundred
/// thousandth.
pub proof fn lemma_item_is_gathered_as_it_stands(
    s: Gathered,
    members: Map<Seq<char>, Json>,
    item: Json,
)
    requires
        members.contains_pair("type"@, Json::String("response.output_item.done"@)),
        members.contains_pair("item"@, item),
    ensures
        ({
            let next = gathered(s, Json::Object(members));
            if s.items.len() < 100_000 {
                &&& next is Ok
                &&& next->Ok_0.items == s.items.push(item)
                &&& next->Ok_0.deltas == s.deltas
                &&& next->Ok_0.completed == s.completed
            } else {
                next == Err::<Gathered, ClientErrorView>(
                    ClientErrorView::Protocol(
                        "Codex response exceeded max output items (100000) — aborting"@,
                    ),
                )
            }
        }),
{
    lemma_kinds();
}

/// A completed response takes the place of any that came before, and changes nothing else.
pub proof fn lemma_completion_is_gathered_as_it_stands(
    s: Gathered,
    members: Map<Seq<char>, Json>,
    response: Json,
)
    requires
        members.contains_pair("type"@, Json::String("response.completed"@)),
        members.contains_pair("response"@, response),
    ensures
        gathered(s, Json::Object(members)) is Ok,
        gathered(s, Json::Object(members))->Ok_0.completed == Some(response),
        gathered(s, Json::Object(members))->Ok_0.deltas == s.deltas,
        gathered(s, Json::Object(members))->Ok_0.items == s.items,
{
    lemma_kinds();
}

/// A failure or an early stop ends the stream with an error that tells what the typed event
/// tells.
pub proof fn lemma_failure_is_told(s: Gathered, members: Map<Seq<char>, Json>)
    ensures
        members.contains_pair("type"@, Json::String("response.failed"@)) ==> gathered(
            s,
            Json::Object(members),
        ) == Err::<Gathered, ClientErrorView>(
            ClientErrorView::Protocol(
                "Codex response failed: "@ + text_of_json(
                    stream_event_of(Json::Object(members))->Failed_0,
                ),
            ),
        ),
        members.contains_pair("type"@, Json::String("response.incomplete"@)) ==> gathered(
            s,
            Json::Object(members),
        ) == Err::<Gathered, ClientErrorView>(
            ClientErrorView::Protocol(
                "Codex response incomplete: "@ + text_of_json(
                    stream_event_of(Json::Object(members))->Incomplete_0,
                ),
            ),
        ),
{
    lemma_kinds();
}

/// Every other event, and one that lacks what its kind should bring, changes nothing.
pub proof fn lemma_other_events_add_nothing(s: Gathered, event: Json)
    requires
        !(event is Object) || {
            let members = event->Object_0;
            &&& !members.contains_pair("type"@, Json::String("response.failed"@))
            &&& !members.contains_pair("type"@, Json::String("response.incomplete"@))
            &&& members.contains_pair("type"@, Json::String("response.output_text.delta"@))
                ==> forall|text: Seq<char>|
                !#[trigger] members.contains_pair("delta"@, Json::String(text))
            &&& members.contains_pair("type"@, Json::String("response.output_item.done"@))
                ==> !members.dom().contains("item"@)
            &&& members.contains_pair("type"@, Json::String("response.completed"@))
                ==> !members.dom().contains("response"@)
        },
    ensures
        gathered(s, event) == Ok::<Gathered, ClientErrorView>(s),
{
    lemma_kinds();
    if event is Object {
        let members = event->Object_0;
        if event.member_text("delta"@) is Some {
            assert(members.contains_pair(
                "delta"@,
                Json::String(event.member_text("delta"@)->Some_0),
            ));
        }
    }
}

/// An item of a stream is taken as the event that it is, or handed back as the error that it
/// is.
pub proof fn lemma_items_are_taken_as_they_are(s: Gathered, event: Json, e: ClientErrorView)
    ensures
        taken(s, Ok(event)) == gathered(s, event),
        taken(s, Err(e)) == Err::<Gathered, ClientErrorView>(e),
{
}

/// A result is seen as what it is.
pub proof fn lemma_outcome_views(value: Value, e: ClientError)
    ensures
        outcome::<Value>(Ok(value)) == Ok::<Json, ClientErrorView>(value@),
        outcome::<Value>(Err(e)) == Err::<Json, ClientErrorView>(e@),
{
}

// ---------------------------------------------------------------------------
// The end of the stream
// ---------------------------------------------------------------------------

/// Whether a response says that it has ended without success.
pub open spec fn says_it_failed(members: Map<Seq<char>, Json>, status: Seq<char>) -> bool {
    &&& members.contains_pair("status"@, Json::String(status))
    &&& status == "failed"@ || status == "cancelled"@ || status == "incomplete"@ || status
        == "expired"@
}

/// Whether a response carries an error.
pub open spec fn carries(members: Map<Seq<char>, Json>, error: Json) -> bool {
    members.contains_pair("error"@, error) && error != Json::Null
}

/// A response that neither says that it failed nor carries an error is never refused.
pub proof fn lemma_success_is_never_refused(s: Gathered, members: Map<Seq<char>, Json>)
    requires
        s.completed == Some(Json::Object(members)),
        forall|status: Seq<char>| !#[trigger] says_it_failed(members, status),
        forall|error: Json| !#[trigger] carries(members, error),
    ensures
        concluded(s) is Ok,
{
    let response = Json::Object(members);
    if response.member_text("status"@) is Some {
        let status = response.member_text("status"@)->Some_0;
        assert(!says_it_failed(members, status));
    }
    if response.member("error"@) is Some {
        assert(!carries(members, response.member("error"@)->Some_0));
    }
}

/// What a stream brought without a completed response is never refused either, as long as it
/// brought something.
pub proof fn lemma_anything_is_better_than_nothing(s: Gathered)
    requires
        s.completed is None,
    ensures
        concluded(s) is Ok <==> s.deltas.len() > 0 || s.items.len() > 0,
        s.deltas.len() == 0 && s.items.len() == 0 ==> concluded(s) == Err::<Json, ClientErrorView>(
            ClientErrorView::Protocol(
                "Codex stream ended without response.completed or any deltas"@,
            ),
        ),
{
    reveal_strlit("output");
    reveal_strlit("status");
    reveal_strlit("error");
    assert("output"@[0] == 'o' && "status"@[0] == 's' && "error"@[0] == 'e');
}

/// A response that says that it failed is refused, with its error, or else with the details of
/// its early stop.
pub proof fn lemma_failed_response_is_refused(
    s: Gathered,
    members: Map<Seq<char>, Json>,
    status: Seq<char>,
    detail: Json,
)
    requires
        s.completed == Some(Json::Object(members)),
        says_it_failed(members, status),
        carries(members, detail) || ((forall|error: Json| !#[trigger] carries(members, error))
            && holds(members, "incomplete_details"@, detail)),
    ensures
        concluded(s) == Err::<Json, ClientErrorView>(
            ClientErrorView::Protocol(
                "Codex response terminal status `"@ + status + "`: "@ + text_of_json(detail),
            ),
        ),
{
    let response = Json::Object(members);
    if response.member("error"@) is Some {
        let error = response.member("error"@)->Some_0;
        assert(carries(members, error) || error == Json::Null);
    }
}

/// A response that carries an error is refused, whatever its status says.
pub proof fn lemma_response_with_an_error_is_refused(
    s: Gathered,
    members: Map<Seq<char>, Json>,
    error: Json,
)
    requires
        s.completed == Some(Json::Object(members)),
        carries(members, error),
        forall|status: Seq<char>| !#[trigger] says_it_failed(members, status),
    ensures
        concluded(s) == Err::<Json, ClientErrorView>(
            ClientErrorView::Protocol("Codex response carried an error: "@ + text_of_json(error)),
        ),
{
    let response = Json::Object(members);
    if response.member_text("status"@) is Some {
        let status = response.member_text("status"@)->Some_0;
        assert(!says_it_failed(members, status));
    }
}

/// A response that is no object is refused.
pub proof fn lemma_response_is_an_object(s: Gathered, response: Json)
    requires
        s.completed == Some(response),
        !(response is Object),
    ensures
        concluded(s) == Err::<Json, ClientErrorView>(
            ClientErrorView::Protocol(
                "Codex response is not an object: "@ + text_of_json(response),
            ),
        ),
{
}

/// The response that is handed out is the one that was completed, and only a missing output
/// is filled in: with the gathered items, or else with one message of the assistant that has
/// the gathered text.
pub proof fn lemma_output_is_filled_in(s: Gathered, members: Map<Seq<char>, Json>)
    requires
        concluded(s) is Ok,
        s.completed == Some(Json::Object(members)) || (s.completed is None && members.dom()
            == set!["output"@] && members["output"@] == Json::Array(seq![])),
    ensures
        concluded(s)->Ok_0 is Object,
        ({
            let response = concluded(s)->Ok_0->Object_0;
            let missing = forall|items: Seq<Json>| #[trigger]
                members.contains_pair("output"@, Json::Array(items)) ==> items.len() == 0;
            &&& !missing ==> response == members
            &&& forall|key: Seq<char>|
                key != "output"@ ==> (response.dom().contains(key) <==> members.dom().contains(key))
                    && (#[trigger] response.dom().contains(key) ==> response[key] == members[key])
            &&& missing && s.items.len() > 0 ==> response.contains_pair(
                "output"@,
                Json::Array(s.items),
            )
            &&& missing && s.items.len() == 0 && s.deltas.len() > 0 ==> {
                let output = response["output"@];
                &&& response.dom().contains("output"@)
                &&& output is Array
                &&& output->Array_0.len() == 1
                &&& output->Array_0[0] is Object
                &&& is_message(output->Array_0[0]->Object_0, joined(s.deltas, ""@))
            }
            &&& missing && s.items.len() == 0 && s.deltas.len() == 0 ==> response == members
        }),
{
    let document = Json::Object(members);
    if document.member_elements("output"@) is Some {
        let items = document.member_elements("output"@)->Some_0;
        assert(members.contains_pair("output"@, Json::Array(items)));
    }
    if s.completed is None {
        assert(members =~= crate::response::empty_response()->Object_0);
    }
    lemma_message(joined(s.deltas, ""@));
}

/// Whether the members are those of a message of the assistant with one text.
pub open spec fn is_message(members: Map<Seq<char>, Json>, text: Seq<char>) -> bool {
    &&& members.dom() == set!["type"@, "role"@, "content"@]
    &&& members["type"@] == Json::String("message"@)
    &&& members["role"@] == Json::String("assistant"@)
    &&& members["content"@] is Array
    &&& members["content"@]->Array_0.len() == 1
    &&& members["content"@]->Array_0[0] is Object
    &&& ({
        let part = members["content"@]->Array_0[0]->Object_0;
        &&& part.dom() == set!["type"@, "text"@]
        &&& part["type"@] == Json::String("output_text"@)
        &&& part["text"@] == Json::String(text)
    })
}

proof fn lemma_message(text: Seq<char>)
    ensures
        is_message(crate::response::message_of(text)->Object_0, text),
{
    reveal_strlit("type");
    reveal_strlit("role");
    reveal_strlit("content");
    reveal_strlit("text");
    assert("content"@.len() == 7);
    assert("type"@[1] == 'y' && "role"@[1] == 'o' && "text"@[1] == 'e');
    let members = crate::response::message_of(text)->Object_0;
    assert(members.dom() =~= set!["type"@, "role"@, "content"@]);
    let part = members["content"@]->Array_0[0]->Object_0;
    assert(part.dom() =~= set!["type"@, "text"@]);
}

// ---------------------------------------------------------------------------
// Text
// ---------------------------------------------------------------------------

/// The text of a response is that of its output items.
pub proof fn lemma_text_is_in_the_output(members: Map<Seq<char>, Json>, items: Seq<Json>)
    ensures
        members.contains_pair("output"@, Json::Array(items)) ==> response_text(
            Json::Object(members),
        ) == items_text(items),
        (forall|other: Seq<Json>|
            !#[trigger] members.contains_pair("output"@, Json::Array(other))) ==> response_text(
            Json::Object(members),
        ).len() == 0,
{
    let document = Json::Object(members);
    if document.member_elements("output"@) is Some {
        assert(members.contains_pair(
            "output"@,
            Json::Array(document.member_elements("output"@)->Some_0),
        ));
    }
}

/// The text of items, and that of the parts of a message, is put together one by one, in
/// order.
pub proof fn lemma_text_goes_on(items: Seq<Json>, last: Json)
    ensures
        items_text(seq![]) == Seq::<char>::empty(),
        items_text(items.push(last)) == items_text(items) + item_text(last),
        parts_text(seq![]) == Seq::<char>::empty(),
        parts_text(items.push(last)) == parts_text(items) + part_text(last),
{
    assert(items.push(last).drop_last() =~= items);
}

/// A message brings the text of its parts, and an output text brings the text that it has,
/// exactly as it stands.
pub proof fn lemma_message_brings_its_text(
    members: Map<Seq<char>, Json>,
    parts: Seq<Json>,
    text: Seq<char>,
)
    ensures
        members.contains_pair("type"@, Json::String("message"@)) && members.contains_pair(
            "content"@,
            Json::Array(parts),
        ) ==> item_text(Json::Object(members)) == parts_text(parts),
        members.contains_pair("type"@, Json::String("output_text"@)) && members.contains_pair(
            "text"@,
            Json::String(text),
        ) ==> part_text(Json::Object(members)) == text,
{
}

/// Nothing else brings text.
pub proof fn lemma_nothing_else_brings_text(document: Json)
    ensures
        !(document is Object && document->Object_0.contains_pair(
            "type"@,
            Json::String("message"@),
        )) ==> item_text(document).len() == 0,
        !(document is Object && document->Object_0.contains_pair(
            "type"@,
            Json::String("output_text"@),
        )) ==> part_text(document).len() == 0,
        document is Object && (forall|text: Seq<char>|
            !#[trigger] document->Object_0.contains_pair("text"@, Json::String(text)))
            ==> part_text(document).len() == 0,
        document is Object && (forall|parts: Seq<Json>|
            !#[trigger] document->Object_0.contains_pair("content"@, Json::Array(parts)))
            ==> item_text(document).len() == 0,
        !(document is Object) ==> response_text(document).len() == 0,
{
    if document is Object {
        let members = document->Object_0;
        if document.member_text("text"@) is Some {
            assert(members.contains_pair(
                "text"@,
                Json::String(document.member_text("text"@)->Some_0),
            ));
        }
        if document.member_elements("content"@) is Some {
            assert(members.contains_pair(
                "content"@,
                Json::Array(document.member_elements("content"@)->Some_0),
            ));
        }
    }
}

// ---------------------------------------------------------------------------
// From bytes to text
// ---------------------------------------------------------------------------

/// Whether an event brings this piece of text.
pub open spec fn brings(event: Json, text: Seq<char>) -> bool {
    &&& event is Object
    &&& event->Object_0.contains_pair("type"@, Json::String("response.output_text.delta"@))
    &&& event->Object_0.contains_pair("delta"@, Json::String(text))
}

proof fn lemma_pieces_are_gathered(events: Seq<Json>, texts: Seq<Seq<char>>)
    requires
        events.len() == texts.len(),
        forall|i: int| 0 <= i < events.len() ==> brings(#[trigger] events[i], texts[i]),
        text_bytes(texts) <= 67_108_864,
    ensures
        gathered_all(events) is Ok,
        gathered_all(events)->Ok_0.deltas == texts,
        gathered_all(events)->Ok_0.items.len() == 0,
        gathered_all(events)->Ok_0.completed is None,
    decreases events.len(),
{
    if events.len() > 0 {
        let before = events.drop_last();
        let fewer = texts.drop_last();
        assert(forall|i: int| 0 <= i < before.len() ==> before[i] == #[trigger] events[i]);
        lemma_pieces_are_gathered(before, fewer);
        let s = gathered_all(before)->Ok_0;
        assert(brings(events[events.len() - 1], texts[texts.len() - 1]));
        let members = events.last()->Object_0;
        assert(fewer.push(texts.last()) =~= texts);
        lemma_delta_is_gathered_as_it_stands(s, members, texts.last());
    } else {
        assert(texts =~= seq![]);
    }
}

/// An answer arrives as it was written: where a server sends it in pieces, one event each, the
/// text of the response is the pieces, one behind the other, however the bytes are cut on their
/// way.
pub proof fn lemma_answer_arrives_as_it_was_written(
    payloads: Seq<Seq<char>>,
    texts: Seq<Seq<char>>,
    chunks: Seq<Seq<u8>>,
)
    requires
        payloads.len() == texts.len(),
        payloads.len() > 0,
        forall|i: int| 0 <= i < payloads.len() ==> is_payload(#[trigger] payloads[i]),
        forall|i: int|
            0 <= i < payloads.len() ==> brings(
                json_of_text(trimmed(#[trigger] payloads[i]))->Ok_0,
                texts[i],
            ),
        text_bytes(texts) <= 67_108_864,
        bytes_of(chunks) == sent(payloads),
        fits(fresh(), chunks),
    ensures
        taken_all(items_of(fresh(), chunks)) is Ok,
        ({
            let s = taken_all(items_of(fresh(), chunks))->Ok_0;
            concluded(s) is Ok && response_text(concluded(s)->Ok_0) == joined(texts, ""@)
        }),
{
    lemma_what_is_sent_arrives(payloads, chunks);
    let events = payloads.map_values(|p: Seq<char>| json_of_text(trimmed(p))->Ok_0);
    let items = items_of(fresh(), chunks);
    assert(items =~= events.map_values(|event: Json| as_item(event)));
    lemma_stream_of_events(events);
    assert forall|i: int| 0 <= i < events.len() implies brings(#[trigger] events[i], texts[i]) by {
        assert(is_payload(payloads[i]));
    }
    lemma_pieces_are_gathered(events, texts);
    let s = gathered_all(events)->Ok_0;
    lemma_anything_is_better_than_nothing(s);
    lemma_assembled_text(s);
}

} // verus!
