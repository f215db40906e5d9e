//! What holds of a whole event stream.

use vstd::prelude::*;
use vstd::utf8::*;

use crate::error::{ClientError, ClientErrorView, NetworkError, NetworkErrorView};
use crate::json::{json_of_text, Json, Value};
use crate::sse::{
    arrived, buffer_cap_error, data_cap_error, data_of, data_size, decoded, decoded_view, event_of,
    event_of_parse, event_view, first_line, flushed, fresh, is_last, line_size,
    line_taken, newline_at, past_line, pumped, step_of, utf8_error_text, within_limits,
    without_crs, Arrival, ArrivalView, SseItemView, SseState, SseStep, SseStepView, MAX_SSE_BUFFER,
    MAX_SSE_DATA_LINES,
};
use crate::text::{
    decimal_text, joined, lemma_encoded_char, trimmed, trimmed_end, trimmed_start,
};

verus! {

// ---------------------------------------------------------------------------
// Whole streams
// ---------------------------------------------------------------------------

/// All the items that the complete lines of the buffered bytes give, and the state after
/// them.
pub open spec fn drained(s: SseState) -> (Seq<SseItemView>, SseState)
    decreases s.buf.len(),
{
    if s.finished || newline_at(s.buf) >= s.buf.len() {
        (seq![], s)
    } else {
        let (next, step) = line_taken(past_line(s), decoded(first_line(s.buf)));
        match step {
            Some(SseStepView::Item(item)) => {
                let (items, last) = drained(next);
                (seq![item] + items, last)
            },
            Some(_) => (seq![], next),
            None => drained(next),
        }
    }
}

/// The items that are left when the bytes end.
pub open spec fn left_over(s: SseState) -> Seq<SseItemView> {
    match flushed(s).1 {
        SseStepView::Item(item) => seq![item],
        _ => seq![],
    }
}

/// A state with more bytes behind the ones it holds.
pub open spec fn extended(s: SseState, bytes: Seq<u8>) -> SseState {
    SseState { buf: s.buf + bytes, ..s }
}

/// All the items of a stream whose bytes arrive as `chunks` and then end.
pub open spec fn items_of(s: SseState, chunks: Seq<Seq<u8>>) -> Seq<SseItemView>
    decreases chunks.len(),
{
    let (items, rest) = drained(s);
    if rest.finished {
        items
    } else if chunks.len() == 0 {
        items + left_over(rest)
    } else if rest.buf.len() + chunks[0].len() > MAX_SSE_BUFFER {
        items.push(Err(buffer_cap_error()))
    } else {
        items + items_of(extended(rest, chunks[0]), chunks.skip(1))
    }
}

/// Whether no line of a stream outgrows the buffer when its bytes arrive as `chunks`.
pub open spec fn fits(s: SseState, chunks: Seq<Seq<u8>>) -> bool
    decreases chunks.len(),
{
    let rest = drained(s).1;
    rest.finished || chunks.len() == 0 || (rest.buf.len() + chunks[0].len() <= MAX_SSE_BUFFER
        && fits(extended(rest, chunks[0]), chunks.skip(1)))
}

/// The bytes of all chunks, one behind the other.
pub open spec fn bytes_of(chunks: Seq<Seq<u8>>) -> Seq<u8>
    decreases chunks.len(),
{
    if chunks.len() == 0 {
        seq![]
    } else {
        chunks[0] + bytes_of(chunks.skip(1))
    }
}

/// Polling gives the items of a stream one after the other, in order, and asks for more
/// bytes only when the complete lines are used up.
pub proof fn lemma_polling_gives_all_items(s: SseState)
    requires
        !s.eof,
    ensures
        match pumped(s) {
            (next, SseStepView::Item(item)) => {
                &&& drained(s).0 == seq![item] + drained(next).0
                &&& drained(s).1 == drained(next).1
            },
            (next, _) => drained(s) == (Seq::<SseItemView>::empty(), next),
        },
    decreases s.buf.len(),
{
    if !s.finished && newline_at(s.buf) < s.buf.len() {
        let (next, step) = line_taken(past_line(s), decoded(first_line(s.buf)));
        if step is None {
            lemma_polling_gives_all_items(next);
        }
    }
}

/// Once a stream has ended, be it by `[DONE]`, an error or the end of the bytes, it gives
/// nothing more.
pub proof fn lemma_end_is_final(s: SseState)
    requires
        is_last(Some(pumped(s).1)),
    ensures
        pumped(s).0.finished,
        pumped(pumped(s).0) == (pumped(s).0, SseStepView::End),
    decreases s.buf.len(),
{
    if !s.finished && newline_at(s.buf) < s.buf.len() {
        let (next, step) = line_taken(past_line(s), decoded(first_line(s.buf)));
        if step is None {
            lemma_end_is_final(next);
        }
    }
}

/// Memory stays bounded: no state that polling leads to exceeds the limits on the buffered
/// bytes, the data lines and their size.
pub proof fn lemma_polling_keeps_limits(s: SseState)
    requires
        within_limits(s),
    ensures
        within_limits(pumped(s).0),
    decreases s.buf.len(),
{
    if !s.finished && newline_at(s.buf) < s.buf.len() {
        lemma_line_keeps_limits(past_line(s), decoded(first_line(s.buf)));
        let (next, step) = line_taken(past_line(s), decoded(first_line(s.buf)));
        if step is None {
            lemma_polling_keeps_limits(next);
        }
    }
}

proof fn lemma_line_keeps_limits(s: SseState, line: Result<Seq<char>, Seq<char>>)
    requires
        within_limits(s),
    ensures
        within_limits(line_taken(s, line).0),
{
    match line {
        Ok(text) => match data_of(text) {
            Some(value) => {
                assert(s.lines.push(value).drop_last() =~= s.lines);
            },
            None => {},
        },
        Err(_) => {},
    }
}

/// Memory stays bounded: nothing that arrives leads beyond the limits either.
pub proof fn lemma_arrival_keeps_limits(s: SseState, what: ArrivalView, idle_secs: nat)
    requires
        within_limits(s),
    ensures
        within_limits(arrived(s, what, idle_secs).0),
{
}

proof fn lemma_newline_in_longer(a: Seq<u8>, b: Seq<u8>)
    requires
        newline_at(a) < a.len(),
    ensures
        newline_at(a + b) == newline_at(a),
    decreases a.len(),
{
    if a.len() > 0 && a[0] != 10 {
        assert((a + b).drop_first() =~= a.drop_first() + b);
        lemma_newline_in_longer(a.drop_first(), b);
    }
}

/// Using the complete lines before more bytes arrive gives what using them afterwards
/// would give.
pub proof fn lemma_draining_early(s: SseState, bytes: Seq<u8>)
    ensures
        ({
            let (early, rest) = drained(s);
            let whole = drained(extended(s, bytes));
            if rest.finished {
                whole.0 == early && whole.1.finished
            } else {
                let (late, last) = drained(extended(rest, bytes));
                whole.0 == early + late && whole.1 == last
            }
        }),
    decreases s.buf.len(),
{
    let t = extended(s, bytes);
    if s.finished {
    } else if newline_at(s.buf) >= s.buf.len() {
        assert(Seq::<SseItemView>::empty() + drained(t).0 =~= drained(t).0);
    } else {
        lemma_newline_in_longer(s.buf, bytes);
        let n = newline_at(s.buf) as int;
        assert(t.buf.take(n) =~= s.buf.take(n));
        assert(past_line(t).buf =~= past_line(s).buf + bytes);
        let line = decoded(first_line(s.buf));
        let (next, step) = line_taken(past_line(s), line);
        let (next_t, step_t) = line_taken(past_line(t), line);
        assert(next_t == extended(next, bytes));
        assert(step_t == step);
        lemma_draining_early(next, bytes);
        match step {
            Some(SseStepView::Item(item)) => {
                let (early, rest) = drained(next);
                let late = drained(extended(rest, bytes)).0;
                assert(seq![item] + (early + late) =~= (seq![item] + early) + late);
            },
            _ => {},
        }
    }
}

/// How a stream is cut into chunks changes nothing, not even where a cut falls inside a
/// character: the items are those of the bytes in one piece.
pub proof fn lemma_chunking_is_invisible(s: SseState, chunks: Seq<Seq<u8>>)
    requires
        fits(s, chunks),
    ensures
        items_of(s, chunks) == items_of(extended(s, bytes_of(chunks)), seq![]),
    decreases chunks.len(),
{
    let whole = extended(s, bytes_of(chunks));
    let (early, rest) = drained(s);
    lemma_draining_early(s, bytes_of(chunks));
    if rest.finished {
    } else if chunks.len() == 0 {
        assert(whole.buf =~= s.buf);
    } else {
        let next = extended(rest, chunks[0]);
        lemma_chunking_is_invisible(next, chunks.skip(1));
        let tail = bytes_of(chunks.skip(1));
        assert(extended(next, tail).buf =~= extended(rest, bytes_of(chunks)).buf);
        let (late, last) = drained(extended(rest, bytes_of(chunks)));
        if last.finished {
            assert(early + late =~= early + late);
        } else {
            assert((early + late) + left_over(last) =~= early + (late + left_over(last)));
        }
    }
}

/// Two ways to cut the same bytes give the same items.
pub proof fn lemma_same_bytes_same_items(a: Seq<Seq<u8>>, b: Seq<Seq<u8>>)
    requires
        fits(fresh(), a),
        fits(fresh(), b),
        bytes_of(a) == bytes_of(b),
    ensures
        items_of(fresh(), a) == items_of(fresh(), b),
{
    lemma_chunking_is_invisible(fresh(), a);
    lemma_chunking_is_invisible(fresh(), b);
}

/// A stream of no more bytes than the buffer holds fits, however it is cut.
pub proof fn lemma_short_stream_fits(s: SseState, chunks: Seq<Seq<u8>>)
    requires
        s.buf.len() + bytes_of(chunks).len() <= MAX_SSE_BUFFER,
    ensures
        fits(s, chunks),
    decreases chunks.len(),
{
    lemma_draining_shrinks(s);
    if chunks.len() > 0 && !drained(s).1.finished {
        lemma_short_stream_fits(extended(drained(s).1, chunks[0]), chunks.skip(1));
    }
}

proof fn lemma_draining_shrinks(s: SseState)
    ensures
        drained(s).1.buf.len() <= s.buf.len(),
    decreases s.buf.len(),
{
    if !s.finished && newline_at(s.buf) < s.buf.len() {
        let (next, step) = line_taken(past_line(s), decoded(first_line(s.buf)));
        lemma_draining_shrinks(next);
    }
}

// ---------------------------------------------------------------------------
// Framing
// ---------------------------------------------------------------------------

/// Whether a text can be sent as the value of one `data` line.
pub open spec fn one_line(value: Seq<char>) -> bool {
    &&& forall|i: int| 0 <= i < value.len() ==> #[trigger] value[i] != '\n'
    &&& value.len() > 0 ==> value.last() != '\r'
}

/// The bytes that send `lines` as the data of one event.
pub open spec fn framed(lines: Seq<Seq<char>>) -> Seq<u8>
    decreases lines.len(),
{
    if lines.len() == 0 {
        seq![10u8]
    } else {
        encode_utf8("data: "@ + lines[0]) + seq![10u8] + framed(lines.skip(1))
    }
}

/// The items that one event gives, followed by those of the state after it.
pub open spec fn followed(step: Option<SseStepView>, after: SseState) -> (
    Seq<SseItemView>,
    SseState,
) {
    match step {
        Some(SseStepView::Item(item)) => (seq![item] + drained(after).0, drained(after).1),
        Some(_) => (seq![], after),
        None => drained(after),
    }
}

proof fn lemma_data_size_first(lines: Seq<Seq<char>>)
    requires
        lines.len() > 0,
    ensures
        data_size(lines) == line_size(lines[0]) + data_size(lines.skip(1)),
    decreases lines.len(),
{
    if lines.len() > 1 {
        lemma_data_size_first(lines.drop_last());
        assert(lines.drop_last().skip(1) =~= lines.skip(1).drop_last());
        assert(lines.skip(1).last() == lines.last());
    } else {
        assert(lines.drop_last() =~= seq![]);
        assert(lines.skip(1) =~= seq![]);
    }
}

proof fn lemma_char_bytes(c: char)
    ensures
        forall|i: int|
            0 <= i < encode_scalar(c as u32).len() ==> (#[trigger] encode_scalar(c as u32)[i] == 10
                ==> c == '\n'),
        encode_scalar(c as u32).last() == 13 ==> c == '\r',
        encode_scalar(c as u32).len() > 0,
{
    lemma_encoded_char(c);
}

proof fn lemma_line_bytes(value: Seq<char>)
    ensures
        (forall|i: int| 0 <= i < value.len() ==> #[trigger] value[i] != '\n') ==> forall|j: int|
            0 <= j < encode_utf8(value).len() ==> #[trigger] encode_utf8(value)[j] != 10,
        encode_utf8(value).len() > 0 && encode_utf8(value).last() == 13 ==> value.len() > 0
            && value.last() == '\r',
    decreases value.len(),
{
    if value.len() > 0 {
        let rest = value.drop_first();
        let head = encode_scalar(value[0] as u32);
        lemma_line_bytes(rest);
        lemma_char_bytes(value[0]);
        let bytes = encode_utf8(value);
        assert(bytes == head + encode_utf8(rest));
        if forall|i: int| 0 <= i < value.len() ==> #[trigger] value[i] != '\n' {
            assert(forall|i: int| 0 <= i < rest.len() ==> rest[i] == #[trigger] value[i + 1]);
            assert forall|j: int| 0 <= j < bytes.len() implies #[trigger] bytes[j] != 10 by {
                if j < head.len() {
                    assert(bytes[j] == head[j]);
                } else {
                    assert(bytes[j] == encode_utf8(rest)[j - head.len()]);
                }
            }
        }
        if encode_utf8(rest).len() == 0 {
            assert(bytes =~= head);
            if rest.len() > 0 {
                lemma_char_bytes(rest[0]);
            }
        } else {
            assert(bytes.last() == encode_utf8(rest).last());
            if rest.len() > 0 {
                assert(rest.last() == value.last());
            }
        }
    }
}

proof fn lemma_newline_behind(bytes: Seq<u8>, rest: Seq<u8>)
    requires
        forall|j: int| 0 <= j < bytes.len() ==> #[trigger] bytes[j] != 10,
    ensures
        newline_at(bytes + seq![10u8] + rest) == bytes.len(),
    decreases bytes.len(),
{
    let all = bytes + seq![10u8] + rest;
    if bytes.len() > 0 {
        let tail = bytes.drop_first();
        assert(forall|j: int| 0 <= j < tail.len() ==> tail[j] == #[trigger] bytes[j + 1]);
        lemma_newline_behind(tail, rest);
        assert(all.drop_first() =~= tail + seq![10u8] + rest);
        assert(all[0] == bytes[0]);
    } else {
        assert(all[0] == 10);
    }
}

proof fn lemma_data_line(value: Seq<char>)
    ensures
        data_of("data: "@ + value) == Some(value),
        ("data: "@ + value).len() > 0,
        one_line(value) ==> one_line("data: "@ + value),
{
    reveal_strlit("data: ");
    reveal_strlit("data:");
    reveal_strlit(" ");
    let line = "data: "@ + value;
    assert(line.subrange(0, 5) =~= "data:"@);
    let rest = line.skip(5);
    assert(rest.subrange(0, 1) =~= " "@);
    assert(rest.skip(1) =~= value);
    if one_line(value) {
        assert forall|i: int| 0 <= i < line.len() implies #[trigger] line[i] != '\n' by {
            if i >= 6 {
                assert(line[i] == value[i - 6]);
            }
        }
    }
}

/// What a server sends as the data of one event is what the stream gives for it: the
/// lines, joined by line feeds and read as JSON. What follows in the bytes is left for
/// the next event.
pub proof fn lemma_framed_event_comes_back(s: SseState, lines: Seq<Seq<char>>, rest: Seq<u8>)
    requires
        !s.finished,
        s.buf == framed(lines) + rest,
        forall|i: int| 0 <= i < lines.len() ==> one_line(#[trigger] lines[i]),
        s.lines.len() + lines.len() <= MAX_SSE_DATA_LINES,
        s.data_bytes + data_size(lines) <= MAX_SSE_BUFFER,
    ensures
        ({
            let step = step_of(event_of(s.lines + lines));
            let after = SseState {
                buf: rest,
                lines: seq![],
                data_bytes: 0,
                finished: is_last(step),
                ..s
            };
            drained(s) == followed(step, after)
        }),
    decreases lines.len(),
{
    if lines.len() == 0 {
        assert(s.buf[0] == 10);
        assert(newline_at(s.buf) == 0);
        assert(s.buf.take(0) =~= seq![]);
        assert(past_line(s).buf =~= rest);
        assert(s.lines + lines =~= s.lines);
        assert(decode_utf8(seq![]) =~= seq![]);
    } else {
        let text = "data: "@ + lines[0];
        let line = encode_utf8(text);
        let more = framed(lines.skip(1)) + rest;
        assert(s.buf =~= line + seq![10u8] + more);
        assert(one_line(lines[0]));
        lemma_data_line(lines[0]);
        lemma_line_bytes(text);
        lemma_newline_behind(line, more);
        encode_utf8_valid_utf8(text);
        encode_utf8_decode_utf8(text);
        assert(s.buf.take(line.len() as int) =~= line);
        assert(first_line(s.buf) == line);
        assert(past_line(s).buf =~= more);
        lemma_data_size_first(lines);
        let next = line_taken(past_line(s), decoded(first_line(s.buf))).0;
        assert(next.lines == s.lines.push(lines[0]));
        assert(s.lines.push(lines[0]) + lines.skip(1) =~= s.lines + lines);
        assert(forall|i: int|
            0 <= i < lines.skip(1).len() ==> lines.skip(1)[i] == #[trigger] lines[i + 1]);
        lemma_framed_event_comes_back(next, lines.skip(1), rest);
    }
}

/// `[DONE]` ends the stream: nothing that follows it gives an item.
pub proof fn lemma_done_ends_the_stream(s: SseState, rest: Seq<u8>)
    requires
        !s.finished,
        s.buf == framed(seq!["[DONE]"@]) + rest,
        s.lines.len() == 0,
        s.data_bytes == 0,
    ensures
        drained(s).0.len() == 0,
        drained(s).1.finished,
{
    reveal_strlit("[DONE]");
    let done = "[DONE]"@;
    let lines = seq![done];
    assert(trimmed_start(done) == done);
    assert(trimmed_end(done) == done);
    assert(joined(lines, "\n"@) == done);
    assert(s.lines + lines =~= lines);
    lemma_data_size_first(lines);
    assert(lines.skip(1) =~= seq![]);
    assert(is_ascii_chars(done));
    is_ascii_chars_encode_utf8(done);
    lemma_framed_event_comes_back(s, lines, rest);
}

/// Whether a text can be sent as an event that is one line of JSON: it fits in a line, and
/// without the white space around it is a JSON text, not the end mark.
pub open spec fn is_payload(text: Seq<char>) -> bool {
    &&& forall|i: int| 0 <= i < text.len() ==> #[trigger] text[i] != '\n'
    &&& text.len() > 0 ==> text.last() != '\r'
    &&& encode_utf8(text).len() + 1 <= 16_777_216
    &&& trimmed(text).len() > 0
    &&& trimmed(text) != "[DONE]"@
    &&& json_of_text(trimmed(text)) is Ok
}

/// The item that such a text stands for: the document that it holds.
pub open spec fn item_sent(text: Seq<char>) -> SseItemView {
    Ok(json_of_text(trimmed(text))->Ok_0)
}

/// The bytes that send texts as events, one after the other.
pub open spec fn sent(payloads: Seq<Seq<char>>) -> Seq<u8>
    decreases payloads.len(),
{
    if payloads.len() == 0 {
        seq![]
    } else {
        framed(seq![payloads[0]]) + sent(payloads.skip(1))
    }
}

proof fn lemma_sent_events_are_drained(s: SseState, payloads: Seq<Seq<char>>)
    requires
        !s.finished,
        s.buf == sent(payloads),
        s.lines.len() == 0,
        s.data_bytes == 0,
        forall|i: int| 0 <= i < payloads.len() ==> is_payload(#[trigger] payloads[i]),
    ensures
        drained(s).0 == payloads.map_values(|p: Seq<char>| item_sent(p)),
        !drained(s).1.finished,
        drained(s).1.buf.len() == 0,
        drained(s).1.lines.len() == 0,
    decreases payloads.len(),
{
    if payloads.len() == 0 {
        assert(drained(s).0 =~= payloads.map_values(|p: Seq<char>| item_sent(p)));
    } else {
        let first = payloads[0];
        let lines = seq![first];
        let others = payloads.skip(1);
        assert(is_payload(first));
        assert(joined(lines, "\n"@) == first);
        assert(step_of(event_of(lines)) == Some(SseStepView::Item(item_sent(first))));
        lemma_data_size_first(lines);
        assert(lines.skip(1) =~= seq![]);
        assert(s.lines + lines =~= lines);
        lemma_framed_event_comes_back(s, lines, sent(others));
        let after = SseState { buf: sent(others), lines: seq![], data_bytes: 0, ..s };
        assert(forall|i: int| 0 <= i < others.len() ==> others[i] == #[trigger] payloads[i + 1]);
        lemma_sent_events_are_drained(after, others);
        assert(seq![item_sent(first)] + drained(after).0 =~= payloads.map_values(
            |p: Seq<char>| item_sent(p),
        ));
    }
}

/// What a server sends is what the client gets: every event, in order, once and as it
/// was sent, however the bytes are cut on their way.
pub proof fn lemma_what_is_sent_arrives(payloads: Seq<Seq<char>>, chunks: Seq<Seq<u8>>)
    requires
        forall|i: int| 0 <= i < payloads.len() ==> is_payload(#[trigger] payloads[i]),
        bytes_of(chunks) == sent(payloads),
        fits(fresh(), chunks),
    ensures
        items_of(fresh(), chunks) == payloads.map_values(|p: Seq<char>| item_sent(p)),
{
    lemma_chunking_is_invisible(fresh(), chunks);
    let whole = extended(fresh(), bytes_of(chunks));
    assert(whole.buf =~= sent(payloads));
    lemma_sent_events_are_drained(whole, payloads);
    let rest = drained(whole).1;
    assert(rest.buf =~= seq![]);
    assert(decode_utf8(seq![]) =~= seq![]);
    reveal_strlit("data:");
    assert(left_over(rest) =~= seq![]);
    assert(items_of(whole, seq![]) =~= drained(whole).0);
}

/// The last line of a stream counts although no line feed ends it: its event is the one
/// that an empty line would have ended.
pub proof fn lemma_last_line_needs_no_line_feed(s: SseState, value: Seq<char>)
    requires
        !s.finished,
        s.eof,
        s.buf == encode_utf8("data: "@ + value),
        one_line(value),
        s.lines.len() < MAX_SSE_DATA_LINES,
        s.data_bytes + line_size(value) <= MAX_SSE_BUFFER,
    ensures
        pumped(s).1 == match step_of(event_of(s.lines.push(value))) {
            Some(step) => step,
            None => SseStepView::End,
        },
        pumped(s).0.finished,
{
    lemma_tail(s, value);
}

/// A last line that would make its event outgrow its limits is refused although no line
/// feed ends it.
pub proof fn lemma_last_line_is_capped(s: SseState, value: Seq<char>)
    requires
        !s.finished,
        s.eof,
        s.buf == encode_utf8("data: "@ + value),
        one_line(value),
        s.lines.len() >= MAX_SSE_DATA_LINES || s.data_bytes + line_size(value) > MAX_SSE_BUFFER,
    ensures
        pumped(s).1 == SseStepView::Item(Err(data_cap_error())),
        pumped(s).0.finished,
{
    lemma_tail(s, value);
}

proof fn lemma_tail(s: SseState, value: Seq<char>)
    requires
        s.buf == encode_utf8("data: "@ + value),
        one_line(value),
    ensures
        newline_at(s.buf) == s.buf.len(),
        decoded(s.buf) == Ok::<Seq<char>, Seq<char>>("data: "@ + value),
        data_of(without_crs("data: "@ + value)) == Some(value),
{
    let text = "data: "@ + value;
    reveal_strlit("data: ");
    lemma_data_line(value);
    lemma_line_bytes(text);
    lemma_no_newline(s.buf);
    encode_utf8_valid_utf8(text);
    encode_utf8_decode_utf8(text);
    assert(text.last() != '\r');
}

proof fn lemma_no_newline(bytes: Seq<u8>)
    requires
        forall|j: int| 0 <= j < bytes.len() ==> #[trigger] bytes[j] != 10,
    ensures
        newline_at(bytes) == bytes.len(),
    decreases bytes.len(),
{
    if bytes.len() > 0 {
        let tail = bytes.drop_first();
        assert(forall|j: int| 0 <= j < tail.len() ==> tail[j] == #[trigger] bytes[j + 1]);
        lemma_no_newline(tail);
    }
}

/// A line of a stream: its bytes, and whether a carriage return stands before the line
/// feed that ends it.
pub struct Line {
    pub bytes: Seq<u8>,
    pub crlf: bool,
}

/// Whether bytes can stand in one line.
pub open spec fn is_line(bytes: Seq<u8>) -> bool {
    &&& forall|j: int| 0 <= j < bytes.len() ==> #[trigger] bytes[j] != 10
    &&& bytes.len() > 0 ==> bytes.last() != 13
}

/// The bytes of lines, with their ends.
pub open spec fn written(lines: Seq<Line>) -> Seq<u8>
    decreases lines.len(),
{
    if lines.len() == 0 {
        seq![]
    } else {
        let end = if lines[0].crlf {
            seq![13u8, 10u8]
        } else {
            seq![10u8]
        };
        lines[0].bytes + end + written(lines.skip(1))
    }
}

/// Whether a line is a text that is neither empty nor a `data` field: a comment, or any
/// other field.
pub open spec fn is_aside(bytes: Seq<u8>) -> bool {
    match decoded(bytes) {
        Ok(text) => text.len() > 0 && data_of(text) is None,
        Err(_) => false,
    }
}

/// The lines that matter, each ended by a bare line feed.
pub open spec fn essential(lines: Seq<Line>) -> Seq<Line>
    decreases lines.len(),
{
    if lines.len() == 0 {
        seq![]
    } else if is_aside(lines[0].bytes) {
        essential(lines.skip(1))
    } else {
        seq![Line { bytes: lines[0].bytes, crlf: false }] + essential(lines.skip(1))
    }
}

/// Comments, fields other than `data` and carriage returns before line feeds change
/// nothing: the lines give the items that the essential ones give, and lead to the same
/// state.
pub proof fn lemma_asides_change_nothing(s: SseState, lines: Seq<Line>, rest: Seq<u8>)
    requires
        s.buf == written(lines) + rest,
        forall|i: int| 0 <= i < lines.len() ==> is_line((#[trigger] lines[i]).bytes),
    ensures
        ({
            let plain = SseState { buf: written(essential(lines)) + rest, ..s };
            &&& drained(s).0 == drained(plain).0
            &&& drained(s).1.finished == drained(plain).1.finished
            &&& !drained(s).1.finished ==> drained(s).1 == drained(plain).1
        }),
    decreases lines.len(),
{
    let plain = SseState { buf: written(essential(lines)) + rest, ..s };
    if s.finished {
    } else if lines.len() == 0 {
        assert(s.buf =~= rest);
        assert(plain.buf =~= rest);
    } else {
        let first = lines[0];
        let others = lines.skip(1);
        let more = written(others) + rest;
        assert(is_line(first.bytes));
        assert(forall|i: int| 0 <= i < others.len() ==> others[i] == #[trigger] lines[i + 1]);
        assert(seq![first].skip(1) =~= seq![]);
        assert(written(seq![first].skip(1)) =~= seq![]);
        assert(s.buf =~= written(seq![first]) + more);
        lemma_line_end(s, first, more);
        let taken = line_taken(past_line(s), decoded(first.bytes));
        assert(taken.0.buf == more);
        if is_aside(first.bytes) {
            lemma_asides_change_nothing(past_line(s), others, rest);
        } else {
            let lone = Line { bytes: first.bytes, crlf: false };
            let kept = essential(others);
            assert((seq![lone] + kept).skip(1) =~= kept);
            assert(seq![lone].skip(1) =~= seq![]);
            assert(written(seq![lone].skip(1)) =~= seq![]);
            assert(plain.buf =~= written(seq![lone]) + (written(kept) + rest));
            lemma_line_end(plain, lone, written(kept) + rest);
            let taken_plain = line_taken(past_line(plain), decoded(first.bytes));
            assert(taken_plain.1 == taken.1);
            assert(taken_plain.0 == (SseState { buf: written(kept) + rest, ..taken.0 }));
            lemma_asides_change_nothing(taken.0, others, rest);
        }
    }
}

proof fn lemma_line_end(s: SseState, line: Line, more: Seq<u8>)
    requires
        s.buf == written(seq![line]) + more,
        is_line(line.bytes),
    ensures
        newline_at(s.buf) < s.buf.len(),
        first_line(s.buf) == line.bytes,
        past_line(s) == (SseState { buf: more, ..s }),
{
    let bytes = line.bytes;
    assert(seq![line].skip(1) =~= seq![]);
    assert(written(seq![line].skip(1)) =~= seq![]);
    if line.crlf {
        let longer = bytes + seq![13u8];
        lemma_newline_behind(longer, more);
        assert(s.buf =~= longer + seq![10u8] + more);
        assert(s.buf =~= bytes + seq![13u8] + seq![10u8] + more);
    } else {
        lemma_newline_behind(bytes, more);
        assert(s.buf =~= bytes + seq![10u8] + more);
    }
    lemma_both_line_ends_are_read(bytes, more);
    assert(past_line(s).buf =~= more);
}

/// However a stream is cut, comments, fields other than `data` and carriage returns
/// before line feeds change none of its items.
pub proof fn lemma_asides_are_invisible(
    lines: Seq<Line>,
    rest: Seq<u8>,
    chunks: Seq<Seq<u8>>,
    plain_chunks: Seq<Seq<u8>>,
)
    requires
        forall|i: int| 0 <= i < lines.len() ==> is_line((#[trigger] lines[i]).bytes),
        bytes_of(chunks) == written(lines) + rest,
        bytes_of(plain_chunks) == written(essential(lines)) + rest,
        fits(fresh(), chunks),
        fits(fresh(), plain_chunks),
    ensures
        items_of(fresh(), chunks) == items_of(fresh(), plain_chunks),
{
    lemma_chunking_is_invisible(fresh(), chunks);
    lemma_chunking_is_invisible(fresh(), plain_chunks);
    let whole = extended(fresh(), bytes_of(chunks));
    let plain = extended(fresh(), bytes_of(plain_chunks));
    assert(whole.buf =~= written(lines) + rest);
    assert(plain.buf =~= written(essential(lines)) + rest);
    lemma_asides_change_nothing(whole, lines, rest);
}

/// A line may end with a line feed or with a carriage return and a line feed. Only one
/// carriage return is part of the end.
pub proof fn lemma_both_line_ends_are_read(line: Seq<u8>, rest: Seq<u8>)
    requires
        forall|j: int| 0 <= j < line.len() ==> #[trigger] line[j] != 10,
    ensures
        line.len() == 0 || line.last() != 13 ==> first_line(line + seq![10u8] + rest) == line,
        first_line(line + seq![13u8] + seq![10u8] + rest) == line,
{
    lemma_newline_behind(line, rest);
    let bytes = line + seq![10u8] + rest;
    assert(bytes.take(line.len() as int) =~= line);
    let longer = line + seq![13u8];
    lemma_newline_behind(longer, rest);
    let bytes = longer + seq![10u8] + rest;
    assert(bytes.take(longer.len() as int) =~= longer);
    assert(longer.drop_last() =~= line);
}

/// A payload that is no JSON is an error. It is neither dropped nor shown: the error
/// tells its length alone.
pub proof fn lemma_malformed_event_is_an_error(lines: Seq<Seq<char>>)
    requires
        lines.len() > 0,
        trimmed(joined(lines, "\n"@)).len() > 0,
        trimmed(joined(lines, "\n"@)) != "[DONE]"@,
        json_of_text(trimmed(joined(lines, "\n"@))) is Err,
    ensures
        step_of(event_of(lines)) == Some(
            SseStepView::Item(
                Err(
                    ClientErrorView::Protocol(
                        "failed to parse SSE data payload as JSON: "@ + json_of_text(
                            trimmed(joined(lines, "\n"@)),
                        )->Err_0 + " ("@ + decimal_text(
                            encode_utf8(trimmed(joined(lines, "\n"@))).len(),
                        ) + " bytes withheld)"@,
                    ),
                ),
            ),
        ),
{
}

// ---------------------------------------------------------------------------
// Single steps
// ---------------------------------------------------------------------------

/// The payload of an event is its data lines, joined by line feeds, without the white space
/// around them. Every payload that is a JSON text is the event that it holds. Only the end
/// mark ends the stream, and only a blank payload gives nothing.
pub proof fn lemma_payload_is_the_event(lines: Seq<Seq<char>>)
    requires
        lines.len() > 0,
    ensures
        ({
            let payload = trimmed(joined(lines, "\n"@));
            &&& payload.len() == 0 ==> event_of(lines) is None && step_of(event_of(lines)) is None
            &&& payload == "[DONE]"@ ==> event_of(lines) == Some(
                Ok::<Option<Json>, ClientErrorView>(None),
            ) && step_of(event_of(lines)) == Some(SseStepView::End)
            &&& payload.len() > 0 && payload != "[DONE]"@ && json_of_text(payload) is Ok
                ==> event_of(lines) == Some(
                Ok::<Option<Json>, ClientErrorView>(Some(json_of_text(payload)->Ok_0)),
            ) && step_of(event_of(lines)) == Some(
                SseStepView::Item(Ok(json_of_text(payload)->Ok_0)),
            )
            &&& payload.len() > 0 && payload != "[DONE]"@ && json_of_text(payload) is Err
                ==> event_of(lines) is Some && event_of(lines)->Some_0 is Err && step_of(
                event_of(lines),
            ) == Some(SseStepView::Item(Err(event_of(lines)->Some_0->Err_0)))
        }),
        event_of(seq![]) is None,
{
    reveal_strlit("[DONE]");
    assert("[DONE]"@.len() == 6);
}

/// A payload that was read is the event, whatever it says, and a failure to read it is an
/// error that tells the message and the length.
pub proof fn lemma_read_payload_is_the_event(event: Json, message: Seq<char>, bytes: nat)
    ensures
        event_of_parse(Ok(event), bytes) == Ok::<Option<Json>, ClientErrorView>(Some(event)),
        event_of_parse(Err(message), bytes) == Err::<Option<Json>, ClientErrorView>(
            ClientErrorView::Protocol(
                "failed to parse SSE data payload as JSON: "@ + message + " ("@ + decimal_text(
                    bytes,
                ) + " bytes withheld)"@,
            ),
        ),
{
}

/// The value of a data line is all that stands behind the colon, but for one space.
pub proof fn lemma_value_of_a_data_line(value: Seq<char>)
    ensures
        data_of("data: "@ + value) == Some(value),
        value.len() == 0 || value[0] != ' ' ==> data_of("data:"@ + value) == Some(value),
{
    lemma_data_line(value);
    reveal_strlit("data:");
    reveal_strlit(" ");
    let line = "data:"@ + value;
    assert(line.subrange(0, 5) =~= "data:"@);
    assert(line.skip(5) =~= value);
    if value.len() > 0 && value[0] != ' ' {
        assert(value.subrange(0, 1)[0] == value[0]);
    }
}

/// A line that does not start with the name of the field is no data.
pub proof fn lemma_other_lines_are_no_data(line: Seq<char>)
    requires
        line.len() < 5 || line.take(5) != "data:"@,
    ensures
        data_of(line) is None,
{
    reveal_strlit("data:");
    if line.len() >= 5 {
        assert(line.subrange(0, 5) =~= line.take(5));
    }
}

/// Bytes are read as the text that they encode, and only valid ones are.
pub proof fn lemma_bytes_are_read_as_their_text(text: Seq<char>, bytes: Seq<u8>)
    ensures
        decoded(encode_utf8(text)) == Ok::<Seq<char>, Seq<char>>(text),
        decoded(bytes) is Ok <==> valid_utf8(bytes),
        decoded(bytes) is Ok ==> encode_utf8(decoded(bytes)->Ok_0) == bytes,
        decoded(bytes) is Err ==> decoded(bytes)->Err_0 == utf8_error_text(bytes),
{
    encode_utf8_valid_utf8(text);
    encode_utf8_decode_utf8(text);
    if valid_utf8(bytes) {
        decode_utf8_encode_utf8(bytes);
    }
}

/// A data line within the limits is added to the event as it stands, and changes nothing
/// else. One beyond them ends the stream with an error.
pub proof fn lemma_data_line_is_added(s: SseState, text: Seq<char>, value: Seq<char>)
    requires
        text.len() > 0,
        data_of(text) == Some(value),
    ensures
        ({
            let (next, step) = line_taken(s, Ok(text));
            if s.lines.len() < 65_536 && s.data_bytes + encode_utf8(value).len() + 1
                <= 16_777_216 {
                &&& step is None
                &&& next.lines == s.lines.push(value)
                &&& next.data_bytes == s.data_bytes + encode_utf8(value).len() + 1
                &&& next.buf == s.buf
                &&& next.eof == s.eof
                &&& next.finished == s.finished
            } else {
                &&& next.finished
                &&& step == Some(
                    SseStepView::Item(
                        Err(
                            ClientErrorView::Protocol(
                                "SSE event exceeded data cap (16MB / 65536 lines) without an event boundary — protocol fault"@,
                            ),
                        ),
                    ),
                )
            }
        }),
{
}

/// An empty line gives the event of the lines before it, and the next event starts afresh.
pub proof fn lemma_empty_line_ends_the_event(s: SseState)
    requires
        !s.finished,
    ensures
        ({
            let (next, step) = line_taken(s, Ok(seq![]));
            &&& step == step_of(event_of(s.lines))
            &&& next.lines.len() == 0
            &&& next.data_bytes == 0
            &&& next.buf == s.buf
            &&& next.eof == s.eof
            &&& next.finished <==> step == Some(SseStepView::End) || (step is Some
                && step->Some_0 is Item && step->Some_0->Item_0 is Err)
        }),
{
}

/// A line that is neither empty nor data changes nothing, and one that is no text ends the
/// stream with an error.
pub proof fn lemma_other_lines_change_nothing(s: SseState, text: Seq<char>, message: Seq<char>)
    ensures
        text.len() > 0 && data_of(text) is None ==> line_taken(s, Ok(text)) == (
            s,
            None::<SseStepView>,
        ),
        line_taken(s, Err(message)).0.finished,
        line_taken(s, Err(message)).1 == Some(
            SseStepView::Item(
                Err(ClientErrorView::Protocol("SSE line is not valid UTF-8: "@ + message)),
            ),
        ),
{
}

/// Polling takes the lines of the buffer from the front: the first is taken without its end,
/// and what stands behind it is left.
pub proof fn lemma_polling_takes_the_first_line(
    s: SseState,
    line: Seq<u8>,
    crlf: bool,
    rest: Seq<u8>,
)
    requires
        !s.finished,
        crlf ==> s.buf == line + seq![13u8] + seq![10u8] + rest,
        !crlf ==> s.buf == line + seq![10u8] + rest && (line.len() == 0 || line.last() != 13),
        forall|j: int| 0 <= j < line.len() ==> #[trigger] line[j] != 10,
    ensures
        ({
            let (next, step) = line_taken(SseState { buf: rest, ..s }, decoded(line));
            pumped(s) == match step {
                Some(given) => (next, given),
                None => pumped(next),
            }
        }),
{
    lemma_both_line_ends_are_read(line, rest);
    if crlf {
        lemma_newline_behind(line + seq![13u8], rest);
    } else {
        lemma_newline_behind(line, rest);
    }
    assert(past_line(s).buf =~= rest);
}

/// Without a whole line, polling asks for more. A stream that is finished gives nothing.
pub proof fn lemma_polling_without_a_line(s: SseState)
    ensures
        s.finished ==> pumped(s) == (s, SseStepView::End),
        !s.finished && !s.eof && (forall|j: int| 0 <= j < s.buf.len() ==> #[trigger] s.buf[j] != 10)
            ==> pumped(s) == (s, SseStepView::NeedInput),
{
    if forall|j: int| 0 <= j < s.buf.len() ==> #[trigger] s.buf[j] != 10 {
        lemma_no_newline(s.buf);
    }
}

/// The end of the bytes gives the event of the lines that are left, and finishes the stream.
pub proof fn lemma_end_of_bytes_gives_the_last_event(s: SseState)
    requires
        !s.finished,
        s.eof,
        s.buf.len() == 0,
    ensures
        pumped(s).0.finished,
        pumped(s).1 == match step_of(event_of(s.lines)) {
            Some(step) => step,
            None => SseStepView::End,
        },
{
    assert(s.buf =~= seq![]);
    assert(decode_utf8(seq![]) =~= seq![]);
    reveal_strlit("data:");
}

/// A tail that is no text is an error.
pub proof fn lemma_tail_must_be_text(s: SseState)
    requires
        !s.finished,
        s.eof,
        !valid_utf8(s.buf),
        forall|j: int| 0 <= j < s.buf.len() ==> #[trigger] s.buf[j] != 10,
    ensures
        pumped(s).0.finished,
        pumped(s).1 == SseStepView::Item(
            Err(
                ClientErrorView::Protocol(
                    "trailing SSE line is not valid UTF-8: "@ + utf8_error_text(s.buf),
                ),
            ),
        ),
{
    lemma_no_newline(s.buf);
}

/// A tail that is no data, be it a comment or another field, changes nothing of the last
/// event.
pub proof fn lemma_tail_without_data(s: SseState, tail: Seq<char>)
    requires
        !s.finished,
        s.eof,
        s.buf == encode_utf8(tail),
        forall|j: int| 0 <= j < s.buf.len() ==> #[trigger] s.buf[j] != 10,
        tail.len() < 5 || tail.take(5) != "data:"@,
    ensures
        pumped(s).1 == match step_of(event_of(s.lines)) {
            Some(step) => step,
            None => SseStepView::End,
        },
{
    lemma_no_newline(s.buf);
    encode_utf8_valid_utf8(tail);
    encode_utf8_decode_utf8(tail);
    lemma_without_crs(tail);
    let line = without_crs(tail);
    reveal_strlit("data:");
    if line.len() >= 5 {
        assert(line.take(5) =~= tail.take(5));
    }
    lemma_other_lines_are_no_data(line);
}

proof fn lemma_without_crs(text: Seq<char>)
    ensures
        without_crs(text).len() <= text.len(),
        without_crs(text) == text.take(without_crs(text).len() as int),
    decreases text.len(),
{
    if text.len() > 0 && text.last() == '\r' {
        lemma_without_crs(text.drop_last());
        let kept = without_crs(text).len() as int;
        assert(text.drop_last().take(kept) =~= text.take(kept));
    } else {
        assert(text.take(text.len() as int) =~= text);
    }
}

/// A tail that is data belongs to the last event, as it stands and within the same limits.
pub proof fn lemma_tail_with_data(s: SseState, tail: Seq<char>, value: Seq<char>)
    requires
        !s.finished,
        s.eof,
        s.buf == encode_utf8(tail),
        forall|j: int| 0 <= j < s.buf.len() ==> #[trigger] s.buf[j] != 10,
        tail.len() > 0 && tail.last() != '\r',
        data_of(tail) == Some(value),
    ensures
        pumped(s).0.finished,
        pumped(s).1 == if s.lines.len() < 65_536 && s.data_bytes + encode_utf8(value).len() + 1
            <= 16_777_216 {
            match step_of(event_of(s.lines.push(value))) {
                Some(step) => step,
                None => SseStepView::End,
            }
        } else {
            SseStepView::Item(
                Err(
                    ClientErrorView::Protocol(
                        "SSE event exceeded data cap (16MB / 65536 lines) without an event boundary — protocol fault"@,
                    ),
                ),
            )
        },
{
    lemma_no_newline(s.buf);
    encode_utf8_valid_utf8(tail);
    encode_utf8_decode_utf8(tail);
}

/// Carriage returns at the very end of a stream change nothing.
pub proof fn lemma_carriage_returns_at_the_end(s: SseState, t: SseState, tail: Seq<char>)
    requires
        !s.finished,
        s.eof,
        s.buf == encode_utf8(tail),
        forall|j: int| 0 <= j < tail.len() ==> #[trigger] tail[j] != '\n',
        t == (SseState { buf: encode_utf8(tail.push('\r')), ..s }),
    ensures
        pumped(t).1 == pumped(s).1,
{
    let longer = tail.push('\r');
    lemma_line_bytes(tail);
    lemma_line_bytes(longer);
    lemma_no_newline(s.buf);
    lemma_no_newline(t.buf);
    encode_utf8_valid_utf8(tail);
    encode_utf8_decode_utf8(tail);
    encode_utf8_valid_utf8(longer);
    encode_utf8_decode_utf8(longer);
    assert(longer.drop_last() =~= tail);
    assert(longer.last() == '\r');
}

/// Bytes that arrive are put behind those that wait, as they are, and change nothing else. They
/// are refused exactly where more than 16 MiB would wait.
pub proof fn lemma_bytes_wait_in_order(s: SseState, bytes: Seq<u8>, idle_secs: nat)
    ensures
        ({
            let (next, e) = arrived(s, ArrivalView::Chunk(bytes), idle_secs);
            if s.buf.len() + bytes.len() <= 16_777_216 {
                &&& e is None
                &&& next.buf == s.buf + bytes
                &&& next.lines == s.lines
                &&& next.data_bytes == s.data_bytes
                &&& next.eof == s.eof
                &&& next.finished == s.finished
            } else {
                &&& next.finished
                &&& e == Some(
                    ClientErrorView::Protocol("SSE buffer cap (16MB) exceeded — protocol fault"@),
                )
            }
        }),
{
}

/// The end of the bytes is noted and changes nothing else. Silence and a failure of the
/// transport end the stream, each with its own error.
pub proof fn lemma_other_arrivals(s: SseState, e: NetworkErrorView, idle_secs: nat)
    ensures
        arrived(s, ArrivalView::End, idle_secs).1 is None,
        arrived(s, ArrivalView::End, idle_secs).0.eof,
        arrived(s, ArrivalView::End, idle_secs).0.buf == s.buf,
        arrived(s, ArrivalView::End, idle_secs).0.lines == s.lines,
        arrived(s, ArrivalView::End, idle_secs).0.data_bytes == s.data_bytes,
        arrived(s, ArrivalView::End, idle_secs).0.finished == s.finished,
        arrived(s, ArrivalView::Idle, idle_secs).0.finished,
        arrived(s, ArrivalView::Idle, idle_secs).1 == Some(
            ClientErrorView::Protocol(
                "Codex SSE idle timeout ("@ + decimal_text(idle_secs)
                    + "s) — backend stopped sending data"@,
            ),
        ),
        arrived(s, ArrivalView::Failed(e), idle_secs).0.finished,
        arrived(s, ArrivalView::Failed(e), idle_secs).1 == Some(ClientErrorView::Network(e)),
{
}

/// A stream starts with nothing in it.
pub proof fn lemma_fresh_stream()
    ensures
        fresh().buf.len() == 0,
        fresh().lines.len() == 0,
        fresh().data_bytes == 0,
        !fresh().eof,
        !fresh().finished,
{
}

/// Steps and arrivals are seen as what they are.
pub proof fn lemma_stream_views(
    value: Value,
    e: ClientError,
    bytes: Vec<u8>,
    lost: NetworkError,
    text: &str,
    message: String,
)
    ensures
        SseStep::Item(Ok(value))@ == SseStepView::Item(Ok(value@)),
        SseStep::Item(Err(e))@ == SseStepView::Item(Err(e@)),
        SseStep::NeedInput@ == SseStepView::NeedInput,
        SseStep::End@ == SseStepView::End,
        Arrival::Chunk(bytes)@ == ArrivalView::Chunk(bytes@),
        Arrival::End@ == ArrivalView::End,
        Arrival::Idle@ == ArrivalView::Idle,
        Arrival::Failed(lost)@ == ArrivalView::Failed(lost@),
        event_view(Ok(Some(value))) == Ok::<Option<Json>, ClientErrorView>(Some(value@)),
        event_view(Ok(None)) == Ok::<Option<Json>, ClientErrorView>(None),
        event_view(Err(e)) == Err::<Option<Json>, ClientErrorView>(e@),
        decoded_view(Ok(text)) == Ok::<Seq<char>, Seq<char>>(text@),
        decoded_view(Err(message)) == Err::<Seq<char>, Seq<char>>(message@),
{
}

} // verus!
