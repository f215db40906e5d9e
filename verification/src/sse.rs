//! Server-sent events: bytes in, JSON events out.
//!
//! [`SseDecoder`] decides; whoever holds the connection reads. [`SseDecoder::poll`] hands
//! out the next event that the buffered bytes complete, and [`SseDecoder::arrive`] takes
//! what the connection brought.

use vstd::prelude::*;
use vstd::utf8::*;

use crate::error::{ClientError, ClientErrorView, NetworkError, NetworkErrorView};
use crate::json::{json_of_text, view_of, Json, Value};
use crate::text::{
    chars_of, decimal, decimal_text, join, joined, same_text, starts_in, strip_ascii_prefix,
    text_of, texts, trimmed,
};
use crate::time::{Duration, NANOS_PER_SEC};

verus! {

/// The most bytes that may wait for the end of a line, and the most bytes of data in one
/// event.
pub const MAX_SSE_BUFFER: usize = 16 * 1024 * 1024;

/// The most `data:` lines in one event. An empty line adds next to no bytes, so lines are
/// counted on their own.
pub const MAX_SSE_DATA_LINES: usize = 65_536;

// ---------------------------------------------------------------------------
// Decoding UTF-8
// ---------------------------------------------------------------------------

/// The message of the error that `std::str::from_utf8` reports for bytes that are not
/// valid UTF-8.
pub uninterp spec fn utf8_error_text(bytes: Seq<u8>) -> Seq<char>;

/// The text that bytes hold, or the message that says where they are not valid UTF-8.
pub open spec fn decoded(bytes: Seq<u8>) -> Result<Seq<char>, Seq<char>> {
    if valid_utf8(bytes) {
        Ok(decode_utf8(bytes))
    } else {
        Err(utf8_error_text(bytes))
    }
}

/// The view of a decoded text.
pub open spec fn decoded_view(r: Result<&str, String>) -> Result<Seq<char>, Seq<char>> {
    match r {
        Ok(text) => Ok(text@),
        Err(message) => Err(message@),
    }
}

/// `std::str::from_utf8`: the text that the bytes hold when they are valid UTF-8, and
/// otherwise an error, whose message depends on the bytes alone.
#[verifier::external_body]
pub(crate) fn from_utf8(bytes: &[u8]) -> (r: Result<&str, String>)
    ensures
        match r {
            Ok(text) => valid_utf8(bytes@) && text@ == decode_utf8(bytes@),
            Err(message) => !valid_utf8(bytes@) && message@ == utf8_error_text(bytes@),
        },
{
    std::str::from_utf8(bytes).map_err(|e| e.to_string())
}

// ---------------------------------------------------------------------------
// Events
// ---------------------------------------------------------------------------

/// What a payload becomes once it was read as JSON: the event, or an error that withholds
/// the payload and tells only its length.
pub open spec fn event_of_parse(
    parsed: Result<Json, Seq<char>>,
    bytes: nat,
) -> Result<Option<Json>, ClientErrorView> {
    match parsed {
        Ok(event) => Ok(Some(event)),
        Err(message) => Err(
            ClientErrorView::Protocol(
                "failed to parse SSE data payload as JSON: "@ + message + " ("@ + decimal_text(
                    bytes,
                ) + " bytes withheld)"@,
            ),
        ),
    }
}

/// What the data lines of one event amount to: nothing for a blank payload, the end of
/// the stream for `[DONE]`, and else the payload read as JSON. Several lines make one
/// payload, joined by line feeds.
pub open spec fn event_of(
    lines: Seq<Seq<char>>,
) -> Option<Result<Option<Json>, ClientErrorView>> {
    let payload = trimmed(joined(lines, "\n"@));
    if lines.len() == 0 || payload.len() == 0 {
        None
    } else if payload == "[DONE]"@ {
        Some(Ok(None))
    } else {
        Some(event_of_parse(json_of_text(payload), encode_utf8(payload).len()))
    }
}

/// The view of what one event amounts to.
pub open spec fn event_view(
    r: Result<Option<Value>, ClientError>,
) -> Result<Option<Json>, ClientErrorView> {
    match r {
        Ok(event) => Ok(view_of(event)),
        Err(e) => Err(e@),
    }
}

/// What a payload of `bytes` bytes becomes once it was read as JSON.
pub fn parsed_event(parsed: Result<Value, String>, bytes: usize) -> (r: Result<
    Option<Value>,
    ClientError,
>)
    ensures
        event_view(r) == event_of_parse(
            match parsed {
                Ok(v) => Ok(v@),
                Err(message) => Err(message@),
            },
            bytes as nat,
        ),
{
    match parsed {
        Ok(event) => Ok(Some(event)),
        Err(message) => {
            let text = "failed to parse SSE data payload as JSON: ".to_owned().concat(
                message.as_str(),
            ).concat(" (").concat(decimal(bytes as u64).as_str()).concat(" bytes withheld)");
            Err(ClientError::Protocol(text))
        },
    }
}

/// Takes the data lines of the current event and says what they amount to.
pub fn take_event(data_lines: &mut Vec<String>) -> (r: Option<Result<Option<Value>, ClientError>>)
    ensures
        final(data_lines)@ == Seq::<String>::empty(),
        match r {
            Some(event) => event_of(texts(old(data_lines)@)) == Some(event_view(event)),
            None => event_of(texts(old(data_lines)@)) is None,
        },
{
    let mut lines: Vec<String> = Vec::new();
    std::mem::swap(&mut lines, data_lines);
    if lines.len() == 0 {
        return None;
    }
    let payload = join(&lines, "\n");
    let trimmed_payload = payload.as_str().trim();
    if trimmed_payload.is_empty() {
        return None;
    }
    if same_text(trimmed_payload, "[DONE]") {
        return Some(Ok(None));
    }
    let bytes = trimmed_payload.as_bytes().len();
    Some(parsed_event(Value::parse(trimmed_payload), bytes))
}

// ---------------------------------------------------------------------------
// The state of a stream
// ---------------------------------------------------------------------------

/// The state of a stream: the bytes not yet used, the data lines of the current event and
/// their size, whether the bytes have ended, and whether the stream has.
pub struct SseState {
    pub buf: Seq<u8>,
    pub lines: Seq<Seq<char>>,
    pub data_bytes: nat,
    pub eof: bool,
    pub finished: bool,
}

/// An item of the stream: an event, or the error that ends the stream.
pub type SseItemView = Result<Json, ClientErrorView>;

/// What the buffered bytes give.
pub enum SseStepView {
    /// The next item.
    Item(SseItemView),
    /// Nothing yet.
    NeedInput,
    /// Nothing more.
    End,
}

/// The stream before its first byte.
pub open spec fn fresh() -> SseState {
    SseState { buf: seq![], lines: seq![], data_bytes: 0, eof: false, finished: false }
}

/// The value of a `data` field line; nothing for any other line. One space behind the
/// colon is not part of the value.
pub open spec fn data_of(line: Seq<char>) -> Option<Seq<char>> {
    if starts_in(line, "data:"@) {
        let rest = line.skip(5);
        if starts_in(rest, " "@) {
            Some(rest.skip(1))
        } else {
            Some(rest)
        }
    } else {
        None
    }
}

/// What a data line adds to the size of an event: its bytes and a line feed.
pub open spec fn line_size(value: Seq<char>) -> nat {
    encode_utf8(value).len() + 1
}

/// The size of the data lines of an event.
pub open spec fn data_size(lines: Seq<Seq<char>>) -> nat
    decreases lines.len(),
{
    if lines.len() == 0 {
        0
    } else {
        data_size(lines.drop_last()) + line_size(lines.last())
    }
}

/// What an event amounts to, as a step of the stream.
pub open spec fn step_of(
    event: Option<Result<Option<Json>, ClientErrorView>>,
) -> Option<SseStepView> {
    match event {
        None => None,
        Some(Ok(Some(j))) => Some(SseStepView::Item(Ok(j))),
        Some(Ok(None)) => Some(SseStepView::End),
        Some(Err(e)) => Some(SseStepView::Item(Err(e))),
    }
}

/// Whether a step is the last one that gives anything: the end, or an error.
pub open spec fn is_last(step: Option<SseStepView>) -> bool {
    match step {
        Some(SseStepView::End) => true,
        Some(SseStepView::Item(Err(_))) => true,
        _ => false,
    }
}

/// Whether one more data line would make an event outgrow its limits.
pub open spec fn outgrows(s: SseState, value: Seq<char>) -> bool {
    s.data_bytes + line_size(value) > MAX_SSE_BUFFER || s.lines.len() >= MAX_SSE_DATA_LINES
}

/// The error of an event that has outgrown its limits.
pub open spec fn data_cap_error() -> ClientErrorView {
    ClientErrorView::Protocol(
        "SSE event exceeded data cap (16MB / 65536 lines) without an event boundary — protocol fault"@,
    )
}

/// Takes one line of the stream. An empty line ends an event; a `data` line adds to it;
/// any other line, comments among them, changes nothing.
pub open spec fn line_taken(s: SseState, line: Result<Seq<char>, Seq<char>>) -> (
    SseState,
    Option<SseStepView>,
) {
    match line {
        Err(message) => (
            SseState { finished: true, ..s },
            Some(
                SseStepView::Item(
                    Err(ClientErrorView::Protocol("SSE line is not valid UTF-8: "@ + message)),
                ),
            ),
        ),
        Ok(text) => if text.len() == 0 {
            let step = step_of(event_of(s.lines));
            (
                SseState {
                    lines: seq![],
                    data_bytes: 0,
                    finished: s.finished || is_last(step),
                    ..s
                },
                step,
            )
        } else {
            match data_of(text) {
                None => (s, None),
                Some(value) => if outgrows(s, value) {
                    (
                        SseState { finished: true, ..s },
                        Some(SseStepView::Item(Err(data_cap_error()))),
                    )
                } else {
                    (
                        SseState {
                            lines: s.lines.push(value),
                            data_bytes: s.data_bytes + line_size(value),
                            ..s
                        },
                        None,
                    )
                },
            }
        },
    }
}

/// Where the first line feed stands; the length where there is none.
pub open spec fn newline_at(bytes: Seq<u8>) -> nat
    decreases bytes.len(),
{
    if bytes.len() == 0 || bytes[0] == 10 {
        0
    } else {
        1 + newline_at(bytes.drop_first())
    }
}

/// A line without one carriage return at its end.
pub open spec fn without_cr(line: Seq<u8>) -> Seq<u8> {
    if line.len() > 0 && line.last() == 13 {
        line.drop_last()
    } else {
        line
    }
}

/// A text without the carriage returns at its end.
pub open spec fn without_crs(text: Seq<char>) -> Seq<char>
    decreases text.len(),
{
    if text.len() > 0 && text.last() == '\r' {
        without_crs(text.drop_last())
    } else {
        text
    }
}

/// The first line of the buffered bytes, without its end.
pub open spec fn first_line(bytes: Seq<u8>) -> Seq<u8> {
    without_cr(bytes.take(newline_at(bytes) as int))
}

/// The state without its first line.
pub open spec fn past_line(s: SseState) -> SseState {
    SseState { buf: s.buf.skip(newline_at(s.buf) as int + 1), ..s }
}

/// What the last event amounts to, as a step that ends a stream.
pub open spec fn last_step(lines: Seq<Seq<char>>) -> SseStepView {
    match step_of(event_of(lines)) {
        Some(step) => step,
        None => SseStepView::End,
    }
}

/// Ends a stream whose bytes have ended, with what is left of them. A data line that no
/// line feed ends counts like any other, and is held to the same limits.
pub open spec fn flushed(s: SseState) -> (SseState, SseStepView) {
    let end = SseState { buf: seq![], lines: seq![], data_bytes: 0, eof: true, finished: true };
    match decoded(s.buf) {
        Err(message) => (
            end,
            SseStepView::Item(
                Err(ClientErrorView::Protocol("trailing SSE line is not valid UTF-8: "@ + message)),
            ),
        ),
        Ok(tail) => (
            end,
            match data_of(without_crs(tail)) {
                Some(value) => if outgrows(s, value) {
                    SseStepView::Item(Err(data_cap_error()))
                } else {
                    last_step(s.lines.push(value))
                },
                None => last_step(s.lines),
            },
        ),
    }
}

/// What the buffered bytes give next, and the state after it.
pub open spec fn pumped(s: SseState) -> (SseState, SseStepView)
    decreases s.buf.len(),
{
    if s.finished {
        (s, SseStepView::End)
    } else if newline_at(s.buf) < s.buf.len() {
        let (next, step) = line_taken(past_line(s), decoded(first_line(s.buf)));
        match step {
            Some(given) => (next, given),
            None => pumped(next),
        }
    } else if s.eof {
        flushed(s)
    } else {
        (s, SseStepView::NeedInput)
    }
}

/// What the connection brought.
pub enum ArrivalView {
    Chunk(Seq<u8>),
    End,
    Idle,
    Failed(NetworkErrorView),
}

/// The error of a line that has outgrown the buffer.
pub open spec fn buffer_cap_error() -> ClientErrorView {
    ClientErrorView::Protocol("SSE buffer cap (16MB) exceeded — protocol fault"@)
}

/// Takes what the connection brought. An error ends the stream.
pub open spec fn arrived(s: SseState, what: ArrivalView, idle_secs: nat) -> (
    SseState,
    Option<ClientErrorView>,
) {
    match what {
        ArrivalView::Chunk(bytes) => if s.buf.len() + bytes.len() > MAX_SSE_BUFFER {
            (SseState { finished: true, ..s }, Some(buffer_cap_error()))
        } else {
            (SseState { buf: s.buf + bytes, ..s }, None)
        },
        ArrivalView::End => (SseState { eof: true, ..s }, None),
        ArrivalView::Idle => (
            SseState { finished: true, ..s },
            Some(
                ClientErrorView::Protocol(
                    "Codex SSE idle timeout ("@ + decimal_text(idle_secs)
                        + "s) — backend stopped sending data"@,
                ),
            ),
        ),
        ArrivalView::Failed(e) => (
            SseState { finished: true, ..s },
            Some(ClientErrorView::Network(e)),
        ),
    }
}

/// The limits that every state keeps.
pub open spec fn within_limits(s: SseState) -> bool {
    &&& s.buf.len() <= MAX_SSE_BUFFER
    &&& s.lines.len() <= MAX_SSE_DATA_LINES
    &&& s.data_bytes == data_size(s.lines)
    &&& s.data_bytes <= MAX_SSE_BUFFER
}

// ---------------------------------------------------------------------------
// The decoder
// ---------------------------------------------------------------------------

/// What the buffered bytes give.
#[derive(Debug)]
pub enum SseStep {
    /// The next item: an event, or the error that ends the stream.
    Item(Result<Value, ClientError>),
    /// Nothing yet: more must arrive.
    NeedInput,
    /// Nothing more.
    End,
}

/// What the connection brought.
#[derive(Debug)]
pub enum Arrival {
    /// Bytes.
    Chunk(Vec<u8>),
    /// The end of the bytes.
    End,
    /// Nothing, for as long as the stream may idle.
    Idle,
    /// A failure of the transport.
    Failed(NetworkError),
}

/// The decoder of one stream.
#[derive(Debug)]
pub struct SseDecoder {
    buf: Vec<u8>,
    start: usize,
    data_lines: Vec<String>,
    data_bytes: usize,
    eof: bool,
    finished: bool,
    idle_timeout: Duration,
}

/// The view of an item of the stream.
pub open spec fn item_view(item: Result<Value, ClientError>) -> SseItemView {
    match item {
        Ok(v) => Ok(v@),
        Err(e) => Err(e@),
    }
}

impl View for SseStep {
    type V = SseStepView;

    open spec fn view(&self) -> SseStepView {
        match self {
            SseStep::Item(item) => SseStepView::Item(item_view(*item)),
            SseStep::NeedInput => SseStepView::NeedInput,
            SseStep::End => SseStepView::End,
        }
    }
}

impl View for Arrival {
    type V = ArrivalView;

    open spec fn view(&self) -> ArrivalView {
        match self {
            Arrival::Chunk(bytes) => ArrivalView::Chunk(bytes@),
            Arrival::End => ArrivalView::End,
            Arrival::Idle => ArrivalView::Idle,
            Arrival::Failed(e) => ArrivalView::Failed(e@),
        }
    }
}

impl View for SseDecoder {
    type V = SseState;

    closed spec fn view(&self) -> SseState {
        SseState {
            buf: self.buf@.skip(self.start as int),
            lines: texts(self.data_lines@),
            data_bytes: self.data_bytes as nat,
            eof: self.eof,
            finished: self.finished,
        }
    }
}

proof fn lemma_newline_at(bytes: Seq<u8>, at: int)
    ensures
        newline_at(bytes) <= bytes.len(),
        newline_at(bytes) < bytes.len() ==> bytes[newline_at(bytes) as int] == 10,
        0 <= at <= bytes.len() && (at < bytes.len() ==> bytes[at] == 10) && (forall|i: int|
            0 <= i < at ==> #[trigger] bytes[i] != 10) ==> newline_at(bytes) == at,
        forall|i: int| 0 <= i < newline_at(bytes) ==> #[trigger] bytes[i] != 10,
    decreases bytes.len(),
{
    if bytes.len() > 0 && bytes[0] != 10 {
        let rest = bytes.drop_first();
        lemma_newline_at(rest, at - 1);
        assert forall|i: int| 0 <= i < newline_at(bytes) implies #[trigger] bytes[i] != 10 by {
            if i > 0 {
                assert(bytes[i] == rest[i - 1]);
            }
        }
        if 0 <= at <= bytes.len() && (at < bytes.len() ==> bytes[at] == 10) && (forall|i: int|
            0 <= i < at ==> #[trigger] bytes[i] != 10) {
            assert(at > 0);
            assert forall|i: int| 0 <= i < at - 1 implies #[trigger] rest[i] != 10 by {
                assert(rest[i] == bytes[i + 1]);
            }
        }
    }
}

fn copy_range(bytes: &Vec<u8>, from: usize, to: usize) -> (r: Vec<u8>)
    requires
        from <= to <= bytes@.len(),
    ensures
        r@ == bytes@.subrange(from as int, to as int),
{
    let mut out: Vec<u8> = Vec::with_capacity(to - from);
    let mut i: usize = from;
    while i < to
        invariant
            from <= i <= to <= bytes@.len(),
            out@ == bytes@.subrange(from as int, i as int),
        decreases to - i,
    {
        out.push(bytes[i]);
        i += 1;
        assert(out@ =~= bytes@.subrange(from as int, i as int));
    }
    out
}

/// The value of a `data` field line.
fn data_value(line: &str) -> (r: Option<&str>)
    ensures
        view_of(r) == data_of(line@),
{
    proof {
        reveal_strlit("data:");
        reveal_strlit(" ");
    }
    match strip_ascii_prefix(line, "data:") {
        Some(rest) => match strip_ascii_prefix(rest, " ") {
            Some(value) => Some(value),
            None => Some(rest),
        },
        None => None,
    }
}

/// Whether a data line would make an event of `data_bytes` bytes in `lines` lines outgrow
/// its limits.
fn exceeds_limits(data_bytes: usize, lines: usize, value: &str) -> (r: bool)
    ensures
        r == (data_bytes + line_size(value@) > MAX_SSE_BUFFER || lines >= MAX_SSE_DATA_LINES),
{
    let size = value.as_bytes().len().saturating_add(1);
    data_bytes.saturating_add(size) > MAX_SSE_BUFFER || lines >= MAX_SSE_DATA_LINES
}

/// The error of an event that has outgrown its limits.
fn data_cap_fault() -> (r: ClientError)
    ensures
        r@ == data_cap_error(),
{
    ClientError::protocol(
        "SSE event exceeded data cap (16MB / 65536 lines) without an event boundary — protocol fault",
    )
}

/// `text` without the carriage returns at its end.
fn trim_crs(text: &str) -> (r: String)
    ensures
        r@ == without_crs(text@),
{
    let chars = chars_of(text);
    let mut end = chars.len();
    assert(chars@.take(end as int) =~= text@);
    while end > 0 && chars[end - 1] == '\r'
        invariant
            end <= chars@.len(),
            without_crs(chars@.take(end as int)) == without_crs(text@),
        decreases end,
    {
        assert(chars@.take(end as int).drop_last() =~= chars@.take(end - 1));
        end -= 1;
    }
    let r = text_of(&chars, 0, end);
    assert(r@ =~= chars@.take(end as int));
    r
}

impl SseDecoder {
    /// The invariant of the decoder: its state keeps the limits.
    pub closed spec fn wf(self) -> bool {
        self.start <= self.buf@.len() && within_limits(self@)
    }

    /// The whole seconds that the stream may idle.
    pub closed spec fn idle_secs(self) -> nat {
        self.idle_timeout@ / NANOS_PER_SEC as nat
    }

    /// A decoder for a stream that may idle for `idle_timeout`.
    pub fn new(idle_timeout: Duration) -> (r: SseDecoder)
        ensures
            r.wf(),
            r@ == fresh(),
            r.idle_secs() == idle_timeout@ / NANOS_PER_SEC as nat,
    {
        let r = SseDecoder {
            buf: Vec::new(),
            start: 0,
            data_lines: Vec::new(),
            data_bytes: 0,
            eof: false,
            finished: false,
            idle_timeout,
        };
        assert(r@.buf =~= seq![]);
        assert(r@.lines =~= seq![]);
        r
    }

    fn find_newline(&self) -> (r: Option<usize>)
        requires
            self.wf(),
        ensures
            match r {
                Some(i) => self.start <= i < self.buf@.len() && newline_at(self@.buf) == i
                    - self.start && newline_at(self@.buf) < self@.buf.len(),
                None => newline_at(self@.buf) == self@.buf.len(),
            },
    {
        let mut i: usize = self.start;
        while i < self.buf.len()
            invariant
                self.wf(),
                self.start <= i <= self.buf@.len(),
                forall|j: int| 0 <= j < i - self.start ==> #[trigger] self@.buf[j] != 10,
            decreases self.buf@.len() - i,
        {
            if self.buf[i] == 10 {
                proof {
                    assert(self@.buf[i - self.start] == 10);
                    lemma_newline_at(self@.buf, i - self.start);
                }
                return Some(i);
            }
            assert(self@.buf[i - self.start] == self.buf@[i as int]);
            i += 1;
        }
        proof {
            lemma_newline_at(self@.buf, self@.buf.len() as int);
        }
        None
    }

    /// Takes one line of the stream, already decoded.
    pub fn accept_line(&mut self, line: Result<&str, String>) -> (r: Option<SseStep>)
        requires
            old(self).wf(),
        ensures
            final(self).wf(),
            final(self).idle_secs() == old(self).idle_secs(),
            (final(self)@, view_of(r)) == line_taken(old(self)@, decoded_view(line)),
    {
        match line {
            Err(message) => {
                self.finished = true;
                let text = "SSE line is not valid UTF-8: ".to_owned().concat(message.as_str());
                Some(SseStep::Item(Err(ClientError::Protocol(text))))
            },
            Ok(text) => {
                if text.is_empty() {
                    self.data_bytes = 0;
                    let event = take_event(&mut self.data_lines);
                    assert(texts(self.data_lines@) =~= seq![]);
                    match event {
                        None => None,
                        Some(Ok(Some(v))) => Some(SseStep::Item(Ok(v))),
                        Some(Ok(None)) => {
                            self.finished = true;
                            Some(SseStep::End)
                        },
                        Some(Err(e)) => {
                            self.finished = true;
                            Some(SseStep::Item(Err(e)))
                        },
                    }
                } else {
                    match data_value(text) {
                        None => None,
                        Some(value) => {
                            if exceeds_limits(self.data_bytes, self.data_lines.len(), value) {
                                self.finished = true;
                                return Some(SseStep::Item(Err(data_cap_fault())));
                            }
                            self.data_bytes = self.data_bytes + value.as_bytes().len() + 1;
                            self.data_lines.push(value.to_owned());
                            proof {
                                let before = texts(old(self).data_lines@);
                                let after = texts(self.data_lines@);
                                assert(after =~= before.push(value@));
                                assert(after.drop_last() =~= before);
                            }
                            None
                        },
                    }
                }
            },
        }
    }

    /// Ends a stream whose bytes have ended, with the tail that no line feed ends.
    fn flush(&mut self) -> (r: SseStep)
        requires
            old(self).wf(),
            old(self)@.eof,
        ensures
            final(self).wf(),
            final(self).idle_secs() == old(self).idle_secs(),
            (final(self)@, r@) == flushed(old(self)@),
    {
        let tail = copy_range(&self.buf, self.start, self.buf.len());
        assert(tail@ =~= self@.buf);
        self.start = self.buf.len();
        self.finished = true;
        let data_bytes = self.data_bytes;
        self.data_bytes = 0;
        let mut lines: Vec<String> = Vec::new();
        std::mem::swap(&mut lines, &mut self.data_lines);
        assert(self@.buf =~= seq![]);
        assert(self@.lines =~= seq![]);
        match from_utf8(tail.as_slice()) {
            Err(message) => {
                let text = "trailing SSE line is not valid UTF-8: ".to_owned().concat(
                    message.as_str(),
                );
                SseStep::Item(Err(ClientError::Protocol(text)))
            },
            Ok(text) => {
                let line = trim_crs(text);
                let ghost before = texts(lines@);
                match data_value(line.as_str()) {
                    Some(value) => {
                        if exceeds_limits(data_bytes, lines.len(), value) {
                            return SseStep::Item(Err(data_cap_fault()));
                        }
                        lines.push(value.to_owned());
                        assert(texts(lines@) =~= before.push(value@));
                    },
                    None => {},
                }
                match take_event(&mut lines) {
                    None => SseStep::End,
                    Some(Ok(Some(v))) => SseStep::Item(Ok(v)),
                    Some(Ok(None)) => SseStep::End,
                    Some(Err(e)) => SseStep::Item(Err(e)),
                }
            },
        }
    }

    /// What the buffered bytes give next.
    pub fn poll(&mut self) -> (r: SseStep)
        requires
            old(self).wf(),
        ensures
            final(self).wf(),
            final(self).idle_secs() == old(self).idle_secs(),
            (final(self)@, r@) == pumped(old(self)@),
    {
        loop
            invariant
                self.wf(),
                self.idle_secs() == old(self).idle_secs(),
                pumped(self@) == pumped(old(self)@),
            decreases self@.buf.len(),
        {
            if self.finished {
                return SseStep::End;
            }
            match self.find_newline() {
                Some(i) => {
                    let ghost before = self@;
                    let length = self.buf.len();
                    assert(i < length);
                    let mut end: usize = i;
                    if end > self.start && self.buf[end - 1] == 13 {
                        end -= 1;
                    }
                    let line = copy_range(&self.buf, self.start, end);
                    proof {
                        let n = newline_at(before.buf) as int;
                        assert(before.buf.take(n) =~= self.buf@.subrange(
                            self.start as int,
                            i as int,
                        ));
                        assert(line@ =~= first_line(before.buf));
                    }
                    self.start = i + 1;
                    assert(self@.buf =~= past_line(before).buf);
                    assert(self@ == past_line(before));
                    let step = self.accept_line(from_utf8(line.as_slice()));
                    match step {
                        Some(given) => {
                            return given;
                        },
                        None => {},
                    }
                },
                None => {
                    if self.eof {
                        return self.flush();
                    }
                    return SseStep::NeedInput;
                },
            }
        }
    }

    /// Takes what the connection brought. An error ends the stream.
    pub fn arrive(&mut self, what: Arrival) -> (r: Option<ClientError>)
        requires
            old(self).wf(),
        ensures
            final(self).wf(),
            final(self).idle_secs() == old(self).idle_secs(),
            (final(self)@, view_of(r)) == arrived(old(self)@, what@, old(self).idle_secs()),
    {
        match what {
            Arrival::Chunk(bytes) => {
                let mut chunk = bytes;
                if (self.buf.len() - self.start).saturating_add(chunk.len()) > MAX_SSE_BUFFER {
                    self.finished = true;
                    return Some(
                        ClientError::protocol("SSE buffer cap (16MB) exceeded — protocol fault"),
                    );
                }
                let mut rest = self.buf.split_off(self.start);
                rest.append(&mut chunk);
                self.buf = rest;
                self.start = 0;
                assert(self@.buf =~= old(self)@.buf + bytes@);
                None
            },
            Arrival::End => {
                self.eof = true;
                None
            },
            Arrival::Idle => {
                self.finished = true;
                let text = "Codex SSE idle timeout (".to_owned().concat(
                    decimal(self.idle_timeout.as_secs()).as_str(),
                ).concat("s) — backend stopped sending data");
                Some(ClientError::Protocol(text))
            },
            Arrival::Failed(e) => {
                self.finished = true;
                Some(ClientError::Network(e))
            },
        }
    }
}

} // verus!
