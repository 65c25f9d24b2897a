//! The reader of a streaming completion.
//!
//! The inference server answers with server-sent events: frames that a blank
//! line ends, and in each frame lines that begin with `data: ` and carry JSON
//! or the sentinel `[DONE]`. The reader takes the response body chunk by
//! chunk, however the transport cut it, and turns it into generation events.

use vstd::prelude::*;
use vstd::slice::slice_subrange;
use crate::filter::{lossy_text, text_of_bytes};
use crate::text::{
    append_bytes, bytes_equal, contains, contains_bytes, find, first_occurrence, has_prefix,
    lemma_first_occurrence, occurs_at, opt_text, skip_whitespace, skip_whitespace_back,
    starts_with, str_eq, trim_range, trimmed, whitespace_width, whitespace_width_before,
};
use vstd::string::{StrSliceExecFns, StringSliceAdditionalSpecFns};

verus! {

/// What the reader of a stream hands to the scheduler.
#[derive(Clone, Debug, PartialEq, Eq)]
pub enum GenerationEvent {
    /// A piece of generated text.
    Token(String),
    /// The generation is complete.
    Done,
    /// The generation was cancelled.
    Cancelled,
    /// The generation failed.
    Error(String),
}

/// A generation event as plain values.
pub enum EventModel {
    Token(Seq<char>),
    Done,
    Cancelled,
    Error(Seq<char>),
}

impl View for GenerationEvent {
    type V = EventModel;

    open spec fn view(&self) -> EventModel {
        match self {
            GenerationEvent::Token(text) => EventModel::Token(text@),
            GenerationEvent::Done => EventModel::Done,
            GenerationEvent::Cancelled => EventModel::Cancelled,
            GenerationEvent::Error(text) => EventModel::Error(text@),
        }
    }
}

/// The events that a vector of events holds, as plain values.
pub open spec fn event_views(events: Seq<GenerationEvent>) -> Seq<EventModel> {
    events.map_values(|event: GenerationEvent| event@)
}

/// What the reader needs from one JSON chunk of a streaming completion.
#[derive(Clone, Debug, PartialEq, Eq)]
pub struct ChunkFields {
    /// `choices[0].delta.content`, where it is a string.
    pub content: Option<String>,
    /// `choices[0].finish_reason`, where it is a string.
    pub finish_reason: Option<String>,
}

/// The fields of a chunk as plain values.
pub struct ChunkModel {
    pub content: Option<Seq<char>>,
    pub finish_reason: Option<Seq<char>>,
}

impl View for ChunkFields {
    type V = ChunkModel;

    open spec fn view(&self) -> ChunkModel {
        ChunkModel {
            content: opt_text(self.content),
            finish_reason: opt_text(self.finish_reason),
        }
    }
}

/// What `serde_json` reads from a data payload: nothing where the payload is
/// not JSON, else the two fields of the chunk.
pub uninterp spec fn chunk_of_json(data: Seq<char>) -> Option<ChunkModel>;

/// `serde_json::from_str` into a `serde_json::Value`, then the value's
/// indexing and `Value::as_str` along `choices[0].delta.content` and
/// `choices[0].finish_reason`. A payload that is not JSON gives nothing; a
/// field that is missing, or is no string, is absent. Indexing a value never
/// fails: what is not there is null, and null is no string.
#[verifier::external_body]
fn read_chunk(data: &str) -> (fields: Option<ChunkFields>)
    ensures
        match fields {
            Some(f) => chunk_of_json(data@) == Some(f@),
            None => chunk_of_json(data@) is None,
        },
{
    let json = serde_json::from_str::<serde_json::Value>(data).ok()?;
    let choice = &json["choices"][0];
    Some(ChunkFields {
        content: choice["delta"]["content"].as_str().map(str::to_owned),
        finish_reason: choice["finish_reason"].as_str().map(str::to_owned),
    })
}

/// The events of a part of the stream, and whether the stream is finished
/// with them.
pub struct Outcome {
    pub events: Seq<EventModel>,
    pub finished: bool,
}

/// No event, and the stream goes on.
pub open spec fn nothing() -> Outcome {
    Outcome { events: Seq::empty(), finished: false }
}

/// The outcome `first`, followed by `rest` where `first` does not finish the
/// stream.
pub open spec fn followed_by(first: Outcome, rest: Outcome) -> Outcome {
    if first.finished {
        first
    } else {
        Outcome { events: first.events + rest.events, finished: rest.finished }
    }
}

/// The events of one chunk: a token for content that is not empty, and the
/// end of the stream for the finish reasons `stop` and `length`.
pub open spec fn chunk_outcome(chunk: ChunkModel) -> Outcome {
    let tokens = match chunk.content {
        Some(text) => if text.len() > 0 {
            seq![EventModel::Token(text)]
        } else {
            Seq::empty()
        },
        None => Seq::empty(),
    };
    if chunk.finish_reason == Some("stop"@) || chunk.finish_reason == Some("length"@) {
        Outcome { events: tokens + seq![EventModel::Done], finished: true }
    } else {
        Outcome { events: tokens, finished: false }
    }
}

/// The sentinel `[DONE]`.
pub open spec fn done_sentinel() -> Seq<u8> {
    seq!['[' as u8, 'D' as u8, 'O' as u8, 'N' as u8, 'E' as u8, ']' as u8]
}

/// The prefix `data: ` of a data line.
pub open spec fn data_prefix() -> Seq<u8> {
    seq!['d' as u8, 'a' as u8, 't' as u8, 'a' as u8, ':' as u8, ' ' as u8]
}

/// The blank line that ends a frame.
pub open spec fn frame_end() -> Seq<u8> {
    seq![0x0Au8, 0x0Au8]
}

/// The events of one data payload, trimmed: the sentinel ends the stream, an
/// empty payload and one that is not JSON give nothing, and a JSON chunk gives
/// the events of its fields.
pub open spec fn payload_outcome(data: Seq<u8>) -> Outcome {
    if data == done_sentinel() {
        Outcome { events: seq![EventModel::Done], finished: true }
    } else if data.len() == 0 {
        nothing()
    } else {
        match chunk_of_json(lossy_text(data)) {
            Some(chunk) => chunk_outcome(chunk),
            None => nothing(),
        }
    }
}

/// The events of one line of a frame: those of its payload where the line
/// begins with `data: `, none otherwise.
pub open spec fn line_outcome(line: Seq<u8>) -> Outcome {
    if starts_with(line, data_prefix()) {
        payload_outcome(trimmed(line.subrange(data_prefix().len() as int, line.len() as int)))
    } else {
        nothing()
    }
}

/// Where the line that begins at `from` ends: at the next line feed, or at
/// the end of the frame.
pub open spec fn line_end(frame: Seq<u8>, from: int) -> int
    decreases frame.len() - from + 1,
{
    if from < 0 || from >= frame.len() {
        frame.len() as int
    } else if frame[from] == 0x0Au8 {
        from
    } else {
        line_end(frame, from + 1)
    }
}

/// The events of the lines of a frame from `from` on, up to the line that
/// finishes the stream.
pub open spec fn frame_outcome_from(frame: Seq<u8>, from: int) -> Outcome
    decreases frame.len() - from + 1,
{
    if from < 0 || from >= frame.len() {
        nothing()
    } else {
        let end = line_end(frame, from);
        if end < from || end > frame.len() {
            nothing()
        } else {
            followed_by(
                line_outcome(frame.subrange(from, end)),
                frame_outcome_from(frame, end + 1),
            )
        }
    }
}

/// The events of a frame.
pub open spec fn frame_outcome(frame: Seq<u8>) -> Outcome {
    frame_outcome_from(frame, 0)
}

/// What is left of a buffer once its complete frames are read, and what they
/// gave.
pub struct Drained {
    pub rest: Seq<u8>,
    pub outcome: Outcome,
}

/// Reads the complete frames of `buffer`, one after the other, up to the
/// frame that finishes the stream.
pub open spec fn drain(buffer: Seq<u8>) -> Drained
    decreases buffer.len(),
{
    match first_occurrence(buffer, frame_end()) {
        Some(at) => {
            if 0 <= at && at + 2 <= buffer.len() {
                let first = frame_outcome(buffer.subrange(0, at));
                let after = buffer.subrange(at + 2, buffer.len() as int);
                if first.finished {
                    Drained { rest: after, outcome: first }
                } else {
                    let later = drain(after);
                    Drained { rest: later.rest, outcome: followed_by(first, later.outcome) }
                }
            } else {
                Drained { rest: buffer, outcome: nothing() }
            }
        },
        None => Drained { rest: buffer, outcome: nothing() },
    }
}

/// The state of a reader as plain values.
pub struct ReaderModel {
    pub buffer: Seq<u8>,
    pub saw_token: bool,
    pub finished: bool,
}

/// The events hold a token.
pub open spec fn has_token(events: Seq<EventModel>) -> bool {
    exists|i: int| 0 <= i < events.len() && (#[trigger] events[i]) is Token
}

/// The reader after the chunk `bytes` has arrived, and the events of the
/// chunk. A finished reader takes nothing in and holds nothing.
pub open spec fn after_chunk(m: ReaderModel, bytes: Seq<u8>) -> (ReaderModel, Seq<EventModel>) {
    if m.finished {
        (m, Seq::empty())
    } else {
        let d = drain(m.buffer + bytes);
        (
            ReaderModel {
                buffer: if d.outcome.finished {
                    Seq::empty()
                } else {
                    d.rest
                },
                saw_token: m.saw_token || has_token(d.outcome.events),
                finished: d.outcome.finished,
            },
            d.outcome.events,
        )
    }
}

/// The reader after the chunks have arrived one after the other, and the
/// events of all of them, in order.
pub open spec fn after_chunks(m: ReaderModel, chunks: Seq<Seq<u8>>) -> (ReaderModel, Seq<EventModel>)
    decreases chunks.len(),
{
    if chunks.len() == 0 {
        (m, Seq::empty())
    } else {
        let before = after_chunks(m, chunks.drop_last());
        let last = after_chunk(before.0, chunks.last());
        (last.0, before.1 + last.1)
    }
}

/// What a transport error says when the body ends in the middle of a chunk.
pub open spec fn decode_error_text() -> Seq<u8> {
    "error decoding response body".spec_bytes()
}

/// The event for a transport error with the message `message`: a decode
/// error after at least one token is a benign truncation and ends the
/// stream; any other error is reported.
pub open spec fn error_event(m: ReaderModel, message: Seq<char>, bytes: Seq<u8>) -> EventModel {
    if contains(bytes, decode_error_text()) && m.saw_token {
        EventModel::Done
    } else {
        EventModel::Error(message)
    }
}

/// Reading in one piece and in two pieces comes to the same: the frames of
/// `buffer + more` are those of `buffer`, and then those of what `buffer`
/// left together with `more`.
pub proof fn lemma_drain_in_pieces(buffer: Seq<u8>, more: Seq<u8>)
    ensures
        !drain(buffer).outcome.finished ==> drain(buffer + more).rest == drain(
            drain(buffer).rest + more,
        ).rest && drain(buffer + more).outcome == followed_by(
            drain(buffer).outcome,
            drain(drain(buffer).rest + more).outcome,
        ),
        drain(buffer).outcome.finished ==> drain(buffer + more).outcome == drain(buffer).outcome,
    decreases buffer.len(),
{
    let end = frame_end();
    lemma_first_occurrence(buffer, end);
    lemma_first_occurrence(buffer + more, end);
    match first_occurrence(buffer, end) {
        Some(at) => {
            // The first frame end of the buffer is the first of the longer input too.
            assert(occurs_at(buffer + more, end, at)) by {
                assert((buffer + more).subrange(at, at + 2) =~= buffer.subrange(at, at + 2));
            }
            assert forall|j: int| 0 <= j < at implies !occurs_at(buffer + more, end, j) by {
                if occurs_at(buffer + more, end, j) {
                    assert((buffer + more).subrange(j, j + 2) =~= buffer.subrange(j, j + 2));
                    assert(occurs_at(buffer, end, j));
                }
            }
            assert(first_occurrence(buffer + more, end) == Some(at));
            let after = buffer.subrange(at + 2, buffer.len() as int);
            assert((buffer + more).subrange(0, at) =~= buffer.subrange(0, at));
            assert((buffer + more).subrange(at + 2, (buffer + more).len() as int) =~= after + more);
            let first = frame_outcome(buffer.subrange(0, at));
            if !first.finished {
                lemma_drain_in_pieces(after, more);
                let a = drain(after);
                if !a.outcome.finished {
                    let b = drain(a.rest + more);
                    assert(followed_by(first, followed_by(a.outcome, b.outcome)).events
                        =~= followed_by(followed_by(first, a.outcome), b.outcome).events);
                }
            }
        },
        None => {
            assert(drain(buffer).rest == buffer);
            assert(followed_by(nothing(), drain(buffer + more).outcome).events =~= drain(
                buffer + more,
            ).outcome.events);
        },
    }
}

/// A frame that spans chunk boundaries is reassembled: taking in the chunk
/// `a` and then the chunk `b` leaves the reader where taking in `a + b` at
/// once leaves it, and gives the same events in the same order.
pub proof fn lemma_chunk_boundaries_do_not_matter(m: ReaderModel, a: Seq<u8>, b: Seq<u8>)
    ensures
        after_chunk(after_chunk(m, a).0, b).0 == after_chunk(m, a + b).0,
        after_chunk(m, a).1 + after_chunk(after_chunk(m, a).0, b).1 == after_chunk(m, a + b).1,
{
    if m.finished {
        assert(Seq::<EventModel>::empty() + Seq::<EventModel>::empty() =~= Seq::<
            EventModel,
        >::empty());
    } else {
        lemma_drain_in_pieces(m.buffer + a, b);
        assert((m.buffer + a) + b =~= m.buffer + (a + b));
        let first = drain(m.buffer + a);
        let whole = drain(m.buffer + (a + b));
        if first.outcome.finished {
            assert(first.outcome.events + Seq::<EventModel>::empty() =~= first.outcome.events);
        } else {
            let second = drain(first.rest + b);
            let e1 = first.outcome.events;
            let e2 = second.outcome.events;
            assert(has_token(e1 + e2) <==> has_token(e1) || has_token(e2)) by {
                if has_token(e1 + e2) {
                    let i = choose|i: int| 0 <= i < (e1 + e2).len() && (#[trigger] (e1 + e2)[i]) is Token;
                    if i < e1.len() {
                        assert(e1[i] is Token);
                    } else {
                        assert(e2[i - e1.len()] is Token);
                    }
                }
                if has_token(e1) {
                    let i = choose|i: int| 0 <= i < e1.len() && (#[trigger] e1[i]) is Token;
                    assert((e1 + e2)[i] is Token);
                }
                if has_token(e2) {
                    let i = choose|i: int| 0 <= i < e2.len() && (#[trigger] e2[i]) is Token;
                    assert((e1 + e2)[i + e1.len()] is Token);
                }
            }
        }
    }
}

/// A data line that carries the sentinel ends the stream, whatever else the
/// stream held: its only event is the end.
pub proof fn lemma_done_sentinel_ends_the_stream()
    ensures
        payload_outcome(done_sentinel()).finished,
        payload_outcome(done_sentinel()).events == seq![EventModel::Done],
{
}

/// The frame that holds nothing but the data line with the sentinel:
/// `data: [DONE]`.
pub open spec fn sentinel_frame() -> Seq<u8> {
    data_prefix() + done_sentinel()
}

/// A frame without a line feed is one line.
pub proof fn lemma_one_line(frame: Seq<u8>, from: int)
    requires
        0 <= from <= frame.len(),
        forall|i: int| 0 <= i < frame.len() ==> frame[i] != 0x0Au8,
    ensures
        line_end(frame, from) == frame.len(),
    decreases frame.len() - from,
{
    if from < frame.len() {
        lemma_one_line(frame, from + 1);
    }
}

/// The frame with the sentinel ends the stream: its only event is the
/// end.
pub proof fn lemma_sentinel_frame_ends_the_stream()
    ensures
        frame_outcome(sentinel_frame()).finished,
        frame_outcome(sentinel_frame()).events == seq![EventModel::Done],
        forall|i: int| 0 <= i < sentinel_frame().len() ==> sentinel_frame()[i] != 0x0Au8,
{
    let frame = sentinel_frame();
    let data = done_sentinel();
    assert(frame.len() == 12);
    assert(frame.subrange(0, 6) =~= data_prefix());
    assert(frame.subrange(6, 12) =~= data);
    assert(whitespace_width(data, 0) == 0);
    assert(skip_whitespace(data, 0) == 0);
    assert(whitespace_width_before(data, 6) == 0);
    assert(skip_whitespace_back(data, 0, 6) == 6);
    assert(trimmed(data) =~= data);
    assert(line_outcome(frame) == payload_outcome(data));
    lemma_one_line(frame, 0);
    assert(frame.subrange(0, 12) =~= frame);
    assert(frame_outcome_from(frame, 0) == followed_by(
        line_outcome(frame),
        frame_outcome_from(frame, 13),
    ));
}

/// A frame without a line feed that is followed by a blank line ends where
/// that blank line begins.
pub proof fn lemma_frame_ends_at_blank_line(frame: Seq<u8>, after: Seq<u8>)
    requires
        forall|i: int| 0 <= i < frame.len() ==> frame[i] != 0x0Au8,
    ensures
        first_occurrence(frame + frame_end() + after, frame_end()) == Some(frame.len() as int),
{
    let body = frame + frame_end() + after;
    let end = frame_end();
    let n = frame.len() as int;
    assert(end.len() == 2);
    assert(body.len() == n + 2 + after.len());
    assert(body[n] == 0x0Au8);
    assert(body[n + 1] == 0x0Au8);
    let found = body.subrange(n, n + 2);
    assert(found.len() == 2 && found[0] == end[0] && found[1] == end[1]);
    assert(found =~= end);
    assert(occurs_at(body, end, n));
    lemma_first_occurrence(body, end);
    match first_occurrence(body, end) {
        Some(at) => {
            if at < n {
                assert(occurs_at(body, end, at));
                assert(body.subrange(at, at + 2)[0] == end[0]);
                assert(body[at] == frame[at]);
                assert(false);
            }
            if at > n {
                assert(!occurs_at(body, end, n));
                assert(false);
            }
        },
        None => {
            assert(!occurs_at(body, end, n));
            assert(false);
        },
    }
}

/// A single sentinel ends the stream, whatever the frames before it held
/// and whatever follows it. Where the frames of `before` are complete and do
/// not finish the stream, the body that holds them, then the frame
/// `data: [DONE]` and then anything else gives the events of the frames before,
/// then exactly one end of the stream, and nothing of what follows.
pub proof fn lemma_sentinel_ends_the_body(before: Seq<u8>, after: Seq<u8>)
    requires
        !drain(before).outcome.finished,
        drain(before).rest.len() == 0,
    ensures
        drain(before + (sentinel_frame() + frame_end() + after)).outcome.finished,
        drain(before + (sentinel_frame() + frame_end() + after)).outcome.events == drain(
            before,
        ).outcome.events + seq![EventModel::Done],
{
    let frame = sentinel_frame();
    let more = frame + frame_end() + after;
    lemma_sentinel_frame_ends_the_stream();
    lemma_frame_ends_at_blank_line(frame, after);
    assert(more.subrange(0, frame.len() as int) =~= frame);
    assert(drain(more).outcome == frame_outcome(frame));
    lemma_drain_in_pieces(before, more);
    assert(drain(before).rest + more =~= more);
}

/// No event follows the end of the stream: a reader that is finished gives
/// no event for any chunks that still arrive, and stays finished.
pub proof fn lemma_nothing_follows_the_end(m: ReaderModel, chunks: Seq<Seq<u8>>)
    requires
        m.finished,
    ensures
        after_chunks(m, chunks).0 == m,
        after_chunks(m, chunks).1.len() == 0,
    decreases chunks.len(),
{
    if chunks.len() > 0 {
        lemma_nothing_follows_the_end(m, chunks.drop_last());
        assert(after_chunks(m, chunks.drop_last()).1 + Seq::<EventModel>::empty() =~= Seq::<
            EventModel,
        >::empty());
    }
}

/// A reader that takes in a body with the sentinel is finished then: a
/// fresh reader gives the events of the frames before the sentinel and one
/// end of the stream, and no event for whatever arrives later.
pub proof fn lemma_reader_ends_at_the_sentinel(before: Seq<u8>, after: Seq<u8>, later: Seq<Seq<u8>>)
    requires
        !drain(before).outcome.finished,
        drain(before).rest.len() == 0,
    ensures
        ({
            let body = before + (sentinel_frame() + frame_end() + after);
            let fresh = ReaderModel { buffer: Seq::empty(), saw_token: false, finished: false };
            let read = after_chunk(fresh, body);
            &&& read.0.finished
            &&& read.1 == drain(before).outcome.events + seq![EventModel::Done]
            &&& after_chunks(read.0, later).0 == read.0
            &&& after_chunks(read.0, later).1.len() == 0
        }),
{
    let body = before + (sentinel_frame() + frame_end() + after);
    let fresh = ReaderModel { buffer: Seq::empty(), saw_token: false, finished: false };
    lemma_sentinel_ends_the_body(before, after);
    assert(fresh.buffer + body =~= body);
    lemma_nothing_follows_the_end(after_chunk(fresh, body).0, later);
}

/// The events of one chunk, and whether they finish the stream.
pub fn chunk_events(fields: &ChunkFields) -> (out: (Vec<GenerationEvent>, bool))
    ensures
        event_views(out.0@) == chunk_outcome(fields@).events,
        out.1 == chunk_outcome(fields@).finished,
{
    let mut events: Vec<GenerationEvent> = Vec::new();
    assert(event_views(events@) =~= Seq::<EventModel>::empty());
    match &fields.content {
        Some(text) => {
            if text.as_str().unicode_len() > 0 {
                events.push(GenerationEvent::Token(text.clone()));
                assert(event_views(events@) =~= seq![EventModel::Token(text@)]);
            }
        },
        None => {},
    }
    let ghost tokens = event_views(events@);
    let finished = match &fields.finish_reason {
        Some(reason) => str_eq(reason.as_str(), "stop") || str_eq(reason.as_str(), "length"),
        None => false,
    };
    if finished {
        events.push(GenerationEvent::Done);
        assert(event_views(events@) =~= tokens + seq![EventModel::Done]);
    }
    (events, finished)
}

/// The bytes of the sentinel `[DONE]`.
fn done_bytes() -> (bytes: Vec<u8>)
    ensures
        bytes@ == done_sentinel(),
{
    let bytes: Vec<u8> = vec!['[' as u8, 'D' as u8, 'O' as u8, 'N' as u8, 'E' as u8, ']' as u8];
    assert(bytes@ =~= done_sentinel());
    bytes
}

/// The bytes of the prefix `data: `.
fn prefix_bytes() -> (bytes: Vec<u8>)
    ensures
        bytes@ == data_prefix(),
{
    let bytes: Vec<u8> = vec!['d' as u8, 'a' as u8, 't' as u8, 'a' as u8, ':' as u8, ' ' as u8];
    assert(bytes@ =~= data_prefix());
    bytes
}

/// The events of one data payload, and whether they finish the stream.
pub fn payload_events(data: &[u8]) -> (out: (Vec<GenerationEvent>, bool))
    ensures
        event_views(out.0@) == payload_outcome(data@).events,
        out.1 == payload_outcome(data@).finished,
{
    let sentinel = done_bytes();
    if bytes_equal(data, sentinel.as_slice()) {
        let mut events: Vec<GenerationEvent> = Vec::new();
        events.push(GenerationEvent::Done);
        assert(event_views(events@) =~= seq![EventModel::Done]);
        return (events, true);
    }
    if data.len() == 0 {
        let events: Vec<GenerationEvent> = Vec::new();
        assert(event_views(events@) =~= Seq::<EventModel>::empty());
        return (events, false);
    }
    let text = text_of_bytes(data);
    match read_chunk(text.as_str()) {
        Some(fields) => chunk_events(&fields),
        None => {
            let events: Vec<GenerationEvent> = Vec::new();
            assert(event_views(events@) =~= Seq::<EventModel>::empty());
            (events, false)
        },
    }
}

/// The events of one line of a frame, and whether they finish the stream.
pub fn line_events(line: &[u8]) -> (out: (Vec<GenerationEvent>, bool))
    ensures
        event_views(out.0@) == line_outcome(line@).events,
        out.1 == line_outcome(line@).finished,
{
    let prefix = prefix_bytes();
    if has_prefix(line, prefix.as_slice()) {
        let payload = slice_subrange(line, 6, line.len());
        let (start, end) = trim_range(payload);
        payload_events(slice_subrange(payload, start, end))
    } else {
        let events: Vec<GenerationEvent> = Vec::new();
        assert(event_views(events@) =~= Seq::<EventModel>::empty());
        (events, false)
    }
}

/// Where the line that begins at `from` ends.
fn find_line_end(frame: &[u8], from: usize) -> (end: usize)
    requires
        from <= frame.len(),
    ensures
        end == line_end(frame@, from as int),
        from <= end <= frame.len(),
{
    let mut at = from;
    while at < frame.len() && frame[at] != 0x0A
        invariant
            from <= at <= frame.len(),
            line_end(frame@, from as int) == line_end(frame@, at as int),
        decreases frame.len() - at,
    {
        at += 1;
    }
    at
}

/// Moves the events of `more` to the end of `events`.
fn append_events(events: &mut Vec<GenerationEvent>, more: Vec<GenerationEvent>)
    ensures
        event_views(final(events)@) == event_views(old(events)@) + event_views(more@),
{
    let ghost added = more@;
    let mut more = more;
    events.append(&mut more);
    assert(event_views(events@) =~= event_views(old(events)@) + event_views(added));
}

/// The events of a frame, and whether they finish the stream.
pub fn frame_events(frame: &[u8]) -> (out: (Vec<GenerationEvent>, bool))
    ensures
        event_views(out.0@) == frame_outcome(frame@).events,
        out.1 == frame_outcome(frame@).finished,
{
    let mut events: Vec<GenerationEvent> = Vec::new();
    let mut from: usize = 0;
    assert(event_views(events@) =~= Seq::<EventModel>::empty());
    assert(Seq::<EventModel>::empty() + frame_outcome(frame@).events =~= frame_outcome(
        frame@,
    ).events);
    while from < frame.len()
        invariant
            from <= frame.len() + 1,
            frame_outcome(frame@) == followed_by(
                Outcome { events: event_views(events@), finished: false },
                frame_outcome_from(frame@, from as int),
            ),
        decreases frame.len() + 1 - from,
    {
        let end = find_line_end(frame, from);
        let (more, finished) = line_events(slice_subrange(frame, from, end));
        let ghost before = event_views(events@);
        let ghost tail = frame_outcome_from(frame@, end + 1);
        append_events(&mut events, more);
        proof {
            assert((before + event_views(more@)) + tail.events =~= before + (event_views(more@)
                + tail.events));
        }
        if finished {
            return (events, true);
        }
        if end >= frame.len() {
            proof {
                assert(event_views(events@) + Seq::<EventModel>::empty() =~= event_views(
                    events@,
                ));
            }
            return (events, false);
        }
        from = end + 1;
    }
    proof {
        assert(event_views(events@) + Seq::<EventModel>::empty() =~= event_views(events@));
    }
    (events, false)
}

/// The bytes of the blank line that ends a frame.
fn frame_end_bytes() -> (bytes: Vec<u8>)
    ensures
        bytes@ == frame_end(),
{
    let bytes: Vec<u8> = vec![0x0Au8, 0x0Au8];
    assert(bytes@ =~= frame_end());
    bytes
}

/// Tells whether the events hold a token.
pub fn holds_token(events: &Vec<GenerationEvent>) -> (found: bool)
    ensures
        found == has_token(event_views(events@)),
{
    let mut i: usize = 0;
    while i < events.len()
        invariant
            i <= events.len(),
            forall|j: int| 0 <= j < i ==> !((#[trigger] event_views(events@)[j]) is Token),
        decreases events.len() - i,
    {
        match &events[i] {
            GenerationEvent::Token(_) => {
                assert(event_views(events@)[i as int] is Token);
                return true;
            },
            _ => {},
        }
        i += 1;
    }
    false
}

/// The reader of one streaming completion.
#[derive(Clone, Debug, PartialEq, Eq)]
pub struct SseReader {
    /// What has arrived and belongs to no complete frame yet.
    pub buffer: Vec<u8>,
    /// A token has been handed out.
    pub saw_token: bool,
    /// The stream is finished.
    pub finished: bool,
}

impl View for SseReader {
    type V = ReaderModel;

    open spec fn view(&self) -> ReaderModel {
        ReaderModel { buffer: self.buffer@, saw_token: self.saw_token, finished: self.finished }
    }
}

/// What is reported when no chunk arrives for 15 seconds.
pub open spec fn stall_message() -> Seq<char> {
    "Generation stalled: No data received from model for 15 seconds"@
}

/// How a stream ends: a reader that is not finished hands out the event
/// `last` and is finished then; a reader that is finished already hands out
/// nothing and stays as it is, so that no event follows the last one.
pub open spec fn ends_with_event(
    before: ReaderModel,
    after: ReaderModel,
    event: Option<GenerationEvent>,
    last: EventModel,
) -> bool {
    if before.finished {
        event is None && after == before
    } else {
        event is Some && event->0@ == last && after == (ReaderModel { finished: true, ..before })
    }
}

impl SseReader {
    /// A reader at the start of a stream.
    pub fn new() -> (reader: SseReader)
        ensures
            reader@.buffer == Seq::<u8>::empty(),
            !reader@.saw_token,
            !reader@.finished,
    {
        SseReader { buffer: Vec::new(), saw_token: false, finished: false }
    }

    /// Takes in a chunk of the response body and hands out the events of
    /// the frames that it completes.
    pub fn on_chunk(&mut self, bytes: &[u8]) -> (events: Vec<GenerationEvent>)
        ensures
            final(self)@ == after_chunk(old(self)@, bytes@).0,
            event_views(events@) == after_chunk(old(self)@, bytes@).1,
    {
        let mut events: Vec<GenerationEvent> = Vec::new();
        assert(event_views(events@) =~= Seq::<EventModel>::empty());
        if self.finished {
            return events;
        }
        append_bytes(&mut self.buffer, bytes);
        let ghost whole = self.buffer@;
        let separator = frame_end_bytes();
        let mut finished = false;
        assert(Seq::<EventModel>::empty() + drain(whole).outcome.events =~= drain(
            whole,
        ).outcome.events);
        loop
            invariant_except_break
                !finished,
                drain(whole).outcome == followed_by(
                    Outcome { events: event_views(events@), finished: false },
                    drain(self.buffer@).outcome,
                ),
                !drain(whole).outcome.finished ==> drain(whole).rest == drain(self.buffer@).rest,
            invariant
                whole == old(self)@.buffer + bytes@,
                !old(self).finished,
                self.saw_token == old(self).saw_token,
                self.finished == old(self).finished,
                separator@ == frame_end(),
            ensures
                finished == drain(whole).outcome.finished,
                event_views(events@) == drain(whole).outcome.events,
                !finished ==> self.buffer@ == drain(whole).rest,
                whole == old(self)@.buffer + bytes@,
                !old(self).finished,
                self.saw_token == old(self).saw_token,
            decreases self.buffer.len(),
        {
            proof {
                lemma_first_occurrence(self.buffer@, separator@);
            }
            match find(self.buffer.as_slice(), separator.as_slice()) {
                Some(at) => {
                    let (more, done) = frame_events(slice_subrange(self.buffer.as_slice(), 0, at));
                    let ghost before = event_views(events@);
                    let ghost current = self.buffer@;
                    let after = self.buffer.split_off(at + 2);
                    self.buffer = after;
                    append_events(&mut events, more);
                    proof {
                        let later = drain(current.subrange(at + 2, current.len() as int));
                        assert((before + event_views(more@)) + later.outcome.events =~= before + (
                        event_views(more@) + later.outcome.events));
                    }
                    if done {
                        finished = true;
                        break;
                    }
                },
                None => {
                    proof {
                        assert(event_views(events@) + Seq::<EventModel>::empty() =~= event_views(
                            events@,
                        ));
                    }
                    break;
                },
            }
        }
        if holds_token(&events) {
            self.saw_token = true;
        }
        if finished {
            self.finished = true;
            self.buffer = Vec::new();
        }
        events
    }

    /// The stream ended of itself: the generation is complete. A reader
    /// that is finished already hands out nothing and stays as it is.
    pub fn on_end(&mut self) -> (event: Option<GenerationEvent>)
        ensures
            ends_with_event(old(self)@, final(self)@, event, EventModel::Done),
    {
        if self.finished {
            return None;
        }
        self.finished = true;
        Some(GenerationEvent::Done)
    }

    /// The transport failed with the message `message`: a decode error after
    /// at least one token ends the stream as complete; any other error is
    /// reported with its message. A reader that is finished already hands out
    /// nothing and stays as it is.
    pub fn on_error(&mut self, message: &str) -> (event: Option<GenerationEvent>)
        ensures
            ends_with_event(
                old(self)@,
                final(self)@,
                event,
                error_event(old(self)@, message@, message.spec_bytes()),
            ),
    {
        if self.finished {
            return None;
        }
        self.finished = true;
        if self.saw_token && contains_bytes(
            message.as_bytes(),
            "error decoding response body".as_bytes(),
        ) {
            Some(GenerationEvent::Done)
        } else {
            Some(GenerationEvent::Error(message.to_owned()))
        }
    }

    /// No chunk arrived within the stall watchdog's time: the generation
    /// failed as stalled. A reader that is finished already hands out nothing
    /// and stays as it is.
    pub fn on_stall(&mut self) -> (event: Option<GenerationEvent>)
        ensures
            ends_with_event(old(self)@, final(self)@, event, EventModel::Error(stall_message())),
    {
        if self.finished {
            return None;
        }
        self.finished = true;
        Some(
            GenerationEvent::Error(
                "Generation stalled: No data received from model for 15 seconds".to_owned(),
            ),
        )
    }

    /// The generation was cancelled. A reader that is finished already
    /// hands out nothing and stays as it is.
    pub fn on_cancel(&mut self) -> (event: Option<GenerationEvent>)
        ensures
            ends_with_event(old(self)@, final(self)@, event, EventModel::Cancelled),
    {
        if self.finished {
            return None;
        }
        self.finished = true;
        Some(GenerationEvent::Cancelled)
    }
}

} // verus!
