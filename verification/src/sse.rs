//! Decoding of server-sent event streams into canonical stream events, as a
//! state machine over the bytes of the response body.
//!
//! The caller feeds the chunks of the body as they arrive and says when the
//! body has ended. What comes out does not depend on where the chunks were
//! cut.

use crate::model::{
    events_view, views, ForgeError, ForgeErrorView, StreamEvent, StreamEventView,
};
use crate::text::{
    blank, concat2, decode_utf8_bytes, is_blank, join, join_strings, owned, str_eq, strip_cr,
    strip_prefix, strip_prefix_str, texts, trim, trim_str, utf8_error_text,
};
use vstd::prelude::*;
use vstd::slice::slice_subrange;
use vstd::utf8::{decode_utf8, valid_utf8};

verus! {

/// The provider whose stream is decoded.
#[derive(Debug, Clone, Copy, PartialEq, Eq)]
pub enum Provider {
    OpenAi,
    Anthropic,
    Gemini,
}

/// The state of a decoder: the bytes of the line under way, the name and
/// the data lines of the record under way, and whether the stream has
/// ended.
pub struct DecoderState {
    pub provider: Provider,
    pub buffer: Seq<u8>,
    pub event_name: Option<Seq<char>>,
    pub data_lines: Seq<Seq<char>>,
    pub closed: bool,
}

/// What a piece of input leads to: the next state, the events that come
/// out, and the error that ends the stream, if any.
pub struct Step {
    pub state: DecoderState,
    pub events: Seq<StreamEventView>,
    pub error: Option<ForgeErrorView>,
}

/// The state before any input.
pub open spec fn initial(provider: Provider) -> DecoderState {
    DecoderState {
        provider,
        buffer: Seq::empty(),
        event_name: None,
        data_lines: Seq::empty(),
        closed: false,
    }
}

/// The state after the end of the stream.
pub open spec fn closed(s: DecoderState) -> DecoderState {
    DecoderState { closed: true, ..s }
}

/// Nothing comes out; the state is `s`.
pub open spec fn quiet(s: DecoderState) -> Step {
    Step { state: s, events: Seq::empty(), error: None }
}

/// The stream ends with the error `e`.
pub open spec fn fail(s: DecoderState, e: ForgeErrorView) -> Step {
    Step { state: closed(s), events: Seq::empty(), error: Some(e) }
}

/// One step after another: the events of both in order, the first error.
pub open spec fn followed_by(a: Step, b: Step) -> Step {
    Step {
        state: b.state,
        events: a.events + b.events,
        error: if a.error is Some {
            a.error
        } else {
            b.error
        },
    }
}

/// The events up to and with the first `Done`; all of them where there is
/// none.
pub open spec fn until_done(events: Seq<StreamEventView>) -> Seq<StreamEventView>
    decreases events.len(),
{
    if events.len() == 0 {
        Seq::empty()
    } else if events[0] is Done {
        seq![StreamEventView::Done]
    } else {
        seq![events[0]] + until_done(events.drop_first())
    }
}

/// Whether the events end with `Done`.
pub open spec fn ends_done(events: Seq<StreamEventView>) -> bool {
    events.len() > 0 && events.last() is Done
}

/// The events of a payload come out, up to the first `Done`, which ends the
/// stream.
pub open spec fn emit(s: DecoderState, events: Seq<StreamEventView>) -> Step {
    Step {
        state: if ends_done(until_done(events)) {
            closed(s)
        } else {
            s
        },
        events: until_done(events),
        error: None,
    }
}

/// The events of a payload come out, or its error ends the stream.
pub open spec fn deliver(
    s: DecoderState,
    r: Result<Seq<StreamEventView>, ForgeErrorView>,
) -> Step {
    match r {
        Ok(events) => emit(s, events),
        Err(e) => fail(s, e),
    }
}

/// The events of the text of a payload, by the provider's wire format.
pub open spec fn provider_payload(
    provider: Provider,
    payload: Seq<char>,
    event: Option<Seq<char>>,
) -> Result<Seq<StreamEventView>, ForgeErrorView> {
    match provider {
        Provider::OpenAi => crate::openai::stream_payload(payload),
        Provider::Anthropic => crate::anthropic::stream_payload(payload, event),
        Provider::Gemini => crate::gemini::stream_payload(payload),
    }
}

/// A payload of a stream without event names: the literal `[DONE]` ends the
/// stream, anything else is read by the provider's wire format.
pub open spec fn payload_step(s: DecoderState, payload: Seq<char>) -> Step {
    if payload == "[DONE]"@ {
        Step { state: closed(s), events: seq![StreamEventView::Done], error: None }
    } else {
        deliver(s, provider_payload(s.provider, payload, None))
    }
}

/// A line of a stream without event names: a `data:` line holds a payload,
/// any other line is passed over.
pub open spec fn data_step(s: DecoderState, line: Seq<char>) -> Step {
    if is_blank(line) {
        quiet(s)
    } else {
        match strip_prefix(line, "data:"@) {
            Some(data) => payload_step(s, trim(data)),
            None => quiet(s),
        }
    }
}

/// The record under way is handed over: its data lines, joined by line
/// feeds, are one payload under the record's event name.
pub open spec fn flush(s: DecoderState) -> Step {
    deliver(
        DecoderState { event_name: None, data_lines: Seq::empty(), ..s },
        provider_payload(s.provider, join(s.data_lines, "\n"@), s.event_name),
    )
}

/// A line of a stream with event names: an empty line ends the record under
/// way, an `event:` line names it, a `data:` line adds to its data, any
/// other line is passed over.
pub open spec fn named_step(s: DecoderState, line: Seq<char>) -> Step {
    if line.len() == 0 {
        if s.data_lines.len() > 0 {
            flush(s)
        } else {
            quiet(s)
        }
    } else {
        match strip_prefix(line, "event:"@) {
            Some(name) => quiet(DecoderState { event_name: Some(trim(name)), ..s }),
            None => match strip_prefix(line, "data:"@) {
                Some(data) => quiet(
                    DecoderState { data_lines: s.data_lines.push(trim(data)), ..s },
                ),
                None => quiet(s),
            },
        }
    }
}

/// The error for bytes that are not UTF-8.
pub open spec fn utf8_failure(bytes: Seq<u8>) -> ForgeErrorView {
    ForgeErrorView::Transport("invalid utf8 stream chunk: "@ + utf8_error_text(bytes))
}

/// A decoded line, by the framing of the provider.
pub open spec fn text_step(s: DecoderState, line: Seq<char>) -> Step {
    match s.provider {
        Provider::Anthropic => named_step(s, line),
        _ => data_step(s, line),
    }
}

/// A complete line, without its line feed: one trailing carriage return is
/// dropped, and the rest must be UTF-8.
pub open spec fn line_step(s: DecoderState, raw: Seq<u8>) -> Step {
    let line = strip_cr(raw);
    if valid_utf8(line) {
        text_step(s, decode_utf8(line))
    } else {
        fail(s, utf8_failure(line))
    }
}

/// One byte of input: a line feed completes the line under way, any other
/// byte adds to it. After the end of the stream nothing happens.
pub open spec fn byte_step(s: DecoderState, b: u8) -> Step {
    if s.closed {
        quiet(s)
    } else if b == 10u8 {
        line_step(DecoderState { buffer: Seq::empty(), ..s }, s.buffer)
    } else {
        quiet(DecoderState { buffer: s.buffer.push(b), ..s })
    }
}

/// A run of input bytes, from the state `s`.
pub open spec fn run(s: DecoderState, bytes: Seq<u8>) -> Step
    decreases bytes.len(),
{
    if bytes.len() == 0 {
        quiet(s)
    } else {
        let before = run(s, bytes.drop_last());
        followed_by(before, byte_step(before.state, bytes.last()))
    }
}

/// What is made of the line under way when the input ends: it must be
/// UTF-8; in a stream without event names it counts as a line, once
/// trimmed; in a stream with event names it is dropped and the record under
/// way is handed over.
pub open spec fn tail_step(s: DecoderState) -> Step {
    let rest = DecoderState { buffer: Seq::empty(), ..s };
    if !valid_utf8(s.buffer) {
        fail(rest, utf8_failure(s.buffer))
    } else {
        match s.provider {
            Provider::Anthropic => if s.data_lines.len() > 0 {
                flush(rest)
            } else {
                quiet(rest)
            },
            _ => data_step(rest, trim(decode_utf8(s.buffer))),
        }
    }
}

/// The end of the input: what is left is handed over, and `Done` comes out
/// unless the stream has ended before.
pub open spec fn finish(s: DecoderState) -> Step {
    if s.closed {
        quiet(s)
    } else {
        let tail = tail_step(s);
        Step {
            state: closed(tail.state),
            events: if tail.state.closed {
                tail.events
            } else {
                tail.events.push(StreamEventView::Done)
            },
            error: tail.error,
        }
    }
}

/// The whole stream of a response body.
pub open spec fn decode(provider: Provider, body: Seq<u8>) -> Step {
    let fed = run(initial(provider), body);
    followed_by(fed, finish(fed.state))
}

/// The chunks in a row.
pub open spec fn flatten(chunks: Seq<Seq<u8>>) -> Seq<u8>
    decreases chunks.len(),
{
    if chunks.len() == 0 {
        Seq::empty()
    } else {
        flatten(chunks.drop_last()) + chunks.last()
    }
}

/// The chunks fed one after another, from the state `s`.
pub open spec fn run_chunks(s: DecoderState, chunks: Seq<Seq<u8>>) -> Step
    decreases chunks.len(),
{
    if chunks.len() == 0 {
        quiet(s)
    } else {
        let before = run_chunks(s, chunks.drop_last());
        followed_by(before, run(before.state, chunks.last()))
    }
}

/// The view of an optional error.
pub open spec fn opt_error(e: Option<ForgeError>) -> Option<ForgeErrorView> {
    match e {
        Some(x) => Some(x@),
        None => None,
    }
}

/// The text of an optional string.
pub open spec fn opt_name(s: Option<String>) -> Option<Seq<char>> {
    match s {
        Some(t) => Some(t@),
        None => None,
    }
}

/// Whether a step is in order after the state `before`: nothing comes out
/// of a stream that has ended; `Done` comes out last or not at all; the
/// stream has ended after the step exactly if it ended with `Done` or with
/// an error; and an error comes without `Done`.
pub open spec fn orderly(before: DecoderState, step: Step) -> bool {
    &&& before.closed ==> step == quiet(before)
    &&& forall|i: int| 0 <= i < step.events.len() - 1 ==> !(#[trigger] step.events[i] is Done)
    &&& !before.closed ==> (step.state.closed <==> (step.error is Some || ends_done(
        step.events,
    )))
    &&& step.error is Some ==> !ends_done(step.events)
}

proof fn lemma_until_done_orderly(events: Seq<StreamEventView>)
    ensures
        forall|i: int|
            0 <= i < until_done(events).len() - 1 ==> !(#[trigger] until_done(events)[i] is Done),
    decreases events.len(),
{
    if events.len() > 0 && !(events[0] is Done) {
        let rest = until_done(events.drop_first());
        lemma_until_done_orderly(events.drop_first());
        assert forall|i: int| 0 <= i < until_done(events).len() - 1 implies !(
        #[trigger] until_done(events)[i] is Done) by {
            if i > 0 {
                assert(until_done(events)[i] == rest[i - 1]);
            }
        }
    }
}

proof fn lemma_deliver_orderly(s: DecoderState, r: Result<Seq<StreamEventView>, ForgeErrorView>)
    requires
        !s.closed,
    ensures
        orderly(s, deliver(s, r)),
{
    if let Ok(events) = r {
        lemma_until_done_orderly(events);
    }
}

proof fn lemma_data_orderly(s: DecoderState, line: Seq<char>)
    requires
        !s.closed,
    ensures
        orderly(s, data_step(s, line)),
{
    if !is_blank(line) {
        if let Some(data) = strip_prefix(line, "data:"@) {
            if trim(data) != "[DONE]"@ {
                lemma_deliver_orderly(s, provider_payload(s.provider, trim(data), None));
            }
        }
    }
}

proof fn lemma_flush_orderly(s: DecoderState)
    requires
        !s.closed,
    ensures
        orderly(s, flush(s)),
{
    lemma_deliver_orderly(
        DecoderState { event_name: None, data_lines: Seq::empty(), ..s },
        provider_payload(s.provider, join(s.data_lines, "\n"@), s.event_name),
    );
}

proof fn lemma_line_orderly(s: DecoderState, raw: Seq<u8>)
    requires
        !s.closed,
    ensures
        orderly(s, line_step(s, raw)),
{
    let line = strip_cr(raw);
    if valid_utf8(line) {
        let text = decode_utf8(line);
        match s.provider {
            Provider::Anthropic => {
                if text.len() == 0 && s.data_lines.len() > 0 {
                    lemma_flush_orderly(s);
                }
            },
            _ => {
                lemma_data_orderly(s, text);
            },
        }
    }
}

/// Every byte of input leads to a step that is in order.
pub proof fn lemma_byte_orderly(s: DecoderState, b: u8)
    ensures
        orderly(s, byte_step(s, b)),
{
    if !s.closed && b == 10u8 {
        lemma_line_orderly(DecoderState { buffer: Seq::empty(), ..s }, s.buffer);
    }
}

/// Two steps in order, one after the other, make a step in order.
pub proof fn lemma_followed_orderly(s: DecoderState, a: Step, b: Step)
    requires
        orderly(s, a),
        orderly(a.state, b),
    ensures
        orderly(s, followed_by(a, b)),
{
    let both = followed_by(a, b);
    if s.closed {
        assert(both.events =~= Seq::empty());
    } else if a.state.closed {
        assert(both.events =~= a.events);
    } else {
        assert forall|i: int| 0 <= i < both.events.len() - 1 implies !(
        #[trigger] both.events[i] is Done) by {
            if i < a.events.len() {
                assert(both.events[i] == a.events[i]);
            } else {
                assert(both.events[i] == b.events[i - a.events.len()]);
            }
        }
        if b.events.len() > 0 {
            assert(both.events.last() == b.events.last());
        } else {
            assert(both.events =~= a.events);
        }
    }
}

/// Every run of input leads to a step that is in order.
pub proof fn lemma_run_orderly(s: DecoderState, bytes: Seq<u8>)
    ensures
        orderly(s, run(s, bytes)),
    decreases bytes.len(),
{
    if bytes.len() > 0 {
        let before = run(s, bytes.drop_last());
        lemma_run_orderly(s, bytes.drop_last());
        lemma_byte_orderly(before.state, bytes.last());
        lemma_followed_orderly(s, before, byte_step(before.state, bytes.last()));
    }
}

/// The end of the input leads to a step that is in order, and ends the
/// stream.
pub proof fn lemma_finish_orderly(s: DecoderState)
    ensures
        orderly(s, finish(s)),
        finish(s).state.closed,
{
    if !s.closed {
        let rest = DecoderState { buffer: Seq::empty(), ..s };
        let tail = tail_step(s);
        if valid_utf8(s.buffer) {
            match s.provider {
                Provider::Anthropic => {
                    if s.data_lines.len() > 0 {
                        lemma_flush_orderly(rest);
                    }
                },
                _ => {
                    lemma_data_orderly(rest, trim(decode_utf8(s.buffer)));
                },
            }
        }
        assert(orderly(rest, tail));
        let end = finish(s);
        if !tail.state.closed {
            assert forall|i: int| 0 <= i < end.events.len() - 1 implies !(
            #[trigger] end.events[i] is Done) by {
                assert(end.events[i] == tail.events[i]);
            }
        }
    }
}

/// A stream that has ended stays silent: whatever is fed, nothing comes
/// out and the state stays as it is.
pub proof fn lemma_closed_stays_silent(s: DecoderState, bytes: Seq<u8>)
    requires
        s.closed,
    ensures
        run(s, bytes) == quiet(s),
        finish(s) == quiet(s),
{
    lemma_run_orderly(s, bytes);
}

/// Feeding `a` and then `b` is feeding `a + b`: the outcome does not depend
/// on where the input is cut.
pub proof fn lemma_run_concat(s: DecoderState, a: Seq<u8>, b: Seq<u8>)
    ensures
        run(s, a + b) == followed_by(run(s, a), run(run(s, a).state, b)),
    decreases b.len(),
{
    let first = run(s, a);
    if b.len() == 0 {
        assert(a + b =~= a);
        assert(first.events + Seq::<StreamEventView>::empty() =~= first.events);
    } else {
        lemma_run_concat(s, a, b.drop_last());
        assert((a + b).drop_last() =~= a + b.drop_last());
        assert((a + b).last() == b.last());
        let mid = run(first.state, b.drop_last());
        let last = byte_step(mid.state, b.last());
        assert((first.events + mid.events) + last.events =~= first.events + (mid.events
            + last.events));
    }
}

/// Feeding the chunks one after another is feeding them in a row.
pub proof fn lemma_run_chunks(s: DecoderState, chunks: Seq<Seq<u8>>)
    ensures
        run_chunks(s, chunks) == run(s, flatten(chunks)),
    decreases chunks.len(),
{
    if chunks.len() > 0 {
        lemma_run_chunks(s, chunks.drop_last());
        lemma_run_concat(s, flatten(chunks.drop_last()), chunks.last());
    }
}

/// A decoded stream ends once: without an error, `Done` is its last event
/// and no other event is `Done`; with an error, no event is `Done`. After
/// it the stream has ended.
pub proof fn lemma_stream_ends_once(provider: Provider, body: Seq<u8>)
    ensures
        decode(provider, body).state.closed,
        decode(provider, body).error is None ==> ends_done(decode(provider, body).events),
        forall|i: int|
            0 <= i < decode(provider, body).events.len() - 1 ==> !(#[trigger] decode(
                provider,
                body,
            ).events[i] is Done),
        decode(provider, body).error is Some ==> forall|i: int|
            0 <= i < decode(provider, body).events.len() ==> !(#[trigger] decode(
                provider,
                body,
            ).events[i] is Done),
{
    let start = initial(provider);
    let fed = run(start, body);
    lemma_run_orderly(start, body);
    lemma_finish_orderly(fed.state);
    lemma_followed_orderly(start, fed, finish(fed.state));
}

/// An empty body is a stream that is done at once: `Done` is its only
/// event.
pub proof fn lemma_empty_body(provider: Provider)
    ensures
        decode(provider, Seq::empty()).events == seq![StreamEventView::Done],
        decode(provider, Seq::empty()).error is None,
{
    let start = initial(provider);
    assert(valid_utf8(Seq::<u8>::empty()));
    assert(decode_utf8(Seq::<u8>::empty()) =~= Seq::<char>::empty());
    assert(trim(Seq::<char>::empty()) =~= Seq::<char>::empty());
    assert(is_blank(Seq::<char>::empty()));
    assert(tail_step(start) == quiet(start));
    assert(decode(provider, Seq::empty()).events =~= seq![StreamEventView::Done]);
}

/// An incremental decoder of one response body.
pub struct StreamDecoder {
    provider: Provider,
    buffer: Vec<u8>,
    event_name: Option<String>,
    data_lines: Vec<String>,
    closed: bool,
}

/// What feeding a decoder gives: the events that came out, and the error
/// that ended the stream, if any.
#[derive(Debug)]
pub struct StreamChunk {
    pub events: Vec<StreamEvent>,
    pub error: Option<ForgeError>,
}

impl View for StreamDecoder {
    type V = DecoderState;

    closed spec fn view(&self) -> DecoderState {
        DecoderState {
            provider: self.provider,
            buffer: self.buffer@,
            event_name: opt_name(self.event_name),
            data_lines: texts(self.data_lines@),
            closed: self.closed,
        }
    }
}

impl StreamChunk {
    /// The step that this outcome and the state `state` make up.
    pub open spec fn step(self, state: DecoderState) -> Step {
        Step { state, events: views(self.events@), error: opt_error(self.error) }
    }
}

/// Whether a decoder and its output have moved by `step`.
pub open spec fn advanced(
    out_before: Seq<StreamEventView>,
    after: DecoderState,
    out_after: Seq<StreamEventView>,
    error: Option<ForgeErrorView>,
    step: Step,
) -> bool {
    after == step.state && out_after == out_before + step.events && error == step.error
}

fn parse_payload(provider: Provider, payload: &str, event: &Option<String>) -> (r: Result<
    Vec<StreamEvent>,
    ForgeError,
>)
    ensures
        events_view(r) == provider_payload(provider, payload@, opt_name(*event)),
{
    match provider {
        Provider::OpenAi => crate::openai::parse_stream_payload(payload),
        Provider::Anthropic => {
            match event {
                Some(name) => crate::anthropic::parse_stream_payload(payload, Some(name.as_str())),
                None => crate::anthropic::parse_stream_payload(payload, None),
            }
        },
        Provider::Gemini => crate::gemini::parse_stream_payload(payload),
    }
}

fn decode_line(raw: &[u8]) -> (r: Result<String, ForgeError>)
    ensures
        match r {
            Ok(text) => valid_utf8(raw@) && text@ == decode_utf8(raw@),
            Err(e) => !valid_utf8(raw@) && e@ == utf8_failure(raw@),
        },
{
    match decode_utf8_bytes(raw) {
        Ok(text) => Ok(text),
        Err(m) => Err(ForgeError::Transport(concat2("invalid utf8 stream chunk: ", m.as_str()))),
    }
}

fn without_cr(raw: &Vec<u8>) -> (r: &[u8])
    ensures
        r@ == strip_cr(raw@),
{
    let n = raw.len();
    if n > 0 && raw[n - 1] == 13 {
        let r = slice_subrange(raw.as_slice(), 0, n - 1);
        assert(r@ =~= raw@.drop_last());
        r
    } else {
        raw.as_slice()
    }
}

proof fn lemma_until_done_prefix(all: Seq<StreamEventView>, k: int)
    requires
        0 <= k <= all.len(),
        forall|i: int| 0 <= i < k ==> !(#[trigger] all[i] is Done),
    ensures
        until_done(all) == all.take(k) + until_done(all.skip(k)),
    decreases k,
{
    if k == 0 {
        assert(all.skip(0) =~= all);
        assert(all.take(0) + until_done(all) =~= until_done(all));
    } else {
        let rest = all.drop_first();
        lemma_until_done_prefix(rest, k - 1);
        assert(rest.skip(k - 1) =~= all.skip(k));
        assert(seq![all[0]] + rest.take(k - 1) =~= all.take(k));
        assert(seq![all[0]] + (rest.take(k - 1) + until_done(rest.skip(k - 1))) =~= (seq![all[0]]
            + rest.take(k - 1)) + until_done(rest.skip(k - 1)));
    }
}

impl StreamDecoder {
    /// A decoder for the stream of `provider`, before any input.
    pub fn new(provider: Provider) -> (r: Self)
        ensures
            r@ == initial(provider),
    {
        let r = StreamDecoder {
            provider,
            buffer: Vec::new(),
            event_name: None,
            data_lines: Vec::new(),
            closed: false,
        };
        assert(r@.data_lines =~= Seq::empty());
        r
    }

    /// Whether the stream has ended: nothing more will come out.
    pub fn is_closed(&self) -> (r: bool)
        ensures
            r == self@.closed,
    {
        self.closed
    }

    fn emit(&mut self, events: Vec<StreamEvent>, out: &mut Vec<StreamEvent>)
        requires
            !old(self)@.closed,
        ensures
            advanced(
                views(old(out)@),
                final(self)@,
                views(final(out)@),
                None,
                emit(old(self)@, views(events@)),
            ),
    {
        let ghost all = views(events@);
        let mut events = events;
        let mut k: usize = 0;
        let mut found = false;
        while k < events.len() && !found
            invariant
                k <= events.len(),
                all == views(events@),
                found ==> k > 0 && all[k - 1] is Done,
                forall|i: int| 0 <= i < k - (if found { 1int } else { 0int }) ==> !(#[trigger] all[i] is Done),
            decreases events.len() - k,
        {
            match &events[k] {
                StreamEvent::Done => {
                    found = true;
                },
                _ => {},
            }
            k += 1;
        }
        proof {
            if found {
                lemma_until_done_prefix(all, k - 1);
                assert(all.skip(k - 1)[0] == all[k - 1]);
                assert(all.take(k - 1) + seq![StreamEventView::Done] =~= all.take(k as int));
            } else {
                lemma_until_done_prefix(all, k as int);
                assert(all.skip(k as int) =~= Seq::empty());
                assert(all.take(k as int) + Seq::empty() =~= all.take(k as int));
            }
            assert(until_done(all) == all.take(k as int));
        }
        events.truncate(k);
        assert(views(events@) =~= all.take(k as int));
        let ghost before = views(out@);
        let ghost cut = events@;
        out.append(&mut events);
        assert(views(out@) =~= before + views(cut));
        if found {
            self.closed = true;
        }
        assert(self@ =~= emit(old(self)@, all).state);
    }

    fn deliver(
        &mut self,
        result: Result<Vec<StreamEvent>, ForgeError>,
        out: &mut Vec<StreamEvent>,
    ) -> (err: Option<ForgeError>)
        requires
            !old(self)@.closed,
        ensures
            advanced(
                views(old(out)@),
                final(self)@,
                views(final(out)@),
                opt_error(err),
                deliver(old(self)@, events_view(result)),
            ),
    {
        match result {
            Ok(events) => {
                self.emit(events, out);
                None
            },
            Err(e) => {
                self.closed = true;
                assert(views(out@) =~= views(old(out)@) + Seq::empty());
                Some(e)
            },
        }
    }

    fn take_payload(&mut self, payload: &str, out: &mut Vec<StreamEvent>) -> (err: Option<
        ForgeError,
    >)
        requires
            !old(self)@.closed,
        ensures
            advanced(
                views(old(out)@),
                final(self)@,
                views(final(out)@),
                opt_error(err),
                payload_step(old(self)@, payload@),
            ),
    {
        if str_eq(payload, "[DONE]") {
            out.push(StreamEvent::Done);
            self.closed = true;
            assert(views(out@) =~= views(old(out)@) + seq![StreamEventView::Done]);
            None
        } else {
            let none: Option<String> = None;
            let result = parse_payload(self.provider, payload, &none);
            self.deliver(result, out)
        }
    }

    fn take_data(&mut self, line: &str, out: &mut Vec<StreamEvent>) -> (err: Option<ForgeError>)
        requires
            !old(self)@.closed,
        ensures
            advanced(
                views(old(out)@),
                final(self)@,
                views(final(out)@),
                opt_error(err),
                data_step(old(self)@, line@),
            ),
    {
        if blank(line) {
            assert(views(out@) =~= views(old(out)@) + Seq::empty());
            return None;
        }
        match strip_prefix_str(line, "data:") {
            Some(data) => self.take_payload(trim_str(data), out),
            None => {
                assert(views(out@) =~= views(old(out)@) + Seq::empty());
                None
            },
        }
    }

    fn flush(&mut self, out: &mut Vec<StreamEvent>) -> (err: Option<ForgeError>)
        requires
            !old(self)@.closed,
        ensures
            advanced(
                views(old(out)@),
                final(self)@,
                views(final(out)@),
                opt_error(err),
                flush(old(self)@),
            ),
    {
        let payload = join_strings(&self.data_lines, "\n");
        let result = parse_payload(self.provider, payload.as_str(), &self.event_name);
        self.data_lines.clear();
        self.event_name = None;
        assert(texts(self.data_lines@) =~= Seq::empty());
        assert(self@ =~= DecoderState {
            event_name: None,
            data_lines: Seq::empty(),
            ..old(self)@
        });
        self.deliver(result, out)
    }

    fn take_named(&mut self, line: &str, out: &mut Vec<StreamEvent>) -> (err: Option<ForgeError>)
        requires
            !old(self)@.closed,
        ensures
            advanced(
                views(old(out)@),
                final(self)@,
                views(final(out)@),
                opt_error(err),
                named_step(old(self)@, line@),
            ),
    {
        if line.is_empty() {
            if self.data_lines.len() > 0 {
                return self.flush(out);
            }
            assert(views(out@) =~= views(old(out)@) + Seq::empty());
            return None;
        }
        assert(views(out@) =~= views(old(out)@) + Seq::empty());
        match strip_prefix_str(line, "event:") {
            Some(name) => {
                self.event_name = Some(owned(trim_str(name)));
                assert(self@ =~= DecoderState { event_name: Some(trim(name@)), ..old(self)@ });
            },
            None => match strip_prefix_str(line, "data:") {
                Some(data) => {
                    self.data_lines.push(owned(trim_str(data)));
                    assert(texts(self.data_lines@) =~= old(self)@.data_lines.push(trim(data@)));
                    assert(self@ =~= DecoderState {
                        data_lines: old(self)@.data_lines.push(trim(data@)),
                        ..old(self)@
                    });
                },
                None => {},
            },
        }
        None
    }

    fn take_line(&mut self, raw: &Vec<u8>, out: &mut Vec<StreamEvent>) -> (err: Option<
        ForgeError,
    >)
        requires
            !old(self)@.closed,
        ensures
            advanced(
                views(old(out)@),
                final(self)@,
                views(final(out)@),
                opt_error(err),
                line_step(old(self)@, raw@),
            ),
    {
        match decode_line(without_cr(raw)) {
            Ok(text) => match self.provider {
                Provider::Anthropic => self.take_named(text.as_str(), out),
                _ => self.take_data(text.as_str(), out),
            },
            Err(e) => {
                self.closed = true;
                assert(views(out@) =~= views(old(out)@) + Seq::empty());
                Some(e)
            },
        }
    }

    fn take_byte(&mut self, b: u8, out: &mut Vec<StreamEvent>) -> (err: Option<ForgeError>)
        ensures
            advanced(
                views(old(out)@),
                final(self)@,
                views(final(out)@),
                opt_error(err),
                byte_step(old(self)@, b),
            ),
    {
        if self.closed {
            assert(views(out@) =~= views(old(out)@) + Seq::empty());
            return None;
        }
        if b == 10 {
            let mut line: Vec<u8> = Vec::new();
            std::mem::swap(&mut line, &mut self.buffer);
            assert(self@ =~= DecoderState { buffer: Seq::empty(), ..old(self)@ });
            self.take_line(&line, out)
        } else {
            self.buffer.push(b);
            assert(views(out@) =~= views(old(out)@) + Seq::empty());
            assert(self@ =~= DecoderState { buffer: old(self)@.buffer.push(b), ..old(self)@ });
            None
        }
    }

    /// Feeds the next chunk of the response body. The events that the chunk
    /// completes come out in order; an error ends the stream.
    pub fn feed(&mut self, chunk: &[u8]) -> (r: StreamChunk)
        ensures
            r.step(final(self)@) == run(old(self)@, chunk@),
    {
        let mut events: Vec<StreamEvent> = Vec::new();
        let mut error: Option<ForgeError> = None;
        let mut i: usize = 0;
        assert(chunk@.take(0) =~= Seq::empty());
        assert(views(events@) =~= Seq::empty());
        while i < chunk.len()
            invariant
                i <= chunk.len(),
                (Step { state: self@, events: views(events@), error: opt_error(error) }) == run(
                    old(self)@,
                    chunk@.take(i as int),
                ),
            decreases chunk.len() - i,
        {
            proof {
                let next = chunk@.take(i + 1);
                assert(next.drop_last() =~= chunk@.take(i as int));
                assert(next.last() == chunk@[i as int]);
            }
            let err = self.take_byte(chunk[i], &mut events);
            if error.is_none() {
                error = err;
            }
            i += 1;
        }
        assert(chunk@.take(chunk.len() as int) =~= chunk@);
        StreamChunk { events, error }
    }

    fn take_tail(&mut self, out: &mut Vec<StreamEvent>) -> (err: Option<ForgeError>)
        requires
            !old(self)@.closed,
        ensures
            advanced(
                views(old(out)@),
                final(self)@,
                views(final(out)@),
                opt_error(err),
                tail_step(old(self)@),
            ),
    {
        let mut rest: Vec<u8> = Vec::new();
        std::mem::swap(&mut rest, &mut self.buffer);
        assert(self@ =~= DecoderState { buffer: Seq::empty(), ..old(self)@ });
        match decode_line(rest.as_slice()) {
            Ok(text) => match self.provider {
                Provider::Anthropic => {
                    if self.data_lines.len() > 0 {
                        self.flush(out)
                    } else {
                        assert(views(out@) =~= views(old(out)@) + Seq::empty());
                        None
                    }
                },
                _ => self.take_data(trim_str(text.as_str()), out),
            },
            Err(e) => {
                self.closed = true;
                assert(views(out@) =~= views(old(out)@) + Seq::empty());
                Some(e)
            },
        }
    }

    /// Says that the response body has ended. What is left of the input is
    /// handed over, and `Done` comes out unless the stream has ended
    /// before.
    pub fn finish(&mut self) -> (r: StreamChunk)
        ensures
            r.step(final(self)@) == finish(old(self)@),
            final(self)@.closed,
    {
        let mut events: Vec<StreamEvent> = Vec::new();
        assert(views(events@) =~= Seq::empty());
        if self.closed {
            return StreamChunk { events, error: None };
        }
        let error = self.take_tail(&mut events);
        assert(views(events@) =~= tail_step(old(self)@).events);
        if !self.closed {
            let ghost before = views(events@);
            events.push(StreamEvent::Done);
            assert(views(events@) =~= before.push(StreamEventView::Done));
            self.closed = true;
        }
        assert(self@ =~= closed(tail_step(old(self)@).state));
        StreamChunk { events, error }
    }
}

/// The bytes of a list of chunks.
pub open spec fn chunk_seq(chunks: Seq<Vec<u8>>) -> Seq<Seq<u8>> {
    Seq::new(chunks.len(), |i: int| chunks[i]@)
}

/// Decodes a whole response body that came in chunks. The outcome is that
/// of the chunks in a row, wherever they were cut: without an error the
/// events end with the only `Done`; with an error there is no `Done`.
pub fn decode_chunks(provider: Provider, chunks: &Vec<Vec<u8>>) -> (r: StreamChunk)
    ensures
        views(r.events@) == decode(provider, flatten(chunk_seq(chunks@))).events,
        opt_error(r.error) == decode(provider, flatten(chunk_seq(chunks@))).error,
        r.error is None ==> ends_done(views(r.events@)),
        forall|i: int|
            0 <= i < r.events@.len() - 1 ==> !(#[trigger] views(r.events@)[i] is Done),
        r.error is Some ==> forall|i: int|
            0 <= i < r.events@.len() ==> !(#[trigger] views(r.events@)[i] is Done),
{
    let ghost all = chunk_seq(chunks@);
    let mut decoder = StreamDecoder::new(provider);
    let mut events: Vec<StreamEvent> = Vec::new();
    let mut error: Option<ForgeError> = None;
    let mut i: usize = 0;
    assert(all.take(0) =~= Seq::empty());
    assert(views(events@) =~= Seq::empty());
    while i < chunks.len()
        invariant
            i <= chunks.len(),
            all == chunk_seq(chunks@),
            (Step { state: decoder@, events: views(events@), error: opt_error(error) })
                == run_chunks(initial(provider), all.take(i as int)),
        decreases chunks.len() - i,
    {
        proof {
            let next = all.take(i + 1);
            assert(next.drop_last() =~= all.take(i as int));
            assert(next.last() == chunks@[i as int]@);
        }
        let ghost before = views(events@);
        let mut out = decoder.feed(chunks[i].as_slice());
        let ghost fed = views(out.events@);
        events.append(&mut out.events);
        assert(views(events@) =~= before + fed);
        if error.is_none() {
            error = out.error;
        }
        i += 1;
    }
    assert(all.take(chunks.len() as int) =~= all);
    let ghost before = views(events@);
    let mut out = decoder.finish();
    let ghost last = views(out.events@);
    events.append(&mut out.events);
    assert(views(events@) =~= before + last);
    if error.is_none() {
        error = out.error;
    }
    proof {
        lemma_run_chunks(initial(provider), all);
        lemma_stream_ends_once(provider, flatten(all));
        let whole = decode(provider, flatten(all));
        assert(views(events@) == whole.events);
        assert forall|i: int| 0 <= i < events@.len() - 1 implies !(#[trigger] views(
            events@,
        )[i] is Done) by {
            assert(!(whole.events[i] is Done));
        }
        if error is Some {
            assert forall|i: int| 0 <= i < events@.len() implies !(#[trigger] views(
                events@,
            )[i] is Done) by {
                assert(!(whole.events[i] is Done));
            }
        }
    }
    StreamChunk { events, error }
}

} // verus!
