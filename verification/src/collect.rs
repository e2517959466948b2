//! Reassembly of a response from the events of a stream.

use crate::json::{
    field, get_field, get_or_null, get_str, or_null, str_of, Json, JsonValue,
};
use crate::model::{
    views, ChatResponse, ChatResponseView, StreamEvent, StreamEventView, ToolCall, ToolCallView,
    Usage,
};
use crate::text::{owned, str_eq};
use vstd::prelude::*;
use vstd::string::*;

verus! {

/// The id of every response that was put together from a stream.
pub open spec fn collected_id() -> Seq<char> {
    "stream-collected"@
}

/// The name of a tool call for which no delta named a tool.
pub open spec fn unknown_tool() -> Seq<char> {
    "unknown_tool"@
}

/// What a collector has gathered: the text so far, the last usage, the
/// latest delta for each call id in the order in which the ids first came,
/// and whether `Done` was seen.
pub struct Collected {
    pub text: Seq<char>,
    pub usage: Option<Usage>,
    pub deltas: Seq<(Seq<char>, JsonValue)>,
    pub done: bool,
}

/// Before any event.
pub open spec fn nothing() -> Collected {
    Collected { text: Seq::empty(), usage: None, deltas: Seq::empty(), done: false }
}

/// The entries with `value` under `key`: in the place of the entry that had
/// the key, or at the end where none had it.
pub open spec fn upsert(
    entries: Seq<(Seq<char>, JsonValue)>,
    key: Seq<char>,
    value: JsonValue,
) -> Seq<(Seq<char>, JsonValue)>
    decreases entries.len(),
{
    if entries.len() == 0 {
        seq![(key, value)]
    } else if entries[0].0 == key {
        seq![(key, value)] + entries.drop_first()
    } else {
        seq![entries[0]] + upsert(entries.drop_first(), key, value)
    }
}

/// Whether no key occurs twice.
pub open spec fn distinct_keys(entries: Seq<(Seq<char>, JsonValue)>) -> bool {
    forall|i: int, j: int|
        0 <= i < j < entries.len() ==> (#[trigger] entries[i]).0 != (#[trigger] entries[j]).0
}

/// One more event: text is appended, a usage replaces the one before, a
/// tool-call delta replaces the one before for the same call id, and `Done`
/// ends the stream. After `Done` nothing counts.
pub open spec fn absorb(c: Collected, event: StreamEventView) -> Collected {
    if c.done {
        c
    } else {
        match event {
            StreamEventView::TextDelta { delta } => Collected { text: c.text + delta, ..c },
            StreamEventView::ToolCallDelta { call_id, delta } => Collected {
                deltas: upsert(c.deltas, call_id, delta),
                ..c
            },
            StreamEventView::Usage { usage } => Collected { usage: Some(usage), ..c },
            StreamEventView::Done => Collected { done: true, ..c },
        }
    }
}

/// The events one after another.
pub open spec fn absorb_all(c: Collected, events: Seq<StreamEventView>) -> Collected
    decreases events.len(),
{
    if events.len() == 0 {
        c
    } else {
        absorb(absorb_all(c, events.drop_last()), events.last())
    }
}

/// The name of the tool in a delta: its `name`, else the `name` of its
/// `function`, else `unknown_tool`.
pub open spec fn delta_name(delta: JsonValue) -> Seq<char> {
    match str_of(delta.get("name"@)) {
        Some(name) => name,
        None => match str_of(field(delta.get("function"@), "name"@)) {
            Some(name) => name,
            None => unknown_tool(),
        },
    }
}

/// The arguments in a delta: its `arguments`, else the `arguments` of its
/// `function`, else `null`.
pub open spec fn delta_arguments(delta: JsonValue) -> JsonValue {
    match delta.get("arguments"@) {
        Some(arguments) => arguments,
        None => or_null(field(delta.get("function"@), "arguments"@)),
    }
}

/// The tool call that the latest delta for a call id stands for.
pub open spec fn collected_call(entry: (Seq<char>, JsonValue)) -> ToolCallView {
    ToolCallView {
        id: entry.0,
        name: delta_name(entry.1),
        arguments: delta_arguments(entry.1),
    }
}

/// The response that is put together from what was gathered.
pub open spec fn response(c: Collected, model: Seq<char>) -> ChatResponseView {
    ChatResponseView {
        id: collected_id(),
        model,
        output_text: c.text,
        tool_calls: c.deltas.map_values(|entry: (Seq<char>, JsonValue)| collected_call(entry)),
        usage: c.usage,
    }
}

/// The response that is put together from the events of a stream.
pub open spec fn collected(model: Seq<char>, events: Seq<StreamEventView>) -> ChatResponseView {
    response(absorb_all(nothing(), events), model)
}

/// The texts of the text events, in a row.
pub open spec fn text_of(events: Seq<StreamEventView>) -> Seq<char>
    decreases events.len(),
{
    if events.len() == 0 {
        Seq::empty()
    } else {
        match events.last() {
            StreamEventView::TextDelta { delta } => text_of(events.drop_last()) + delta,
            _ => text_of(events.drop_last()),
        }
    }
}

/// The last usage among the events.
pub open spec fn last_usage(events: Seq<StreamEventView>) -> Option<Usage>
    decreases events.len(),
{
    if events.len() == 0 {
        None
    } else {
        match events.last() {
            StreamEventView::Usage { usage } => Some(usage),
            _ => last_usage(events.drop_last()),
        }
    }
}

/// Whether no event is `Done`.
pub open spec fn no_done(events: Seq<StreamEventView>) -> bool {
    forall|i: int| 0 <= i < events.len() ==> !(#[trigger] events[i] is Done)
}

/// The values of the entries of a collector.
pub open spec fn entry_seq(entries: Seq<(String, Json)>) -> Seq<(Seq<char>, JsonValue)> {
    Seq::new(entries.len(), |i: int| (entries[i].0@, entries[i].1@))
}

proof fn lemma_upsert_found(
    entries: Seq<(Seq<char>, JsonValue)>,
    key: Seq<char>,
    value: JsonValue,
    k: int,
)
    requires
        0 <= k < entries.len(),
        entries[k].0 == key,
        forall|i: int| 0 <= i < k ==> (#[trigger] entries[i]).0 != key,
    ensures
        upsert(entries, key, value) == entries.update(k, (key, value)),
    decreases k,
{
    if k == 0 {
        assert(seq![(key, value)] + entries.drop_first() =~= entries.update(0, (key, value)));
    } else {
        let rest = entries.drop_first();
        assert(rest[k - 1] == entries[k]);
        assert forall|i: int| 0 <= i < k - 1 implies (#[trigger] rest[i]).0 != key by {
            assert(rest[i] == entries[i + 1]);
        }
        lemma_upsert_found(rest, key, value, k - 1);
        assert(seq![entries[0]] + rest.update(k - 1, (key, value)) =~= entries.update(
            k,
            (key, value),
        ));
    }
}

proof fn lemma_upsert_missing(
    entries: Seq<(Seq<char>, JsonValue)>,
    key: Seq<char>,
    value: JsonValue,
)
    requires
        forall|i: int| 0 <= i < entries.len() ==> (#[trigger] entries[i]).0 != key,
    ensures
        upsert(entries, key, value) == entries.push((key, value)),
    decreases entries.len(),
{
    if entries.len() == 0 {
        assert(seq![(key, value)] =~= entries.push((key, value)));
    } else {
        let rest = entries.drop_first();
        assert forall|i: int| 0 <= i < rest.len() implies (#[trigger] rest[i]).0 != key by {
            assert(rest[i] == entries[i + 1]);
        }
        lemma_upsert_missing(rest, key, value);
        assert(seq![entries[0]] + rest.push((key, value)) =~= entries.push((key, value)));
    }
}

/// Putting a value under a key keeps the keys distinct.
pub proof fn lemma_upsert_distinct(
    entries: Seq<(Seq<char>, JsonValue)>,
    key: Seq<char>,
    value: JsonValue,
)
    requires
        distinct_keys(entries),
    ensures
        distinct_keys(upsert(entries, key, value)),
{
    if exists|k: int| 0 <= k < entries.len() && (#[trigger] entries[k]).0 == key {
        let k = choose|k: int| 0 <= k < entries.len() && (#[trigger] entries[k]).0 == key;
        assert forall|i: int| 0 <= i < k implies (#[trigger] entries[i]).0 != key by {}
        lemma_upsert_found(entries, key, value, k);
        let after = entries.update(k, (key, value));
        assert forall|i: int, j: int| 0 <= i < j < after.len() implies (#[trigger] after[i]).0 != (
        #[trigger] after[j]).0 by {
            assert(after[i].0 == entries[i].0);
            assert(after[j].0 == entries[j].0);
        }
    } else {
        assert forall|i: int| 0 <= i < entries.len() implies (#[trigger] entries[i]).0 != key by {}
        lemma_upsert_missing(entries, key, value);
    }
}

/// Whatever events come, the call ids that were gathered stay distinct.
pub proof fn lemma_absorb_distinct(c: Collected, events: Seq<StreamEventView>)
    requires
        distinct_keys(c.deltas),
    ensures
        distinct_keys(absorb_all(c, events).deltas),
    decreases events.len(),
{
    if events.len() > 0 {
        lemma_absorb_distinct(c, events.drop_last());
        let before = absorb_all(c, events.drop_last());
        if let StreamEventView::ToolCallDelta { call_id, delta } = events.last() {
            lemma_upsert_distinct(before.deltas, call_id, delta);
        }
    }
}

/// From a stream without `Done`, the text that is gathered is the texts of
/// its text events in a row, and the usage is its last usage.
pub proof fn lemma_collected_text(events: Seq<StreamEventView>)
    requires
        no_done(events),
    ensures
        !absorb_all(nothing(), events).done,
        absorb_all(nothing(), events).text == text_of(events),
        absorb_all(nothing(), events).usage == last_usage(events),
    decreases events.len(),
{
    if events.len() > 0 {
        assert(no_done(events.drop_last())) by {
            assert forall|i: int| 0 <= i < events.drop_last().len() implies !(
            #[trigger] events.drop_last()[i] is Done) by {
                assert(events.drop_last()[i] == events[i]);
            }
        }
        lemma_collected_text(events.drop_last());
        assert(!(events.last() is Done)) by {
            assert(events[events.len() - 1] == events.last());
        }
    } else {
        assert(text_of(events) =~= Seq::empty());
    }
}

/// After `Done`, events change nothing.
pub proof fn lemma_done_is_final(c: Collected, events: Seq<StreamEventView>)
    requires
        c.done,
    ensures
        absorb_all(c, events) == c,
    decreases events.len(),
{
    if events.len() > 0 {
        lemma_done_is_final(c, events.drop_last());
    }
}

/// The events one after another, in two parts.
pub proof fn lemma_absorb_concat(c: Collected, a: Seq<StreamEventView>, b: Seq<StreamEventView>)
    ensures
        absorb_all(c, a + b) == absorb_all(absorb_all(c, a), b),
    decreases b.len(),
{
    if b.len() == 0 {
        assert(a + b =~= a);
    } else {
        lemma_absorb_concat(c, a, b.drop_last());
        assert((a + b).drop_last() =~= a + b.drop_last());
        assert((a + b).last() == b.last());
    }
}

/// The texts of two runs of events in a row.
pub proof fn lemma_text_of_concat(a: Seq<StreamEventView>, b: Seq<StreamEventView>)
    ensures
        text_of(a + b) == text_of(a) + text_of(b),
    decreases b.len(),
{
    if b.len() == 0 {
        assert(a + b =~= a);
        assert(text_of(a) + text_of(b) =~= text_of(a));
    } else {
        lemma_text_of_concat(a, b.drop_last());
        assert((a + b).drop_last() =~= a + b.drop_last());
        assert((a + b).last() == b.last());
        match b.last() {
            StreamEventView::TextDelta { delta } => {
                assert((text_of(a) + text_of(b.drop_last())) + delta =~= text_of(a) + (text_of(
                    b.drop_last(),
                ) + delta));
            },
            _ => {},
        }
    }
}

/// From a stream that ends with `Done`, the text of the response is the
/// texts of the text events before `Done` in a row, and its usage is the
/// last usage before `Done`; what comes after `Done` does not count.
pub proof fn lemma_collected_stream(
    model: Seq<char>,
    events: Seq<StreamEventView>,
    rest: Seq<StreamEventView>,
)
    requires
        no_done(events),
    ensures
        collected(model, events.push(StreamEventView::Done) + rest).output_text == text_of(events),
        collected(model, events.push(StreamEventView::Done) + rest).usage == last_usage(events),
{
    lemma_collected_text(events);
    lemma_absorb_concat(nothing(), events.push(StreamEventView::Done), rest);
    assert(events.push(StreamEventView::Done).drop_last() =~= events);
    lemma_done_is_final(absorb_all(nothing(), events.push(StreamEventView::Done)), rest);
}

/// Gathers the events of one stream into a response.
pub struct StreamCollector {
    text: String,
    usage: Option<Usage>,
    deltas: Vec<(String, Json)>,
    done: bool,
}

impl View for StreamCollector {
    type V = Collected;

    closed spec fn view(&self) -> Collected {
        Collected {
            text: self.text@,
            usage: self.usage,
            deltas: entry_seq(self.deltas@),
            done: self.done,
        }
    }
}

fn name_of(delta: &Json) -> (r: String)
    ensures
        r@ == delta_name(delta@),
{
    match get_str(delta.get("name")) {
        Some(name) => owned(name),
        None => match get_str(get_field(delta.get("function"), "name")) {
            Some(name) => owned(name),
            None => owned("unknown_tool"),
        },
    }
}

fn arguments_of(delta: &Json) -> (r: Json)
    ensures
        r@ == delta_arguments(delta@),
{
    match delta.get("arguments") {
        Some(arguments) => arguments.clone(),
        None => get_or_null(get_field(delta.get("function"), "arguments")),
    }
}

impl StreamCollector {
    /// No call id occurs twice among the deltas that are kept.
    #[verifier::type_invariant]
    spec fn distinct(self) -> bool {
        distinct_keys(entry_seq(self.deltas@))
    }

    /// A collector that has seen no event.
    pub fn new() -> (r: Self)
        ensures
            r@ == nothing(),
    {
        let deltas: Vec<(String, Json)> = Vec::new();
        assert(entry_seq(deltas@) =~= Seq::empty());
        StreamCollector { text: String::new(), usage: None, deltas, done: false }
    }

    /// Whether `Done` was seen: further events change nothing.
    pub fn is_done(&self) -> (r: bool)
        ensures
            r == self@.done,
    {
        self.done
    }

    fn put_delta(&mut self, call_id: String, delta: Json)
        ensures
            final(self)@ == (Collected {
                deltas: upsert(old(self)@.deltas, call_id@, delta@),
                ..old(self)@
            }),
    {
        proof {
            use_type_invariant(&*self);
        }
        let ghost entries = entry_seq(self.deltas@);
        let mut deltas: Vec<(String, Json)> = Vec::new();
        assert(entry_seq(deltas@) =~= Seq::empty());
        std::mem::swap(&mut deltas, &mut self.deltas);
        proof {
            lemma_upsert_distinct(entries, call_id@, delta@);
        }
        let mut i: usize = 0;
        let mut found = false;
        while i < deltas.len() && !found
            invariant
                i <= deltas.len(),
                entries == entry_seq(deltas@),
                found ==> i < deltas.len() && entries[i as int].0 == call_id@,
                forall|k: int| 0 <= k < i ==> (#[trigger] entries[k]).0 != call_id@,
            decreases deltas.len() - i + (if found { 0int } else { 1int }),
        {
            if str_eq(deltas[i].0.as_str(), call_id.as_str()) {
                found = true;
            } else {
                i += 1;
            }
        }
        if found {
            proof {
                lemma_upsert_found(entries, call_id@, delta@, i as int);
            }
            deltas.set(i, (call_id, delta));
            assert(entry_seq(deltas@) =~= entries.update(i as int, (call_id@, delta@)));
        } else {
            proof {
                lemma_upsert_missing(entries, call_id@, delta@);
            }
            deltas.push((call_id, delta));
            assert(entry_seq(deltas@) =~= entries.push((call_id@, delta@)));
        }
        self.deltas = deltas;
    }

    /// Takes in the next event of the stream, and says whether the stream is
    /// done with it.
    pub fn push(&mut self, event: StreamEvent) -> (done: bool)
        ensures
            final(self)@ == absorb(old(self)@, event@),
            done == final(self)@.done,
            distinct_keys(final(self)@.deltas),
    {
        proof {
            use_type_invariant(&*self);
        }
        if self.done {
            return true;
        }
        match event {
            StreamEvent::TextDelta { delta } => {
                let mut text = String::new();
                std::mem::swap(&mut text, &mut self.text);
                text.append(delta.as_str());
                self.text = text;
            },
            StreamEvent::ToolCallDelta { call_id, delta } => {
                self.put_delta(call_id, delta);
            },
            StreamEvent::Usage { usage } => {
                self.usage = Some(usage);
            },
            StreamEvent::Done => {
                self.done = true;
            },
        }
        proof {
            use_type_invariant(&*self);
        }
        self.done
    }

    /// The response that is put together from what was gathered, under the
    /// model that was asked: one tool call for each call id, in the order in
    /// which the ids first came.
    pub fn finish(self, model: String) -> (r: ChatResponse)
        ensures
            r@ == response(self@, model@),
            distinct_keys(self@.deltas),
            forall|i: int, j: int|
                0 <= i < j < r@.tool_calls.len() ==> (#[trigger] r@.tool_calls[i]).id != (
                #[trigger] r@.tool_calls[j]).id,
    {
        proof {
            use_type_invariant(&self);
        }
        let mut tool_calls: Vec<ToolCall> = Vec::new();
        let mut i: usize = 0;
        while i < self.deltas.len()
            invariant
                i <= self.deltas.len(),
                tool_calls.len() == i,
                forall|k: int|
                    0 <= k < i ==> tool_calls@[k]@ == collected_call(
                        (self.deltas@[k].0@, self.deltas@[k].1@),
                    ),
            decreases self.deltas.len() - i,
        {
            tool_calls.push(
                ToolCall {
                    id: self.deltas[i].0.clone(),
                    name: name_of(&self.deltas[i].1),
                    arguments: arguments_of(&self.deltas[i].1),
                },
            );
            i += 1;
        }
        assert(views(tool_calls@) =~= entry_seq(self.deltas@).map_values(
            |entry: (Seq<char>, JsonValue)| collected_call(entry),
        ));
        ChatResponse {
            id: owned("stream-collected"),
            model,
            output_text: self.text,
            tool_calls,
            usage: self.usage,
        }
    }
}

/// The response that is put together from the events of a stream, under the
/// model that was asked. Events after `Done` do not count.
pub fn collect_events(model: String, events: Vec<StreamEvent>) -> (r: ChatResponse)
    ensures
        r@ == collected(model@, views(events@)),
        forall|i: int, j: int|
            0 <= i < j < r@.tool_calls.len() ==> (#[trigger] r@.tool_calls[i]).id != (
            #[trigger] r@.tool_calls[j]).id,
{
    let ghost all = views(events@);
    let mut collector = StreamCollector::new();
    let mut i: usize = 0;
    assert(all.take(0) =~= Seq::empty());
    while i < events.len()
        invariant
            i <= events.len(),
            all == views(events@),
            collector@ == absorb_all(nothing(), all.take(i as int)),
        decreases events.len() - i,
    {
        proof {
            let next = all.take(i + 1);
            assert(next.drop_last() =~= all.take(i as int));
            assert(next.last() == events@[i as int]@);
        }
        collector.push(events[i].clone());
        i += 1;
    }
    assert(all.take(events.len() as int) =~= all);
    collector.finish(model)
}

} // verus!
