//! Pieces of the wire formats that more than one provider shares.

use crate::json::{get_string, get_u64, json_seq, str_or_empty, u64_of, Json, JsonValue};
use crate::model::{low32, low_u32, Message, MessageView, StreamEventView, Usage};
use crate::text::{join, join_strings, texts};
use vstd::prelude::*;
use vstd::string::*;

verus! {

/// The `text` strings of the parts, in a row; a part without such a string
/// adds nothing.
pub open spec fn part_texts(parts: Seq<JsonValue>) -> Seq<char>
    decreases parts.len(),
{
    if parts.len() == 0 {
        Seq::empty()
    } else {
        part_texts(parts.drop_last()) + str_or_empty(parts.last().get("text"@))
    }
}

/// The contents of the system messages, in order.
pub open spec fn system_chunks(messages: Seq<MessageView>) -> Seq<Seq<char>>
    decreases messages.len(),
{
    if messages.len() == 0 {
        Seq::empty()
    } else if messages.last().role is System {
        system_chunks(messages.drop_last()).push(messages.last().content)
    } else {
        system_chunks(messages.drop_last())
    }
}

/// The instructions of a conversation: the contents of its system messages,
/// with an empty line between each two.
pub open spec fn system_text(messages: Seq<MessageView>) -> Seq<char> {
    join(system_chunks(messages), "\n\n"@)
}

/// A counter of a usage object: its low 32 bits, or 0 where it is missing.
pub open spec fn counter(raw: JsonValue, key: Seq<char>) -> u32 {
    match u64_of(raw.get(key)) {
        Some(n) => low32(n),
        None => 0,
    }
}

/// The usage event of a payload.
pub open spec fn usage_events(u: Option<Usage>) -> Seq<StreamEventView> {
    match u {
        Some(usage) => seq![StreamEventView::Usage { usage }],
        None => Seq::empty(),
    }
}

/// Appends the `text` strings of the parts to `out`.
pub fn append_part_texts(out: &mut String, parts: &Vec<Json>)
    ensures
        final(out)@ == old(out)@ + part_texts(json_seq(parts@)),
{
    let ghost all = json_seq(parts@);
    let ghost start = out@;
    let mut i: usize = 0;
    assert(all.take(0) =~= Seq::empty());
    assert(start + Seq::<char>::empty() =~= start);
    while i < parts.len()
        invariant
            i <= parts.len(),
            all == json_seq(parts@),
            out@ == start + part_texts(all.take(i as int)),
        decreases parts.len() - i,
    {
        proof {
            let next = all.take(i + 1);
            assert(next.drop_last() =~= all.take(i as int));
            assert(next.last() == parts@[i as int]@);
        }
        let text = get_string(parts[i].get("text"));
        out.append(text.as_str());
        assert(out@ =~= start + part_texts(all.take(i + 1)));
        i += 1;
    }
    assert(all.take(parts.len() as int) =~= all);
}

/// A counter of a usage object: its low 32 bits, or 0 where it is missing.
pub fn read_counter(raw: &Json, key: &str) -> (r: u32)
    ensures
        r == counter(raw@, key@),
{
    match get_u64(raw.get(key)) {
        Some(n) => low_u32(n),
        None => 0,
    }
}

/// The contents of the system messages, in order.
pub fn collect_system_chunks(messages: &Vec<Message>) -> (r: Vec<String>)
    ensures
        texts(r@) == system_chunks(crate::model::views(messages@)),
{
    let ghost all = crate::model::views(messages@);
    let mut out: Vec<String> = Vec::new();
    let mut i: usize = 0;
    assert(all.take(0) =~= Seq::empty());
    assert(texts(out@) =~= Seq::empty());
    while i < messages.len()
        invariant
            i <= messages.len(),
            all == crate::model::views(messages@),
            texts(out@) == system_chunks(all.take(i as int)),
        decreases messages.len() - i,
    {
        proof {
            let next = all.take(i + 1);
            assert(next.drop_last() =~= all.take(i as int));
            assert(next.last() == messages@[i as int]@);
        }
        match messages[i].role {
            crate::model::Role::System => {
                let ghost before = texts(out@);
                out.push(messages[i].content.clone());
                assert(texts(out@) =~= before.push(messages@[i as int].content@));
            },
            _ => {},
        }
        i += 1;
    }
    assert(all.take(messages.len() as int) =~= all);
    out
}

/// The instructions of a conversation, where it has system messages.
pub fn system_instructions(messages: &Vec<Message>) -> (r: Option<String>)
    ensures
        match r {
            Some(t) => system_chunks(crate::model::views(messages@)).len() > 0 && t@
                == system_text(crate::model::views(messages@)),
            None => system_chunks(crate::model::views(messages@)).len() == 0,
        },
{
    let chunks = collect_system_chunks(messages);
    if chunks.len() == 0 {
        None
    } else {
        Some(join_strings(&chunks, "\n\n"))
    }
}

} // verus!
