//! The gameflow phase: how it is found in the frames of the client's
//! websocket and in the answer of the priming request.

use crate::json::{
    decode_json, is_text, json_items, json_member, json_parse, json_str, json_tree, member,
    member_string, member_text, text_of, JsonTree,
};
use crate::model::{opt_text, Event, EventKind, EventView, PayloadView};
use crate::text::{
    chars_of, lemma_leading_is, lemma_trailing_is, string_of_range, stripped, trim_bounds, trimmed,
};
use vstd::prelude::*;

verus! {

/// The URI under which the client announces the gameflow phase.
pub open spec fn gameflow_uri() -> Seq<char> {
    "/lol-gameflow/v1/gameflow-phase"@
}

/// The name of the event under which the client announces changes.
pub open spec fn api_event() -> Seq<char> {
    "OnJsonApiEvent"@
}

/// The phase that a payload object tells: the object's `uri` is the
/// gameflow URI, and its `data` is the phase, or an object that has the
/// phase under `phase` or, failing that, under `gameflowPhase`.
pub open spec fn payload_phase(tree: JsonTree) -> Option<Seq<char>> {
    if member_text(tree, "uri"@) == Some(gameflow_uri()) {
        match member(tree, "data"@) {
            Some(data) => if text_of(data) is Some {
                text_of(data)
            } else if member_text(data, "phase"@) is Some {
                member_text(data, "phase"@)
            } else {
                member_text(data, "gameflowPhase"@)
            },
            None => None,
        }
    } else {
        None
    }
}

/// The phase that a document tells, if it tells one.
///
/// An array of three or more elements that begins with the event name and
/// the gameflow URI tells what its third element is, if that is a string,
/// and nothing else. An array of three or more elements whose second element
/// is the event name tells what its third element tells. Any other array
/// tells what the first of its elements that tells a phase does. An object
/// tells what it tells as a payload.
pub open spec fn phase_of(tree: JsonTree) -> Option<Seq<char>>
    decreases tree,
{
    match tree {
        JsonTree::Array(items) => if items.len() >= 3 && text_of(items[0]) == Some(api_event())
            && text_of(items[1]) == Some(gameflow_uri()) {
            text_of(items[2])
        } else if items.len() >= 3 && text_of(items[1]) == Some(api_event()) && phase_of(
            items[2],
        ) is Some {
            phase_of(items[2])
        } else {
            first_phase(items, 0)
        },
        JsonTree::Object(_) => payload_phase(tree),
        _ => None,
    }
}

/// The phase that the first of the elements from `from` on tells, if one of
/// them tells a phase.
pub open spec fn first_phase(items: Seq<JsonTree>, from: int) -> Option<Seq<char>>
    decreases items, items.len() - from,
{
    if 0 <= from < items.len() {
        if phase_of(items[from]) is Some {
            phase_of(items[from])
        } else {
            first_phase(items, from + 1)
        }
    } else {
        None
    }
}

/// The phase that a payload object tells.
fn extract_payload_phase(value: &serde_json::Value) -> (res: Option<String>)
    ensures
        opt_text(res) == payload_phase(json_tree(*value)),
{
    let uri_matches = match json_member(value, "uri") {
        Some(uri) => is_text(uri, "/lol-gameflow/v1/gameflow-phase"),
        None => false,
    };
    if !uri_matches {
        return None;
    }
    match json_member(value, "data") {
        Some(data) => {
            if let Some(phase) = json_str(data) {
                return Some(phase.to_owned());
            }
            let phase = member_string(data, "phase");
            if phase.is_some() {
                return phase;
            }
            member_string(data, "gameflowPhase")
        },
        None => None,
    }
}

/// Finds the gameflow phase in a decoded frame.
pub fn extract_phase(value: &serde_json::Value) -> (res: Option<String>)
    ensures
        opt_text(res) == phase_of(json_tree(*value)),
    decreases json_tree(*value),
{
    let items = match json_items(value) {
        Some(items) => items,
        None => {
            return extract_payload_phase(value);
        },
    };
    let ghost trees = json_tree(*value)->Array_0;
    if items.len() >= 3 {
        if is_text(&items[0], "OnJsonApiEvent") && is_text(
            &items[1],
            "/lol-gameflow/v1/gameflow-phase",
        ) {
            return match json_str(&items[2]) {
                Some(phase) => Some(phase.to_owned()),
                None => None,
            };
        }
        if is_text(&items[1], "OnJsonApiEvent") {
            let phase = extract_phase(&items[2]);
            if phase.is_some() {
                return phase;
            }
        }
    }
    let mut i: usize = 0;
    while i < items.len()
        invariant
            0 <= i <= items.len(),
            json_tree(*value) == JsonTree::Array(trees),
            items@.len() == trees.len(),
            forall|k: int| 0 <= k < trees.len() ==> json_tree(#[trigger] items@[k]) == trees[k],
            phase_of(json_tree(*value)) == first_phase(trees, 0),
            first_phase(trees, 0) == first_phase(trees, i as int),
        decreases items.len() - i,
    {
        let phase = extract_phase(&items[i]);
        if phase.is_some() {
            return phase;
        }
        i = i + 1;
    }
    None
}

/// The phase that the text of a frame tells: none if the text is no JSON
/// document, else what the document tells.
pub open spec fn message_phase(payload: Seq<char>) -> Option<Seq<char>> {
    match json_parse(payload) {
        Some(tree) => phase_of(tree),
        None => None,
    }
}

/// Finds the gameflow phase in the text of a frame.
pub fn parse_phase_message(payload: &str) -> (res: Option<String>)
    ensures
        opt_text(res) == message_phase(payload@),
{
    match decode_json(payload) {
        Some(value) => extract_phase(&value),
        None => None,
    }
}

/// The phase that a plain answer tells: the string that the document is, or
/// what an object has under `phase` or, failing that, under `gameflowPhase`.
pub open spec fn plain_phase(tree: JsonTree) -> Option<Seq<char>> {
    if text_of(tree) is Some {
        text_of(tree)
    } else if member_text(tree, "phase"@) is Some {
        member_text(tree, "phase"@)
    } else {
        member_text(tree, "gameflowPhase"@)
    }
}

/// The phase that the body of the priming answer tells. A body that is
/// blank tells none. A body that is a JSON document tells what the document
/// tells as a frame, or else as a plain answer. Any other body tells itself,
/// trimmed, without the quotes around it.
pub open spec fn body_phase(body: Seq<char>) -> Option<Seq<char>> {
    let text = trimmed(body);
    let bare = Some(stripped(text, |c: char| c == '"'));
    if text.len() == 0 {
        None
    } else {
        match json_parse(text) {
            Some(tree) => if phase_of(tree) is Some {
                phase_of(tree)
            } else if plain_phase(tree) is Some {
                plain_phase(tree)
            } else {
                bare
            },
            None => bare,
        }
    }
}

/// Reads the phase from the body of the priming answer.
pub fn parse_phase_body(body: &str) -> (res: Option<String>)
    ensures
        opt_text(res) == body_phase(body@),
{
    let chars = chars_of(body);
    let (from, to) = trim_bounds(&chars);
    if from == to {
        return None;
    }
    let text = string_of_range(&chars, from, to);
    if let Some(value) = decode_json(text.as_str()) {
        let phase = extract_phase(&value);
        if phase.is_some() {
            return phase;
        }
        if let Some(plain) = json_str(&value) {
            return Some(plain.to_owned());
        }
        let named = member_string(&value, "phase");
        if named.is_some() {
            return named;
        }
        let named = member_string(&value, "gameflowPhase");
        if named.is_some() {
            return named;
        }
    }
    let ghost quote = |c: char| c == '"';
    let mut start: usize = from;
    while start < to && chars[start] == '"'
        invariant
            from <= start <= to <= chars.len(),
            forall|i: int| from <= i < start ==> #[trigger] chars@[i] == '"',
        decreases to - start,
    {
        start = start + 1;
    }
    let mut end: usize = to;
    while end > start && chars[end - 1] == '"'
        invariant
            start <= end <= to <= chars.len(),
            forall|i: int| end <= i < to ==> #[trigger] chars@[i] == '"',
        decreases end,
    {
        end = end - 1;
    }
    proof {
        let line = chars@.subrange(from as int, to as int);
        assert forall|i: int| 0 <= i < start - from implies quote(#[trigger] line[i]) by {
            assert(line[i] == chars@[i + from]);
        }
        if start < to {
            assert(line[start - from] == chars@[start as int]);
        }
        lemma_leading_is(line, quote, (start - from) as nat);
        let rest = line.skip(start - from);
        assert forall|i: int| rest.len() - (to - end) <= i < rest.len() implies quote(
            #[trigger] rest[i],
        ) by {
            assert(rest[i] == chars@[i + start]);
        }
        if end > start {
            assert(rest[rest.len() - (to - end) - 1] == chars@[end - 1]);
        }
        lemma_trailing_is(rest, quote, (to - end) as nat);
        assert(rest.take(rest.len() - (to - end)) == chars@.subrange(start as int, end as int));
    }
    Some(string_of_range(&chars, start, end))
}

/// Why the priming request told no phase.
#[derive(Debug, Clone, Copy, PartialEq, Eq, Structural)]
pub enum PhaseFetchError {
    /// The client answered with a status that is neither a success nor
    /// "not found".
    Status(u16),
}

/// What the answer of the priming request tells: no phase for the status
/// "not found", an error for any other status outside 200 to 299, else what
/// the body tells.
pub open spec fn answer_phase(status: u16, body: Seq<char>) -> Result<
    Option<Seq<char>>,
    PhaseFetchError,
> {
    if status == 404 {
        Ok(None)
    } else if !(200 <= status <= 299) {
        Err(PhaseFetchError::Status(status))
    } else {
        Ok(body_phase(body))
    }
}

/// Reads the phase from the answer of the priming request.
pub fn phase_from_answer(status: u16, body: &str) -> (res: Result<Option<String>, PhaseFetchError>)
    ensures
        match res {
            Ok(phase) => answer_phase(status, body@) == Ok::<Option<Seq<char>>, PhaseFetchError>(
                opt_text(phase),
            ),
            Err(error) => answer_phase(status, body@) == Err::<Option<Seq<char>>, PhaseFetchError>(
                error,
            ),
        },
{
    if status == 404 {
        Ok(None)
    } else if status < 200 || status > 299 {
        Err(PhaseFetchError::Status(status))
    } else {
        Ok(parse_phase_body(body))
    }
}

/// The event that announces a phase.
pub fn phase_event(phase: &str, ts: u64) -> (res: Event)
    ensures
        res@ == (EventView {
            kind: EventKind::PhaseChange,
            ts,
            payload: PayloadView::Phase { phase: phase@ },
        }),
{
    Event::phase_change(ts, phase.to_owned())
}

} // verus!
