//! Edit mode: text fields of a page followed from outside.
//!
//! The injected script reports focus, blur and changes of editable fields in
//! console lines that start with [`EDIT_CONSOLE_SENTINEL`], followed by a JSON
//! object. The events queue up in order: a `focus`, `blur`, `focus` burst means
//! three things, so none may be dropped.
use crate::scripts::EDIT_JS;
use crate::text::{replace_all, replaced, same_text, slice_string, starts_with, to_chars};
use std::collections::VecDeque;
use vstd::prelude::*;

verus! {

/// Prefix of every edit-mode console line.
pub const EDIT_CONSOLE_SENTINEL: &'static str = "__buffr_edit__:";

/// CSS class of the field under edit.
pub const EDIT_DOM_OVERLAY_CLASS: &'static str = "buffr-edit-active";

/// Why the payload of an edit-mode console line could not be read.
#[derive(Debug, PartialEq, Eq)]
pub enum ParseError {
    /// Not the expected JSON, with the decoder's message.
    Json(String),
    /// An event type that is not known.
    UnknownType(String),
}

/// Kind of an editable field.
#[derive(Debug, Clone, Copy, PartialEq, Eq, Structural)]
pub enum EditFieldKind {
    Input,
    Textarea,
    ContentEditable,
}

/// Events of editable fields. `field_id` names the same element across events.
#[derive(Debug, Clone, PartialEq)]
pub enum EditConsoleEvent {
    /// A field got the focus; the carets are missing where the page has none.
    Focus {
        field_id: String,
        kind: EditFieldKind,
        value: String,
        selection_start: Option<u32>,
        selection_end: Option<u32>,
    },
    /// A field lost the focus.
    Blur { field_id: String },
    /// The page changed a field.
    Mutate { field_id: String, value: String },
    /// The selected text, on request.
    Selection { value: String },
}

/// What the payload of an edit-mode line holds, as its `type` says.
#[derive(Debug, Clone, Copy, PartialEq, Eq, Structural)]
pub enum EditShape {
    Focus,
    Blur,
    Mutate,
    Selection,
}

/// The shape that goes with a `type`.
pub open spec fn shape_of(tag: Seq<char>) -> Option<EditShape> {
    if tag == "focus"@ {
        Some(EditShape::Focus)
    } else if tag == "blur"@ {
        Some(EditShape::Blur)
    } else if tag == "mutate"@ {
        Some(EditShape::Mutate)
    } else if tag == "selection"@ {
        Some(EditShape::Selection)
    } else {
        None
    }
}

/// The fields of a payload as a JSON decoder finds them.
#[derive(Debug, Clone, PartialEq)]
pub struct RawEdit {
    pub field_id: Option<String>,
    pub kind: Option<EditFieldKind>,
    pub value: Option<String>,
    pub selection_start: Option<u32>,
    pub selection_end: Option<u32>,
}

/// Whether `raw` holds every field that `shape` needs.
pub open spec fn complete(shape: EditShape, raw: RawEdit) -> bool {
    match shape {
        EditShape::Focus => raw.field_id is Some && raw.kind is Some && raw.value is Some,
        EditShape::Blur => raw.field_id is Some,
        EditShape::Mutate => raw.field_id is Some && raw.value is Some,
        EditShape::Selection => raw.value is Some,
    }
}

/// The event of this shape with these fields.
pub open spec fn event_of(shape: EditShape, raw: RawEdit) -> EditConsoleEvent {
    match shape {
        EditShape::Focus => EditConsoleEvent::Focus {
            field_id: raw.field_id->0,
            kind: raw.kind->0,
            value: raw.value->0,
            selection_start: raw.selection_start,
            selection_end: raw.selection_end,
        },
        EditShape::Blur => EditConsoleEvent::Blur { field_id: raw.field_id->0 },
        EditShape::Mutate => EditConsoleEvent::Mutate {
            field_id: raw.field_id->0,
            value: raw.value->0,
        },
        EditShape::Selection => EditConsoleEvent::Selection { value: raw.value->0 },
    }
}

/// The payload of an edit-mode console line: what follows the sentinel that it
/// starts with. `None` for any other line.
pub fn console_payload(line: &str) -> (r: Option<String>)
    ensures
        match r {
            Some(t) => EDIT_CONSOLE_SENTINEL@.is_prefix_of(line@) && t@ == line@.skip(
                EDIT_CONSOLE_SENTINEL@.len() as int,
            ),
            None => !EDIT_CONSOLE_SENTINEL@.is_prefix_of(line@),
        },
        match r {
            Some(t) => line@ == "__buffr_edit__:"@ + t@,
            None => forall|t: Seq<char>| line@ != #[trigger] ("__buffr_edit__:"@ + t),
        },
{
    proof {
        assert forall|t: Seq<char>| line@ == #[trigger] ("__buffr_edit__:"@ + t) implies
            EDIT_CONSOLE_SENTINEL@.is_prefix_of(line@) by {
            assert(line@.subrange(0, "__buffr_edit__:"@.len() as int) == "__buffr_edit__:"@);
        }
    }
    if !starts_with(line, EDIT_CONSOLE_SENTINEL) {
        return None;
    }
    let text = to_chars(line);
    let mark = to_chars(EDIT_CONSOLE_SENTINEL);
    assert(text@.subrange(mark@.len() as int, text@.len() as int) == line@.skip(mark@.len() as int));
    Some(slice_string(text.as_slice(), mark.len(), text.len()))
}

/// What a payload of this `type` holds.
pub fn event_shape(tag: &str) -> (r: Result<EditShape, ParseError>)
    ensures
        match r {
            Ok(shape) => shape_of(tag@) == Some(shape),
            Err(ParseError::UnknownType(t)) => shape_of(tag@) is None && t@ == tag@,
            Err(ParseError::Json(_)) => false,
        },
        r == Ok::<EditShape, ParseError>(EditShape::Focus) <==> tag@ == "focus"@,
        r == Ok::<EditShape, ParseError>(EditShape::Blur) <==> tag@ == "blur"@,
        r == Ok::<EditShape, ParseError>(EditShape::Mutate) <==> tag@ == "mutate"@,
        r == Ok::<EditShape, ParseError>(EditShape::Selection) <==> tag@ == "selection"@,
{
    proof {
        law_types_are_told_apart(tag@);
    }
    if same_text(tag, "focus") {
        Ok(EditShape::Focus)
    } else if same_text(tag, "blur") {
        Ok(EditShape::Blur)
    } else if same_text(tag, "mutate") {
        Ok(EditShape::Mutate)
    } else if same_text(tag, "selection") {
        Ok(EditShape::Selection)
    } else {
        Err(ParseError::UnknownType(tag.to_owned()))
    }
}

/// Build the event of this shape. `None` if a field that it needs is missing.
pub fn build_event(shape: EditShape, raw: RawEdit) -> (r: Option<EditConsoleEvent>)
    ensures
        r == if complete(shape, raw) {
            Some(event_of(shape, raw))
        } else {
            None
        },
        match (shape, r) {
            (
                EditShape::Focus,
                Some(
                    EditConsoleEvent::Focus { field_id, kind, value, selection_start, selection_end },
                ),
            ) => {
                &&& raw.field_id == Some(field_id)
                &&& raw.kind == Some(kind)
                &&& raw.value == Some(value)
                &&& selection_start == raw.selection_start
                &&& selection_end == raw.selection_end
            },
            (EditShape::Focus, None) => raw.field_id is None || raw.kind is None || raw.value
                is None,
            (EditShape::Blur, Some(EditConsoleEvent::Blur { field_id })) => raw.field_id == Some(
                field_id,
            ),
            (EditShape::Blur, None) => raw.field_id is None,
            (EditShape::Mutate, Some(EditConsoleEvent::Mutate { field_id, value })) => raw.field_id
                == Some(field_id) && raw.value == Some(value),
            (EditShape::Mutate, None) => raw.field_id is None || raw.value is None,
            (EditShape::Selection, Some(EditConsoleEvent::Selection { value })) => raw.value
                == Some(value),
            (EditShape::Selection, None) => raw.value is None,
            _ => false,
        },
{
    match shape {
        EditShape::Focus => match (raw.field_id, raw.kind, raw.value) {
            (Some(field_id), Some(kind), Some(value)) => Some(
                EditConsoleEvent::Focus {
                    field_id,
                    kind,
                    value,
                    selection_start: raw.selection_start,
                    selection_end: raw.selection_end,
                },
            ),
            _ => None,
        },
        EditShape::Blur => match raw.field_id {
            Some(field_id) => Some(EditConsoleEvent::Blur { field_id }),
            None => None,
        },
        EditShape::Mutate => match (raw.field_id, raw.value) {
            (Some(field_id), Some(value)) => Some(EditConsoleEvent::Mutate { field_id, value }),
            _ => None,
        },
        EditShape::Selection => match raw.value {
            Some(value) => Some(EditConsoleEvent::Selection { value }),
            None => None,
        },
    }
}

/// Queue of edit events, in arrival order.
pub type EditEventSink = VecDeque<EditConsoleEvent>;

/// An empty queue.
pub fn new_edit_event_sink() -> (r: EditEventSink)
    ensures
        r@.len() == 0,
{
    VecDeque::new()
}

/// Take all queued events, oldest first.
pub fn drain_edit_events(sink: &mut EditEventSink) -> (r: Vec<EditConsoleEvent>)
    ensures
        r@ == old(sink)@,
        final(sink)@.len() == 0,
{
    let mut out: Vec<EditConsoleEvent> = Vec::new();
    let ghost all = sink@;
    while sink.len() > 0
        invariant
            all == out@ + sink@,
        decreases sink@.len(),
    {
        let ghost before = sink@;
        match sink.pop_front() {
            Some(e) => {
                out.push(e);
                assert(all == out@ + sink@);
            },
            None => {},
        }
    }
    assert(out@ + sink@ == out@);
    out
}

/// The edit-mode script with its sentinel and CSS class filled in.
pub fn build_inject_script() -> (r: String)
    ensures
        r@ == replaced(
            replaced(EDIT_JS@, "%%SENTINEL%%"@, EDIT_CONSOLE_SENTINEL@),
            "%%OVERLAY_CLASS%%"@,
            EDIT_DOM_OVERLAY_CLASS@,
        ),
        r@ == replaced(
            replaced(EDIT_JS@, "%%SENTINEL%%"@, "__buffr_edit__:"@),
            "%%OVERLAY_CLASS%%"@,
            "buffr-edit-active"@,
        ),
{
    proof {
        reveal_strlit("%%SENTINEL%%");
        reveal_strlit("%%OVERLAY_CLASS%%");
    }
    let filled = replace_all(EDIT_JS, "%%SENTINEL%%", EDIT_CONSOLE_SENTINEL);
    replace_all(filled.as_str(), "%%OVERLAY_CLASS%%", EDIT_DOM_OVERLAY_CLASS)
}

/// Each of the four types has its own shape, and no other type has one.
pub proof fn law_types_are_told_apart(tag: Seq<char>)
    ensures
        shape_of(tag) == Some(EditShape::Focus) <==> tag == "focus"@,
        shape_of(tag) == Some(EditShape::Blur) <==> tag == "blur"@,
        shape_of(tag) == Some(EditShape::Mutate) <==> tag == "mutate"@,
        shape_of(tag) == Some(EditShape::Selection) <==> tag == "selection"@,
{
    reveal_strlit("focus");
    reveal_strlit("blur");
    reveal_strlit("mutate");
    reveal_strlit("selection");
    assert("focus"@.len() == 5);
    assert("blur"@.len() == 4);
    assert("mutate"@.len() == 6);
    assert("selection"@.len() == 9);
}

/// The event of a focus payload carries each field of the payload under its
/// own name, the carets included, so carets in order stay in order.
pub proof fn law_focus_event_carries_the_payload(
    raw: RawEdit,
    field_id: String,
    kind: EditFieldKind,
    value: String,
)
    requires
        raw.field_id == Some(field_id),
        raw.kind == Some(kind),
        raw.value == Some(value),
    ensures
        complete(EditShape::Focus, raw),
        event_of(EditShape::Focus, raw) == (EditConsoleEvent::Focus {
            field_id,
            kind,
            value,
            selection_start: raw.selection_start,
            selection_end: raw.selection_end,
        }),
        match event_of(EditShape::Focus, raw) {
            EditConsoleEvent::Focus { selection_start, selection_end, .. } => raw.selection_start
                is Some && raw.selection_end is Some && raw.selection_start->0
                <= raw.selection_end->0 ==> selection_start is Some && selection_end is Some
                && selection_start->0 <= selection_end->0,
            _ => false,
        },
{
}

/// The events of the other types carry their fields too, and a payload lacks
/// nothing exactly if it holds what its event carries; carets are never
/// needed.
pub proof fn law_events_carry_their_fields(raw: RawEdit, field_id: String, value: String)
    ensures
        raw.field_id == Some(field_id) ==> event_of(EditShape::Blur, raw) == (
        EditConsoleEvent::Blur { field_id }),
        raw.field_id == Some(field_id) && raw.value == Some(value) ==> event_of(
            EditShape::Mutate,
            raw,
        ) == (EditConsoleEvent::Mutate { field_id, value }),
        raw.value == Some(value) ==> event_of(EditShape::Selection, raw) == (
        EditConsoleEvent::Selection { value }),
        complete(EditShape::Focus, raw) <==> raw.field_id is Some && raw.kind is Some && raw.value
            is Some,
        complete(EditShape::Blur, raw) <==> raw.field_id is Some,
        complete(EditShape::Mutate, raw) <==> raw.field_id is Some && raw.value is Some,
        complete(EditShape::Selection, raw) <==> raw.value is Some,
{
}

} // verus!
