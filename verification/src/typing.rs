use crate::keyboard::KeyboardState;
use crate::keycodes::{keycode_of, supported, KeyEvent};
use crate::queue::CAPACITY;
use vstd::prelude::*;

verus! {

/// The room that is left in the queue, in key strokes.
pub open spec fn room(s: KeyboardState) -> int {
    CAPACITY - s.pending.len()
}

/// Whether every character of `text` has a key in the layout.
pub open spec fn all_supported(text: Seq<char>) -> bool {
    forall|i: int| 0 <= i < text.len() ==> supported(#[trigger] text[i])
}

/// The position of the first character of `text` that has no key in the
/// layout, or the length of `text` if there is none.
pub open spec fn first_unsupported(text: Seq<char>) -> nat
    decreases text.len(),
{
    if text.len() == 0 || !supported(text[0]) {
        0
    } else {
        1 + first_unsupported(text.drop_first())
    }
}

/// The key strokes that type `text`, character by character.
pub open spec fn events_of(text: Seq<char>) -> Seq<KeyEvent> {
    text.map_values(|c: char| keycode_of(c).unwrap())
}

/// How many characters of `text` reach the queue: those before the first
/// that has no key, as far as there is room for them.
pub open spec fn accepted(s: KeyboardState, text: Seq<char>) -> int {
    if first_unsupported(text) <= room(s) {
        first_unsupported(text) as int
    } else {
        room(s)
    }
}

/// The state after the characters of `text` that reach the queue have been
/// appended to it.
pub open spec fn enqueued(s: KeyboardState, text: Seq<char>) -> KeyboardState {
    KeyboardState {
        pending: s.pending + events_of(text.take(accepted(s, text))),
        release: s.release,
    }
}

/// The text is typed in full: every character has a key and all of them
/// fit in the queue.
pub open spec fn types_fully(s: KeyboardState, text: Seq<char>) -> bool {
    first_unsupported(text) == text.len() && text.len() <= room(s)
}

/// Typing stops at a character without a key, which is reached before the
/// queue is found full.
pub open spec fn stops_at_unknown(s: KeyboardState, text: Seq<char>) -> bool {
    first_unsupported(text) < text.len() && first_unsupported(text) <= room(s)
}

/// Typing stops at a character that has a key but finds the queue full.
pub open spec fn overflows(s: KeyboardState, text: Seq<char>) -> bool {
    first_unsupported(text) > room(s)
}

/// The three facts that fix `first_unsupported`: it lies within the text, no
/// character before it lacks a key, and the character at it, if any, does.
pub proof fn lemma_first_unsupported(text: Seq<char>)
    ensures
        first_unsupported(text) <= text.len(),
        all_supported(text.take(first_unsupported(text) as int)),
        first_unsupported(text) < text.len() ==> !supported(text[first_unsupported(text) as int]),
    decreases text.len(),
{
    if text.len() == 0 || !supported(text[0]) {
    } else {
        let rest = text.drop_first();
        lemma_first_unsupported(rest);
        let u = first_unsupported(rest) as int;
        assert forall|i: int| 0 <= i < u + 1 implies supported(#[trigger] text.take(u + 1)[i]) by {
            if i > 0 {
                assert(text.take(u + 1)[i] == rest.take(u)[i - 1]);
            }
        }
    }
}

/// A position before which every character has a key is not past
/// `first_unsupported`, and is it exactly if its own character has none.
pub proof fn lemma_first_unsupported_at(text: Seq<char>, i: int)
    requires
        0 <= i <= text.len(),
        forall|j: int| 0 <= j < i ==> supported(#[trigger] text[j]),
    ensures
        first_unsupported(text) >= i,
        i < text.len() && !supported(text[i]) ==> first_unsupported(text) == i,
        i == text.len() ==> first_unsupported(text) == i,
    decreases i,
{
    lemma_first_unsupported(text);
    if i > 0 {
        let rest = text.drop_first();
        assert forall|j: int| 0 <= j < i - 1 implies supported(#[trigger] rest[j]) by {
            assert(rest[j] == text[j + 1]);
        }
        assert(supported(text[0]));
        lemma_first_unsupported_at(rest, i - 1);
        if i < text.len() {
            assert(rest[i - 1] == text[i]);
        }
    }
}

} // verus!
