use crate::keyboard::{emit, key_down_report, release_report, KeyboardState};
use crate::keycodes::{keycode_of, lemma_usage_code_nonzero, supported, KeyEvent};
use crate::queue::CAPACITY;
use crate::typing::{
    all_supported, enqueued, events_of, lemma_first_unsupported_at, overflows, room,
    stops_at_unknown, types_fully,
};
use crate::uid::{hex_char, hex_of, typed_text, UID_LEN};
use vstd::prelude::*;

verus! {

/// The reports that a keyboard in state `s` emits, step by step, until it
/// is idle.
pub open spec fn reports(s: KeyboardState) -> Seq<Seq<u8>>
    decreases 2 * s.pending.len() + if s.release { 1nat } else { 0nat },
{
    match emit(s).1 {
        Some(report) => seq![report] + reports(emit(s).0),
        None => Seq::empty(),
    }
}

/// The reports that strike `events` one after the other: for each a
/// key-down report and then the release report.
pub open spec fn strokes(events: Seq<KeyEvent>) -> Seq<Seq<u8>> {
    Seq::new(
        2 * events.len(),
        |i: int| if i % 2 == 0 { key_down_report(events[i / 2]) } else { release_report() },
    )
}

/// The release that is still owed for a key reported down, if any.
pub open spec fn owed_release(s: KeyboardState) -> Seq<Seq<u8>> {
    if s.release { seq![release_report()] } else { Seq::empty() }
}

/// Striking one sequence of keys after another is striking their
/// concatenation.
pub proof fn lemma_strokes_concat(a: Seq<KeyEvent>, b: Seq<KeyEvent>)
    ensures
        strokes(a + b) == strokes(a) + strokes(b),
{
    assert(strokes(a + b) =~= strokes(a) + strokes(b));
}

/// Emission alternates. Whatever the state, the reports still to come are
/// the release that is owed, if a key is down, and then the pending key
/// strokes in queue order, each as a key-down report immediately followed
/// by the release report.
pub proof fn lemma_reports_alternate(s: KeyboardState)
    ensures
        reports(s) == owed_release(s) + strokes(s.pending),
        reports(s).len() == (if s.release { 1nat } else { 0nat }) + 2 * s.pending.len(),
        forall|j: int| 0 <= j < s.pending.len() ==> {
            &&& #[trigger] strokes(s.pending)[2 * j] == key_down_report(s.pending[j])
            &&& strokes(s.pending)[2 * j + 1] == release_report()
        },
    decreases 2 * s.pending.len() + if s.release { 1nat } else { 0nat },
{
    if s.release {
        lemma_reports_alternate(emit(s).0);
        assert(reports(s) =~= owed_release(s) + strokes(s.pending));
    } else if s.pending.len() > 0 {
        let next = emit(s).0;
        lemma_reports_alternate(next);
        assert(seq![key_down_report(s.pending[0])] + (owed_release(next) + strokes(next.pending))
            =~= strokes(s.pending));
        assert(reports(s) =~= owed_release(s) + strokes(s.pending));
    } else {
        assert(reports(s) =~= owed_release(s) + strokes(s.pending));
    }
}

/// A text whose characters all have keys and fit in the queue is typed in
/// full, and is struck in the order of its characters: the reports to come
/// are those that were already due, and then, for each character of the
/// text in turn, the key-down report of its key and the release report.
/// The first of all these is the report that the emission step after the
/// enqueue hands out.
pub proof fn lemma_typed_text_is_struck(s: KeyboardState, text: Seq<char>)
    requires
        all_supported(text),
        text.len() <= room(s),
    ensures
        types_fully(s, text),
        enqueued(s, text).pending == s.pending + events_of(text),
        reports(enqueued(s, text)) == reports(s) + strokes(events_of(text)),
        strokes(events_of(text)).len() == 2 * text.len(),
        forall|i: int| 0 <= i < text.len() ==> {
            &&& #[trigger] strokes(events_of(text))[2 * i] == key_down_report(
                keycode_of(text[i]).unwrap(),
            )
            &&& strokes(events_of(text))[2 * i + 1] == release_report()
        },
        match emit(enqueued(s, text)).1 {
            Some(first) => reports(enqueued(s, text)) == seq![first] + reports(
                emit(enqueued(s, text)).0,
            ),
            None => reports(enqueued(s, text)) == Seq::<Seq<u8>>::empty(),
        },
{
    lemma_first_unsupported_at(text, text.len() as int);
    assert(text.take(text.len() as int) =~= text);
    let after = enqueued(s, text);
    lemma_reports_alternate(s);
    lemma_reports_alternate(after);
    lemma_strokes_concat(s.pending, events_of(text));
    assert(owed_release(after) + (strokes(s.pending) + strokes(events_of(text))) =~= (owed_release(
        s,
    ) + strokes(s.pending)) + strokes(events_of(text)));
}

/// A text whose first character without a key stands at position `i`, with
/// room in the queue for the `i` characters before it, stops at that
/// character: the key strokes of those `i` characters are appended to the
/// queue, which so grows by `i`, and nothing else changes.
pub proof fn lemma_unknown_character_keeps_prefix(s: KeyboardState, text: Seq<char>, i: int)
    requires
        0 <= i < text.len(),
        !supported(text[i]),
        forall|j: int| 0 <= j < i ==> supported(#[trigger] text[j]),
        i <= room(s),
    ensures
        stops_at_unknown(s, text),
        enqueued(s, text).pending == s.pending + events_of(text.take(i)),
        enqueued(s, text).pending.len() == s.pending.len() + i,
        enqueued(s, text).release == s.release,
{
    lemma_first_unsupported_at(text, i);
}

/// A text that brings more key strokes than the queue has room for
/// overflows: the queue is filled to its capacity with the first of them,
/// and the key strokes that were pending before are still there, in their
/// places and ahead of the new ones.
pub proof fn lemma_overflow_keeps_queue(s: KeyboardState, text: Seq<char>)
    requires
        s.pending.len() <= CAPACITY,
        room(s) < text.len(),
        forall|j: int| 0 <= j <= room(s) ==> supported(#[trigger] text[j]),
    ensures
        overflows(s, text),
        enqueued(s, text).pending == s.pending + events_of(text.take(room(s))),
        enqueued(s, text).pending.len() == CAPACITY,
        enqueued(s, text).pending.take(s.pending.len() as int) == s.pending,
        enqueued(s, text).release == s.release,
{
    lemma_first_unsupported_at(text, room(s) + 1);
    assert(enqueued(s, text).pending.take(s.pending.len() as int) =~= s.pending);
}

/// The key-down report of a character of the layout is never the release
/// report: its usage code is not zero. So in a run of typed text a key-down
/// can be told from the release that follows it.
pub proof fn lemma_key_down_differs_from_release(c: char)
    requires
        supported(c),
    ensures
        key_down_report(keycode_of(c).unwrap()) != release_report(),
{
    lemma_usage_code_nonzero(c);
    assert(key_down_report(keycode_of(c).unwrap())[2] != release_report()[2]);
}

/// The text that is typed for a card has a key for each of its characters
/// and fits in the queue of a keyboard that holds nothing: a keyboard that
/// has caught up types every card in full.
pub proof fn lemma_card_text_is_typed_fully(uid: Seq<u8>)
    requires
        uid.len() <= UID_LEN,
    ensures
        all_supported(typed_text(uid)),
        typed_text(uid).len() == 2 * uid.len() + 1,
        typed_text(uid).len() <= CAPACITY,
{
    assert forall|i: int| 0 <= i < typed_text(uid).len() implies supported(
        #[trigger] typed_text(uid)[i],
    ) by {
        if i < 2 * uid.len() {
            let byte = uid[i / 2];
            assert(typed_text(uid)[i] == hex_of(uid)[i]);
            assert(supported(hex_char(byte / 16)));
            assert(supported(hex_char(byte % 16)));
        }
    }
}

} // verus!
