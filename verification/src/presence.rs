use crate::text::Text;
use crate::uid::{
    format_gone_line, format_presented_line, format_typed_text, gone_line, presented_line,
    typed_text, UID_LEN,
};
use vstd::prelude::*;

verus! {

/// The number of poll cycles for which a card counts as present after it
/// was last read.
pub const HYSTERESIS: usize = 5;

/// What one poll of the reader brought.
pub enum Reading<'a> {
    /// A card gave the bytes of its UID.
    Tag(&'a [u8]),
    /// No UID was read: no card answered, or the one that answered could
    /// not be selected.
    Absent,
}

/// A poll result as a plain value.
pub enum Poll {
    Tag(Seq<u8>),
    Absent,
}

impl<'a> View for Reading<'a> {
    type V = Poll;

    open spec fn view(&self) -> Poll {
        match *self {
            Reading::Tag(uid) => Poll::Tag(uid@),
            Reading::Absent => Poll::Absent,
        }
    }
}

/// What the debounce decides on a poll.
pub enum Event {
    /// Nothing is to be announced.
    Nothing,
    /// The card with these UID bytes was presented anew.
    Presented(Seq<u8>),
    /// The card that was present has been removed.
    Gone,
}

/// What the caller is to do after a poll.
#[derive(Debug, PartialEq, Eq)]
pub enum Notice {
    /// Nothing.
    Nothing,
    /// Write `line` to the serial port, then type `keys` on the keyboard.
    Presented { line: Text, keys: Text },
    /// Write `line` to the serial port.
    Gone { line: Text },
}

/// Whether `notice` carries out `event`: the same decision, with the
/// serial line and the typed text that belong to it.
pub open spec fn announces(notice: Notice, event: Event) -> bool {
    match event {
        Event::Nothing => notice is Nothing,
        Event::Presented(uid) => match notice {
            Notice::Presented { line, keys } => line@ == presented_line(uid) && keys@
                == typed_text(uid),
            _ => false,
        },
        Event::Gone => match notice {
            Notice::Gone { line } => line@ == gone_line(),
            _ => false,
        },
    }
}

/// What the debounce remembers: the UID that was read last, padded with
/// zeros to `UID_LEN` bytes, and the number of poll cycles for which its
/// card still counts as present.
pub struct PresenceState {
    pub last_uid: Seq<u8>,
    pub countdown: nat,
}

/// The bytes of a UID, padded with zeros to `UID_LEN` bytes.
pub open spec fn padded(uid: Seq<u8>) -> Seq<u8> {
    Seq::new(UID_LEN as nat, |i: int| if i < uid.len() { uid[i] } else { 0u8 })
}

/// One poll cycle of the debounce: the state afterwards and the decision.
///
/// A UID that is read is a new presentation if no card counts as present
/// or if it differs from the one remembered; either way it is remembered
/// and the countdown starts afresh. Every poll that reads no UID counts the
/// countdown down, and the card is gone at the moment it reaches zero.
pub open spec fn step(s: PresenceState, poll: Poll) -> (PresenceState, Event) {
    match poll {
        Poll::Tag(uid) => (
            PresenceState { last_uid: padded(uid), countdown: HYSTERESIS as nat },
            if s.countdown == 0 || padded(uid) != s.last_uid {
                Event::Presented(uid)
            } else {
                Event::Nothing
            },
        ),
        Poll::Absent => if s.countdown == 0 {
            (s, Event::Nothing)
        } else {
            (
                PresenceState { last_uid: s.last_uid, countdown: (s.countdown - 1) as nat },
                if s.countdown == 1 {
                    Event::Gone
                } else {
                    Event::Nothing
                },
            )
        },
    }
}

/// The presence debounce.
pub struct Presence {
    last_uid: [u8; 10],
    countdown: usize,
}

impl View for Presence {
    type V = PresenceState;

    closed spec fn view(&self) -> PresenceState {
        PresenceState { last_uid: self.last_uid@, countdown: self.countdown as nat }
    }
}

/// Copies `uid` into a buffer of `UID_LEN` bytes and fills the rest with
/// zeros.
fn pad(uid: &[u8]) -> (buffer: [u8; 10])
    requires
        uid@.len() <= UID_LEN,
    ensures
        buffer@ == padded(uid@),
{
    let mut buffer: [u8; 10] = [0, 0, 0, 0, 0, 0, 0, 0, 0, 0];
    let mut i: usize = 0;
    while i < uid.len()
        invariant
            i <= uid@.len() <= UID_LEN,
            forall|j: int| 0 <= j < i ==> buffer@[j] == uid@[j],
            forall|j: int| i <= j < UID_LEN ==> buffer@[j] == 0,
        decreases uid@.len() - i,
    {
        buffer[i] = uid[i];
        i += 1;
    }
    assert(buffer@ =~= padded(uid@));
    buffer
}

/// Whether two buffers hold the same bytes.
fn same_uid(a: &[u8; 10], b: &[u8; 10]) -> (same: bool)
    ensures
        same == (a@ == b@),
{
    let mut i: usize = 0;
    while i < 10
        invariant
            i <= 10,
            forall|j: int| 0 <= j < i ==> a@[j] == b@[j],
        decreases 10 - i,
    {
        if a[i] != b[i] {
            return false;
        }
        i += 1;
    }
    assert(a@ =~= b@);
    true
}

impl Presence {
    /// A debounce that has seen no card.
    pub fn new() -> (p: Presence)
        ensures
            p@.countdown == 0,
            p@.last_uid == padded(Seq::<u8>::empty()),
    {
        let p = Presence { last_uid: [0, 0, 0, 0, 0, 0, 0, 0, 0, 0], countdown: 0 };
        assert(p.last_uid@ =~= padded(Seq::<u8>::empty()));
        p
    }

    /// Whether a card counts as present.
    pub fn is_present(&self) -> (present: bool)
        ensures
            present == (self@.countdown > 0),
    {
        self.countdown > 0
    }

    /// Takes the result of one poll of the reader and says what is to be
    /// announced.
    pub fn poll(&mut self, reading: Reading) -> (notice: Notice)
        requires
            reading@ matches Poll::Tag(uid) ==> uid.len() <= UID_LEN,
        ensures
            final(self)@ == step(old(self)@, reading@).0,
            announces(notice, step(old(self)@, reading@).1),
    {
        match reading {
            Reading::Tag(uid) => {
                let buffer = pad(uid);
                let fresh = self.countdown == 0 || !same_uid(&buffer, &self.last_uid);
                self.last_uid = buffer;
                self.countdown = HYSTERESIS;
                if fresh {
                    Notice::Presented {
                        line: format_presented_line(uid),
                        keys: format_typed_text(uid),
                    }
                } else {
                    Notice::Nothing
                }
            },
            Reading::Absent => {
                if self.countdown > 0 {
                    self.countdown = self.countdown - 1;
                    if self.countdown == 0 {
                        Notice::Gone { line: format_gone_line() }
                    } else {
                        Notice::Nothing
                    }
                } else {
                    Notice::Nothing
                }
            },
        }
    }
}

} // verus!
