use crate::keycodes::{lookup, supported, KeyEvent};
use crate::queue::{queue_items, EventQueue, CAPACITY};
use crate::typing::{
    enqueued, events_of, lemma_first_unsupported_at, overflows, stops_at_unknown, types_fully,
};
use usb_device::UsbError;
use vstd::prelude::*;

verus! {

/// The errors of the USB stack, with the variants that `usb-device` gives
/// them. Nothing is assumed of the type beyond its definition there.
#[verifier::external_type_specification]
pub struct ExUsbError(UsbError);

/// What can go wrong while text is typed.
#[derive(Debug)]
pub enum Error {
    /// A character of the text has no key in the layout.
    UnknownCharacter,
    /// The queue of pending key strokes is full.
    Overflow,
    /// The transport refused a report for another reason than being busy.
    Usb(UsbError),
}

/// The length of an input report in bytes.
pub const REPORT_LEN: usize = 8;

/// The report that says no key is down.
pub open spec fn release_report() -> Seq<u8> {
    seq![0u8, 0u8, 0u8, 0u8, 0u8, 0u8, 0u8, 0u8]
}

/// The report that says the key of `event` is down: the modifier byte first,
/// the usage code third, every other byte zero.
pub open spec fn key_down_report(event: KeyEvent) -> Seq<u8> {
    seq![event.modifier, 0u8, event.keycode, 0u8, 0u8, 0u8, 0u8, 0u8]
}

/// What a keyboard is, to its callers: the key strokes that wait, the next
/// to be sent first, and whether a key is reported down and awaits release.
pub struct KeyboardState {
    pub pending: Seq<KeyEvent>,
    pub release: bool,
}

/// One step of emission: the state afterwards and the report to transmit.
///
/// A key that is down is released first. Otherwise the next pending key
/// stroke leaves the queue and is reported down. With nothing pending the
/// keyboard is idle and no report is due.
pub open spec fn emit(s: KeyboardState) -> (KeyboardState, Option<Seq<u8>>) {
    if s.release {
        (KeyboardState { pending: s.pending, release: false }, Some(release_report()))
    } else if s.pending.len() > 0 {
        (
            KeyboardState { pending: s.pending.drop_first(), release: true },
            Some(key_down_report(s.pending[0])),
        )
    } else {
        (s, None)
    }
}

/// The keyboard: a bounded queue of pending key strokes and the flag that
/// tells whether the last report sent was a key-down.
pub struct Keyboard {
    queue: EventQueue,
    release: bool,
}

impl View for Keyboard {
    type V = KeyboardState;

    closed spec fn view(&self) -> KeyboardState {
        KeyboardState {
            pending: queue_items(self.queue).map_values(
                |p: (u8, u8)| KeyEvent { modifier: p.0, keycode: p.1 },
            ),
            release: self.release,
        }
    }
}

impl Keyboard {
    #[verifier::type_invariant]
    spec fn bounded(&self) -> bool {
        queue_items(self.queue).len() <= CAPACITY
    }

    /// An idle keyboard: nothing pending, no key down.
    pub fn new() -> (k: Keyboard)
        ensures
            k@.pending == Seq::<KeyEvent>::empty(),
            !k@.release,
    {
        let k = Keyboard { queue: EventQueue::new(), release: false };
        assert(k@.pending =~= Seq::<KeyEvent>::empty());
        k
    }

    /// The number of key strokes that wait in the queue.
    pub fn len(&self) -> (n: usize)
        ensures
            n == self@.pending.len(),
            n <= CAPACITY,
    {
        proof {
            use_type_invariant(self);
        }
        self.queue.len()
    }

    /// Whether a key is reported down and its release is the next report.
    pub fn release_pending(&self) -> (pending: bool)
        ensures
            pending == self@.release,
    {
        self.release
    }

    /// Appends the key strokes that type `text` to the queue, character by
    /// character, and then performs one step of emission, so that an idle
    /// transport starts at once. Returns the report to transmit, if one is
    /// due.
    ///
    /// The first character without a key stops the call with
    /// `UnknownCharacter`; a character that finds the queue full stops it
    /// with `Overflow`. The key strokes of the characters before it stay
    /// queued either way, and no report is emitted.
    pub fn type_text(&mut self, text: &str) -> (r: Result<Option<[u8; REPORT_LEN]>, Error>)
        ensures
            match r {
                Ok(report) => types_fully(old(self)@, text@) && match report {
                    Some(bytes) => emit(enqueued(old(self)@, text@)).1 == Some(bytes@),
                    None => emit(enqueued(old(self)@, text@)).1.is_none(),
                },
                Err(Error::UnknownCharacter) => stops_at_unknown(old(self)@, text@),
                Err(Error::Overflow) => overflows(old(self)@, text@),
                Err(Error::Usb(_)) => false,
            },
            final(self)@ == if r is Ok {
                emit(enqueued(old(self)@, text@)).0
            } else {
                enqueued(old(self)@, text@)
            },
    {
        proof {
            use_type_invariant(&*self);
        }
        for c in iter: text.chars()
            invariant
                iter.seq() == text@,
                forall|j: int| 0 <= j < iter.index() ==> supported(#[trigger] text@[j]),
                old(self)@.pending.len() + iter.index() <= CAPACITY,
                self@.release == old(self)@.release,
                self@.pending == old(self)@.pending + events_of(text@.take(iter.index() as int)),
        {
            let ghost i = iter.index() as int;
            let event = match lookup(c) {
                Some(event) => event,
                None => {
                    proof {
                        lemma_first_unsupported_at(text@, i);
                    }
                    return Err(Error::UnknownCharacter);
                },
            };
            proof {
                use_type_invariant(&*self);
            }
            let ghost before = self@.pending;
            match self.queue.enqueue((event.modifier, event.keycode)) {
                Ok(_) => {},
                Err(_) => {
                    proof {
                        lemma_first_unsupported_at(text@, i + 1);
                    }
                    return Err(Error::Overflow);
                },
            }
            proof {
                assert(self@.pending =~= before.push(event));
                assert(text@.take(i + 1) =~= text@.take(i).push(c));
                assert(events_of(text@.take(i + 1)) =~= events_of(text@.take(i)).push(event));
                assert(self@.pending =~= old(self)@.pending + events_of(text@.take(i + 1)));
            }
        }
        proof {
            lemma_first_unsupported_at(text@, text@.len() as int);
            assert(text@.take(text@.len() as int) =~= text@);
        }
        Ok(self.next_report())
    }

    /// Performs one step of emission and returns the report that the caller
    /// is to hand to the transport, if one is due.
    pub fn next_report(&mut self) -> (report: Option<[u8; REPORT_LEN]>)
        ensures
            final(self)@ == emit(old(self)@).0,
            match report {
                Some(bytes) => emit(old(self)@).1 == Some(bytes@),
                None => emit(old(self)@).1.is_none(),
            },
    {
        proof {
            use_type_invariant(&*self);
        }
        if self.release {
            self.release = false;
            let report: [u8; REPORT_LEN] = [0, 0, 0, 0, 0, 0, 0, 0];
            assert(report@ =~= release_report());
            Some(report)
        } else {
            match self.queue.dequeue() {
                Some((modifier, keycode)) => {
                    self.release = true;
                    let report: [u8; REPORT_LEN] = [modifier, 0, keycode, 0, 0, 0, 0, 0];
                    assert(report@ =~= key_down_report(old(self)@.pending[0]));
                    assert(self@.pending =~= old(self)@.pending.drop_first());
                    Some(report)
                },
                None => {
                    assert(self@.pending =~= old(self)@.pending);
                    None
                },
            }
        }
    }

    /// Turns what the transport answered to a report into the result of the
    /// operation that sent it. A transport that is busy is no failure: it
    /// asks for the next report once it is ready. Any other refusal is
    /// passed on.
    pub fn write_outcome(answer: Result<usize, UsbError>) -> (r: Result<(), Error>)
        ensures
            match answer {
                Ok(_) => r is Ok,
                Err(UsbError::WouldBlock) => r is Ok,
                Err(e) => r is Err && r->Err_0 == Error::Usb(e),
            },
    {
        match answer {
            Ok(_) => Ok(()),
            Err(UsbError::WouldBlock) => Ok(()),
            Err(e) => Err(Error::Usb(e)),
        }
    }
}

} // verus!
