use heapless::consts::U32;
use vstd::prelude::*;
use vstd::utf8::{encode_utf8, is_ascii_chars, is_ascii_chars_concat, is_ascii_chars_encode_utf8};

verus! {

/// The number of bytes that a text can hold.
pub const TEXT_CAPACITY: usize = 32;

/// A short text in a buffer of fixed size: a `heapless::String` with room
/// for `TEXT_CAPACITY` bytes.
///
/// The string itself is not verified here. What it holds is known only
/// through `text_chars`, and only as far as the operations below say.
#[verifier::external_body]
#[derive(Debug, PartialEq, Eq)]
pub struct Text {
    inner: heapless::String<U32>,
}

/// The characters that a text holds, in order.
pub uninterp spec fn text_chars(t: Text) -> Seq<char>;

impl View for Text {
    type V = Seq<char>;

    open spec fn view(&self) -> Seq<char> {
        text_chars(*self)
    }
}

impl Text {
    /// `heapless::String::new`: a text that holds nothing.
    #[verifier::external_body]
    pub(crate) fn new() -> (t: Text)
        ensures
            text_chars(t) == Seq::<char>::empty(),
    {
        Text { inner: heapless::String::new() }
    }

    /// `heapless::String::push_str`: if the bytes of `piece`, added to those
    /// that the buffer holds, do not exceed `TEXT_CAPACITY`, the piece is
    /// appended; if they do, the call fails and the text stays as it was.
    #[verifier::external_body]
    fn push_str(&mut self, piece: &str) -> (r: Result<(), ()>)
        ensures
            match r {
                Ok(_) => encode_utf8(text_chars(*old(self))).len() + encode_utf8(piece@).len()
                    <= TEXT_CAPACITY && text_chars(*final(self)) == text_chars(*old(self))
                    + piece@,
                Err(_) => encode_utf8(text_chars(*old(self))).len() + encode_utf8(piece@).len()
                    > TEXT_CAPACITY && text_chars(*final(self)) == text_chars(*old(self)),
            },
    {
        self.inner.push_str(piece)
    }

    /// `heapless::String::as_str`: the characters held, as a string slice.
    #[verifier::external_body]
    fn slice(&self) -> (s: &str)
        ensures
            s@ == text_chars(*self),
    {
        self.inner.as_str()
    }

    /// The text as a string slice.
    pub fn as_str(&self) -> (s: &str)
        ensures
            s@ == self@,
    {
        self.slice()
    }

    /// Appends a piece of ASCII text to ASCII text that has room for it.
    pub(crate) fn append_ascii(&mut self, piece: &str)
        requires
            is_ascii_chars(old(self)@),
            is_ascii_chars(piece@),
            old(self)@.len() + piece@.len() <= TEXT_CAPACITY,
        ensures
            final(self)@ == old(self)@ + piece@,
            is_ascii_chars(final(self)@),
    {
        proof {
            is_ascii_chars_encode_utf8(self@);
            is_ascii_chars_encode_utf8(piece@);
            is_ascii_chars_concat(self@ + piece@, self@, piece@);
        }
        let appended = self.push_str(piece);
        assert(appended is Ok);
    }
}

} // verus!
