use crate::text::{Text, TEXT_CAPACITY};
use vstd::prelude::*;
use vstd::utf8::is_ascii_chars;

verus! {

/// The greatest number of bytes that a UID has.
pub const UID_LEN: usize = 10;

/// The lower-case hexadecimal digit of a value below sixteen.
pub open spec fn hex_char(nibble: u8) -> char {
    if nibble < 10 {
        (('0' as u8) + nibble) as char
    } else {
        (('a' as u8) + nibble - 10) as char
    }
}

/// The bytes of a UID in hexadecimal: two lower-case digits per byte, the
/// high one first, no separator.
pub open spec fn hex_of(uid: Seq<u8>) -> Seq<char> {
    Seq::new(
        2 * uid.len(),
        |i: int| if i % 2 == 0 { hex_char(uid[i / 2] / 16) } else { hex_char(uid[i / 2] % 16) },
    )
}

/// The line that announces a card on the serial port.
pub open spec fn presented_line(uid: Seq<u8>) -> Seq<char> {
    seq!['U', 'I', 'D', ' '] + hex_of(uid) + seq!['\r', '\n']
}

/// The line that announces on the serial port that the card is gone.
pub open spec fn gone_line() -> Seq<char> {
    seq!['G', 'O', 'N', 'E', '\r', '\n']
}

/// The text that is typed for a card: its UID in hexadecimal and a space.
pub open spec fn typed_text(uid: Seq<u8>) -> Seq<char> {
    hex_of(uid) + seq![' ']
}

fn hex_digit(nibble: u8) -> (digit: &'static str)
    requires
        nibble < 16,
    ensures
        digit@ == seq![hex_char(nibble)],
        is_ascii_chars(digit@),
{
    proof {
        reveal_strlit("0");
        reveal_strlit("1");
        reveal_strlit("2");
        reveal_strlit("3");
        reveal_strlit("4");
        reveal_strlit("5");
        reveal_strlit("6");
        reveal_strlit("7");
        reveal_strlit("8");
        reveal_strlit("9");
        reveal_strlit("a");
        reveal_strlit("b");
        reveal_strlit("c");
        reveal_strlit("d");
        reveal_strlit("e");
        reveal_strlit("f");
    }
    let digit = match nibble {
        0 => "0",
        1 => "1",
        2 => "2",
        3 => "3",
        4 => "4",
        5 => "5",
        6 => "6",
        7 => "7",
        8 => "8",
        9 => "9",
        10 => "a",
        11 => "b",
        12 => "c",
        13 => "d",
        14 => "e",
        _ => "f",
    };
    assert(digit@ =~= seq![hex_char(nibble)]);
    digit
}

/// Appends the hexadecimal form of `uid` to `out`.
fn push_hex(out: &mut Text, uid: &[u8])
    requires
        is_ascii_chars(old(out)@),
        old(out)@.len() + 2 * uid@.len() <= TEXT_CAPACITY,
    ensures
        final(out)@ == old(out)@ + hex_of(uid@),
        is_ascii_chars(final(out)@),
{
    let mut i: usize = 0;
    while i < uid.len()
        invariant
            i <= uid@.len(),
            old(out)@.len() + 2 * uid@.len() <= TEXT_CAPACITY,
            is_ascii_chars(out@),
            out@ == old(out)@ + hex_of(uid@.take(i as int)),
        decreases uid@.len() - i,
    {
        let byte = uid[i];
        out.append_ascii(hex_digit(byte / 16));
        out.append_ascii(hex_digit(byte % 16));
        proof {
            assert(hex_of(uid@.take(i + 1)) =~= hex_of(uid@.take(i as int)) + seq![
                hex_char(byte / 16),
                hex_char(byte % 16),
            ]);
            assert(out@ =~= old(out)@ + hex_of(uid@.take(i + 1)));
        }
        i += 1;
    }
    assert(uid@.take(i as int) =~= uid@);
}

/// Formats the bytes of a UID in hexadecimal.
pub fn uid_hex(uid: &[u8]) -> (hex: Text)
    requires
        uid@.len() <= UID_LEN,
    ensures
        hex@ == hex_of(uid@),
{
    let mut hex = Text::new();
    push_hex(&mut hex, uid);
    assert(hex@ =~= hex_of(uid@));
    hex
}

/// Formats the serial line that announces the card `uid`.
pub fn format_presented_line(uid: &[u8]) -> (line: Text)
    requires
        uid@.len() <= UID_LEN,
    ensures
        line@ == presented_line(uid@),
{
    proof {
        reveal_strlit("UID ");
        reveal_strlit("\r\n");
    }
    let mut line = Text::new();
    line.append_ascii("UID ");
    push_hex(&mut line, uid);
    line.append_ascii("\r\n");
    assert(line@ =~= presented_line(uid@));
    line
}

/// Formats the text that is typed for the card `uid`.
pub fn format_typed_text(uid: &[u8]) -> (text: Text)
    requires
        uid@.len() <= UID_LEN,
    ensures
        text@ == typed_text(uid@),
{
    proof {
        reveal_strlit(" ");
    }
    let mut text = Text::new();
    push_hex(&mut text, uid);
    text.append_ascii(" ");
    assert(text@ =~= typed_text(uid@));
    text
}

/// Formats the serial line that announces that the card is gone.
pub fn format_gone_line() -> (line: Text)
    ensures
        line@ == gone_line(),
{
    proof {
        reveal_strlit("GONE\r\n");
    }
    let mut line = Text::new();
    line.append_ascii("GONE\r\n");
    assert(line@ =~= gone_line());
    line
}

} // verus!
