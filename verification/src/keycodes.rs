use vstd::prelude::*;

verus! {

/// Modifier byte of a key that is struck on its own.
pub const NO_MODIFIER: u8 = 0x00;

/// Modifier byte of a key that is struck with the left shift key held.
pub const LEFT_SHIFT: u8 = 0x02;

/// One key stroke: the modifier bitmask and the usage code of the key.
#[derive(Clone, Copy, Debug, PartialEq, Eq, Structural)]
pub struct KeyEvent {
    pub modifier: u8,
    pub keycode: u8,
}

/// The keys of a QWERTY layout that the device can strike, one row per
/// character: the character, the modifier byte, the usage code.
pub const KEYCODES: [(char, u8, u8); 70] = [
    ('a', NO_MODIFIER, 0x04),
    ('b', NO_MODIFIER, 0x05),
    ('c', NO_MODIFIER, 0x06),
    ('d', NO_MODIFIER, 0x07),
    ('e', NO_MODIFIER, 0x08),
    ('f', NO_MODIFIER, 0x09),
    ('g', NO_MODIFIER, 0x0a),
    ('h', NO_MODIFIER, 0x0b),
    ('i', NO_MODIFIER, 0x0c),
    ('j', NO_MODIFIER, 0x0d),
    ('k', NO_MODIFIER, 0x0e),
    ('l', NO_MODIFIER, 0x0f),
    ('m', NO_MODIFIER, 0x10),
    ('n', NO_MODIFIER, 0x11),
    ('o', NO_MODIFIER, 0x12),
    ('p', NO_MODIFIER, 0x13),
    ('q', NO_MODIFIER, 0x14),
    ('r', NO_MODIFIER, 0x15),
    ('s', NO_MODIFIER, 0x16),
    ('t', NO_MODIFIER, 0x17),
    ('u', NO_MODIFIER, 0x18),
    ('v', NO_MODIFIER, 0x19),
    ('w', NO_MODIFIER, 0x1a),
    ('x', NO_MODIFIER, 0x1b),
    ('y', NO_MODIFIER, 0x1c),
    ('z', NO_MODIFIER, 0x1d),
    ('A', LEFT_SHIFT, 0x04),
    ('B', LEFT_SHIFT, 0x05),
    ('C', LEFT_SHIFT, 0x06),
    ('D', LEFT_SHIFT, 0x07),
    ('E', LEFT_SHIFT, 0x08),
    ('F', LEFT_SHIFT, 0x09),
    ('G', LEFT_SHIFT, 0x0a),
    ('H', LEFT_SHIFT, 0x0b),
    ('I', LEFT_SHIFT, 0x0c),
    ('J', LEFT_SHIFT, 0x0d),
    ('K', LEFT_SHIFT, 0x0e),
    ('L', LEFT_SHIFT, 0x0f),
    ('M', LEFT_SHIFT, 0x10),
    ('N', LEFT_SHIFT, 0x11),
    ('O', LEFT_SHIFT, 0x12),
    ('P', LEFT_SHIFT, 0x13),
    ('Q', LEFT_SHIFT, 0x14),
    ('R', LEFT_SHIFT, 0x15),
    ('S', LEFT_SHIFT, 0x16),
    ('T', LEFT_SHIFT, 0x17),
    ('U', LEFT_SHIFT, 0x18),
    ('V', LEFT_SHIFT, 0x19),
    ('W', LEFT_SHIFT, 0x1a),
    ('X', LEFT_SHIFT, 0x1b),
    ('Y', LEFT_SHIFT, 0x1c),
    ('Z', LEFT_SHIFT, 0x1d),
    ('1', NO_MODIFIER, 0x1e),
    ('2', NO_MODIFIER, 0x1f),
    ('3', NO_MODIFIER, 0x20),
    ('4', NO_MODIFIER, 0x21),
    ('5', NO_MODIFIER, 0x22),
    ('6', NO_MODIFIER, 0x23),
    ('7', NO_MODIFIER, 0x24),
    ('8', NO_MODIFIER, 0x25),
    ('9', NO_MODIFIER, 0x26),
    ('0', NO_MODIFIER, 0x27),
    ('\n', NO_MODIFIER, 0x28),
    ('\x1b', NO_MODIFIER, 0x29),
    ('\x08', NO_MODIFIER, 0x2a),
    ('\t', NO_MODIFIER, 0x2b),
    (' ', NO_MODIFIER, 0x2c),
    ('-', NO_MODIFIER, 0x2d),
    (',', NO_MODIFIER, 0x36),
    ('.', NO_MODIFIER, 0x37),
];

/// The usage code that lies `c - base` places after `first`.
pub open spec fn usage_after(c: char, base: char, first: u8) -> u8 {
    (c as int - base as int + first as int) as u8
}

/// The key stroke that types `c`, if the layout has one.
///
/// Letters occupy the usage codes from 0x04 on in alphabetical order, upper
/// case with the left shift held; the digits `1` to `9` follow from 0x1e on,
/// then `0`; the remaining keys are listed one by one.
pub open spec fn keycode_of(c: char) -> Option<KeyEvent> {
    if 'a' <= c <= 'z' {
        Some(KeyEvent { modifier: NO_MODIFIER, keycode: usage_after(c, 'a', 0x04) })
    } else if 'A' <= c <= 'Z' {
        Some(KeyEvent { modifier: LEFT_SHIFT, keycode: usage_after(c, 'A', 0x04) })
    } else if '1' <= c <= '9' {
        Some(KeyEvent { modifier: NO_MODIFIER, keycode: usage_after(c, '1', 0x1e) })
    } else if c == '0' {
        Some(KeyEvent { modifier: NO_MODIFIER, keycode: 0x27 })
    } else if c == '\n' {
        Some(KeyEvent { modifier: NO_MODIFIER, keycode: 0x28 })
    } else if c == '\x1b' {
        Some(KeyEvent { modifier: NO_MODIFIER, keycode: 0x29 })
    } else if c == '\x08' {
        Some(KeyEvent { modifier: NO_MODIFIER, keycode: 0x2a })
    } else if c == '\t' {
        Some(KeyEvent { modifier: NO_MODIFIER, keycode: 0x2b })
    } else if c == ' ' {
        Some(KeyEvent { modifier: NO_MODIFIER, keycode: 0x2c })
    } else if c == '-' {
        Some(KeyEvent { modifier: NO_MODIFIER, keycode: 0x2d })
    } else if c == ',' {
        Some(KeyEvent { modifier: NO_MODIFIER, keycode: 0x36 })
    } else if c == '.' {
        Some(KeyEvent { modifier: NO_MODIFIER, keycode: 0x37 })
    } else {
        None
    }
}

/// Whether the layout has a key stroke for `c`.
pub open spec fn supported(c: char) -> bool {
    keycode_of(c) is Some
}

/// Looks `c` up in the key table.
pub fn lookup(c: char) -> (r: Option<KeyEvent>)
    ensures
        r == keycode_of(c),
{
    let mut i: usize = 0;
    while i < KEYCODES.len()
        invariant
            i <= KEYCODES@.len(),
            forall|j: int| 0 <= j < i ==> (#[trigger] KEYCODES@[j]).0 != c,
        decreases KEYCODES@.len() - i,
    {
        let row = KEYCODES[i];
        if row.0 == c {
            return Some(KeyEvent { modifier: row.1, keycode: row.2 });
        }
        i += 1;
    }
    None
}

/// The character that lies `code - first` places after `base`.
pub open spec fn char_after(code: u8, first: u8, base: char) -> char {
    ((base as int + code as int - first as int) as u8) as char
}

/// The character that a key stroke types, if the layout has that stroke:
/// the table read from its right-hand columns to its left.
pub open spec fn character_of(event: KeyEvent) -> Option<char> {
    if event.modifier == LEFT_SHIFT {
        if 0x04 <= event.keycode <= 0x1d {
            Some(char_after(event.keycode, 0x04, 'A'))
        } else {
            None
        }
    } else if event.modifier != NO_MODIFIER {
        None
    } else if 0x04 <= event.keycode <= 0x1d {
        Some(char_after(event.keycode, 0x04, 'a'))
    } else if 0x1e <= event.keycode <= 0x26 {
        Some(char_after(event.keycode, 0x1e, '1'))
    } else if event.keycode == 0x27 {
        Some('0')
    } else if event.keycode == 0x28 {
        Some('\n')
    } else if event.keycode == 0x29 {
        Some('\x1b')
    } else if event.keycode == 0x2a {
        Some('\x08')
    } else if event.keycode == 0x2b {
        Some('\t')
    } else if event.keycode == 0x2c {
        Some(' ')
    } else if event.keycode == 0x2d {
        Some('-')
    } else if event.keycode == 0x36 {
        Some(',')
    } else if event.keycode == 0x37 {
        Some('.')
    } else {
        None
    }
}

/// Translation round-trips. A character is typed by a key stroke exactly
/// if that key stroke, read back through the table, gives the character:
/// so the translation is a function of the character alone, and no two
/// characters share a key stroke.
pub proof fn lemma_round_trip(c: char, event: KeyEvent)
    ensures
        keycode_of(c) == Some(event) <==> character_of(event) == Some(c),
{
}

/// Two characters with the same key stroke are the same character.
pub proof fn lemma_key_strokes_distinct(a: char, b: char)
    requires
        supported(a),
        keycode_of(a) == keycode_of(b),
    ensures
        a == b,
{
    lemma_round_trip(a, keycode_of(a).unwrap());
    lemma_round_trip(b, keycode_of(a).unwrap());
}

/// Every key stroke of the layout has a usage code of at least 0x04: the
/// codes below are not keys.
pub proof fn lemma_usage_code_nonzero(c: char)
    requires
        supported(c),
    ensures
        keycode_of(c).unwrap().keycode >= 0x04,
{
}

} // verus!
