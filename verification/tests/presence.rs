use rfid_keyboard::keyboard::Keyboard;
use rfid_keyboard::keycodes::lookup;
use rfid_keyboard::presence::{Notice, Presence, Reading, HYSTERESIS};
use rfid_keyboard::text::TEXT_CAPACITY;
use rfid_keyboard::uid::{
    format_gone_line, format_presented_line, format_typed_text, uid_hex, UID_LEN,
};

const CARD_A: [u8; 4] = [0x04, 0x7a, 0x9c, 0x21];
const CARD_B: [u8; 4] = [0x04, 0x7a, 0x9c, 0x22];

/// What a notice asks for: the line for the serial port and the text to type.
type Asked = (Option<String>, Option<String>);

fn asked(notice: Notice) -> Asked {
    match notice {
        Notice::Nothing => (None, None),
        Notice::Presented { line, keys } => {
            (Some(String::from(line.as_str())), Some(String::from(keys.as_str())))
        }
        Notice::Gone { line } => (Some(String::from(line.as_str())), None),
    }
}

fn nothing() -> Asked {
    (None, None)
}

fn presented(line: &str, keys: &str) -> Asked {
    (Some(String::from(line)), Some(String::from(keys)))
}

fn gone() -> Asked {
    (Some(String::from("GONE\r\n")), None)
}

#[test]
fn constants_are_fixed() {
    assert_eq!(HYSTERESIS, 5);
    assert_eq!(UID_LEN, 10);
    assert_eq!(TEXT_CAPACITY, 32);
}

#[test]
fn new_debounce_sees_no_card() {
    let mut presence = Presence::new();
    assert!(!presence.is_present());
    assert_eq!(asked(presence.poll(Reading::Absent)), nothing());
    assert!(!presence.is_present());
}

#[test]
fn card_is_announced_on_serial_and_typed() {
    let mut presence = Presence::new();
    let notice = presence.poll(Reading::Tag(&CARD_A));
    assert_eq!(asked(notice), presented("UID 047a9c21\r\n", "047a9c21 "));
    assert!(presence.is_present());
}

#[test]
fn presented_card_types_its_uid_and_a_space() {
    let mut presence = Presence::new();
    let mut keyboard = Keyboard::new();
    let keys = match presence.poll(Reading::Tag(&CARD_A)) {
        Notice::Presented { keys, .. } => keys,
        other => panic!("{:?}", other),
    };
    let mut reports = vec![keyboard.type_text(keys.as_str()).unwrap().unwrap()];
    while let Some(report) = keyboard.next_report() {
        reports.push(report);
    }
    let mut expected = Vec::new();
    for c in "047a9c21 ".chars() {
        let event = lookup(c).unwrap();
        expected.push([event.modifier, 0, event.keycode, 0, 0, 0, 0, 0]);
        expected.push([0u8; 8]);
    }
    assert_eq!(reports, expected);
}

#[test]
fn same_card_on_consecutive_polls_is_presented_once() {
    for n in 1..=5 {
        let mut presence = Presence::new();
        let mut presentations = 0;
        for _ in 0..n {
            match presence.poll(Reading::Tag(&CARD_A)) {
                Notice::Presented { .. } => presentations += 1,
                Notice::Nothing => {}
                other => panic!("{:?}", other),
            }
        }
        assert_eq!(presentations, 1);
    }
}

#[test]
fn same_card_held_for_long_is_presented_once() {
    let mut presence = Presence::new();
    assert!(matches!(presence.poll(Reading::Tag(&CARD_A)), Notice::Presented { .. }));
    for _ in 0..100 {
        assert_eq!(asked(presence.poll(Reading::Tag(&CARD_A))), nothing());
        assert!(presence.is_present());
    }
}

#[test]
fn brief_absence_is_bridged() {
    for gap in 0..5 {
        let mut presence = Presence::new();
        assert!(matches!(presence.poll(Reading::Tag(&CARD_A)), Notice::Presented { .. }));
        for _ in 0..gap {
            assert_eq!(asked(presence.poll(Reading::Absent)), nothing());
            assert!(presence.is_present());
        }
        assert_eq!(asked(presence.poll(Reading::Tag(&CARD_A))), nothing());
    }
}

#[test]
fn removal_is_announced_once_after_five_absent_polls() {
    let mut presence = Presence::new();
    assert!(matches!(presence.poll(Reading::Tag(&CARD_A)), Notice::Presented { .. }));
    for _ in 0..4 {
        assert_eq!(asked(presence.poll(Reading::Absent)), nothing());
    }
    assert!(presence.is_present());
    assert_eq!(asked(presence.poll(Reading::Absent)), gone());
    assert!(!presence.is_present());
    assert_eq!(asked(presence.poll(Reading::Absent)), nothing());
    for _ in 0..20 {
        assert_eq!(asked(presence.poll(Reading::Absent)), nothing());
    }
}

#[test]
fn read_in_between_restarts_the_countdown() {
    let mut presence = Presence::new();
    assert!(matches!(presence.poll(Reading::Tag(&CARD_A)), Notice::Presented { .. }));
    for _ in 0..4 {
        assert_eq!(asked(presence.poll(Reading::Absent)), nothing());
    }
    assert_eq!(asked(presence.poll(Reading::Tag(&CARD_A))), nothing());
    for _ in 0..4 {
        assert_eq!(asked(presence.poll(Reading::Absent)), nothing());
    }
    assert_eq!(asked(presence.poll(Reading::Absent)), gone());
}

#[test]
fn same_card_after_removal_is_presented_again() {
    let mut presence = Presence::new();
    assert!(matches!(presence.poll(Reading::Tag(&CARD_A)), Notice::Presented { .. }));
    for _ in 0..5 {
        presence.poll(Reading::Absent);
    }
    assert_eq!(
        asked(presence.poll(Reading::Tag(&CARD_A))),
        presented("UID 047a9c21\r\n", "047a9c21 ")
    );
}

#[test]
fn other_card_is_presented_while_the_first_counts_as_present() {
    let mut presence = Presence::new();
    assert!(matches!(presence.poll(Reading::Tag(&CARD_A)), Notice::Presented { .. }));
    assert_eq!(
        asked(presence.poll(Reading::Tag(&CARD_B))),
        presented("UID 047a9c22\r\n", "047a9c22 ")
    );
    assert_eq!(asked(presence.poll(Reading::Tag(&CARD_B))), nothing());
    assert_eq!(
        asked(presence.poll(Reading::Tag(&CARD_A))),
        presented("UID 047a9c21\r\n", "047a9c21 ")
    );
}

#[test]
fn swapping_cards_leaves_one_removal() {
    let mut presence = Presence::new();
    presence.poll(Reading::Tag(&CARD_A));
    presence.poll(Reading::Absent);
    presence.poll(Reading::Absent);
    assert!(matches!(presence.poll(Reading::Tag(&CARD_B)), Notice::Presented { .. }));
    let mut removals = 0;
    for _ in 0..10 {
        if asked(presence.poll(Reading::Absent)) == gone() {
            removals += 1;
        }
    }
    assert_eq!(removals, 1);
}

#[test]
fn every_poll_without_a_uid_counts_down() {
    let mut presence = Presence::new();
    assert!(matches!(presence.poll(Reading::Tag(&CARD_A)), Notice::Presented { .. }));
    for left in (1..5).rev() {
        assert_eq!(asked(presence.poll(Reading::Absent)), nothing());
        assert!(presence.is_present(), "{} polls left", left);
    }
    assert_eq!(asked(presence.poll(Reading::Absent)), gone());
    assert!(!presence.is_present());
    assert_eq!(asked(presence.poll(Reading::Absent)), nothing());
}

#[test]
fn last_poll_of_the_countdown_announces_the_removal() {
    let mut presence = Presence::new();
    presence.poll(Reading::Tag(&CARD_B));
    for _ in 0..4 {
        presence.poll(Reading::Absent);
    }
    assert!(presence.is_present());
    assert_eq!(asked(presence.poll(Reading::Absent)), gone());
    assert_eq!(
        asked(presence.poll(Reading::Tag(&CARD_B))),
        presented("UID 047a9c22\r\n", "047a9c22 ")
    );
}

#[test]
fn uids_are_compared_with_their_padding() {
    let mut presence = Presence::new();
    assert_eq!(
        asked(presence.poll(Reading::Tag(&[1, 2, 3, 4]))),
        presented("UID 01020304\r\n", "01020304 ")
    );
    assert_eq!(asked(presence.poll(Reading::Tag(&[1, 2, 3, 4, 0, 0, 0]))), nothing());
    assert_eq!(
        asked(presence.poll(Reading::Tag(&[1, 2, 3, 4, 0, 0, 1]))),
        presented("UID 01020304000001\r\n", "01020304000001 ")
    );
}

#[test]
fn all_zero_card_is_presented_to_a_new_debounce() {
    let mut presence = Presence::new();
    assert_eq!(
        asked(presence.poll(Reading::Tag(&[0, 0, 0, 0]))),
        presented("UID 00000000\r\n", "00000000 ")
    );
    assert_eq!(asked(presence.poll(Reading::Tag(&[0, 0, 0, 0]))), nothing());
}

#[test]
fn longest_uid_is_formatted_in_full() {
    let uid = [0x88, 0x04, 0xde, 0xad, 0xbe, 0xef, 0x00, 0x10, 0x0f, 0xff];
    let mut presence = Presence::new();
    assert_eq!(
        asked(presence.poll(Reading::Tag(&uid))),
        presented("UID 8804deadbeef00100fff\r\n", "8804deadbeef00100fff ")
    );
    assert_eq!(asked(presence.poll(Reading::Tag(&uid))), nothing());
    let mut keyboard = Keyboard::new();
    assert!(matches!(keyboard.type_text("8804deadbeef00100fff "), Ok(Some(_))));
    assert_eq!(keyboard.len(), 20);
}

#[test]
fn hex_has_two_lower_case_digits_per_byte() {
    assert_eq!(uid_hex(&[]).as_str(), "");
    assert_eq!(uid_hex(&[0x00]).as_str(), "00");
    assert_eq!(uid_hex(&[0x0a]).as_str(), "0a");
    assert_eq!(uid_hex(&[0xa0]).as_str(), "a0");
    assert_eq!(uid_hex(&[0xff]).as_str(), "ff");
    assert_eq!(
        uid_hex(&[0x01, 0x23, 0x45, 0x67, 0x89, 0xab, 0xcd, 0xef]).as_str(),
        "0123456789abcdef"
    );
    for byte in 0u8..=255 {
        assert_eq!(uid_hex(&[byte]).as_str(), format!("{:02x}", byte));
    }
}

#[test]
fn lines_are_framed_as_the_serial_port_expects() {
    assert_eq!(format_presented_line(&CARD_A).as_str(), "UID 047a9c21\r\n");
    assert_eq!(format_presented_line(&[]).as_str(), "UID \r\n");
    assert_eq!(format_typed_text(&CARD_A).as_str(), "047a9c21 ");
    assert_eq!(format_typed_text(&[]).as_str(), " ");
    assert_eq!(format_gone_line().as_str(), "GONE\r\n");
}

#[test]
fn every_character_of_a_typed_uid_has_a_key() {
    for byte in 0u8..=255 {
        for c in format_typed_text(&[byte]).as_str().chars() {
            assert!(lookup(c).is_some());
        }
    }
}

#[test]
fn longest_line_fits_the_text_buffer() {
    let uid = [0xffu8; 10];
    let line = format_presented_line(&uid);
    assert_eq!(line.as_str(), "UID ffffffffffffffffffff\r\n");
    assert!(line.as_str().len() <= TEXT_CAPACITY);
    assert_eq!(format_typed_text(&uid).as_str(), "ffffffffffffffffffff ");
    assert_eq!(uid_hex(&uid).as_str().len(), 20);
}

#[test]
fn equal_texts_compare_equal() {
    assert_eq!(format_gone_line(), format_gone_line());
    assert_eq!(uid_hex(&CARD_A), uid_hex(&CARD_A));
    assert_ne!(uid_hex(&CARD_A), uid_hex(&CARD_B));
    assert_ne!(format_typed_text(&CARD_A), uid_hex(&CARD_A));
}
