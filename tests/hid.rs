use skeleton_stick::hid::{char_to_report, keyboard_reports, KeyboardError, LEFT_SHIFT, RELEASE};

#[test]
fn lowercase_letters_have_unshifted_reports() {
    assert_eq!(char_to_report('a'), Some([0, 0, 4, 0, 0, 0, 0, 0]));
    assert_eq!(char_to_report('z'), Some([0, 0, 29, 0, 0, 0, 0, 0]));
}

#[test]
fn uppercase_letters_hold_left_shift() {
    assert_eq!(char_to_report('A'), Some([LEFT_SHIFT, 0, 4, 0, 0, 0, 0, 0]));
    assert_eq!(char_to_report('Z'), Some([2, 0, 29, 0, 0, 0, 0, 0]));
}

#[test]
fn digits_space_and_punctuation() {
    assert_eq!(char_to_report('1'), Some([0, 0, 30, 0, 0, 0, 0, 0]));
    assert_eq!(char_to_report('9'), Some([0, 0, 38, 0, 0, 0, 0, 0]));
    assert_eq!(char_to_report('0'), Some([0, 0, 39, 0, 0, 0, 0, 0]));
    assert_eq!(char_to_report(' '), Some([0, 0, 44, 0, 0, 0, 0, 0]));
    assert_eq!(char_to_report('/'), Some([0, 0, 56, 0, 0, 0, 0, 0]));
    assert_eq!(char_to_report('!'), Some([2, 0, 30, 0, 0, 0, 0, 0]));
    assert_eq!(char_to_report('?'), Some([2, 0, 56, 0, 0, 0, 0, 0]));
    assert_eq!(char_to_report('"'), Some([2, 0, 52, 0, 0, 0, 0, 0]));
}

#[test]
fn table_covers_supported_sets() {
    let unshifted = "abcdefghijklmnopqrstuvwxyz1234567890 -=[]\\;'`,./";
    let shifted = "ABCDEFGHIJKLMNOPQRSTUVWXYZ!@#$%^&*() _+{}|:\"~<>?";
    for c in unshifted.chars().chain(shifted.chars()) {
        let r = char_to_report(c).expect("supported character");
        assert_eq!(&r[3..], &[0, 0, 0, 0, 0]);
        assert_eq!(r[1], 0);
    }
    for (u, s) in unshifted.chars().zip(shifted.chars()) {
        if u != ' ' {
            assert_eq!(char_to_report(u).unwrap()[2], char_to_report(s).unwrap()[2]);
            assert_eq!(char_to_report(u).unwrap()[0], 0);
            assert_eq!(char_to_report(s).unwrap()[0], 2);
        }
    }
}

#[test]
fn control_characters_are_unsupported() {
    for b in 0u8..32 {
        assert_eq!(char_to_report(b as char), None);
    }
    assert_eq!(char_to_report('\t'), None);
    assert_eq!(char_to_report('\n'), None);
    assert_eq!(char_to_report('\x7f'), None);
    assert_eq!(char_to_report('é'), None);
}

#[test]
fn reports_alternate_press_and_release() {
    let r = keyboard_reports("Hi").unwrap();
    assert_eq!(r.len(), 4);
    assert_eq!(r[0], [2, 0, 11, 0, 0, 0, 0, 0]);
    assert_eq!(r[1], RELEASE);
    assert_eq!(r[2], [0, 0, 12, 0, 0, 0, 0, 0]);
    assert_eq!(r[3], [0; 8]);
}

#[test]
fn empty_text_types_nothing() {
    assert_eq!(keyboard_reports("").unwrap().len(), 0);
}

#[test]
fn one_unsupported_character_rejects_everything() {
    match keyboard_reports("ab\tc") {
        Err(KeyboardError::UnsupportedChar(c)) => assert_eq!(c, '\t'),
        other => panic!("unexpected result: {:?}", other),
    }
}

#[test]
fn first_unsupported_character_is_reported() {
    match keyboard_reports("x\ny\r") {
        Err(KeyboardError::UnsupportedChar(c)) => assert_eq!(c, '\n'),
        other => panic!("unexpected result: {:?}", other),
    }
}
