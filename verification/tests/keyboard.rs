use cardputer_rust::keyboard::{key_to_char, remap_key, shift_char};

#[test]
fn remap_key_examples() {
    assert_eq!(remap_key(0, 0), (0, 0));
    assert_eq!(remap_key(0, 4), (0, 1));
    assert_eq!(remap_key(3, 5), (1, 7));
    assert_eq!(remap_key(6, 7), (3, 13));
    assert_eq!(remap_key(7, 9), (1, 15));
}

#[test]
fn remap_key_is_injective_on_the_matrix() {
    let mut seen = std::collections::HashSet::new();
    for r in 0..8u8 {
        for c in 0..8u8 {
            assert!(seen.insert(remap_key(r, c)));
        }
    }
}

#[test]
fn key_to_char_layout() {
    // row 0: backtick at column 0, '=' at column 12
    assert_eq!(key_to_char(0, 0), Some('`'));
    assert_eq!(key_to_char(6, 0), Some('='));
    // row 1: 'q' at column 1, backslash at column 13
    assert_eq!(key_to_char(0, 5), Some('q'));
    assert_eq!(key_to_char(6, 5), Some('\\'));
    // row 2: 'a' at column 2, '\'' at column 12
    assert_eq!(key_to_char(1, 2), Some('a'));
    assert_eq!(key_to_char(6, 2), Some('\''));
    // row 3: 'z' at column 3, space at column 13
    assert_eq!(key_to_char(1, 7), Some('z'));
    assert_eq!(key_to_char(6, 7), Some(' '));
}

#[test]
fn special_keys_have_no_char() {
    // Shift (2,1), Fn (2,0), Backspace (0,13), Enter (2,13), Tab (1,0),
    // Ctrl (3,0), Opt (3,1), Alt (3,2)
    for (r, c) in [(0u8, 6u8), (0, 2), (6, 4), (6, 6), (0, 1), (0, 3), (0, 7), (1, 3)] {
        assert_eq!(key_to_char(r, c), None, "({}, {})", r, c);
    }
    let (row, col) = remap_key(0, 6);
    assert_eq!((row, col), (2, 1));
}

#[test]
fn every_key_char_is_printable_ascii() {
    let mut count = 0;
    for r in 0..8u8 {
        for c in 0..10u8 {
            if let Some(ch) = key_to_char(r, c) {
                count += 1;
                assert!((' '..='~').contains(&ch));
                assert!((' '..='~').contains(&shift_char(ch)));
            }
        }
    }
    assert_eq!(count, 61);
}

#[test]
fn shift_char_table() {
    assert_eq!(shift_char('a'), 'A');
    assert_eq!(shift_char('z'), 'Z');
    assert_eq!(shift_char('1'), '!');
    assert_eq!(shift_char('0'), ')');
    assert_eq!(shift_char('\\'), '|');
    assert_eq!(shift_char('\''), '"');
    assert_eq!(shift_char('`'), '~');
    assert_eq!(shift_char('/'), '?');
    assert_eq!(shift_char('A'), 'A');
    assert_eq!(shift_char(' '), ' ');
    assert_eq!(shift_char('é'), 'é');
}

#[test]
fn shift_char_is_idempotent() {
    for code in 0u32..0x250 {
        if let Some(c) = char::from_u32(code) {
            assert_eq!(shift_char(shift_char(c)), shift_char(c));
        }
    }
}
