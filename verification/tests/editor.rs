use cardputer_rust::editor::{Editor, LEFT, TOP, CHAR_W, CHAR_H, MSG_CAP};

#[test]
fn typing_builds_the_message() {
    let mut e = Editor::new();
    assert_eq!(e.cursor(), (LEFT, TOP));
    assert_eq!(e.put_char('h'), (10, 20));
    assert_eq!(e.put_char('i'), (20, 20));
    assert_eq!(e.message(), b"hi");
    assert_eq!(e.cursor(), (30, 20));
}

#[test]
fn non_ascii_is_drawn_but_not_stored() {
    let mut e = Editor::new();
    e.put_char('é');
    assert_eq!(e.message(), b"");
    assert_eq!(e.cursor(), (LEFT + CHAR_W, TOP));
}

#[test]
fn line_wraps_after_twenty_two_cells() {
    let mut e = Editor::new();
    for _ in 0..21 {
        e.put_char('x');
    }
    assert_eq!(e.cursor(), (220, 20));
    let cell = e.put_char('y');
    assert_eq!(cell, (220, 20));
    assert_eq!(e.cursor(), (LEFT, TOP + CHAR_H));
    assert_eq!(e.message().len(), 22);
}

#[test]
fn backspace_undoes_put_char() {
    let mut e = Editor::new();
    e.put_char('a');
    e.put_char('b');
    let before = (e.cursor(), e.message().to_vec());
    e.put_char('c');
    assert_eq!(e.backspace(), Some((30, 20)));
    assert_eq!((e.cursor(), e.message().to_vec()), before);
}

#[test]
fn backspace_undoes_a_wrapping_put_char() {
    let mut e = Editor::new();
    for _ in 0..21 {
        e.put_char('x');
    }
    let before = (e.cursor(), e.message().to_vec());
    e.put_char('y');
    assert_eq!(e.cursor(), (LEFT, 40));
    assert_eq!(e.backspace(), Some((220, 20)));
    assert_eq!((e.cursor(), e.message().to_vec()), before);
}

#[test]
fn backspace_at_start_does_nothing() {
    let mut e = Editor::new();
    assert_eq!(e.backspace(), None);
    assert_eq!(e.cursor(), (LEFT, TOP));
}

#[test]
fn backspace_climbs_to_previous_line_end() {
    let mut e = Editor::new();
    e.put_char('a');
    e.put_char('b');
    e.newline();
    assert_eq!(e.message(), b"");
    assert_eq!(e.cursor(), (LEFT, 40));
    assert_eq!(e.backspace(), Some((20, 20)));
    assert_eq!(e.cursor(), (20, 20));
}

#[test]
fn backspace_onto_empty_previous_line() {
    let mut e = Editor::new();
    e.newline();
    assert_eq!(e.backspace(), None);
    assert_eq!(e.cursor(), (LEFT, TOP));
}

#[test]
fn message_is_capped() {
    let mut e = Editor::new();
    for _ in 0..200 {
        e.put_char('m');
    }
    assert_eq!(e.message().len(), MSG_CAP);
}

#[test]
fn last_line_restarts_itself() {
    let mut e = Editor::new();
    for _ in 0..5 {
        e.newline();
    }
    assert_eq!(e.cursor(), (LEFT, 120));
    e.newline();
    assert_eq!(e.cursor(), (LEFT, 120));
}

#[test]
fn reset_to_bottom_and_clear() {
    let mut e = Editor::new();
    e.put_char('q');
    e.reset_to_bottom();
    assert_eq!(e.cursor(), (LEFT, TOP + 5 * CHAR_H));
    assert_eq!(e.message(), b"");
    e.put_char('w');
    e.clear();
    assert_eq!(e.cursor(), (LEFT, TOP));
    assert_eq!(e.message(), b"");
    e.reset();
    assert_eq!(e.cursor(), (LEFT, TOP));
}
