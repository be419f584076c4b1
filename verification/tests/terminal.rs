use cardputer_rust::terminal::{KeyEffect, Terminal, REPEAT_DELAY_TICKS, REPEAT_INTERVAL_TICKS, BLINK_TICKS};

// Raw coordinates of some keys (see the key map).
const SHIFT: (u8, u8) = (0, 6);
const FN: (u8, u8) = (0, 2);
const BACKSPACE: (u8, u8) = (6, 4);
const ENTER: (u8, u8) = (6, 6);
const TAB: (u8, u8) = (0, 1);
const KEY_Q: (u8, u8) = (0, 5);
const KEY_A: (u8, u8) = (1, 2);
const KEY_W: (u8, u8) = (1, 1);
const KEY_I: (u8, u8) = (4, 1);
const KEY_P: (u8, u8) = (5, 1);
const KEY_R: (u8, u8) = (2, 1);
const KEY_1: (u8, u8) = (0, 4);
const SPACE: (u8, u8) = (6, 7);

fn press(t: &mut Terminal, k: (u8, u8)) -> KeyEffect {
    t.press(k.0, k.1)
}

#[test]
fn typing_and_shift() {
    let mut t = Terminal::new(false);
    assert_eq!(press(&mut t, KEY_Q), KeyEffect::Typed { cell: (10, 20), ch: 'q' });
    press(&mut t, SHIFT);
    assert_eq!(press(&mut t, KEY_1), KeyEffect::Typed { cell: (20, 20), ch: '!' });
    t.release(SHIFT.0, SHIFT.1);
    assert_eq!(press(&mut t, KEY_A), KeyEffect::Typed { cell: (30, 20), ch: 'a' });
    assert_eq!(t.editor().message(), b"q!a");
    assert!(t.requests().acted);
}

#[test]
fn idle_modifiers_do_nothing() {
    let mut t = Terminal::new(true);
    assert_eq!(press(&mut t, TAB), KeyEffect::Ignored);
    assert!(!t.requests().acted);
}

#[test]
fn backspace_and_fn_backspace() {
    let mut t = Terminal::new(false);
    press(&mut t, KEY_Q);
    press(&mut t, KEY_Q);
    assert_eq!(press(&mut t, BACKSPACE), KeyEffect::Erased(Some((20, 20))));
    assert_eq!(t.editor().message(), b"q");
    t.release(BACKSPACE.0, BACKSPACE.1);
    press(&mut t, FN);
    assert_eq!(press(&mut t, BACKSPACE), KeyEffect::Cleared);
    assert_eq!(t.editor().message(), b"");
    assert_eq!(t.editor().cursor(), (10, 20));
}

#[test]
fn enter_sends_only_online() {
    let mut off = Terminal::new(false);
    press(&mut off, KEY_Q);
    assert_eq!(press(&mut off, ENTER), KeyEffect::Newline);
    assert!(!off.requests().send);
    assert_eq!(off.editor().cursor(), (10, 40));

    let mut on = Terminal::new(true);
    press(&mut on, KEY_Q);
    assert_eq!(press(&mut on, ENTER), KeyEffect::Ignored);
    assert!(on.requests().send);
    assert_eq!(on.editor().message(), b"q");
    on.overlay_shown();
    assert_eq!(on.editor().message(), b"");
    assert_eq!(on.editor().cursor(), (10, 120));
}

#[test]
fn fn_commands() {
    let mut t = Terminal::new(true);
    press(&mut t, FN);
    press(&mut t, KEY_W);
    press(&mut t, KEY_I);
    press(&mut t, KEY_P);
    let r = t.requests();
    assert!(r.scan && r.ip && r.tone && !r.send);
    assert_eq!(press(&mut t, KEY_R), KeyEffect::Restart);
    t.begin_tick();
    let r = t.requests();
    assert!(!r.scan && !r.ip && !r.tone && !r.acted);
}

#[test]
fn recording_starts_and_stops_on_release() {
    let mut t = Terminal::new(true);
    press(&mut t, FN);
    assert_eq!(press(&mut t, KEY_A), KeyEffect::StartRecording { ask: true });
    assert!(t.is_recording());
    assert!(t.recording_is_question());
    // a second start while recording is ignored
    assert_eq!(press(&mut t, SPACE), KeyEffect::Ignored);
    t.release(SPACE.0, SPACE.1);
    assert!(t.is_recording());
    t.release(KEY_A.0, KEY_A.1);
    assert!(!t.is_recording());
    assert!(t.requests().stop_send);
}

#[test]
fn recording_needs_the_network() {
    let mut t = Terminal::new(false);
    press(&mut t, FN);
    assert_eq!(press(&mut t, SPACE), KeyEffect::Ignored);
    assert!(!t.is_recording());
}

#[test]
fn full_recording_stops() {
    let mut t = Terminal::new(true);
    press(&mut t, FN);
    press(&mut t, SPACE);
    assert!(!t.recording_is_question());
    t.captured(100, 48000);
    assert!(t.is_recording());
    t.captured(48000, 48000);
    assert!(!t.is_recording());
    assert!(t.requests().stop_send);
    t.recording_handled();
    assert!(t.requests().acted);
}

#[test]
fn held_key_repeats_on_schedule() {
    let mut t = Terminal::new(false);
    press(&mut t, KEY_Q);
    let mut fired = Vec::new();
    for tick in 1..=40u32 {
        if let Some(e) = t.repeat_tick() {
            assert!(matches!(e, KeyEffect::Typed { ch: 'q', .. }));
            fired.push(tick);
        }
    }
    let expected: Vec<u32> = (0..6).map(|k| REPEAT_DELAY_TICKS + k * REPEAT_INTERVAL_TICKS).collect();
    assert_eq!(fired, expected);
    assert_eq!(t.editor().message().len(), 7);
}

#[test]
fn release_stops_repeat() {
    let mut t = Terminal::new(false);
    press(&mut t, BACKSPACE);
    t.release(BACKSPACE.0, BACKSPACE.1);
    for _ in 0..50 {
        assert_eq!(t.repeat_tick(), None);
    }
}

#[test]
fn backspace_repeats() {
    let mut t = Terminal::new(false);
    for _ in 0..3 {
        press(&mut t, KEY_Q);
    }
    press(&mut t, BACKSPACE);
    for _ in 0..REPEAT_DELAY_TICKS {
        t.repeat_tick();
    }
    assert_eq!(t.editor().message(), b"q");
}

#[test]
fn cursor_blinks() {
    let mut t = Terminal::new(false);
    let mut phases = Vec::new();
    for _ in 0..(3 * BLINK_TICKS) {
        t.begin_tick();
        phases.push(t.blink_tick());
    }
    let b = BLINK_TICKS as usize;
    assert!(phases[..b - 1].iter().all(|&p| p));
    assert!(phases[b - 1..2 * b - 1].iter().all(|&p| !p));
    assert!(phases[2 * b - 1..3 * b - 1].iter().all(|&p| p));
    assert!(!phases[3 * b - 1]);
    t.begin_tick();
    assert!(!t.blink_tick());
    assert!(!t.cursor_visible());
}

#[test]
fn input_restarts_the_blink() {
    let mut t = Terminal::new(false);
    for _ in 0..30 {
        t.begin_tick();
        t.blink_tick();
    }
    t.begin_tick();
    assert!(!t.blink_tick());
    t.begin_tick();
    press(&mut t, KEY_Q);
    assert!(t.blink_tick());
}
