//! Decisions of the terminal's input loop. The loop runs in ticks of
//! about 20 ms; in each tick the caller reports key presses and releases
//! from the keyboard controller, performs the requests gathered here
//! (send, access point scan, address display, test tone, recording) and
//! draws what the returned effects describe.
//!
//! Held keys repeat after [`REPEAT_DELAY_TICKS`] ticks and then every
//! [`REPEAT_INTERVAL_TICKS`] ticks; the cursor blinks with a period of
//! twice [`BLINK_TICKS`] ticks and shows steadily right after input.

use vstd::prelude::*;
use crate::editor::{Editor, EditorView};
use crate::keyboard::{
    key_to_char, raw_key_in_range, remap_key, shift_char, spec_key_char, spec_remap, spec_shift,
};

verus! {

/// Ticks from a key press to its first repetition (about 400 ms).
pub const REPEAT_DELAY_TICKS: u32 = 20;
/// Ticks between repetitions of a held key (about 80 ms).
pub const REPEAT_INTERVAL_TICKS: u32 = 4;
/// Ticks between two toggles of the blinking cursor (about 500 ms).
pub const BLINK_TICKS: u32 = 25;

/// What the caller has to do after the events of one tick.
#[derive(Debug, Clone, Copy, PartialEq, Eq, Structural)]
pub struct Requests {
    /// Send the typed message (Enter while online).
    pub send: bool,
    /// Show the list of access points (Fn+W).
    pub scan: bool,
    /// Show the network address (Fn+I).
    pub ip: bool,
    /// Play the test tone (Fn+P).
    pub tone: bool,
    /// Recording stopped: send the recorded audio.
    pub stop_send: bool,
    /// Something changed on the screen in this tick.
    pub acted: bool,
}

/// What a key press changed, for the caller to draw or perform.
#[derive(Debug, Clone, Copy, PartialEq, Eq)]
pub enum KeyEffect {
    /// Nothing to draw.
    Ignored,
    /// Blank the whole screen.
    Cleared,
    /// Erase the character cell, if any.
    Erased(Option<(i32, i32)>),
    /// The cursor moved to a new line.
    Newline,
    /// Draw `ch` in `cell`.
    Typed { cell: (i32, i32), ch: char },
    /// Recording started; announce it (`ask`: the recording is a question).
    StartRecording { ask: bool },
    /// Restart the device.
    Restart,
}

/// The input loop's own state besides the editor.
#[derive(Debug, Clone, Copy)]
pub struct InputState {
    /// The network is up: Enter sends and recordings are possible.
    pub online: bool,
    /// Shift is held.
    pub shift_down: bool,
    /// Fn is held.
    pub fn_down: bool,
    /// The key that repeats while held, by raw coordinates.
    pub held: Option<(u8, u8)>,
    /// Ticks left until the held key acts again.
    pub repeat_countdown: u32,
    /// Audio is being recorded.
    pub recording: bool,
    /// The key whose release ends the recording.
    pub rec_key: (u8, u8),
    /// The recording is a question (Fn+A) rather than dictation (Fn+Space).
    pub rec_is_ask: bool,
    /// The blinking cursor is in its visible phase.
    pub blink_on: bool,
    /// Ticks since the blink phase last changed.
    pub blink_ticks: u32,
    /// The cursor is drawn on the screen.
    pub cursor_shown: bool,
    /// Requests gathered in the current tick.
    pub requests: Requests,
}

/// No requests and nothing drawn.
pub open spec fn no_requests() -> Requests {
    Requests { send: false, scan: false, ip: false, tone: false, stop_send: false, acted: false }
}

/// `r` with the screen marked as changed.
pub open spec fn acted(r: Requests) -> Requests {
    Requests { acted: true, ..r }
}

/// The effect of a backspace on the screen.
pub open spec fn erase_effect(e: EditorView) -> KeyEffect {
    match e.backspace_cell() {
        Some(c) => KeyEffect::Erased(Some((c.0 as i32, c.1 as i32))),
        None => KeyEffect::Erased(None),
    }
}

/// The character a key types, with Shift applied when it is held.
pub open spec fn typed_char(s: InputState, base: char) -> char {
    if s.shift_down {
        spec_shift(base)
    } else {
        base
    }
}

/// The effect of typing `ch` at the cursor of `e`.
pub open spec fn typed_effect(e: EditorView, ch: char) -> KeyEffect {
    KeyEffect::Typed { cell: (e.cursor_x as i32, e.cursor_y as i32), ch }
}

/// Whether the physical position belongs to a modifier without function
/// of its own (Tab, Ctrl, Opt, Alt).
pub open spec fn is_idle_modifier(row: int, col: int) -> bool {
    (row == 1 && col == 0) || (row == 3 && col == 0) || (row == 3 && col == 1) || (row == 3 && col
        == 2)
}

/// Handling of a character key `base` pressed at `raw`: Fn with W, I and
/// P requests the access point list, the address and the test tone; Fn
/// with Space or A starts a recording when online and not recording
/// already (A records a question); Fn with R restarts; otherwise the key
/// types its character, shifted when Shift is held, and starts repeating.
pub open spec fn spec_press_char(e: EditorView, s: InputState, raw: (u8, u8), base: char) -> (
    EditorView,
    InputState,
    KeyEffect,
) {
    if s.fn_down && base == 'w' {
        (e, InputState { held: None, requests: Requests { scan: true, ..s.requests }, ..s }, KeyEffect::Ignored)
    } else if s.fn_down && base == 'i' {
        (e, InputState { held: None, requests: Requests { ip: true, ..s.requests }, ..s }, KeyEffect::Ignored)
    } else if s.fn_down && base == 'p' {
        (e, InputState { held: None, requests: Requests { tone: true, ..s.requests }, ..s }, KeyEffect::Ignored)
    } else if s.fn_down && (base == ' ' || base == 'a') {
        if s.online && !s.recording {
            (
                e,
                InputState {
                    held: None,
                    recording: true,
                    rec_key: raw,
                    rec_is_ask: base == 'a',
                    cursor_shown: false,
                    ..s
                },
                KeyEffect::StartRecording { ask: base == 'a' },
            )
        } else {
            (e, InputState { held: None, ..s }, KeyEffect::Ignored)
        }
    } else if s.fn_down && base == 'r' {
        (e, s, KeyEffect::Restart)
    } else {
        let ch = typed_char(s, base);
        (
            e.put_char(ch),
            InputState {
                held: Some(raw),
                repeat_countdown: REPEAT_DELAY_TICKS,
                requests: acted(s.requests),
                ..s
            },
            typed_effect(e, ch),
        )
    }
}

/// Handling of a key press at raw coordinates `raw`: Shift and Fn are
/// latched, Backspace erases and starts repeating (Fn+Backspace clears
/// everything), Enter requests sending when online and breaks the line
/// otherwise, Tab, Ctrl, Opt and Alt do nothing, and the other keys are
/// handled by [`spec_press_char`].
pub open spec fn spec_press(e: EditorView, s: InputState, raw: (u8, u8)) -> (
    EditorView,
    InputState,
    KeyEffect,
) {
    let (row, col) = spec_remap(raw.0, raw.1);
    if row == 2 && col == 1 {
        (e, InputState { shift_down: true, ..s }, KeyEffect::Ignored)
    } else if row == 2 && col == 0 {
        (e, InputState { fn_down: true, ..s }, KeyEffect::Ignored)
    } else if row == 0 && col == 13 {
        if s.fn_down {
            (
                EditorView::initial(),
                InputState { held: None, requests: acted(s.requests), ..s },
                KeyEffect::Cleared,
            )
        } else {
            (
                e.backspace(),
                InputState {
                    held: Some(raw),
                    repeat_countdown: REPEAT_DELAY_TICKS,
                    requests: acted(s.requests),
                    ..s
                },
                erase_effect(e),
            )
        }
    } else if row == 2 && col == 13 {
        if s.online {
            (
                e,
                InputState { held: None, requests: Requests { send: true, ..s.requests }, ..s },
                KeyEffect::Ignored,
            )
        } else {
            (
                e.newline(),
                InputState { held: None, requests: acted(s.requests), ..s },
                KeyEffect::Newline,
            )
        }
    } else if is_idle_modifier(row, col) {
        (e, s, KeyEffect::Ignored)
    } else {
        match spec_key_char(raw.0, raw.1) {
            Some(base) => spec_press_char(e, s, raw, base),
            None => (e, s, KeyEffect::Ignored),
        }
    }
}

/// Handling of a key release: releasing the recording key stops the
/// recording and requests its sending; Shift and Fn are unlatched; the
/// held key stops repeating.
pub open spec fn spec_release(s: InputState, raw: (u8, u8)) -> InputState {
    let (row, col) = spec_remap(raw.0, raw.1);
    let s1 = if s.recording && raw == s.rec_key {
        InputState { recording: false, requests: Requests { stop_send: true, ..s.requests }, ..s }
    } else {
        s
    };
    if row == 2 && col == 1 {
        InputState { shift_down: false, ..s1 }
    } else if row == 2 && col == 0 {
        InputState { fn_down: false, ..s1 }
    } else if s1.held == Some(raw) {
        InputState { held: None, ..s1 }
    } else {
        s1
    }
}

/// The repeat countdown after one tick, and whether the key acts in it.
pub open spec fn repeat_countdown_step(c: u32) -> (u32, bool) {
    let c1 = if c > 0 {
        (c - 1) as u32
    } else {
        c
    };
    if c1 == 0 {
        (REPEAT_INTERVAL_TICKS, true)
    } else {
        (c1, false)
    }
}

/// One tick of key repetition: while a key is held the countdown runs;
/// when it expires the key acts again (backspace, or its character, with
/// Shift applied when held) and the countdown restarts with the repeat
/// interval.
pub open spec fn spec_repeat(e: EditorView, s: InputState) -> (
    EditorView,
    InputState,
    Option<KeyEffect>,
) {
    match s.held {
        None => (e, s, None),
        Some(raw) => {
            let (c, fires) = repeat_countdown_step(s.repeat_countdown);
            if !fires {
                (e, InputState { repeat_countdown: c, ..s }, None)
            } else {
                let s1 = InputState { repeat_countdown: c, requests: acted(s.requests), ..s };
                let (row, col) = spec_remap(raw.0, raw.1);
                if row == 0 && col == 13 {
                    (e.backspace(), s1, Some(erase_effect(e)))
                } else {
                    match spec_key_char(raw.0, raw.1) {
                        Some(base) => {
                            let ch = typed_char(s, base);
                            (e.put_char(ch), s1, Some(typed_effect(e, ch)))
                        },
                        None => (e, s1, Some(KeyEffect::Ignored)),
                    }
                }
            }
        },
    }
}

/// One tick of the cursor blink: input restarts the phase with the cursor
/// on; otherwise the cursor toggles every [`BLINK_TICKS`] ticks. The
/// cursor is drawn when it is on.
pub open spec fn spec_blink(s: InputState) -> InputState {
    let (on, ticks) = if s.requests.acted {
        (true, 0u32)
    } else {
        (s.blink_on, s.blink_ticks)
    };
    let ticks1 = ticks + 1;
    let (on1, ticks2) = if ticks1 >= BLINK_TICKS {
        (!on, 0u32)
    } else {
        (on, ticks1 as u32)
    };
    InputState {
        blink_on: on1,
        blink_ticks: ticks2,
        cursor_shown: if on1 {
            true
        } else {
            s.cursor_shown
        },
        ..s
    }
}

/// The state of the input loop at start-up.
pub open spec fn initial_input(online: bool) -> InputState {
    InputState {
        online,
        shift_down: false,
        fn_down: false,
        held: None,
        repeat_countdown: 0,
        recording: false,
        rec_key: (0, 0),
        rec_is_ask: false,
        blink_on: true,
        blink_ticks: 0,
        cursor_shown: false,
        requests: no_requests(),
    }
}

/// Bounds of the input state: the counters stay within their periods and
/// the held key is a valid scan coordinate.
pub open spec fn input_wf(s: InputState) -> bool {
    &&& s.repeat_countdown <= REPEAT_DELAY_TICKS
    &&& s.blink_ticks < BLINK_TICKS
    &&& s.held matches Some(raw) ==> raw_key_in_range(raw.0, raw.1)
}

/// State of the terminal's input loop and its line editor.
pub struct Terminal {
    editor: Editor,
    input: InputState,
}

impl Terminal {
    /// The editor's abstract state.
    pub closed spec fn editor_view(&self) -> EditorView {
        self.editor@
    }

    /// The input loop's state.
    pub closed spec fn input_view(&self) -> InputState {
        self.input
    }

    /// Consistency of the editor and the input state.
    pub closed spec fn wf(&self) -> bool {
        &&& self.editor.wf()
        &&& input_wf(self.input)
    }

    /// The input loop at start-up; `online` tells whether the network is up.
    pub fn new(online: bool) -> (t: Self)
        ensures
            t.wf(),
            t.editor_view() == EditorView::initial(),
            t.input_view() == initial_input(online),
    {
        Terminal {
            editor: Editor::new(),
            input: InputState {
                online,
                shift_down: false,
                fn_down: false,
                held: None,
                repeat_countdown: 0,
                recording: false,
                rec_key: (0, 0),
                rec_is_ask: false,
                blink_on: true,
                blink_ticks: 0,
                cursor_shown: false,
                requests: Requests {
                    send: false,
                    scan: false,
                    ip: false,
                    tone: false,
                    stop_send: false,
                    acted: false,
                },
            },
        }
    }

    /// The line editor.
    pub fn editor(&self) -> (e: &Editor)
        ensures
            e@ == self.editor_view(),
            self.wf() ==> e.wf(),
    {
        &self.editor
    }

    /// The input loop's state.
    pub fn state(&self) -> (s: InputState)
        ensures
            s == self.input_view(),
    {
        self.input
    }

    /// Whether audio is being recorded.
    pub fn is_recording(&self) -> (r: bool)
        ensures
            r == self.input_view().recording,
    {
        self.input.recording
    }

    /// Whether the current recording is a question rather than dictation.
    pub fn recording_is_question(&self) -> (ask: bool)
        ensures
            ask == self.input_view().rec_is_ask,
    {
        self.input.rec_is_ask
    }

    /// The requests gathered in the current tick.
    pub fn requests(&self) -> (r: Requests)
        ensures
            r == self.input_view().requests,
    {
        self.input.requests
    }

    /// Whether the cursor is drawn on the screen.
    pub fn cursor_visible(&self) -> (shown: bool)
        ensures
            shown == self.input_view().cursor_shown,
    {
        self.input.cursor_shown
    }

    /// Starts a tick: the cursor has been erased and no request is pending.
    pub fn begin_tick(&mut self)
        requires
            old(self).wf(),
        ensures
            final(self).wf(),
            final(self).editor_view() == old(self).editor_view(),
            final(self).input_view() == (InputState {
                cursor_shown: false,
                requests: no_requests(),
                ..old(self).input_view()
            }),
    {
        let s = self.input;
        self.input = InputState {
            cursor_shown: false,
            requests: Requests {
                send: false,
                scan: false,
                ip: false,
                tone: false,
                stop_send: false,
                acted: false,
            },
            ..s
        };
    }

    /// Reports how many samples the recording holds after this tick's
    /// capture; a recording that reached `capacity` stops and is sent.
    pub fn captured(&mut self, filled: usize, capacity: usize)
        requires
            old(self).wf(),
        ensures
            final(self).wf(),
            final(self).editor_view() == old(self).editor_view(),
            final(self).input_view() == (if old(self).input_view().recording && filled >= capacity {
                InputState {
                    recording: false,
                    requests: Requests { stop_send: true, ..old(self).input_view().requests },
                    ..old(self).input_view()
                }
            } else {
                old(self).input_view()
            }),
    {
        let s = self.input;
        if s.recording && filled >= capacity {
            self.input = InputState {
                recording: false,
                requests: Requests { stop_send: true, ..s.requests },
                ..s
            };
        }
    }

    /// A key was pressed; returns what to draw or perform.
    pub fn press(&mut self, raw_row: u8, raw_col: u8) -> (effect: KeyEffect)
        requires
            old(self).wf(),
            raw_key_in_range(raw_row, raw_col),
        ensures
            final(self).wf(),
            (final(self).editor_view(), final(self).input_view(), effect) == spec_press(
                old(self).editor_view(),
                old(self).input_view(),
                (raw_row, raw_col),
            ),
    {
        let (row, col) = remap_key(raw_row, raw_col);
        let s = self.input;
        if row == 2 && col == 1 {
            self.input = InputState { shift_down: true, ..s };
            KeyEffect::Ignored
        } else if row == 2 && col == 0 {
            self.input = InputState { fn_down: true, ..s };
            KeyEffect::Ignored
        } else if row == 0 && col == 13 {
            self.press_backspace(raw_row, raw_col)
        } else if row == 2 && col == 13 {
            if s.online {
                self.input = InputState {
                    held: None,
                    requests: Requests { send: true, ..s.requests },
                    ..s
                };
                KeyEffect::Ignored
            } else {
                self.editor.newline();
                self.input = InputState { held: None, requests: Requests { acted: true, ..s.requests }, ..s };
                KeyEffect::Newline
            }
        } else if (row == 1 && col == 0) || (row == 3 && col == 0) || (row == 3 && col == 1) || (
        row == 3 && col == 2) {
            KeyEffect::Ignored
        } else {
            match key_to_char(raw_row, raw_col) {
                None => KeyEffect::Ignored,
                Some(base) => self.press_char(raw_row, raw_col, base),
            }
        }
    }

    fn press_backspace(&mut self, raw_row: u8, raw_col: u8) -> (effect: KeyEffect)
        requires
            old(self).wf(),
            raw_key_in_range(raw_row, raw_col),
        ensures
            final(self).wf(),
            old(self).input_view().fn_down ==> (final(self).editor_view(), final(self).input_view(), effect) == (
                EditorView::initial(),
                InputState { held: None, requests: acted(old(self).input_view().requests), ..old(self).input_view() },
                KeyEffect::Cleared,
            ),
            !old(self).input_view().fn_down ==> (final(self).editor_view(), final(self).input_view(), effect) == (
                old(self).editor_view().backspace(),
                InputState {
                    held: Some((raw_row, raw_col)),
                    repeat_countdown: REPEAT_DELAY_TICKS,
                    requests: acted(old(self).input_view().requests),
                    ..old(self).input_view()
                },
                erase_effect(old(self).editor_view()),
            ),
    {
        let s = self.input;
        if s.fn_down {
            self.editor.clear();
            self.input = InputState { held: None, requests: Requests { acted: true, ..s.requests }, ..s };
            KeyEffect::Cleared
        } else {
            let erased = self.editor.backspace();
            self.input = InputState {
                held: Some((raw_row, raw_col)),
                repeat_countdown: REPEAT_DELAY_TICKS,
                requests: Requests { acted: true, ..s.requests },
                ..s
            };
            KeyEffect::Erased(erased)
        }
    }

    fn press_char(&mut self, raw_row: u8, raw_col: u8, base: char) -> (effect: KeyEffect)
        requires
            old(self).wf(),
            raw_key_in_range(raw_row, raw_col),
        ensures
            final(self).wf(),
            (final(self).editor_view(), final(self).input_view(), effect) == spec_press_char(
                old(self).editor_view(),
                old(self).input_view(),
                (raw_row, raw_col),
                base,
            ),
    {
        let s = self.input;
        if s.fn_down && base == 'w' {
            self.input = InputState { held: None, requests: Requests { scan: true, ..s.requests }, ..s };
            KeyEffect::Ignored
        } else if s.fn_down && base == 'i' {
            self.input = InputState { held: None, requests: Requests { ip: true, ..s.requests }, ..s };
            KeyEffect::Ignored
        } else if s.fn_down && base == 'p' {
            self.input = InputState { held: None, requests: Requests { tone: true, ..s.requests }, ..s };
            KeyEffect::Ignored
        } else if s.fn_down && (base == ' ' || base == 'a') {
            if s.online && !s.recording {
                self.input = InputState {
                    held: None,
                    recording: true,
                    rec_key: (raw_row, raw_col),
                    rec_is_ask: base == 'a',
                    cursor_shown: false,
                    ..s
                };
                KeyEffect::StartRecording { ask: base == 'a' }
            } else {
                self.input = InputState { held: None, ..s };
                KeyEffect::Ignored
            }
        } else if s.fn_down && base == 'r' {
            KeyEffect::Restart
        } else {
            let ch = if s.shift_down {
                shift_char(base)
            } else {
                base
            };
            let cell = self.editor.put_char(ch);
            self.input = InputState {
                held: Some((raw_row, raw_col)),
                repeat_countdown: REPEAT_DELAY_TICKS,
                requests: Requests { acted: true, ..s.requests },
                ..s
            };
            KeyEffect::Typed { cell, ch }
        }
    }

    /// A key was released.
    pub fn release(&mut self, raw_row: u8, raw_col: u8)
        requires
            old(self).wf(),
            raw_key_in_range(raw_row, raw_col),
        ensures
            final(self).wf(),
            final(self).editor_view() == old(self).editor_view(),
            final(self).input_view() == spec_release(old(self).input_view(), (raw_row, raw_col)),
            spec_remap(raw_row, raw_col) == (2int, 0int) ==> !final(self).input_view().fn_down,
            spec_remap(raw_row, raw_col) == (2int, 1int) ==> !final(self).input_view().shift_down,
    {
        let (row, col) = remap_key(raw_row, raw_col);
        let s = self.input;
        let s1 = if s.recording && raw_row == s.rec_key.0 && raw_col == s.rec_key.1 {
            InputState { recording: false, requests: Requests { stop_send: true, ..s.requests }, ..s }
        } else {
            s
        };
        let held_here = match s1.held {
            Some((r, c)) => r == raw_row && c == raw_col,
            None => false,
        };
        self.input = if row == 2 && col == 1 {
            InputState { shift_down: false, ..s1 }
        } else if row == 2 && col == 0 {
            InputState { fn_down: false, ..s1 }
        } else if held_here {
            InputState { held: None, ..s1 }
        } else {
            s1
        };
    }

    /// Something was shown over the text (a server reply, the access point
    /// list, the address or a status line): the cursor goes to the start of
    /// the bottom line with an empty message.
    pub fn overlay_shown(&mut self)
        requires
            old(self).wf(),
        ensures
            final(self).wf(),
            final(self).editor_view() == EditorView::at_bottom(),
            final(self).input_view() == (InputState {
                cursor_shown: false,
                requests: acted(old(self).input_view().requests),
                ..old(self).input_view()
            }),
    {
        self.editor.reset_to_bottom();
        let s = self.input;
        self.input = InputState { cursor_shown: false, requests: Requests { acted: true, ..s.requests }, ..s };
    }

    /// The stopped recording has been dealt with.
    pub fn recording_handled(&mut self)
        requires
            old(self).wf(),
        ensures
            final(self).wf(),
            final(self).editor_view() == old(self).editor_view(),
            final(self).input_view() == (InputState {
                cursor_shown: false,
                requests: acted(old(self).input_view().requests),
                ..old(self).input_view()
            }),
    {
        let s = self.input;
        self.input = InputState { cursor_shown: false, requests: Requests { acted: true, ..s.requests }, ..s };
    }

    /// Runs key repetition for this tick; returns the effect when the held
    /// key acted again.
    pub fn repeat_tick(&mut self) -> (effect: Option<KeyEffect>)
        requires
            old(self).wf(),
        ensures
            final(self).wf(),
            (final(self).editor_view(), final(self).input_view(), effect) == spec_repeat(
                old(self).editor_view(),
                old(self).input_view(),
            ),
            (effect matches Some(KeyEffect::Typed { ch, .. }) ==> old(self).input_view().held matches Some(
                raw,
            ) && spec_key_char(raw.0, raw.1) matches Some(base) && ch == (if old(
                self,
            ).input_view().shift_down {
                spec_shift(base)
            } else {
                base
            })),
    {
        let s = self.input;
        match s.held {
            None => None,
            Some((raw_row, raw_col)) => {
                let c1 = if s.repeat_countdown > 0 {
                    s.repeat_countdown - 1
                } else {
                    s.repeat_countdown
                };
                if c1 != 0 {
                    self.input = InputState { repeat_countdown: c1, ..s };
                    return None;
                }
                self.input = InputState {
                    repeat_countdown: REPEAT_INTERVAL_TICKS,
                    requests: Requests { acted: true, ..s.requests },
                    ..s
                };
                let (row, col) = remap_key(raw_row, raw_col);
                if row == 0 && col == 13 {
                    Some(KeyEffect::Erased(self.editor.backspace()))
                } else {
                    match key_to_char(raw_row, raw_col) {
                        Some(base) => {
                            let ch = if s.shift_down {
                                shift_char(base)
                            } else {
                                base
                            };
                            let cell = self.editor.put_char(ch);
                            Some(KeyEffect::Typed { cell, ch })
                        },
                        None => Some(KeyEffect::Ignored),
                    }
                }
            },
        }
    }

    /// Runs the cursor blink for this tick; returns whether the cursor is
    /// drawn.
    pub fn blink_tick(&mut self) -> (draw: bool)
        requires
            old(self).wf(),
        ensures
            final(self).wf(),
            final(self).editor_view() == old(self).editor_view(),
            final(self).input_view() == spec_blink(old(self).input_view()),
            draw == final(self).input_view().blink_on,
            draw ==> final(self).input_view().cursor_shown,
    {
        let s = self.input;
        let (on, ticks) = if s.requests.acted {
            (true, 0u32)
        } else {
            (s.blink_on, s.blink_ticks)
        };
        let ticks1 = ticks + 1;
        let (on1, ticks2) = if ticks1 >= BLINK_TICKS {
            (!on, 0u32)
        } else {
            (on, ticks1)
        };
        self.input = InputState {
            blink_on: on1,
            blink_ticks: ticks2,
            cursor_shown: if on1 {
                true
            } else {
                s.cursor_shown
            },
            ..s
        };
        on1
    }
}

/// The repeat countdown after `n` ticks without other input.
pub open spec fn countdown_after(c: u32, n: nat) -> u32
    decreases n,
{
    if n == 0 {
        c
    } else {
        repeat_countdown_step(countdown_after(c, (n - 1) as nat)).0
    }
}

/// Whether the held key acts in the `n`-th tick (counting from 1) after
/// its countdown was `c`.
pub open spec fn repeats_on_tick(c: u32, n: nat) -> bool {
    n >= 1 && repeat_countdown_step(countdown_after(c, (n - 1) as nat)).1
}

proof fn lemma_countdown_after(c: u32, n: nat)
    requires
        1 <= c <= REPEAT_DELAY_TICKS,
    ensures
        n < c ==> countdown_after(c, n) == c - n,
        n >= c ==> countdown_after(c, n) == REPEAT_INTERVAL_TICKS - (n - c) % (
        REPEAT_INTERVAL_TICKS as int),
    decreases n,
{
    if n > 0 {
        lemma_countdown_after(c, (n - 1) as nat);
    }
}

/// A held key whose countdown is `c` acts again exactly in the ticks
/// `c`, `c + REPEAT_INTERVAL_TICKS`, `c + 2 * REPEAT_INTERVAL_TICKS`, ...;
/// after a press (`c == REPEAT_DELAY_TICKS`) that is first after the
/// repeat delay and then at the repeat interval.
pub proof fn lemma_repeat_schedule(c: u32, n: nat)
    requires
        1 <= c <= REPEAT_DELAY_TICKS,
        n >= 1,
    ensures
        repeats_on_tick(c, n) <==> (n >= c && (n - c) % (REPEAT_INTERVAL_TICKS as int) == 0),
{
    lemma_countdown_after(c, (n - 1) as nat);
}

/// Releasing the held key ends its repetition: the next tick repeats
/// nothing and leaves the editor alone.
pub proof fn lemma_release_stops_repeat(e: EditorView, s: InputState, raw: (u8, u8))
    requires
        s.held == Some(raw),
        spec_remap(raw.0, raw.1) != (2int, 1int),
        spec_remap(raw.0, raw.1) != (2int, 0int),
    ensures
        spec_repeat(e, spec_release(s, raw)).2 is None,
        spec_repeat(e, spec_release(s, raw)).0 == e,
{
}

/// A key press requests sending only while the network is up; offline,
/// Enter breaks the line instead.
pub proof fn lemma_send_only_online(e: EditorView, s: InputState, raw: (u8, u8))
    requires
        !s.requests.send,
    ensures
        spec_press(e, s, raw).1.requests.send ==> s.online,
        !s.online && spec_remap(raw.0, raw.1) == (2int, 13int) ==> spec_press(e, s, raw).0
            == e.newline(),
{
}

/// A recording starts only while online and not already recording, and
/// releasing the key that started it stops it and requests its sending.
pub proof fn lemma_recording_lifecycle(e: EditorView, s: InputState, raw: (u8, u8))
    ensures
        !s.recording && spec_press(e, s, raw).1.recording ==> s.online,
        s.recording && raw == s.rec_key ==> !spec_release(s, raw).recording && spec_release(
            s,
            raw,
        ).requests.stop_send,
{
}

/// The input state after `n` blink ticks.
pub open spec fn blink_after(s: InputState, n: nat) -> InputState
    decreases n,
{
    if n == 0 {
        s
    } else {
        spec_blink(blink_after(s, (n - 1) as nat))
    }
}

/// Without input the cursor changes phase every [`BLINK_TICKS`] ticks:
/// after `n` ticks it has toggled once for every completed period.
pub proof fn lemma_blink_period(s: InputState, n: nat)
    requires
        !s.requests.acted,
        s.blink_ticks < BLINK_TICKS,
    ensures
        blink_after(s, n).blink_ticks == (s.blink_ticks + n) % (BLINK_TICKS as int),
        blink_after(s, n).blink_on == (s.blink_on != (((s.blink_ticks + n) / (
        BLINK_TICKS as int)) % 2 == 1)),
        blink_after(s, n).requests == s.requests,
    decreases n,
{
    if n > 0 {
        lemma_blink_period(s, (n - 1) as nat);
        let t = s.blink_ticks + n - 1;
        assert((t + 1) % 25 == if t % 25 + 1 >= 25 {
            0
        } else {
            t % 25 + 1
        }) by (nonlinear_arith)
            requires
                t >= 0,
        ;
        assert((t + 1) / 25 == if t % 25 + 1 >= 25 {
            t / 25 + 1
        } else {
            t / 25
        }) by (nonlinear_arith)
            requires
                t >= 0,
        ;
    }
}

/// Releasing Shift or Fn unlatches it, whatever else the state holds.
pub proof fn lemma_release_unlatches(s: InputState, raw: (u8, u8))
    ensures
        spec_remap(raw.0, raw.1) == (2int, 0int) ==> !spec_release(s, raw).fn_down,
        spec_remap(raw.0, raw.1) == (2int, 1int) ==> !spec_release(s, raw).shift_down,
{
}

/// After Fn has been pressed and released, a character key types its
/// character (shifted when Shift is held) instead of running an Fn command.
pub proof fn lemma_fn_released_then_key_types(
    e: EditorView,
    s: InputState,
    fn_key: (u8, u8),
    key: (u8, u8),
    base: char,
)
    requires
        raw_key_in_range(fn_key.0, fn_key.1),
        spec_remap(fn_key.0, fn_key.1) == (2int, 0int),
        spec_key_char(key.0, key.1) == Some(base),
    ensures
        ({
            let s1 = spec_release(spec_press(e, s, fn_key).1, fn_key);
            spec_press(e, s1, key).2 == KeyEffect::Typed {
                cell: (e.cursor_x as i32, e.cursor_y as i32),
                ch: if s1.shift_down {
                    spec_shift(base)
                } else {
                    base
                },
            }
        }),
{
    let (row, col) = spec_remap(key.0, key.1);
    assert(row == 0 || row == 1 || row == 2 || row == 3);
}

/// A repetition of a held character key types what a press of the key
/// types in the same Shift state: the shifted character while Shift is
/// held, the plain one otherwise.
pub proof fn lemma_repeat_types_like_press(e: EditorView, s: InputState)
    ensures
        (spec_repeat(e, s).2 matches Some(KeyEffect::Typed { ch, .. }) ==> s.held matches Some(raw)
            && spec_key_char(raw.0, raw.1) matches Some(base) && ch == (if s.shift_down {
            spec_shift(base)
        } else {
            base
        })),
{
}

/// A blink tick that draws the cursor records it as shown, so the next tick
/// erases it before anything else is drawn.
pub proof fn lemma_drawn_cursor_is_recorded(s: InputState)
    ensures
        spec_blink(s).blink_on ==> spec_blink(s).cursor_shown,
{
}

} // verus!
