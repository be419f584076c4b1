//! The line editor behind the terminal screen: cursor movement over a
//! fixed grid of text lines, wrapping, backspace across line starts, and
//! the message buffer that Enter sends.
//!
//! Drawing is left to the caller: operations that change the screen
//! return the cell that has to be drawn or erased.

use vstd::prelude::*;

verus! {

/// Width of one character cell in pixels.
pub const CHAR_W: i32 = 10;
/// Height of one text line in pixels.
pub const CHAR_H: i32 = 20;
/// Left edge of the text area.
pub const LEFT: i32 = 10;
/// Right edge of the text area.
pub const RIGHT: i32 = 230;
/// Baseline of the first text line.
pub const TOP: i32 = 20;
/// Number of text lines on the screen.
pub const MAX_LINES: usize = 6;
/// Capacity of the message buffer in bytes.
pub const MSG_CAP: usize = 128;

/// Abstract state of the editor.
pub struct EditorView {
    /// Horizontal position of the cursor cell.
    pub cursor_x: int,
    /// Baseline of the cursor's line.
    pub cursor_y: int,
    /// Index of the cursor's line.
    pub line: int,
    /// For each line, the x position just after its last typed character.
    pub line_end: Seq<int>,
    /// The bytes typed since the last send, newline or reset.
    pub message: Seq<u8>,
}

/// A horizontal position that lies on the character grid.
pub open spec fn on_grid(x: int) -> bool {
    (x - LEFT) % (CHAR_W as int) == 0
}

impl EditorView {
    /// Consistency of the editor state: the cursor is on a cell of a line
    /// of the screen, every line end is on the grid within the text area,
    /// and the message fits its buffer.
    pub open spec fn wf(self) -> bool {
        &&& 0 <= self.line < MAX_LINES
        &&& self.cursor_y == TOP + self.line * CHAR_H
        &&& LEFT <= self.cursor_x <= RIGHT - CHAR_W
        &&& on_grid(self.cursor_x)
        &&& self.line_end.len() == MAX_LINES
        &&& forall|i: int|
            0 <= i < MAX_LINES ==> LEFT <= #[trigger] self.line_end[i] <= RIGHT && on_grid(
                self.line_end[i],
            )
        &&& self.message.len() <= MSG_CAP
    }

    /// The state right after start-up or a reset: cursor at the top left,
    /// every line empty, no message.
    pub open spec fn initial() -> EditorView {
        EditorView {
            cursor_x: LEFT as int,
            cursor_y: TOP as int,
            line: 0,
            line_end: Seq::new(MAX_LINES as nat, |i: int| LEFT as int),
            message: Seq::empty(),
        }
    }

    /// The initial state with the cursor moved to the start of the last line.
    pub open spec fn at_bottom() -> EditorView {
        EditorView {
            cursor_y: TOP + (MAX_LINES - 1) * CHAR_H,
            line: MAX_LINES - 1,
            ..Self::initial()
        }
    }

    /// Moves to the start of the next line; on the last line the cursor
    /// goes back to the start of that same line.
    pub open spec fn advance_line(self) -> EditorView {
        if self.line + 1 < MAX_LINES {
            EditorView {
                line: self.line + 1,
                cursor_y: self.cursor_y + CHAR_H,
                cursor_x: LEFT as int,
                line_end: self.line_end.update(self.line + 1, LEFT as int),
                ..self
            }
        } else {
            EditorView {
                cursor_x: LEFT as int,
                line_end: self.line_end.update(self.line, LEFT as int),
                ..self
            }
        }
    }

    /// Whether typing `ch` stores it in the message.
    pub open spec fn stores(self, ch: char) -> bool {
        (ch as u32) < 128 && self.message.len() < MSG_CAP
    }

    /// Types `ch` at the cursor: the message gains the byte if it is ASCII
    /// and there is room, the cursor moves one cell right and wraps past
    /// the right edge.
    pub open spec fn put_char(self, ch: char) -> EditorView {
        let message = if self.stores(ch) {
            self.message.push(ch as u8)
        } else {
            self.message
        };
        let x = self.cursor_x + CHAR_W;
        let moved = EditorView {
            cursor_x: x,
            line_end: self.line_end.update(self.line, x),
            message,
            ..self
        };
        if x > RIGHT - CHAR_W {
            moved.advance_line()
        } else {
            moved
        }
    }

    /// Ends the line: records its end, moves to the next line and empties
    /// the message.
    pub open spec fn newline(self) -> EditorView {
        let ended = EditorView { line_end: self.line_end.update(self.line, self.cursor_x), ..self };
        EditorView { message: Seq::empty(), ..ended.advance_line() }
    }

    /// The cell that a backspace erases, if any: the cell left of the
    /// cursor, or at a line start the last character of the previous line.
    pub open spec fn backspace_cell(self) -> Option<(int, int)> {
        if self.cursor_x > LEFT {
            Some((self.cursor_x - CHAR_W, self.cursor_y))
        } else if self.line > 0 && self.line_end[self.line - 1] > LEFT {
            Some((self.line_end[self.line - 1] - CHAR_W, self.cursor_y - CHAR_H))
        } else {
            None
        }
    }

    /// Deletes one character: the message loses its last byte, and the
    /// cursor moves one cell left, or at a line start to the end of the
    /// previous line and one cell left of it when that line is not empty.
    pub open spec fn backspace(self) -> EditorView {
        let message = if self.message.len() > 0 {
            self.message.drop_last()
        } else {
            self.message
        };
        if self.cursor_x > LEFT {
            let x = self.cursor_x - CHAR_W;
            EditorView { cursor_x: x, line_end: self.line_end.update(self.line, x), message, ..self }
        } else if self.line > 0 {
            let line = self.line - 1;
            let end = self.line_end[line];
            let x = if end > LEFT {
                end - CHAR_W
            } else {
                end
            };
            EditorView {
                line,
                cursor_y: self.cursor_y - CHAR_H,
                cursor_x: x,
                line_end: if end > LEFT {
                    self.line_end.update(line, x)
                } else {
                    self.line_end
                },
                message,
            }
        } else {
            EditorView { message, ..self }
        }
    }
}

/// Cursor, line bookkeeping and message buffer of the terminal screen.
pub struct Editor {
    cursor_x: i32,
    cursor_y: i32,
    line: usize,
    line_end: [i32; 6],
    buf: [u8; 128],
    buf_len: usize,
}

impl View for Editor {
    type V = EditorView;

    closed spec fn view(&self) -> EditorView {
        EditorView {
            cursor_x: self.cursor_x as int,
            cursor_y: self.cursor_y as int,
            line: self.line as int,
            line_end: self.line_end@.map_values(|e: i32| e as int),
            message: self.buf@.take(self.buf_len as int),
        }
    }
}

impl Editor {
    /// Well-formedness of the editor (see [`EditorView::wf`]).
    pub closed spec fn wf(&self) -> bool {
        &&& self@.wf()
        &&& self.buf_len <= MSG_CAP
    }

    /// A well-formed editor has a consistent abstract state: the cursor on a
    /// cell of a line of the screen, every line end on the grid, and a
    /// message that fits its buffer.
    pub proof fn lemma_wf(&self)
        requires
            self.wf(),
        ensures
            self@.wf(),
    {
    }

    /// A fresh editor: cursor at the top left, all lines empty, no message.
    pub fn new() -> (e: Self)
        ensures
            e.wf(),
            e@ == EditorView::initial(),
    {
        let e = Editor {
            cursor_x: LEFT,
            cursor_y: TOP,
            line: 0,
            line_end: [LEFT; 6],
            buf: [0u8; 128],
            buf_len: 0,
        };
        assert(e@.line_end =~= EditorView::initial().line_end);
        assert(e@.message =~= Seq::<u8>::empty());
        e
    }

    /// The message typed so far.
    pub fn message(&self) -> (m: &[u8])
        requires
            self.wf(),
        ensures
            m@ == self@.message,
    {
        let all = self.buf.as_slice();
        &all[0..self.buf_len]
    }

    /// Puts the cursor and message back to the start without touching the
    /// screen.
    pub fn reset(&mut self)
        ensures
            final(self).wf(),
            final(self)@ == EditorView::initial(),
    {
        self.cursor_x = LEFT;
        self.cursor_y = TOP;
        self.line = 0;
        self.line_end = [LEFT; 6];
        self.buf_len = 0;
        assert(self@.line_end =~= EditorView::initial().line_end);
        assert(self@.message =~= Seq::<u8>::empty());
    }

    /// Resets, then moves the cursor to the start of the last line, below
    /// whatever the screen shows at the top.
    pub fn reset_to_bottom(&mut self)
        ensures
            final(self).wf(),
            final(self)@ == EditorView::at_bottom(),
    {
        self.reset();
        self.line = MAX_LINES - 1;
        self.cursor_y = TOP + (MAX_LINES as i32 - 1) * CHAR_H;
    }

    /// Clears the editor state; the caller blanks the screen.
    pub fn clear(&mut self)
        ensures
            final(self).wf(),
            final(self)@ == EditorView::initial(),
    {
        self.reset();
    }

    fn advance_line(&mut self)
        requires
            old(self).wf() || (old(self).buf_len <= MSG_CAP && (EditorView {
                cursor_x: LEFT as int,
                ..old(self)@
            }).wf()),
        ensures
            final(self)@ == old(self)@.advance_line(),
            final(self).wf(),
            final(self).buf_len == old(self).buf_len,
            final(self).buf == old(self).buf,
    {
        if self.line + 1 < MAX_LINES {
            self.line += 1;
            self.cursor_y += CHAR_H;
            self.cursor_x = LEFT;
            self.line_end[self.line] = LEFT;
        } else {
            self.cursor_x = LEFT;
            self.line_end[self.line] = LEFT;
        }
        assert(self@.line_end =~= old(self)@.advance_line().line_end);
    }

    /// Types `ch`: stores it in the message when it is ASCII and there is
    /// room, advances the cursor and wraps at the right edge. Returns the
    /// cell where the caller draws the glyph.
    pub fn put_char(&mut self, ch: char) -> (cell: (i32, i32))
        requires
            old(self).wf(),
        ensures
            final(self).wf(),
            final(self)@ == old(self)@.put_char(ch),
            cell == (old(self)@.cursor_x as i32, old(self)@.cursor_y as i32),
            (ch as u32) < 128 && old(self)@.message.len() < MSG_CAP ==> final(self)@.message
                == old(self)@.message.push(ch as u8),
            !((ch as u32) < 128 && old(self)@.message.len() < MSG_CAP) ==> final(self)@.message
                == old(self)@.message,
    {
        let cell = (self.cursor_x, self.cursor_y);
        let ghost before = self@;
        if (ch as u32) < 128 && self.buf_len < MSG_CAP {
            self.buf[self.buf_len] = ch as u8;
            self.buf_len += 1;
            assert(self@.message =~= before.message.push(ch as u8));
        }
        self.cursor_x += CHAR_W;
        self.line_end[self.line] = self.cursor_x;
        assert(self@.line_end =~= before.line_end.update(before.line, before.cursor_x + CHAR_W));
        if self.cursor_x > RIGHT - CHAR_W {
            self.advance_line();
        }
        cell
    }

    /// Ends the line: moves to the next one and empties the message.
    pub fn newline(&mut self)
        requires
            old(self).wf(),
        ensures
            final(self).wf(),
            final(self)@ == old(self)@.newline(),
    {
        let ghost before = self@;
        self.line_end[self.line] = self.cursor_x;
        assert(self@.line_end =~= before.line_end.update(before.line, before.cursor_x));
        self.advance_line();
        self.buf_len = 0;
        assert(self@.message =~= Seq::<u8>::empty());
    }

    fn erase_cell(&mut self)
        requires
            old(self).wf(),
        ensures
            final(self).wf(),
            final(self)@ == (EditorView {
                line_end: old(self)@.line_end.update(old(self)@.line, old(self)@.cursor_x),
                ..old(self)@
            }),
            final(self).buf_len == old(self).buf_len,
            final(self).buf == old(self).buf,
    {
        let ghost before = self@;
        self.line_end[self.line] = self.cursor_x;
        assert(self@.line_end =~= before.line_end.update(before.line, before.cursor_x));
    }

    /// Deletes one character (see [`EditorView::backspace`]). Returns the
    /// cell that the caller erases on the screen, if any.
    pub fn backspace(&mut self) -> (erased: Option<(i32, i32)>)
        requires
            old(self).wf(),
        ensures
            final(self).wf(),
            final(self)@ == old(self)@.backspace(),
            (erased matches Some(c) ==> old(self)@.backspace_cell() == Some((c.0 as int, c.1 as int))),
            erased is None <==> old(self)@.backspace_cell() is None,
    {
        let ghost before = self@;
        if self.buf_len > 0 {
            self.buf_len -= 1;
            assert(self@.message =~= before.message.drop_last());
        }
        if self.cursor_x > LEFT {
            self.cursor_x -= CHAR_W;
            self.erase_cell();
            assert(self@ == before.backspace());
            Some((self.cursor_x, self.cursor_y))
        } else if self.line > 0 {
            self.line -= 1;
            self.cursor_y -= CHAR_H;
            self.cursor_x = self.line_end[self.line];
            if self.cursor_x > LEFT {
                self.cursor_x -= CHAR_W;
                self.erase_cell();
                assert(self@ == before.backspace());
                Some((self.cursor_x, self.cursor_y))
            } else {
                assert(self@ == before.backspace());
                None
            }
        } else {
            None
        }
    }

    /// The cursor cell `(x, y)`.
    pub fn cursor(&self) -> (c: (i32, i32))
        ensures
            c.0 == self@.cursor_x,
            c.1 == self@.cursor_y,
    {
        (self.cursor_x, self.cursor_y)
    }
}

/// Typing a character that is stored and then pressing backspace gives back
/// the message and the cursor position of before, unless the character
/// wrapped the last line of the screen (there the cursor restarts the
/// same line and the backspace climbs to the line above).
pub proof fn lemma_backspace_undoes_put_char(v: EditorView, ch: char)
    requires
        v.wf(),
        v.stores(ch),
        !(v.line == MAX_LINES - 1 && v.cursor_x + CHAR_W > RIGHT - CHAR_W),
    ensures
        v.put_char(ch).backspace().message == v.message,
        v.put_char(ch).backspace().cursor_x == v.cursor_x,
        v.put_char(ch).backspace().cursor_y == v.cursor_y,
        v.put_char(ch).backspace().line == v.line,
{
    assert(v.put_char(ch).message.drop_last() =~= v.message);
}

/// Typing keeps the message that Enter sends: while the message has room,
/// every ASCII character (space and control characters included) is
/// appended as its byte; other characters, and characters typed into a
/// full message, leave it unchanged.
pub proof fn lemma_put_char_message(v: EditorView, ch: char)
    ensures
        (ch as u32) < 128 && v.message.len() < MSG_CAP ==> v.put_char(ch).message == v.message.push(
            ch as u8,
        ),
        !((ch as u32) < 128 && v.message.len() < MSG_CAP) ==> v.put_char(ch).message == v.message,
        v.put_char(ch).message.len() <= v.message.len() + 1,
{
}

} // verus!
