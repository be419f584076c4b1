//! Key map of the keyboard matrix: raw scan coordinates to physical
//! positions, positions to characters, and the Shift layer.

use vstd::prelude::*;

verus! {

/// Physical position of a raw scan coordinate: the row is the raw column
/// modulo 4, the column is twice the raw row, plus one for raw columns
/// above 3.
pub open spec fn spec_remap(raw_row: u8, raw_col: u8) -> (int, int) {
    ((raw_col + 4) % 4, 2 * raw_row + if raw_col > 3 { 1int } else { 0int })
}

/// Raw scan coordinates that the remapping accepts without overflowing a byte.
pub open spec fn raw_key_in_range(raw_row: u8, raw_col: u8) -> bool {
    raw_row < 128 && raw_col < 252
}

/// Maps the scan coordinate reported by the key controller to the
/// physical `(row, col)` of the key.
pub fn remap_key(raw_row: u8, raw_col: u8) -> (pos: (u8, u8))
    requires
        raw_key_in_range(raw_row, raw_col),
    ensures
        (pos.0 as int, pos.1 as int) == spec_remap(raw_row, raw_col),
        pos.0 < 4,
{
    let mut col: u8 = raw_row * 2;
    if raw_col > 3 {
        col += 1;
    }
    let row: u8 = (raw_col + 4) % 4;
    (row, col)
}

/// The Shift layer: lower-case letters become upper case, the number row
/// and punctuation keys give their shifted symbol, anything else is kept.
pub open spec fn spec_shift(ch: char) -> char {
    if 'a' <= ch && ch <= 'z' {
        ((ch as u32) - 32) as char
    } else {
        match ch {
            '1' => '!',
            '2' => '@',
            '3' => '#',
            '4' => '$',
            '5' => '%',
            '6' => '^',
            '7' => '&',
            '8' => '*',
            '9' => '(',
            '0' => ')',
            '-' => '_',
            '=' => '+',
            '[' => '{',
            ']' => '}',
            '\\' => '|',
            ';' => ':',
            '\'' => '"',
            ',' => '<',
            '.' => '>',
            '/' => '?',
            '`' => '~',
            _ => ch,
        }
    }
}

/// Character that Shift gives for `ch` (see [`spec_shift`]).
pub fn shift_char(ch: char) -> (r: char)
    ensures
        r == spec_shift(ch),
{
    if 'a' <= ch && ch <= 'z' {
        let code: u8 = (ch as u32 - 32) as u8;
        code as char
    } else {
        match ch {
            '1' => '!',
            '2' => '@',
            '3' => '#',
            '4' => '$',
            '5' => '%',
            '6' => '^',
            '7' => '&',
            '8' => '*',
            '9' => '(',
            '0' => ')',
            '-' => '_',
            '=' => '+',
            '[' => '{',
            ']' => '}',
            '\\' => '|',
            ';' => ':',
            '\'' => '"',
            ',' => '<',
            '.' => '>',
            '/' => '?',
            '`' => '~',
            _ => ch,
        }
    }
}

/// Characters of keyboard row 0, from its first column on.
pub open spec fn layout_row_0() -> Seq<char> {
    seq!['`', '1', '2', '3', '4', '5', '6', '7', '8', '9', '0', '-', '=']
}

/// Characters of keyboard row 1, from its first column on.
pub open spec fn layout_row_1() -> Seq<char> {
    seq!['q', 'w', 'e', 'r', 't', 'y', 'u', 'i', 'o', 'p', '[', ']', '\\']
}

/// Characters of keyboard row 2, from its first column on.
pub open spec fn layout_row_2() -> Seq<char> {
    seq!['a', 's', 'd', 'f', 'g', 'h', 'j', 'k', 'l', ';', '\'']
}

/// Characters of keyboard row 3, from its first column on.
pub open spec fn layout_row_3() -> Seq<char> {
    seq!['z', 'x', 'c', 'v', 'b', 'n', 'm', ',', '.', '/', ' ']
}

/// The unshifted character printed on the key at physical `(row, col)`,
/// or `None` for modifier keys and positions without a key.
pub open spec fn layout_char(row: int, col: int) -> Option<char> {
    let (first, keys) = if row == 0 {
        (0int, layout_row_0())
    } else if row == 1 {
        (1int, layout_row_1())
    } else if row == 2 {
        (2int, layout_row_2())
    } else {
        (3int, layout_row_3())
    };
    if 0 <= row < 4 && first <= col < first + keys.len() {
        Some(keys[col - first])
    } else {
        None
    }
}

/// The character of the key at a raw scan coordinate, without Shift.
pub open spec fn spec_key_char(raw_row: u8, raw_col: u8) -> Option<char> {
    layout_char(spec_remap(raw_row, raw_col).0, spec_remap(raw_row, raw_col).1)
}

/// Normal (unshifted) character of the key at a raw scan coordinate;
/// `None` for modifiers and unused positions.
pub fn key_to_char(raw_row: u8, raw_col: u8) -> (r: Option<char>)
    requires
        raw_key_in_range(raw_row, raw_col),
    ensures
        r == spec_key_char(raw_row, raw_col),
{
    let (row, col) = remap_key(raw_row, raw_col);
    match (row, col) {
        (0, 0) => Some('`'),
        (0, 1) => Some('1'),
        (0, 2) => Some('2'),
        (0, 3) => Some('3'),
        (0, 4) => Some('4'),
        (0, 5) => Some('5'),
        (0, 6) => Some('6'),
        (0, 7) => Some('7'),
        (0, 8) => Some('8'),
        (0, 9) => Some('9'),
        (0, 10) => Some('0'),
        (0, 11) => Some('-'),
        (0, 12) => Some('='),
        (1, 1) => Some('q'),
        (1, 2) => Some('w'),
        (1, 3) => Some('e'),
        (1, 4) => Some('r'),
        (1, 5) => Some('t'),
        (1, 6) => Some('y'),
        (1, 7) => Some('u'),
        (1, 8) => Some('i'),
        (1, 9) => Some('o'),
        (1, 10) => Some('p'),
        (1, 11) => Some('['),
        (1, 12) => Some(']'),
        (1, 13) => Some('\\'),
        (2, 2) => Some('a'),
        (2, 3) => Some('s'),
        (2, 4) => Some('d'),
        (2, 5) => Some('f'),
        (2, 6) => Some('g'),
        (2, 7) => Some('h'),
        (2, 8) => Some('j'),
        (2, 9) => Some('k'),
        (2, 10) => Some('l'),
        (2, 11) => Some(';'),
        (2, 12) => Some('\''),
        (3, 3) => Some('z'),
        (3, 4) => Some('x'),
        (3, 5) => Some('c'),
        (3, 6) => Some('v'),
        (3, 7) => Some('b'),
        (3, 8) => Some('n'),
        (3, 9) => Some('m'),
        (3, 10) => Some(','),
        (3, 11) => Some('.'),
        (3, 12) => Some('/'),
        (3, 13) => Some(' '),
        _ => None,
    }
}

/// Printable ASCII: space through tilde.
pub open spec fn is_printable_ascii(ch: char) -> bool {
    ' ' <= ch && ch <= '~'
}

/// Two scan coordinates of the eight-column matrix that reach the same
/// physical key are the same coordinate.
pub proof fn lemma_remap_injective(r1: u8, c1: u8, r2: u8, c2: u8)
    requires
        raw_key_in_range(r1, c1),
        raw_key_in_range(r2, c2),
        c1 < 8,
        c2 < 8,
        spec_remap(r1, c1) == spec_remap(r2, c2),
    ensures
        r1 == r2,
        c1 == c2,
{
}

/// Applying Shift to a character it already produced changes nothing.
pub proof fn lemma_shift_idempotent(ch: char)
    ensures
        spec_shift(spec_shift(ch)) == spec_shift(ch),
{
}

/// Every key of the layout types a printable ASCII character, with or
/// without Shift.
pub proof fn lemma_key_chars_printable(raw_row: u8, raw_col: u8)
    requires
        raw_key_in_range(raw_row, raw_col),
        spec_key_char(raw_row, raw_col) is Some,
    ensures
        is_printable_ascii(spec_key_char(raw_row, raw_col).unwrap()),
        is_printable_ascii(spec_shift(spec_key_char(raw_row, raw_col).unwrap())),
{
    let (row, col) = spec_remap(raw_row, raw_col);
    assert(0 <= row < 4);
    if row == 0 {
        assert(0 <= col < 13);
    } else if row == 1 {
        assert(1 <= col < 14);
    } else if row == 2 {
        assert(2 <= col < 13);
    } else {
        assert(3 <= col < 14);
    }
}

/// The inverse of the Shift layer on the characters of the layout.
spec fn unshift(ch: char) -> char {
    if 'A' <= ch && ch <= 'Z' {
        ((ch as u32) + 32) as char
    } else {
        match ch {
            '!' => '1',
            '@' => '2',
            '#' => '3',
            '$' => '4',
            '%' => '5',
            '^' => '6',
            '&' => '7',
            '*' => '8',
            '(' => '9',
            ')' => '0',
            '_' => '-',
            '+' => '=',
            '{' => '[',
            '}' => ']',
            '|' => '\\',
            ':' => ';',
            '"' => '\'',
            '<' => ',',
            '>' => '.',
            '?' => '/',
            '~' => '`',
            _ => ch,
        }
    }
}

proof fn lemma_unshift_layout(row: int, col: int)
    requires
        layout_char(row, col) is Some,
    ensures
        unshift(spec_shift(layout_char(row, col).unwrap())) == layout_char(row, col).unwrap(),
{
    assert(0 <= row < 4);
    if row == 0 {
        assert(0 <= col < 13);
    } else if row == 1 {
        assert(1 <= col < 14);
    } else if row == 2 {
        assert(2 <= col < 13);
    } else {
        assert(3 <= col < 14);
    }
}

/// With Shift held, no two keys of the layout type the same character.
pub proof fn lemma_shift_keeps_keys_apart(r1: u8, c1: u8, r2: u8, c2: u8)
    requires
        raw_key_in_range(r1, c1),
        raw_key_in_range(r2, c2),
        spec_key_char(r1, c1) is Some,
        spec_key_char(r2, c2) is Some,
        spec_shift(spec_key_char(r1, c1).unwrap()) == spec_shift(spec_key_char(r2, c2).unwrap()),
    ensures
        spec_key_char(r1, c1) == spec_key_char(r2, c2),
{
    lemma_unshift_layout(spec_remap(r1, c1).0, spec_remap(r1, c1).1);
    lemma_unshift_layout(spec_remap(r2, c2).0, spec_remap(r2, c2).1);
}

/// Shift changes every key of the layout except Space: each key has a
/// distinct shifted character of its own.
pub proof fn lemma_shift_changes_keys(raw_row: u8, raw_col: u8)
    requires
        raw_key_in_range(raw_row, raw_col),
        spec_key_char(raw_row, raw_col) is Some,
        spec_key_char(raw_row, raw_col) != Some(' '),
    ensures
        spec_shift(spec_key_char(raw_row, raw_col).unwrap()) != spec_key_char(raw_row, raw_col).unwrap(),
{
    let (row, col) = spec_remap(raw_row, raw_col);
    assert(0 <= row < 4);
    if row == 0 {
        assert(0 <= col < 13);
    } else if row == 1 {
        assert(1 <= col < 14);
    } else if row == 2 {
        assert(2 <= col < 13);
    } else {
        assert(3 <= col < 14);
    }
}

/// Shift turns the digit keys into the symbols printed above them on a US
/// keyboard, in the order of the number row.
pub proof fn lemma_shift_number_row(d: char)
    requires
        '0' <= d <= '9',
    ensures
        spec_shift(d) == seq![')', '!', '@', '#', '$', '%', '^', '&', '*', '('][(d as u32) - 48],
{
}

} // verus!
