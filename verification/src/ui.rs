//! Text for the screen: a fixed-size line buffer that cuts off what does
//! not fit, decimal numbers, and the lines of the access point list.

use vstd::prelude::*;
use vstd::string::{StrSliceExecFns, StringSliceAdditionalSpecFns};
use vstd::utf8::{decode_utf8, encode_scalar, encode_utf8, valid_utf8};
use crate::net::{copy_truncated, min_int, spec_copy_truncated};

verus! {

/// Capacity of a [`LineBuf`] in bytes.
pub const LINE_CAP: usize = 48;
/// Left edge of the access point list.
pub const LIST_LEFT: i32 = 10;
/// Baseline of the list's header line.
pub const LIST_TOP: i32 = 20;
/// Distance between the list's lines.
pub const LIST_LINE_H: i32 = 20;
/// Most access points listed below the header.
pub const LIST_MAX_ENTRIES: usize = 5;
/// Characters of an access point's name that are shown.
pub const SSID_SHOWN_CHARS: usize = 12;

/// One line of text built from pieces; what goes past [`LINE_CAP`] bytes
/// is dropped.
pub struct LineBuf {
    buf: [u8; 48],
    len: usize,
}

impl View for LineBuf {
    type V = Seq<u8>;

    /// The bytes written so far.
    closed spec fn view(&self) -> Seq<u8> {
        self.buf@.take(self.len as int)
    }
}

impl LineBuf {
    /// The written bytes lie within the buffer.
    pub closed spec fn wf(&self) -> bool {
        self.len <= LINE_CAP
    }

    /// A well-formed line holds at most [`LINE_CAP`] bytes.
    pub proof fn lemma_wf(&self)
        requires
            self.wf(),
        ensures
            self@.len() <= LINE_CAP,
    {
    }

    /// An empty line.
    pub fn new() -> (l: Self)
        ensures
            l.wf(),
            l@ == Seq::<u8>::empty(),
    {
        let l = LineBuf { buf: [0u8; 48], len: 0 };
        assert(l@ =~= Seq::<u8>::empty());
        l
    }

    /// Appends `bytes`, as far as they fit.
    pub fn write_bytes(&mut self, bytes: &[u8])
        requires
            old(self).wf(),
        ensures
            final(self).wf(),
            final(self)@ == (old(self)@ + bytes@).take(
                min_int((old(self)@ + bytes@).len() as int, LINE_CAP as int),
            ),
    {
        let ghost before = self@;
        let mut buf = self.buf;
        let n = copy_truncated(&mut buf, self.len, bytes);
        let len = self.len + n;
        proof {
            assert(before.len() <= LINE_CAP);
            let total = before + bytes@;
            assert(buf@.take(len as int) =~= total.take(min_int(total.len() as int, LINE_CAP as int)));
        }
        *self = LineBuf { buf, len };
    }

    /// Appends the UTF-8 bytes of `s`, as far as they fit; a character
    /// may be cut in the middle.
    pub fn write_str(&mut self, s: &str)
        requires
            old(self).wf(),
        ensures
            final(self).wf(),
            final(self)@ == (old(self)@ + s.spec_bytes()).take(
                min_int((old(self)@ + s.spec_bytes()).len() as int, LINE_CAP as int),
            ),
    {
        self.write_bytes(s.as_bytes());
    }

    /// The bytes written so far.
    pub fn as_bytes(&self) -> (b: &[u8])
        requires
            self.wf(),
        ensures
            b@ == self@,
    {
        let all = self.buf.as_slice();
        &all[0..self.len]
    }

    /// The line as text; empty when the cut-off left an incomplete
    /// character at the end.
    pub fn as_str(&self) -> (s: &str)
        requires
            self.wf(),
        ensures
            valid_utf8(self@) ==> s.spec_bytes() == self@,
            !valid_utf8(self@) ==> s@ == Seq::<char>::empty(),
    {
        match str_from_utf8(self.as_bytes()) {
            Some(s) => s,
            None => {
                let empty = "";
                proof {
                    reveal_strlit("");
                }
                empty
            },
        }
    }
}

/// Calls `core::str::from_utf8`, which accepts exactly the byte strings
/// that are valid UTF-8 and then returns them as text with the same bytes.
#[verifier::external_body]
fn str_from_utf8(bytes: &[u8]) -> (s: Option<&str>)
    ensures
        s is Some <==> valid_utf8(bytes@),
        s matches Some(t) ==> t.spec_bytes() == bytes@,
{
    core::str::from_utf8(bytes).ok()
}

/// The decimal digits of `n` in ASCII, most significant first.
pub open spec fn decimal(n: nat) -> Seq<u8>
    decreases n,
{
    if n < 10 {
        seq![(48 + n) as u8]
    } else {
        decimal(n / 10).push((48 + n % 10) as u8)
    }
}

/// The decimal text of `v` in ASCII, with a leading `-` when negative.
pub open spec fn signed_decimal(v: int) -> Seq<u8> {
    if v < 0 {
        seq![45u8] + decimal((-v) as nat)
    } else {
        decimal(v as nat)
    }
}

/// The decimal digits of `n` in ASCII.
pub fn decimal_digits(n: u64) -> (d: Vec<u8>)
    ensures
        d@ == decimal(n as nat),
    decreases n,
{
    if n < 10 {
        let mut d: Vec<u8> = Vec::new();
        d.push((48 + n) as u8);
        assert(d@ =~= decimal(n as nat));
        d
    } else {
        let mut d = decimal_digits(n / 10);
        d.push((48 + n % 10) as u8);
        d
    }
}

/// The decimal text of `v` in ASCII, with a leading `-` when negative.
pub fn signed_decimal_text(v: i64) -> (d: Vec<u8>)
    requires
        v > i64::MIN,
    ensures
        d@ == signed_decimal(v as int),
{
    if v < 0 {
        let mut d: Vec<u8> = Vec::new();
        d.push(45u8);
        let mut digits = decimal_digits((-v) as u64);
        let ghost dig = digits@;
        d.append(&mut digits);
        assert(d@ =~= seq![45u8] + dig);
        d
    } else {
        decimal_digits(v as u64)
    }
}

/// The UTF-8 encoding of one character.
pub fn encode_char(c: char) -> (bytes: Vec<u8>)
    ensures
        bytes@ == encode_scalar(c as u32),
{
    let v: u32 = c as u32;
    let mut out: Vec<u8> = Vec::new();
    if v <= 0x7F {
        out.push((v & 0x7F) as u8);
    } else if v <= 0x7FF {
        out.push(0xC0 | ((v >> 6u32) & 0x1F) as u8);
        out.push(0x80 | (v & 0x3F) as u8);
    } else if v <= 0xFFFF {
        out.push(0xE0 | ((v >> 12u32) & 0x0F) as u8);
        out.push(0x80 | ((v >> 6u32) & 0x3F) as u8);
        out.push(0x80 | (v & 0x3F) as u8);
    } else {
        out.push(0xF0 | ((v >> 18u32) & 0x7) as u8);
        out.push(0x80 | ((v >> 12u32) & 0x3F) as u8);
        out.push(0x80 | ((v >> 6u32) & 0x3F) as u8);
        out.push(0x80 | (v & 0x3F) as u8);
    }
    assert(out@ =~= encode_scalar(v));
    out
}

/// The UTF-8 bytes of the first `k` characters are those of the first
/// `k - 1` followed by those of character `k - 1`.
proof fn lemma_encode_utf8_push(chars: Seq<char>, c: char)
    ensures
        encode_utf8(chars.push(c)) == encode_utf8(chars) + encode_scalar(c as u32),
    decreases chars.len(),
{
    if chars.len() == 0 {
        assert(chars.push(c).drop_first() =~= Seq::<char>::empty());
        assert(encode_utf8(Seq::<char>::empty()) =~= Seq::<u8>::empty());
        assert(encode_utf8(chars) =~= Seq::<u8>::empty());
    } else {
        lemma_encode_utf8_push(chars.drop_first(), c);
        assert(chars.push(c).drop_first() =~= chars.drop_first().push(c));
    }
}

/// The UTF-8 bytes of the first `n` characters of `s`.
pub fn leading_chars_utf8(s: &str, n: usize) -> (bytes: Vec<u8>)
    ensures
        bytes@ == encode_utf8(s@.take(min_int(n as int, s@.len() as int))),
{
    let len = s.unicode_len();
    let m = if n < len {
        n
    } else {
        len
    };
    let mut out: Vec<u8> = Vec::new();
    let mut i: usize = 0;
    assert(s@.take(0) =~= Seq::<char>::empty());
    assert(encode_utf8(Seq::<char>::empty()) =~= Seq::<u8>::empty());
    while i < m
        invariant
            m <= s@.len(),
            i <= m,
            out@ == encode_utf8(s@.take(i as int)),
        decreases m - i,
    {
        let c = s.get_char(i);
        let mut enc = encode_char(c);
        proof {
            lemma_encode_utf8_push(s@.take(i as int), c);
            assert(s@.take(i + 1) =~= s@.take(i as int).push(c));
        }
        out.append(&mut enc);
        i += 1;
    }
    out
}

/// A nearby access point, as the list shows it.
pub struct AccessPoint {
    /// Network name.
    pub ssid: String,
    /// Received signal strength in dBm.
    pub signal_strength: i8,
    /// Radio channel.
    pub channel: u8,
}

/// The list's header line for `count` access points: `Wi-Fi APs: <count>`.
pub open spec fn ap_header_text(count: nat) -> Seq<u8> {
    seq![87u8, 105u8, 45u8, 70u8, 105u8, 32u8, 65u8, 80u8, 115u8, 58u8, 32u8] + decimal(count)
}

/// The list line of an access point: the first twelve characters of its
/// name, the signal strength and `ch` with the channel.
pub open spec fn ap_entry_text(ssid: Seq<char>, rssi: i8, channel: u8) -> Seq<u8> {
    encode_utf8(ssid.take(min_int(SSID_SHOWN_CHARS as int, ssid.len() as int))) + seq![32u8]
        + signed_decimal(rssi as int) + seq![32u8, 99u8, 104u8] + decimal(channel as nat)
}

/// `text` cut off after [`LINE_CAP`] bytes, as a [`LineBuf`] keeps it.
pub open spec fn fitted(text: Seq<u8>) -> Seq<u8> {
    text.take(min_int(text.len() as int, LINE_CAP as int))
}

proof fn lemma_fitted_append(a: Seq<u8>, b: Seq<u8>)
    ensures
        fitted(fitted(a) + b) == fitted(a + b),
{
    assert(fitted(fitted(a) + b) =~= fitted(a + b));
}

/// The header line of the access point list.
pub fn ap_header_line(count: usize) -> (line: LineBuf)
    ensures
        line.wf(),
        line@ == fitted(ap_header_text(count as nat)),
{
    let mut line = LineBuf::new();
    let head: [u8; 11] = [87u8, 105u8, 45u8, 70u8, 105u8, 32u8, 65u8, 80u8, 115u8, 58u8, 32u8];
    line.write_bytes(head.as_slice());
    let digits = decimal_digits(count as u64);
    line.write_bytes(digits.as_slice());
    proof {
        lemma_fitted_append(head@, digits@);
        assert(Seq::<u8>::empty() + head@ =~= head@);
        assert(head@ + digits@ =~= ap_header_text(count as nat));
    }
    line
}

/// The list line of one access point.
pub fn ap_entry_line(ap: &AccessPoint) -> (line: LineBuf)
    ensures
        line.wf(),
        line@ == fitted(ap_entry_text(ap.ssid@, ap.signal_strength, ap.channel)),
{
    let mut line = LineBuf::new();
    let name = leading_chars_utf8(ap.ssid.as_str(), SSID_SHOWN_CHARS);
    line.write_bytes(name.as_slice());
    let space: [u8; 1] = [32u8];
    line.write_bytes(space.as_slice());
    let rssi = signed_decimal_text(ap.signal_strength as i64);
    line.write_bytes(rssi.as_slice());
    let ch: [u8; 3] = [32u8, 99u8, 104u8];
    line.write_bytes(ch.as_slice());
    let chan = decimal_digits(ap.channel as u64);
    line.write_bytes(chan.as_slice());
    proof {
        let p1 = name@;
        let p2 = p1 + space@;
        let p3 = p2 + rssi@;
        let p4 = p3 + ch@;
        let p5 = p4 + chan@;
        assert(Seq::<u8>::empty() + p1 =~= p1);
        lemma_fitted_append(p1, space@);
        lemma_fitted_append(p2, rssi@);
        lemma_fitted_append(p3, ch@);
        lemma_fitted_append(p4, chan@);
        assert(space@ =~= seq![32u8]);
        assert(ch@ =~= seq![32u8, 99u8, 104u8]);
        assert(p5 =~= ap_entry_text(ap.ssid@, ap.signal_strength, ap.channel));
    }
    line
}

/// A line of text at a position on the screen.
pub struct PlacedLine {
    /// Left edge.
    pub x: i32,
    /// Baseline.
    pub y: i32,
    /// The text.
    pub text: LineBuf,
}

/// The lines of the access point list: the header with the number of
/// access points, then one line for each of the first five, each line
/// [`LIST_LINE_H`] below the one before.
pub fn ap_list_lines(aps: &[AccessPoint]) -> (lines: Vec<PlacedLine>)
    ensures
        lines@.len() == 1 + min_int(aps@.len() as int, LIST_MAX_ENTRIES as int),
        forall|i: int| 0 <= i < lines@.len() ==> (#[trigger] lines@[i]).x == LIST_LEFT && lines@[i].y
            == LIST_TOP + i * LIST_LINE_H && lines@[i].text.wf(),
        lines@[0].text@ == fitted(ap_header_text(aps@.len())),
        forall|i: int|
            1 <= i < lines@.len() ==> (#[trigger] lines@[i]).text@ == fitted(
                ap_entry_text(aps@[i - 1].ssid@, aps@[i - 1].signal_strength, aps@[i - 1].channel),
            ),
{
    let mut lines: Vec<PlacedLine> = Vec::new();
    lines.push(PlacedLine { x: LIST_LEFT, y: LIST_TOP, text: ap_header_line(aps.len()) });
    let n = if aps.len() < LIST_MAX_ENTRIES {
        aps.len()
    } else {
        LIST_MAX_ENTRIES
    };
    let mut i: usize = 0;
    while i < n
        invariant
            n == min_int(aps@.len() as int, LIST_MAX_ENTRIES as int),
            i <= n,
            lines@.len() == 1 + i,
            forall|k: int| 0 <= k < lines@.len() ==> (#[trigger] lines@[k]).x == LIST_LEFT && lines@[k].y
                == LIST_TOP + k * LIST_LINE_H && lines@[k].text.wf(),
            lines@[0].text@ == fitted(ap_header_text(aps@.len())),
            forall|k: int|
                1 <= k < lines@.len() ==> (#[trigger] lines@[k]).text@ == fitted(
                    ap_entry_text(aps@[k - 1].ssid@, aps@[k - 1].signal_strength, aps@[k - 1].channel),
                ),
        decreases n - i,
    {
        let y = LIST_TOP + (i as i32 + 1) * LIST_LINE_H;
        let text = ap_entry_line(&aps[i]);
        lines.push(PlacedLine { x: LIST_LEFT, y, text });
        i += 1;
    }
    lines
}

/// Unicode white space (the `White_Space` property), which trimming removes.
pub open spec fn is_white_space(c: char) -> bool {
    ||| ('\u{9}' <= c && c <= '\u{d}')
    ||| c == ' '
    ||| c == '\u{85}'
    ||| c == '\u{a0}'
    ||| c == '\u{1680}'
    ||| ('\u{2000}' <= c && c <= '\u{200a}')
    ||| c == '\u{2028}'
    ||| c == '\u{2029}'
    ||| c == '\u{202f}'
    ||| c == '\u{205f}'
    ||| c == '\u{3000}'
}

/// Whether `c` is Unicode white space.
pub fn white_space(c: char) -> (r: bool)
    ensures
        r == is_white_space(c),
{
    ('\u{9}' <= c && c <= '\u{d}') || c == ' ' || c == '\u{85}' || c == '\u{a0}' || c == '\u{1680}'
        || ('\u{2000}' <= c && c <= '\u{200a}') || c == '\u{2028}' || c == '\u{2029}' || c
        == '\u{202f}' || c == '\u{205f}' || c == '\u{3000}'
}

/// Index of the first character at or after `i` that is not white space,
/// or the length of `s`.
pub open spec fn skip_white_from(s: Seq<char>, i: int) -> int
    decreases s.len() - i,
{
    if i < 0 || i >= s.len() || !is_white_space(s[i]) {
        i
    } else {
        skip_white_from(s, i + 1)
    }
}

/// The end of `s` before `j` with trailing white space removed, not going
/// below `lo`.
pub open spec fn trim_end_from(s: Seq<char>, j: int, lo: int) -> int
    decreases j,
{
    if j <= lo || j <= 0 || j > s.len() || !is_white_space(s[j - 1]) {
        j
    } else {
        trim_end_from(s, j - 1, lo)
    }
}

/// `s` without leading and trailing white space.
pub open spec fn trimmed(s: Seq<char>) -> Seq<char> {
    let start = skip_white_from(s, 0);
    s.subrange(start, trim_end_from(s, s.len() as int, start))
}

/// `text` without leading and trailing white space.
pub fn trim<'a>(text: &'a str) -> (t: &'a str)
    ensures
        t@ == trimmed(text@),
{
    let n = text.unicode_len();
    let mut i: usize = 0;
    while i < n && white_space(text.get_char(i))
        invariant
            n == text@.len(),
            i <= n,
            skip_white_from(text@, 0) == skip_white_from(text@, i as int),
        decreases n - i,
    {
        i += 1;
    }
    let mut j: usize = n;
    while j > i && white_space(text.get_char(j - 1))
        invariant
            n == text@.len(),
            i <= j <= n,
            i == skip_white_from(text@, 0),
            trim_end_from(text@, n as int, i as int) == trim_end_from(text@, j as int, i as int),
        decreases j,
    {
        j -= 1;
    }
    text.substring_char(i, j)
}

/// The start-up greeting: the server's reply as text without surrounding
/// white space, or `Bad response` when the reply is not valid UTF-8.
pub fn greeting_text(body: &[u8]) -> (text: &str)
    ensures
        valid_utf8(body@) ==> text@ == trimmed(decode_utf8(body@)),
        !valid_utf8(body@) ==> text@ == "Bad response"@,
{
    match str_from_utf8(body) {
        Some(t) => {
            proof {
                vstd::utf8::encode_utf8_decode_utf8(t@);
            }
            trim(t)
        },
        None => "Bad response",
    }
}

} // verus!
