//! HTTP/1.1 framing for the terminal's requests: building a GET request
//! into a fixed buffer, copying received bytes with truncation, and
//! locating the body after the header terminator `\r\n\r\n`.

use vstd::prelude::*;
use vstd::string::StringSliceAdditionalSpecFns;
use crate::ui::{decimal, decimal_digits};

verus! {

/// Why an HTTP exchange failed.
#[derive(Debug, Clone, Copy, PartialEq, Eq, Structural)]
pub enum HttpError {
    /// The TCP connection could not be opened.
    Connect,
    /// Sending the request failed.
    Send,
    /// Receiving the response failed.
    Receive,
}

/// The smaller of two integers.
pub open spec fn min_int(a: int, b: int) -> int {
    if a <= b {
        a
    } else {
        b
    }
}

/// `dst` after `src` has been copied in at offset `at`, keeping only what
/// fits before the end of `dst`.
pub open spec fn spec_copy_truncated(dst: Seq<u8>, at: int, src: Seq<u8>) -> Seq<u8> {
    let n = min_int(src.len() as int, dst.len() - at);
    dst.take(at) + src.take(n) + dst.skip(at + n)
}

/// Copies as much of `src` as fits into `dst` from offset `at` on and
/// returns the number of bytes copied; the rest of `src` is dropped.
pub fn copy_truncated(dst: &mut [u8], at: usize, src: &[u8]) -> (n: usize)
    requires
        at <= old(dst)@.len(),
    ensures
        n == min_int(src@.len() as int, old(dst)@.len() - at),
        at + n <= old(dst).len(),
        final(dst)@.len() == old(dst)@.len(),
        final(dst)@ == spec_copy_truncated(old(dst)@, at as int, src@),
{
    let room = dst.len() - at;
    let n = if src.len() < room {
        src.len()
    } else {
        room
    };
    let mut k: usize = 0;
    while k < n
        invariant
            n <= src@.len(),
            at + n <= dst.len(),
            dst@.len() == old(dst)@.len(),
            k <= n,
            dst@ == old(dst)@.take(at as int) + src@.take(k as int) + old(dst)@.skip(at + k),
        decreases n - k,
    {
        dst[at + k] = src[k];
        k += 1;
        assert(dst@ =~= old(dst)@.take(at as int) + src@.take(k as int) + old(dst)@.skip(at + k));
    }
    n
}

/// The four-byte header terminator `\r\n\r\n` starts at `i` in `s`.
pub open spec fn sep_at(s: Seq<u8>, i: int) -> bool {
    &&& 0 <= i
    &&& i + 4 <= s.len()
    &&& s[i] == 13u8
    &&& s[i + 1] == 10u8
    &&& s[i + 2] == 13u8
    &&& s[i + 3] == 10u8
}

/// The first position at or after `i` where the header terminator starts.
pub open spec fn first_sep_from(s: Seq<u8>, i: int) -> Option<int>
    decreases s.len() - i,
{
    if i < 0 || i + 4 > s.len() {
        None
    } else if sep_at(s, i) {
        Some(i)
    } else {
        first_sep_from(s, i + 1)
    }
}

/// Where the body of a response starts: just after the first header
/// terminator, or at 0 when there is none.
pub open spec fn body_offset(s: Seq<u8>) -> int {
    match first_sep_from(s, 0) {
        Some(i) => i + 4,
        None => 0,
    }
}

/// The search for a terminator from `i` finds the first one at or after `i`.
pub proof fn lemma_first_sep_from(s: Seq<u8>, i: int)
    requires
        0 <= i,
    ensures
        first_sep_from(s, i) matches Some(j) ==> i <= j && sep_at(s, j) && forall|k: int|
            i <= k < j ==> !sep_at(s, k),
        first_sep_from(s, i) is None ==> forall|k: int| i <= k ==> !sep_at(s, k),
    decreases s.len() - i,
{
    if i + 4 <= s.len() && !sep_at(s, i) {
        lemma_first_sep_from(s, i + 1);
    }
}

/// The body of a whole HTTP response: everything after the first
/// `\r\n\r\n`, or the whole response when there is no terminator.
pub fn extract_body(response: &[u8]) -> (body: &[u8])
    ensures
        body@ == response@.skip(body_offset(response@)),
{
    let mut body_start: usize = 0;
    let len = response.len();
    let end = len.saturating_sub(3);
    let mut i: usize = 0;
    while i < end
        invariant_except_break
            end == (if len >= 3 { len - 3 } else { 0 }),
            len == response@.len(),
            i <= end,
            body_start == 0,
            first_sep_from(response@, 0) == first_sep_from(response@, i as int),
        ensures
            len == response@.len(),
            body_start == body_offset(response@),
            body_start <= len,
        decreases end - i,
    {
        if response[i] == 13u8 && response[i + 1] == 10u8 && response[i + 2] == 13u8 && response[i
            + 3] == 10u8 {
            body_start = i + 4;
            break;
        }
        i += 1;
    }
    &response[body_start..len]
}

/// The bytes `"GET "`.
pub open spec fn get_method() -> Seq<u8> {
    seq![71u8, 69u8, 84u8, 32u8]
}

/// The bytes `" HTTP/1.1\r\nHost: "`.
pub open spec fn version_and_host_field() -> Seq<u8> {
    seq![
        32u8, 72u8, 84u8, 84u8, 80u8, 47u8, 49u8, 46u8, 49u8, 13u8, 10u8, 72u8, 111u8, 115u8, 116u8,
        58u8, 32u8,
    ]
}

/// The bytes `"\r\nConnection: close\r\n\r\n"`.
pub open spec fn connection_close_and_end() -> Seq<u8> {
    seq![
        13u8, 10u8, 67u8, 111u8, 110u8, 110u8, 101u8, 99u8, 116u8, 105u8, 111u8, 110u8, 58u8, 32u8, 99u8,
        108u8, 111u8, 115u8, 101u8, 13u8, 10u8, 13u8, 10u8,
    ]
}

/// The complete GET request for `path` on `host`, asking the server to
/// close the connection after the response.
pub open spec fn get_request(path: Seq<u8>, host: Seq<u8>) -> Seq<u8> {
    get_method() + path + version_and_host_field() + host + connection_close_and_end()
}

/// Copying `a` then `b` with truncation into a buffer of capacity `cap`
/// writes the same as copying `a + b` at once.
proof fn lemma_copy_concat(buf: Seq<u8>, orig: Seq<u8>, a: Seq<u8>, b: Seq<u8>, len: int)
    requires
        buf.len() == orig.len(),
        len == min_int(a.len() as int, orig.len() as int),
        buf == spec_copy_truncated(orig, 0, a),
    ensures
        spec_copy_truncated(buf, len, b) == spec_copy_truncated(orig, 0, a + b),
        len + min_int(b.len() as int, buf.len() - len) == min_int(
            (a + b).len() as int,
            orig.len() as int,
        ),
{
    let n = min_int(b.len() as int, buf.len() - len);
    assert(spec_copy_truncated(buf, len, b) =~= spec_copy_truncated(orig, 0, a + b));
}

/// Writes a GET request for `path` with the `Host` header `host` and
/// `Connection: close` into `buf` and returns the part of `buf` written.
/// A request longer than `buf` is cut off at the end of `buf`.
pub fn write_get_request<'a>(buf: &'a mut [u8], path: &str, host: &str) -> (req: &'a [u8])
    ensures
        req@ == get_request(path.spec_bytes(), host.spec_bytes()).take(
            min_int(get_request(path.spec_bytes(), host.spec_bytes()).len() as int, old(buf)@.len() as int),
        ),
        final(buf)@ == spec_copy_truncated(
            old(buf)@,
            0,
            get_request(path.spec_bytes(), host.spec_bytes()),
        ),
{
    let method: [u8; 4] = [71u8, 69u8, 84u8, 32u8];
    let version: [u8; 17] = [
        32u8, 72u8, 84u8, 84u8, 80u8, 47u8, 49u8, 46u8, 49u8, 13u8, 10u8, 72u8, 111u8, 115u8, 116u8,
        58u8, 32u8,
    ];
    let close: [u8; 23] = [
        13u8, 10u8, 67u8, 111u8, 110u8, 110u8, 101u8, 99u8, 116u8, 105u8, 111u8, 110u8, 58u8, 32u8, 99u8,
        108u8, 111u8, 115u8, 101u8, 13u8, 10u8, 13u8, 10u8,
    ];
    assert(method@ =~= get_method());
    assert(version@ =~= version_and_host_field());
    assert(close@ =~= connection_close_and_end());
    let path_bytes = path.as_bytes();
    let host_bytes = host.as_bytes();
    let ghost orig = buf@;
    let ghost p1 = get_method();
    let ghost p2 = p1 + path_bytes@;
    let ghost p3 = p2 + version_and_host_field();
    let ghost p4 = p3 + host_bytes@;
    let ghost p5 = p4 + connection_close_and_end();

    let mut len: usize = 0;
    assert(spec_copy_truncated(orig, 0, Seq::<u8>::empty()) =~= orig);
    assert(Seq::<u8>::empty() + p1 =~= p1);
    proof {
        lemma_copy_concat(orig, orig, Seq::empty(), p1, 0);
    }
    len = len + copy_truncated(buf, len, method.as_slice());
    proof {
        lemma_copy_concat(buf@, orig, p1, path_bytes@, len as int);
    }
    len = len + copy_truncated(buf, len, path_bytes);
    proof {
        lemma_copy_concat(buf@, orig, p2, version_and_host_field(), len as int);
    }
    len = len + copy_truncated(buf, len, version.as_slice());
    proof {
        lemma_copy_concat(buf@, orig, p3, host_bytes@, len as int);
    }
    len = len + copy_truncated(buf, len, host_bytes);
    proof {
        lemma_copy_concat(buf@, orig, p4, connection_close_and_end(), len as int);
    }
    len = len + copy_truncated(buf, len, close.as_slice());
    assert(p5 == get_request(path.spec_bytes(), host.spec_bytes()));
    let req = &buf[0..len];
    assert(req@ =~= p5.take(len as int));
    req
}

/// A search from `i` finds `j` when the terminator starts at `j` and
/// nowhere in between.
proof fn lemma_first_sep_is(s: Seq<u8>, i: int, j: int)
    requires
        0 <= i <= j,
        sep_at(s, j),
        forall|k: int| i <= k < j ==> !sep_at(s, k),
    ensures
        first_sep_from(s, i) == Some(j),
    decreases j - i,
{
    if i < j {
        lemma_first_sep_is(s, i + 1, j);
    }
}

/// A search from `i` finds nothing when no terminator starts at or after `i`.
proof fn lemma_first_sep_none(s: Seq<u8>, i: int)
    requires
        0 <= i,
        forall|k: int| i <= k ==> !sep_at(s, k),
    ensures
        first_sep_from(s, i) is None,
    decreases s.len() - i,
{
    if i + 4 <= s.len() {
        lemma_first_sep_none(s, i + 1);
    }
}

/// Appending a byte keeps an earlier terminator first, and otherwise
/// creates one exactly when the new byte completes it.
proof fn lemma_first_sep_push(s: Seq<u8>, b: u8)
    ensures
        first_sep_from(s, 0) is Some ==> first_sep_from(s.push(b), 0) == first_sep_from(s, 0),
        first_sep_from(s, 0) is None ==> first_sep_from(s.push(b), 0) == (if sep_at(
            s.push(b),
            s.len() - 3,
        ) {
            Some(s.len() - 3)
        } else {
            None
        }),
{
    let t = s.push(b);
    lemma_first_sep_from(s, 0);
    assert forall|k: int| k + 4 <= s.len() implies sep_at(t, k) == sep_at(s, k) by {}
    match first_sep_from(s, 0) {
        Some(j) => {
            lemma_first_sep_is(t, 0, j);
        },
        None => {
            if sep_at(t, s.len() - 3) {
                lemma_first_sep_is(t, 0, s.len() - 3);
            } else {
                assert forall|k: int| 0 <= k implies !sep_at(t, k) by {
                    if k + 4 <= s.len() {
                        assert(!sep_at(s, k));
                    }
                }
                lemma_first_sep_none(t, 0);
            }
        },
    }
}

/// How much of the terminator `\r\n\r\n` the end of `s` has matched so
/// far: 4 when `s` ends with all of it, else the length of the longest of
/// `\r\n\r`, `\r\n`, `\r` that `s` ends with, else 0.
pub open spec fn header_match(s: Seq<u8>) -> int {
    let n = s.len() as int;
    if n >= 4 && sep_at(s, n - 4) {
        4
    } else if n >= 3 && s[n - 3] == 13u8 && s[n - 2] == 10u8 && s[n - 1] == 13u8 {
        3
    } else if n >= 2 && s[n - 2] == 13u8 && s[n - 1] == 10u8 {
        2
    } else if n >= 1 && s[n - 1] == 13u8 {
        1
    } else {
        0
    }
}

/// One step of the terminator matcher: the state after byte `b` when
/// `m` bytes of `\r\n\r\n` were matched.
pub open spec fn spec_header_step(m: u8, b: u8) -> u8 {
    if m == 0 && b == 13 {
        1
    } else if m == 1 && b == 10 {
        2
    } else if m == 2 && b == 13 {
        3
    } else if m == 3 && b == 10 {
        4
    } else if b == 13 {
        1
    } else {
        0
    }
}

/// Advances the terminator matcher by one byte.
pub fn header_step(m: u8, b: u8) -> (r: u8)
    ensures
        r == spec_header_step(m, b),
{
    match (m, b) {
        (0, 13) => 1,
        (1, 10) => 2,
        (2, 13) => 3,
        (3, 10) => 4,
        (_, 13) => 1,
        _ => 0,
    }
}

/// The matcher tracks [`header_match`] byte by byte until the terminator
/// is complete.
pub proof fn lemma_header_step(s: Seq<u8>, b: u8)
    requires
        header_match(s) < 4,
    ensures
        spec_header_step(header_match(s) as u8, b) == header_match(s.push(b)),
{
}

/// The first `cap` bytes (at most) of the body of a stream whose header
/// has been completely received; empty while the terminator is missing.
pub open spec fn received_body(stream: Seq<u8>, cap: int) -> Seq<u8> {
    match first_sep_from(stream, 0) {
        Some(i) => stream.skip(i + 4).take(min_int(cap, stream.len() - (i + 4))),
        None => Seq::empty(),
    }
}

/// Receives a response that arrives in chunks and keeps the first bytes of
/// its body, up to the size of the caller's buffer.
pub struct BodyReceiver {
    matched: u8,
    header_done: bool,
    len: usize,
    stream: Ghost<Seq<u8>>,
}

impl BodyReceiver {
    /// All bytes fed so far.
    pub closed spec fn stream(&self) -> Seq<u8> {
        self.stream@
    }

    /// Number of body bytes stored so far.
    pub closed spec fn stored(&self) -> int {
        self.len as int
    }

    /// The receiver is consistent with the body buffer `dl`: the matcher
    /// state describes the stream while the header is incomplete, and the
    /// stored bytes are the stream's body once it is complete.
    pub closed spec fn wf(&self, dl: Seq<u8>) -> bool {
        &&& !self.header_done ==> {
            &&& first_sep_from(self.stream@, 0) is None
            &&& self.matched as int == header_match(self.stream@)
            &&& self.matched < 4
            &&& self.len == 0
        }
        &&& self.header_done ==> first_sep_from(self.stream@, 0) is Some
        &&& self.len as int == received_body(self.stream@, dl.len() as int).len()
        &&& dl.take(self.len as int) == received_body(self.stream@, dl.len() as int)
        &&& self.len <= dl.len()
    }

    /// A consistent receiver has stored exactly the kept body bytes, and no
    /// more than the buffer holds.
    pub proof fn lemma_wf(&self, dl: Seq<u8>)
        requires
            self.wf(dl),
        ensures
            self.stored() == received_body(self.stream(), dl.len() as int).len(),
            self.stored() <= dl.len(),
            dl.take(self.stored()) == received_body(self.stream(), dl.len() as int),
            self.header_complete() == (first_sep_from(self.stream(), 0) is Some),
    {
    }

    /// Whether the header terminator has been received.
    pub closed spec fn header_complete(&self) -> bool {
        self.header_done
    }

    /// A receiver that has seen nothing yet.
    pub fn new() -> (r: Self)
        ensures
            r.stream() == Seq::<u8>::empty(),
            r.stored() == 0,
            !r.header_complete(),
            forall|cap: int| r.stored() == #[trigger] received_body(r.stream(), cap).len(),
            forall|dl: Seq<u8>| r.wf(dl),
    {
        let r = BodyReceiver {
            matched: 0,
            header_done: false,
            len: 0,
            stream: Ghost(Seq::empty()),
        };
        assert forall|dl: Seq<u8>| r.wf(dl) by {
            assert(dl.take(0) =~= Seq::<u8>::empty());
        }
        r
    }

    /// Number of body bytes stored in the buffer.
    pub fn body_len(&self) -> (n: usize)
        ensures
            n == self.stored(),
    {
        self.len
    }

    /// Whether the header terminator has been received.
    pub fn header_received(&self) -> (done: bool)
        ensures
            done == self.header_complete(),
    {
        self.header_done
    }

    /// Feeds the next chunk of the response. Header bytes are matched and
    /// dropped; body bytes are stored in `dl` after those stored before,
    /// as far as `dl` has room. Returns `false` once the header is complete
    /// and `dl` is full, when reading further is pointless.
    pub fn feed(&mut self, dl: &mut [u8], chunk: &[u8]) -> (more: bool)
        requires
            old(self).wf(old(dl)@),
        ensures
            final(self).wf(final(dl)@),
            final(dl)@.len() == old(dl)@.len(),
            final(self).stream() == old(self).stream() + chunk@,
            final(dl)@.take(final(self).stored()) == received_body(
                final(self).stream(),
                old(dl)@.len() as int,
            ),
            final(dl)@.skip(final(self).stored()) == old(dl)@.skip(final(self).stored()),
            final(self).header_complete() == (first_sep_from(final(self).stream(), 0) is Some),
            final(self).stored() == received_body(final(self).stream(), old(dl)@.len() as int).len(),
            final(self).stored() <= final(dl)@.len(),
            more == !(final(self).header_complete() && final(self).stored() == old(dl)@.len()),
    {
        let ghost cap = dl@.len() as int;
        let ghost old_stream = self.stream@;
        let mut start: usize = 0;
        if !self.header_done {
            let mut i: usize = 0;
            while i < chunk.len()
                invariant_except_break
                    !self.header_done,
                    i <= chunk@.len(),
                    self.stream@ == old_stream + chunk@.take(i as int),
                    first_sep_from(self.stream@, 0) is None,
                    self.matched as int == header_match(self.stream@),
                    self.matched < 4,
                    self.len == 0,
                    start == 0,
                ensures
                    self.len == 0,
                    start <= chunk@.len(),
                    self.header_done ==> {
                        &&& self.stream@ == old_stream + chunk@.take(start as int)
                        &&& first_sep_from(self.stream@, 0) == Some(self.stream@.len() - 4)
                    },
                    !self.header_done ==> {
                        &&& i == chunk@.len()
                        &&& self.stream@ == old_stream + chunk@.take(i as int)
                        &&& first_sep_from(self.stream@, 0) is None
                        &&& self.matched as int == header_match(self.stream@)
                        &&& self.matched < 4
                    },
                decreases chunk@.len() - i,
            {
                let b = chunk[i];
                proof {
                    lemma_header_step(self.stream@, b);
                    lemma_first_sep_push(self.stream@, b);
                    assert(chunk@.take(i + 1) =~= chunk@.take(i as int).push(b));
                }
                self.matched = header_step(self.matched, b);
                self.stream = Ghost(self.stream@.push(b));
                i += 1;
                if self.matched == 4 {
                    self.header_done = true;
                    start = i;
                    break;
                }
            }
            if !self.header_done {
                assert(chunk@.take(chunk@.len() as int) =~= chunk@);
                return true;
            }
        }
        let ghost head = self.stream@;
        let rest = &chunk[start..chunk.len()];
        let n = copy_truncated(dl, self.len, rest);
        self.len = self.len + n;
        self.stream = Ghost(head + rest@);
        proof {
            assert(chunk@.take(start as int) + rest@ =~= chunk@);
            assert(self.stream@ =~= old_stream + chunk@);
            assert forall|k: int| k + 4 <= head.len() implies sep_at(self.stream@, k) == sep_at(
                head,
                k,
            ) by {}
            lemma_first_sep_from(head, 0);
            let j = first_sep_from(head, 0)->0;
            assert forall|k: int| 0 <= k < j implies !sep_at(self.stream@, k) by {
                assert(!sep_at(head, k));
            }
            lemma_first_sep_is(self.stream@, 0, j);
            assert(dl@.take(self.len as int) =~= received_body(self.stream@, cap));
        }
        !(self.len == dl.len())
    }
}

/// The body kept by a [`BodyReceiver`] is the start of the body that
/// [`extract_body`] cuts out of the whole response, however the response
/// was split into chunks.
pub proof fn lemma_received_body_is_extracted_body(stream: Seq<u8>, cap: int)
    requires
        first_sep_from(stream, 0) is Some,
        0 <= cap,
    ensures
        received_body(stream, cap) == stream.skip(body_offset(stream)).take(
            min_int(cap, stream.len() - body_offset(stream)),
        ),
        received_body(stream, cap).len() == min_int(cap, stream.len() - body_offset(stream)),
{
    lemma_first_sep_from(stream, 0);
}

/// The bytes `"POST "`.
pub open spec fn post_method() -> Seq<u8> {
    seq![80u8, 79u8, 83u8, 84u8, 32u8]
}

/// The bytes `"\r\nContent-Length: "`.
pub open spec fn content_length_field() -> Seq<u8> {
    seq![
        13u8, 10u8, 67u8, 111u8, 110u8, 116u8, 101u8, 110u8, 116u8, 45u8, 76u8, 101u8, 110u8,
        103u8, 116u8, 104u8, 58u8, 32u8,
    ]
}

/// The header of a POST request for `path` on `host` whose body has
/// `content_length` bytes, asking the server to close the connection after
/// the response.
pub open spec fn post_request_head_bytes(path: Seq<u8>, host: Seq<u8>, content_length: nat) -> Seq<
    u8,
> {
    post_method() + path + version_and_host_field() + host + content_length_field() + decimal(
        content_length,
    ) + connection_close_and_end()
}

/// Appends `bytes` to `out`.
fn push_bytes(out: &mut Vec<u8>, bytes: &[u8])
    ensures
        final(out)@ == old(out)@ + bytes@,
{
    let n = bytes.len();
    let mut i: usize = 0;
    while i < n
        invariant
            n == bytes@.len(),
            i <= n,
            out@ == old(out)@ + bytes@.take(i as int),
        decreases n - i,
    {
        out.push(bytes[i]);
        i += 1;
        assert(out@ =~= old(out)@ + bytes@.take(i as int));
    }
    assert(bytes@.take(n as int) =~= bytes@);
}

/// The header of a POST request for `path` on `host` with a body of
/// `content_length` bytes; the body follows it on the connection.
pub fn post_request_head(path: &str, host: &str, content_length: usize) -> (head: Vec<u8>)
    ensures
        head@ == post_request_head_bytes(path.spec_bytes(), host.spec_bytes(), content_length as nat),
{
    let method: [u8; 5] = [80u8, 79u8, 83u8, 84u8, 32u8];
    let version: [u8; 17] = [
        32u8, 72u8, 84u8, 84u8, 80u8, 47u8, 49u8, 46u8, 49u8, 13u8, 10u8, 72u8, 111u8, 115u8, 116u8,
        58u8, 32u8,
    ];
    let length_field: [u8; 18] = [
        13u8, 10u8, 67u8, 111u8, 110u8, 116u8, 101u8, 110u8, 116u8, 45u8, 76u8, 101u8, 110u8,
        103u8, 116u8, 104u8, 58u8, 32u8,
    ];
    let close: [u8; 23] = [
        13u8, 10u8, 67u8, 111u8, 110u8, 110u8, 101u8, 99u8, 116u8, 105u8, 111u8, 110u8, 58u8, 32u8,
        99u8, 108u8, 111u8, 115u8, 101u8, 13u8, 10u8, 13u8, 10u8,
    ];
    assert(method@ =~= post_method());
    assert(version@ =~= version_and_host_field());
    assert(length_field@ =~= content_length_field());
    assert(close@ =~= connection_close_and_end());
    let digits = decimal_digits(content_length as u64);
    let mut head: Vec<u8> = Vec::new();
    push_bytes(&mut head, method.as_slice());
    push_bytes(&mut head, path.as_bytes());
    push_bytes(&mut head, version.as_slice());
    push_bytes(&mut head, host.as_bytes());
    push_bytes(&mut head, length_field.as_slice());
    push_bytes(&mut head, digits.as_slice());
    push_bytes(&mut head, close.as_slice());
    assert(head@ =~= post_request_head_bytes(
        path.spec_bytes(),
        host.spec_bytes(),
        content_length as nat,
    ));
    head
}

} // verus!
