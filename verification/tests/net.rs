use cardputer_rust::exchange::{HttpGet, HttpGetStep};
use cardputer_rust::net::{post_request_head, copy_truncated, extract_body, write_get_request, BodyReceiver, HttpError};

#[test]
fn get_request_is_built() {
    let mut buf = [0u8; 128];
    let req = write_get_request(&mut buf, "/hello.txt", "192.168.0.10:18080");
    assert_eq!(
        req,
        b"GET /hello.txt HTTP/1.1\r\nHost: 192.168.0.10:18080\r\nConnection: close\r\n\r\n"
    );
}

#[test]
fn get_request_is_cut_at_the_buffer_end() {
    let mut buf = [0xAAu8; 20];
    let req = write_get_request(&mut buf, "/speak", "h");
    assert_eq!(req, b"GET /speak HTTP/1.1\r");
    assert_eq!(req.len(), 20);
    let mut small = [0u8; 0];
    assert_eq!(write_get_request(&mut small, "/", "h").len(), 0);
}

#[test]
fn get_request_leaves_the_rest_of_the_buffer() {
    let mut buf = [7u8; 100];
    let n = write_get_request(&mut buf, "/", "h").len();
    assert_eq!(n, 4 + 1 + 17 + 1 + 23);
    assert!(buf[n..].iter().all(|&b| b == 7));
}

#[test]
fn copy_truncated_copies_what_fits() {
    let mut dst = [0u8; 5];
    assert_eq!(copy_truncated(&mut dst, 2, b"abcdef"), 3);
    assert_eq!(&dst, b"\0\0abc");
    assert_eq!(copy_truncated(&mut dst, 0, b"x"), 1);
    assert_eq!(&dst, b"x\0abc");
    assert_eq!(copy_truncated(&mut dst, 5, b"y"), 0);
}

#[test]
fn extract_body_after_first_terminator() {
    let resp = b"HTTP/1.1 200 OK\r\nA: b\r\n\r\nhello\r\n\r\nworld";
    assert_eq!(extract_body(resp), b"hello\r\n\r\nworld");
}

#[test]
fn extract_body_without_terminator_is_everything() {
    assert_eq!(extract_body(b"no header end\r\n"), b"no header end\r\n");
    assert_eq!(extract_body(b""), b"");
    assert_eq!(extract_body(b"\r\n\r"), b"\r\n\r");
}

#[test]
fn extract_body_of_terminator_alone_is_empty() {
    assert_eq!(extract_body(b"\r\n\r\n"), b"");
    assert_eq!(extract_body(b"\r\r\n\r\nX"), b"X");
}

fn feed_all(chunks: &[&[u8]], cap: usize) -> (Vec<u8>, usize, bool, Vec<bool>) {
    let mut dl = vec![0u8; cap];
    let mut rx = BodyReceiver::new();
    let mut more = Vec::new();
    for c in chunks {
        more.push(rx.feed(&mut dl, c));
    }
    let n = rx.body_len();
    (dl[..n].to_vec(), n, rx.header_received(), more)
}

#[test]
fn streamed_body_matches_extract_body_for_every_split() {
    let resp: &[u8] = b"HTTP/1.1 200 OK\r\nX: \r\n\r\r\n\r\nPCMDATA\r\n\r\nmore";
    let whole = extract_body(resp).to_vec();
    for cut1 in 0..=resp.len() {
        for cut2 in cut1..=resp.len() {
            let (body, _, done, _) =
                feed_all(&[&resp[..cut1], &resp[cut1..cut2], &resp[cut2..]], 64);
            assert!(done);
            assert_eq!(body, whole, "split at {} {}", cut1, cut2);
        }
    }
}

#[test]
fn streamed_body_is_cut_at_capacity() {
    let (body, n, done, more) = feed_all(&[b"H\r\n\r\n0123456789", b"abc"], 4);
    assert!(done);
    assert_eq!(n, 4);
    assert_eq!(body, b"0123");
    assert_eq!(more, vec![false, false]);
}

#[test]
fn stream_without_terminator_keeps_nothing() {
    let (body, n, done, more) = feed_all(&[b"HTTP/1.1 200 OK\r\n", b"\r"], 8);
    assert!(!done);
    assert_eq!(n, 0);
    assert!(body.is_empty());
    assert_eq!(more, vec![true, true]);
}

#[test]
fn get_exchange_success() {
    let mut g = HttpGet::new(10);
    let mut resp = [0u8; 8];
    assert_eq!(g.next_step(), HttpGetStep::Connect);
    g.connected(true);
    assert_eq!(g.next_step(), HttpGetStep::Write);
    g.written(Some(10));
    assert_eq!(g.next_step(), HttpGetStep::Flush);
    g.flushed(true);
    assert_eq!(g.next_step(), HttpGetStep::Read);
    g.read(&mut resp, Some(b"abc"));
    assert_eq!(g.next_step(), HttpGetStep::Read);
    assert_eq!(g.outcome(), None);
    g.read(&mut resp, Some(b""));
    assert_eq!(g.next_step(), HttpGetStep::Finished);
    assert_eq!(g.outcome(), Some(Ok(3)));
    assert_eq!(&resp[..3], b"abc");
}

#[test]
fn get_exchange_stops_when_full() {
    let mut g = HttpGet::new(10);
    let mut resp = [0u8; 5];
    g.connected(true);
    g.written(Some(10));
    g.flushed(true);
    g.read(&mut resp, Some(b"abc"));
    g.read(&mut resp, Some(b"defgh"));
    assert_eq!(g.outcome(), Some(Ok(5)));
    assert_eq!(&resp, b"abcde");
}

#[test]
fn get_exchange_errors_name_their_stage() {
    let mut g = HttpGet::new(10);
    g.connected(false);
    assert_eq!(g.outcome(), Some(Err(HttpError::Connect)));

    let mut g = HttpGet::new(10);
    g.connected(true);
    g.written(None);
    assert_eq!(g.outcome(), Some(Err(HttpError::Send)));

    let mut g = HttpGet::new(10);
    g.connected(true);
    g.written(Some(10));
    g.flushed(false);
    assert_eq!(g.outcome(), Some(Err(HttpError::Send)));

    let mut g = HttpGet::new(10);
    let mut resp = [0u8; 4];
    g.connected(true);
    g.written(Some(10));
    g.flushed(true);
    g.read(&mut resp, Some(b"ab"));
    g.read(&mut resp, None);
    assert_eq!(g.outcome(), Some(Err(HttpError::Receive)));
}

#[test]
fn get_exchange_writes_until_the_request_is_sent() {
    let mut g = HttpGet::new(10);
    g.connected(true);
    assert_eq!(g.sent_bytes(), 0);
    g.written(Some(4));
    assert_eq!(g.next_step(), HttpGetStep::Write);
    assert_eq!(g.sent_bytes(), 4);
    g.written(Some(0));
    assert_eq!(g.next_step(), HttpGetStep::Write);
    g.written(Some(100));
    assert_eq!(g.sent_bytes(), 10);
    assert_eq!(g.next_step(), HttpGetStep::Flush);
}

#[test]
fn empty_request_goes_to_flush() {
    let mut g = HttpGet::new(0);
    g.connected(true);
    g.written(Some(0));
    assert_eq!(g.next_step(), HttpGetStep::Flush);
}

#[test]
fn post_head_is_built() {
    assert_eq!(
        post_request_head("/render", "192.168.0.10:18080", 1234),
        b"POST /render HTTP/1.1\r\nHost: 192.168.0.10:18080\r\nContent-Length: 1234\r\nConnection: close\r\n\r\n".to_vec()
    );
    assert_eq!(
        post_request_head("/stt", "h", 0),
        b"POST /stt HTTP/1.1\r\nHost: h\r\nContent-Length: 0\r\nConnection: close\r\n\r\n".to_vec()
    );
}
