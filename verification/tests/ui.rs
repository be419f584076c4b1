use cardputer_rust::config::{recording_path, ASK_PATH, STT_PATH};
use cardputer_rust::ui::{greeting_text, trim, white_space, ap_entry_line, ap_header_line, ap_list_lines, decimal_digits, encode_char, leading_chars_utf8, signed_decimal_text, AccessPoint, LineBuf};

#[test]
fn decimal_text() {
    assert_eq!(decimal_digits(0), b"0");
    assert_eq!(decimal_digits(18080), b"18080");
    assert_eq!(decimal_digits(u64::MAX), u64::MAX.to_string().as_bytes());
    assert_eq!(signed_decimal_text(-128), b"-128");
    assert_eq!(signed_decimal_text(7), b"7");
}

#[test]
fn utf8_encoding_matches_std() {
    for c in ['a', 'é', 'あ', '😀', '\u{7f}', '\u{80}', '\u{7ff}', '\u{800}', '\u{ffff}', '\u{10000}'] {
        let mut buf = [0u8; 4];
        assert_eq!(encode_char(c), c.encode_utf8(&mut buf).as_bytes());
    }
    assert_eq!(leading_chars_utf8("日本語テキスト", 3), "日本語".as_bytes());
    assert_eq!(leading_chars_utf8("ab", 12), b"ab");
}

#[test]
fn line_buffer_truncates() {
    let mut l = LineBuf::new();
    l.write_str("0123456789");
    for _ in 0..5 {
        l.write_str("abcdefghij");
    }
    assert_eq!(l.as_bytes().len(), 48);
    assert_eq!(&l.as_bytes()[..12], b"0123456789ab");
    assert_eq!(l.as_str().len(), 48);
}

#[test]
fn cut_character_empties_the_text() {
    let mut l = LineBuf::new();
    for _ in 0..47 {
        l.write_str("x");
    }
    l.write_str("é");
    assert_eq!(l.as_bytes().len(), 48);
    assert_eq!(l.as_str(), "");
    let mut ok = LineBuf::new();
    ok.write_str("héllo");
    assert_eq!(ok.as_str(), "héllo");
}

fn ap(ssid: &str, rssi: i8, ch: u8) -> AccessPoint {
    AccessPoint { ssid: ssid.to_string(), signal_strength: rssi, channel: ch }
}

#[test]
fn access_point_lines() {
    assert_eq!(ap_header_line(3).as_str(), "Wi-Fi APs: 3");
    assert_eq!(ap_entry_line(&ap("MyNetwork-5GHz-Home", -67, 36)).as_str(), "MyNetwork-5G -67 ch36");
    assert_eq!(ap_entry_line(&ap("", 0, 1)).as_str(), " 0 ch1");
    assert_eq!(ap_entry_line(&ap("カフェのWi-Fiネットワーク", -90, 11)).as_str(), "カフェのWi-Fiネット -90 ch11");
}

#[test]
fn access_point_list_shows_five() {
    let aps: Vec<AccessPoint> = (0..7).map(|i| ap(&format!("net{}", i), -50 - i as i8, i as u8 + 1)).collect();
    let lines = ap_list_lines(&aps);
    assert_eq!(lines.len(), 6);
    assert_eq!(lines[0].text.as_str(), "Wi-Fi APs: 7");
    assert_eq!((lines[0].x, lines[0].y), (10, 20));
    assert_eq!(lines[5].text.as_str(), "net4 -54 ch5");
    assert_eq!(lines[5].y, 120);
    assert_eq!(ap_list_lines(&[]).len(), 1);
}

#[test]
fn recording_paths() {
    assert_eq!(recording_path(true), ASK_PATH);
    assert_eq!(recording_path(false), STT_PATH);
    assert_eq!(ASK_PATH, "/ask");
}

#[test]
fn trim_matches_std() {
    for s in ["", "  ", " hello ", "\t\nhi there\r\n", "\u{3000}全角\u{3000}", "x", "\u{a0}a b\u{2029}"] {
        assert_eq!(trim(s), s.trim(), "{:?}", s);
    }
    for code in 0u32..0x3100 {
        if let Some(c) = char::from_u32(code) {
            assert_eq!(white_space(c), c.is_whitespace(), "{:?}", c);
        }
    }
}

#[test]
fn greeting() {
    assert_eq!(greeting_text(b"  Hello, Cardputer!\n"), "Hello, Cardputer!");
    assert_eq!(greeting_text(b"\xff\xfe"), "Bad response");
    assert_eq!(greeting_text(b""), "");
}
