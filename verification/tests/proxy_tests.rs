use velocache::proxy::{
    connect_target_in_text, contains_bytes, is_connect_preface, is_connect_request_line,
    is_reportable_connection_error, is_whitespace, parse_connect_target, split_words, ConnectPreamble,
    PreambleProgress,
};

#[test]
fn connect_preface_detection() {
    assert!(is_connect_preface(b"CONNECT example.com:443 HTTP/1.1\r\n"));
    assert!(is_connect_preface(b"CONNECT"));
    assert!(!is_connect_preface(b"CONNEC"));
    assert!(!is_connect_preface(b"connect example.com:443"));
    assert!(!is_connect_preface(b"GET http://a/ HTTP/1.1"));
    assert!(!is_connect_preface(b""));
}

#[test]
fn reportable_errors() {
    assert!(!is_reportable_connection_error("Broken: broken pipe (os error 32)"));
    assert!(!is_reportable_connection_error("os error 10053"));
    assert!(!is_reportable_connection_error("An established connection was aborted (os error 10054)"));
    assert!(is_reportable_connection_error("connection refused"));
    assert!(is_reportable_connection_error("Broken Pipe"));
    assert!(is_reportable_connection_error(""));
    assert!(!is_reportable_connection_error("bağlantı: broken pipe"));
    assert!(is_reportable_connection_error("bağlantı koptu"));
}

#[test]
fn substring_search() {
    assert!(contains_bytes(b"ab\r\n\r\ncd", b"\r\n\r\n"));
    assert!(!contains_bytes(b"ab\r\n\r", b"\r\n\r\n"));
    assert!(contains_bytes(b"", b""));
    assert!(contains_bytes("hello world".as_bytes(), "o w".as_bytes()));
    assert!(!contains_bytes("hello world".as_bytes(), "ow".as_bytes()));
}

#[test]
fn preamble_completes_on_blank_line() {
    let mut p = ConnectPreamble::new();
    assert_eq!(p.space(), 4096);
    assert_eq!(p.receive(b"CONNECT a:443 HTTP/1.1\r\n"), PreambleProgress::Incomplete);
    assert_eq!(p.receive(b"Host: a:443\r\n"), PreambleProgress::Incomplete);
    assert_eq!(p.receive(b"\r\n"), PreambleProgress::Complete(39));
}

#[test]
fn preamble_blank_line_split_across_reads() {
    let mut p = ConnectPreamble::new();
    assert_eq!(p.receive(b"CONNECT a:1 HTTP/1.1\r\n\r"), PreambleProgress::Incomplete);
    assert_eq!(p.receive(b"\n"), PreambleProgress::Complete(24));
}

#[test]
fn preamble_closed_connection() {
    let mut p = ConnectPreamble::new();
    assert_eq!(p.receive(b"CONNECT"), PreambleProgress::Incomplete);
    assert_eq!(p.receive(b""), PreambleProgress::Closed);
}

#[test]
fn preamble_buffer_doubles_when_full() {
    let mut p = ConnectPreamble::new();
    let chunk = vec![b'a'; 4096];
    assert_eq!(p.receive(&chunk), PreambleProgress::Incomplete);
    assert_eq!(p.space(), 4096);
    let more = vec![b'b'; 4000];
    assert_eq!(p.receive(&more), PreambleProgress::Incomplete);
    assert_eq!(p.space(), 96);
    assert_eq!(p.receive(b"\r\n\r\n"), PreambleProgress::Complete(8100));
}

#[test]
fn connect_target_from_header() {
    let h = b"CONNECT example.com:443 HTTP/1.1\r\nHost: example.com:443\r\n\r\n";
    assert_eq!(parse_connect_target(h), Some("example.com:443".to_string()));
    let h = b"connect  \tlower.example:8443   HTTP/1.1\r\n\r\n";
    assert_eq!(parse_connect_target(h), Some("lower.example:8443".to_string()));
    let h = b"Host: x\r\nCoNnEcT mixed:1 HTTP/1.1\r\n\r\n";
    assert_eq!(parse_connect_target(h), Some("mixed:1".to_string()));
}

#[test]
fn connect_target_absent() {
    assert_eq!(parse_connect_target(b"GET / HTTP/1.1\r\n\r\n"), None);
    // the first CONNECT line decides, even without a target
    assert_eq!(parse_connect_target(b"CONNECT \r\nCONNECT b:1 HTTP/1.1\r\n\r\n"), None);
    // "CONNECT" must be followed by a space
    assert_eq!(parse_connect_target(b"CONNECT\tx:1\r\n\r\n"), None);
    assert_eq!(parse_connect_target(b""), None);
}

#[test]
fn connect_target_with_invalid_utf8() {
    let h = b"CONNECT h\xffost:1 HTTP/1.1\r\n\r\n";
    assert_eq!(parse_connect_target(h), Some("h\u{FFFD}ost:1".to_string()));
}

#[test]
fn connect_target_last_line_without_newline() {
    assert_eq!(parse_connect_target(b"CONNECT last:2"), Some("last:2".to_string()));
    assert_eq!(parse_connect_target(b"CONNECT last:2\r"), Some("last:2".to_string()));
}

#[test]
fn whitespace_matches_std() {
    for u in 0u32..0x3100 {
        if let Some(c) = char::from_u32(u) {
            assert_eq!(is_whitespace(c), c.is_whitespace(), "code point {:x}", u);
        }
    }
}

#[test]
fn words_match_split_whitespace() {
    for s in ["", "  a  b\tc ", "abc", " \u{3000}x\u{2003}yz ", "one"] {
        let cs: Vec<char> = s.chars().collect();
        let ws: Vec<String> = split_words(&cs).iter().map(|w| w.iter().collect()).collect();
        let expected: Vec<String> = s.split_whitespace().map(|w| w.to_string()).collect();
        assert_eq!(ws, expected);
    }
}

#[test]
fn connect_line_test_takes_lower_case() {
    assert!(is_connect_request_line("connect a:1 http/1.1"));
    assert!(!is_connect_request_line("connect"));
    assert!(!is_connect_request_line("CONNECT a:1"));
    assert!(!is_connect_request_line(" connect a:1"));
}

#[test]
fn connect_target_in_decoded_text() {
    assert_eq!(connect_target_in_text("CONNECT ünï.example:443 HTTP/1.1\r\n\r\n"), Some("ünï.example:443".to_string()));
    assert_eq!(connect_target_in_text("\r\n\nCONNECT x:1\r\n"), Some("x:1".to_string()));
    assert_eq!(connect_target_in_text("GET / HTTP/1.1"), None);
}

#[test]
fn preamble_target_after_completion() {
    let mut p = ConnectPreamble::new();
    assert_eq!(p.buffer_len(), 4096);
    assert_eq!(p.receive(b"CONNECT t.example:8443 HTTP/1.1\r\nHost: t\r\n\r\n"), PreambleProgress::Complete(44));
    assert_eq!(p.connect_target(), Some("t.example:8443".to_string()));
}
