use enchanted_beans::framer::{BodyRead, LineReader};
use enchanted_beans::util::bytes_to_human_str;

/// Feeds each chunk as one read and collects every line handed out.
fn lines_of(chunks: &[&[u8]]) -> Vec<Vec<u8>> {
    let mut lr = LineReader::new();
    let mut out = Vec::new();
    for c in chunks {
        lr.fill(c);
        while let Some(line) = lr.read_line() {
            out.push(line);
        }
    }
    out
}

#[test]
fn test() {
    // When properly read, each nth line should read b"test:{n}".
    let tests: &[&[u8]] = &[
        // Simple reassembly
        b"test:",
        b"1\r\n",
        // Split LF
        b"test:",
        b"2\r",
        b"\n",
        // Split CRLF
        b"test:",
        b"3",
        b"\r",
        b"\n",
        // Pipelined commands
        // Simple
        b"test:4\r\ntest:5\r\n",
        // Split LF
        b"test:6\r",
        b"\ntest:7\r\n",
        // Split CRLF
        b"test:8",
        b"\r\ntest:9\r\n",
    ];

    let lines = lines_of(tests);
    assert_eq!(lines.len(), 9);
    for n in 1..=9 {
        assert_eq!(lines[n - 1], format!("test:{n}").into_bytes());
    }
}

#[test]
fn fragmented_line_yields_one_frame() {
    let mut lr = LineReader::new();
    lr.fill(b"test:");
    assert_eq!(lr.read_line(), None);
    lr.fill(b"1\r");
    assert_eq!(lr.read_line(), None);
    lr.fill(b"\n");
    assert_eq!(lr.read_line(), Some(b"test:1".to_vec()));
    assert_eq!(lr.read_line(), None);
    assert_eq!(lr.buffered_len(), 0);
}

#[test]
fn two_frames_in_one_read() {
    let mut lr = LineReader::new();
    lr.fill(b"use a\r\nwatch b\r\n");
    assert_eq!(lr.read_line(), Some(b"use a".to_vec()));
    assert_eq!(lr.read_line(), Some(b"watch b".to_vec()));
    assert_eq!(lr.read_line(), None);
}

#[test]
fn empty_line_and_lone_cr() {
    let mut lr = LineReader::new();
    lr.fill(b"\r\na\rb\r\n");
    assert_eq!(lr.read_line(), Some(Vec::new()));
    assert_eq!(lr.read_line(), Some(b"a\rb".to_vec()));
}

#[test]
fn body_may_hold_crlf() {
    let mut lr = LineReader::new();
    lr.fill(b"put 0 0 1 4\r\nx\r\ny\r\nnext\r\n");
    assert_eq!(lr.read_line(), Some(b"put 0 0 1 4".to_vec()));
    match lr.read_body(4) {
        BodyRead::Body(b) => assert_eq!(b, b"x\r\ny".to_vec()),
        other => panic!("unexpected {other:?}"),
    }
    assert_eq!(lr.read_line(), Some(b"next".to_vec()));
}

#[test]
fn body_waits_for_its_bytes() {
    let mut lr = LineReader::new();
    lr.fill(b"abc");
    assert!(matches!(lr.read_body(3), BodyRead::Incomplete));
    lr.fill(b"\r");
    assert!(matches!(lr.read_body(3), BodyRead::Incomplete));
    lr.fill(b"\n");
    match lr.read_body(3) {
        BodyRead::Body(b) => assert_eq!(b, b"abc".to_vec()),
        other => panic!("unexpected {other:?}"),
    }
}

#[test]
fn body_without_crlf_is_refused() {
    let mut lr = LineReader::new();
    lr.fill(b"abcXY");
    assert!(matches!(lr.read_body(3), BodyRead::ExpectedCrlf));
    assert_eq!(lr.buffered_len(), 0);
}

#[test]
fn log_rendering_escapes_bytes() {
    assert_eq!(bytes_to_human_str(b"put 1 2"), "put 1 2");
    assert_eq!(bytes_to_human_str(b"a\r\n\t\"'\\"), "a\\r\\n\\t\\\"\\'\\\\");
    assert_eq!(bytes_to_human_str(&[0x00, 0x7f, 0xff, 0x1b]), "\\x00\\x7f\\xff\\x1b");
    assert_eq!(bytes_to_human_str(b""), "");
}
