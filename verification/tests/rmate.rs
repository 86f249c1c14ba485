use accepted::rmate::{save_message, Need, RmateError, RmateReader};

#[test]
fn reads_a_sent_file() {
    let mut r = RmateReader::new();
    assert_eq!(r.need(), Need::Line);
    assert!(matches!(r.feed_line("open\n"), Ok(None)));
    assert!(matches!(r.feed_line("display-name: host:/tmp/a.txt\n"), Ok(None)));
    assert!(matches!(r.feed_line("real-path: /tmp/a.txt\n"), Ok(None)));
    assert!(matches!(r.feed_line("token: abc\n"), Ok(None)));
    assert!(matches!(r.feed_line("data: 5\n"), Ok(None)));
    assert_eq!(r.need(), Need::Bytes(5));
    assert_eq!(r.feed_bytes(b"hello".to_vec()), Ok(()));
    assert_eq!(r.need(), Need::Bytes(1));
    assert_eq!(r.feed_bytes(b"\n".to_vec()), Ok(()));
    assert_eq!(r.need(), Need::Line);
    let file = match r.feed_line(".\n") {
        Ok(Some(f)) => f,
        _ => panic!("expected a file"),
    };
    assert_eq!(file.display_name, "host:/tmp/a.txt");
    assert_eq!(file.real_path, "/tmp/a.txt");
    assert_eq!(file.token, "abc");
    assert_eq!(file.data, "hello");
    assert!(matches!(r.feed_line("open\n"), Ok(None)));
}

#[test]
fn missing_headers_are_empty() {
    let mut r = RmateReader::new();
    r.feed_line("open\r\n").unwrap();
    r.feed_line("token: t: u\n").unwrap();
    let file = match r.feed_line(".\n") {
        Ok(Some(f)) => f,
        _ => panic!("expected a file"),
    };
    assert_eq!(file.token, "t");
    assert_eq!(file.display_name, "");
    assert_eq!(file.data, "");
}

#[test]
fn protocol_errors() {
    let mut r = RmateReader::new();
    assert!(matches!(r.feed_line("close\n"), Err(RmateError::NotOpen)));
    let mut r = RmateReader::new();
    r.feed_line("open\n").unwrap();
    assert!(matches!(r.feed_line("no separator\n"), Err(RmateError::BadHeader)));
    let mut r = RmateReader::new();
    r.feed_line("open\n").unwrap();
    assert!(matches!(r.feed_line("data: many\n"), Err(RmateError::BadLength)));
    let mut r = RmateReader::new();
    r.feed_line("open\n").unwrap();
    assert!(matches!(r.feed_line(".\n"), Err(RmateError::NoToken)));
    let mut r = RmateReader::new();
    r.feed_line("open\n").unwrap();
    r.feed_line("data: 2\n").unwrap();
    assert_eq!(r.feed_bytes(vec![0xff, 0xfe]), Err(RmateError::BadData));
    let mut r = RmateReader::new();
    assert_eq!(r.feed_bytes(vec![1]), Err(RmateError::WrongState));
}

#[test]
fn save_message_counts_bytes() {
    assert_eq!(save_message("abc", "h\u{e9}llo"), "save\ntoken: abc\ndata: 6\nh\u{e9}llo\n");
    assert_eq!(save_message("t", ""), "save\ntoken: t\ndata: 0\n\n");
}
