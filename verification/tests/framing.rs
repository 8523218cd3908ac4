use opendev::framing::{read_message, ByteReader, HeaderReader, McpError, NextRead};

fn reader(bytes: &[u8]) -> ByteReader {
    ByteReader::new(bytes.to_vec())
}

#[test]
fn test_read_message_basic() {
    let mut reader = reader(b"Content-Length: 14\r\n\r\n{\"hello\":true}");
    let body = read_message(&mut reader).unwrap();
    assert_eq!(body, b"{\"hello\":true}");
}

#[test]
fn test_read_message_with_extra_header() {
    let mut reader = reader(b"Content-Length: 2\r\nContent-Type: application/json\r\n\r\n{}");
    let body = read_message(&mut reader).unwrap();
    assert_eq!(body, b"{}");
}

#[test]
fn test_read_message_missing_content_length() {
    let mut reader = reader(b"X-Custom: foo\r\n\r\n{}");
    let result = read_message(&mut reader);
    assert!(result.is_err());
    assert!(matches!(result, Err(McpError::Protocol(_))));
}

#[test]
fn messages_follow_each_other() {
    let mut reader = reader(b"Content-Length: 2\r\n\r\n{}Content-Length:3\n\nabcrest");
    assert_eq!(read_message(&mut reader).unwrap(), b"{}");
    assert_eq!(read_message(&mut reader).unwrap(), b"abc");
    assert_eq!(reader.remaining(), 4);
}

#[test]
fn end_of_the_stream_is_a_broken_transport() {
    let mut reader = reader(b"");
    assert!(matches!(
        read_message(&mut reader),
        Err(McpError::Transport(_))
    ));
}

#[test]
fn short_body_is_an_unexpected_end() {
    let mut reader = reader(b"Content-Length: 5\r\n\r\nabc");
    assert!(matches!(
        read_message(&mut reader),
        Err(McpError::UnexpectedEof)
    ));
}

#[test]
fn header_that_is_no_text_is_invalid() {
    let mut reader = reader(b"Content-\xff\r\n\r\n");
    assert!(matches!(
        read_message(&mut reader),
        Err(McpError::InvalidText)
    ));
}

#[test]
fn header_beyond_ascii_is_read() {
    let mut reader = reader("X: gr\u{fc}\u{df}e\r\nContent-Length: 1\r\n\r\nx".as_bytes());
    assert_eq!(read_message(&mut reader).unwrap(), b"x");
}

#[test]
fn length_that_is_no_number_breaks_the_protocol() {
    for line in ["Content-Length: x\r\n", "Content-Length:\r\n", "Content-Length: -1\r\n"] {
        let mut header = HeaderReader::new();
        assert!(matches!(
            header.accept(Some(line)),
            Err(McpError::Protocol(_))
        ));
    }
}

#[test]
fn header_lines_lead_to_the_body() {
    let mut header = HeaderReader::new();
    assert!(matches!(
        header.accept(Some("Content-Length: 7\r\n")),
        Ok(NextRead::Line)
    ));
    assert_eq!(header.content_length, Some(7));
    assert!(matches!(header.accept(Some("\r\n")), Ok(NextRead::Body(7))));
    assert!(matches!(
        header.accept(None),
        Err(McpError::Transport(_))
    ));
}

#[test]
fn protocol_errors_say_what_is_wrong() {
    for number in ["x", "", "-1", "99999999999999999999999999"] {
        let fault = number.parse::<usize>().err().unwrap().to_string();
        let mut header = HeaderReader::new();
        match header.accept(Some(&format!("Content-Length: {number}\r\n"))) {
            Err(McpError::Protocol(message)) => {
                assert_eq!(message, format!("Invalid Content-Length: {fault}"));
            }
            other => panic!("{other:?}"),
        }
    }
    let mut header = HeaderReader::new();
    assert!(matches!(
        header.accept(Some("\n")),
        Err(McpError::Protocol(message)) if message == "Missing Content-Length header"
    ));
    assert!(matches!(
        header.accept(None),
        Err(McpError::Transport(message)) if message == "EOF while reading headers"
    ));
}
