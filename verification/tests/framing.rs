use cc_switch::framing::{read_sse_block, sse_lines, strip_sse_field, take_sse_block};

#[test]
fn cuts_complete_blocks_off_the_buffer() {
    let mut buffer = "event: a\ndata: 1\n\nevent: b\ndata: 2\n\npartial".to_string();
    assert_eq!(take_sse_block(&mut buffer).as_deref(), Some("event: a\ndata: 1"));
    assert_eq!(take_sse_block(&mut buffer).as_deref(), Some("event: b\ndata: 2"));
    assert_eq!(take_sse_block(&mut buffer), None);
    assert_eq!(buffer, "partial");
    let mut empty_block = "\n\nrest".to_string();
    assert_eq!(take_sse_block(&mut empty_block).as_deref(), Some(""));
    assert_eq!(empty_block, "rest");
}

#[test]
fn splits_lines_as_str_lines_does() {
    for text in ["a\n\nb", "a\r\nb\r\n", "a\n", "", "\n", "x\r", "one"] {
        let expected: Vec<String> = text.lines().map(|l| l.to_string()).collect();
        assert_eq!(sse_lines(text), expected, "{text:?}");
    }
}

#[test]
fn reads_fields() {
    assert_eq!(strip_sse_field("data: {}", "data").as_deref(), Some("{}"));
    assert_eq!(strip_sse_field("data:{}", "data").as_deref(), Some("{}"));
    assert_eq!(strip_sse_field("data:  x", "data").as_deref(), Some(" x"));
    assert_eq!(strip_sse_field("event: x", "data"), None);
    assert_eq!(strip_sse_field("dat", "data"), None);
    let (event, data) = read_sse_block("event:  message_start \ndata: {\"a\":\ndata: 1}\n: comment\nid: 3");
    assert_eq!(event, "message_start");
    assert_eq!(data, vec!["{\"a\":".to_string(), "1}".to_string()]);
    let (event, data) = read_sse_block("data: only");
    assert_eq!(event, "");
    assert_eq!(data, vec!["only".to_string()]);
}
