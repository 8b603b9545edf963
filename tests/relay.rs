use cmd_utils::{relay_line, relay_lines};

#[test]
fn relay_adds_newline_to_unterminated_line() {
    let out = relay_lines(b"test");
    assert_eq!(out, b"test\n".to_vec());
    assert_eq!(out.len(), 5);
}

#[test]
fn relay_keeps_terminated_lines_in_order() {
    let out = relay_lines(b"first\nsecond\nthird\n");
    assert_eq!(out, b"first\nsecond\nthird\n".to_vec());
    assert_eq!(out.iter().filter(|b| **b == b'\n').count(), 3);
}

#[test]
fn relay_of_empty_stream_is_empty() {
    assert_eq!(relay_lines(b""), Vec::<u8>::new());
}

#[test]
fn relay_keeps_empty_lines() {
    assert_eq!(relay_lines(b"\n\na\n"), b"\n\na\n".to_vec());
}

#[test]
fn relay_drops_carriage_return_before_newline() {
    assert_eq!(relay_lines(b"a\r\nb\r\n"), b"a\nb\n".to_vec());
    assert_eq!(relay_lines(b"a\rb"), b"a\rb\n".to_vec());
}

#[test]
fn relay_skips_lines_that_are_not_utf8() {
    assert_eq!(relay_lines(b"a\n\xff\xfe\nb\n"), b"a\nb\n".to_vec());
    assert_eq!(relay_lines(b"\xc3"), Vec::<u8>::new());
}

#[test]
fn relay_keeps_multibyte_text() {
    let text = "größe\nnaïve";
    assert_eq!(relay_lines(text.as_bytes()), "größe\nnaïve\n".as_bytes().to_vec());
}

#[test]
fn relay_line_forwards_text_with_one_newline() {
    assert_eq!(relay_line(b"test\n"), Some(b"test\n".to_vec()));
    assert_eq!(relay_line(b"test"), Some(b"test\n".to_vec()));
    assert_eq!(relay_line(b"x\r\n"), Some(b"x\n".to_vec()));
    assert_eq!(relay_line(b"\n"), Some(b"\n".to_vec()));
}

#[test]
fn relay_line_skips_invalid_utf8() {
    assert_eq!(relay_line(b"\xff\n"), None);
    assert_eq!(relay_line(b"ab\xc3\n"), None);
}
