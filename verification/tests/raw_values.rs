use header_scan::raw::{parse_and_ignore, parse_raw};
use header_scan::stream::{HeaderValue, MessageStream};

#[test]
fn parse_raw_text() {
    let inputs = [
        ("Saying Hello\nMessage-Id", "Saying Hello"),
        ("Re: Saying Hello\r\n \r\nFrom:", "Re: Saying Hello"),
        (
            " from x.y.test\n      by example.net\n      via TCP\n      with ESMTP\n      id ABC12345\n      for <mary@example.net>;  21 Nov 1997 10:05:43 -0600\n",
            "from x.y.test\n      by example.net\n      via TCP\n      with ESMTP\n      id ABC12345\n      for <mary@example.net>;  21 Nov 1997 10:05:43 -0600",
        ),
    ];

    for input in inputs {
        let str = input.0.to_string();
        assert_eq!(
            parse_raw(&mut MessageStream::new(str.as_bytes())).unwrap_text(),
            input.1,
            "Failed for '{:?}'",
            input.0
        );
    }
}

#[test]
fn blank_value_is_empty() {
    let mut stream = MessageStream::new(b"   \n");
    assert!(matches!(parse_raw(&mut stream), HeaderValue::Empty));
    assert_eq!(stream.pos, 4);

    let mut stream = MessageStream::new(b"\t \r\nX");
    assert!(matches!(parse_raw(&mut stream), HeaderValue::Empty));
    assert_eq!(stream.pos, 4);
}

#[test]
fn empty_buffer_is_empty() {
    let mut stream = MessageStream::new(b"");
    assert!(matches!(parse_raw(&mut stream), HeaderValue::Empty));
    assert_eq!(stream.pos, 0);

    let mut stream = MessageStream::new(b"");
    parse_and_ignore(&mut stream);
    assert_eq!(stream.pos, 0);
}

#[test]
fn unterminated_value_is_empty() {
    // no line feed ever comes: the cursor reaches the end of the buffer and
    // the open token is dropped
    let mut stream = MessageStream::new(b"Hello");
    assert!(matches!(parse_raw(&mut stream), HeaderValue::Empty));
    assert_eq!(stream.pos, 5);

    // a fold right before the end behaves the same way
    let mut stream = MessageStream::new(b"Hello\n ");
    assert!(matches!(parse_raw(&mut stream), HeaderValue::Empty));
    assert_eq!(stream.pos, 7);
}

#[test]
fn terminator_is_consumed_but_not_returned() {
    let mut stream = MessageStream::new(b"Subject line\nNext-Header");
    let text = parse_raw(&mut stream).unwrap_text();
    assert_eq!(text, "Subject line");
    assert!(!text.contains('\n'));
    assert_eq!(stream.pos, 13);

    let mut stream = MessageStream::new(b"Subject line\nNext-Header");
    parse_and_ignore(&mut stream);
    assert_eq!(stream.pos, 13);
}

#[test]
fn five_line_fold_kept_verbatim() {
    // each continuation line starts with several spaces; one space per fold
    // is consumed as the fold marker, but every byte between the first and
    // the last printable byte comes back verbatim
    let input = b"one\n  two\n   three\n    four\n     five\nNext";
    let mut stream = MessageStream::new(input);
    assert_eq!(
        parse_raw(&mut stream).unwrap_text(),
        "one\n  two\n   three\n    four\n     five"
    );
    assert_eq!(stream.pos, 38);
}

#[test]
fn leading_and_trailing_folds_read_as_one_line() {
    // a fold among leading whitespace: same text as without the fold
    let mut folded = MessageStream::new(b"  \n Hello\nX");
    let mut plain = MessageStream::new(b"  Hello\nX");
    assert_eq!(
        parse_raw(&mut folded).unwrap_text(),
        parse_raw(&mut plain).unwrap_text()
    );

    // a fold among trailing whitespace: same text as without the fold
    let mut folded = MessageStream::new(b"Hi \n \nX");
    let mut plain = MessageStream::new(b"Hi \nX");
    assert_eq!(
        parse_raw(&mut folded).unwrap_text(),
        parse_raw(&mut plain).unwrap_text()
    );
}

#[test]
fn invalid_bytes_are_replaced_not_refused() {
    let input: &[u8] = &[72, 101, 255, 108, 108, 111, 10, 88];
    let mut stream = MessageStream::new(input);
    assert_eq!(parse_raw(&mut stream).unwrap_text(), "He\u{FFFD}llo");
}

#[test]
fn skip_and_extract_move_the_cursor_alike() {
    let inputs: [&[u8]; 6] = [
        b"Saying Hello\nMessage-Id",
        b"Re: Saying Hello\r\n \r\nFrom:",
        b"one\n  two\n   three\nNext",
        b"   \n",
        b"Hello",
        b"Hello\n ",
    ];
    for input in inputs {
        let mut extracting = MessageStream::new(input);
        let mut skipping = MessageStream::new(input);
        parse_raw(&mut extracting);
        parse_and_ignore(&mut skipping);
        assert_eq!(extracting.pos, skipping.pos, "Failed for '{:?}'", input);
    }
}

#[test]
fn cursor_only_moves_forward() {
    let input = b"From: one\nTo: two\n \n\nbody";
    let mut stream = MessageStream::new(input);
    let mut last = stream.pos;
    for _ in 0..6 {
        parse_raw(&mut stream);
        assert!(stream.pos >= last);
        last = stream.pos;
    }
    let mut stream = MessageStream::new(input);
    let mut last = stream.pos;
    for _ in 0..6 {
        parse_and_ignore(&mut stream);
        assert!(stream.pos >= last);
        last = stream.pos;
    }
}
