use tcp_relay::feeder::{feed, line_chunk, FeedAction, LocalRead};

fn published(a: FeedAction) -> Vec<u8> {
    match a {
        FeedAction::Publish(c) => c,
        FeedAction::Stop => panic!("expected a chunk"),
    }
}

#[test]
fn trailing_white_space_is_stripped_from_lines() {
    assert_eq!(line_chunk("hello\n"), b"hello".to_vec());
    assert_eq!(line_chunk("hello\r\n"), b"hello".to_vec());
    assert_eq!(line_chunk("  hi \t\n"), b"  hi".to_vec());
    assert_eq!(line_chunk("\u{3000}x\u{2003}\u{85}\n"), "\u{3000}x".as_bytes().to_vec());
    assert_eq!(line_chunk("\n"), Vec::<u8>::new());
}

#[test]
fn lines_are_sent_as_utf8() {
    assert_eq!(published(feed(LocalRead::Line("héllo\n".to_string()))), "héllo".as_bytes().to_vec());
}

#[test]
fn an_empty_typed_line_is_still_published() {
    assert_eq!(published(feed(LocalRead::Line("\n".to_string()))), Vec::<u8>::new());
}

#[test]
fn raw_reads_are_published_as_read() {
    assert_eq!(published(feed(LocalRead::Bytes(vec![1, 0, 0, 7]))), vec![1, 0, 0, 7]);
}

#[test]
fn end_or_failure_of_input_stops_the_feeder() {
    assert!(matches!(feed(LocalRead::Bytes(Vec::new())), FeedAction::Stop));
    assert!(matches!(feed(LocalRead::Line(String::new())), FeedAction::Stop));
    assert!(matches!(feed(LocalRead::Failed), FeedAction::Stop));
}
