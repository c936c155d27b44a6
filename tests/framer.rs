use zebrasend::framer::{quote_count_of, return_early, Event, Frame, Framer, Mode};

#[test]
fn single_value_ends_on_its_chunk() {
    let mut f = Framer::new(Mode::SGD);
    assert_eq!(f.feed(Event::Data(b"\"192.168.1.1\"".to_vec())), Frame::Done);
    assert_eq!(f.text(), Some("\"192.168.1.1\"".to_string()));
}

#[test]
fn multi_line_value_waits_for_timeout() {
    let mut f = Framer::new(Mode::SGD);
    assert_eq!(f.feed(Event::Data(b"\"multi\nline\"".to_vec())), Frame::Pending);
    assert_eq!(f.feed(Event::TimedOut), Frame::Done);
    assert_eq!(f.text(), Some("\"multi\nline\"".to_string()));
}

#[test]
fn whitespace_keeps_later_chunks_from_ending() {
    let mut f = Framer::new(Mode::SGD);
    assert_eq!(f.feed(Event::Data(b"\"a\t".to_vec())), Frame::Pending);
    assert_eq!(f.feed(Event::Data(b"b\"".to_vec())), Frame::Pending);
    assert_eq!(f.feed(Event::Data(b"\"\"".to_vec())), Frame::Pending);
}

#[test]
fn value_split_across_chunks() {
    let mut f = Framer::new(Mode::SGD);
    assert_eq!(f.feed(Event::Data(b"\"192.".to_vec())), Frame::Pending);
    assert_eq!(f.feed(Event::Data(b"168.1.1\"".to_vec())), Frame::Done);
    assert_eq!(f.text(), Some("\"192.168.1.1\"".to_string()));
}

#[test]
fn closed_with_nothing_is_empty_text() {
    let mut f = Framer::new(Mode::SGD);
    assert_eq!(f.feed(Event::Closed), Frame::Done);
    assert_eq!(f.get_status(), Frame::Done);
    assert_eq!(f.text(), Some(String::new()));
}

#[test]
fn timeout_with_nothing_is_done() {
    let mut f = Framer::new(Mode::SGD);
    assert_eq!(f.feed(Event::TimedOut), Frame::Done);
    assert_eq!(f.text(), Some(String::new()));
}

#[test]
fn failed_read_after_two_quotes_is_done() {
    let mut f = Framer::new(Mode::SGD);
    assert_eq!(f.feed(Event::Data(b"\"a\nb\"".to_vec())), Frame::Pending);
    assert_eq!(f.feed(Event::ReadFailed), Frame::Done);
}

#[test]
fn failed_read_before_two_quotes_fails() {
    let mut f = Framer::new(Mode::SGD);
    assert_eq!(f.feed(Event::Data(b"\"abc".to_vec())), Frame::Pending);
    assert_eq!(f.feed(Event::ReadFailed), Frame::Failed);
}

#[test]
fn print_mode_ignores_data() {
    let mut f = Framer::new(Mode::Print);
    assert_eq!(f.get_mode(), Mode::Print);
    assert_eq!(f.feed(Event::Data(b"\"ok\"".to_vec())), Frame::Pending);
    assert_eq!(f.feed(Event::TimedOut), Frame::Done);
    assert_eq!(f.text(), Some(String::new()));
}

#[test]
fn invalid_utf8_has_no_text() {
    let mut f = Framer::new(Mode::SGD);
    assert_eq!(f.feed(Event::Data(vec![0xff, 0xfe])), Frame::Pending);
    assert_eq!(f.feed(Event::Closed), Frame::Done);
    assert_eq!(f.text(), None);
}

#[test]
fn early_exit_rule() {
    assert!(return_early(b"\"?\""));
    assert!(return_early(b"\"a\" \"b\""));
    assert!(!return_early(b"\"a\"\n"));
    assert!(!return_early(b"\"a\"\t"));
    assert!(!return_early(b"\"a"));
    assert!(!return_early(b""));
    assert_eq!(quote_count_of(b"\"a\"\"\""), 4);
}
