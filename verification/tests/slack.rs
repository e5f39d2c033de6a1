use riceathon::session::ThreadPost;
use riceathon::slack::{
    after_relay, post_to_master_thread, relay, send_slack_message, AfterRelay, RelaySource,
};

#[test]
fn a_channel_message_has_no_thread() {
    let request = send_slack_message("#riceathon", "hi".to_string());
    assert_eq!(request.channel, "#riceathon");
    assert_eq!(request.text, "hi");
    assert_eq!(request.thread_ts, None);
}

#[test]
fn a_thread_message_goes_to_the_thread_that_is_set() {
    let post = ThreadPost { channel: "C1".to_string(), text: "hi".to_string() };
    let request = post_to_master_thread(post, "17.5".to_string());
    assert_eq!(request.channel, "C1");
    assert_eq!(request.text, "hi");
    assert_eq!(request.thread_ts, Some("17.5".to_string()));
}

#[test]
fn without_a_thread_the_message_goes_to_the_channel() {
    let post = ThreadPost { channel: "C1".to_string(), text: "hi".to_string() };
    assert_eq!(post_to_master_thread(post, String::new()).thread_ts, None);
}

#[test]
fn a_text_is_relayed_without_the_white_space_around_it() {
    let request = relay("  hello all \n").unwrap();
    assert_eq!(request.channel, "#riceathon");
    assert_eq!(request.text, "hello all");
    assert_eq!(request.thread_ts, None);
}

#[test]
fn nothing_is_relayed_of_white_space() {
    assert!(relay("").is_none());
    assert!(relay(" \r\n\t").is_none());
}

#[test]
fn a_message_stays_in_the_file_until_it_was_sent() {
    assert!(matches!(after_relay(RelaySource::MessageFile, true), AfterRelay::EmptyFile));
    match after_relay(RelaySource::MessageFile, false) {
        AfterRelay::Report(text) => assert_eq!(text, "Error sending message from msg.txt: "),
        _ => panic!("a failure is reported"),
    }
}

#[test]
fn a_line_from_the_terminal_is_sent_once() {
    assert!(matches!(after_relay(RelaySource::Terminal, true), AfterRelay::Done));
    match after_relay(RelaySource::Terminal, false) {
        AfterRelay::Report(text) => assert_eq!(text, "Error sending message from stdin: "),
        _ => panic!("a failure is reported"),
    }
}
