use riceathon::mention::parse_slack_mention;

fn read(text: &str) -> Option<String> {
    parse_slack_mention(text)
}

#[test]
fn mention_gives_its_id() {
    assert_eq!(read("<@U123>"), Some("U123".to_string()));
    assert_eq!(read("<@U123|ann>"), Some("U123".to_string()));
}

#[test]
fn mention_may_stand_in_white_space_and_before_anything() {
    assert_eq!(read(" \t<@U1>\n"), Some("U1".to_string()));
    assert_eq!(read("\u{3000}<@U1|a|b> is great > that"), Some("U1".to_string()));
}

#[test]
fn mention_ends_at_the_first_of_its_ends() {
    assert_eq!(read("<@U1>|x"), Some("U1".to_string()));
    assert_eq!(read("<@>"), Some("".to_string()));
    assert_eq!(read("<@|x>"), Some("".to_string()));
    assert_eq!(read("<@ü→>"), Some("ü→".to_string()));
}

#[test]
fn what_is_no_mention_gives_nothing() {
    for text in ["", " ", "<", "<@", "<@U1", "U1>", "@U1", "hi <@U1>", "< @U1>", "<!here>"] {
        assert_eq!(read(text), None, "{text}");
    }
}

#[test]
fn a_mention_with_white_space_inside_keeps_it() {
    assert_eq!(read("<@ U1 >"), Some(" U1 ".to_string()));
}
