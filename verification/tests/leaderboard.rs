use riceathon::leaderboard::{final_announcement, score};
use riceathon::session::VotingSession;

const HEADER: &str = "*:ultrafastparrot: final voting Leaderboard scores !* \n";

fn users(list: &[&str]) -> Vec<String> {
    list.iter().map(|s| s.to_string()).collect()
}

fn with_votes(list: &[(&str, usize)]) -> VotingSession {
    let mut session = VotingSession::default();
    for (user, n) in list {
        session.votes.insert(user.to_string(), *n);
    }
    session
}

#[test]
fn who_has_no_votes_has_zero() {
    let votes = with_votes(&[("U1", 3)]).votes;
    assert_eq!(score(&votes, "U1"), 3);
    assert_eq!(score(&votes, "U2"), 0);
}

#[test]
fn a_board_without_participants() {
    assert_eq!(
        final_announcement(&users(&[]), &with_votes(&[]).votes),
        format!("{HEADER}_No registered participants joined this round._\nWAIT WHAT, NO WINNER WTH?!? there must be a mistake..")
    );
}

#[test]
fn a_board_without_votes() {
    assert_eq!(
        final_announcement(&users(&["U1"]), &with_votes(&[]).votes),
        format!("{HEADER}- <@U1>: *0*:upvote: votes\n\nWAIT WHAT, NO WINNER WTH?!? there must be a mistake..")
    );
}

#[test]
fn ten_votes_make_a_mega_upvote() {
    assert_eq!(
        final_announcement(&users(&["U1", "U2"]), &with_votes(&[("U1", 9), ("U2", 10)]).votes),
        format!("{HEADER}- <@U1>: *9*:upvote: votes\n- <@U2>: *10*:super-mega-upvote: votes\n\n* ANNNNnnndddd congratulations to our winner <@U2> with 10 votes!* :yay:")
    );
}

#[test]
fn a_tie_names_all_who_have_the_most() {
    assert_eq!(
        final_announcement(
            &users(&["U1", "U2", "U3", "U4"]),
            &with_votes(&[("U1", 1), ("U2", 2), ("U4", 2)]).votes
        ),
        format!("{HEADER}- <@U1>: *1*:upvote: votes\n- <@U2>: *2*:upvote: votes\n- <@U3>: *0*:upvote: votes\n- <@U4>: *2*:upvote: votes\n\nHow is that possible, <@U2>, <@U4> got *2 votes!*\nYOUSAFE i let you say the rest :p")
    );
}

#[test]
fn the_order_does_not_decide_who_wins() {
    let votes = with_votes(&[("U1", 1), ("U2", 5), ("U3", 4)]).votes;
    let winner = "our winner <@U2> with 5 votes!*";
    for order in [["U1", "U2", "U3"], ["U2", "U1", "U3"], ["U3", "U1", "U2"]] {
        assert!(final_announcement(&users(&order), &votes).contains(winner));
    }
}
