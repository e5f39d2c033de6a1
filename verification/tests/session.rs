use riceathon::session::{
    handle_add_me, handle_current, handle_next, handle_start, handle_stop, handle_vote, present,
    CommandEvent, Reply, VotingSession,
};
use std::collections::HashSet;

const OWNER: &str = "UOWNER";

fn event(user: &str, text: Option<&str>) -> CommandEvent {
    CommandEvent {
        user_id: user.to_string(),
        channel_id: "C1".to_string(),
        text: text.map(|t| t.to_string()),
    }
}

fn started() -> VotingSession {
    let mut session = VotingSession::default();
    let reply = handle_start(&mut session, OWNER, &event(OWNER, None));
    assert!(reply.refusal.is_none());
    session
}

fn with_participants(users: &[&str]) -> VotingSession {
    let mut session = started();
    for user in users {
        let reply = handle_add_me(&mut session, &event(user, None));
        assert!(reply.refusal.is_none());
    }
    session
}

fn vote(session: &mut VotingSession, voter: &str, target: &str) -> Reply {
    handle_vote(session, &event(voter, Some(&format!("<@{target}>"))))
}

fn refusal(reply: &Reply) -> &str {
    assert!(reply.post.is_none());
    reply.refusal.as_deref().unwrap()
}

fn post(reply: &Reply) -> &str {
    assert!(reply.refusal.is_none());
    let post = reply.post.as_ref().unwrap();
    assert_eq!(post.channel, "C1");
    &post.text
}

#[test]
fn a_new_session_does_not_run() {
    let session = VotingSession::default();
    assert!(!session.is_active);
    assert!(session.participants.is_empty());
    assert!(session.waiting_pool.is_empty());
    assert_eq!(session.current_candidate, None);
    assert!(session.votes.is_empty());
    assert!(session.voted_users.is_empty());
}

#[test]
fn only_the_owner_starts() {
    let mut session = VotingSession::default();
    let reply = handle_start(&mut session, OWNER, &event("U1", None));
    assert_eq!(
        refusal(&reply),
        "ONLY YOUSAFE CAN START THE VOTING HUDDLE \nYOU NOT SAFE /silly"
    );
    assert!(!session.is_active);
}

#[test]
fn starting_empties_the_session() {
    let mut session = with_participants(&["U1", "U2"]);
    handle_next(&mut session, OWNER, &event(OWNER, None));
    vote(&mut session, "U9", "U1");
    let reply = handle_start(&mut session, OWNER, &event(OWNER, None));
    assert_eq!(
        post(&reply),
        ":yay: ayy, just started it, now ppl shall add themselves using `/add_me` so they can participate >:3\nyumm i wonder the rices im going to eat /silly"
    );
    assert!(session.is_active);
    assert!(session.participants.is_empty());
    assert!(session.waiting_pool.is_empty());
    assert_eq!(session.current_candidate, None);
    assert!(session.votes.is_empty());
    assert!(session.voted_users.is_empty());
}

#[test]
fn joining_is_announced_with_the_number_of_participants() {
    let mut session = started();
    let reply = handle_add_me(&mut session, &event("U1", None));
    assert_eq!(
        post(&reply),
        ":wavey: <@U1> joined the voting participant pool! now there is *1* participants in the list"
    );
    let reply = handle_add_me(&mut session, &event("U2", None));
    assert_eq!(
        post(&reply),
        ":wavey: <@U2> joined the voting participant pool! now there is *2* participants in the list"
    );
    assert_eq!(session.participants, vec!["U1", "U2"]);
    assert_eq!(session.waiting_pool, vec!["U1", "U2"]);
}

#[test]
fn nobody_joins_twice_even_after_presenting() {
    let mut session = with_participants(&["U1"]);
    let reply = handle_add_me(&mut session, &event("U1", None));
    assert_eq!(refusal(&reply), "Your already in the list silly!");
    handle_next(&mut session, OWNER, &event(OWNER, None));
    let reply = handle_add_me(&mut session, &event("U1", None));
    assert_eq!(refusal(&reply), "Your already in the list silly!");
    assert_eq!(session.participants, vec!["U1"]);
    assert!(session.waiting_pool.is_empty());
}

#[test]
fn every_command_needs_a_running_session() {
    let mut session = VotingSession::default();
    let reply = handle_add_me(&mut session, &event("U1", None));
    assert_eq!(refusal(&reply), "Nuh uh");
    let reply = handle_next(&mut session, OWNER, &event(OWNER, None));
    assert_eq!(refusal(&reply), "Nuh uh");
    let reply = vote(&mut session, "U1", "U2");
    assert_eq!(refusal(&reply), "Nuh uh");
    let reply = handle_current(&session, &event("U1", None));
    assert_eq!(refusal(&reply), "umm, nop");
    let reply = handle_stop(&mut session, OWNER, &event(OWNER, None));
    assert_eq!(refusal(&reply), "Nuh uh");
    assert!(session.participants.is_empty());
}

#[test]
fn only_the_owner_calls_the_next_one() {
    let mut session = with_participants(&["U1"]);
    let reply = handle_next(&mut session, OWNER, &event("U1", None));
    assert_eq!(refusal(&reply), "Nuh uh, only the YOUSAFE can use this");
    assert_eq!(session.waiting_pool, vec!["U1"]);
}

#[test]
fn the_chosen_one_stops_waiting_and_presents() {
    let mut session = with_participants(&["U1", "U2", "U3"]);
    let reply = present(&mut session, &event(OWNER, None), 1);
    assert_eq!(post(&reply), "Now time for <@U2> to show us their rice :yay: !");
    assert_eq!(session.current_candidate.as_deref(), Some("U2"));
    assert_eq!(session.waiting_pool, vec!["U1", "U3"]);
    assert_eq!(session.participants, vec!["U1", "U2", "U3"]);
}

#[test]
fn everyone_presents_once() {
    let users = ["U1", "U2", "U3", "U4", "U5"];
    let mut session = with_participants(&users);
    let mut seen = HashSet::new();
    for _ in users {
        let reply = handle_next(&mut session, OWNER, &event(OWNER, None));
        let user = session.current_candidate.clone().unwrap();
        assert_eq!(post(&reply), format!("Now time for <@{user}> to show us their rice :yay: !"));
        assert!(seen.insert(user));
    }
    assert_eq!(seen.len(), users.len());
    let last = session.current_candidate.clone();
    let reply = handle_next(&mut session, OWNER, &event(OWNER, None));
    assert_eq!(
        reply.refusal.as_deref(),
        Some("The participant pool is empty. :pensive-wobble:")
    );
    assert_eq!(
        reply.post.unwrap().text,
        "No more participants in the list! u can run `/stop` to show the results"
    );
    assert_eq!(session.current_candidate, last);
}

#[test]
fn a_vote_counts_for_the_one_mentioned() {
    let mut session = with_participants(&["U1", "U2"]);
    let reply = vote(&mut session, "U9", "U1|ann");
    assert_eq!(
        post(&reply),
        "looks like this rice impressed you! +1 point for them :happi:"
    );
    assert_eq!(session.votes.get("U1"), Some(&1));
    assert_eq!(session.votes.get("U2"), None);
    assert!(session.voted_users.contains("U9"));
    vote(&mut session, "U2", "U1");
    assert_eq!(session.votes.get("U1"), Some(&2));
    assert_eq!(session.voted_users.len(), 2);
}

#[test]
fn votes_are_refused_for_their_reasons() {
    let mut session = with_participants(&["U1", "U2"]);
    let format = "format error ? please vote that way `/vote @user`";
    assert_eq!(refusal(&handle_vote(&mut session, &event("U9", None))), format);
    assert_eq!(refusal(&handle_vote(&mut session, &event("U9", Some("U1")))), format);
    assert_eq!(
        refusal(&vote(&mut session, "U1", "U1")),
        "pfffff lmao what, what r u trying todo? u silly"
    );
    assert_eq!(
        refusal(&vote(&mut session, "U9", "U7")),
        "Huh ? the user is not in the list ??"
    );
    assert!(session.votes.is_empty());
    assert!(session.voted_users.is_empty());
    vote(&mut session, "U9", "U1");
    assert_eq!(
        refusal(&vote(&mut session, "U9", "U2")),
        "You can only vote for one person"
    );
    assert_eq!(
        refusal(&vote(&mut session, "U9", "U7")),
        "You can only vote for one person"
    );
    assert_eq!(
        refusal(&vote(&mut session, "U9", "U9")),
        "pfffff lmao what, what r u trying todo? u silly"
    );
    assert_eq!(session.votes.get("U1"), Some(&1));
    assert_eq!(session.votes.get("U2"), None);
}

#[test]
fn current_tells_who_presents() {
    let mut session = with_participants(&["U1"]);
    let reply = handle_current(&session, &event("U5", None));
    assert_eq!(
        post(&reply),
        "no one showing their rice ?? YOUSAFE must call `/next` to choose a participant"
    );
    handle_next(&mut session, OWNER, &event(OWNER, None));
    let reply = handle_current(&session, &event("U5", None));
    assert_eq!(post(&reply), "right now, <@U1> is showing us their rice :3");
}

#[test]
fn only_the_owner_stops() {
    let mut session = with_participants(&["U1"]);
    let reply = handle_stop(&mut session, OWNER, &event("U1", None));
    assert_eq!(refusal(&reply), "only YOUSAFE can stop this");
    assert!(session.is_active);
}

#[test]
fn stopping_announces_and_ends_the_session() {
    let mut session = with_participants(&["U1", "U2"]);
    vote(&mut session, "U9", "U2");
    let reply = handle_stop(&mut session, OWNER, &event(OWNER, None));
    assert_eq!(
        post(&reply),
        "*:ultrafastparrot: final voting Leaderboard scores !* \n\
         - <@U1>: *0*:upvote: votes\n\
         - <@U2>: *1*:upvote: votes\n\
         \n* ANNNNnnndddd congratulations to our winner <@U2> with 1 votes!* :yay:"
    );
    assert!(!session.is_active);
    assert_eq!(session.participants, vec!["U1", "U2"]);
    assert_eq!(refusal(&vote(&mut session, "U8", "U2")), "Nuh uh");
    assert_eq!(session.votes.get("U2"), Some(&1));
}
