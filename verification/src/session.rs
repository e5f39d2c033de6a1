//! A voting session: who takes part, who presents and who has voted for whom.

use vstd::hash_map::StringHashMap;
use vstd::hash_set::StringHashSet;
use vstd::prelude::*;
use crate::leaderboard::{announcement, final_announcement, score, score_of, tally};
use crate::mention::{mention, parse_slack_mention};
use crate::messages::{
    ALREADY_JOINED, ALREADY_VOTED, NOBODY_PRESENTS, NOT_A_PARTICIPANT, NOT_RUNNING,
    NOT_RUNNING_CURRENT, NO_MORE_PARTICIPANTS, ONLY_OWNER_NEXT, ONLY_OWNER_STARTS,
    ONLY_OWNER_STOPS, POOL_EMPTY, SELF_VOTE, STARTED, VOTE_COUNTED, VOTE_FORMAT,
};
use crate::text::{among, decimal, decimal_text, same_text, texts};

verus! {

/// The state of the voting.
pub struct VotingSession {
    /// Whether the session runs.
    pub is_active: bool,
    /// Everyone who has joined, in the order of joining, each once.
    pub participants: Vec<String>,
    /// Those who have joined and not presented yet.
    pub waiting_pool: Vec<String>,
    /// Who presents.
    pub current_candidate: Option<String>,
    /// How many votes each participant has; one without votes may be missing.
    pub votes: StringHashMap<usize>,
    /// Everyone who has voted.
    pub voted_users: StringHashSet,
}

/// What a `VotingSession` holds.
#[verifier::ext_equal]
pub struct Session {
    pub is_active: bool,
    pub participants: Seq<Seq<char>>,
    pub waiting_pool: Seq<Seq<char>>,
    pub current_candidate: Option<Seq<char>>,
    pub votes: Map<Seq<char>, nat>,
    pub voted_users: Set<Seq<char>>,
}

impl View for VotingSession {
    type V = Session;

    open spec fn view(&self) -> Session {
        Session {
            is_active: self.is_active,
            participants: texts(self.participants@),
            waiting_pool: texts(self.waiting_pool@),
            current_candidate: match self.current_candidate {
                Some(user) => Some(user@),
                None => None,
            },
            votes: tally(self.votes@),
            voted_users: self.voted_users@,
        }
    }
}

/// How many votes `users` have together.
pub open spec fn votes_together(users: Seq<Seq<char>>, votes: Map<Seq<char>, nat>) -> nat
    decreases users.len(),
{
    if users.len() == 0 {
        0
    } else {
        votes_together(users.drop_last(), votes) + score_of(votes, users.last())
    }
}

impl Session {
    /// A session that holds nothing.
    pub open spec fn empty(is_active: bool) -> Session {
        Session {
            is_active,
            participants: seq![],
            waiting_pool: seq![],
            current_candidate: None,
            votes: Map::empty(),
            voted_users: Set::empty(),
        }
    }

    /// What holds of every session: nobody joins or waits twice; only participants wait,
    /// present or have votes; who presents does not wait; and there are as many votes as voters.
    pub open spec fn well_formed(self) -> bool {
        &&& self.participants.no_duplicates()
        &&& self.waiting_pool.no_duplicates()
        &&& forall|u: Seq<char>| #[trigger]
            self.waiting_pool.contains(u) ==> self.participants.contains(u)
        &&& self.current_candidate matches Some(u) ==> self.participants.contains(u)
            && !self.waiting_pool.contains(u)
        &&& forall|u: Seq<char>| #[trigger]
            self.votes.contains_key(u) ==> self.participants.contains(u) && self.votes[u] > 0
        &&& self.voted_users.finite()
        &&& votes_together(self.participants, self.votes) == self.voted_users.len()
    }
}

impl Default for VotingSession {
    /// No session: not running and empty.
    fn default() -> (session: Self)
        ensures
            session@ == Session::empty(false),
            session@.well_formed(),
    {
        VotingSession {
            is_active: false,
            participants: Vec::new(),
            waiting_pool: Vec::new(),
            current_candidate: None,
            votes: StringHashMap::new(),
            voted_users: StringHashSet::new(),
        }
    }
}

/// A slash command as it comes in.
pub struct CommandEvent {
    /// Who has sent it.
    pub user_id: String,
    /// The channel that it was sent in.
    pub channel_id: String,
    /// What stands behind the command's name.
    pub text: Option<String>,
}

/// What a `CommandEvent` says; a command without a text has an empty one.
pub struct Command {
    pub user: Seq<char>,
    pub channel: Seq<char>,
    pub text: Seq<char>,
}

impl View for CommandEvent {
    type V = Command;

    open spec fn view(&self) -> Command {
        Command {
            user: self.user_id@,
            channel: self.channel_id@,
            text: match self.text {
                Some(text) => text@,
                None => seq![],
            },
        }
    }
}

/// A message for the thread of the showcase.
pub struct ThreadPost {
    /// The channel that the thread is in.
    pub channel: String,
    /// The message.
    pub text: String,
}

/// What a command leads to.
pub struct Reply {
    /// A refusal, shown to the sender only; without one the command is acknowledged.
    pub refusal: Option<String>,
    /// A message for the thread.
    pub post: Option<ThreadPost>,
}

/// What a `Reply` says; a post is a channel and a text.
pub struct Answer {
    pub refusal: Option<Seq<char>>,
    pub post: Option<(Seq<char>, Seq<char>)>,
}

impl View for Reply {
    type V = Answer;

    open spec fn view(&self) -> Answer {
        Answer {
            refusal: match self.refusal {
                Some(text) => Some(text@),
                None => None,
            },
            post: match self.post {
                Some(post) => Some((post.channel@, post.text@)),
                None => None,
            },
        }
    }
}

/// A refusal, with nothing for the thread.
pub open spec fn refused(text: Seq<char>) -> Answer {
    Answer { refusal: Some(text), post: None }
}

/// An acknowledgement, with a message for the thread.
pub open spec fn posted(channel: Seq<char>, text: Seq<char>) -> Answer {
    Answer { refusal: None, post: Some((channel, text)) }
}

fn refuse(text: &str) -> (reply: Reply)
    ensures
        reply@ == refused(text@),
{
    Reply { refusal: Some(text.to_owned()), post: None }
}

fn thread_post(event: &CommandEvent, text: String) -> (post: ThreadPost)
    ensures
        post.channel@ == event@.channel,
        post.text@ == text@,
{
    ThreadPost { channel: event.channel_id.clone(), text }
}

fn acknowledge(event: &CommandEvent, text: String) -> (reply: Reply)
    ensures
        reply@ == posted(event@.channel, text@),
{
    Reply { refusal: None, post: Some(thread_post(event, text)) }
}

/// `/start`: only the owner may; any session gives way to a new, empty one.
pub open spec fn after_start(s: Session, owner: Seq<char>, c: Command) -> (Session, Answer) {
    if c.user != owner {
        (s, refused(ONLY_OWNER_STARTS@))
    } else {
        (Session::empty(true), posted(c.channel, STARTED@))
    }
}

/// Handles `/start`.
pub fn handle_start(session: &mut VotingSession, owner: &str, event: &CommandEvent) -> (reply:
    Reply)
    requires
        old(session)@.well_formed(),
    ensures
        final(session)@.well_formed(),
        (final(session)@, reply@) == after_start(old(session)@, owner@, event@),
{
    if !same_text(event.user_id.as_str(), owner) {
        return refuse(ONLY_OWNER_STARTS);
    }
    *session = VotingSession { is_active: true, ..VotingSession::default() };
    acknowledge(event, STARTED.to_owned())
}

/// The announcement of a new participant, as one of `count`.
pub open spec fn joined_text(user: Seq<char>, count: nat) -> Seq<char> {
    ":wavey: <@"@ + user + "> joined the voting participant pool! now there is *"@ + decimal(count)
        + "* participants in the list"@
}

/// `/add_me`: while a session runs, anyone may join it once, and then waits to present.
pub open spec fn after_add_me(s: Session, c: Command) -> (Session, Answer) {
    if !s.is_active {
        (s, refused(NOT_RUNNING@))
    } else if s.participants.contains(c.user) {
        (s, refused(ALREADY_JOINED@))
    } else {
        (
            Session {
                participants: s.participants.push(c.user),
                waiting_pool: s.waiting_pool.push(c.user),
                ..s
            },
            posted(c.channel, joined_text(c.user, s.participants.len() + 1)),
        )
    }
}

/// Joining leaves the session in order.
pub proof fn lemma_add_me_keeps(s: Session, c: Command)
    requires
        s.well_formed(),
    ensures
        after_add_me(s, c).0.well_formed(),
{
    let t = after_add_me(s, c).0;
    if s.is_active && !s.participants.contains(c.user) {
        assert(!s.waiting_pool.contains(c.user));
        assert(!s.votes.contains_key(c.user));
        assert forall|u: Seq<char>|
            s.participants.contains(u) || u == c.user implies t.participants.contains(u) by {
            if u == c.user {
                assert(t.participants[s.participants.len() as int] == u);
            } else {
                assert(t.participants[s.participants.index_of(u)] == u);
            }
        }
        assert forall|u: Seq<char>| #[trigger] t.waiting_pool.contains(u) implies {
            s.waiting_pool.contains(u) || u == c.user
        } by {
            let k = t.waiting_pool.index_of(u);
            if k < s.waiting_pool.len() {
                assert(s.waiting_pool[k] == u);
            }
        }
        assert(t.participants.drop_last() == s.participants);
    }
}

/// Handles `/add_me`.
pub fn handle_add_me(session: &mut VotingSession, event: &CommandEvent) -> (reply: Reply)
    requires
        old(session)@.well_formed(),
    ensures
        final(session)@.well_formed(),
        (final(session)@, reply@) == after_add_me(old(session)@, event@),
{
    proof {
        lemma_add_me_keeps(session@, event@);
    }
    if !session.is_active {
        return refuse(NOT_RUNNING);
    }
    if among(&session.participants, event.user_id.as_str()) {
        return refuse(ALREADY_JOINED);
    }
    let ghost joined_before = session.participants@;
    let ghost waiting_before = session.waiting_pool@;
    session.participants.push(event.user_id.clone());
    session.waiting_pool.push(event.user_id.clone());
    proof {
        assert(texts(session.participants@) =~= texts(joined_before).push(event@.user));
        assert(texts(session.waiting_pool@) =~= texts(waiting_before).push(event@.user));
    }
    let mut msg = ":wavey: <@".to_owned();
    msg.append(event.user_id.as_str());
    msg.append("> joined the voting participant pool! now there is *");
    msg.append(decimal_text(session.participants.len() as u64).as_str());
    msg.append("* participants in the list");
    acknowledge(event, msg)
}

/// The announcement of who presents next.
pub open spec fn presenting_text(user: Seq<char>) -> Seq<char> {
    "Now time for <@"@ + user + "> to show us their rice :yay: !"@
}

/// The participant at `index` of those who wait stops waiting and presents.
pub open spec fn after_present(s: Session, c: Command, index: int) -> (Session, Answer) {
    (
        Session {
            waiting_pool: s.waiting_pool.remove(index),
            current_candidate: Some(s.waiting_pool[index]),
            ..s
        },
        posted(c.channel, presenting_text(s.waiting_pool[index])),
    )
}

/// `/next`, where `index` is the place among those who wait that chance has chosen: only the
/// owner may, while a session runs; once nobody waits, both the owner and the thread are told.
pub open spec fn after_next(s: Session, owner: Seq<char>, c: Command, index: int) -> (
    Session,
    Answer,
) {
    if c.user != owner {
        (s, refused(ONLY_OWNER_NEXT@))
    } else if !s.is_active {
        (s, refused(NOT_RUNNING@))
    } else if s.waiting_pool.len() == 0 {
        (
            s,
            Answer {
                refusal: Some(POOL_EMPTY@),
                post: Some((c.channel, NO_MORE_PARTICIPANTS@)),
            },
        )
    } else {
        after_present(s, c, index)
    }
}

/// Presenting leaves the session in order.
pub proof fn lemma_present_keeps(s: Session, c: Command, index: int)
    requires
        s.well_formed(),
        0 <= index < s.waiting_pool.len(),
    ensures
        after_present(s, c, index).0.well_formed(),
{
    let rest = s.waiting_pool.remove(index);
    assert forall|u: Seq<char>| #[trigger] rest.contains(u) implies s.waiting_pool.contains(u)
        && u != s.waiting_pool[index] by {
        let k = rest.index_of(u);
        let j = if k < index {
            k
        } else {
            k + 1
        };
        assert(s.waiting_pool[j] == u);
    }
    assert(s.waiting_pool.contains(s.waiting_pool[index]));
}

/// Lets the participant at `index` of those who wait present.
pub fn present(session: &mut VotingSession, event: &CommandEvent, index: usize) -> (reply: Reply)
    requires
        old(session)@.well_formed(),
        index < old(session)@.waiting_pool.len(),
    ensures
        final(session)@.well_formed(),
        (final(session)@, reply@) == after_present(old(session)@, event@, index as int),
{
    proof {
        lemma_present_keeps(session@, event@, index as int);
    }
    let ghost waiting_before = session.waiting_pool@;
    let chosen = session.waiting_pool.remove(index);
    assert(texts(session.waiting_pool@) =~= texts(waiting_before).remove(index as int));
    let mut msg = "Now time for <@".to_owned();
    msg.append(chosen.as_str());
    msg.append("> to show us their rice :yay: !");
    session.current_candidate = Some(chosen);
    acknowledge(event, msg)
}

/// Calls `rand::random_range` on the range of all numbers below `len`. It gives one of them; which
/// one is left to chance. It panics on an empty range, so `len` is not zero. (It panics too where
/// the system has no entropy to give, which no argument decides.)
#[verifier::external_body]
fn random_index(len: usize) -> (index: usize)
    requires
        len > 0,
    ensures
        index < len,
{
    rand::random_range(..len)
}

/// Handles `/next`: one of those who wait, whom chance chooses, presents.
pub fn handle_next(session: &mut VotingSession, owner: &str, event: &CommandEvent) -> (reply:
    Reply)
    requires
        old(session)@.well_formed(),
    ensures
        final(session)@.well_formed(),
        exists|index: int|
            (old(session)@.waiting_pool.len() > 0 ==> 0 <= index
                < old(session)@.waiting_pool.len()) && (final(session)@, reply@)
                == #[trigger] after_next(old(session)@, owner@, event@, index),
{
    let ghost s = session@;
    let ghost mut chosen: int = 0;
    let reply = if !same_text(event.user_id.as_str(), owner) {
        refuse(ONLY_OWNER_NEXT)
    } else if !session.is_active {
        refuse(NOT_RUNNING)
    } else if session.waiting_pool.len() == 0 {
        Reply {
            refusal: Some(POOL_EMPTY.to_owned()),
            post: Some(thread_post(event, NO_MORE_PARTICIPANTS.to_owned())),
        }
    } else {
        let index: usize = random_index(session.waiting_pool.len());
        proof {
            chosen = index as int;
        }
        present(session, event, index)
    };
    proof {
        assert((session@, reply@) == after_next(s, owner@, event@, chosen));
    }
    reply
}

/// `/vote`: while a session runs, each user may vote once, for a participant other than oneself.
pub open spec fn after_vote(s: Session, c: Command) -> (Session, Answer) {
    if !s.is_active {
        (s, refused(NOT_RUNNING@))
    } else {
        match mention(c.text) {
            None => (s, refused(VOTE_FORMAT@)),
            Some(target) => {
                if c.user == target {
                    (s, refused(SELF_VOTE@))
                } else if s.voted_users.contains(c.user) {
                    (s, refused(ALREADY_VOTED@))
                } else if !s.participants.contains(target) {
                    (s, refused(NOT_A_PARTICIPANT@))
                } else {
                    (
                        Session {
                            votes: s.votes.insert(target, score_of(s.votes, target) + 1),
                            voted_users: s.voted_users.insert(c.user),
                            ..s
                        },
                        posted(c.channel, VOTE_COUNTED@),
                    )
                }
            },
        }
    }
}

/// No participant has more votes than all have together.
pub proof fn lemma_score_within(
    users: Seq<Seq<char>>,
    votes: Map<Seq<char>, nat>,
    user: Seq<char>,
)
    requires
        users.contains(user),
    ensures
        score_of(votes, user) <= votes_together(users, votes),
    decreases users.len(),
{
    let k = users.index_of(user);
    if k < users.len() - 1 {
        assert(users.drop_last()[k] == user);
        lemma_score_within(users.drop_last(), votes, user);
    }
}

proof fn lemma_one_vote_more(users: Seq<Seq<char>>, votes: Map<Seq<char>, nat>, user: Seq<char>)
    requires
        users.no_duplicates(),
    ensures
        ({
            let more = votes.insert(user, score_of(votes, user) + 1);
            votes_together(users, more) == votes_together(users, votes) + (if users.contains(user) {
                1nat
            } else {
                0
            })
        }),
    decreases users.len(),
{
    if users.len() > 0 {
        let rest = users.drop_last();
        lemma_one_vote_more(rest, votes, user);
        if users.contains(user) && users.last() != user {
            assert(rest[users.index_of(user)] == user);
        }
        if rest.contains(user) {
            assert(users[rest.index_of(user)] == user);
        }
        if users.last() == user {
            assert(users[users.len() - 1] == user);
        }
    }
}

/// Voting leaves the session in order.
pub proof fn lemma_vote_keeps(s: Session, c: Command)
    requires
        s.well_formed(),
    ensures
        after_vote(s, c).0.well_formed(),
{
    if let Some(target) = mention(c.text) {
        lemma_one_vote_more(s.participants, s.votes, target);
    }
}

/// Handles `/vote`.
pub fn handle_vote(session: &mut VotingSession, event: &CommandEvent) -> (reply: Reply)
    requires
        old(session)@.well_formed(),
    ensures
        final(session)@.well_formed(),
        (final(session)@, reply@) == after_vote(old(session)@, event@),
{
    let ghost s = session@;
    proof {
        lemma_vote_keeps(s, event@);
    }
    if !session.is_active {
        return refuse(NOT_RUNNING);
    }
    let text = match &event.text {
        Some(text) => text.clone(),
        None => String::new(),
    };
    let target = match parse_slack_mention(text.as_str()) {
        Some(id) => id,
        None => {
            return refuse(VOTE_FORMAT);
        },
    };
    if same_text(event.user_id.as_str(), target.as_str()) {
        return refuse(SELF_VOTE);
    }
    if session.voted_users.contains(event.user_id.as_str()) {
        return refuse(ALREADY_VOTED);
    }
    if !among(&session.participants, target.as_str()) {
        return refuse(NOT_A_PARTICIPANT);
    }
    session.voted_users.insert(event.user_id.clone());
    let votes_before: usize = score(&session.votes, target.as_str());
    let voters: usize = session.voted_users.len();
    proof {
        lemma_score_within(s.participants, s.votes, target@);
        assert(votes_before < voters);
    }
    let ghost counts = session.votes@;
    session.votes.insert(target, votes_before + 1);
    proof {
        assert(tally(session.votes@) =~= tally(counts).insert(target@, votes_before as nat + 1));
    }
    acknowledge(event, VOTE_COUNTED.to_owned())
}

/// The answer to `/current`: who presents, if anyone does.
pub open spec fn current_text(current_candidate: Option<Seq<char>>) -> Seq<char> {
    match current_candidate {
        Some(user) => "right now, <@"@ + user + "> is showing us their rice :3"@,
        None => NOBODY_PRESENTS@,
    }
}

/// `/current`: while a session runs, the thread is told who presents.
pub open spec fn current_answer(s: Session, c: Command) -> Answer {
    if !s.is_active {
        refused(NOT_RUNNING_CURRENT@)
    } else {
        posted(c.channel, current_text(s.current_candidate))
    }
}

/// Handles `/current`.
pub fn handle_current(session: &VotingSession, event: &CommandEvent) -> (reply: Reply)
    ensures
        reply@ == current_answer(session@, event@),
{
    if !session.is_active {
        return refuse(NOT_RUNNING_CURRENT);
    }
    let text = match &session.current_candidate {
        Some(user) => {
            let mut text = "right now, <@".to_owned();
            text.append(user.as_str());
            text.append("> is showing us their rice :3");
            text
        },
        None => NOBODY_PRESENTS.to_owned(),
    };
    acknowledge(event, text)
}

/// `/stop`: only the owner may, while a session runs; the scores are announced and the session
/// runs no longer.
pub open spec fn after_stop(s: Session, owner: Seq<char>, c: Command) -> (Session, Answer) {
    if c.user != owner {
        (s, refused(ONLY_OWNER_STOPS@))
    } else if !s.is_active {
        (s, refused(NOT_RUNNING@))
    } else {
        (
            Session { is_active: false, ..s },
            posted(c.channel, announcement(s.participants, s.votes)),
        )
    }
}

/// Handles `/stop`; the leaderboard lists the participants in the order of joining.
pub fn handle_stop(session: &mut VotingSession, owner: &str, event: &CommandEvent) -> (reply: Reply)
    requires
        old(session)@.well_formed(),
    ensures
        final(session)@.well_formed(),
        (final(session)@, reply@) == after_stop(old(session)@, owner@, event@),
{
    if !same_text(event.user_id.as_str(), owner) {
        return refuse(ONLY_OWNER_STOPS);
    }
    if !session.is_active {
        return refuse(NOT_RUNNING);
    }
    let text = final_announcement(&session.participants, &session.votes);
    session.is_active = false;
    acknowledge(event, text)
}

} // verus!
