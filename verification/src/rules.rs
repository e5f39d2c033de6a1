//! What each command of a voting does, for every session and every sender.

use vstd::prelude::*;
use crate::history::{
    after, lemma_everyone_presents_once, lemma_run_follows, possible_run, presented, run, starts,
    Step,
};
use crate::leaderboard::{announcement, score_of};
use crate::mention::mention;
use crate::messages::{
    ALREADY_JOINED, ALREADY_VOTED, NOBODY_PRESENTS, NOT_A_PARTICIPANT, NOT_RUNNING,
    NOT_RUNNING_CURRENT, NO_MORE_PARTICIPANTS, ONLY_OWNER_NEXT, ONLY_OWNER_STARTS,
    ONLY_OWNER_STOPS, POOL_EMPTY, SELF_VOTE, STARTED, VOTE_COUNTED, VOTE_FORMAT,
};
use crate::session::{
    after_add_me, after_next, after_start, after_stop, after_vote, current_answer, Command,
    CommandEvent, Reply, Session, VotingSession,
};
use crate::text::decimal;

verus! {

/// A session is seen as it is: every user of each list, in order, every count and every voter.
pub proof fn lemma_session_is_seen_whole(v: VotingSession)
    ensures
        v@.is_active == v.is_active,
        v@.participants.len() == v.participants@.len(),
        forall|i: int|
            0 <= i < v.participants@.len() ==> (#[trigger] v@.participants[i])
                == v.participants@[i]@,
        v@.waiting_pool.len() == v.waiting_pool@.len(),
        forall|i: int|
            0 <= i < v.waiting_pool@.len() ==> (#[trigger] v@.waiting_pool[i])
                == v.waiting_pool@[i]@,
        v.current_candidate is None ==> v@.current_candidate is None,
        v.current_candidate matches Some(u) ==> v@.current_candidate == Some(u@),
        forall|u: Seq<char>| #[trigger]
            v@.votes.contains_key(u) <==> v.votes@.contains_key(u),
        forall|u: Seq<char>|
            v.votes@.contains_key(u) ==> #[trigger] v@.votes[u] == v.votes@[u],
        forall|u: Seq<char>| #[trigger]
            v@.voted_users.contains(u) <==> v.voted_users@.contains(u),
{
}

/// A command is seen as it is: its sender, its channel and its text, which is empty if there is
/// none.
pub proof fn lemma_command_is_seen_whole(e: CommandEvent)
    ensures
        e@.user == e.user_id@,
        e@.channel == e.channel_id@,
        e.text matches Some(text) ==> e@.text == text@,
        e.text is None ==> e@.text.len() == 0,
{
}

/// A reply is seen as it is: whether it refuses and with which words, and what goes to which
/// channel.
pub proof fn lemma_reply_is_seen_whole(r: Reply)
    ensures
        r.refusal is None <==> r@.refusal is None,
        r.refusal matches Some(text) ==> r@.refusal == Some(text@),
        r.post is None <==> r@.post is None,
        r.post matches Some(post) ==> r@.post == Some((post.channel@, post.text@)),
{
}

/// The owner's `/start` is never refused, and what came before plays no part in what comes after:
/// the session runs, and nobody has joined, waits, presents, has votes or has voted.
pub proof fn lemma_start_begins_anew(s: Session, owner: Seq<char>, c: Command)
    requires
        c.user == owner,
    ensures
        ({
            let (t, answer) = after_start(s, owner, c);
            &&& t.is_active
            &&& t.participants.len() == 0
            &&& t.waiting_pool.len() == 0
            &&& t.current_candidate is None
            &&& forall|u: Seq<char>| !t.votes.contains_key(u)
            &&& forall|u: Seq<char>| !t.voted_users.contains(u)
            &&& answer.refusal is None
            &&& answer.post == Some((c.channel, STARTED@))
        }),
{
}

/// What is refused to others than the owner is refused with the words for it.
pub proof fn lemma_words_for_others(s: Session, owner: Seq<char>, c: Command, index: int)
    requires
        c.user != owner,
    ensures
        after_start(s, owner, c).1.refusal == Some(ONLY_OWNER_STARTS@),
        after_next(s, owner, c, index).1.refusal == Some(ONLY_OWNER_NEXT@),
        after_stop(s, owner, c).1.refusal == Some(ONLY_OWNER_STOPS@),
{
}

/// A user joins exactly if a session runs that the user has not joined, whatever else has happened
/// in it: the user comes last among the participants and among those who wait, everything else
/// stays, and the announcement counts everyone who has joined.
pub proof fn lemma_joining(s: Session, c: Command)
    ensures
        ({
            let (t, answer) = after_add_me(s, c);
            &&& answer.refusal is None <==> s.is_active && !s.participants.contains(c.user)
            &&& !s.is_active ==> answer.refusal == Some(NOT_RUNNING@)
            &&& s.is_active && s.participants.contains(c.user) ==> answer.refusal == Some(
                ALREADY_JOINED@,
            )
            &&& answer.refusal is None ==> {
                &&& t.participants.len() == s.participants.len() + 1
                &&& t.participants.drop_last() == s.participants
                &&& t.participants.last() == c.user
                &&& t.waiting_pool.len() == s.waiting_pool.len() + 1
                &&& t.waiting_pool.drop_last() == s.waiting_pool
                &&& t.waiting_pool.last() == c.user
                &&& t.is_active
                &&& t.current_candidate == s.current_candidate
                &&& t.votes == s.votes
                &&& t.voted_users == s.voted_users
                &&& answer.post == Some(
                    (
                        c.channel,
                        ":wavey: <@"@ + c.user
                            + "> joined the voting participant pool! now there is *"@ + decimal(
                            t.participants.len(),
                        ) + "* participants in the list"@,
                    ),
                )
            }
        }),
{
}

/// The owner's `/next` is accepted exactly if a session runs and somebody waits, whatever votes
/// have been cast: one of those who wait presents and waits no longer, the others wait on in their
/// order, and everything else stays.
pub proof fn lemma_calling_the_next(s: Session, owner: Seq<char>, c: Command, index: int)
    requires
        c.user == owner,
        s.waiting_pool.len() > 0 ==> 0 <= index < s.waiting_pool.len(),
    ensures
        ({
            let (t, answer) = after_next(s, owner, c, index);
            &&& answer.refusal is None <==> s.is_active && s.waiting_pool.len() > 0
            &&& !s.is_active ==> answer.refusal == Some(NOT_RUNNING@) && answer.post is None
            &&& s.is_active && s.waiting_pool.len() == 0 ==> answer.refusal == Some(POOL_EMPTY@)
                && answer.post == Some((c.channel, NO_MORE_PARTICIPANTS@))
            &&& answer.refusal is None ==> {
                let chosen = s.waiting_pool[index];
                &&& t.current_candidate == Some(chosen)
                &&& t.waiting_pool.len() == s.waiting_pool.len() - 1
                &&& t.waiting_pool.insert(index, chosen) == s.waiting_pool
                &&& t.is_active
                &&& t.participants == s.participants
                &&& t.votes == s.votes
                &&& t.voted_users == s.voted_users
                &&& answer.post == Some(
                    (c.channel, "Now time for <@"@ + chosen + "> to show us their rice :yay: !"@),
                )
            }
        }),
{
    if s.is_active && s.waiting_pool.len() > 0 {
        let t = after_next(s, owner, c, index).0;
        assert(t.waiting_pool.insert(index, s.waiting_pool[index]) =~= s.waiting_pool);
    }
}

/// A vote is counted exactly if a session runs, the text mentions a participant other than the
/// sender, and the sender has not voted yet; whether that participant waits, presents or has
/// presented plays no part.
pub proof fn lemma_vote_is_counted_exactly(s: Session, c: Command)
    ensures
        after_vote(s, c).1.refusal is None <==> {
            &&& s.is_active
            &&& exists|target: Seq<char>|
                mention(c.text) == Some(target) && target != c.user
                    && #[trigger] s.participants.contains(target)
            &&& !s.voted_users.contains(c.user)
        },
{
}

/// A counted vote makes the sender a voter, and touches nobody's place in the session.
pub proof fn lemma_counted_vote_makes_a_voter(s: Session, c: Command)
    requires
        after_vote(s, c).1.refusal is None,
    ensures
        ({
            let (t, answer) = after_vote(s, c);
            &&& forall|u: Seq<char>| #[trigger]
                t.voted_users.contains(u) <==> s.voted_users.contains(u) || u == c.user
            &&& t.is_active
            &&& t.participants == s.participants
            &&& t.waiting_pool == s.waiting_pool
            &&& t.current_candidate == s.current_candidate
            &&& answer.post == Some((c.channel, VOTE_COUNTED@))
        }),
{
}

/// Why a vote is not counted: the first reason that holds is given.
pub proof fn lemma_words_for_a_vote(s: Session, c: Command)
    ensures
        ({
            let refusal = after_vote(s, c).1.refusal;
            &&& !s.is_active ==> refusal == Some(NOT_RUNNING@)
            &&& s.is_active && mention(c.text) is None ==> refusal == Some(VOTE_FORMAT@)
            &&& s.is_active && mention(c.text) == Some(c.user) ==> refusal == Some(SELF_VOTE@)
            &&& s.is_active && mention(c.text) is Some && mention(c.text) != Some(c.user) ==> {
                &&& s.voted_users.contains(c.user) ==> refusal == Some(ALREADY_VOTED@)
                &&& !s.voted_users.contains(c.user) && !s.participants.contains(
                    mention(c.text)->0,
                ) ==> refusal == Some(NOT_A_PARTICIPANT@)
            }
        }),
{
}

/// `/current` is answered to anyone exactly while a session runs, with the one who presents, or
/// that nobody does.
pub proof fn lemma_current_tells_who_presents(s: Session, c: Command)
    ensures
        ({
            let answer = current_answer(s, c);
            &&& answer.refusal is None <==> s.is_active
            &&& !s.is_active ==> answer.refusal == Some(NOT_RUNNING_CURRENT@)
            &&& s.is_active && s.current_candidate is None ==> answer.post == Some(
                (c.channel, NOBODY_PRESENTS@),
            )
            &&& s.is_active && s.current_candidate is Some ==> answer.post == Some(
                (
                    c.channel,
                    "right now, <@"@ + s.current_candidate->0 + "> is showing us their rice :3"@,
                ),
            )
        }),
{
}

/// However a voting goes, `/current` names whom the last successful `/next` since the start has
/// chosen, and says that nobody presents exactly if there was none; how many still wait, and who
/// has voted, plays no part.
pub proof fn lemma_current_names_the_last_called(owner: Seq<char>, steps: Seq<Step>, c: Command)
    requires
        possible_run(Session::empty(false), owner, steps),
        run(Session::empty(false), owner, steps).is_active,
    ensures
        ({
            let done = presented(Session::empty(false), owner, steps);
            let answer = current_answer(run(Session::empty(false), owner, steps), c);
            &&& done.len() == 0 ==> answer.post == Some((c.channel, NOBODY_PRESENTS@))
            &&& done.len() > 0 ==> answer.post == Some(
                (c.channel, "right now, <@"@ + done.last() + "> is showing us their rice :3"@),
            )
        }),
{
    lemma_everyone_presents_once(owner, steps);
}

/// The owner's `/stop` is accepted exactly while a session runs, whatever has happened in it: the
/// scores of everyone who has joined are announced, the session runs no longer, and all that it
/// holds stays.
pub proof fn lemma_stopping(s: Session, owner: Seq<char>, c: Command)
    requires
        c.user == owner,
    ensures
        ({
            let (t, answer) = after_stop(s, owner, c);
            &&& answer.refusal is None <==> s.is_active
            &&& !s.is_active ==> answer.refusal == Some(NOT_RUNNING@)
            &&& s.is_active ==> answer.post == Some(
                (c.channel, announcement(s.participants, s.votes)),
            )
            &&& !t.is_active
            &&& t.participants == s.participants
            &&& t.waiting_pool == s.waiting_pool
            &&& t.current_candidate == s.current_candidate
            &&& t.votes == s.votes
            &&& t.voted_users == s.voted_users
        }),
{
}

/// Who has joined can be voted for as long as the session runs, however many commands come
/// between: before presenting, while presenting and afterwards.
pub proof fn lemma_participants_can_be_voted_for(
    s: Session,
    owner: Seq<char>,
    join: Command,
    between: Seq<Step>,
    vote: Command,
)
    requires
        s.is_active,
        possible_run(after_add_me(s, join).0, owner, between),
        forall|i: int| 0 <= i < between.len() ==> !starts(owner, #[trigger] between[i]),
        run(after_add_me(s, join).0, owner, between).is_active,
        !run(after_add_me(s, join).0, owner, between).voted_users.contains(vote.user),
        mention(vote.text) == Some(join.user),
        vote.user != join.user,
    ensures
        after_vote(run(after_add_me(s, join).0, owner, between), vote).1.refusal is None,
{
    let j = after_add_me(s, join).0;
    let t = run(j, owner, between);
    lemma_run_follows(j, owner, between);
    assert(j.participants.contains(join.user)) by {
        if !s.participants.contains(join.user) {
            assert(j.participants[s.participants.len() as int] == join.user);
        }
    }
    let k = j.participants.index_of(join.user);
    assert(t.participants[k] == join.user);
    lemma_vote_is_counted_exactly(t, vote);
}

/// How many votes for `user` were accepted in a run since the last start.
pub open spec fn votes_cast(
    s: Session,
    owner: Seq<char>,
    steps: Seq<Step>,
    user: Seq<char>,
) -> nat
    decreases steps.len(),
{
    if steps.len() == 0 {
        0
    } else {
        let earlier = steps.drop_last();
        match steps.last() {
            Step::Start(c) if c.user == owner => 0,
            Step::Vote(c) if mention(c.text) == Some(user) && after(
                run(s, owner, earlier),
                owner,
                steps.last(),
            ).1.refusal is None => votes_cast(s, owner, earlier, user) + 1,
            _ => votes_cast(s, owner, earlier, user),
        }
    }
}

/// However a voting goes, a user has exactly as many votes as were accepted for that user since the
/// last start.
pub proof fn lemma_scores_are_the_votes_cast(
    owner: Seq<char>,
    steps: Seq<Step>,
    user: Seq<char>,
)
    ensures
        score_of(run(Session::empty(false), owner, steps).votes, user) == votes_cast(
            Session::empty(false),
            owner,
            steps,
            user,
        ),
    decreases steps.len(),
{
    if steps.len() > 0 {
        lemma_scores_are_the_votes_cast(owner, steps.drop_last(), user);
    }
}

/// Whether a vote of `user` was accepted in a run since the last start.
pub open spec fn cast_a_vote(
    s: Session,
    owner: Seq<char>,
    steps: Seq<Step>,
    user: Seq<char>,
) -> bool
    decreases steps.len(),
{
    steps.len() > 0 && {
        let earlier = steps.drop_last();
        match steps.last() {
            Step::Start(c) if c.user == owner => false,
            Step::Vote(c) if c.user == user && after(
                run(s, owner, earlier),
                owner,
                steps.last(),
            ).1.refusal is None => true,
            _ => cast_a_vote(s, owner, earlier, user),
        }
    }
}

/// Whether an `/add_me` of `user` was accepted in a run since the last start.
pub open spec fn was_added(
    s: Session,
    owner: Seq<char>,
    steps: Seq<Step>,
    user: Seq<char>,
) -> bool
    decreases steps.len(),
{
    steps.len() > 0 && {
        let earlier = steps.drop_last();
        match steps.last() {
            Step::Start(c) if c.user == owner => false,
            Step::AddMe(c) if c.user == user && after(
                run(s, owner, earlier),
                owner,
                steps.last(),
            ).1.refusal is None => true,
            _ => was_added(s, owner, earlier, user),
        }
    }
}

/// However a voting goes, the voters are exactly those whose vote was accepted since the last
/// start, and the participants exactly those whose `/add_me` was.
pub proof fn lemma_members_come_from_commands(
    owner: Seq<char>,
    steps: Seq<Step>,
    user: Seq<char>,
)
    ensures
        ({
            let s = Session::empty(false);
            let t = run(s, owner, steps);
            &&& t.voted_users.contains(user) <==> cast_a_vote(s, owner, steps, user)
            &&& t.participants.contains(user) <==> was_added(s, owner, steps, user)
        }),
    decreases steps.len(),
{
    if steps.len() > 0 {
        let earlier = steps.drop_last();
        lemma_members_come_from_commands(owner, earlier, user);
        if !starts(owner, steps.last()) {
            lemma_last_step_members(
                run(Session::empty(false), owner, earlier),
                owner,
                steps.last(),
                user,
            );
        }
    }
}

proof fn lemma_last_step_members(m: Session, owner: Seq<char>, step: Step, user: Seq<char>)
    requires
        !starts(owner, step),
    ensures
        ({
            let (t, answer) = after(m, owner, step);
            &&& t.voted_users.contains(user) <==> m.voted_users.contains(user) || (step matches
                Step::Vote(c) && c.user == user && answer.refusal is None)
            &&& t.participants.contains(user) <==> m.participants.contains(user) || (step matches
                Step::AddMe(c) && c.user == user && answer.refusal is None)
        }),
{
    if let Step::AddMe(c) = step {
        if m.is_active && !m.participants.contains(c.user) {
            let t = after(m, owner, step).0;
            if m.participants.contains(user) {
                assert(t.participants[m.participants.index_of(user)] == user);
            }
            if user == c.user {
                assert(t.participants[m.participants.len() as int] == user);
            }
            if t.participants.contains(user) {
                let k = t.participants.index_of(user);
                if k < m.participants.len() {
                    assert(m.participants[k] == user);
                }
            }
        }
    }
}

} // verus!
