//! What holds of a voting over any run of commands.

use vstd::prelude::*;
use crate::leaderboard::{lemma_a_vote_makes_a_winner, score_of, winners};
use crate::mention::mention;
use crate::session::{
    after_add_me, after_next, after_start, after_stop, after_vote, current_answer,
    lemma_add_me_keeps, lemma_present_keeps, lemma_score_within, lemma_vote_keeps, votes_together,
    Answer, Command, Session,
};

verus! {

/// One command of a run; `/next` comes with the place that chance has chosen.
pub enum Step {
    Start(Command),
    AddMe(Command),
    Next(Command, int),
    Vote(Command),
    Current(Command),
    Stop(Command),
}

/// The command of a step.
pub open spec fn command_of(step: Step) -> Command {
    match step {
        Step::Start(c) => c,
        Step::AddMe(c) => c,
        Step::Next(c, _) => c,
        Step::Vote(c) => c,
        Step::Current(c) => c,
        Step::Stop(c) => c,
    }
}

/// Whether chance has chosen one of those who wait, where there is a choice.
pub open spec fn possible(s: Session, step: Step) -> bool {
    step matches Step::Next(_, index) ==> (s.waiting_pool.len() > 0 ==> 0 <= index
        < s.waiting_pool.len())
}

/// What one command leads to.
pub open spec fn after(s: Session, owner: Seq<char>, step: Step) -> (Session, Answer) {
    match step {
        Step::Start(c) => after_start(s, owner, c),
        Step::AddMe(c) => after_add_me(s, c),
        Step::Next(c, index) => after_next(s, owner, c, index),
        Step::Vote(c) => after_vote(s, c),
        Step::Current(c) => (s, current_answer(s, c)),
        Step::Stop(c) => after_stop(s, owner, c),
    }
}

/// The session after all commands of a run.
pub open spec fn run(s: Session, owner: Seq<char>, steps: Seq<Step>) -> Session
    decreases steps.len(),
{
    if steps.len() == 0 {
        s
    } else {
        after(run(s, owner, steps.drop_last()), owner, steps.last()).0
    }
}

/// Whether every choice of chance in a run was possible when it was made.
pub open spec fn possible_run(s: Session, owner: Seq<char>, steps: Seq<Step>) -> bool
    decreases steps.len(),
{
    steps.len() > 0 ==> {
        &&& possible_run(s, owner, steps.drop_last())
        &&& possible(run(s, owner, steps.drop_last()), steps.last())
    }
}

/// Whether a command starts a new session.
pub open spec fn starts(owner: Seq<char>, step: Step) -> bool {
    step matches Step::Start(c) && c.user == owner
}

/// A command leaves a session in order, whatever it is.
pub proof fn lemma_step_keeps(s: Session, owner: Seq<char>, step: Step)
    requires
        s.well_formed(),
        possible(s, step),
    ensures
        after(s, owner, step).0.well_formed(),
{
    match step {
        Step::AddMe(c) => {
            lemma_add_me_keeps(s, c);
        },
        Step::Next(c, index) => {
            if s.waiting_pool.len() > 0 {
                lemma_present_keeps(s, c, index);
            }
        },
        Step::Vote(c) => {
            lemma_vote_keeps(s, c);
        },
        _ => {},
    }
}

/// However a voting goes, the session stays in order.
pub proof fn lemma_run_keeps(s: Session, owner: Seq<char>, steps: Seq<Step>)
    requires
        s.well_formed(),
        possible_run(s, owner, steps),
    ensures
        run(s, owner, steps).well_formed(),
    decreases steps.len(),
{
    if steps.len() > 0 {
        lemma_run_keeps(s, owner, steps.drop_last());
        lemma_step_keeps(run(s, owner, steps.drop_last()), owner, steps.last());
    }
}

/// A refused command changes nothing, and the thread hears of it only where nobody is left to
/// present.
pub proof fn lemma_refused_changes_nothing(s: Session, owner: Seq<char>, step: Step)
    requires
        after(s, owner, step).1.refusal is Some,
    ensures
        after(s, owner, step).0 == s,
        after(s, owner, step).1.post is Some ==> step is Next && s.is_active
            && s.waiting_pool.len() == 0,
{
}

/// A command that is not refused is announced in the channel that it came from.
pub proof fn lemma_accepted_is_announced(s: Session, owner: Seq<char>, step: Step)
    requires
        after(s, owner, step).1.refusal is None,
    ensures
        after(s, owner, step).1.post matches Some((channel, _)) && channel == command_of(
            step,
        ).channel,
{
}

/// Without the owner nobody starts or stops a session or calls the next participant.
pub proof fn lemma_only_the_owner(s: Session, owner: Seq<char>, step: Step)
    requires
        step is Start || step is Next || step is Stop,
        command_of(step).user != owner,
    ensures
        after(s, owner, step).1.refusal is Some,
        after(s, owner, step).1.post is None,
        after(s, owner, step).0 == s,
{
}

/// While no session runs, every command but the owner's `/start` is refused, and the thread hears
/// nothing of it.
pub proof fn lemma_nothing_without_a_session(s: Session, owner: Seq<char>, step: Step)
    requires
        !s.is_active,
        !starts(owner, step),
    ensures
        after(s, owner, step).1.refusal is Some,
        after(s, owner, step).1.post is None,
        after(s, owner, step).0 == s,
{
}

/// Whether `t` can come after `s` within one session: who has joined or voted stays, votes are
/// not lost, and nobody comes back to wait.
pub open spec fn follows(s: Session, t: Session) -> bool {
    &&& s.participants.is_prefix_of(t.participants)
    &&& s.voted_users.subset_of(t.voted_users)
    &&& forall|u: Seq<char>| #[trigger] score_of(s.votes, u) <= score_of(t.votes, u)
    &&& forall|u: Seq<char>|
        s.participants.contains(u) && #[trigger] t.waiting_pool.contains(u)
            ==> s.waiting_pool.contains(u)
}

proof fn lemma_step_follows(s: Session, owner: Seq<char>, step: Step)
    requires
        possible(s, step),
        !starts(owner, step),
    ensures
        follows(s, after(s, owner, step).0),
{
    let t = after(s, owner, step).0;
    match step {
        Step::AddMe(c) => {
            assert forall|u: Seq<char>|
                s.participants.contains(u) && #[trigger] t.waiting_pool.contains(
                    u,
                ) implies s.waiting_pool.contains(u) by {
                let k = t.waiting_pool.index_of(u);
                if k < s.waiting_pool.len() {
                    assert(s.waiting_pool[k] == u);
                }
            }
        },
        Step::Next(_, index) => {
            assert forall|u: Seq<char>| #[trigger]
                t.waiting_pool.contains(u) implies s.waiting_pool.contains(u) by {
                let k = t.waiting_pool.index_of(u);
                if t.waiting_pool != s.waiting_pool {
                    let j = if k < index {
                        k
                    } else {
                        k + 1
                    };
                    assert(s.waiting_pool[j] == u);
                }
            }
        },
        _ => {},
    }
}

/// Until the next start a session only grows: nobody leaves, no vote is lost, and nobody who has
/// presented waits again.
pub proof fn lemma_run_follows(s: Session, owner: Seq<char>, steps: Seq<Step>)
    requires
        possible_run(s, owner, steps),
        forall|i: int| 0 <= i < steps.len() ==> !starts(owner, #[trigger] steps[i]),
    ensures
        follows(s, run(s, owner, steps)),
    decreases steps.len(),
{
    if steps.len() > 0 {
        let before = steps.drop_last();
        assert forall|i: int| 0 <= i < before.len() implies !starts(
            owner,
            #[trigger] before[i],
        ) by {
            assert(before[i] == steps[i]);
        }
        lemma_run_follows(s, owner, before);
        let m = run(s, owner, before);
        let t = run(s, owner, steps);
        lemma_step_follows(m, owner, steps.last());
        assert forall|u: Seq<char>| s.participants.contains(u) implies m.participants.contains(
            u,
        ) by {
            assert(m.participants[s.participants.index_of(u)] == u);
        }
        assert forall|u: Seq<char>| #[trigger] score_of(s.votes, u) <= score_of(t.votes, u) by {
            assert(score_of(s.votes, u) <= score_of(m.votes, u));
            assert(score_of(m.votes, u) <= score_of(t.votes, u));
        }
    }
}

/// Nobody votes twice in one session: once a vote is counted, every further vote of that user is
/// refused, however many commands come between.
pub proof fn lemma_one_vote_each(
    s: Session,
    owner: Seq<char>,
    first: Command,
    between: Seq<Step>,
    second: Command,
)
    requires
        after_vote(s, first).1.refusal is None,
        second.user == first.user,
        possible_run(after_vote(s, first).0, owner, between),
        forall|i: int| 0 <= i < between.len() ==> !starts(owner, #[trigger] between[i]),
    ensures
        ({
            let t = run(after_vote(s, first).0, owner, between);
            after_vote(t, second).1.refusal is Some && after_vote(t, second).0 == t
        }),
{
    lemma_run_follows(after_vote(s, first).0, owner, between);
    assert(after_vote(s, first).0.voted_users.contains(first.user));
}

/// Nobody joins twice in one session: once a user has joined, every further `/add_me` of that user
/// is refused, however many commands come between.
pub proof fn lemma_joins_once(
    s: Session,
    owner: Seq<char>,
    first: Command,
    between: Seq<Step>,
    second: Command,
)
    requires
        after_add_me(s, first).1.refusal is None,
        second.user == first.user,
        possible_run(after_add_me(s, first).0, owner, between),
        forall|i: int| 0 <= i < between.len() ==> !starts(owner, #[trigger] between[i]),
    ensures
        ({
            let t = run(after_add_me(s, first).0, owner, between);
            after_add_me(t, second).1.refusal is Some && after_add_me(t, second).0 == t
        }),
{
    let j = after_add_me(s, first).0;
    lemma_run_follows(j, owner, between);
    let t = run(j, owner, between);
    assert(j.participants[s.participants.len() as int] == first.user);
    assert(t.participants[s.participants.len() as int] == first.user);
}

/// A counted vote gives the mentioned participant one vote more and nobody else any, and who has
/// cast it is not the one who gets it.
pub proof fn lemma_vote_counts_for_its_target(s: Session, c: Command, user: Seq<char>)
    requires
        after_vote(s, c).1.refusal is None,
    ensures
        mention(c.text) is Some,
        score_of(after_vote(s, c).0.votes, user) == score_of(s.votes, user) + (if mention(c.text)
            == Some(user) {
            1nat
        } else {
            0
        }),
        mention(c.text) != Some(c.user),
{
}

proof fn lemma_somebody_has_a_vote(users: Seq<Seq<char>>, votes: Map<Seq<char>, nat>)
    requires
        votes_together(users, votes) > 0,
    ensures
        exists|i: int| 0 <= i < users.len() && score_of(votes, #[trigger] users[i]) > 0,
    decreases users.len(),
{
    let last = users.len() - 1;
    if score_of(votes, users.last()) > 0 {
        assert(score_of(votes, users[last]) > 0);
    } else {
        let rest = users.drop_last();
        lemma_somebody_has_a_vote(rest, votes);
        let i = choose|i: int| 0 <= i < rest.len() && score_of(votes, #[trigger] rest[i]) > 0;
        assert(users[i] == rest[i]);
    }
}

/// A session has a winner exactly if somebody has voted in it.
pub proof fn lemma_a_voter_makes_a_winner(s: Session)
    requires
        s.well_formed(),
    ensures
        winners(s.participants, s.votes).len() > 0 <==> s.voted_users.len() > 0,
{
    lemma_a_vote_makes_a_winner(s.participants, s.votes);
    if s.voted_users.len() > 0 {
        lemma_somebody_has_a_vote(s.participants, s.votes);
    }
    if winners(s.participants, s.votes).len() > 0 {
        let i = choose|i: int|
            0 <= i < s.participants.len() && score_of(s.votes, #[trigger] s.participants[i]) > 0;
        lemma_score_within(s.participants, s.votes, s.participants[i]);
    }
}

/// Who has presented since the last start of a session, in order.
pub open spec fn presented(s: Session, owner: Seq<char>, steps: Seq<Step>) -> Seq<Seq<char>>
    decreases steps.len(),
{
    if steps.len() == 0 {
        seq![]
    } else {
        let so_far = presented(s, owner, steps.drop_last());
        let before = run(s, owner, steps.drop_last());
        match steps.last() {
            Step::Start(c) if c.user == owner => seq![],
            Step::Next(c, index) if after_next(before, owner, c, index).1.refusal is None => {
                so_far.push(before.waiting_pool[index])
            },
            _ => so_far,
        }
    }
}

/// Everyone gets to present exactly once: at any time each participant has either presented, and
/// that once, or still waits.
pub proof fn lemma_everyone_presents_once(owner: Seq<char>, steps: Seq<Step>)
    requires
        possible_run(Session::empty(false), owner, steps),
    ensures
        ({
            let t = run(Session::empty(false), owner, steps);
            let done = presented(Session::empty(false), owner, steps);
            &&& (done + t.waiting_pool).no_duplicates()
            &&& forall|u: Seq<char>| #[trigger]
                t.participants.contains(u) <==> done.contains(u) || t.waiting_pool.contains(u)
            &&& t.current_candidate == if done.len() == 0 {
                None
            } else {
                Some(done.last())
            }
        }),
    decreases steps.len(),
{
    let s = Session::empty(false);
    if steps.len() > 0 {
        let before = steps.drop_last();
        lemma_everyone_presents_once(owner, before);
        let m = run(s, owner, before);
        let t = run(s, owner, steps);
        let done_before = presented(s, owner, before);
        let done = presented(s, owner, steps);
        let all_before = done_before + m.waiting_pool;
        let all = done + t.waiting_pool;
        match steps.last() {
            Step::AddMe(c) if after_add_me(m, c).1.refusal is None => {
                assert(all == all_before.push(c.user));
                assert(!all_before.contains(c.user)) by {
                    if all_before.contains(c.user) {
                        let k = all_before.index_of(c.user);
                        if k < done_before.len() {
                            assert(done_before[k] == c.user);
                        } else {
                            assert(m.waiting_pool[k - done_before.len()] == c.user);
                        }
                    }
                }
                assert forall|u: Seq<char>| #[trigger]
                    t.participants.contains(u) <==> done.contains(u) || t.waiting_pool.contains(
                        u,
                    ) by {
                    lemma_push_contains(m.participants, c.user, u);
                    lemma_push_contains(m.waiting_pool, c.user, u);
                }
            },
            Step::Next(c, index) if after_next(m, owner, c, index).1.refusal is None => {
                let chosen = m.waiting_pool[index];
                let n = done_before.len() as int;
                assert forall|i: int, j: int|
                    0 <= i < all.len() && 0 <= j < all.len() && i != j implies all[i] != all[j] by {
                    let a = if i < n {
                        i
                    } else if i == n {
                        n + index
                    } else if i - n - 1 < index {
                        i - 1
                    } else {
                        i
                    };
                    let b = if j < n {
                        j
                    } else if j == n {
                        n + index
                    } else if j - n - 1 < index {
                        j - 1
                    } else {
                        j
                    };
                    assert(all[i] == all_before[a]);
                    assert(all[j] == all_before[b]);
                }
                assert forall|u: Seq<char>| #[trigger]
                    t.participants.contains(u) <==> done.contains(u) || t.waiting_pool.contains(
                        u,
                    ) by {
                    lemma_push_contains(done_before, chosen, u);
                    lemma_remove_contains(m.waiting_pool, index, u);
                }
            },
            _ => {
                if starts(owner, steps.last()) {
                    assert(all.len() == 0);
                }
            },
        }
    }
}

proof fn lemma_push_contains(s: Seq<Seq<char>>, a: Seq<char>, u: Seq<char>)
    ensures
        s.push(a).contains(u) <==> s.contains(u) || u == a,
{
    let t = s.push(a);
    if s.contains(u) {
        assert(t[s.index_of(u)] == u);
    }
    if u == a {
        assert(t[s.len() as int] == u);
    }
    if t.contains(u) {
        let k = t.index_of(u);
        if k < s.len() {
            assert(s[k] == u);
        }
    }
}

proof fn lemma_remove_contains(s: Seq<Seq<char>>, index: int, u: Seq<char>)
    requires
        0 <= index < s.len(),
    ensures
        s.contains(u) <==> s.remove(index).contains(u) || u == s[index],
{
    let t = s.remove(index);
    if s.contains(u) && u != s[index] {
        let k = s.index_of(u);
        if k < index {
            assert(t[k] == u);
        } else {
            assert(t[k - 1] == u);
        }
    }
    if t.contains(u) {
        let k = t.index_of(u);
        if k < index {
            assert(s[k] == u);
        } else {
            assert(s[k + 1] == u);
        }
    }
}

} // verus!
