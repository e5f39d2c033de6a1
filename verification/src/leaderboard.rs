//! The final scores of a session and who has won it.

use vstd::hash_map::StringHashMap;
use vstd::prelude::*;
use crate::messages::{BOARD_EMPTY, BOARD_HEADER, NO_WINNER};
use crate::text::{concat, decimal, decimal_text, join, joined, lemma_concat_grows, texts};

verus! {

/// The counts of a table of votes as natural numbers.
pub open spec fn tally(votes: Map<Seq<char>, usize>) -> Map<Seq<char>, nat> {
    votes.map_values(|n: usize| n as nat)
}

/// How many votes `user` has.
pub open spec fn score_of(votes: Map<Seq<char>, nat>, user: Seq<char>) -> nat {
    if votes.contains_key(user) {
        votes[user]
    } else {
        0
    }
}

/// Looks up how many votes a user has.
pub fn score(votes: &StringHashMap<usize>, user: &str) -> (n: usize)
    ensures
        n == score_of(tally(votes@), user@),
{
    match votes.get(user) {
        Some(n) => *n,
        None => 0,
    }
}

/// The line of one user on the leaderboard.
pub open spec fn score_line(user: Seq<char>, votes: nat) -> Seq<char> {
    "- <@"@ + user + ">: *"@ + decimal(votes) + "*"@ + (if votes > 9 {
        ":super-mega-upvote:"@
    } else {
        ":upvote:"@
    }) + " votes\n"@
}

/// The leaderboard: its header, and a line for each user in the order given.
pub open spec fn board(users: Seq<Seq<char>>, votes: Map<Seq<char>, nat>) -> Seq<char> {
    BOARD_HEADER@ + (if users.len() == 0 {
        BOARD_EMPTY@
    } else {
        concat(Seq::new(users.len(), |i: int| score_line(users[i], score_of(votes, users[i]))))
    })
}

/// The largest number of votes that any of `users` has; zero if there are none.
pub open spec fn highest(users: Seq<Seq<char>>, votes: Map<Seq<char>, nat>) -> nat
    decreases users.len(),
{
    if users.len() == 0 {
        0
    } else {
        let rest = highest(users.drop_last(), votes);
        let last = score_of(votes, users.last());
        if last > rest {
            last
        } else {
            rest
        }
    }
}

/// Those of `users` who have exactly `n` votes, in the order given.
pub open spec fn having(
    users: Seq<Seq<char>>,
    votes: Map<Seq<char>, nat>,
    n: nat,
) -> Seq<Seq<char>> {
    users.filter(|user: Seq<char>| score_of(votes, user) == n)
}

/// Those of `users` with the most votes, in the order given; nobody wins without a vote.
pub open spec fn winners(
    users: Seq<Seq<char>>,
    votes: Map<Seq<char>, nat>,
) -> Seq<Seq<char>> {
    if highest(users, votes) == 0 {
        seq![]
    } else {
        having(users, votes, highest(users, votes))
    }
}

/// The leaderboard, and behind it the one winner, the tie or that nobody has won.
pub open spec fn announcement(
    users: Seq<Seq<char>>,
    votes: Map<Seq<char>, nat>,
) -> Seq<char> {
    let top = highest(users, votes);
    let best = winners(users, votes);
    if top == 0 {
        board(users, votes) + NO_WINNER@
    } else if best.len() == 1 {
        board(users, votes) + "\n* ANNNNnnndddd congratulations to our winner <@"@ + best[0]
            + "> with "@ + decimal(top) + " votes!* :yay:"@
    } else {
        board(users, votes) + "\nHow is that possible, "@ + joined(
            Seq::new(best.len(), |i: int| "<@"@ + best[i] + ">"@),
            ", "@,
        ) + " got *"@ + decimal(top) + " votes!*\nYOUSAFE i let you say the rest :p"@
    }
}

/// Every score is at most the highest one, which somebody has unless it is zero.
pub proof fn lemma_highest_bounds(users: Seq<Seq<char>>, votes: Map<Seq<char>, nat>)
    ensures
        forall|i: int|
            0 <= i < users.len() ==> score_of(votes, #[trigger] users[i]) <= highest(users, votes),
        highest(users, votes) > 0 ==> exists|i: int|
            0 <= i < users.len() && score_of(votes, #[trigger] users[i]) == highest(users, votes),
    decreases users.len(),
{
    if users.len() > 0 {
        let rest = users.drop_last();
        lemma_highest_bounds(rest, votes);
        assert forall|i: int| 0 <= i < users.len() implies score_of(votes, #[trigger] users[i])
            <= highest(users, votes) by {
            if i < rest.len() {
                assert(users[i] == rest[i]);
            }
        }
        if highest(users, votes) > 0 {
            if score_of(votes, users.last()) > highest(rest, votes) {
                assert(score_of(votes, users[users.len() - 1]) == highest(users, votes));
            } else {
                let i = choose|i: int|
                    0 <= i < rest.len() && score_of(votes, #[trigger] rest[i]) == highest(
                        rest,
                        votes,
                    );
                assert(users[i] == rest[i]);
            }
        }
    }
}

/// Who is listed as having `n` votes: the users that have them, and nobody else.
pub proof fn lemma_having_members(
    users: Seq<Seq<char>>,
    votes: Map<Seq<char>, nat>,
    n: nat,
    user: Seq<char>,
)
    ensures
        having(users, votes, n).contains(user) <==> users.contains(user) && score_of(votes, user)
            == n,
{
    let has = |u: Seq<char>| score_of(votes, u) == n;
    if users.contains(user) && score_of(votes, user) == n {
        assert(has(user));
        users.lemma_filter_contains(has, users.index_of(user));
    }
    if having(users, votes, n).contains(user) {
        users.lemma_filter_contains_rev(has, user);
        let k = having(users, votes, n).index_of(user);
        users.lemma_filter_pred(has, k);
    }
}

proof fn lemma_having_next(users: Seq<Seq<char>>, votes: Map<Seq<char>, nat>, n: nat, i: int)
    requires
        0 <= i < users.len(),
    ensures
        having(users.take(i + 1), votes, n) == (if score_of(votes, users[i]) == n {
            having(users.take(i), votes, n).push(users[i])
        } else {
            having(users.take(i), votes, n)
        }),
{
    reveal(Seq::filter);
    assert(users.take(i + 1).drop_last() == users.take(i));
}

proof fn lemma_having_none(users: Seq<Seq<char>>, votes: Map<Seq<char>, nat>, n: nat)
    requires
        n > highest(users, votes),
    ensures
        having(users, votes, n) == Seq::<Seq<char>>::empty(),
{
    if having(users, votes, n).len() > 0 {
        let user = having(users, votes, n)[0];
        assert(having(users, votes, n).contains(user));
        lemma_having_members(users, votes, n, user);
        lemma_highest_bounds(users, votes);
        let i = users.index_of(user);
        assert(score_of(votes, users[i]) == n);
    }
}

fn push_score_line(out: &mut String, user: &str, votes: usize)
    ensures
        final(out)@ == old(out)@ + score_line(user@, votes as nat),
{
    let upvote = if votes > 9 {
        ":super-mega-upvote:"
    } else {
        ":upvote:"
    };
    let mut line = "- <@".to_owned();
    line.append(user);
    line.append(">: *");
    line.append(decimal_text(votes as u64).as_str());
    line.append("*");
    line.append(upvote);
    line.append(" votes\n");
    out.append(line.as_str());
}

fn mentions(users: &Vec<String>) -> (r: Vec<String>)
    ensures
        texts(r@) == Seq::new(users@.len(), |i: int| "<@"@ + users@[i]@ + ">"@),
{
    let mut r: Vec<String> = Vec::new();
    let mut i: usize = 0;
    while i < users.len()
        invariant
            i <= users.len(),
            r.len() == i,
            forall|j: int| 0 <= j < i ==> (#[trigger] r@[j])@ == "<@"@ + users@[j]@ + ">"@,
        decreases users.len() - i,
    {
        let mut m = "<@".to_owned();
        m.append(users[i].as_str());
        m.append(">");
        r.push(m);
        i = i + 1;
    }
    r
}

/// Writes the leaderboard of the users in the order given, and behind it who has won.
pub fn final_announcement(users: &Vec<String>, votes: &StringHashMap<usize>) -> (r: String)
    ensures
        r@ == announcement(texts(users@), tally(votes@)),
{
    let ghost all = texts(users@);
    let ghost lines = Seq::new(
        all.len(),
        |i: int| score_line(all[i], score_of(tally(votes@), all[i])),
    );
    let mut out = BOARD_HEADER.to_owned();
    let mut top: usize = 0;
    let mut best: Vec<String> = Vec::new();
    if users.len() == 0 {
        out.append(BOARD_EMPTY);
    } else {
        let mut i: usize = 0;
        proof {
            assert(concat(lines.take(0)) == Seq::<char>::empty());
            assert(out@ =~= BOARD_HEADER@ + concat(lines.take(0)));
            assert(all.take(0).len() == 0);
        }
        while i < users.len()
            invariant
                i <= users.len(),
                all == texts(users@),
                lines == Seq::new(
                    all.len(),
                    |k: int| score_line(all[k], score_of(tally(votes@), all[k])),
                ),
                out@ == BOARD_HEADER@ + concat(lines.take(i as int)),
                top == highest(all.take(i as int), tally(votes@)),
                texts(best@) == winners(all.take(i as int), tally(votes@)),
            decreases users.len() - i,
        {
            let n: usize = score(votes, users[i].as_str());
            push_score_line(&mut out, users[i].as_str(), n);
            proof {
                assert(lines.take(i + 1).drop_last() == lines.take(i as int));
                assert(lines.take(i + 1).last() == score_line(all[i as int], n as nat));
                assert(out@ =~= BOARD_HEADER@ + concat(lines.take(i + 1)));
                assert(all.take(i + 1).drop_last() == all.take(i as int));
                assert(all.take(i + 1).last() == all[i as int]);
                lemma_having_next(all, tally(votes@), n as nat, i as int);
                lemma_having_next(all, tally(votes@), top as nat, i as int);
            }
            if n > top {
                proof {
                    lemma_having_none(all.take(i as int), tally(votes@), n as nat);
                }
                top = n;
                best = Vec::new();
                best.push(users[i].clone());
                assert(texts(best@) =~= winners(all.take(i + 1), tally(votes@)));
            } else if n == top && n > 0 {
                let ghost old_best = best@;
                best.push(users[i].clone());
                assert(texts(best@) =~= texts(old_best).push(all[i as int]));
            }
            i = i + 1;
        }
        proof {
            assert(lines.take(users@.len() as int) == lines);
            assert(all.take(users@.len() as int) == all);
        }
    }
    proof {
        assert(out@ == board(all, tally(votes@)));
        assert(texts(best@) == winners(all, tally(votes@)));
    }
    if top == 0 {
        out.append(NO_WINNER);
    } else if best.len() == 1 {
        out.append("\n* ANNNNnnndddd congratulations to our winner <@");
        out.append(best[0].as_str());
        out.append("> with ");
        out.append(decimal_text(top as u64).as_str());
        out.append(" votes!* :yay:");
    } else {
        let ties = mentions(&best);
        proof {
            let won = winners(all, tally(votes@));
            assert(texts(ties@) =~= Seq::new(won.len(), |i: int| "<@"@ + won[i] + ">"@));
        }
        out.append("\nHow is that possible, ");
        out.append(join(&ties, ", ").as_str());
        out.append(" got *");
        out.append(decimal_text(top as u64).as_str());
        out.append(" votes!*\nYOUSAFE i let you say the rest :p");
    }
    out
}

/// The winners are exactly the users with the most votes, as long as there is a vote at all.
pub proof fn lemma_winners_have_the_most(
    users: Seq<Seq<char>>,
    votes: Map<Seq<char>, nat>,
    user: Seq<char>,
)
    ensures
        winners(users, votes).contains(user) <==> {
            &&& users.contains(user)
            &&& score_of(votes, user) > 0
            &&& forall|i: int|
                0 <= i < users.len() ==> score_of(votes, #[trigger] users[i]) <= score_of(
                    votes,
                    user,
                )
        },
{
    let top = highest(users, votes);
    lemma_highest_bounds(users, votes);
    lemma_having_members(users, votes, top, user);
    if users.contains(user) {
        assert(score_of(votes, users[users.index_of(user)]) <= top);
    }
}

/// Somebody wins as soon as one of the users has a vote.
pub proof fn lemma_a_vote_makes_a_winner(users: Seq<Seq<char>>, votes: Map<Seq<char>, nat>)
    ensures
        winners(users, votes).len() > 0 <==> exists|i: int|
            0 <= i < users.len() && score_of(votes, #[trigger] users[i]) > 0,
{
    lemma_highest_bounds(users, votes);
    let top = highest(users, votes);
    if top > 0 {
        let i = choose|i: int|
            0 <= i < users.len() && score_of(votes, #[trigger] users[i]) == top;
        lemma_having_members(users, votes, top, users[i]);
    }
}

/// No user wins twice.
pub proof fn lemma_winners_are_distinct(users: Seq<Seq<char>>, votes: Map<Seq<char>, nat>)
    requires
        users.no_duplicates(),
    ensures
        winners(users, votes).no_duplicates(),
{
    lemma_having_distinct(users, votes, highest(users, votes));
}

proof fn lemma_having_distinct(users: Seq<Seq<char>>, votes: Map<Seq<char>, nat>, n: nat)
    requires
        users.no_duplicates(),
    ensures
        having(users, votes, n).no_duplicates(),
    decreases users.len(),
{
    if users.len() == 0 {
        reveal(Seq::filter);
    } else {
        let last = users.len() - 1;
        assert(users.take(last) == users.drop_last());
        assert(users.take(last + 1) == users);
        lemma_having_next(users, votes, n, last);
        lemma_having_distinct(users.drop_last(), votes, n);
        let rest = having(users.drop_last(), votes, n);
        lemma_having_members(users.drop_last(), votes, n, users.last());
        assert(!rest.contains(users.last()));
    }
}

/// The order in which the users are listed decides neither the highest score nor who wins.
pub proof fn lemma_order_does_not_decide(
    a: Seq<Seq<char>>,
    b: Seq<Seq<char>>,
    votes: Map<Seq<char>, nat>,
)
    requires
        a.no_duplicates(),
        b.no_duplicates(),
        a.to_set() == b.to_set(),
    ensures
        highest(a, votes) == highest(b, votes),
        winners(a, votes).to_set() == winners(b, votes).to_set(),
        winners(a, votes).len() == winners(b, votes).len(),
{
    lemma_highest_within(a, b, votes);
    lemma_highest_within(b, a, votes);
    let top = highest(a, votes);
    let wa = winners(a, votes);
    let wb = winners(b, votes);
    assert forall|user: Seq<char>| wa.contains(user) <==> wb.contains(user) by {
        assert(a.to_set().contains(user) == a.contains(user));
        assert(b.to_set().contains(user) == b.contains(user));
        lemma_having_members(a, votes, top, user);
        lemma_having_members(b, votes, top, user);
    }
    assert(wa.to_set() =~= wb.to_set());
    lemma_winners_are_distinct(a, votes);
    lemma_winners_are_distinct(b, votes);
    wa.unique_seq_to_set();
    wb.unique_seq_to_set();
}

proof fn lemma_highest_within(
    a: Seq<Seq<char>>,
    b: Seq<Seq<char>>,
    votes: Map<Seq<char>, nat>,
)
    requires
        a.to_set() == b.to_set(),
    ensures
        highest(a, votes) <= highest(b, votes),
{
    lemma_highest_bounds(a, votes);
    lemma_highest_bounds(b, votes);
    if highest(a, votes) > 0 {
        let i = choose|i: int|
            0 <= i < a.len() && score_of(votes, #[trigger] a[i]) == highest(a, votes);
        assert(a.to_set().contains(a[i]));
        assert(b.to_set().contains(a[i]));
        let j = b.index_of(a[i]);
        assert(score_of(votes, b[j]) <= highest(b, votes));
    }
}

/// A user has as many votes as the table says, and none if the table does not name them; the table
/// counts what was counted.
pub proof fn lemma_score_is_the_count(votes: Map<Seq<char>, usize>, user: Seq<char>)
    ensures
        votes.contains_key(user) ==> score_of(tally(votes), user) == votes[user],
        !votes.contains_key(user) ==> score_of(tally(votes), user) == 0,
        tally(votes).contains_key(user) <==> votes.contains_key(user),
{
}

/// Each score is the number that the table holds for the user.
pub proof fn lemma_score_reads_the_table(
    votes: Map<Seq<char>, nat>,
    user: Seq<char>,
    other: Seq<char>,
    n: nat,
)
    ensures
        score_of(Map::empty(), user) == 0,
        score_of(votes.insert(user, n), user) == n,
        other != user ==> score_of(votes.insert(user, n), other) == score_of(votes, other),
        score_of(votes.remove(user), user) == 0,
{
}

/// A line shows the user and all of their votes; from ten votes on it has the larger badge.
pub proof fn lemma_line_shows_the_votes(user: Seq<char>, votes: nat)
    ensures
        votes < 10 ==> score_line(user, votes) == "- <@"@ + user + ">: *"@ + decimal(votes) + "*"@
            + ":upvote:"@ + " votes\n"@,
        votes >= 10 ==> score_line(user, votes) == "- <@"@ + user + ">: *"@ + decimal(votes) + "*"@
            + ":super-mega-upvote:"@ + " votes\n"@,
{
}

/// The leaderboard opens with its header and has a line for every user, in order, with the votes of
/// that user.
pub proof fn lemma_board_has_every_score(
    users: Seq<Seq<char>>,
    votes: Map<Seq<char>, nat>,
    last: Seq<char>,
)
    ensures
        board(Seq::<Seq<char>>::empty(), votes) == BOARD_HEADER@ + BOARD_EMPTY@,
        board(seq![last], votes) == BOARD_HEADER@ + score_line(last, score_of(votes, last)),
        users.len() > 0 ==> board(users.push(last), votes) == board(users, votes) + score_line(
            last,
            score_of(votes, last),
        ),
{
    let line = score_line(last, score_of(votes, last));
    let lines = |list: Seq<Seq<char>>|
        Seq::new(list.len(), |i: int| score_line(list[i], score_of(votes, list[i])));
    assert(lines(seq![last]) =~= Seq::<Seq<char>>::empty().push(line));
    lemma_concat_grows(Seq::<Seq<char>>::empty(), line);
    assert(Seq::<char>::empty() + line =~= line);
    assert(lines(users.push(last)) =~= lines(users).push(line));
    lemma_concat_grows(lines(users), line);
    assert(BOARD_HEADER@ + (concat(lines(users)) + line) =~= BOARD_HEADER@ + concat(lines(users))
        + line);
}

/// Whether the user at `i` has votes, and nobody has more.
pub open spec fn leads(users: Seq<Seq<char>>, votes: Map<Seq<char>, nat>, i: int) -> bool {
    &&& 0 <= i < users.len()
    &&& score_of(votes, users[i]) > 0
    &&& forall|j: int|
        0 <= j < users.len() ==> score_of(votes, #[trigger] users[j]) <= score_of(votes, users[i])
}

proof fn lemma_leader_has_the_highest(
    users: Seq<Seq<char>>,
    votes: Map<Seq<char>, nat>,
    i: int,
)
    requires
        leads(users, votes, i),
    ensures
        highest(users, votes) == score_of(votes, users[i]),
{
    lemma_highest_bounds(users, votes);
}

proof fn lemma_having_one(users: Seq<Seq<char>>, votes: Map<Seq<char>, nat>, n: nat, i: int)
    requires
        0 <= i < users.len(),
        forall|j: int|
            0 <= j < users.len() ==> (score_of(votes, #[trigger] users[j]) == n <==> j == i),
    ensures
        having(users, votes, n) == seq![users[i]],
    decreases users.len(),
{
    let last = users.len() - 1;
    let rest = users.drop_last();
    assert(users.take(last) == rest);
    assert(users.take(last + 1) == users);
    lemma_having_next(users, votes, n, last);
    if i == last {
        if having(rest, votes, n).len() > 0 {
            let u = having(rest, votes, n)[0];
            assert(having(rest, votes, n).contains(u));
            lemma_having_members(rest, votes, n, u);
            let k = rest.index_of(u);
            assert(users[k] == u);
        }
        assert(having(users, votes, n) =~= seq![users[i]]);
    } else {
        assert forall|j: int| 0 <= j < rest.len() implies (score_of(votes, #[trigger] rest[j]) == n
            <==> j == i) by {
            assert(rest[j] == users[j]);
        }
        lemma_having_one(rest, votes, n, i);
        assert(score_of(votes, users[last]) != n);
    }
}

proof fn lemma_having_grows(users: Seq<Seq<char>>, votes: Map<Seq<char>, nat>, n: nat, k: int)
    requires
        0 <= k <= users.len(),
    ensures
        having(users.take(k), votes, n).len() <= having(users, votes, n).len(),
    decreases users.len() - k,
{
    if k < users.len() {
        lemma_having_next(users, votes, n, k);
        lemma_having_grows(users, votes, n, k + 1);
    } else {
        assert(users.take(k) == users);
    }
}

proof fn lemma_having_two(
    users: Seq<Seq<char>>,
    votes: Map<Seq<char>, nat>,
    n: nat,
    i: int,
    j: int,
)
    requires
        0 <= i < j < users.len(),
        score_of(votes, users[i]) == n,
        score_of(votes, users[j]) == n,
    ensures
        having(users, votes, n).len() >= 2,
{
    let head = users.take(j);
    assert(head[i] == users[i]);
    assert(head.contains(users[i]));
    lemma_having_members(head, votes, n, users[i]);
    lemma_having_next(users, votes, n, j);
    lemma_having_grows(users, votes, n, j + 1);
}

/// One user is congratulated, with all of their votes, wherever everybody else has fewer.
pub proof fn lemma_sole_leader_wins(users: Seq<Seq<char>>, votes: Map<Seq<char>, nat>, i: int)
    requires
        0 <= i < users.len(),
        score_of(votes, users[i]) > 0,
        forall|j: int|
            0 <= j < users.len() && j != i ==> score_of(votes, #[trigger] users[j]) < score_of(
                votes,
                users[i],
            ),
    ensures
        announcement(users, votes) == board(users, votes)
            + "\n* ANNNNnnndddd congratulations to our winner <@"@ + users[i] + "> with "@ + decimal(
            score_of(votes, users[i]),
        ) + " votes!* :yay:"@,
{
    assert(leads(users, votes, i));
    lemma_leader_has_the_highest(users, votes, i);
    lemma_having_one(users, votes, score_of(votes, users[i]), i);
}

/// Wherever two users have the most votes, the tie is announced, and it names everyone who has as
/// many, in order, and nobody else.
pub proof fn lemma_leaders_tie(users: Seq<Seq<char>>, votes: Map<Seq<char>, nat>, i: int, j: int)
    requires
        leads(users, votes, i),
        leads(users, votes, j),
        i < j,
    ensures
        ({
            let top = score_of(votes, users[i]);
            let names = users.filter(|user: Seq<char>| score_of(votes, user) == top);
            &&& announcement(users, votes) == board(users, votes) + "\nHow is that possible, "@
                + joined(Seq::new(names.len(), |k: int| "<@"@ + names[k] + ">"@), ", "@)
                + " got *"@ + decimal(top) + " votes!*\nYOUSAFE i let you say the rest :p"@
            &&& names.len() >= 2
            &&& forall|k: int|
                0 <= k < users.len() ==> (leads(users, votes, k) <==> names.contains(
                    #[trigger] users[k],
                ))
            &&& forall|u: Seq<char>| #[trigger] names.contains(u) ==> users.contains(u)
        }),
{
    let top = score_of(votes, users[i]);
    let names = users.filter(|user: Seq<char>| score_of(votes, user) == top);
    assert(score_of(votes, users[j]) == top) by {
        assert(score_of(votes, users[j]) <= score_of(votes, users[i]));
        assert(score_of(votes, users[i]) <= score_of(votes, users[j]));
    }
    lemma_leader_has_the_highest(users, votes, i);
    lemma_having_two(users, votes, top, i, j);
    assert(names == having(users, votes, top));
    assert forall|k: int| 0 <= k < users.len() implies (leads(users, votes, k)
        <==> names.contains(#[trigger] users[k])) by {
        lemma_having_members(users, votes, top, users[k]);
        assert(users.contains(users[k]));
        if leads(users, votes, k) {
            assert(score_of(votes, users[i]) <= score_of(votes, users[k]));
            assert(score_of(votes, users[k]) <= score_of(votes, users[i]));
        }
    }
    assert forall|u: Seq<char>| #[trigger] names.contains(u) implies users.contains(u) by {
        lemma_having_members(users, votes, top, u);
    }
}

/// Nobody is congratulated where nobody has a vote.
pub proof fn lemma_nobody_wins_without_votes(users: Seq<Seq<char>>, votes: Map<Seq<char>, nat>)
    requires
        forall|i: int| 0 <= i < users.len() ==> score_of(votes, #[trigger] users[i]) == 0,
    ensures
        announcement(users, votes) == board(users, votes)
            + "\nWAIT WHAT, NO WINNER WTH?!? there must be a mistake.."@,
{
    lemma_highest_bounds(users, votes);
}

proof fn lemma_endings_differ()
    ensures
        "\n* ANNNNnnndddd congratulations to our winner <@"@.len() > 1,
        "\n* ANNNNnnndddd congratulations to our winner <@"@[1] == '*',
        "\nHow is that possible, "@.len() > 1,
        "\nHow is that possible, "@[1] == 'H',
        "\nWAIT WHAT, NO WINNER WTH?!? there must be a mistake.."@.len() > 1,
        "\nWAIT WHAT, NO WINNER WTH?!? there must be a mistake.."@[1] == 'W',
{
    reveal_strlit("\n* ANNNNnnndddd congratulations to our winner <@");
    reveal_strlit("\nHow is that possible, ");
    reveal_strlit("\nWAIT WHAT, NO WINNER WTH?!? there must be a mistake..");
}

/// The character that tells the ending of an announcement: the second one behind the leaderboard.
pub open spec fn ending_mark(users: Seq<Seq<char>>, votes: Map<Seq<char>, nat>) -> char {
    announcement(users, votes)[board(users, votes).len() + 1int]
}

proof fn lemma_sole_leader_mark(users: Seq<Seq<char>>, votes: Map<Seq<char>, nat>, i: int)
    requires
        leads(users, votes, i),
        forall|j: int| #[trigger] leads(users, votes, j) ==> j == i,
    ensures
        ending_mark(users, votes) == '*',
{
    assert forall|j: int| 0 <= j < users.len() && j != i implies score_of(
        votes,
        #[trigger] users[j],
    ) < score_of(votes, users[i]) by {
        if score_of(votes, users[j]) == score_of(votes, users[i]) {
            assert(leads(users, votes, j));
        }
    }
    lemma_sole_leader_wins(users, votes, i);
    lemma_endings_differ();
}

proof fn lemma_tie_mark(users: Seq<Seq<char>>, votes: Map<Seq<char>, nat>, i: int, j: int)
    requires
        leads(users, votes, i),
        leads(users, votes, j),
        i < j,
    ensures
        ending_mark(users, votes) == 'H',
{
    lemma_leaders_tie(users, votes, i, j);
    lemma_endings_differ();
}

proof fn lemma_no_winner_mark(users: Seq<Seq<char>>, votes: Map<Seq<char>, nat>)
    requires
        forall|i: int| !leads(users, votes, i),
    ensures
        ending_mark(users, votes) == 'W',
{
    lemma_highest_bounds(users, votes);
    if highest(users, votes) > 0 {
        let i = choose|i: int|
            0 <= i < users.len() && score_of(votes, #[trigger] users[i]) == highest(users, votes);
        assert(leads(users, votes, i));
    }
    lemma_nobody_wins_without_votes(users, votes);
    lemma_endings_differ();
}

/// The three endings of an announcement, told apart by a character, come exactly where they
/// belong: one winner where one user alone has the most votes, the tie where several do, and no
/// winner where nobody has a vote.
pub proof fn lemma_ending_is_exact(users: Seq<Seq<char>>, votes: Map<Seq<char>, nat>)
    ensures
        ending_mark(users, votes) == '*' <==> exists|i: int|
            leads(users, votes, i) && forall|j: int| #[trigger] leads(users, votes, j) ==> j == i,
        ending_mark(users, votes) == 'H' <==> exists|i: int, j: int|
            i < j && leads(users, votes, i) && leads(users, votes, j),
        ending_mark(users, votes) == 'W' <==> forall|i: int| !leads(users, votes, i),
{
    if exists|i: int| leads(users, votes, i) {
        let i = choose|i: int| leads(users, votes, i);
        if exists|j: int| j != i && leads(users, votes, j) {
            let j = choose|j: int| j != i && leads(users, votes, j);
            if i < j {
                lemma_tie_mark(users, votes, i, j);
            } else {
                lemma_tie_mark(users, votes, j, i);
            }
        } else {
            lemma_sole_leader_mark(users, votes, i);
        }
    } else {
        lemma_no_winner_mark(users, votes);
    }
}

} // verus!
