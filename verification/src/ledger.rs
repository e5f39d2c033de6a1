//! The file of those who have submitted: one user id to a line.

use std::collections::HashSet;
use vstd::prelude::*;
use crate::text::{chars_of, decimal, decimal_text, digit, find_char, first_index};
use crate::text::{lemma_first_index, lemma_first_index_is};

verus! {

broadcast use vstd::std_specs::hash::group_hash_axioms;

/// A line without the carriage return that it may end with.
pub open spec fn without_return(line: Seq<char>) -> Seq<char> {
    if line.len() > 0 && line.last() == '\r' {
        line.drop_last()
    } else {
        line
    }
}

/// The lines of a text. A line ends with a line feed, which may come after a carriage return; what
/// stands behind the last line feed is a line too, unless it is empty.
pub open spec fn lines(s: Seq<char>) -> Seq<Seq<char>>
    decreases s.len(),
{
    if s.len() == 0 {
        seq![]
    } else if !s.contains('\n') {
        seq![s]
    } else {
        let end = first_index(s, '\n');
        proof {
            lemma_first_index(s, '\n');
        }
        seq![without_return(s.take(end))] + lines(s.skip(end + 1))
    }
}

/// Whether a text consists of decimal digits.
pub open spec fn all_digits(s: Seq<char>) -> bool {
    forall|i: int| 0 <= i < s.len() ==> '0' <= #[trigger] s[i] <= '9'
}

/// The number that a text of decimal digits stands for.
pub open spec fn digits_value(s: Seq<char>) -> nat
    decreases s.len(),
{
    if s.len() == 0 {
        0
    } else {
        digits_value(s.drop_last()) * 10 + (s.last() as nat - '0' as nat) as nat
    }
}

/// The number that a line holds: digits, with a plus sign ahead of them or without one, and
/// nothing else; a number that is too large is none.
pub open spec fn parsed_number(line: Seq<char>) -> Option<u64> {
    let digits = if line.len() > 0 && line.first() == '+' {
        line.drop_first()
    } else {
        line
    };
    if digits.len() > 0 && all_digits(digits) && digits_value(digits) <= u64::MAX {
        Some(digits_value(digits) as u64)
    } else {
        None
    }
}

/// The numbers that some of `lines` hold; the other lines count for nothing.
pub open spec fn numbers_in(lines: Seq<Seq<char>>) -> Set<u64> {
    Set::new(
        |id: u64|
            exists|i: int| 0 <= i < lines.len() && parsed_number(#[trigger] lines[i]) == Some(id),
    )
}

/// Those who have submitted, going by the file.
pub open spec fn submitted_ids(content: Seq<char>) -> Set<u64> {
    numbers_in(lines(content))
}

proof fn lemma_prefix_value(s: Seq<char>, k: int)
    requires
        0 <= k <= s.len(),
    ensures
        digits_value(s.take(k)) <= digits_value(s),
    decreases s.len(),
{
    if k == s.len() {
        assert(s.take(k) == s);
    } else {
        lemma_prefix_value(s.drop_last(), k);
        assert(s.drop_last().take(k) == s.take(k));
    }
}

fn parse_number(v: &Vec<char>, from: usize, to: usize) -> (r: Option<u64>)
    requires
        from <= to <= v.len(),
    ensures
        r == parsed_number(v@.subrange(from as int, to as int)),
{
    let ghost line = v@.subrange(from as int, to as int);
    let start: usize = if from < to && v[from] == '+' {
        from + 1
    } else {
        from
    };
    let ghost digits = v@.subrange(start as int, to as int);
    proof {
        if start > from {
            assert(digits == line.drop_first());
        } else {
            assert(digits == line);
        }
    }
    if start == to {
        return None;
    }
    let mut value: u64 = 0;
    let mut i: usize = start;
    while i < to
        invariant
            start <= i <= to <= v.len(),
            line == v@.subrange(from as int, to as int),
            digits == v@.subrange(start as int, to as int),
            forall|j: int| 0 <= j < i - start ==> '0' <= #[trigger] digits[j] <= '9',
            value == digits_value(digits.take(i - start)),
            digits.len() > 0,
            parsed_number(line) == (if all_digits(digits) && digits_value(digits) <= u64::MAX {
                Some(digits_value(digits) as u64)
            } else {
                None
            }),
        decreases to - i,
    {
        let c = v[i];
        assert(c == digits[i - start]);
        if !('0' <= c && c <= '9') {
            return None;
        }
        let more: u128 = value as u128 * 10 + (c as u128 - '0' as u128);
        proof {
            let k = i - start;
            assert(digits.take(k + 1).drop_last() == digits.take(k));
            assert(more == digits_value(digits.take(k + 1)));
            lemma_prefix_value(digits, k + 1);
        }
        if more > u64::MAX as u128 {
            return None;
        }
        value = more as u64;
        i = i + 1;
    }
    proof {
        assert(digits.take(to - start) == digits);
    }
    Some(value)
}

proof fn lemma_numbers_first(first: Seq<char>, rest: Seq<Seq<char>>)
    ensures
        numbers_in(seq![first] + rest) == (match parsed_number(first) {
            Some(id) => numbers_in(rest).insert(id),
            None => numbers_in(rest),
        }),
{
    let all = seq![first] + rest;
    let ids = match parsed_number(first) {
        Some(id) => numbers_in(rest).insert(id),
        None => numbers_in(rest),
    };
    assert forall|id: u64| numbers_in(all).contains(id) <==> ids.contains(id) by {
        if numbers_in(all).contains(id) {
            let i = choose|i: int|
                0 <= i < all.len() && parsed_number(#[trigger] all[i]) == Some(id);
            if i > 0 {
                assert(rest[i - 1] == all[i]);
            }
        }
        if numbers_in(rest).contains(id) {
            let i = choose|i: int|
                0 <= i < rest.len() && parsed_number(#[trigger] rest[i]) == Some(id);
            assert(all[i + 1] == rest[i]);
        }
        if parsed_number(first) == Some(id) {
            assert(all[0] == first);
        }
    }
    assert(numbers_in(all) =~= ids);
}

/// Reads who has submitted from the content of the file.
pub fn read_submitted(content: &str) -> (ids: HashSet<u64>)
    ensures
        ids@ == submitted_ids(content@),
{
    let v = chars_of(content);
    let n: usize = v.len();
    let mut ids: HashSet<u64> = HashSet::new();
    let mut pos: usize = 0;
    assert(v@.skip(0) == v@);
    assert(ids@.union(submitted_ids(v@.skip(0))) =~= submitted_ids(v@));
    while pos < n
        invariant
            v@ == content@,
            pos <= n == v.len(),
            ids@.union(submitted_ids(v@.skip(pos as int))) == submitted_ids(v@),
        decreases n - pos,
    {
        let end: usize = find_char(&v, pos, n, '\n');
        let ghost rest = v@.skip(pos as int);
        proof {
            assert(v@.subrange(pos as int, n as int) == rest);
            lemma_first_index(rest, '\n');
        }
        let stop: usize = if end < n && end > pos && v[end - 1] == '\r' {
            end - 1
        } else {
            end
        };
        let next: usize = if end < n {
            end + 1
        } else {
            n
        };
        let ghost line = v@.subrange(pos as int, stop as int);
        proof {
            if end < n {
                assert(rest.take(end - pos) == v@.subrange(pos as int, end as int));
                assert(line == without_return(rest.take(end - pos)));
                assert(rest.skip(end - pos + 1) == v@.skip(next as int));
            } else {
                assert(line == rest);
                assert(v@.skip(next as int) == Seq::<char>::empty());
                assert(seq![rest] =~= seq![rest] + lines(v@.skip(next as int)));
            }
            assert(lines(rest) == seq![line] + lines(v@.skip(next as int)));
            lemma_numbers_first(line, lines(v@.skip(next as int)));
        }
        let ghost ids_before = ids@;
        if let Some(id) = parse_number(&v, pos, stop) {
            ids.insert(id);
        }
        proof {
            assert(ids@.union(submitted_ids(v@.skip(next as int))) =~= ids_before.union(
                submitted_ids(rest),
            ));
        }
        pos = next;
    }
    proof {
        assert(v@.skip(pos as int) == Seq::<char>::empty());
        assert(ids@ =~= ids@.union(submitted_ids(v@.skip(pos as int))));
    }
    ids
}

/// The line that records one submission.
pub open spec fn record(id: u64) -> Seq<char> {
    decimal(id as nat) + "\n"@
}

/// Writes the line that records one submission.
pub fn submission_record(id: u64) -> (r: String)
    ensures
        r@ == record(id),
{
    let mut r = decimal_text(id);
    r.append("\n");
    r
}

proof fn lemma_decimal_reads_back(n: nat)
    ensures
        decimal(n).len() > 0,
        all_digits(decimal(n)),
        digits_value(decimal(n)) == n,
    decreases n,
{
    if n < 10 {
        assert(decimal(n).drop_last() == Seq::<char>::empty());
        assert(digits_value(Seq::<char>::empty()) == 0);
    } else {
        lemma_decimal_reads_back(n / 10);
        assert(decimal(n).drop_last() == decimal(n / 10));
    }
}

/// A number written in decimal is read back as itself.
pub proof fn lemma_number_reads_back(id: u64)
    ensures
        parsed_number(decimal(id as nat)) == Some(id),
{
    lemma_decimal_reads_back(id as nat);
    assert('0' <= decimal(id as nat)[0] <= '9');
}

proof fn lemma_lines_append(a: Seq<char>, b: Seq<char>)
    requires
        a.len() > 0 ==> a.last() == '\n',
    ensures
        lines(a + b) == lines(a) + lines(b),
    decreases a.len(),
{
    if a.len() == 0 {
        assert(a + b == b);
        assert(lines(a) + lines(b) == lines(b));
    } else {
        assert(a[a.len() - 1] == '\n');
        assert(a.contains('\n'));
        lemma_first_index(a, '\n');
        let end = first_index(a, '\n');
        let all = a + b;
        assert(all[end] == '\n');
        assert(all.contains('\n'));
        assert forall|j: int| 0 <= j < end implies all[j] != '\n' by {
            assert(all[j] == a[j]);
        }
        lemma_first_index_is(all, '\n', end);
        let rest = a.skip(end + 1);
        assert(all.take(end) == a.take(end));
        assert(all.skip(end + 1) == rest + b);
        lemma_lines_append(rest, b);
        assert(lines(all) =~= lines(a) + lines(b));
    }
}

/// What is written is read back: after a record is appended to a file of whole lines, the file
/// names the recorded user besides those that it named before.
pub proof fn lemma_record_reads_back(content: Seq<char>, id: u64)
    requires
        content.len() > 0 ==> content.last() == '\n',
    ensures
        submitted_ids(content + record(id)) == submitted_ids(content).insert(id),
        (content + record(id)).last() == '\n',
{
    reveal_strlit("\n");
    let line = decimal(id as nat);
    lemma_lines_append(content, record(id));
    lemma_decimal_reads_back(id as nat);
    assert forall|j: int| 0 <= j < line.len() implies record(id)[j] != '\n' by {
        assert('0' <= line[j] <= '9');
    }
    assert(record(id)[line.len() as int] == '\n');
    assert(record(id).contains('\n'));
    lemma_first_index_is(record(id), '\n', line.len() as int);
    assert(record(id).take(line.len() as int) == line);
    assert('0' <= line[line.len() - 1] <= '9');
    assert(record(id).skip(line.len() as int + 1) == Seq::<char>::empty());
    assert(lines(Seq::<char>::empty()) == Seq::<Seq<char>>::empty());
    assert(lines(record(id)) =~= seq![line]);
    lemma_number_reads_back(id);
    let before = lines(content);
    let all = lines(content + record(id));
    assert(all =~= before.push(line));
    assert forall|i: u64| numbers_in(all).contains(i) <==> numbers_in(before).insert(id).contains(
        i,
    ) by {
        if numbers_in(all).contains(i) {
            let k = choose|k: int|
                0 <= k < all.len() && parsed_number(#[trigger] all[k]) == Some(i);
            if k < before.len() {
                assert(before[k] == all[k]);
            }
        }
        if numbers_in(before).contains(i) {
            let k = choose|k: int|
                0 <= k < before.len() && parsed_number(#[trigger] before[k]) == Some(i);
            assert(all[k] == before[k]);
        }
        assert(all[before.len() as int] == line);
    }
    assert(numbers_in(all) =~= numbers_in(before).insert(id));
}

/// The content of a file to which the records of `ids` were appended in order.
pub open spec fn records(ids: Seq<u64>) -> Seq<char>
    decreases ids.len(),
{
    if ids.len() == 0 {
        seq![]
    } else {
        records(ids.drop_last()) + record(ids.last())
    }
}

/// A file that holds records alone names exactly the users recorded in it, so nothing is lost
/// over a restart.
pub proof fn lemma_records_read_back(ids: Seq<u64>)
    ensures
        submitted_ids(records(ids)) == ids.to_set(),
        records(ids).len() > 0 ==> records(ids).last() == '\n',
    decreases ids.len(),
{
    if ids.len() == 0 {
        assert(submitted_ids(records(ids)) =~= ids.to_set());
    } else {
        let before = ids.drop_last();
        lemma_records_read_back(before);
        lemma_record_reads_back(records(before), ids.last());
        assert forall|i: u64| ids.to_set().contains(i) <==> before.to_set().insert(
            ids.last(),
        ).contains(i) by {
            if ids.contains(i) && i != ids.last() {
                assert(before[ids.index_of(i)] == i);
            }
            if before.contains(i) {
                assert(ids[before.index_of(i)] == i);
            }
            assert(ids[ids.len() - 1] == ids.last());
        }
        assert(ids.to_set() =~= before.to_set().insert(ids.last()));
    }
}

/// How a text falls into lines: each line feed ends one, a carriage return ahead of it belongs to
/// the end, and what stands behind the last line feed is a line if it is not empty.
pub proof fn lemma_lines_by_line_feeds(line: Seq<char>, rest: Seq<char>)
    requires
        !line.contains('\n'),
    ensures
        lines(Seq::<char>::empty()) == Seq::<Seq<char>>::empty(),
        line.len() > 0 ==> lines(line) == seq![line],
        line.len() == 0 || line.last() != '\r' ==> lines(line + seq!['\n'] + rest) == seq![line]
            + lines(rest),
        lines(line + seq!['\r', '\n'] + rest) == seq![line] + lines(rest),
{
    lemma_line_feed_ends(line, rest);
    let returned = line.push('\r');
    if returned.contains('\n') {
        let k = returned.index_of('\n');
        assert(line[k] == '\n');
    }
    lemma_line_feed_ends(returned, rest);
    assert(line + seq!['\r', '\n'] + rest =~= returned + seq!['\n'] + rest);
    assert(returned.drop_last() =~= line);
}

proof fn lemma_line_feed_ends(line: Seq<char>, rest: Seq<char>)
    requires
        !line.contains('\n'),
    ensures
        lines(line + seq!['\n'] + rest) == seq![without_return(line)] + lines(rest),
{
    let all = line + seq!['\n'] + rest;
    let n = line.len() as int;
    assert(all[n] == '\n');
    assert forall|j: int| 0 <= j < n implies all[j] != '\n' by {
        assert(all[j] == line[j]);
    }
    lemma_first_index_is(all, '\n', n);
    assert(all.take(n) =~= line);
    assert(all.skip(n + 1) =~= rest);
}

/// Line by line: a line that holds a number names that user besides those of the rest, and any
/// other line names nobody.
pub proof fn lemma_ids_line_by_line(line: Seq<char>, rest: Seq<char>)
    requires
        !line.contains('\n'),
        line.len() == 0 || line.last() != '\r',
    ensures
        submitted_ids(Seq::<char>::empty()) == Set::<u64>::empty(),
        parsed_number(line) matches Some(id) ==> submitted_ids(line + seq!['\n'] + rest)
            == submitted_ids(rest).insert(id),
        parsed_number(line) is None ==> submitted_ids(line + seq!['\n'] + rest) == submitted_ids(
            rest,
        ),
{
    assert(submitted_ids(Seq::<char>::empty()) =~= Set::<u64>::empty());
    lemma_lines_by_line_feeds(line, rest);
    lemma_numbers_first(line, lines(rest));
}

/// Any number of zeros.
pub open spec fn zeros(k: nat) -> Seq<char> {
    Seq::new(k, |i: int| '0')
}

/// Whether `line` writes `n` in decimal, with any number of zeros ahead of it, and a plus sign
/// ahead of those or not.
pub open spec fn writes(line: Seq<char>, n: nat, k: nat) -> bool {
    line == zeros(k) + decimal(n) || line == seq!['+'] + zeros(k) + decimal(n)
}

proof fn lemma_digits_are_zeros_and_decimal(d: Seq<char>) -> (k: nat)
    requires
        d.len() > 0,
        all_digits(d),
    ensures
        d == zeros(k) + decimal(digits_value(d)),
    decreases d.len(),
{
    let e = d.drop_last();
    let c = d.last();
    assert('0' <= d[d.len() - 1] <= '9');
    let x = (c as nat - '0' as nat) as nat;
    assert(x < 10);
    assert(digit(x) == c);
    if e.len() == 0 {
        assert(digits_value(e) == 0);
        assert(d =~= zeros(0) + decimal(digits_value(d)));
        0
    } else {
        assert forall|i: int| 0 <= i < e.len() implies '0' <= #[trigger] e[i] <= '9' by {
            assert(e[i] == d[i]);
        }
        let k = lemma_digits_are_zeros_and_decimal(e);
        let v = digits_value(e);
        assert(digits_value(d) == v * 10 + x);
        if v == 0 {
            assert(e =~= zeros(k + 1));
            assert(d =~= zeros(k + 1) + decimal(x));
            k + 1
        } else {
            assert((v * 10 + x) / 10 == v && (v * 10 + x) % 10 == x);
            assert(decimal(v * 10 + x) == decimal(v).push(c));
            assert(d =~= e.push(c));
            assert((zeros(k) + decimal(v)).push(c) =~= zeros(k) + decimal(v).push(c));
            k
        }
    }
}

proof fn lemma_zeros_count_for_nothing(k: nat, n: nat)
    ensures
        all_digits(zeros(k) + decimal(n)),
        (zeros(k) + decimal(n)).len() > 0,
        digits_value(zeros(k) + decimal(n)) == n,
    decreases n,
{
    lemma_decimal_reads_back(n);
    let d = zeros(k) + decimal(n);
    assert forall|i: int| 0 <= i < d.len() implies '0' <= #[trigger] d[i] <= '9' by {
        if i >= k {
            assert('0' <= decimal(n)[i - k] <= '9');
        }
    }
    if n < 10 {
        lemma_zeros_are_zero(k);
        assert(d.drop_last() =~= zeros(k));
    } else {
        lemma_zeros_count_for_nothing(k, n / 10);
        assert(d.drop_last() =~= zeros(k) + decimal(n / 10));
    }
}

proof fn lemma_zeros_are_zero(k: nat)
    ensures
        digits_value(zeros(k)) == 0,
    decreases k,
{
    if k > 0 {
        let less = (k - 1) as nat;
        lemma_zeros_are_zero(less);
        assert(zeros(k).drop_last() =~= zeros(less));
    }
}

/// A line holds the number `id` exactly if it writes it in decimal, with a plus sign and zeros ahead
/// of it or without; any other line holds none.
pub proof fn lemma_number_is_what_is_written(line: Seq<char>, id: u64)
    ensures
        parsed_number(line) == Some(id) <==> exists|k: nat| writes(line, id as nat, k),
{
    if parsed_number(line) == Some(id) {
        let digits = if line.len() > 0 && line.first() == '+' {
            line.drop_first()
        } else {
            line
        };
        let k = lemma_digits_are_zeros_and_decimal(digits);
        if line.first() == '+' {
            assert(line =~= seq!['+'] + digits);
            assert(seq!['+'] + (zeros(k) + decimal(id as nat)) =~= seq!['+'] + zeros(k) + decimal(
                id as nat,
            ));
        }
        assert(writes(line, id as nat, k));
    }
    if exists|k: nat| writes(line, id as nat, k) {
        let k = choose|k: nat| writes(line, id as nat, k);
        let digits = zeros(k) + decimal(id as nat);
        lemma_zeros_count_for_nothing(k, id as nat);
        assert('0' <= digits[0] <= '9');
        if line == seq!['+'] + zeros(k) + decimal(id as nat) {
            assert(line.drop_first() =~= digits);
        }
    }
}

/// A record is the number of the user and a line feed.
pub proof fn lemma_record_is_a_line(id: u64)
    ensures
        record(id) == decimal(id as nat).push('\n'),
{
    reveal_strlit("\n");
    assert(record(id) =~= decimal(id as nat).push('\n'));
}

} // verus!
