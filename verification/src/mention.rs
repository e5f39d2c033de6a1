//! Reading whom a command mentions.

use vstd::prelude::*;
use crate::text::{before, chars_of, find_char, first_index, lemma_first_index, trim, trimmed};
use crate::text::{lemma_first_index_is, lemma_trimmed_is_bare, trimmed_end, trimmed_start, white_space};

verus! {

/// The user that `text` mentions: `<@ID>` or `<@ID|label>`, with white space ahead of it and
/// anything behind it.
pub open spec fn mention(text: Seq<char>) -> Option<Seq<char>> {
    let t = trimmed(text);
    if t.len() >= 2 && t[0] == '<' && t[1] == '@' && t.contains('>') {
        Some(before(before(t.skip(2), '>'), '|'))
    } else {
        None
    }
}

/// Reads whom a text mentions, in Slack's notation `<@ID>` or `<@ID|label>`.
pub fn parse_slack_mention(text: &str) -> (r: Option<String>)
    ensures
        r is Some <==> mention(text@) is Some,
        r matches Some(id) ==> mention(text@) == Some(id@),
{
    let t = trim(text);
    let v = chars_of(t);
    let n: usize = v.len();
    if n < 2 || v[0] != '<' || v[1] != '@' {
        return None;
    }
    let end: usize = find_char(&v, 2, n, '>');
    proof {
        lemma_first_index(t@.skip(2), '>');
        assert(t@.subrange(2, n as int) == t@.skip(2));
        if t@.contains('>') {
            let k = t@.index_of('>');
            assert(t@.skip(2)[k - 2] == '>');
        }
        if t@.skip(2).contains('>') {
            let k = t@.skip(2).index_of('>');
            assert(t@[k + 2] == '>');
        }
    }
    if end == n {
        return None;
    }
    let cut: usize = find_char(&v, 2, end, '|');
    proof {
        assert(t@.subrange(2, end as int) == before(t@.skip(2), '>'));
        assert(t@.subrange(2, cut as int) == before(before(t@.skip(2), '>'), '|'));
    }
    Some(t.substring_char(2, cut).to_owned())
}

proof fn lemma_trimmed_start_skips(lead: Seq<char>, t: Seq<char>)
    requires
        forall|i: int| 0 <= i < lead.len() ==> white_space(#[trigger] lead[i]),
        t.len() > 0 ==> !white_space(t.first()),
    ensures
        trimmed_start(lead + t) == t,
    decreases lead.len(),
{
    if lead.len() == 0 {
        assert(lead + t == t);
    } else {
        assert(white_space(lead[0]));
        assert((lead + t).drop_first() == lead.drop_first() + t);
        lemma_trimmed_start_skips(lead.drop_first(), t);
    }
}

proof fn lemma_trimmed_end_stops(head: Seq<char>, tail: Seq<char>)
    requires
        head.len() > 0,
        !white_space(head.last()),
    ensures
        trimmed_end(head + tail) == head + trimmed_end(tail),
    decreases tail.len(),
{
    if tail.len() == 0 {
        assert(head + tail == head);
    } else if white_space(tail.last()) {
        assert((head + tail).drop_last() == head + tail.drop_last());
        lemma_trimmed_end_stops(head, tail.drop_last());
    }
}

/// White space ahead of a mention and anything behind it change nothing: what stands between
/// `<@` and the first `>` decides.
pub proof fn lemma_mention_between(lead: Seq<char>, inside: Seq<char>, tail: Seq<char>)
    requires
        forall|i: int| 0 <= i < lead.len() ==> white_space(#[trigger] lead[i]),
        !inside.contains('>'),
    ensures
        mention(lead + seq!['<', '@'] + inside + seq!['>'] + tail) == Some(before(inside, '|')),
{
    let head = seq!['<', '@'] + inside + seq!['>'];
    let text = lead + seq!['<', '@'] + inside + seq!['>'] + tail;
    assert(text == lead + (head + tail));
    lemma_trimmed_start_skips(lead, head + tail);
    lemma_trimmed_end_stops(head, tail);
    let t = trimmed(text);
    assert(t == head + trimmed_end(tail));
    assert(t[inside.len() as int + 2] == '>');
    assert(t.skip(2) == inside + seq!['>'] + trimmed_end(tail));
    lemma_first_index_is(t.skip(2), '>', inside.len() as int);
    assert(before(t.skip(2), '>') == inside);
}

/// A mention of an id gives that id back, with a label or without one.
pub proof fn lemma_mention_read_back(
    lead: Seq<char>,
    id: Seq<char>,
    label: Seq<char>,
    tail: Seq<char>,
)
    requires
        forall|i: int| 0 <= i < lead.len() ==> white_space(#[trigger] lead[i]),
        !id.contains('>'),
        !id.contains('|'),
        !label.contains('>'),
    ensures
        mention(lead + seq!['<', '@'] + id + seq!['>'] + tail) == Some(id),
        mention(lead + seq!['<', '@'] + (id + seq!['|'] + label) + seq!['>'] + tail) == Some(id),
{
    lemma_mention_between(lead, id, tail);
    lemma_first_index(id, '|');
    assert(before(id, '|') == id);
    let inside = id + seq!['|'] + label;
    if inside.contains('>') {
        let k = inside.index_of('>');
        if k < id.len() {
            assert(id[k] == '>');
        } else {
            assert(label[k - id.len() - 1] == '>');
        }
    }
    lemma_mention_between(lead, inside, tail);
    lemma_first_index_is(inside, '|', id.len() as int);
    assert(before(inside, '|') == id);
}

/// An id that was read holds neither of the characters that end it.
pub proof fn lemma_mention_is_clean(text: Seq<char>)
    ensures
        mention(text) matches Some(id) ==> !id.contains('>') && !id.contains('|'),
{
    let rest = trimmed(text).skip(2);
    let inside = before(rest, '>');
    lemma_first_index(rest, '>');
    lemma_first_index(inside, '|');
    let id = before(inside, '|');
    assert forall|k: int| 0 <= k < id.len() implies id[k] != '>' && id[k] != '|' by {
        assert(id[k] == inside[k] && inside[k] == rest[k]);
    }
}

/// A text mentions somebody exactly if `<@` comes first in it, white space aside, and a `>` comes
/// after that; what stands between the two decides whom.
pub proof fn lemma_mention_shape(text: Seq<char>)
    ensures
        mention(text) is Some <==> exists|lead: Seq<char>, inside: Seq<char>, tail: Seq<char>|
            is_mention(text, lead, inside, tail),
        forall|lead: Seq<char>, inside: Seq<char>, tail: Seq<char>| #[trigger]
            is_mention(text, lead, inside, tail) ==> mention(text) == Some(before(inside, '|')),
{
    if mention(text) is Some {
        let t = trimmed(text);
        lemma_trimmed_is_bare(text);
        let (from, to) = choose|from: int, to: int|
            0 <= from <= to <= text.len() && t == #[trigger] text.subrange(from, to) && (forall|
                i: int,
            |
                0 <= i < from || to <= i < text.len() ==> white_space(#[trigger] text[i]));
        let rest = t.skip(2);
        lemma_first_index(rest, '>');
        let g = t.index_of('>');
        assert(rest[g - 2] == '>');
        let end = first_index(rest, '>');
        let lead = text.take(from);
        let inside = rest.take(end);
        let tail = text.skip(from + 2 + end + 1);
        assert(t[0] == text[from] && t[1] == text[from + 1]);
        assert(t[2 + end] == '>');
        assert(text[from + 2 + end] == '>');
        assert forall|i: int| 0 <= i < inside.len() implies inside[i] == text[from + 2 + i] by {
            assert(inside[i] == t[2 + i]);
        }
        assert(text =~= lead + seq!['<', '@'] + inside + seq!['>'] + tail);
        assert(!inside.contains('>'));
        assert(is_mention(text, lead, inside, tail));
    }
    assert forall|lead: Seq<char>, inside: Seq<char>, tail: Seq<char>| #[trigger]
        is_mention(text, lead, inside, tail) implies mention(text) == Some(before(inside, '|')) by {
        lemma_mention_between(lead, inside, tail);
    }
}

/// Whether `text` is white space, then `<@`, `inside` and `>`, and then anything.
pub open spec fn is_mention(
    text: Seq<char>,
    lead: Seq<char>,
    inside: Seq<char>,
    tail: Seq<char>,
) -> bool {
    &&& text == lead + seq!['<', '@'] + inside + seq!['>'] + tail
    &&& forall|i: int| 0 <= i < lead.len() ==> white_space(#[trigger] lead[i])
    &&& !inside.contains('>')
}

} // verus!
