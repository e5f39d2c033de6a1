//! Operations on text, stated over the characters of a string.

use vstd::prelude::*;

verus! {

/// Whether `c` has the Unicode property White_Space.
pub open spec fn white_space(c: char) -> bool {
    ||| '\u{9}' <= c <= '\u{d}'
    ||| c == '\u{20}'
    ||| c == '\u{85}'
    ||| c == '\u{a0}'
    ||| c == '\u{1680}'
    ||| '\u{2000}' <= c <= '\u{200a}'
    ||| c == '\u{2028}'
    ||| c == '\u{2029}'
    ||| c == '\u{202f}'
    ||| c == '\u{205f}'
    ||| c == '\u{3000}'
}

/// Tells whether `c` has the Unicode property White_Space.
pub fn is_white_space(c: char) -> (b: bool)
    ensures
        b == white_space(c),
{
    ('\u{9}' <= c && c <= '\u{d}') || c == '\u{20}' || c == '\u{85}' || c == '\u{a0}'
        || c == '\u{1680}' || ('\u{2000}' <= c && c <= '\u{200a}') || c == '\u{2028}'
        || c == '\u{2029}' || c == '\u{202f}' || c == '\u{205f}' || c == '\u{3000}'
}

/// The characters of a string, in order.
pub fn chars_of(s: &str) -> (v: Vec<char>)
    ensures
        v@ == s@,
{
    let mut v: Vec<char> = Vec::new();
    for c in it: s.chars()
        invariant
            it.seq() == s@,
            v@ == s@.take(it.index()),
    {
        v.push(c);
    }
    v
}

/// `s` without the white space that it starts with.
pub open spec fn trimmed_start(s: Seq<char>) -> Seq<char>
    decreases s.len(),
{
    if s.len() > 0 && white_space(s.first()) {
        trimmed_start(s.drop_first())
    } else {
        s
    }
}

/// `s` without the white space that it ends with.
pub open spec fn trimmed_end(s: Seq<char>) -> Seq<char>
    decreases s.len(),
{
    if s.len() > 0 && white_space(s.last()) {
        trimmed_end(s.drop_last())
    } else {
        s
    }
}

/// `s` without the white space around it.
pub open spec fn trimmed(s: Seq<char>) -> Seq<char> {
    trimmed_end(trimmed_start(s))
}

proof fn lemma_trimmed_start(s: Seq<char>) -> (k: int)
    ensures
        0 <= k <= s.len(),
        trimmed_start(s) == s.skip(k),
        forall|i: int| 0 <= i < k ==> white_space(#[trigger] s[i]),
        k < s.len() ==> !white_space(s[k]),
    decreases s.len(),
{
    if s.len() > 0 && white_space(s.first()) {
        let t = s.drop_first();
        let k = lemma_trimmed_start(t);
        assert(t.skip(k) == s.skip(k + 1));
        assert forall|i: int| 0 <= i < k + 1 implies white_space(#[trigger] s[i]) by {
            if i > 0 {
                assert(s[i] == t[i - 1]);
            }
        }
        k + 1
    } else {
        assert(s.skip(0) == s);
        0
    }
}

proof fn lemma_trimmed_end(s: Seq<char>) -> (k: int)
    ensures
        0 <= k <= s.len(),
        trimmed_end(s) == s.take(k),
        forall|i: int| k <= i < s.len() ==> white_space(#[trigger] s[i]),
        k > 0 ==> !white_space(s[k - 1]),
    decreases s.len(),
{
    if s.len() > 0 && white_space(s.last()) {
        let t = s.drop_last();
        let k = lemma_trimmed_end(t);
        assert(t.take(k) == s.take(k));
        assert forall|i: int| k <= i < s.len() implies white_space(#[trigger] s[i]) by {
            if i < t.len() {
                assert(s[i] == t[i]);
            }
        }
        k
    } else {
        assert(s.take(s.len() as int) == s);
        s.len() as int
    }
}

/// Trimming takes nothing but white space away, and all of it at both ends.
pub proof fn lemma_trimmed_is_bare(s: Seq<char>)
    ensures
        exists|from: int, to: int|
            0 <= from <= to <= s.len() && trimmed(s) == #[trigger] s.subrange(from, to) && (forall|
                i: int,
            |
                0 <= i < from || to <= i < s.len() ==> white_space(#[trigger] s[i])),
        trimmed(s).len() > 0 ==> !white_space(trimmed(s).first()) && !white_space(
            trimmed(s).last(),
        ),
{
    let from = lemma_trimmed_start(s);
    let t = trimmed_start(s);
    let k = lemma_trimmed_end(t);
    assert(t.take(k) == s.subrange(from, from + k));
    assert forall|i: int| from + k <= i < s.len() implies white_space(#[trigger] s[i]) by {
        assert(s[i] == t[i - from]);
    }
}

/// Takes the white space around a text away.
pub fn trim(s: &str) -> (r: &str)
    ensures
        r@ == trimmed(s@),
{
    let v = chars_of(s);
    let n: usize = v.len();
    let mut i: usize = 0;
    assert(s@.skip(0) == s@);
    while i < n && is_white_space(v[i])
        invariant
            i <= n == v.len(),
            v@ == s@,
            trimmed_start(s@.skip(i as int)) == trimmed_start(s@),
        decreases n - i,
    {
        assert(s@.skip(i as int).drop_first() == s@.skip(i + 1));
        i = i + 1;
    }
    assert(trimmed_start(s@) == s@.skip(i as int));
    let mut j: usize = n;
    assert(s@.subrange(i as int, n as int) == s@.skip(i as int));
    while i < j && is_white_space(v[j - 1])
        invariant
            i <= j <= n == v.len(),
            v@ == s@,
            trimmed_end(s@.subrange(i as int, j as int)) == trimmed(s@),
        decreases j,
    {
        assert(s@.subrange(i as int, j as int).drop_last() == s@.subrange(i as int, j - 1));
        j = j - 1;
    }
    s.substring_char(i, j)
}

/// Where `c` comes first in `s`; the length of `s` if it does not come.
pub open spec fn first_index(s: Seq<char>, c: char) -> int
    decreases s.len(),
{
    if s.len() == 0 || s.first() == c {
        0
    } else {
        1 + first_index(s.drop_first(), c)
    }
}

/// The part of `s` that stands before the first `c`; all of `s` if there is none.
pub open spec fn before(s: Seq<char>, c: char) -> Seq<char> {
    s.take(first_index(s, c))
}

/// What makes a position the first one of a character.
pub proof fn lemma_first_index(s: Seq<char>, c: char)
    ensures
        0 <= first_index(s, c) <= s.len(),
        first_index(s, c) < s.len() ==> s[first_index(s, c)] == c,
        forall|k: int| 0 <= k < first_index(s, c) ==> s[k] != c,
        first_index(s, c) == s.len() <==> !s.contains(c),
    decreases s.len(),
{
    if s.len() > 0 && s.first() != c {
        let t = s.drop_first();
        lemma_first_index(t, c);
        assert forall|k: int| 0 <= k < first_index(s, c) implies s[k] != c by {
            if k > 0 {
                assert(s[k] == t[k - 1]);
            }
        }
        if s.contains(c) {
            let k = s.index_of(c);
            assert(t[k - 1] == c);
        }
        if t.contains(c) {
            let k = t.index_of(c);
            assert(s[k + 1] == c);
        }
    }
}

/// A position with `c` at it and no `c` ahead of it is the first one.
pub proof fn lemma_first_index_is(s: Seq<char>, c: char, k: int)
    requires
        0 <= k <= s.len(),
        k < s.len() ==> s[k] == c,
        forall|j: int| 0 <= j < k ==> s[j] != c,
    ensures
        first_index(s, c) == k,
{
    lemma_first_index(s, c);
    if first_index(s, c) < k {
        assert(s[first_index(s, c)] == c);
    }
}

/// Finds the first `c` in the part of `v` from `from` up to `to`; gives `to` if there is none.
pub fn find_char(v: &Vec<char>, from: usize, to: usize, c: char) -> (r: usize)
    requires
        from <= to <= v.len(),
    ensures
        from <= r <= to,
        r == from + first_index(v@.subrange(from as int, to as int), c),
{
    let mut i: usize = from;
    while i < to && v[i] != c
        invariant
            from <= i <= to <= v.len(),
            forall|j: int| from <= j < i ==> v@[j] != c,
        decreases to - i,
    {
        i = i + 1;
    }
    proof {
        lemma_first_index_is(v@.subrange(from as int, to as int), c, i - from);
    }
    i
}

/// Whether `needle` stands in `s` from position `k` on.
pub open spec fn text_at(s: Seq<char>, needle: Seq<char>, k: int) -> bool {
    &&& 0 <= k <= s.len() - needle.len()
    &&& s.subrange(k, k + needle.len()) == needle
}

/// Whether `needle` stands somewhere in `s`.
pub open spec fn has_text(s: Seq<char>, needle: Seq<char>) -> bool {
    exists|k: int| text_at(s, needle, k)
}

/// Tells whether `needle` stands somewhere in `s`.
pub fn contains_text(s: &str, needle: &str) -> (b: bool)
    ensures
        b == has_text(s@, needle@),
{
    let v = chars_of(s);
    let w = chars_of(needle);
    if w.len() > v.len() {
        return false;
    }
    let last: usize = v.len() - w.len();
    let mut k: usize = 0;
    loop
        invariant
            v@ == s@,
            w@ == needle@,
            k <= last,
            last + w.len() == v.len(),
            forall|j: int| 0 <= j < k ==> !text_at(s@, needle@, j),
        decreases last - k,
    {
        let mut m: usize = 0;
        while m < w.len() && v[k + m] == w[m]
            invariant
                v@ == s@,
                w@ == needle@,
                k <= last,
                last + w.len() == v.len(),
                m <= w.len(),
                forall|j: int| 0 <= j < m ==> v@[k + j] == w@[j],
            decreases w.len() - m,
        {
            m = m + 1;
        }
        if m == w.len() {
            assert(s@.subrange(k as int, k + needle@.len()) == needle@);
            assert(text_at(s@, needle@, k as int));
            return true;
        }
        assert(s@.subrange(k as int, k + needle@.len())[m as int] != needle@[m as int]);
        if k == last {
            return false;
        }
        k = k + 1;
    }
}

/// Tells whether two texts are the same.
pub fn same_text(a: &str, b: &str) -> (r: bool)
    ensures
        r == (a@ == b@),
{
    let v = chars_of(a);
    let w = chars_of(b);
    if v.len() != w.len() {
        return false;
    }
    let mut i: usize = 0;
    while i < v.len()
        invariant
            v@ == a@,
            w@ == b@,
            i <= v.len() == w.len(),
            forall|j: int| 0 <= j < i ==> v@[j] == w@[j],
        decreases v.len() - i,
    {
        if v[i] != w[i] {
            return false;
        }
        i = i + 1;
    }
    assert(a@ =~= b@);
    true
}

/// The characters of each string of a sequence.
pub open spec fn texts(v: Seq<String>) -> Seq<Seq<char>> {
    Seq::new(v.len(), |i: int| v[i]@)
}

/// Tells whether a text is among those of a list.
pub fn among(list: &Vec<String>, s: &str) -> (b: bool)
    ensures
        b == texts(list@).contains(s@),
{
    let mut i: usize = 0;
    while i < list.len()
        invariant
            i <= list.len(),
            forall|j: int| 0 <= j < i ==> list@[j]@ != s@,
        decreases list.len() - i,
    {
        if same_text(list[i].as_str(), s) {
            assert(texts(list@)[i as int] == s@);
            return true;
        }
        i = i + 1;
    }
    false
}

/// The texts of a sequence, one after the other.
pub open spec fn concat(parts: Seq<Seq<char>>) -> Seq<char>
    decreases parts.len(),
{
    if parts.len() == 0 {
        seq![]
    } else {
        concat(parts.drop_last()) + parts.last()
    }
}

/// The texts of a sequence with `sep` between each and the next.
pub open spec fn joined(parts: Seq<Seq<char>>, sep: Seq<char>) -> Seq<char> {
    concat(
        Seq::new(
            parts.len(),
            |i: int|
                if i == 0 {
                    parts[i]
                } else {
                    sep + parts[i]
                },
        ),
    )
}

/// Joins texts, with `sep` between each and the next.
pub fn join(parts: &Vec<String>, sep: &str) -> (r: String)
    ensures
        r@ == joined(texts(parts@), sep@),
{
    let ghost pieces = Seq::new(
        parts@.len(),
        |i: int|
            if i == 0 {
                texts(parts@)[i]
            } else {
                sep@ + texts(parts@)[i]
            },
    );
    let mut r = String::new();
    let mut i: usize = 0;
    while i < parts.len()
        invariant
            i <= parts.len() == pieces.len(),
            forall|j: int|
                0 <= j < pieces.len() ==> #[trigger] pieces[j] == (if j == 0 {
                    parts@[j]@
                } else {
                    sep@ + parts@[j]@
                }),
            r@ == concat(pieces.take(i as int)),
        decreases parts.len() - i,
    {
        let ghost before_piece = r@;
        if i > 0 {
            r.append(sep);
        }
        r.append(parts[i].as_str());
        proof {
            assert(pieces.take(i + 1).drop_last() == pieces.take(i as int));
            assert(pieces.take(i + 1).last() == pieces[i as int]);
            assert(r@ =~= before_piece + pieces[i as int]);
        }
        i = i + 1;
    }
    assert(pieces.take(parts@.len() as int) == pieces);
    r
}

/// The character that stands for a number below ten.
pub open spec fn digit(d: nat) -> char {
    (48 + d) as char
}

/// A number written in decimal, without leading zeros.
pub open spec fn decimal(n: nat) -> Seq<char>
    decreases n,
{
    if n < 10 {
        seq![digit(n)]
    } else {
        decimal(n / 10).push(digit(n % 10))
    }
}

fn digit_text(d: u64) -> (r: &'static str)
    requires
        d < 10,
    ensures
        r@ == seq![digit(d as nat)],
{
    proof {
        reveal_strlit("0");
        reveal_strlit("1");
        reveal_strlit("2");
        reveal_strlit("3");
        reveal_strlit("4");
        reveal_strlit("5");
        reveal_strlit("6");
        reveal_strlit("7");
        reveal_strlit("8");
        reveal_strlit("9");
    }
    match d {
        0 => "0",
        1 => "1",
        2 => "2",
        3 => "3",
        4 => "4",
        5 => "5",
        6 => "6",
        7 => "7",
        8 => "8",
        _ => "9",
    }
}

/// Writes a number in decimal.
pub fn decimal_text(n: u64) -> (r: String)
    ensures
        r@ == decimal(n as nat),
    decreases n,
{
    if n < 10 {
        digit_text(n).to_owned()
    } else {
        let mut r = decimal_text(n / 10);
        r.append(digit_text(n % 10));
        assert(r@ =~= decimal(n as nat));
        r
    }
}

/// A text stands in every text that is built around it, and in no other.
pub proof fn lemma_has_text_inside(s: Seq<char>, needle: Seq<char>)
    ensures
        has_text(s, needle) <==> exists|a: Seq<char>, b: Seq<char>| s == #[trigger] (a + needle + b),
{
    if has_text(s, needle) {
        let k = choose|k: int| text_at(s, needle, k);
        let a = s.take(k);
        let b = s.skip(k + needle.len());
        assert(s =~= a + needle + b);
    }
    if exists|a: Seq<char>, b: Seq<char>| s == #[trigger] (a + needle + b) {
        let (a, b) = choose|a: Seq<char>, b: Seq<char>| s == #[trigger] (a + needle + b);
        assert(s.subrange(a.len() as int, a.len() as int + needle.len()) =~= needle);
        assert(text_at(s, needle, a.len() as int));
    }
}

/// The texts of a list are those of its strings, one for one.
pub proof fn lemma_texts_one_for_one(v: Seq<String>)
    ensures
        texts(v).len() == v.len(),
        forall|i: int| 0 <= i < v.len() ==> (#[trigger] texts(v)[i]) == v[i]@,
{
}

/// What comes last in a sequence of texts comes last in all of them together.
pub proof fn lemma_concat_grows(parts: Seq<Seq<char>>, last: Seq<char>)
    ensures
        concat(Seq::<Seq<char>>::empty()) == Seq::<char>::empty(),
        concat(parts.push(last)) == concat(parts) + last,
{
    assert(parts.push(last).drop_last() == parts);
}

/// Joining puts the separator between each text and the next, and nowhere else.
pub proof fn lemma_joined_grows(parts: Seq<Seq<char>>, last: Seq<char>, sep: Seq<char>)
    ensures
        joined(Seq::<Seq<char>>::empty(), sep) == Seq::<char>::empty(),
        joined(seq![last], sep) == last,
        parts.len() > 0 ==> joined(parts.push(last), sep) == joined(parts, sep) + sep + last,
{
    let piece = |list: Seq<Seq<char>>|
        Seq::new(
            list.len(),
            |i: int|
                if i == 0 {
                    list[i]
                } else {
                    sep + list[i]
                },
        );
    assert(piece(Seq::<Seq<char>>::empty()) =~= Seq::<Seq<char>>::empty());
    assert(piece(seq![last]) =~= Seq::<Seq<char>>::empty().push(last));
    lemma_concat_grows(Seq::<Seq<char>>::empty(), last);
    assert(Seq::<char>::empty() + last =~= last);
    if parts.len() > 0 {
        assert(piece(parts.push(last)) =~= piece(parts).push(sep + last));
        lemma_concat_grows(piece(parts), sep + last);
        assert(concat(piece(parts)) + (sep + last) =~= concat(piece(parts)) + sep + last);
    }
}

/// Writing a number in decimal: a number below ten is its one digit, and a digit behind a number
/// makes it ten times as large and that digit larger.
pub proof fn lemma_decimal_by_digits(n: nat, d: nat)
    requires
        d < 10,
    ensures
        decimal(d).len() == 1,
        decimal(d)[0] as int == '0' as int + d,
        n > 0 ==> decimal(10 * n + d) == decimal(n) + decimal(d),
{
    if n > 0 {
        assert((10 * n + d) / 10 == n && (10 * n + d) % 10 == d);
        assert(decimal(n).push(digit(d)) =~= decimal(n) + decimal(d));
    }
}

} // verus!
