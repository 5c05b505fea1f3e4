//! Text as a sequence of characters: whitespace, splitting, words and lines.

use vstd::prelude::*;
use vstd::slice::slice_subrange;

verus! {

/// [`String::push`] appends the character to the end of the string.
pub assume_specification[ String::push ](s: &mut String, c: char)
    ensures
        final(s)@ == old(s)@.push(c),
;

/// The characters with the Unicode property White_Space.
pub open spec fn is_space(c: char) -> bool {
    ||| '\u{9}' <= c <= '\u{d}'
    ||| c == '\u{20}'
    ||| c == '\u{85}'
    ||| c == '\u{a0}'
    ||| c == '\u{1680}'
    ||| '\u{2000}' <= c <= '\u{200a}'
    ||| c == '\u{2028}'
    ||| c == '\u{2029}'
    ||| c == '\u{202f}'
    ||| c == '\u{205f}'
    ||| c == '\u{3000}'
}

/// Whether the character is whitespace.
pub fn is_whitespace(c: char) -> (r: bool)
    ensures
        r == is_space(c),
{
    ('\u{9}' <= c && c <= '\u{d}') || c == '\u{20}' || c == '\u{85}' || c == '\u{a0}' || c
        == '\u{1680}' || ('\u{2000}' <= c && c <= '\u{200a}') || c == '\u{2028}' || c == '\u{2029}'
        || c == '\u{202f}' || c == '\u{205f}' || c == '\u{3000}'
}

/// The characters of a string.
pub fn chars_of(s: &str) -> (v: Vec<char>)
    ensures
        v@ == s@,
{
    let mut v: Vec<char> = Vec::new();
    for c in it: s.chars()
        invariant
            v@ == it.seq().take(it.index()),
            it.seq() == s@,
    {
        v.push(c);
    }
    v
}

/// Appends characters to a string.
pub fn push_chars(out: &mut String, s: &[char])
    ensures
        final(out)@ == old(out)@ + s@,
{
    for i in 0..s.len()
        invariant
            out@ == old(out)@ + s@.take(i as int),
    {
        out.push(s[i]);
    }
}

/// The string made of the characters.
pub fn string_of(s: &[char]) -> (r: String)
    ensures
        r@ == s@,
{
    let mut out = String::new();
    push_chars(&mut out, s);
    out
}

/// Whether the characters are exactly those of the string.
pub fn same(s: &[char], t: &str) -> (r: bool)
    ensures
        r == (s@ == t@),
{
    let u = chars_of(t);
    if s.len() != u.len() {
        return false;
    }
    for i in 0..s.len()
        invariant
            u@ == t@,
            s@.len() == u@.len(),
            s@.take(i as int) == u@.take(i as int),
    {
        if s[i] != u[i] {
            assert(s@[i as int] != u@[i as int]);
            return false;
        }
    }
    assert(s@.take(s@.len() as int) == s@);
    assert(u@.take(u@.len() as int) == u@);
    true
}

/// The index of the first `c` in `s`, or the length of `s` where there is none.
pub open spec fn position(s: Seq<char>, c: char) -> nat
    decreases s.len(),
{
    if s.len() == 0 || s[0] == c {
        0
    } else {
        1 + position(s.drop_first(), c)
    }
}

/// What [`position`] finds: a `c` with none before it, or the end.
pub proof fn lemma_position(s: Seq<char>, c: char)
    ensures
        position(s, c) <= s.len(),
        position(s, c) < s.len() ==> s[position(s, c) as int] == c,
        forall|i: int| 0 <= i < position(s, c) ==> #[trigger] s[i] != c,
    decreases s.len(),
{
    if s.len() != 0 && s[0] != c {
        let t = s.drop_first();
        lemma_position(t, c);
        assert forall|i: int| 0 <= i < position(s, c) implies #[trigger] s[i] != c by {
            if i > 0 {
                assert(s[i] == t[i - 1]);
            }
        }
    }
}

/// The one index that is a `c` with none before it, or the end, is the position.
pub proof fn lemma_position_is(s: Seq<char>, c: char, p: int)
    requires
        0 <= p <= s.len(),
        p < s.len() ==> s[p] == c,
        forall|i: int| 0 <= i < p ==> #[trigger] s[i] != c,
    ensures
        position(s, c) == p,
{
    lemma_position(s, c);
    let q = position(s, c) as int;
    if q < p {
        assert(s[q] != c);
    } else if p < q {
        assert(s[p] != c);
    }
}

/// The index of the first `c` in `s`, or the length of `s` where there is none.
pub fn find(s: &[char], c: char) -> (p: usize)
    ensures
        p == position(s@, c),
{
    let mut i: usize = 0;
    while i < s.len()
        invariant
            i <= s@.len(),
            forall|j: int| 0 <= j < i ==> #[trigger] s@[j] != c,
        decreases s@.len() - i,
    {
        if s[i] == c {
            proof {
                lemma_position_is(s@, c, i as int);
            }
            return i;
        }
        i += 1;
    }
    proof {
        lemma_position_is(s@, c, i as int);
    }
    i
}

/// The parts of `s` before and after its first `c`, where it holds one.
pub open spec fn parted(s: Seq<char>, c: char) -> Option<(Seq<char>, Seq<char>)> {
    let p = position(s, c) as int;
    if p < s.len() {
        Some((s.take(p), s.skip(p + 1)))
    } else {
        None
    }
}

/// The parts of `s` before and after its first `c`, where it holds one.
pub fn split_once(s: &[char], c: char) -> (r: Option<(&[char], &[char])>)
    ensures
        match r {
            Some((a, b)) => parted(s@, c) == Some((a@, b@)),
            None => parted(s@, c) is None,
        },
{
    let p = find(s, c);
    proof {
        lemma_position(s@, c);
    }
    if p < s.len() {
        let a = slice_subrange(s, 0, p);
        let b = slice_subrange(s, p + 1, s.len());
        assert(a@ == s@.take(p as int));
        assert(b@ == s@.skip(p + 1));
        Some((a, b))
    } else {
        None
    }
}

/// The pieces of `s` between its occurrences of `c`. There is one more of them
/// than of these occurrences, and an empty text is one empty piece.
pub open spec fn pieces(s: Seq<char>, c: char) -> Seq<Seq<char>>
    decreases s.len(),
    via pieces_shrink
{
    match parted(s, c) {
        Some((a, b)) => seq![a] + pieces(b, c),
        None => seq![s],
    }
}

#[via_fn]
proof fn pieces_shrink(s: Seq<char>, c: char) {
    lemma_position(s, c);
}

/// The number of whitespace characters that `s` starts with.
pub open spec fn space_run(s: Seq<char>) -> nat
    decreases s.len(),
{
    if s.len() == 0 || !is_space(s[0]) {
        0
    } else {
        1 + space_run(s.drop_first())
    }
}

/// The number of characters before the first whitespace of `s`.
pub open spec fn word_run(s: Seq<char>) -> nat
    decreases s.len(),
{
    if s.len() == 0 || is_space(s[0]) {
        0
    } else {
        1 + word_run(s.drop_first())
    }
}

/// `s` without the whitespace it starts with.
pub open spec fn trimmed_start(s: Seq<char>) -> Seq<char> {
    s.skip(space_run(s) as int)
}

/// `s` without the whitespace it ends in.
pub open spec fn trimmed_end(s: Seq<char>) -> Seq<char>
    decreases s.len(),
{
    if s.len() != 0 && is_space(s.last()) {
        trimmed_end(s.drop_last())
    } else {
        s
    }
}

/// `s` without the whitespace it starts with and ends in.
pub open spec fn trimmed(s: Seq<char>) -> Seq<char> {
    trimmed_end(trimmed_start(s))
}

/// What [`space_run`] counts: whitespace up to another character or the end.
pub proof fn lemma_space_run_is(s: Seq<char>, n: int)
    requires
        0 <= n <= s.len(),
        n < s.len() ==> !is_space(s[n]),
        forall|i: int| 0 <= i < n ==> is_space(#[trigger] s[i]),
    ensures
        space_run(s) == n,
    decreases s.len(),
{
    if n > 0 {
        let t = s.drop_first();
        assert(is_space(s[0]));
        assert forall|i: int| 0 <= i < n - 1 implies is_space(#[trigger] t[i]) by {
            assert(t[i] == s[i + 1]);
        }
        lemma_space_run_is(t, n - 1);
    }
}

/// What [`word_run`] counts: other characters up to whitespace or the end.
pub proof fn lemma_word_run_is(s: Seq<char>, n: int)
    requires
        0 <= n <= s.len(),
        n < s.len() ==> is_space(s[n]),
        forall|i: int| 0 <= i < n ==> !is_space(#[trigger] s[i]),
    ensures
        word_run(s) == n,
    decreases s.len(),
{
    if n > 0 {
        let t = s.drop_first();
        assert(!is_space(s[0]));
        assert forall|i: int| 0 <= i < n - 1 implies !is_space(#[trigger] t[i]) by {
            assert(t[i] == s[i + 1]);
        }
        lemma_word_run_is(t, n - 1);
    }
}

/// The slice without the whitespace it starts with.
pub fn trim_start(s: &[char]) -> (r: &[char])
    ensures
        r@ == trimmed_start(s@),
{
    let mut i: usize = 0;
    while i < s.len() && is_whitespace(s[i])
        invariant
            i <= s@.len(),
            forall|j: int| 0 <= j < i ==> is_space(#[trigger] s@[j]),
        decreases s@.len() - i,
    {
        i += 1;
    }
    proof {
        lemma_space_run_is(s@, i as int);
    }
    let r = slice_subrange(s, i, s.len());
    assert(r@ == s@.skip(i as int));
    r
}

/// The slice without the whitespace it starts with and ends in.
pub fn trim(s: &[char]) -> (r: &[char])
    ensures
        r@ == trimmed(s@),
{
    let t = trim_start(s);
    let mut n: usize = t.len();
    assert(t@.take(n as int) == t@);
    while n > 0 && is_whitespace(t[n - 1])
        invariant
            n <= t@.len(),
            trimmed_end(t@) == trimmed_end(t@.take(n as int)),
        decreases n,
    {
        assert(t@.take(n as int).drop_last() == t@.take(n - 1));
        n -= 1;
    }
    let r = slice_subrange(t, 0, n);
    assert(r@ == t@.take(n as int));
    r
}

/// The first run of `s` of characters other than whitespace; empty where
/// there is none.
pub open spec fn first_word(s: Seq<char>) -> Seq<char> {
    let t = trimmed_start(s);
    t.take(word_run(t) as int)
}

/// What follows the first word of `s`.
pub open spec fn after_word(s: Seq<char>) -> Seq<char> {
    let t = trimmed_start(s);
    t.skip(word_run(t) as int)
}

/// The first word of `s`, and what follows it.
pub fn next_word(s: &[char]) -> (r: (&[char], &[char]))
    ensures
        r.0@ == first_word(s@),
        r.1@ == after_word(s@),
{
    let t = trim_start(s);
    let mut i: usize = 0;
    while i < t.len() && !is_whitespace(t[i])
        invariant
            i <= t@.len(),
            forall|j: int| 0 <= j < i ==> !is_space(#[trigger] t@[j]),
        decreases t@.len() - i,
    {
        i += 1;
    }
    proof {
        lemma_word_run_is(t@, i as int);
    }
    let a = slice_subrange(t, 0, i);
    let b = slice_subrange(t, i, t.len());
    assert(a@ == t@.take(i as int));
    assert(b@ == t@.skip(i as int));
    (a, b)
}

/// `s` without the carriage return it ends in, if it does.
pub open spec fn without_return(s: Seq<char>) -> Seq<char> {
    if s.len() != 0 && s.last() == '\r' {
        s.drop_last()
    } else {
        s
    }
}

/// The lines of `s`. A line ends at a line feed, which is no part of it, nor
/// is a carriage return right before that line feed. What follows the last
/// line feed is a line if it is not empty.
pub open spec fn lines(s: Seq<char>) -> Seq<Seq<char>>
    decreases s.len(),
    via lines_shrink
{
    match parted(s, '\n') {
        Some((a, b)) => seq![without_return(a)] + lines(b),
        None => if s.len() == 0 {
            seq![]
        } else {
            seq![s]
        },
    }
}

#[via_fn]
proof fn lines_shrink(s: Seq<char>) {
    lemma_position(s, '\n');
}

/// The first line of `s` and what follows it, or nothing where `s` is empty.
pub fn next_line(s: &[char]) -> (r: Option<(&[char], &[char])>)
    ensures
        match r {
            Some((line, rest)) => {
                &&& lines(s@) == seq![line@] + lines(rest@)
                &&& rest@.len() < s@.len()
            },
            None => lines(s@) == Seq::<Seq<char>>::empty(),
        },
{
    proof {
        lemma_position(s@, '\n');
    }
    match split_once(s, '\n') {
        Some((a, b)) => {
            if a.len() > 0 && a[a.len() - 1] == '\r' {
                let line = slice_subrange(a, 0, a.len() - 1);
                assert(line@ == a@.drop_last());
                Some((line, b))
            } else {
                Some((a, b))
            }
        },
        None => {
            if s.len() == 0 {
                None
            } else {
                let rest = slice_subrange(s, s.len(), s.len());
                assert(rest@.len() == 0);
                assert(lines(rest@) == Seq::<Seq<char>>::empty());
                assert(lines(s@) == seq![s@] + lines(rest@));
                Some((s, rest))
            }
        },
    }
}

/// The character with an ASCII capital made small.
pub open spec fn lowered(c: char) -> char {
    if 'A' <= c <= 'Z' {
        (c as u32 + 32) as char
    } else {
        c
    }
}

/// Whether `s` starts with `prefix`, ASCII capitals of `s` taken as small.
pub open spec fn starts_lowered(s: Seq<char>, prefix: Seq<char>) -> bool {
    &&& prefix.len() <= s.len()
    &&& forall|i: int| 0 <= i < prefix.len() ==> lowered(#[trigger] s[i]) == prefix[i]
}

/// The character with an ASCII capital made small.
pub fn to_lower(c: char) -> (r: char)
    ensures
        r == lowered(c),
{
    if 'A' <= c && c <= 'Z' {
        (c as u8 + 32) as char
    } else {
        c
    }
}

/// Whether `s` starts with `prefix`, ASCII capitals of `s` taken as small.
pub fn starts_with_lowered(s: &[char], prefix: &str) -> (r: bool)
    ensures
        r == starts_lowered(s@, prefix@),
{
    let p = chars_of(prefix);
    if s.len() < p.len() {
        return false;
    }
    for i in 0..p.len()
        invariant
            p@ == prefix@,
            p@.len() <= s@.len(),
            forall|j: int| 0 <= j < i ==> lowered(#[trigger] s@[j]) == p@[j],
    {
        if to_lower(s[i]) != p[i] {
            assert(lowered(s@[i as int]) != p@[i as int]);
            return false;
        }
    }
    true
}

/// Whether `c` occurs in `s`.
pub open spec fn holds(s: Seq<char>, c: char) -> bool {
    exists|i: int| 0 <= i < s.len() && #[trigger] s[i] == c
}

/// Whether `s` is free of whitespace.
pub open spec fn is_spaceless(s: Seq<char>) -> bool {
    forall|i: int| 0 <= i < s.len() ==> !is_space(#[trigger] s[i])
}

/// The texts one after the other, with a `c` between each two of them.
pub open spec fn joined(texts: Seq<Seq<char>>, c: char) -> Seq<char>
    decreases texts.len(),
{
    if texts.len() == 0 {
        seq![]
    } else if texts.len() == 1 {
        texts[0]
    } else {
        texts[0] + seq![c] + joined(texts.drop_first(), c)
    }
}

/// One more text joins behind the others.
pub proof fn lemma_joined_push(texts: Seq<Seq<char>>, c: char, more: Seq<char>)
    requires
        texts.len() != 0,
    ensures
        joined(texts.push(more), c) == joined(texts, c) + seq![c] + more,
    decreases texts.len(),
{
    let all = texts.push(more);
    let rest = texts.drop_first();
    assert(all.drop_first() == rest.push(more));
    if texts.len() == 1 {
        assert(all.drop_first() == seq![more]);
        assert(joined(all.drop_first(), c) == more);
    } else {
        lemma_joined_push(rest, c, more);
        assert(joined(all, c) == texts[0] + seq![c] + (joined(rest, c) + seq![c] + more));
        assert(joined(all, c) == joined(texts, c) + seq![c] + more);
    }
}

/// The texts one after the other, each ended by a carriage return and a line
/// feed.
pub open spec fn as_lines(texts: Seq<Seq<char>>) -> Seq<char>
    decreases texts.len(),
{
    if texts.len() == 0 {
        seq![]
    } else {
        texts[0] + seq!['\r', '\n'] + as_lines(texts.drop_first())
    }
}

/// A text without `c` that is followed by a `c` is parted there.
pub proof fn lemma_parted_at(a: Seq<char>, c: char, b: Seq<char>)
    requires
        !holds(a, c),
    ensures
        parted(a + seq![c] + b, c) == Some((a, b)),
{
    let s = a + seq![c] + b;
    let p = a.len() as int;
    assert forall|i: int| 0 <= i < p implies #[trigger] s[i] != c by {
        assert(s[i] == a[i]);
    }
    assert(s[p] == c);
    lemma_position_is(s, c, p);
    assert(s.take(p) == a);
    assert(s.skip(p + 1) == b);
}

/// A text without `c` is not parted.
pub proof fn lemma_not_parted(a: Seq<char>, c: char)
    requires
        !holds(a, c),
    ensures
        parted(a, c) is None,
{
    assert forall|i: int| 0 <= i < a.len() implies #[trigger] a[i] != c by {}
    lemma_position_is(a, c, a.len() as int);
}

/// Texts without `c`, joined by `c`, are the pieces of what comes out.
pub proof fn law_joined_pieces(texts: Seq<Seq<char>>, c: char)
    requires
        texts.len() != 0,
        forall|i: int| 0 <= i < texts.len() ==> !holds(#[trigger] texts[i], c),
    ensures
        pieces(joined(texts, c), c) == texts,
    decreases texts.len(),
{
    assert(!holds(texts[0], c));
    if texts.len() == 1 {
        lemma_not_parted(texts[0], c);
        assert(texts == seq![texts[0]]);
    } else {
        let rest = texts.drop_first();
        assert forall|i: int| 0 <= i < rest.len() implies !holds(#[trigger] rest[i], c) by {
            assert(rest[i] == texts[i + 1]);
        }
        lemma_parted_at(texts[0], c, joined(rest, c));
        law_joined_pieces(rest, c);
        assert(texts == seq![texts[0]] + rest);
    }
}

/// The pieces of two texts with a `c` between them are those of the one and
/// those of the other.
pub proof fn law_pieces_of_both(a: Seq<char>, b: Seq<char>, c: char)
    ensures
        pieces(a + seq![c] + b, c) == pieces(a, c) + pieces(b, c),
    decreases a.len(),
{
    let s = a + seq![c] + b;
    lemma_position(a, c);
    if let Some((x, y)) = parted(a, c) {
        law_pieces_of_both(y, b, c);
        let rest = y + seq![c] + b;
        assert(a == x + seq![c] + y);
        assert(s == x + seq![c] + rest);
        assert(!holds(x, c)) by {
            assert forall|i: int| 0 <= i < x.len() implies #[trigger] x[i] != c by {
                assert(x[i] == a[i]);
            }
        }
        lemma_parted_at(x, c, rest);
        assert(pieces(s, c) == seq![x] + (pieces(y, c) + pieces(b, c)));
    } else {
        lemma_parted_at(a, c, b);
    }
}

/// The pieces of a text, joined by what parted them, are the text.
pub proof fn law_pieces_joined(s: Seq<char>, c: char)
    ensures
        joined(pieces(s, c), c) == s,
    decreases s.len(),
{
    lemma_position(s, c);
    if let Some((a, b)) = parted(s, c) {
        law_pieces_joined(b, c);
        let rest = pieces(b, c);
        let all = seq![a] + rest;
        assert(rest.len() != 0);
        assert(all.drop_first() == rest);
        assert(s == a + seq![c] + b);
    }
}

/// Texts without a line feed, written as lines with anything after them, are
/// the lines that are read, before those of what follows.
pub proof fn law_lines_read_back(texts: Seq<Seq<char>>, tail: Seq<char>)
    requires
        forall|i: int| 0 <= i < texts.len() ==> !holds(#[trigger] texts[i], '\n'),
    ensures
        lines(as_lines(texts) + tail) == texts + lines(tail),
    decreases texts.len(),
{
    if texts.len() == 0 {
        assert(as_lines(texts) + tail == tail);
        assert(texts + lines(tail) == lines(tail));
    } else {
        let rest = texts.drop_first();
        assert forall|i: int| 0 <= i < rest.len() implies !holds(#[trigger] rest[i], '\n') by {
            assert(rest[i] == texts[i + 1]);
        }
        law_lines_read_back(rest, tail);
        let a = texts[0].push('\r');
        let b = as_lines(rest) + tail;
        assert(!holds(a, '\n')) by {
            assert(!holds(texts[0], '\n'));
            assert forall|i: int| 0 <= i < a.len() implies #[trigger] a[i] != '\n' by {
                if i < texts[0].len() {
                    assert(a[i] == texts[0][i]);
                }
            }
        }
        lemma_parted_at(a, '\n', b);
        assert(as_lines(texts) + tail == a + seq!['\n'] + b);
        assert(without_return(a) == texts[0]);
        assert(texts + lines(tail) == seq![texts[0]] + (rest + lines(tail)));
    }
}

/// Whitespace at the end is what [`trimmed_end`] takes away.
proof fn lemma_trimmed_end_is(s: Seq<char>, after: Seq<char>)
    requires
        s.len() != 0 ==> !is_space(s.last()),
        forall|i: int| 0 <= i < after.len() ==> is_space(#[trigger] after[i]),
    ensures
        trimmed_end(s + after) == s,
    decreases after.len(),
{
    if after.len() == 0 {
        assert(s + after == s);
    } else {
        let rest = after.drop_last();
        assert(is_space(after[after.len() - 1]));
        assert((s + after).drop_last() == s + rest);
        assert forall|i: int| 0 <= i < rest.len() implies is_space(#[trigger] rest[i]) by {
            assert(rest[i] == after[i]);
        }
        lemma_trimmed_end_is(s, rest);
    }
}

/// Trimming takes away the whitespace around a text that neither starts nor
/// ends in any.
pub proof fn lemma_trimmed_is(before: Seq<char>, s: Seq<char>, after: Seq<char>)
    requires
        s.len() != 0,
        !is_space(s[0]),
        !is_space(s.last()),
        forall|i: int| 0 <= i < before.len() ==> is_space(#[trigger] before[i]),
        forall|i: int| 0 <= i < after.len() ==> is_space(#[trigger] after[i]),
    ensures
        trimmed(before + s + after) == s,
{
    let t = before + s + after;
    let n = before.len() as int;
    assert forall|i: int| 0 <= i < n implies is_space(#[trigger] t[i]) by {
        assert(t[i] == before[i]);
    }
    assert(t[n] == s[0]);
    lemma_space_run_is(t, n);
    assert(t.skip(n) == s + after);
    lemma_trimmed_end_is(s, after);
}

/// A trimmed text neither starts nor ends in whitespace.
pub proof fn lemma_trimmed_ends(s: Seq<char>)
    ensures
        trimmed(s).len() != 0 ==> !is_space(trimmed(s)[0]) && !is_space(trimmed(s).last()),
{
    lemma_space_run(s);
    lemma_trimmed_end(trimmed_start(s));
}

proof fn lemma_space_run(s: Seq<char>)
    ensures
        space_run(s) <= s.len(),
        space_run(s) < s.len() ==> !is_space(s[space_run(s) as int]),
    decreases s.len(),
{
    if s.len() != 0 && is_space(s[0]) {
        lemma_space_run(s.drop_first());
    }
}

proof fn lemma_trimmed_end(s: Seq<char>)
    ensures
        trimmed_end(s).len() <= s.len(),
        trimmed_end(s).len() != 0 ==> trimmed_end(s)[0] == s[0] && !is_space(
            trimmed_end(s).last(),
        ),
    decreases s.len(),
{
    if s.len() != 0 && is_space(s.last()) {
        lemma_trimmed_end(s.drop_last());
    }
}

/// A word with whitespace before and after it, or the end after it, is the
/// first word.
pub proof fn lemma_first_word(before: Seq<char>, word: Seq<char>, after: Seq<char>)
    requires
        forall|i: int| 0 <= i < before.len() ==> is_space(#[trigger] before[i]),
        word.len() != 0,
        is_spaceless(word),
        after.len() != 0 ==> is_space(after[0]),
    ensures
        first_word(before + word + after) == word,
        after_word(before + word + after) == after,
{
    let s = before + word + after;
    let t = word + after;
    let n = before.len() as int;
    assert forall|i: int| 0 <= i < n implies is_space(#[trigger] s[i]) by {
        assert(s[i] == before[i]);
    }
    assert(s[n] == word[0]);
    lemma_space_run_is(s, n);
    assert(s.skip(n) == t);
    let m = word.len() as int;
    assert forall|i: int| 0 <= i < m implies !is_space(#[trigger] t[i]) by {
        assert(t[i] == word[i]);
    }
    if m < t.len() {
        assert(t[m] == after[0]);
    }
    lemma_word_run_is(t, m);
    assert(t.take(m) == word);
    assert(t.skip(m) == after);
}

/// Whitespace is what Unicode calls so, by its code points: the controls from
/// tab to carriage return, the space, and the spaces and separators beyond ASCII.
pub proof fn law_whitespace(c: char)
    ensures
        is_space(c) <==> {
            let n = c as int;
            9 <= n <= 13 || n == 32 || n == 133 || n == 160 || n == 5760 || 8192 <= n <= 8202 || n
                == 8232 || n == 8233 || n == 8239 || n == 8287 || n == 12288
        },
{
}

/// A text is parted into what stands before its first `c` and what stands behind
/// it, and into nothing else; one that has no `c` is not parted.
pub proof fn law_parted(s: Seq<char>, c: char, a: Seq<char>, b: Seq<char>)
    ensures
        parted(s, c) == Some((a, b)) <==> s == a + seq![c] + b && (forall|i: int|
            0 <= i < a.len() ==> #[trigger] a[i] != c),
        parted(s, c) is None <==> (forall|i: int| 0 <= i < s.len() ==> #[trigger] s[i] != c),
{
    lemma_position(s, c);
    let p = position(s, c) as int;
    if parted(s, c) == Some((a, b)) {
        assert(s == a + seq![c] + b);
        assert forall|i: int| 0 <= i < a.len() implies #[trigger] a[i] != c by {
            assert(a[i] == s[i]);
        }
    }
    if s == a + seq![c] + b && (forall|i: int| 0 <= i < a.len() ==> #[trigger] a[i] != c) {
        assert(!holds(a, c));
        lemma_parted_at(a, c, b);
    }
    if p < s.len() {
        assert(s[p] == c);
    }
}

/// A text without `c` is its only piece.
pub proof fn law_one_piece(s: Seq<char>, c: char)
    requires
        forall|i: int| 0 <= i < s.len() ==> #[trigger] s[i] != c,
    ensures
        pieces(s, c) == seq![s],
{
    assert(!holds(s, c));
    lemma_not_parted(s, c);
}

/// Of a text that is trimmed at its start, whitespace is missing at the start,
/// all of it and nothing else.
pub proof fn law_trimmed_start(s: Seq<char>)
    ensures
        exists|n: int|
            0 <= n <= s.len() && trimmed_start(s) == #[trigger] s.skip(n) && (forall|i: int|
                0 <= i < n ==> is_space(#[trigger] s[i])) && (n < s.len() ==> !is_space(s[n])),
{
    lemma_space_run(s);
    lemma_space_run_holds(s);
    assert(trimmed_start(s) == s.skip(space_run(s) as int));
}

proof fn lemma_space_run_holds(s: Seq<char>)
    ensures
        forall|i: int| 0 <= i < space_run(s) ==> is_space(#[trigger] s[i]),
    decreases s.len(),
{
    if s.len() != 0 && is_space(s[0]) {
        let t = s.drop_first();
        lemma_space_run(t);
        lemma_space_run_holds(t);
        assert forall|i: int| 0 <= i < space_run(s) implies is_space(#[trigger] s[i]) by {
            if i > 0 {
                assert(s[i] == t[i - 1]);
            }
        }
    }
}

proof fn lemma_trimmed_end_holds(s: Seq<char>)
    ensures
        trimmed_end(s).len() <= s.len(),
        trimmed_end(s) == s.take(trimmed_end(s).len() as int),
        forall|i: int| trimmed_end(s).len() <= i < s.len() ==> is_space(#[trigger] s[i]),
    decreases s.len(),
{
    if s.len() != 0 && is_space(s.last()) {
        let t = s.drop_last();
        lemma_trimmed_end_holds(t);
        let n = trimmed_end(t).len() as int;
        assert(t.take(n) == s.take(n));
        assert forall|i: int| n <= i < s.len() implies is_space(#[trigger] s[i]) by {
            if i < t.len() {
                assert(s[i] == t[i]);
            }
        }
    } else {
        assert(s.take(s.len() as int) == s);
    }
}

/// A trimmed text is the part of the text that neither starts nor ends in
/// whitespace and has nothing but whitespace before and behind it.
pub proof fn law_trimmed(s: Seq<char>)
    ensures
        exists|n: int|
            0 <= n <= n + trimmed(s).len() <= s.len() && trimmed(s) == #[trigger] s.subrange(
                n,
                n + trimmed(s).len(),
            ) && (forall|i: int| 0 <= i < n ==> is_space(#[trigger] s[i])) && (forall|i: int|
                n + trimmed(s).len() <= i < s.len() ==> is_space(#[trigger] s[i])),
        trimmed(s).len() != 0 ==> !is_space(trimmed(s)[0]) && !is_space(trimmed(s).last()),
{
    lemma_trimmed_ends(s);
    lemma_space_run(s);
    lemma_space_run_holds(s);
    let t = trimmed_start(s);
    lemma_trimmed_end_holds(t);
    let n = space_run(s) as int;
    let m = trimmed(s).len() as int;
    assert(s.subrange(n, n + m) == t.take(m));
    assert forall|i: int| n + m <= i < s.len() implies is_space(#[trigger] s[i]) by {
        assert(s[i] == t[i - n]);
    }
}

proof fn lemma_word_run_holds(s: Seq<char>)
    ensures
        word_run(s) <= s.len(),
        word_run(s) < s.len() ==> is_space(s[word_run(s) as int]),
        forall|i: int| 0 <= i < word_run(s) ==> !is_space(#[trigger] s[i]),
    decreases s.len(),
{
    if s.len() != 0 && !is_space(s[0]) {
        let t = s.drop_first();
        lemma_word_run_holds(t);
        assert forall|i: int| 0 <= i < word_run(s) implies !is_space(#[trigger] s[i]) by {
            if i > 0 {
                assert(s[i] == t[i - 1]);
            }
        }
    }
}

/// The first word of a text stands behind nothing but whitespace, goes up to the
/// next whitespace or the end, and is empty only where there is no word; what
/// follows it is the rest of the text.
pub proof fn law_first_word(s: Seq<char>)
    ensures
        exists|n: int|
            0 <= n <= n + first_word(s).len() <= s.len() && first_word(s) == #[trigger] s.subrange(
                n,
                n + first_word(s).len(),
            ) && after_word(s) == s.skip(n + first_word(s).len()) && (forall|i: int|
                0 <= i < n ==> is_space(#[trigger] s[i])) && (first_word(s).len() == 0 ==> n
                == s.len()),
        forall|i: int| 0 <= i < first_word(s).len() ==> !is_space(#[trigger] first_word(s)[i]),
        after_word(s).len() != 0 ==> is_space(after_word(s)[0]),
{
    lemma_space_run(s);
    lemma_space_run_holds(s);
    let t = trimmed_start(s);
    lemma_word_run_holds(t);
    let n = space_run(s) as int;
    let m = word_run(t) as int;
    assert(first_word(s).len() == m);
    assert(first_word(s) == s.subrange(n, n + first_word(s).len()));
    assert(after_word(s) == s.skip(n + m));
    if n < s.len() {
        assert(t[0] == s[n]);
    }
}

/// A line ends at a line feed, or at a carriage return and a line feed, or where
/// the text ends; neither mark is part of it, and an empty text has no line.
pub proof fn law_lines(a: Seq<char>, b: Seq<char>)
    requires
        forall|i: int| 0 <= i < a.len() ==> #[trigger] a[i] != '\n',
    ensures
        lines(a + seq!['\r', '\n'] + b) == seq![a] + lines(b),
        a.len() == 0 || a.last() != '\r' ==> lines(a + seq!['\n'] + b) == seq![a] + lines(b),
        lines(a) == if a.len() == 0 {
            seq![]
        } else {
            seq![a]
        },
{
    assert(!holds(a, '\n'));
    let r = a.push('\r');
    assert(!holds(r, '\n')) by {
        assert forall|i: int| 0 <= i < r.len() implies #[trigger] r[i] != '\n' by {
            if i < a.len() {
                assert(r[i] == a[i]);
            }
        }
    }
    lemma_parted_at(r, '\n', b);
    assert(a + seq!['\r', '\n'] + b == r + seq!['\n'] + b);
    assert(without_return(r) == a);
    lemma_parted_at(a, '\n', b);
    lemma_not_parted(a, '\n');
}

/// The small letter of an ASCII capital is 32 code points behind it; nothing else
/// is changed.
pub proof fn law_lowered(c: char)
    ensures
        65 <= c as int <= 90 ==> lowered(c) as int == c as int + 32,
        !(65 <= c as int <= 90) ==> lowered(c) == c,
{
}

/// A text starts with a prefix, capitals taken as small, if each character of the
/// prefix is the one in its place there, or the small letter of the ASCII capital
/// in its place.
pub proof fn law_starts_lowered(s: Seq<char>, prefix: Seq<char>)
    ensures
        starts_lowered(s, prefix) <==> prefix.len() <= s.len() && (forall|i: int|
            0 <= i < prefix.len() ==> {
                let n = #[trigger] s[i] as int;
                prefix[i] as int == if 65 <= n <= 90 {
                    n + 32
                } else {
                    n
                }
            }),
{
    if prefix.len() <= s.len() && (forall|i: int|
        0 <= i < prefix.len() ==> {
            let n = #[trigger] s[i] as int;
            prefix[i] as int == if 65 <= n <= 90 {
                n + 32
            } else {
                n
            }
        }) {
        assert forall|i: int| 0 <= i < prefix.len() implies lowered(#[trigger] s[i])
            == prefix[i] by {
            law_lowered(s[i]);
        }
    }
    if starts_lowered(s, prefix) {
        assert forall|i: int| 0 <= i < prefix.len() implies {
            let n = #[trigger] s[i] as int;
            prefix[i] as int == if 65 <= n <= 90 {
                n + 32
            } else {
                n
            }
        } by {
            law_lowered(s[i]);
            assert(lowered(s[i]) == prefix[i]);
        }
    }
}

/// Joining puts one `c` between each two texts, and nothing before the first or
/// behind the last.
pub proof fn law_joined(texts: Seq<Seq<char>>, c: char, more: Seq<char>)
    ensures
        joined(seq![], c) == Seq::<char>::empty(),
        joined(seq![more], c) == more,
        texts.len() != 0 ==> joined(texts.push(more), c) == joined(texts, c) + seq![c] + more,
{
    if texts.len() != 0 {
        lemma_joined_push(texts, c, more);
    }
}

/// Written as lines, each text is followed by a carriage return and a line feed,
/// and the texts keep their order.
pub proof fn law_as_lines(a: Seq<Seq<char>>, s: Seq<char>, b: Seq<Seq<char>>)
    ensures
        as_lines(a + b) == as_lines(a) + as_lines(b),
        as_lines(seq![s]) == s + seq!['\r', '\n'],
    decreases a.len(),
{
    assert(seq![s].drop_first() == Seq::<Seq<char>>::empty());
    assert(as_lines(seq![s].drop_first()) == Seq::<char>::empty());
    if a.len() == 0 {
        assert(a + b == b);
    } else {
        law_as_lines(a.drop_first(), s, b);
        assert((a + b).drop_first() == a.drop_first() + b);
    }
}

} // verus!
