//! Strings inside JSON text.

use crate::text;
use vstd::prelude::*;

verus! {

/// A character as it stands in a JSON string: a backslash and a double quote
/// have a backslash before them, any other character stands for itself.
pub open spec fn escaped_char(c: char) -> Seq<char> {
    if c == '\\' || c == '"' {
        seq!['\\', c]
    } else {
        seq![c]
    }
}

/// A text as it stands in a JSON string.
pub open spec fn escaped(s: Seq<char>) -> Seq<char>
    decreases s.len(),
{
    if s.len() == 0 {
        seq![]
    } else {
        escaped(s.drop_last()) + escaped_char(s.last())
    }
}

/// Appends the characters as they stand in a JSON string.
pub fn push_escaped(out: &mut String, s: &[char])
    ensures
        final(out)@ == old(out)@ + escaped(s@),
{
    for i in 0..s.len()
        invariant
            out@ == old(out)@ + escaped(s@.take(i as int)),
    {
        assert(s@.take(i + 1).drop_last() == s@.take(i as int));
        let c = s[i];
        if c == '\\' || c == '"' {
            out.push('\\');
        }
        out.push(c);
        assert(out@ == old(out)@ + escaped(s@.take(i + 1)));
    }
    assert(s@.take(s@.len() as int) == s@);
}

/// The text as it stands in a JSON string: each backslash and each double quote
/// gets a backslash before it. Control characters are left as they are.
pub fn escape_json(s: &str) -> (r: String)
    ensures
        r@ == escaped(s@),
{
    let chars = text::chars_of(s);
    let mut out = String::new();
    push_escaped(&mut out, chars.as_slice());
    out
}

/// The text that the inside of a JSON string stands for, where a backslash
/// means that the character after it stands for itself.
pub open spec fn unescaped(s: Seq<char>) -> Seq<char>
    decreases s.len(),
{
    if s.len() == 0 {
        seq![]
    } else if s[0] == '\\' && s.len() >= 2 {
        seq![s[1]] + unescaped(s.skip(2))
    } else {
        seq![s[0]] + unescaped(s.skip(1))
    }
}

/// The index of the double quote that ends the JSON string whose inside `s`
/// starts with, or the length of `s` where nothing ends it.
pub open spec fn string_end(s: Seq<char>) -> nat
    decreases s.len(),
{
    if s.len() == 0 || s[0] == '"' {
        0
    } else if s[0] == '\\' && s.len() >= 2 {
        2 + string_end(s.skip(2))
    } else {
        1 + string_end(s.skip(1))
    }
}

proof fn lemma_escaped_front(s: Seq<char>)
    requires
        s.len() != 0,
    ensures
        escaped(s) == escaped_char(s[0]) + escaped(s.drop_first()),
    decreases s.len(),
{
    if s.len() == 1 {
        assert(s.drop_last() == s.drop_first());
        assert(escaped(s.drop_first()) == Seq::<char>::empty());
        assert(escaped(s) == escaped_char(s[0]) + escaped(s.drop_first()));
    } else {
        let t = s.drop_last();
        lemma_escaped_front(t);
        assert(t.drop_first() == s.drop_first().drop_last());
        assert(s.drop_first().last() == s.last());
        assert(escaped(s) == escaped_char(s[0]) + (escaped(t.drop_first()) + escaped_char(
            s.last(),
        )));
    }
}

/// Two texts, one behind the other, are escaped each for itself.
pub proof fn law_escaped_of_both(a: Seq<char>, b: Seq<char>)
    ensures
        escaped(a + b) == escaped(a) + escaped(b),
    decreases b.len(),
{
    if b.len() == 0 {
        assert(a + b == a);
    } else {
        assert((a + b).drop_last() == a + b.drop_last());
        law_escaped_of_both(a, b.drop_last());
    }
}

/// Escaping loses nothing: the escaped text stands for the text.
pub proof fn law_unescaped_escaped(s: Seq<char>)
    ensures
        unescaped(escaped(s)) == s,
    decreases s.len(),
{
    if s.len() != 0 {
        let rest = s.drop_first();
        lemma_escaped_front(s);
        law_unescaped_escaped(rest);
        let e = escaped(s);
        if s[0] == '\\' || s[0] == '"' {
            assert(e.skip(2) == escaped(rest));
        } else {
            assert(e.skip(1) == escaped(rest));
        }
        assert(s == seq![s[0]] + rest);
    } else {
        assert(s == Seq::<char>::empty());
    }
}

/// An escaped text never ends the JSON string that it stands in: the first
/// quote that does is the one written after it.
pub proof fn law_escaped_stays_inside(s: Seq<char>, tail: Seq<char>)
    ensures
        string_end(escaped(s) + seq!['"'] + tail) == escaped(s).len(),
    decreases s.len(),
{
    let e = escaped(s) + seq!['"'] + tail;
    if s.len() == 0 {
        assert(e[0] == '"');
    } else {
        let rest = s.drop_first();
        lemma_escaped_front(s);
        law_escaped_stays_inside(rest, tail);
        let f = escaped(rest) + seq!['"'] + tail;
        if s[0] == '\\' || s[0] == '"' {
            assert(e[0] == '\\');
            assert(e.skip(2) == f);
        } else {
            assert(e[0] == s[0]);
            assert(e.skip(1) == f);
        }
    }
}

/// The JSON string that is written behind some text stands for what was escaped:
/// from where it starts to where it ends, it reads back.
pub proof fn law_string_reads_back(before: Seq<char>, s: Seq<char>, after: Seq<char>)
    ensures
        ({
            let inside = (before + escaped(s) + seq!['"'] + after).skip(before.len() as int);
            unescaped(inside.take(string_end(inside) as int)) == s
        }),
{
    let inside = (before + escaped(s) + seq!['"'] + after).skip(before.len() as int);
    assert(inside == escaped(s) + seq!['"'] + after);
    law_escaped_stays_inside(s, after);
    law_unescaped_escaped(s);
    assert(inside.take(escaped(s).len() as int) == escaped(s));
}

/// The JSON string of a text.
pub open spec fn string(s: Seq<char>) -> Seq<char> {
    seq!['"'] + escaped(s) + seq!['"']
}

/// The member of a JSON object: its key and the JSON text of its value.
pub open spec fn member(key: Seq<char>, value: Seq<char>) -> Seq<char> {
    string(key) + seq![':'] + value
}

/// The JSON object of these members.
pub open spec fn object(members: Seq<Seq<char>>) -> Seq<char> {
    seq!['{'] + text::joined(members, ',') + seq!['}']
}

/// The JSON array of these values.
pub open spec fn array(values: Seq<Seq<char>>) -> Seq<char> {
    seq!['['] + text::joined(values, ',') + seq![']']
}

/// The JSON text of a truth value.
pub open spec fn boolean(b: bool) -> Seq<char> {
    if b {
        "true"@
    } else {
        "false"@
    }
}

/// A text without backslashes and double quotes stands for itself.
pub proof fn lemma_escaped_plain(s: Seq<char>)
    requires
        !text::holds(s, '\\'),
        !text::holds(s, '"'),
    ensures
        escaped(s) == s,
    decreases s.len(),
{
    if s.len() != 0 {
        let t = s.drop_last();
        assert(s[s.len() - 1] == s.last());
        assert forall|i: int| 0 <= i < t.len() implies #[trigger] t[i] != '\\' && t[i] != '"' by {
            assert(t[i] == s[i]);
        }
        lemma_escaped_plain(t);
        assert(s == t + seq![s.last()]);
    }
}

/// Whether a text can be a key as it is: it has no backslash and no double
/// quote.
pub open spec fn is_key(s: Seq<char>) -> bool {
    !text::holds(s, '\\') && !text::holds(s, '"')
}

/// What stands before a value: its key, in quotes, and a colon.
pub open spec fn label(key: Seq<char>) -> Seq<char> {
    seq!['"'] + key + seq!['"', ':']
}

/// An object that is begun with its first member.
pub proof fn lemma_object_begins(key: Seq<char>, value: Seq<char>)
    requires
        is_key(key),
    ensures
        seq!['{'] + label(key) + value == seq!['{'] + text::joined(
            seq![member(key, value)],
            ',',
        ),
{
    lemma_escaped_plain(key);
    assert(label(key) + value == member(key, value));
    assert(text::joined(seq![member(key, value)], ',') == member(key, value));
    assert(seq!['{'] + label(key) + value == seq!['{'] + member(key, value));
}

/// An object that goes on with another member.
pub proof fn lemma_object_goes_on(
    begun: Seq<char>,
    members: Seq<Seq<char>>,
    key: Seq<char>,
    value: Seq<char>,
)
    requires
        members.len() != 0,
        begun == seq!['{'] + text::joined(members, ','),
        is_key(key),
    ensures
        begun + (seq![','] + label(key)) + value == seq!['{'] + text::joined(
            members.push(member(key, value)),
            ',',
        ),
{
    lemma_escaped_plain(key);
    text::lemma_joined_push(members, ',', member(key, value));
    assert(label(key) + value == member(key, value));
    assert(begun + (seq![','] + label(key)) + value == seq!['{'] + (text::joined(members, ',')
        + seq![','] + (label(key) + value)));
}

/// A backslash and a double quote get a backslash before them; any other
/// character stays as it is.
pub proof fn law_escaped_char(c: char)
    ensures
        escaped(seq![]) == Seq::<char>::empty(),
        escaped(seq![c]) == if c as int == 34 || c as int == 92 {
            seq!['\\', c]
        } else {
            seq![c]
        },
{
    assert(seq![c].drop_last() == Seq::<char>::empty());
    assert(escaped(seq![c].drop_last()) == Seq::<char>::empty());
    assert(seq![c].last() == c);
}

/// How JSON is written: a string in quotes, a member as its key and its value
/// with a colon between them, an object in braces and an array in brackets with
/// commas between their parts, and the two truth values by their names.
pub proof fn law_json_text(s: Seq<char>, value: Seq<char>, parts: Seq<Seq<char>>)
    ensures
        string(s) == "\""@ + escaped(s) + "\""@,
        member(s, value) == "\""@ + escaped(s) + "\":"@ + value,
        object(parts) == "{"@ + text::joined(parts, ',') + "}"@,
        array(parts) == "["@ + text::joined(parts, ',') + "]"@,
        boolean(true) == "true"@,
        boolean(false) == "false"@,
{
    reveal_strlit("\"");
    reveal_strlit("\":");
    reveal_strlit("{");
    reveal_strlit("}");
    reveal_strlit("[");
    reveal_strlit("]");
}

} // verus!
