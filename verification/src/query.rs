//! Parameters in the query of a request target.

use crate::text;
use vstd::prelude::*;

verus! {

/// The value of the first pair named `key`. A pair is named by what stands
/// before its first `=`; one without `=` has no name.
pub open spec fn param_in(pairs: Seq<Seq<char>>, key: Seq<char>) -> Option<Seq<char>>
    decreases pairs.len(),
{
    if pairs.len() == 0 {
        None
    } else {
        match text::parted(pairs[0], '=') {
            Some((name, value)) => if name == key {
                Some(value)
            } else {
                param_in(pairs.drop_first(), key)
            },
            None => param_in(pairs.drop_first(), key),
        }
    }
}

/// The value of the first pair named `key` among the pieces of the query that
/// `&` parts.
pub open spec fn param(query: Seq<char>, key: Seq<char>) -> Option<Seq<char>> {
    param_in(text::pieces(query, '&'), key)
}

/// The value of the first pair named `key` in a query, as it stands there:
/// nothing is decoded.
pub fn get_query_param(query: &str, key: &str) -> (r: Option<String>)
    ensures
        r.deep_view() == param(query@, key@),
{
    let chars = text::chars_of(query);
    let mut rest: &[char] = chars.as_slice();
    loop
        invariant
            chars@ == query@,
            param(query@, key@) == param(rest@, key@),
        decreases rest@.len(),
    {
        proof {
            text::lemma_position(rest@, '&');
        }
        let (pair, more) = match text::split_once(rest, '&') {
            Some((a, b)) => (a, Some(b)),
            None => (rest, None),
        };
        let ghost all = text::pieces(rest@, '&');
        assert(all[0] == pair@);
        if let Some((name, value)) = text::split_once(pair, '=') {
            if text::same(name, key) {
                return Some(text::string_of(value));
            }
        }
        match more {
            Some(b) => {
                assert(all.drop_first() == text::pieces(b@, '&'));
                rest = b;
            },
            None => {
                assert(all.drop_first() == Seq::<Seq<char>>::empty());
                assert(param_in(all.drop_first(), key@) is None);
                return None;
            },
        }
    }
}

/// The text of a named value.
pub open spec fn pair(name: Seq<char>, value: Seq<char>) -> Seq<char> {
    name + seq!['='] + value
}

/// The query made of the named values.
pub open spec fn written(params: Seq<(Seq<char>, Seq<char>)>) -> Seq<char> {
    text::joined(params.map_values(|p: (Seq<char>, Seq<char>)| pair(p.0, p.1)), '&')
}

/// Whether a name and a value can stand in a query: the name has no `=` and no
/// `&`, the value no `&`.
pub open spec fn is_writable(name: Seq<char>, value: Seq<char>) -> bool {
    !text::holds(name, '=') && !text::holds(name, '&') && !text::holds(value, '&')
}

proof fn lemma_param_in(params: Seq<(Seq<char>, Seq<char>)>, at: int)
    requires
        0 <= at < params.len(),
        forall|i: int|
            0 <= i < params.len() ==> is_writable((#[trigger] params[i]).0, params[i].1),
        forall|i: int| 0 <= i < at ==> (#[trigger] params[i]).0 != params[at].0,
    ensures
        param_in(
            params.map_values(|p: (Seq<char>, Seq<char>)| pair(p.0, p.1)),
            params[at].0,
        ) == Some(params[at].1),
    decreases params.len(),
{
    let f = |p: (Seq<char>, Seq<char>)| pair(p.0, p.1);
    let all = params.map_values(f);
    assert(is_writable(params[0].0, params[0].1));
    text::lemma_parted_at(params[0].0, '=', params[0].1);
    assert(all[0] == pair(params[0].0, params[0].1));
    if at > 0 {
        let rest = params.drop_first();
        assert(rest.map_values(f) == all.drop_first());
        assert(rest[at - 1] == params[at]);
        assert forall|i: int| 0 <= i < rest.len() implies is_writable(
            (#[trigger] rest[i]).0,
            rest[i].1,
        ) by {
            assert(rest[i] == params[i + 1]);
        }
        assert forall|i: int| 0 <= i < at - 1 implies (#[trigger] rest[i]).0 != rest[at - 1].0 by {
            assert(rest[i] == params[i + 1]);
        }
        assert(params[0].0 != params[at].0);
        lemma_param_in(rest, at - 1);
    }
}

/// A value that is written under a name into a query is read back under that
/// name, if no value before it has the same name.
pub proof fn law_query_reads_back(params: Seq<(Seq<char>, Seq<char>)>, at: int)
    requires
        0 <= at < params.len(),
        forall|i: int|
            0 <= i < params.len() ==> is_writable((#[trigger] params[i]).0, params[i].1),
        forall|i: int| 0 <= i < at ==> (#[trigger] params[i]).0 != params[at].0,
    ensures
        param(written(params), params[at].0) == Some(params[at].1),
{
    let f = |p: (Seq<char>, Seq<char>)| pair(p.0, p.1);
    let all = params.map_values(f);
    assert forall|i: int| 0 <= i < all.len() implies !text::holds(#[trigger] all[i], '&') by {
        let (name, value) = params[i];
        assert(is_writable(params[i].0, params[i].1));
        let s = pair(name, value);
        assert(all[i] == s);
        assert forall|j: int| 0 <= j < s.len() implies #[trigger] s[j] != '&' by {
            if j < name.len() {
                assert(s[j] == name[j]);
            } else if j > name.len() {
                assert(s[j] == value[j - name.len() - 1]);
            }
        }
    }
    text::law_joined_pieces(all, '&');
    lemma_param_in(params, at);
}

proof fn lemma_param_in_both(a: Seq<Seq<char>>, b: Seq<Seq<char>>, key: Seq<char>)
    ensures
        param_in(a + b, key) == (match param_in(a, key) {
            Some(value) => Some(value),
            None => param_in(b, key),
        }),
    decreases a.len(),
{
    if a.len() == 0 {
        assert(a + b == b);
    } else {
        assert((a + b).drop_first() == a.drop_first() + b);
        lemma_param_in_both(a.drop_first(), b, key);
    }
}

/// A query that goes on after an `&` is searched in its order: what the first
/// part has under a name counts, and where it has nothing, what the rest has.
pub proof fn law_first_param_counts(a: Seq<char>, b: Seq<char>, key: Seq<char>)
    ensures
        param(a + seq!['&'] + b, key) == (match param(a, key) {
            Some(value) => Some(value),
            None => param(b, key),
        }),
{
    text::law_pieces_of_both(a, b, '&');
    lemma_param_in_both(text::pieces(a, '&'), text::pieces(b, '&'), key);
}

/// A name that no pair of a query has is not found.
pub proof fn law_absent_param(query: Seq<char>, key: Seq<char>)
    requires
        forall|i: int|
            0 <= i < text::pieces(query, '&').len() ==> (text::parted(
                #[trigger] text::pieces(query, '&')[i],
                '=',
            ) matches Some((name, _)) ==> name != key),
    ensures
        param(query, key) is None,
{
    lemma_absent_in(text::pieces(query, '&'), key);
}

proof fn lemma_absent_in(pairs: Seq<Seq<char>>, key: Seq<char>)
    requires
        forall|i: int|
            0 <= i < pairs.len() ==> (text::parted(#[trigger] pairs[i], '=') matches Some((name, _))
                ==> name != key),
    ensures
        param_in(pairs, key) is None,
    decreases pairs.len(),
{
    if pairs.len() != 0 {
        let rest = pairs.drop_first();
        assert(text::parted(pairs[0], '=') matches Some((name, _)) ==> name != key);
        assert forall|i: int| 0 <= i < rest.len() implies (text::parted(
            #[trigger] rest[i],
            '=',
        ) matches Some((name, _)) ==> name != key) by {
            assert(rest[i] == pairs[i + 1]);
        }
        lemma_absent_in(rest, key);
    }
}

/// A query without `&` gives a name a value if it is that name, an `=`, and the
/// value; a name with an `=` in it has none.
pub proof fn law_one_param(query: Seq<char>, key: Seq<char>, value: Seq<char>)
    requires
        forall|i: int| 0 <= i < query.len() ==> #[trigger] query[i] != '&',
    ensures
        param(query, key) == Some(value) <==> query == key + seq!['='] + value && (forall|i: int|
            0 <= i < key.len() ==> #[trigger] key[i] != '='),
{
    text::law_one_piece(query, '&');
    let all = seq![query];
    assert(all[0] == query);
    assert(all.drop_first() == Seq::<Seq<char>>::empty());
    assert(param_in(all.drop_first(), key) is None);
    text::law_parted(query, '=', key, value);
    if let Some((name, v)) = text::parted(query, '=') {
        text::law_parted(query, '=', name, v);
    }
}

} // verus!
