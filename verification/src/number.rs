//! Numbers as text: decimal both ways, and hexadecimal.

use vstd::prelude::*;
use vstd::slice::slice_subrange;

verus! {

/// The character of a decimal digit.
pub open spec fn digit(d: nat) -> char {
    (48 + d) as char
}

/// The decimal text of a number, without leading zeros.
pub open spec fn decimal(n: nat) -> Seq<char>
    decreases n,
{
    if n < 10 {
        seq![digit(n)]
    } else {
        decimal(n / 10).push(digit(n % 10))
    }
}

/// The decimal text of a number that may be negative.
pub open spec fn signed_decimal(n: int) -> Seq<char> {
    if n < 0 {
        seq!['-'] + decimal((-n) as nat)
    } else {
        decimal(n as nat)
    }
}

/// Appends the decimal text of a number.
pub fn push_decimal(out: &mut String, n: u64)
    ensures
        final(out)@ == old(out)@ + decimal(n as nat),
    decreases n,
{
    if n >= 10 {
        push_decimal(out, n / 10);
    }
    let d: u8 = (n % 10) as u8;
    out.push((48 + d) as char);
}

/// Appends the decimal text of a number that may be negative.
pub fn push_signed_decimal(out: &mut String, n: i64)
    ensures
        final(out)@ == old(out)@ + signed_decimal(n as int),
{
    if n < 0 {
        out.push('-');
        let m: u64 = (-(n + 1)) as u64 + 1;
        push_decimal(out, m);
    } else {
        push_decimal(out, n as u64);
    }
}

/// Whether the character is an ASCII decimal digit.
pub open spec fn is_digit(c: char) -> bool {
    '0' <= c <= '9'
}

/// What a decimal digit stands for.
pub open spec fn digit_value(c: char) -> nat {
    if is_digit(c) {
        (c as int - 48) as nat
    } else {
        0
    }
}

/// The number that decimal digits stand for.
pub open spec fn value(s: Seq<char>) -> nat
    decreases s.len(),
{
    if s.len() == 0 {
        0
    } else {
        10 * value(s.drop_last()) + digit_value(s.last())
    }
}

/// `s` without the plus sign it starts with, if it does.
pub open spec fn without_plus(s: Seq<char>) -> Seq<char> {
    if s.len() != 0 && s[0] == '+' {
        s.skip(1)
    } else {
        s
    }
}

/// Whether `s` is one or more decimal digits.
pub open spec fn is_digits(s: Seq<char>) -> bool {
    &&& s.len() != 0
    &&& forall|i: int| 0 <= i < s.len() ==> is_digit(#[trigger] s[i])
}

/// The number up to `max` that `s` writes: one or more decimal digits, with or
/// without a plus sign before them, and nothing else.
pub open spec fn number(s: Seq<char>, max: nat) -> Option<nat> {
    let d = without_plus(s);
    if is_digits(d) && value(d) <= max {
        Some(value(d))
    } else {
        None
    }
}

/// More digits never make a smaller number.
proof fn lemma_value_grows(s: Seq<char>, n: int)
    requires
        0 <= n <= s.len(),
    ensures
        value(s.take(n)) <= value(s),
    decreases s.len(),
{
    if n == s.len() {
        assert(s.take(n) == s);
    } else {
        assert(s.drop_last().take(n) == s.take(n));
        lemma_value_grows(s.drop_last(), n);
    }
}

/// The number up to `max` that `s` writes.
pub fn parse_number(s: &[char], max: u64) -> (r: Option<u64>)
    ensures
        match r {
            Some(n) => number(s@, max as nat) == Some(n as nat),
            None => number(s@, max as nat) is None,
        },
{
    let d = if s.len() != 0 && s[0] == '+' {
        slice_subrange(s, 1, s.len())
    } else {
        s
    };
    assert(d@ == without_plus(s@));
    if d.len() == 0 {
        return None;
    }
    let mut n: u64 = 0;
    let mut i: usize = 0;
    while i < d.len()
        invariant
            d@ == without_plus(s@),
            i <= d@.len(),
            n <= max,
            n == value(d@.take(i as int)),
            forall|j: int| 0 <= j < i ==> is_digit(#[trigger] d@[j]),
        decreases d@.len() - i,
    {
        let c = d[i];
        if !('0' <= c && c <= '9') {
            assert(!is_digit(d@[i as int]));
            return None;
        }
        let v: u64 = (c as u8 - 48) as u64;
        proof {
            let t = d@.take(i + 1);
            assert(t.drop_last() == d@.take(i as int));
            assert(value(t) == 10 * n + v);
            lemma_value_grows(d@, i + 1);
        }
        if v > max || n > (max - v) / 10 {
            return None;
        }
        n = 10 * n + v;
        i += 1;
    }
    assert(d@.take(i as int) == d@);
    Some(n)
}

/// The decimal text of a number is digits that stand for it.
pub proof fn lemma_decimal(n: nat)
    ensures
        is_digits(decimal(n)),
        value(decimal(n)) == n,
    decreases n,
{
    if n < 10 {
        let s = decimal(n);
        assert(s.drop_last() == Seq::<char>::empty());
        assert(s.last() == digit(n));
        assert(value(s.drop_last()) == 0);
    } else {
        lemma_decimal(n / 10);
        let s = decimal(n);
        assert(s.drop_last() == decimal(n / 10));
        assert(s.last() == digit(n % 10));
        assert forall|i: int| 0 <= i < s.len() implies is_digit(#[trigger] s[i]) by {
            if i < s.len() - 1 {
                assert(s[i] == decimal(n / 10)[i]);
            }
        }
    }
}

/// A number written in decimal is read back as itself, up to any limit that it
/// keeps to.
pub proof fn law_decimal_reads_back(n: nat, max: nat)
    ensures
        number(decimal(n), max) == (if n <= max {
            Some(n)
        } else {
            None
        }),
{
    lemma_decimal(n);
    assert(is_digit(decimal(n)[0]));
    assert(without_plus(decimal(n)) == decimal(n));
}

/// The small hexadecimal digit.
pub open spec fn hex_digit(d: int) -> char {
    if d < 10 {
        (48 + d) as char
    } else {
        (87 + d) as char
    }
}

/// Two small hexadecimal digits for each byte, the high one first.
pub open spec fn hex(bytes: Seq<u8>) -> Seq<char> {
    Seq::new(
        2 * bytes.len(),
        |i: int|
            if i % 2 == 0 {
                hex_digit(bytes[i / 2] as int / 16)
            } else {
                hex_digit(bytes[i / 2] as int % 16)
            },
    )
}

fn to_hex_digit(d: u8) -> (c: char)
    requires
        d < 16,
    ensures
        c == hex_digit(d as int),
{
    if d < 10 {
        (48 + d) as char
    } else {
        (87 + d) as char
    }
}

/// Two small hexadecimal digits for each byte, the high one first.
pub fn to_hex(bytes: &[u8]) -> (r: String)
    ensures
        r@ == hex(bytes@),
{
    let mut out = String::new();
    for i in 0..bytes.len()
        invariant
            out@ == hex(bytes@.take(i as int)),
    {
        let b = bytes[i];
        out.push(to_hex_digit(b / 16));
        out.push(to_hex_digit(b % 16));
        assert(out@ == hex(bytes@.take(i + 1)));
    }
    assert(bytes@.take(bytes@.len() as int) == bytes@);
    out
}

/// The decimal text of a number below ten is its digit; ten times a number and a
/// digit more has one digit behind those of that number.
pub proof fn law_decimal_digits(n: nat, d: nat)
    requires
        d < 10,
    ensures
        decimal(d).len() == 1 && decimal(d)[0] as int == 48 + d,
        n != 0 ==> decimal(10 * n + d).len() == decimal(n).len() + 1 && decimal(10 * n
            + d).drop_last() == decimal(n) && decimal(10 * n + d).last() as int == 48 + d,
{
    if n != 0 {
        let m: nat = 10 * n + d;
        assert(m / 10 == n && m % 10 == d);
        assert(decimal(m).drop_last() == decimal(n));
    }
}

/// A negative number has a minus sign before the text of what it falls short of
/// zero by.
pub proof fn law_signed_decimal(n: nat)
    ensures
        signed_decimal(n as int) == decimal(n),
        n != 0 ==> signed_decimal(-(n as int)) == seq!['-'] + decimal(n),
{
}

/// A limit only leaves out the numbers above it.
pub proof fn law_number_limit(s: Seq<char>, max: nat, n: nat)
    ensures
        number(s, max) == Some(n) <==> n <= max && number(s, n) == Some(n),
{
}

/// No text, a plus sign alone, and two plus signs write no number; one character
/// writes one if it is a digit, with a plus sign before it too.
pub proof fn law_number_begins(c: char, max: nat)
    ensures
        number(seq![], max) is None,
        number(seq!['+'], max) is None,
        number(seq!['+', '+'], max) is None,
        number(seq![c], max) == (if 48 <= c as int <= 57 && c as int - 48 <= max {
            Some((c as int - 48) as nat)
        } else {
            None
        }),
        c != '+' ==> number(seq!['+', c], max) == number(seq![c], max),
{
    let one = seq![c];
    assert(one.drop_last() == Seq::<char>::empty());
    assert(one.last() == c && value(one.drop_last()) == 0);
    assert(value(one) == digit_value(c));
    assert(is_digits(one) <==> is_digit(c)) by {
        assert(one[0] == c);
    }
    assert(seq!['+', c].skip(1) == one);
    assert(seq!['+'].skip(1) == Seq::<char>::empty());
    let plus = seq!['+', '+'].skip(1);
    assert(plus[0] == '+');
    assert(!is_digits(plus));
}

/// A digit behind a number makes ten times that number and the digit; anything
/// else behind it makes no number.
pub proof fn law_number_goes_on(s: Seq<char>, n: nat, c: char, max: nat)
    requires
        number(s, n) == Some(n),
    ensures
        number(s.push(c), max) == (if 48 <= c as int <= 57 && 10 * n + (c as int - 48) <= max {
            Some((10 * n + (c as int - 48)) as nat)
        } else {
            None
        }),
{
    let d = without_plus(s);
    let e = without_plus(s.push(c));
    assert(e == d.push(c));
    assert(e.drop_last() == d);
    assert(e.last() == c);
    if is_digit(c) {
        assert forall|i: int| 0 <= i < e.len() implies is_digit(#[trigger] e[i]) by {
            if i < d.len() {
                assert(e[i] == d[i]);
            }
        }
    } else {
        assert(e[e.len() - 1] == c);
        assert(!is_digits(e));
    }
}

/// What writes no number, whatever the limit, writes none with more behind it,
/// unless it is nothing yet or a plus sign.
pub proof fn law_number_stays_none(s: Seq<char>, c: char, max: nat)
    requires
        s.len() != 0,
        s != seq!['+'],
        forall|n: nat| #[trigger] number(s, n) is None,
    ensures
        number(s.push(c), max) is None,
{
    let d = without_plus(s);
    let e = without_plus(s.push(c));
    assert(number(s, value(d)) is None);
    assert(e == d.push(c));
    if d.len() == 0 {
        assert(s == seq!['+']);
    }
    assert(!is_digits(d));
    if is_digits(e) {
        assert forall|i: int| 0 <= i < d.len() implies is_digit(#[trigger] d[i]) by {
            assert(e[i] == d[i]);
        }
    }
}

/// Each byte is written as two of the characters 0 to 9 and a to f, in its place:
/// sixteen times what the first stands for, and what the second stands for.
pub proof fn law_hex(bytes: Seq<u8>, i: int)
    requires
        0 <= i < bytes.len(),
    ensures
        hex(bytes).len() == 2 * bytes.len(),
        ({
            let high = hex(bytes)[2 * i] as int;
            let low = hex(bytes)[2 * i + 1] as int;
            &&& 48 <= high <= 57 || 97 <= high <= 102
            &&& 48 <= low <= 57 || 97 <= low <= 102
            &&& bytes[i] as int == 16 * (if high <= 57 {
                high - 48
            } else {
                high - 87
            }) + (if low <= 57 {
                low - 48
            } else {
                low - 87
            })
        }),
{
    let b = bytes[i] as int;
    assert((2 * i) / 2 == i && (2 * i + 1) / 2 == i && (2 * i) % 2 == 0 && (2 * i + 1) % 2 == 1);
    assert(0 <= b / 16 < 16 && 0 <= b % 16 < 16);
    assert(hex(bytes)[2 * i] == hex_digit(b / 16));
    assert(hex(bytes)[2 * i + 1] == hex_digit(b % 16));
}

} // verus!
