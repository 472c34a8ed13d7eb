//! What reading and writing text comes to.
use crate::text::{
    decimal_of, hex_digit_of, hex_of, hex_unsigned_of, hex_value, is_space, last_index_of,
    lemma_decimal_value, lower, signed_of, trimmed, unsigned_of, upper,
};
use vstd::prelude::*;

verus! {

proof fn lemma_trimmed(s: Seq<char>) -> (r: (int, int))
    ensures
        0 <= r.0 <= r.1 <= s.len(),
        trimmed(s) == s.subrange(r.0, r.1),
        forall|k: int| 0 <= k < r.0 ==> is_space(#[trigger] s[k]),
        forall|k: int| r.1 <= k < s.len() ==> is_space(#[trigger] s[k]),
        r.0 < r.1 ==> !is_space(s[r.0]) && !is_space(s[r.1 - 1]),
    decreases s.len(),
{
    if s.len() == 0 {
        assert(s.subrange(0, 0) =~= s);
        (0, 0)
    } else if is_space(s[0]) {
        let t = s.skip(1);
        let (i, j) = lemma_trimmed(t);
        assert(t.subrange(i, j) =~= s.subrange(i + 1, j + 1));
        assert forall|k: int| 0 <= k < i + 1 implies is_space(#[trigger] s[k]) by {
            if k > 0 {
                assert(s[k] == t[k - 1]);
            }
        }
        assert forall|k: int| j + 1 <= k < s.len() implies is_space(#[trigger] s[k]) by {
            assert(s[k] == t[k - 1]);
        }
        (i + 1, j + 1)
    } else if is_space(s.last()) {
        let t = s.drop_last();
        let (i, j) = lemma_trimmed(t);
        assert(t.subrange(i, j) =~= s.subrange(i, j));
        assert forall|k: int| 0 <= k < i implies is_space(#[trigger] s[k]) by {
            assert(s[k] == t[k]);
        }
        assert forall|k: int| j <= k < s.len() implies is_space(#[trigger] s[k]) by {
            if k < t.len() {
                assert(s[k] == t[k]);
            }
        }
        (i, j)
    } else {
        assert(s.subrange(0, s.len() as int) =~= s);
        (0, s.len() as int)
    }
}

/// What is trimmed is a text between white space, and has none at its own ends.
pub open spec fn is_inside(t: Seq<char>, s: Seq<char>, i: int, j: int) -> bool {
    &&& 0 <= i <= j <= s.len()
    &&& t == s.subrange(i, j)
    &&& forall|k: int| 0 <= k < i ==> is_space(#[trigger] s[k])
    &&& forall|k: int| j <= k < s.len() ==> is_space(#[trigger] s[k])
    &&& t.len() > 0 ==> !is_space(t[0]) && !is_space(t.last())
}

/// Trimming takes white space off both ends, all of it, and nothing else.
pub proof fn law_trimmed(s: Seq<char>)
    ensures
        exists|i: int, j: int| is_inside(trimmed(s), s, i, j),
{
    let (i, j) = lemma_trimmed(s);
    assert(is_inside(trimmed(s), s, i, j));
}

/// What is white space and what is not, among the characters of ASCII.
pub proof fn law_white_space(c: char)
    requires
        c < '\u{80}',
    ensures
        is_space(c) <==> c == ' ' || c == '\t' || c == '\n' || c == '\r' || c == '\u{b}' || c
            == '\u{c}',
{
}

/// Letters change case and keep their place in the alphabet; other characters stay.
pub proof fn law_case(c: char)
    ensures
        'A' <= c <= 'Z' ==> 'a' <= lower(c) <= 'z' && lower(c) as int - 'a' as int == c as int
            - 'A' as int,
        'a' <= c <= 'z' ==> 'A' <= upper(c) <= 'Z' && upper(c) as int - 'A' as int == c as int
            - 'a' as int,
        !('A' <= c <= 'Z') ==> lower(c) == c,
        !('a' <= c <= 'z') ==> upper(c) == c,
{
}

/// A number that is written in decimal is read back, with or without a plus sign, unless it is above
/// the limit; a minus sign makes it negative.
pub proof fn law_decimal(n: nat, max: nat)
    ensures
        n <= max ==> unsigned_of(decimal_of(n), max) == Some(n),
        n > max ==> unsigned_of(decimal_of(n), max) is None,
        n <= max ==> unsigned_of(seq!['+'] + decimal_of(n), max) == Some(n),
        unsigned_of(Seq::empty(), max) is None,
        n <= 0x7fff_ffff ==> signed_of(decimal_of(n)) == Some(n as int),
        n <= 0x8000_0000 ==> signed_of(seq!['-'] + decimal_of(n)) == Some(-(n as int)),
        n > 0x7fff_ffff ==> signed_of(decimal_of(n)) is None,
{
    lemma_decimal_value(n);
    let d = decimal_of(n);
    assert(crate::text::is_digit(d[0]));
    assert((seq!['+'] + d).skip(1) =~= d);
    assert((seq!['-'] + d).skip(1) =~= d);
}

/// The digits of a number: the last is what is left over by ten, and those before it are the digits
/// of a tenth.
pub proof fn law_decimal_digits(n: nat)
    ensures
        decimal_of(n).last() as int == '0' as int + n % 10,
        n < 10 ==> decimal_of(n).len() == 1,
        n >= 10 ==> decimal_of(n).drop_last() == decimal_of(n / 10),
{
    if n >= 10 {
        assert(decimal_of(n).drop_last() =~= decimal_of(n / 10));
    }
}

/// A text with anything but digits is no number.
pub proof fn law_not_a_number(s: Seq<char>, i: int, max: nat)
    requires
        0 <= i < s.len(),
        !('0' <= s[i] <= '9'),
        i > 0 || s[0] != '+',
    ensures
        unsigned_of(s, max) is None,
{
    if s[0] == '+' {
        assert(s.skip(1)[i - 1] == s[i]);
        assert(!crate::text::is_digit(s.skip(1)[i - 1]));
    } else {
        assert(!crate::text::is_digit(s[i]));
    }
}

/// Each byte is two digits of base sixteen, the higher one first, in lower case.
pub proof fn law_hexadecimal(b: Seq<u8>, i: int)
    requires
        0 <= i < b.len(),
    ensures
        hex_of(b).len() == 2 * b.len(),
        hex_digit_of(hex_of(b)[2 * i]) == Some(b[i] as int / 16),
        hex_digit_of(hex_of(b)[2 * i + 1]) == Some(b[i] as int % 16),
        !('A' <= hex_of(b)[2 * i] <= 'F') && !('A' <= hex_of(b)[2 * i + 1] <= 'F'),
        hex_digit_of('0') == Some(0int) && hex_digit_of('9') == Some(9int),
        hex_digit_of('a') == Some(10int) && hex_digit_of('f') == Some(15int),
        hex_digit_of('A') == Some(10int) && hex_digit_of('F') == Some(15int),
        hex_digit_of('g') is None && hex_digit_of('G') is None && hex_digit_of('/') is None
            && hex_digit_of(':') is None,
{
    assert((2 * i) / 2 == i && (2 * i) % 2 == 0);
    assert((2 * i + 1) / 2 == i && (2 * i + 1) % 2 == 1);
}

/// A digit of base sixteen behind others is worth itself, and they sixteen times as much.
pub proof fn law_hexadecimal_number(s: Seq<char>, c: char)
    requires
        hex_digit_of(c) is Some,
    ensures
        hex_value(Seq::empty()) == 0,
        hex_value(s.push(c)) == 16 * hex_value(s) + hex_digit_of(c)->Some_0,
        hex_unsigned_of(seq![c]) == Some(hex_digit_of(c)->Some_0 as nat),
{
    assert(s.push(c).drop_last() =~= s);
    let one = seq![c];
    assert(one.drop_last() =~= Seq::<char>::empty());
    assert(crate::text::unsigned_digits(one) == one);
    assert(crate::text::all_hex(one));
    assert(hex_value(one.drop_last()) == 0);
    assert(hex_value(one) == hex_digit_of(c)->Some_0);
}

/// The last place of a character is the one behind which it does not stand.
pub proof fn law_last_place(s: Seq<char>, c: char, n: int, k: int)
    requires
        0 <= k < n <= s.len(),
        s[k] == c,
        forall|j: int| k < j < n ==> s[j] != c,
    ensures
        last_index_of(s, c, n) == Some(k),
    decreases n - k,
{
    if k < n - 1 {
        law_last_place(s, c, n - 1, k);
    }
}

} // verus!
