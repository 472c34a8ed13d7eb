//! Strings, as sequences of characters.
pub mod laws;

use crate::bytes::same_bytes;
use vstd::prelude::*;

verus! {

/// Whether two strings hold the same characters.
pub(crate) fn same(a: &str, b: &str) -> (r: bool)
    ensures
        r == (a@ == b@),
{
    proof {
        vstd::utf8::encode_utf8_decode_utf8(a@);
        vstd::utf8::encode_utf8_decode_utf8(b@);
    }
    same_bytes(a.as_bytes(), b.as_bytes())
}

/// What a byte string reads as when every ill-formed part of it is replaced.
pub uninterp spec fn read_lossy(bytes: Seq<u8>) -> Seq<char>;

/// Calls `String::from_utf8_lossy`: the result depends on the bytes alone, and well-formed UTF-8
/// is kept as it is.
#[verifier::external_body]
pub(crate) fn from_utf8_lossy(bytes: &[u8]) -> (r: String)
    ensures
        r@ == read_lossy(bytes@),
        vstd::utf8::valid_utf8(bytes@) ==> r@ == vstd::utf8::decode_utf8(bytes@),
{
    String::from_utf8_lossy(bytes).into_owned()
}

/// `String::push` appends a character.
pub assume_specification[ String::push ](s: &mut String, c: char)
    ensures
        final(s)@ == old(s)@.push(c),
;

/// `String::push_str` appends a string.
pub assume_specification[ String::push_str ](s: &mut String, other: &str)
    ensures
        final(s)@ == old(s)@ + other@,
;

/// The characters of a string.
pub fn chars(s: &str) -> (r: Vec<char>)
    ensures
        r@ == s@,
{
    let mut out: Vec<char> = Vec::new();
    for c in it: s.chars()
        invariant
            out@.len() == it.index(),
            it.seq() == s@,
            forall|i: int| 0 <= i < out@.len() ==> out@[i] == it.seq()[i],
    {
        out.push(c);
    }
    assert(out@ =~= s@);
    out
}

/// The string of a list of characters.
pub fn from_chars(chars: &[char]) -> (r: String)
    ensures
        r@ == chars@,
{
    let mut out = String::new();
    let mut i: usize = 0;
    while i < chars.len()
        invariant
            i <= chars@.len(),
            out@ =~= chars@.take(i as int),
        decreases chars.len() - i,
    {
        out.push(chars[i]);
        i += 1;
    }
    assert(chars@.take(i as int) =~= chars@);
    out
}

/// The character of a hexadecimal digit, in lower case.
pub open spec fn hex_char(d: int) -> char {
    if d < 10 {
        (0x30 + d) as char
    } else {
        (0x57 + d) as char
    }
}

/// The character of a hexadecimal digit, in upper case.
pub open spec fn upper_hex_char(d: int) -> char {
    if d < 10 {
        (0x30 + d) as char
    } else {
        (0x37 + d) as char
    }
}

fn to_hex_char(d: u8) -> (r: char)
    requires
        d < 16,
    ensures
        r == hex_char(d as int),
{
    if d < 10 {
        (0x30 + d) as char
    } else {
        (0x57 + d) as char
    }
}

fn to_upper_hex_char(d: u8) -> (r: char)
    requires
        d < 16,
    ensures
        r == upper_hex_char(d as int),
{
    if d < 10 {
        (0x30 + d) as char
    } else {
        (0x37 + d) as char
    }
}

/// Bytes in hexadecimal, two lower-case digits each.
pub open spec fn hex_of(bytes: Seq<u8>) -> Seq<char> {
    Seq::new(
        bytes.len() * 2,
        |i: int|
            if i % 2 == 0 {
                hex_char(bytes[i / 2] as int / 16)
            } else {
                hex_char(bytes[i / 2] as int % 16)
            },
    )
}

/// Bytes in hexadecimal, two lower-case digits each.
pub fn hex_encode(bytes: &[u8]) -> (r: String)
    ensures
        r@ == hex_of(bytes@),
{
    let mut out = String::new();
    let mut i: usize = 0;
    while i < bytes.len()
        invariant
            i <= bytes@.len(),
            out@ =~= hex_of(bytes@.take(i as int)),
        decreases bytes.len() - i,
    {
        let b: u8 = bytes[i];
        out.push(to_hex_char(b / 16));
        out.push(to_hex_char(b % 16));
        i += 1;
        assert(out@ =~= hex_of(bytes@.take(i as int)));
    }
    assert(bytes@.take(i as int) =~= bytes@);
    out
}

/// Bytes in hexadecimal, two upper-case digits each.
pub open spec fn upper_hex_of(bytes: Seq<u8>) -> Seq<char> {
    Seq::new(
        bytes.len() * 2,
        |i: int|
            if i % 2 == 0 {
                upper_hex_char(bytes[i / 2] as int / 16)
            } else {
                upper_hex_char(bytes[i / 2] as int % 16)
            },
    )
}

/// Appends bytes in hexadecimal, two upper-case digits each.
pub(crate) fn push_upper_hex(out: &mut String, bytes: &[u8])
    ensures
        final(out)@ == old(out)@ + upper_hex_of(bytes@),
{
    let ghost start = out@;
    let mut i: usize = 0;
    while i < bytes.len()
        invariant
            i <= bytes@.len(),
            out@ =~= start + upper_hex_of(bytes@.take(i as int)),
        decreases bytes.len() - i,
    {
        let b: u8 = bytes[i];
        out.push(to_upper_hex_char(b / 16));
        out.push(to_upper_hex_char(b % 16));
        i += 1;
        assert(out@ =~= start + upper_hex_of(bytes@.take(i as int)));
    }
    assert(bytes@.take(i as int) =~= bytes@);
}

/// A number in decimal.
pub open spec fn decimal_of(n: nat) -> Seq<char>
    decreases n,
{
    if n < 10 {
        seq![(0x30 + n) as char]
    } else {
        decimal_of(n / 10).push((0x30 + n % 10) as char)
    }
}

/// Appends a number in decimal.
pub(crate) fn push_decimal(out: &mut String, n: u64)
    ensures
        final(out)@ == old(out)@ + decimal_of(n as nat),
    decreases n,
{
    let ghost start = out@;
    let digit: u8 = (n % 10) as u8;
    if n >= 10 {
        push_decimal(out, n / 10);
    }
    out.push((0x30 + digit) as char);
    assert(out@ =~= start + decimal_of(n as nat));
}

/// A number in decimal.
pub fn decimal(n: u64) -> (r: String)
    ensures
        r@ == decimal_of(n as nat),
{
    let mut out = String::new();
    push_decimal(&mut out, n);
    assert(out@ =~= decimal_of(n as nat));
    out
}

/// Whether a character is white space, as Unicode has it.
#[verifier::allow_in_spec]
pub fn is_space(c: char) -> bool
    returns
        (c >= '\u{9}' && c <= '\u{d}') || c == ' ' || c == '\u{85}' || c == '\u{a0}'
            || c == '\u{1680}' || (c >= '\u{2000}' && c <= '\u{200a}') || c == '\u{2028}'
            || c == '\u{2029}' || c == '\u{202f}' || c == '\u{205f}' || c == '\u{3000}',
{
    (c >= '\u{9}' && c <= '\u{d}') || c == ' ' || c == '\u{85}' || c == '\u{a0}' || c == '\u{1680}'
        || (c >= '\u{2000}' && c <= '\u{200a}') || c == '\u{2028}' || c == '\u{2029}'
        || c == '\u{202f}' || c == '\u{205f}' || c == '\u{3000}'
}

/// A string without the white space at its ends.
pub open spec fn trimmed(s: Seq<char>) -> Seq<char>
    decreases s.len(),
{
    if s.len() == 0 {
        s
    } else if is_space(s[0]) {
        trimmed(s.skip(1))
    } else if is_space(s.last()) {
        trimmed(s.drop_last())
    } else {
        s
    }
}

/// The characters without the white space at their ends.
pub fn trim(s: &[char]) -> (r: Vec<char>)
    ensures
        r@ == trimmed(s@),
{
    let mut from: usize = 0;
    let mut to: usize = s.len();
    assert(s@.subrange(0, to as int) =~= s@);
    while from < to && is_space(s[from])
        invariant
            from <= to,
            to == s@.len(),
            trimmed(s@) == trimmed(s@.subrange(from as int, to as int)),
        decreases to - from,
    {
        let ghost part = s@.subrange(from as int, to as int);
        from += 1;
        assert(part.skip(1) =~= s@.subrange(from as int, to as int));
    }
    while from < to && is_space(s[to - 1])
        invariant
            from <= to,
            to <= s@.len(),
            from < to ==> !is_space(s@[from as int]),
            trimmed(s@) == trimmed(s@.subrange(from as int, to as int)),
        decreases to - from,
    {
        let ghost part = s@.subrange(from as int, to as int);
        to -= 1;
        assert(part.drop_last() =~= s@.subrange(from as int, to as int));
    }
    let out: Vec<char> = vstd::slice::slice_to_vec(vstd::slice::slice_subrange(s, from, to));
    assert(out@ =~= s@.subrange(from as int, to as int));
    out
}

/// Whether a character is a decimal digit.
#[verifier::allow_in_spec]
pub fn is_digit(c: char) -> bool
    returns
        c >= '0' && c <= '9',
{
    c >= '0' && c <= '9'
}

/// A character in lower case, if it is an ASCII letter.
pub open spec fn lower(c: char) -> char {
    if 'A' <= c <= 'Z' {
        (c as u32 + 0x20) as char
    } else {
        c
    }
}

fn to_lower(c: char) -> (r: char)
    ensures
        r == lower(c),
{
    if c >= 'A' && c <= 'Z' {
        (c as u8 + 0x20) as char
    } else {
        c
    }
}

/// A string with its ASCII letters in lower case.
pub open spec fn lowered(s: Seq<char>) -> Seq<char> {
    s.map_values(|c: char| lower(c))
}

/// The characters with the ASCII letters in lower case.
pub fn to_lowered(s: &[char]) -> (r: Vec<char>)
    ensures
        r@ == lowered(s@),
{
    let mut out: Vec<char> = Vec::new();
    let mut i: usize = 0;
    while i < s.len()
        invariant
            i <= s@.len(),
            out@ =~= lowered(s@.take(i as int)),
        decreases s.len() - i,
    {
        out.push(to_lower(s[i]));
        i += 1;
        assert(out@ =~= lowered(s@.take(i as int)));
    }
    assert(s@.take(i as int) =~= s@);
    out
}

/// The number that a string of digits stands for.
pub open spec fn digits_value(s: Seq<char>) -> nat
    decreases s.len(),
{
    if s.len() == 0 {
        0
    } else {
        (digits_value(s.drop_last()) * 10 + (s.last() as int - 0x30)) as nat
    }
}

/// The digits of an unsigned number, after an optional plus sign.
pub open spec fn unsigned_digits(s: Seq<char>) -> Seq<char> {
    if s.len() > 0 && s[0] == '+' {
        s.skip(1)
    } else {
        s
    }
}

/// The unsigned number up to `max` that a string stands for: at least one digit after an optional
/// plus sign, and nothing else.
pub open spec fn unsigned_of(s: Seq<char>, max: nat) -> Option<nat> {
    let digits = unsigned_digits(s);
    if digits.len() > 0 && (forall|i: int| 0 <= i < digits.len() ==> is_digit(#[trigger] digits[i]))
        && digits_value(digits) <= max {
        Some(digits_value(digits))
    } else {
        None
    }
}

proof fn lemma_digits_grow(s: Seq<char>, i: int)
    requires
        0 <= i <= s.len(),
        forall|k: int| 0 <= k < s.len() ==> is_digit(#[trigger] s[k]),
    ensures
        digits_value(s.take(i)) <= digits_value(s),
    decreases s.len() - i,
{
    if i < s.len() {
        let next = s.take(i + 1);
        assert(next.drop_last() =~= s.take(i));
        lemma_digits_grow(s, i + 1);
    } else {
        assert(s.take(i) =~= s);
    }
}

/// Reads an unsigned number up to `max`.
pub fn parse_unsigned(s: &[char], max: u64) -> (r: Option<u64>)
    ensures
        match unsigned_of(s@, max as nat) {
            Some(n) => r == Some(n as u64) && n <= max,
            None => r is None,
        },
{
    let start: usize = if s.len() > 0 && s[0] == '+' {
        1
    } else {
        0
    };
    let ghost digits = unsigned_digits(s@);
    assert(digits =~= s@.skip(start as int));
    if s.len() == start {
        return None;
    }
    let mut value: u64 = 0;
    let mut i: usize = start;
    while i < s.len()
        invariant
            start <= i <= s@.len(),
            start <= 1,
            digits == s@.skip(start as int),
            digits == unsigned_digits(s@),
            value == digits_value(digits.take(i - start)),
            value <= max,
            forall|k: int| 0 <= k < i - start ==> is_digit(#[trigger] digits[k]),
        decreases s.len() - i,
    {
        let c: char = s[i];
        assert(digits[i - start] == c);
        if !is_digit(c) {
            return None;
        }
        let d: u64 = (c as u8 - 0x30) as u64;
        let ghost next = digits.take(i - start + 1);
        assert(next.drop_last() =~= digits.take(i - start));
        assert(next.last() == c);
        assert(digits_value(next) == value * 10 + d);
        if value > (u64::MAX - d) / 10 || value * 10 + d > max {
            proof {
                if forall|k: int| 0 <= k < digits.len() ==> is_digit(#[trigger] digits[k]) {
                    lemma_digits_grow(digits, i - start + 1);
                }
            }
            return None;
        }
        value = value * 10 + d;
        i += 1;
    }
    assert(digits.take(i - start) =~= digits);
    Some(value)
}

/// The value of a hexadecimal digit of either case; `None` for any other character.
pub open spec fn hex_digit_of(c: char) -> Option<int> {
    if '0' <= c <= '9' {
        Some(c as int - 0x30)
    } else if 'a' <= c <= 'f' {
        Some(c as int - 0x57)
    } else if 'A' <= c <= 'F' {
        Some(c as int - 0x37)
    } else {
        None
    }
}

/// The value of a hexadecimal digit of either case.
pub fn hex_digit(c: char) -> (r: Option<u8>)
    ensures
        match hex_digit_of(c) {
            Some(d) => r == Some(d as u8) && 0 <= d < 16,
            None => r is None,
        },
{
    if c >= '0' && c <= '9' {
        Some(c as u8 - 0x30)
    } else if c >= 'a' && c <= 'f' {
        Some(c as u8 - 0x57)
    } else if c >= 'A' && c <= 'F' {
        Some(c as u8 - 0x37)
    } else {
        None
    }
}

/// Whether every character is a hexadecimal digit.
pub open spec fn all_hex(s: Seq<char>) -> bool {
    forall|i: int| 0 <= i < s.len() ==> hex_digit_of(#[trigger] s[i]) is Some
}

/// The number that a string of hexadecimal digits stands for.
pub open spec fn hex_value(s: Seq<char>) -> nat
    decreases s.len(),
{
    if s.len() == 0 {
        0
    } else {
        (hex_value(s.drop_last()) * 16 + hex_digit_of(s.last())->Some_0) as nat
    }
}

proof fn lemma_hex_grows(s: Seq<char>, i: int)
    requires
        0 <= i <= s.len(),
        all_hex(s),
    ensures
        hex_value(s.take(i)) <= hex_value(s),
    decreases s.len() - i,
{
    if i < s.len() {
        let next = s.take(i + 1);
        assert(next.drop_last() =~= s.take(i));
        assert(hex_digit_of(s[i]) is Some);
        lemma_hex_grows(s, i + 1);
    } else {
        assert(s.take(i) =~= s);
    }
}

/// The 64-bit number that a string stands for in hexadecimal: at least one digit after an optional
/// plus sign, and nothing else.
pub open spec fn hex_unsigned_of(s: Seq<char>) -> Option<nat> {
    let digits = unsigned_digits(s);
    if digits.len() > 0 && all_hex(digits) && hex_value(digits) <= u64::MAX {
        Some(hex_value(digits))
    } else {
        None
    }
}

/// Reads a 64-bit number in hexadecimal.
pub fn parse_hex(s: &[char]) -> (r: Option<u64>)
    ensures
        match hex_unsigned_of(s@) {
            Some(n) => r == Some(n as u64) && n <= u64::MAX,
            None => r is None,
        },
{
    let start: usize = if s.len() > 0 && s[0] == '+' {
        1
    } else {
        0
    };
    let ghost digits = unsigned_digits(s@);
    assert(digits =~= s@.skip(start as int));
    if s.len() == start {
        return None;
    }
    let mut value: u64 = 0;
    let mut i: usize = start;
    while i < s.len()
        invariant
            start <= i <= s@.len(),
            start <= 1,
            digits == s@.skip(start as int),
            digits == unsigned_digits(s@),
            value == hex_value(digits.take(i - start)),
            forall|k: int| 0 <= k < i - start ==> hex_digit_of(#[trigger] digits[k]) is Some,
        decreases s.len() - i,
    {
        assert(digits[i - start] == s@[i as int]);
        let d: u64 = match hex_digit(s[i]) {
            Some(d) => d as u64,
            None => {
                return None;
            },
        };
        let ghost next = digits.take(i - start + 1);
        assert(next.drop_last() =~= digits.take(i - start));
        assert(next.last() == s@[i as int]);
        assert(hex_value(next) == value * 16 + d);
        if value > (u64::MAX - d) / 16 {
            proof {
                if all_hex(digits) {
                    lemma_hex_grows(digits, i - start + 1);
                }
            }
            return None;
        }
        value = value * 16 + d;
        i += 1;
    }
    assert(digits.take(i - start) =~= digits);
    Some(value)
}

/// Reading a number's decimal digits gives the number.
pub proof fn lemma_decimal_value(n: nat)
    ensures
        digits_value(decimal_of(n)) == n,
        decimal_of(n).len() > 0,
        forall|i: int| 0 <= i < decimal_of(n).len() ==> is_digit(#[trigger] decimal_of(n)[i]),
    decreases n,
{
    let s = decimal_of(n);
    if n < 10 {
        assert(s.drop_last() =~= Seq::empty());
        assert(digits_value(s.drop_last()) == 0);
    } else {
        lemma_decimal_value(n / 10);
        assert(s.drop_last() =~= decimal_of(n / 10));
    }
}

/// The number from -2^31 to 2^31 - 1 that a string stands for: digits behind an optional sign.
pub open spec fn signed_of(s: Seq<char>) -> Option<int> {
    if s.len() > 0 && s[0] == '-' {
        let digits = s.skip(1);
        if digits.len() > 0 && digits[0] == '+' {
            None
        } else {
            match unsigned_of(digits, 0x8000_0000) {
                Some(n) => Some(-(n as int)),
                None => None,
            }
        }
    } else {
        match unsigned_of(s, 0x7fff_ffff) {
            Some(n) => Some(n as int),
            None => None,
        }
    }
}

/// Reads a number with an optional sign.
pub fn parse_i32(s: &[char]) -> (r: Option<i32>)
    ensures
        match signed_of(s@) {
            Some(n) => r matches Some(v) && v == n,
            None => r is None,
        },
{
    if s.len() > 0 && s[0] == '-' {
        let digits: &[char] = vstd::slice::slice_subrange(s, 1, s.len());
        assert(digits@ =~= s@.skip(1));
        if digits.len() > 0 && digits[0] == '+' {
            return None;
        }
        match parse_unsigned(digits, 0x8000_0000) {
            Some(n) => Some((0 - n as i64) as i32),
            None => None,
        }
    } else {
        match parse_unsigned(s, 0x7fff_ffff) {
            Some(n) => Some(n as i32),
            None => None,
        }
    }
}

/// Where a character first stands, from place `i` on; the length when it does not.
pub open spec fn index_of_char(s: Seq<char>, c: char, i: int) -> int
    decreases s.len() - i,
{
    if i >= s.len() {
        s.len() as int
    } else if s[i] == c {
        i
    } else {
        index_of_char(s, c, i + 1)
    }
}

/// Where a character first stands, from a place on; the length when it does not.
pub fn find_char(s: &[char], c: char, from: usize) -> (r: usize)
    requires
        from <= s@.len(),
    ensures
        r == index_of_char(s@, c, from as int),
        from <= r <= s@.len(),
        r < s@.len() ==> s@[r as int] == c,
{
    let mut i: usize = from;
    while i < s.len() && s[i] != c
        invariant
            from <= i <= s@.len(),
            index_of_char(s@, c, from as int) == index_of_char(s@, c, i as int),
        decreases s.len() - i,
    {
        i += 1;
    }
    i
}

pub(crate) proof fn lemma_index_of_char(s: Seq<char>, c: char, i: int)
    requires
        0 <= i <= s.len(),
    ensures
        i <= index_of_char(s, c, i) <= s.len(),
    decreases s.len() - i,
{
    if i < s.len() && s[i] != c {
        lemma_index_of_char(s, c, i + 1);
    }
}

/// Where the word that starts at `i` ends.
pub open spec fn word_end(s: Seq<char>, i: int) -> int
    decreases s.len() - i,
{
    if i >= s.len() {
        s.len() as int
    } else if is_space(s[i]) {
        i
    } else {
        word_end(s, i + 1)
    }
}

pub(crate) proof fn lemma_word_end(s: Seq<char>, i: int)
    requires
        0 <= i,
    ensures
        i <= s.len() ==> i <= word_end(s, i) <= s.len(),
    decreases s.len() - i,
{
    if i < s.len() && !is_space(s[i]) {
        lemma_word_end(s, i + 1);
    }
}

/// Where the word that starts at a place ends.
pub(crate) fn find_word_end(s: &[char], from: usize) -> (r: usize)
    requires
        from <= s@.len(),
    ensures
        r == word_end(s@, from as int),
        from <= r <= s@.len(),
{
    let mut i: usize = from;
    while i < s.len() && !is_space(s[i])
        invariant
            from <= i <= s@.len(),
            word_end(s@, from as int) == word_end(s@, i as int),
        decreases s.len() - i,
    {
        i += 1;
    }
    i
}

/// Where a character last stands before place `n`; `None` when it does not.
pub open spec fn last_index_of(s: Seq<char>, c: char, n: int) -> Option<int>
    decreases n,
{
    if n <= 0 {
        None
    } else if s[n - 1] == c {
        Some(n - 1)
    } else {
        last_index_of(s, c, n - 1)
    }
}

/// Where a character last stands.
pub fn find_last_char(s: &[char], c: char) -> (r: Option<usize>)
    ensures
        match last_index_of(s@, c, s@.len() as int) {
            Some(i) => r matches Some(k) && k == i && i < s@.len(),
            None => r is None,
        },
{
    let mut n: usize = s.len();
    while n > 0
        invariant
            n <= s@.len(),
            last_index_of(s@, c, s@.len() as int) == last_index_of(s@, c, n as int),
        decreases n,
    {
        if s[n - 1] == c {
            return Some(n - 1);
        }
        n -= 1;
    }
    None
}

/// Whether a piece of text stands at a place.
pub open spec fn stands_at(s: Seq<char>, part: Seq<char>, i: int) -> bool {
    0 <= i && i + part.len() <= s.len() && s.subrange(i, i + part.len()) == part
}

/// Whether a text holds a piece.
pub open spec fn holds(s: Seq<char>, part: Seq<char>) -> bool {
    exists|i: int| stands_at(s, part, i)
}

/// Whether a text holds a piece.
pub fn contains_text(s: &[char], part: &[char]) -> (r: bool)
    ensures
        r == holds(s@, part@),
{
    if part.len() == 0 {
        assert(s@.subrange(0, 0) =~= part@);
        assert(stands_at(s@, part@, 0));
        return true;
    }
    let mut i: usize = 0;
    while i < s.len() && part.len() <= s.len() - i
        invariant
            i <= s@.len(),
            part@.len() > 0,
            forall|k: int| 0 <= k < i ==> !stands_at(s@, part@, k),
        decreases s.len() - i,
    {
        let here: &[char] = vstd::slice::slice_subrange(s, i, i + part.len());
        if same_chars(here, part) {
            assert(stands_at(s@, part@, i as int));
            return true;
        }
        i += 1;
    }
    assert forall|k: int| !stands_at(s@, part@, k) by {
        if k >= i {
            assert(k + part@.len() > s@.len());
        }
    }
    false
}

/// Whether two lists of characters are the same.
pub fn same_chars(a: &[char], b: &[char]) -> (r: bool)
    ensures
        r == (a@ == b@),
{
    if a.len() != b.len() {
        return false;
    }
    let mut i: usize = 0;
    while i < a.len()
        invariant
            i <= a@.len(),
            a@.len() == b@.len(),
            forall|k: int| 0 <= k < i ==> a@[k] == b@[k],
        decreases a.len() - i,
    {
        if a[i] != b[i] {
            return false;
        }
        i += 1;
    }
    assert(a@ =~= b@);
    true
}

/// A list of texts.
pub open spec fn texts(v: Seq<String>) -> Seq<Seq<char>> {
    v.map_values(|s: String| s@)
}

/// Whether a text starts with a piece.
pub open spec fn starts(s: Seq<char>, part: Seq<char>) -> bool {
    s.len() >= part.len() && s.take(part.len() as int) == part
}

/// A text without a piece that it starts with, as often as it does.
pub open spec fn without_start(s: Seq<char>, part: Seq<char>) -> Seq<char>
    decreases s.len(),
{
    if part.len() > 0 && starts(s, part) {
        without_start(s.skip(part.len() as int), part)
    } else {
        s
    }
}

/// Whether a text starts with a piece.
pub fn starts_with(s: &[char], part: &[char]) -> (r: bool)
    ensures
        r == starts(s@, part@),
{
    if s.len() < part.len() {
        return false;
    }
    let head: &[char] = vstd::slice::slice_subrange(s, 0, part.len());
    assert(head@ =~= s@.take(part@.len() as int));
    same_chars(head, part)
}

/// A text without a piece that it starts with, as often as it does.
pub fn trim_start_matches(s: &[char], part: &[char]) -> (r: Vec<char>)
    requires
        part@.len() > 0,
    ensures
        r@ == without_start(s@, part@),
{
    let mut rest: &[char] = s;
    while starts_with(rest, part)
        invariant
            part@.len() > 0,
            without_start(s@, part@) == without_start(rest@, part@),
        decreases rest@.len(),
    {
        let next: &[char] = vstd::slice::slice_subrange(rest, part.len(), rest.len());
        assert(next@ =~= rest@.skip(part@.len() as int));
        rest = next;
    }
    vstd::slice::slice_to_vec(rest)
}

/// A character in upper case, if it is an ASCII letter.
pub open spec fn upper(c: char) -> char {
    if 'a' <= c <= 'z' {
        (c as u32 - 0x20) as char
    } else {
        c
    }
}

/// A text with its ASCII letters in upper case.
pub open spec fn uppered(s: Seq<char>) -> Seq<char> {
    s.map_values(|c: char| upper(c))
}

/// A text in lower case.
pub uninterp spec fn lowercase_of(s: Seq<char>) -> Seq<char>;

/// A text in upper case.
pub uninterp spec fn uppercase_of(s: Seq<char>) -> Seq<char>;

/// Calls `str::to_lowercase`: the result depends on the text alone; of an ASCII text the letters
/// change and nothing else.
#[verifier::external_body]
pub(crate) fn to_lowercase(s: &str) -> (r: String)
    ensures
        r@ == lowercase_of(s@),
        vstd::utf8::is_ascii_chars(s@) ==> r@ == lowered(s@),
{
    s.to_lowercase()
}

/// Calls `str::to_uppercase`: the result depends on the text alone; of an ASCII text the letters
/// change and nothing else.
#[verifier::external_body]
pub(crate) fn to_uppercase(s: &str) -> (r: String)
    ensures
        r@ == uppercase_of(s@),
        vstd::utf8::is_ascii_chars(s@) ==> r@ == uppered(s@),
{
    s.to_uppercase()
}

} // verus!
