//! The control channel: RTSP requests and replies, in the clear or in encrypted frames.
pub mod frames;
pub mod laws;
pub mod message;
pub mod reply;
pub mod request;

use crate::text::{chars, hex_digit, hex_digit_of, hex_encode, hex_of, push_decimal, trim, trimmed};
use crate::text::{all_hex, decimal_of};
use vstd::prelude::*;
use vstd::slice::slice_subrange;

verus! {

/// The name under which a receiver's credentials are kept: its identifier, or its host when it has
/// none.
pub fn credential_key(device_id: &str, host: &str) -> (r: String)
    ensures
        r@ == (if device_id@.len() == 0 {
            host@
        } else {
            device_id@
        }),
{
    if device_id.is_empty() {
        host.to_owned()
    } else {
        device_id.to_owned()
    }
}

/// The bytes that pairs of hexadecimal digits stand for.
pub open spec fn hex_bytes(s: Seq<char>) -> Seq<u8> {
    Seq::new(
        s.len() / 2,
        |i: int| (hex_digit_of(s[2 * i])->Some_0 * 16 + hex_digit_of(s[2 * i + 1])->Some_0) as u8,
    )
}

/// The bytes that a hexadecimal string stands for, white space around it aside; none when it is
/// not made of pairs of digits.
pub open spec fn decoded_hex(s: Seq<char>) -> Seq<u8> {
    let t = trimmed(s);
    if t.len() % 2 == 0 && all_hex(t) {
        hex_bytes(t)
    } else {
        Seq::empty()
    }
}

/// Reads a hexadecimal string; nothing when it is not made of pairs of digits.
pub fn decode_hex(s: &str) -> (r: Vec<u8>)
    ensures
        r@ == decoded_hex(s@),
{
    let t: Vec<char> = trim(chars(s).as_slice());
    let mut out: Vec<u8> = Vec::new();
    if t.len() % 2 != 0 {
        return out;
    }
    let mut i: usize = 0;
    while i < t.len()
        invariant
            i <= t@.len(),
            i % 2 == 0,
            t@.len() % 2 == 0,
            t@ == trimmed(s@),
            out@ =~= hex_bytes(t@.take(i as int)),
            forall|k: int| 0 <= k < i ==> hex_digit_of(#[trigger] t@[k]) is Some,
        decreases t.len() - i,
    {
        match (hex_digit(t[i]), hex_digit(t[i + 1])) {
            (Some(high), Some(low)) => {
                out.push(high * 16 + low);
            },
            _ => {
                assert(hex_digit_of(t@[i as int]) is None || hex_digit_of(t@[i + 1]) is None);
                return Vec::new();
            },
        }
        i += 2;
        assert(out@ =~= hex_bytes(t@.take(i as int)));
    }
    assert(t@.take(i as int) =~= t@);
    out
}

/// How many bytes a dump shows.
pub const DUMP_LIMIT: usize = 1024;

/// A dump of bytes in hexadecimal, cut short with the number of bytes left out.
pub open spec fn dump_of(b: Seq<u8>) -> Seq<char> {
    if b.len() > DUMP_LIMIT {
        hex_of(b.take(DUMP_LIMIT as int)) + "…(+"@ + decimal_of((b.len() - DUMP_LIMIT) as nat)
            + " bytes)"@
    } else {
        hex_of(b)
    }
}

/// A dump of bytes for a log.
pub fn hexdump(b: &[u8]) -> (r: String)
    ensures
        r@ == dump_of(b@),
{
    if b.len() > DUMP_LIMIT {
        let shown: &[u8] = slice_subrange(b, 0, DUMP_LIMIT);
        assert(shown@ =~= b@.take(DUMP_LIMIT as int));
        let mut out: String = hex_encode(shown);
        out.push_str("…(+");
        push_decimal(&mut out, (b.len() - DUMP_LIMIT) as u64);
        out.push_str(" bytes)");
        out
    } else {
        hex_encode(b)
    }
}

/// Decoding what was encoded in hexadecimal gives the bytes back.
pub proof fn lemma_hex_round_trip(b: Seq<u8>)
    ensures
        decoded_hex(hex_of(b)) == b,
{
    let s = hex_of(b);
    assert forall|i: int| 0 <= i < s.len() implies hex_digit_of(#[trigger] s[i]) is Some by {
        assert(0 <= b[i / 2] as int / 16 < 16);
    }
    lemma_no_space(s);
    assert(hex_bytes(s) =~= b) by {
        assert forall|i: int| 0 <= i < b.len() implies hex_bytes(s)[i] == b[i] by {
            assert((2 * i) / 2 == i && (2 * i + 1) / 2 == i);
            assert(hex_digit_of(s[2 * i]) == Some(b[i] as int / 16));
            assert(hex_digit_of(s[2 * i + 1]) == Some(b[i] as int % 16));
        }
    }
}

proof fn lemma_no_space(s: Seq<char>)
    requires
        all_hex(s),
    ensures
        trimmed(s) == s,
{
    if s.len() > 0 {
        assert(hex_digit_of(s[0]) is Some);
        assert(hex_digit_of(s.last()) is Some);
    }
}

} // verus!
