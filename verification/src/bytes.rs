//! Byte sequences and the integers they encode.
use vstd::prelude::*;

verus! {

/// The 32-bit value whose little-endian bytes stand at `s[i..i + 4]`.
pub open spec fn le32_at(s: Seq<u8>, i: int) -> u32 {
    (s[i] + 0x100 * s[i + 1] + 0x1_0000 * s[i + 2] + 0x100_0000 * s[i + 3]) as u32
}

/// The 32-bit value whose big-endian bytes stand at `s[i..i + 4]`.
pub open spec fn be32_at(s: Seq<u8>, i: int) -> u32 {
    (s[i + 3] + 0x100 * s[i + 2] + 0x1_0000 * s[i + 1] + 0x100_0000 * s[i]) as u32
}

/// Byte `k` of `v`, counted from the least significant.
pub open spec fn byte32(v: u32, k: int) -> u8 {
    if k == 0 {
        (v % 0x100) as u8
    } else if k == 1 {
        (v / 0x100 % 0x100) as u8
    } else if k == 2 {
        (v / 0x1_0000 % 0x100) as u8
    } else {
        (v / 0x100_0000) as u8
    }
}

/// The little-endian bytes of `v`.
pub open spec fn le_bytes32(v: u32) -> Seq<u8> {
    Seq::new(4, |k: int| byte32(v, k))
}

/// The little-endian bytes of `v`.
pub open spec fn le_bytes64(v: u64) -> Seq<u8> {
    let low = (v % 0x1_0000_0000) as u32;
    let high = (v / 0x1_0000_0000) as u32;
    Seq::new(
        8,
        |i: int|
            if i < 4 {
                byte32(low, i)
            } else {
                byte32(high, i - 4)
            },
    )
}

pub open spec fn le_bytes16(v: u16) -> Seq<u8> {
    Seq::new(
        2,
        |i: int|
            if i == 0 {
                (v % 0x100) as u8
            } else {
                (v / 0x100) as u8
            },
    )
}

/// Reading back the little-endian bytes of a value gives the value.
pub proof fn lemma_le32_inverse(v: u32)
    ensures
        le32_at(le_bytes32(v), 0) == v,
{
    let b = le_bytes32(v);
    assert(b[0] + 0x100 * b[1] + 0x1_0000 * b[2] + 0x100_0000 * b[3] == v);
}

pub fn le_u32(b: &[u8], i: usize) -> (r: u32)
    requires
        i + 4 <= b.len(),
    ensures
        r == le32_at(b@, i as int),
{
    b[i] as u32 + 0x100 * (b[i + 1] as u32) + 0x1_0000 * (b[i + 2] as u32) + 0x100_0000 * (
    b[i + 3] as u32)
}

pub fn be_u32(b: &[u8], i: usize) -> (r: u32)
    requires
        i + 4 <= b.len(),
    ensures
        r == be32_at(b@, i as int),
{
    b[i + 3] as u32 + 0x100 * (b[i + 2] as u32) + 0x1_0000 * (b[i + 1] as u32) + 0x100_0000 * (
    b[i] as u32)
}

/// The 16-bit value whose little-endian bytes stand at `s[i..i + 2]`.
pub open spec fn le16_at(s: Seq<u8>, i: int) -> u16 {
    (s[i] + 0x100 * s[i + 1]) as u16
}

/// The 64-bit value whose little-endian bytes stand at `s[i..i + 8]`.
pub open spec fn le64_at(s: Seq<u8>, i: int) -> u64 {
    (le32_at(s, i) + 0x1_0000_0000 * le32_at(s, i + 4)) as u64
}

pub fn le_u16(b: &[u8], i: usize) -> (r: u16)
    requires
        i + 2 <= b.len(),
    ensures
        r == le16_at(b@, i as int),
{
    b[i] as u16 + 0x100 * (b[i + 1] as u16)
}

pub fn le_u64(b: &[u8], i: usize) -> (r: u64)
    requires
        i + 8 <= b.len(),
    ensures
        r == le64_at(b@, i as int),
{
    le_u32(b, i) as u64 + 0x1_0000_0000 * (le_u32(b, i + 4) as u64)
}

pub fn byte_of(v: u32, k: usize) -> (r: u8)
    requires
        k < 4,
    ensures
        r == byte32(v, k as int),
{
    if k == 0 {
        (v % 0x100) as u8
    } else if k == 1 {
        (v / 0x100 % 0x100) as u8
    } else if k == 2 {
        (v / 0x1_0000 % 0x100) as u8
    } else {
        (v / 0x100_0000) as u8
    }
}

/// Appends the little-endian bytes of a value to a buffer.
pub(crate) fn extend_le32(out: &mut Vec<u8>, v: u32)
    ensures
        final(out)@ == old(out)@ + le_bytes32(v),
{
    out.push(byte_of(v, 0));
    out.push(byte_of(v, 1));
    out.push(byte_of(v, 2));
    out.push(byte_of(v, 3));
    assert(out@ =~= old(out)@ + le_bytes32(v));
}

/// Appends the little-endian bytes of a value to a buffer.
pub(crate) fn extend_le64(out: &mut Vec<u8>, v: u64)
    ensures
        final(out)@ == old(out)@ + le_bytes64(v),
{
    let low: u32 = (v % 0x1_0000_0000) as u32;
    let high: u32 = (v / 0x1_0000_0000) as u32;
    extend_le32(out, low);
    extend_le32(out, high);
    assert(out@ =~= old(out)@ + le_bytes64(v));
}

/// Two values with the same little-endian bytes are equal.
pub proof fn lemma_le64_injective(a: u64, b: u64)
    requires
        le_bytes64(a) == le_bytes64(b),
    ensures
        a == b,
{
    let (p, q) = (le_bytes64(a), le_bytes64(b));
    let (al, ah) = ((a % 0x1_0000_0000) as u32, (a / 0x1_0000_0000) as u32);
    let (bl, bh) = ((b % 0x1_0000_0000) as u32, (b / 0x1_0000_0000) as u32);
    assert(p[0] == byte32(al, 0) && p[1] == byte32(al, 1) && p[2] == byte32(al, 2) && p[3]
        == byte32(al, 3));
    assert(q[0] == byte32(bl, 0) && q[1] == byte32(bl, 1) && q[2] == byte32(bl, 2) && q[3]
        == byte32(bl, 3));
    assert(p[4] == byte32(ah, 0) && p[5] == byte32(ah, 1) && p[6] == byte32(ah, 2) && p[7]
        == byte32(ah, 3));
    assert(q[4] == byte32(bh, 0) && q[5] == byte32(bh, 1) && q[6] == byte32(bh, 2) && q[7]
        == byte32(bh, 3));
    lemma_le32_inverse(al);
    lemma_le32_inverse(bl);
    lemma_le32_inverse(ah);
    lemma_le32_inverse(bh);
}

/// The nonce that a message counter gives: four zeros and the counter.
pub open spec fn nonce_of(counter: u64) -> Seq<u8> {
    seq![0u8, 0u8, 0u8, 0u8] + le_bytes64(counter)
}

/// The nonce that a message counter gives.
pub(crate) fn counter_nonce(counter: u64) -> (r: [u8; 12])
    ensures
        r@ == nonce_of(counter),
{
    let low: u32 = (counter % 0x1_0000_0000) as u32;
    let high: u32 = (counter / 0x1_0000_0000) as u32;
    let r: [u8; 12] = [
        0,
        0,
        0,
        0,
        byte_of(low, 0),
        byte_of(low, 1),
        byte_of(low, 2),
        byte_of(low, 3),
        byte_of(high, 0),
        byte_of(high, 1),
        byte_of(high, 2),
        byte_of(high, 3),
    ];
    assert(r@ =~= nonce_of(counter));
    r
}

/// Two counters never share a nonce.
pub proof fn lemma_nonces_distinct(a: u64, b: u64)
    requires
        a != b,
    ensures
        nonce_of(a) != nonce_of(b),
{
    if nonce_of(a) == nonce_of(b) {
        assert(le_bytes64(a) =~= nonce_of(a).skip(4));
        assert(le_bytes64(b) =~= nonce_of(b).skip(4));
        lemma_le64_injective(a, b);
    }
}

/// The big-endian bytes of `v`.
pub open spec fn be_bytes32(v: u32) -> Seq<u8> {
    seq![byte32(v, 3), byte32(v, 2), byte32(v, 1), byte32(v, 0)]
}

/// Reading back the big-endian bytes of a value gives the value.
pub proof fn lemma_be32_inverse(v: u32)
    ensures
        be32_at(be_bytes32(v), 0) == v,
{
    let b = be_bytes32(v);
    assert(b[3] + 0x100 * b[2] + 0x1_0000 * b[1] + 0x100_0000 * b[0] == v);
}

/// Whether two byte strings are equal.
pub fn same_bytes(a: &[u8], b: &[u8]) -> (r: bool)
    ensures
        r == (a@ == b@),
{
    if a.len() != b.len() {
        return false;
    }
    let mut i: usize = 0;
    while i < a.len()
        invariant
            i <= a@.len(),
            a@.len() == b@.len(),
            forall|k: int| 0 <= k < i ==> a@[k] == b@[k],
        decreases a.len() - i,
    {
        if a[i] != b[i] {
            return false;
        }
        i += 1;
    }
    assert(a@ =~= b@);
    true
}

/// Appends bytes to a buffer.
pub(crate) fn extend(out: &mut Vec<u8>, bytes: &[u8])
    ensures
        final(out)@ == old(out)@ + bytes@,
{
    out.extend_from_slice(bytes);
    assert(out@ =~= old(out)@ + bytes@);
}

/// Appends the big-endian bytes of a value to a buffer.
pub(crate) fn extend_be32(out: &mut Vec<u8>, v: u32)
    ensures
        final(out)@ == old(out)@ + be_bytes32(v),
{
    out.push(byte_of(v, 3));
    out.push(byte_of(v, 2));
    out.push(byte_of(v, 1));
    out.push(byte_of(v, 0));
    assert(out@ =~= old(out)@ + be_bytes32(v));
}

/// The low 32 bits of a length.
#[verifier::allow_in_spec]
pub fn low32(n: usize) -> u32
    returns
        (n as u64 % 0x1_0000_0000) as u32,
{
    (n as u64 % 0x1_0000_0000) as u32
}

/// The bytes of a slice of known length as an array.
pub(crate) fn array16(s: &[u8]) -> (r: [u8; 16])
    requires
        s@.len() == 16,
    ensures
        r@ == s@,
{
    let mut a: [u8; 16] = [0u8; 16];
    let mut i: usize = 0;
    while i < 16
        invariant
            i <= 16,
            s@.len() == 16,
            forall|k: int| 0 <= k < i ==> a@[k] == s@[k],
        decreases 16 - i,
    {
        a[i] = s[i];
        i += 1;
    }
    assert(a@ =~= s@);
    a
}

pub(crate) fn array24(s: &[u8]) -> (r: [u8; 24])
    requires
        s@.len() == 24,
    ensures
        r@ == s@,
{
    let mut a: [u8; 24] = [0u8; 24];
    let mut i: usize = 0;
    while i < 24
        invariant
            i <= 24,
            s@.len() == 24,
            forall|k: int| 0 <= k < i ==> a@[k] == s@[k],
        decreases 24 - i,
    {
        a[i] = s[i];
        i += 1;
    }
    assert(a@ =~= s@);
    a
}

pub(crate) fn array32(s: &[u8]) -> (r: [u8; 32])
    requires
        s@.len() == 32,
    ensures
        r@ == s@,
{
    let mut a: [u8; 32] = [0u8; 32];
    let mut i: usize = 0;
    while i < 32
        invariant
            i <= 32,
            s@.len() == 32,
            forall|k: int| 0 <= k < i ==> a@[k] == s@[k],
        decreases 32 - i,
    {
        a[i] = s[i];
        i += 1;
    }
    assert(a@ =~= s@);
    a
}

pub(crate) fn array64(s: &[u8]) -> (r: [u8; 64])
    requires
        s@.len() == 64,
    ensures
        r@ == s@,
{
    let mut a: [u8; 64] = [0u8; 64];
    let mut i: usize = 0;
    while i < 64
        invariant
            i <= 64,
            s@.len() == 64,
            forall|k: int| 0 <= k < i ==> a@[k] == s@[k],
        decreases 64 - i,
    {
        a[i] = s[i];
        i += 1;
    }
    assert(a@ =~= s@);
    a
}

} // verus!
