//! Big natural numbers, held as big-endian bytes.
use num_bigint::BigUint;
use vstd::arithmetic::power::pow;
use vstd::prelude::*;

verus! {

/// The number that a big-endian byte string stands for.
pub open spec fn be_value(b: Seq<u8>) -> nat
    decreases b.len(),
{
    if b.len() == 0 {
        0
    } else {
        be_value(b.drop_last()) * 256 + b.last() as nat
    }
}

/// Whether a byte string is the shortest for its number; zero takes one byte.
pub open spec fn minimal(b: Seq<u8>) -> bool {
    b.len() >= 1 && (b.len() > 1 ==> b[0] != 0)
}

/// Calls `num_bigint::BigUint::modpow`: the power of two numbers modulo a third, which is not
/// zero, as the shortest byte string.
#[verifier::external_body]
pub(crate) fn mod_pow(base: &[u8], exponent: &[u8], modulus: &[u8]) -> (r: Vec<u8>)
    requires
        be_value(modulus@) > 0,
    ensures
        be_value(r@) == pow(be_value(base@) as int, be_value(exponent@)) % (be_value(
            modulus@,
        ) as int),
        minimal(r@),
{
    let base = BigUint::from_bytes_be(base);
    let exponent = BigUint::from_bytes_be(exponent);
    base.modpow(&exponent, &BigUint::from_bytes_be(modulus)).to_bytes_be()
}

/// Calls `num_bigint`'s `*`: the product of two numbers, as the shortest byte string.
#[verifier::external_body]
pub(crate) fn product(a: &[u8], b: &[u8]) -> (r: Vec<u8>)
    ensures
        be_value(r@) == be_value(a@) * be_value(b@),
        minimal(r@),
{
    (BigUint::from_bytes_be(a) * BigUint::from_bytes_be(b)).to_bytes_be()
}

/// Calls `num_bigint`'s `+`: the sum of two numbers, as the shortest byte string.
#[verifier::external_body]
pub(crate) fn sum(a: &[u8], b: &[u8]) -> (r: Vec<u8>)
    ensures
        be_value(r@) == be_value(a@) + be_value(b@),
        minimal(r@),
{
    (BigUint::from_bytes_be(a) + BigUint::from_bytes_be(b)).to_bytes_be()
}

/// Calls `num_bigint`'s `-`: the difference of two numbers, the second not the greater, as the
/// shortest byte string.
#[verifier::external_body]
pub(crate) fn difference(a: &[u8], b: &[u8]) -> (r: Vec<u8>)
    requires
        be_value(a@) >= be_value(b@),
    ensures
        be_value(r@) == be_value(a@) - be_value(b@),
        minimal(r@),
{
    (BigUint::from_bytes_be(a) - BigUint::from_bytes_be(b)).to_bytes_be()
}

/// Calls `num_bigint`'s `%`: the remainder of a number by another, which is not zero, as the
/// shortest byte string.
#[verifier::external_body]
pub(crate) fn remainder(a: &[u8], modulus: &[u8]) -> (r: Vec<u8>)
    requires
        be_value(modulus@) > 0,
    ensures
        be_value(r@) == be_value(a@) % be_value(modulus@),
        minimal(r@),
{
    (BigUint::from_bytes_be(a) % BigUint::from_bytes_be(modulus)).to_bytes_be()
}

/// Calls `num_bigint`'s `<` on two numbers.
#[verifier::external_body]
pub(crate) fn less(a: &[u8], b: &[u8]) -> (r: bool)
    ensures
        r == (be_value(a@) < be_value(b@)),
{
    BigUint::from_bytes_be(a) < BigUint::from_bytes_be(b)
}

/// Calls `BigUint::from_bytes_be` and `to_bytes_be`: a number's shortest byte string.
#[verifier::external_body]
pub(crate) fn shortest(a: &[u8]) -> (r: Vec<u8>)
    ensures
        be_value(r@) == be_value(a@),
        minimal(r@),
{
    BigUint::from_bytes_be(a).to_bytes_be()
}

/// A number has one shortest byte string.
pub proof fn lemma_minimal_unique(a: Seq<u8>, b: Seq<u8>)
    requires
        minimal(a),
        minimal(b),
        be_value(a) == be_value(b),
    ensures
        a == b,
    decreases a.len() + b.len(),
{
    if a.len() > 1 && b.len() > 1 {
        let x = a.drop_last();
        let y = b.drop_last();
        assert(be_value(x) == be_value(y) && a.last() == b.last()) by {
            assert(be_value(a) / 256 == be_value(x));
            assert(be_value(b) / 256 == be_value(y));
        }
        lemma_minimal_unique(x, y);
        assert(a =~= x.push(a.last()));
        assert(b =~= y.push(b.last()));
    } else {
        if a.len() > 1 {
            lemma_minimal_positive(a);
        } else {
            lemma_single(a);
        }
        if b.len() > 1 {
            lemma_minimal_positive(b);
        } else {
            lemma_single(b);
        }
        assert(a =~= b);
    }
}

pub proof fn lemma_single(a: Seq<u8>)
    requires
        a.len() == 1,
    ensures
        be_value(a) == a[0],
{
    assert(a.drop_last() =~= Seq::empty());
    assert(be_value(a.drop_last()) == 0);
}

pub proof fn lemma_minimal_positive(a: Seq<u8>)
    requires
        minimal(a),
        a.len() > 1,
    ensures
        be_value(a) >= 256,
    decreases a.len(),
{
    let x = a.drop_last();
    if x.len() > 1 {
        lemma_minimal_positive(x);
    } else {
        lemma_single(x);
    }
}

proof fn lemma_leading_zero(b: Seq<u8>)
    ensures
        be_value(seq![0u8] + b) == be_value(b),
    decreases b.len(),
{
    let z = seq![0u8] + b;
    if b.len() == 0 {
        lemma_single(z);
    } else {
        assert(z.drop_last() =~= seq![0u8] + b.drop_last());
        lemma_leading_zero(b.drop_last());
    }
}

/// Padding on the left with zeros does not change the number.
pub proof fn lemma_padding_keeps_value(n: nat, b: Seq<u8>)
    ensures
        be_value(Seq::new(n, |i: int| 0u8) + b) == be_value(b),
    decreases n,
{
    let zeros = Seq::new(n, |i: int| 0u8);
    if n == 0 {
        assert(zeros + b =~= b);
    } else {
        let fewer = Seq::new((n - 1) as nat, |i: int| 0u8);
        assert(zeros + b =~= seq![0u8] + (fewer + b));
        lemma_leading_zero(fewer + b);
        lemma_padding_keeps_value((n - 1) as nat, b);
    }
}

} // verus!
