//! The client's side of SRP-6a, in the 3072-bit group of RFC 5054 with SHA-512.
use crate::bignum::{
    be_value, difference, less, mod_pow, product, remainder, shortest, sum, minimal,
};
use crate::bytes::extend;
use crate::crypto::{sha512, sha512_of};
use vstd::arithmetic::power::pow;
use vstd::prelude::*;
use vstd::slice::slice_to_vec;

verus! {

/// The group's prime.
pub const SRP_N: [u8; 384] = [
    0xff, 0xff, 0xff, 0xff, 0xff, 0xff, 0xff, 0xff, 0xc9, 0x0f, 0xda, 0xa2, 0x21, 0x68, 0xc2, 0x34,
    0xc4, 0xc6, 0x62, 0x8b, 0x80, 0xdc, 0x1c, 0xd1, 0x29, 0x02, 0x4e, 0x08, 0x8a, 0x67, 0xcc, 0x74,
    0x02, 0x0b, 0xbe, 0xa6, 0x3b, 0x13, 0x9b, 0x22, 0x51, 0x4a, 0x08, 0x79, 0x8e, 0x34, 0x04, 0xdd,
    0xef, 0x95, 0x19, 0xb3, 0xcd, 0x3a, 0x43, 0x1b, 0x30, 0x2b, 0x0a, 0x6d, 0xf2, 0x5f, 0x14, 0x37,
    0x4f, 0xe1, 0x35, 0x6d, 0x6d, 0x51, 0xc2, 0x45, 0xe4, 0x85, 0xb5, 0x76, 0x62, 0x5e, 0x7e, 0xc6,
    0xf4, 0x4c, 0x42, 0xe9, 0xa6, 0x37, 0xed, 0x6b, 0x0b, 0xff, 0x5c, 0xb6, 0xf4, 0x06, 0xb7, 0xed,
    0xee, 0x38, 0x6b, 0xfb, 0x5a, 0x89, 0x9f, 0xa5, 0xae, 0x9f, 0x24, 0x11, 0x7c, 0x4b, 0x1f, 0xe6,
    0x49, 0x28, 0x66, 0x51, 0xec, 0xe4, 0x5b, 0x3d, 0xc2, 0x00, 0x7c, 0xb8, 0xa1, 0x63, 0xbf, 0x05,
    0x98, 0xda, 0x48, 0x36, 0x1c, 0x55, 0xd3, 0x9a, 0x69, 0x16, 0x3f, 0xa8, 0xfd, 0x24, 0xcf, 0x5f,
    0x83, 0x65, 0x5d, 0x23, 0xdc, 0xa3, 0xad, 0x96, 0x1c, 0x62, 0xf3, 0x56, 0x20, 0x85, 0x52, 0xbb,
    0x9e, 0xd5, 0x29, 0x07, 0x70, 0x96, 0x96, 0x6d, 0x67, 0x0c, 0x35, 0x4e, 0x4a, 0xbc, 0x98, 0x04,
    0xf1, 0x74, 0x6c, 0x08, 0xca, 0x18, 0x21, 0x7c, 0x32, 0x90, 0x5e, 0x46, 0x2e, 0x36, 0xce, 0x3b,
    0xe3, 0x9e, 0x77, 0x2c, 0x18, 0x0e, 0x86, 0x03, 0x9b, 0x27, 0x83, 0xa2, 0xec, 0x07, 0xa2, 0x8f,
    0xb5, 0xc5, 0x5d, 0xf0, 0x6f, 0x4c, 0x52, 0xc9, 0xde, 0x2b, 0xcb, 0xf6, 0x95, 0x58, 0x17, 0x18,
    0x39, 0x95, 0x49, 0x7c, 0xea, 0x95, 0x6a, 0xe5, 0x15, 0xd2, 0x26, 0x18, 0x98, 0xfa, 0x05, 0x10,
    0x15, 0x72, 0x8e, 0x5a, 0x8a, 0xaa, 0xc4, 0x2d, 0xad, 0x33, 0x17, 0x0d, 0x04, 0x50, 0x7a, 0x33,
    0xa8, 0x55, 0x21, 0xab, 0xdf, 0x1c, 0xba, 0x64, 0xec, 0xfb, 0x85, 0x04, 0x58, 0xdb, 0xef, 0x0a,
    0x8a, 0xea, 0x71, 0x57, 0x5d, 0x06, 0x0c, 0x7d, 0xb3, 0x97, 0x0f, 0x85, 0xa6, 0xe1, 0xe4, 0xc7,
    0xab, 0xf5, 0xae, 0x8c, 0xdb, 0x09, 0x33, 0xd7, 0x1e, 0x8c, 0x94, 0xe0, 0x4a, 0x25, 0x61, 0x9d,
    0xce, 0xe3, 0xd2, 0x26, 0x1a, 0xd2, 0xee, 0x6b, 0xf1, 0x2f, 0xfa, 0x06, 0xd9, 0x8a, 0x08, 0x64,
    0xd8, 0x76, 0x02, 0x73, 0x3e, 0xc8, 0x6a, 0x64, 0x52, 0x1f, 0x2b, 0x18, 0x17, 0x7b, 0x20, 0x0c,
    0xbb, 0xe1, 0x17, 0x57, 0x7a, 0x61, 0x5d, 0x6c, 0x77, 0x09, 0x88, 0xc0, 0xba, 0xd9, 0x46, 0xe2,
    0x08, 0xe2, 0x4f, 0xa0, 0x74, 0xe5, 0xab, 0x31, 0x43, 0xdb, 0x5b, 0xfc, 0xe0, 0xfd, 0x10, 0x8e,
    0x4b, 0x82, 0xd1, 0x20, 0xa9, 0x3a, 0xd2, 0xca, 0xff, 0xff, 0xff, 0xff, 0xff, 0xff, 0xff, 0xff,
];

/// The group's generator.
pub const SRP_G: [u8; 1] = [5];

/// The user that pairs.
pub const SRP_USER: [u8; 10] = [0x50, 0x61, 0x69, 0x72, 0x2d, 0x53, 0x65, 0x74, 0x75, 0x70];

/// The shortest big-endian byte string of a number.
pub open spec fn natural(n: nat) -> Seq<u8>
    decreases n,
{
    if n < 256 {
        seq![n as u8]
    } else {
        natural(n / 256).push((n % 256) as u8)
    }
}

/// A byte string with zeros put before it up to a length.
pub open spec fn padded(b: Seq<u8>, size: nat) -> Seq<u8> {
    if b.len() >= size {
        b
    } else {
        Seq::new((size - b.len()) as nat, |i: int| 0u8) + b
    }
}

pub open spec fn srp_n() -> nat {
    be_value(SRP_N@)
}

/// The private value that a salt and a password give.
pub open spec fn srp_x(salt: Seq<u8>, password: Seq<u8>) -> nat {
    be_value(sha512_of(salt + sha512_of(SRP_USER@ + seq![0x3au8] + password)))
}

/// The multiplier.
pub open spec fn srp_k() -> nat {
    be_value(sha512_of(padded(natural(srp_n()), 384) + padded(natural(5), 384)))
}

/// The public value of a private exponent.
pub open spec fn srp_public(a: nat) -> nat {
    (pow(5, a) % srp_n() as int) as nat
}

/// The scrambler of two public values.
pub open spec fn srp_u(a_pub: nat, b_pub: nat) -> nat {
    be_value(sha512_of(padded(natural(a_pub), 384) + padded(natural(b_pub), 384)))
}

/// What the server's public value is without its verifier.
pub open spec fn srp_base(b_pub: nat, x: nat) -> nat {
    ((b_pub - srp_k() * pow(5, x)) % srp_n() as int) as nat
}

/// The secret as the client computes it.
pub open spec fn srp_secret(a: nat, b_pub: nat, x: nat) -> nat {
    let u = srp_u(srp_public(a), b_pub);
    (pow(srp_base(b_pub, x) as int, a + u * x) % srp_n() as int) as nat
}

/// The session key of a secret: the hash of its shortest bytes, of nothing when it is zero.
pub open spec fn srp_key(secret: nat) -> Seq<u8> {
    sha512_of(
        if secret == 0 {
            Seq::empty()
        } else {
            natural(secret)
        },
    )
}

pub open spec fn xor64(a: Seq<u8>, b: Seq<u8>) -> Seq<u8> {
    Seq::new(64, |i: int| a[i] ^ b[i])
}

/// The client's proof that it knows the session key.
pub open spec fn client_proof(salt: Seq<u8>, a_pub: nat, b_pub: nat, key: Seq<u8>) -> Seq<u8> {
    sha512_of(
        xor64(sha512_of(natural(srp_n())), sha512_of(natural(5))) + sha512_of(SRP_USER@) + salt
            + natural(a_pub) + natural(b_pub) + key,
    )
}

/// The server's proof that it knows the session key.
pub open spec fn server_proof(a_pub: nat, client_proof: Seq<u8>, key: Seq<u8>) -> Seq<u8> {
    sha512_of(natural(a_pub) + client_proof + key)
}

/// What the client knows once it has the server's public value.
pub struct SrpProof {
    /// The client's public value, in its shortest bytes.
    pub public: Vec<u8>,
    pub proof: [u8; 64],
    pub key: [u8; 64],
}

#[verifier::ext_equal]
pub struct SrpProofView {
    pub public: nat,
    pub proof: Seq<u8>,
    pub key: Seq<u8>,
}

impl View for SrpProof {
    type V = SrpProofView;

    open spec fn view(&self) -> SrpProofView {
        SrpProofView { public: be_value(self.public@), proof: self.proof@, key: self.key@ }
    }
}

impl SrpProof {
    pub open spec fn wf(&self) -> bool {
        self.public@ == natural(be_value(self.public@))
    }
}

/// The exchange as the client sees it, for a private exponent, a password, and the salt and public
/// value that the server sent.
pub open spec fn srp_exchange(
    secret: Seq<u8>,
    password: Seq<u8>,
    salt: Seq<u8>,
    server_public: Seq<u8>,
) -> SrpProofView {
    let a = be_value(secret);
    let b_pub = be_value(server_public);
    let a_pub = srp_public(a);
    let key = srp_key(srp_secret(a, b_pub, srp_x(salt, password)));
    SrpProofView { public: a_pub, proof: client_proof(salt, a_pub, b_pub, key), key }
}

pub proof fn lemma_natural(n: nat)
    ensures
        be_value(natural(n)) == n,
        minimal(natural(n)),
    decreases n,
{
    if n < 256 {
        crate::bignum::lemma_single(natural(n));
    } else {
        lemma_natural(n / 256);
        let s = natural(n);
        assert(s.drop_last() =~= natural(n / 256));
        if natural(n / 256).len() == 1 {
            crate::bignum::lemma_single(natural(n / 256));
        }
    }
}

/// The shortest byte string of a number is the one that `natural` gives.
pub proof fn lemma_natural_unique(b: Seq<u8>)
    requires
        minimal(b),
    ensures
        b == natural(be_value(b)),
{
    lemma_natural(be_value(b));
    crate::bignum::lemma_minimal_unique(b, natural(be_value(b)));
}

pub(crate) proof fn lemma_group()
    ensures
        srp_n() > 0,
        SRP_N@ == natural(srp_n()),
        SRP_G@ == natural(5),
        be_value(SRP_G@) == 5,
{
    crate::bignum::lemma_minimal_positive(SRP_N@);
    lemma_natural_unique(SRP_N@);
    crate::bignum::lemma_single(SRP_G@);
    lemma_natural_unique(SRP_G@);
}

/// Puts zeros before a byte string up to a length.
pub fn pad_to(data: &[u8], size: usize) -> (r: Vec<u8>)
    ensures
        r@ == padded(data@, size as nat),
{
    if data.len() >= size {
        return slice_to_vec(data);
    }
    let gap: usize = size - data.len();
    let mut out: Vec<u8> = vec![0u8; gap];
    extend(&mut out, data);
    assert(out@ =~= padded(data@, size as nat));
    out
}

fn hash2(a: &[u8], b: &[u8]) -> (r: [u8; 64])
    ensures
        r@ == sha512_of(a@ + b@),
{
    let mut message: Vec<u8> = slice_to_vec(a);
    extend(&mut message, b);
    sha512(message.as_slice())
}

fn private_value(salt: &[u8], password: &[u8]) -> (r: [u8; 64])
    ensures
        be_value(r@) == srp_x(salt@, password@),
{
    let mut inner: Vec<u8> = slice_to_vec(&SRP_USER);
    inner.push(0x3a);
    extend(&mut inner, password);
    assert(inner@ =~= SRP_USER@ + seq![0x3au8] + password@);
    let inner_hash: [u8; 64] = sha512(inner.as_slice());
    hash2(salt, &inner_hash)
}

fn multiplier() -> (r: [u8; 64])
    ensures
        be_value(r@) == srp_k(),
{
    proof {
        lemma_group();
    }
    let pad_n: Vec<u8> = pad_to(&SRP_N, 384);
    let pad_g: Vec<u8> = pad_to(&SRP_G, 384);
    hash2(pad_n.as_slice(), pad_g.as_slice())
}

fn scrambler(a_pub: &[u8], b_pub: &[u8]) -> (r: [u8; 64])
    requires
        a_pub@ == natural(be_value(a_pub@)),
        b_pub@ == natural(be_value(b_pub@)),
    ensures
        be_value(r@) == srp_u(be_value(a_pub@), be_value(b_pub@)),
{
    let pad_a: Vec<u8> = pad_to(a_pub, 384);
    let pad_b: Vec<u8> = pad_to(b_pub, 384);
    hash2(pad_a.as_slice(), pad_b.as_slice())
}

/// The two ways to take a difference modulo a number agree with the mathematical remainder.
proof fn lemma_wrapped_difference(b: int, t: int, n: int)
    requires
        n > 0,
    ensures
        b >= t % n ==> (b - t % n) % n == (b - t) % n,
        b < t % n ==> (n - (t % n - b) % n) % n == (b - t) % n,
{
    vstd::arithmetic::div_mod::lemma_sub_mod_noop_right(b, t, n);
    vstd::arithmetic::div_mod::lemma_sub_mod_noop_right(n, t % n - b, n);
    vstd::arithmetic::div_mod::lemma_mod_add_multiples_vanish(b - t % n, n);
}

fn stripped(b_pub: &[u8], x: &[u8]) -> (r: Vec<u8>)
    ensures
        be_value(r@) == srp_base(be_value(b_pub@), be_value(x@)),
{
    proof {
        lemma_group();
        vstd::arithmetic::power::lemma_pow_positive(5, be_value(x@));
    }
    let k: [u8; 64] = multiplier();
    let gx: Vec<u8> = mod_pow(&SRP_G, x, &SRP_N);
    let kgx: Vec<u8> = remainder(product(&k, gx.as_slice()).as_slice(), &SRP_N);
    let ghost n = srp_n() as int;
    let ghost whole = srp_k() * pow(5, be_value(x@));
    proof {
        vstd::arithmetic::div_mod::lemma_mul_mod_noop_right(
            srp_k() as int,
            pow(5, be_value(x@)),
            n,
        );
        assert(be_value(kgx@) == whole % n);
        lemma_wrapped_difference(be_value(b_pub@) as int, whole, n);
    }
    if less(b_pub, kgx.as_slice()) {
        let under: Vec<u8> = remainder(difference(kgx.as_slice(), b_pub).as_slice(), &SRP_N);
        remainder(difference(&SRP_N, under.as_slice()).as_slice(), &SRP_N)
    } else {
        remainder(difference(b_pub, kgx.as_slice()).as_slice(), &SRP_N)
    }
}

fn session_key(base: &[u8], exponent: &[u8]) -> (r: [u8; 64])
    ensures
        r@ == srp_key(
            (pow(be_value(base@) as int, be_value(exponent@)) % srp_n() as int) as nat,
        ),
{
    proof {
        lemma_group();
    }
    let s: Vec<u8> = mod_pow(base, exponent, &SRP_N);
    proof {
        lemma_natural_unique(s@);
        if s@.len() == 1 {
            crate::bignum::lemma_single(s@);
        } else {
            crate::bignum::lemma_minimal_positive(s@);
        }
    }
    if s.len() == 1 && s[0] == 0 {
        let none: Vec<u8> = Vec::new();
        assert(none@ =~= Seq::<u8>::empty());
        sha512(none.as_slice())
    } else {
        sha512(s.as_slice())
    }
}

fn group_hash() -> (r: [u8; 64])
    ensures
        r@ == xor64(sha512_of(natural(srp_n())), sha512_of(natural(5))),
{
    proof {
        lemma_group();
    }
    let hn: [u8; 64] = sha512(&SRP_N);
    let hg: [u8; 64] = sha512(&SRP_G);
    let mut out: [u8; 64] = [0u8; 64];
    let mut i: usize = 0;
    while i < 64
        invariant
            i <= 64,
            forall|k: int| 0 <= k < i ==> out@[k] == hn@[k] ^ hg@[k],
        decreases 64 - i,
    {
        out[i] = hn[i] ^ hg[i];
        i += 1;
    }
    assert(out@ =~= xor64(hn@, hg@));
    out
}

fn prove(salt: &[u8], a_pub: &[u8], b_pub: &[u8], key: &[u8; 64]) -> (r: [u8; 64])
    requires
        a_pub@ == natural(be_value(a_pub@)),
        b_pub@ == natural(be_value(b_pub@)),
    ensures
        r@ == client_proof(salt@, be_value(a_pub@), be_value(b_pub@), key@),
{
    let mut message: Vec<u8> = slice_to_vec(&group_hash());
    extend(&mut message, &sha512(&SRP_USER));
    extend(&mut message, salt);
    extend(&mut message, a_pub);
    extend(&mut message, b_pub);
    extend(&mut message, key);
    sha512(message.as_slice())
}

/// The client's side of the exchange, for a private exponent.
pub fn srp_proof(secret: &[u8; 32], password: &[u8], salt: &[u8], server_public: &[u8]) -> (r:
    SrpProof)
    ensures
        r.wf(),
        r@ == srp_exchange(secret@, password@, salt@, server_public@),
{
    proof {
        lemma_group();
    }
    let x: [u8; 64] = private_value(salt, password);
    let a_pub: Vec<u8> = mod_pow(&SRP_G, secret, &SRP_N);
    let b_pub: Vec<u8> = shortest(server_public);
    proof {
        lemma_natural_unique(a_pub@);
        lemma_natural_unique(b_pub@);
    }
    let u: [u8; 64] = scrambler(a_pub.as_slice(), b_pub.as_slice());
    let base: Vec<u8> = stripped(b_pub.as_slice(), &x);
    let exponent: Vec<u8> = sum(secret, product(&u, &x).as_slice());
    let key: [u8; 64] = session_key(base.as_slice(), exponent.as_slice());
    let proof_bytes: [u8; 64] = prove(salt, a_pub.as_slice(), b_pub.as_slice(), &key);
    SrpProof { public: a_pub, proof: proof_bytes, key }
}

/// The proof that the server owes.
pub fn expected_server_proof(srp: &SrpProof) -> (r: [u8; 64])
    requires
        srp.wf(),
    ensures
        r@ == server_proof(srp@.public, srp@.proof, srp@.key),
{
    let mut message: Vec<u8> = slice_to_vec(srp.public.as_slice());
    extend(&mut message, &srp.proof);
    extend(&mut message, &srp.key);
    sha512(message.as_slice())
}

proof fn lemma_client_power(a: nat, b: nat, x: nat, u: nat, n: int)
    requires
        n > 0,
    ensures
        pow(pow(5, b) % n, a + u * x) % n == pow(5, b * (a + u * x)) % n,
{
    vstd::arithmetic::power::lemma_pow_mod_noop(pow(5, b), a + u * x, n);
    vstd::arithmetic::power::lemma_pow_multiplies(5, b, a + u * x);
}

proof fn lemma_server_power(a: nat, b: nat, x: nat, u: nat, n: int)
    requires
        n > 0,
    ensures
        pow((pow(5, a) % n) * pow(pow(5, x) % n, u), b) % n == pow(5, b * (a + u * x)) % n,
{
    let p = pow(5, a);
    let q = pow(pow(5, x) % n, u);
    let w = pow(pow(5, x), u);
    vstd::arithmetic::power::lemma_pow_mod_noop(pow(5, x), u, n);
    vstd::arithmetic::power::lemma_pow_multiplies(5, x, u);
    vstd::arithmetic::power::lemma_pow_adds(5, a, x * u);
    assert(p * w == pow(5, a + x * u));
    vstd::arithmetic::div_mod::lemma_mul_mod_noop_general(p % n, q, n);
    vstd::arithmetic::div_mod::lemma_mul_mod_noop_general(p, w, n);
    vstd::arithmetic::div_mod::lemma_mod_twice(p, n);
    assert(((p % n) * q) % n == (p * w) % n);
    vstd::arithmetic::power::lemma_pow_mod_noop((p % n) * q, b, n);
    vstd::arithmetic::power::lemma_pow_mod_noop(p * w, b, n);
    vstd::arithmetic::power::lemma_pow_multiplies(5, a + x * u, b);
    assert((a + x * u) * b == b * (a + u * x)) by (nonlinear_arith);
}

proof fn lemma_stripped_power(b: nat, x: nat, k: int, n: int)
    requires
        n > 0,
    ensures
        ((k * (pow(5, x) % n) + pow(5, b)) % n - k * pow(5, x)) % n == pow(5, b) % n,
{
    let g = pow(5, x);
    let t = pow(5, b);
    vstd::arithmetic::div_mod::lemma_mul_mod_noop_right(k, g, n);
    vstd::arithmetic::div_mod::lemma_add_mod_noop(k * (g % n), t, n);
    vstd::arithmetic::div_mod::lemma_add_mod_noop(k * g, t, n);
    assert((k * (g % n) + t) % n == (k * g + t) % n);
    vstd::arithmetic::div_mod::lemma_sub_mod_noop((k * g + t) % n, k * g, n);
    vstd::arithmetic::div_mod::lemma_sub_mod_noop(k * g + t, k * g, n);
    vstd::arithmetic::div_mod::lemma_mod_twice(k * g + t, n);
}

/// Both sides reach the same secret: for a server that holds the verifier of the password and
/// answers with the public value of an exponent `b`, the client's secret is the one the server
/// computes.
pub proof fn lemma_srp_agreement(a: nat, b: nat, x: nat)
    ensures
        ({
            let n = srp_n() as int;
            let verifier = pow(5, x) % n;
            let b_pub = ((srp_k() * verifier + pow(5, b)) % n) as nat;
            let u = srp_u(srp_public(a), b_pub);
            srp_secret(a, b_pub, x) == pow(srp_public(a) * pow(verifier, u), b) % n
        }),
{
    lemma_group();
    let n = srp_n() as int;
    let verifier = pow(5, x) % n;
    let b_pub = ((srp_k() * verifier + pow(5, b)) % n) as nat;
    let u = srp_u(srp_public(a), b_pub);
    lemma_stripped_power(b, x, srp_k() as int, n);
    lemma_client_power(a, b, x, u, n);
    lemma_server_power(a, b, x, u, n);
}

} // verus!
