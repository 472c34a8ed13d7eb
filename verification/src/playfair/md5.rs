//! A variant of the MD5 compression function that permutes its input words half way.
use crate::bytes::{be32_at, be_u32};
use crate::playfair::tables::{block_of, block_words, words_block, words_of, PlayfairTables};
use vstd::prelude::*;

verus! {

/// The additive constants of MD5: the first 32 fraction bits of `|sin(i + 1)|`.
pub const MD5_CONSTANTS: [u32; 64] = [
    0xd76aa478, 0xe8c7b756, 0x242070db, 0xc1bdceee, 0xf57c0faf, 0x4787c62a, 0xa8304613, 0xfd469501,
    0x698098d8, 0x8b44f7af, 0xffff5bb1, 0x895cd7be, 0x6b901122, 0xfd987193, 0xa679438e, 0x49b40821,
    0xf61e2562, 0xc040b340, 0x265e5a51, 0xe9b6c7aa, 0xd62f105d, 0x02441453, 0xd8a1e681, 0xe7d3fbc8,
    0x21e1cde6, 0xc33707d6, 0xf4d50d87, 0x455a14ed, 0xa9e3e905, 0xfcefa3f8, 0x676f02d9, 0x8d2a4c8a,
    0xfffa3942, 0x8771f681, 0x6d9d6122, 0xfde5380c, 0xa4beea44, 0x4bdecfa9, 0xf6bb4b60, 0xbebfbc70,
    0x289b7ec6, 0xeaa127fa, 0xd4ef3085, 0x04881d05, 0xd9d4d039, 0xe6db99e5, 0x1fa27cf8, 0xc4ac5665,
    0xf4292244, 0x432aff97, 0xab9423a7, 0xfc93a039, 0x655b59c3, 0x8f0ccc92, 0xffeff47d, 0x85845dd1,
    0x6fa87e4f, 0xfe2ce6e0, 0xa3014314, 0x4e0811a1, 0xf7537e82, 0xbd3af235, 0x2ad7d2bb, 0xeb86d391,
];

/// `input` rotated left by `count` bits.
#[verifier::allow_in_spec]
pub fn rol32(input: u32, count: u32) -> u32
    requires
        0 < count < 32,
    returns
        (input << count) | (input >> ((32 - count) as u32)),
{
    (input << count) | (input >> (32 - count))
}

/// The four chaining words and the sixteen input words.
#[verifier::ext_equal]
pub struct Md5View {
    pub a: u32,
    pub b: u32,
    pub c: u32,
    pub d: u32,
    pub words: Seq<u32>,
}

/// The index of the input word that step `i` adds.
pub open spec fn word_index(i: int) -> int {
    if i < 16 {
        i
    } else if i < 32 {
        (5 * i + 1) % 16
    } else if i < 48 {
        (3 * i + 5) % 16
    } else {
        (7 * i) % 16
    }
}

/// The nonlinear function of step `i`.
pub open spec fn round_function(i: int, b: u32, c: u32, d: u32) -> u32 {
    if i < 16 {
        (b & c) | (!b & d)
    } else if i < 32 {
        (b & d) | (c & !d)
    } else if i < 48 {
        b ^ c ^ d
    } else {
        c ^ (b | !d)
    }
}

pub open spec fn swap_words(words: Seq<u32>, x: int, y: int) -> Seq<u32> {
    words.update(x, words[y]).update(y, words[x])
}

/// The input words after the exchanges that follow step 31, steered by the chaining words.
pub open spec fn permuted_words(s: Md5View) -> Seq<u32> {
    let w1 = swap_words(s.words, (s.a & 15) as int, (s.b & 15) as int);
    let w2 = swap_words(w1, (s.c & 15) as int, (s.d & 15) as int);
    let w3 = swap_words(w2, ((s.a >> 4) & 15) as int, ((s.b >> 4) & 15) as int);
    let w4 = swap_words(w3, ((s.a >> 8) & 15) as int, ((s.b >> 8) & 15) as int);
    swap_words(w4, ((s.a >> 12) & 15) as int, ((s.b >> 12) & 15) as int)
}

/// The state after step `i` on `s`.
pub open spec fn md5_step(t: &PlayfairTables, i: int, s: Md5View) -> Md5View {
    let z = s.a.wrapping_add(s.words[word_index(i)]).wrapping_add(MD5_CONSTANTS@[i]);
    let z = rol32(z.wrapping_add(round_function(i, s.b, s.c, s.d)), t.md5_shift@[i] as u32);
    let next = Md5View { a: s.d, b: z.wrapping_add(s.b), c: s.b, d: s.c, words: s.words };
    if i == 31 {
        Md5View { words: permuted_words(next), ..next }
    } else {
        next
    }
}

/// The state after the first `n` steps on `s`.
pub open spec fn md5_steps(t: &PlayfairTables, s: Md5View, n: nat) -> Md5View
    decreases n,
{
    if n == 0 {
        s
    } else {
        md5_step(t, n - 1, md5_steps(t, s, (n - 1) as nat))
    }
}

/// The state before the first step: the key's words and the big-endian words of the block.
pub open spec fn md5_start(block: Seq<u8>, key: Seq<u8>) -> Md5View {
    let k = block_words(key);
    Md5View {
        a: k[0],
        b: k[1],
        c: k[2],
        d: k[3],
        words: Seq::new(16, |i: int| be32_at(block, 4 * i)),
    }
}

/// The 16 bytes that a 64-byte block compresses to under a 16-byte key.
pub open spec fn md5_result(t: &PlayfairTables, block: Seq<u8>, key: Seq<u8>) -> Seq<u8> {
    let k = block_words(key);
    let s = md5_steps(t, md5_start(block, key), 64);
    words_block(
        seq![
            k[0].wrapping_add(s.a),
            k[1].wrapping_add(s.b),
            k[2].wrapping_add(s.c),
            k[3].wrapping_add(s.d),
        ],
    )
}

fn swap(words: &mut [u32; 16], x: u32, y: u32)
    requires
        x < 16,
        y < 16,
    ensures
        final(words)@ == swap_words(old(words)@, x as int, y as int),
{
    let vx: u32 = words[x as usize];
    let vy: u32 = words[y as usize];
    words[x as usize] = vy;
    words[y as usize] = vx;
}

fn input_word_index(i: usize) -> (r: usize)
    requires
        i < 64,
    ensures
        r == word_index(i as int),
        r < 16,
{
    if i < 16 {
        i
    } else if i < 32 {
        (5 * i + 1) % 16
    } else if i < 48 {
        (3 * i + 5) % 16
    } else {
        (7 * i) % 16
    }
}

/// Compresses the first 64 bytes of `block` under `key`.
pub fn modified_md5(t: &PlayfairTables, block: &[u8], key: &[u8; 16]) -> (r: [u8; 16])
    requires
        t.wf(),
        block.len() >= 64,
    ensures
        r@ == md5_result(t, block@, key@),
{
    let mut words: [u32; 16] = [0u32; 16];
    let mut w: usize = 0;
    while w < 16
        invariant
            w <= 16,
            block.len() >= 64,
            forall|k: int| 0 <= k < w ==> words@[k] == be32_at(block@, 4 * k),
        decreases 16 - w,
    {
        words[w] = be_u32(block, 4 * w);
        w += 1;
    }
    let key_words = words_of(key);
    let mut a: u32 = key_words[0];
    let mut b: u32 = key_words[1];
    let mut c: u32 = key_words[2];
    let mut d: u32 = key_words[3];
    assert(words@ =~= md5_start(block@, key@).words);

    let mut i: usize = 0;
    while i < 64
        invariant
            i <= 64,
            t.wf(),
            (Md5View { a, b, c, d, words: words@ }) == md5_steps(
                t,
                md5_start(block@, key@),
                i as nat,
            ),
        decreases 64 - i,
    {
        broadcast use crate::bits::lemma_and_le_u32;

        let input: u32 = words[input_word_index(i)];
        let f: u32 = if i < 16 {
            (b & c) | (!b & d)
        } else if i < 32 {
            (b & d) | (c & !d)
        } else if i < 48 {
            b ^ c ^ d
        } else {
            c ^ (b | !d)
        };
        let z: u32 = a.wrapping_add(input).wrapping_add(MD5_CONSTANTS[i]);
        let z: u32 = rol32(z.wrapping_add(f), t.md5_shift[i] as u32);
        let z: u32 = z.wrapping_add(b);
        a = d;
        d = c;
        c = b;
        b = z;
        if i == 31 {
            swap(&mut words, a & 15, b & 15);
            swap(&mut words, c & 15, d & 15);
            swap(&mut words, (a >> 4) & 15, (b >> 4) & 15);
            swap(&mut words, (a >> 8) & 15, (b >> 8) & 15);
            swap(&mut words, (a >> 12) & 15, (b >> 12) & 15);
        }
        i += 1;
    }
    let out = [
        key_words[0].wrapping_add(a),
        key_words[1].wrapping_add(b),
        key_words[2].wrapping_add(c),
        key_words[3].wrapping_add(d),
    ];
    proof {
        let k = block_words(key@);
        let s = md5_steps(t, md5_start(block@, key@), 64);
        assert(out@ =~= seq![
            k[0].wrapping_add(s.a),
            k[1].wrapping_add(s.b),
            k[2].wrapping_add(s.c),
            k[3].wrapping_add(s.d),
        ]);
    }
    block_of(&out)
}

} // verus!
