//! What is read in a receiver's announcement.
use crate::discovery::{
    announced, features_of, hex_u64_of, shown_name, unescaped_from, unprefixed, Announcement,
    FEATURE_AUDIO, FEATURE_FPSAP25, FEATURE_HOMEKIT_PAIRING, FEATURE_SCREEN,
    FEATURE_TRANSIENT_PAIRING, FEATURE_UDP_MIRRORING,
};
use crate::rtsp::laws::lemma_first_place;
use crate::text::read_lossy;
use vstd::prelude::*;
use vstd::utf8::encode_utf8;

verus! {

proof fn lemma_halves(low: u64, high: u64)
    by (bit_vector)
    requires
        low < 0x1_0000_0000,
        high < 0x1_0000_0000,
    ensures
        (high << 32) | low == high * 0x1_0000_0000 + low,
{
}

/// Features in two halves are the first half, and the second above it.
pub proof fn law_features_in_halves(low: Seq<char>, high: Seq<char>)
    requires
        forall|i: int| 0 <= i < low.len() ==> #[trigger] low[i] != ',',
        forall|i: int| 0 <= i < high.len() ==> #[trigger] high[i] != ',',
        hex_u64_of(low) < 0x1_0000_0000,
        hex_u64_of(high) < 0x1_0000_0000,
    ensures
        features_of(low + seq![','] + high) == hex_u64_of(low) + 0x1_0000_0000 * hex_u64_of(high),
        features_of(low) == hex_u64_of(low),
{
    let s = low + seq![','] + high;
    let n = low.len() as int;
    assert forall|j: int| 0 <= j < n implies s[j] != ',' by {
        assert(s[j] == low[j]);
    }
    lemma_first_place(s, ',', 0, n);
    assert forall|j: int| n + 1 <= j < s.len() implies s[j] != ',' by {
        assert(s[j] == high[j - n - 1]);
    }
    lemma_first_place(s, ',', n + 1, s.len() as int);
    assert(s.skip(n + 1) =~= high);
    assert(s.take(n) =~= low);
    lemma_halves(hex_u64_of(low), hex_u64_of(high));
    lemma_first_place(low, ',', 0, n);
}

/// A prefix of hexadecimal numbers is passed over, in either case.
pub proof fn law_prefix(digits: Seq<char>)
    ensures
        unprefixed(seq!['0', 'x'] + digits) == digits,
        unprefixed(seq!['0', 'X'] + digits) == digits,
        digits.len() > 0 && digits[0] != '0' ==> unprefixed(digits) == digits,
{
    assert((seq!['0', 'x'] + digits).skip(2) =~= digits);
    assert((seq!['0', 'X'] + digits).skip(2) =~= digits);
}

/// Which bit stands for which feature.
pub proof fn law_feature_bits()
    ensures
        FEATURE_SCREEN == 0x80 + 0x80,
        FEATURE_AUDIO == 4 * FEATURE_SCREEN,
        FEATURE_FPSAP25 == 0x10 * FEATURE_AUDIO,
        FEATURE_HOMEKIT_PAIRING == 0x2_0000,
        FEATURE_TRANSIENT_PAIRING == 4 * FEATURE_HOMEKIT_PAIRING,
        FEATURE_UDP_MIRRORING == 0x4000_0000 * FEATURE_TRANSIENT_PAIRING,
{
}

/// A name without a backslash is shown as it is; a backslash and three digits are a byte, a backslash
/// and another character that character.
pub proof fn law_escapes(b: Seq<u8>, i: int)
    requires
        0 <= i < b.len(),
    ensures
        b[i] != 0x5c ==> unescaped_from(b, i) == seq![b[i]] + unescaped_from(b, i + 1),
        b[i] == 0x5c && i + 3 < b.len() && 0x30 <= b[i + 1] <= 0x32 && 0x30 <= b[i + 2] <= 0x34 && 0x30
            <= b[i + 3] <= 0x39 ==> unescaped_from(b, i) == seq![
            (100 * (b[i + 1] - 0x30) + 10 * (b[i + 2] - 0x30) + (b[i + 3] - 0x30)) as u8,
        ] + unescaped_from(b, i + 4),
        b[i] == 0x5c && i + 1 < b.len() && !(0x30 <= b[i + 1] <= 0x39) ==> unescaped_from(b, i) == seq![
            b[i + 1],
        ] + unescaped_from(b, i + 2),
        b[i] == 0x5c && i + 1 == b.len() ==> unescaped_from(b, i) == seq![0x5cu8],
{
    if b[i] == 0x5c && i + 1 == b.len() {
        assert(unescaped_from(b, i) =~= seq![0x5cu8]);
    }
}

/// A receiver is what it announces, at the address that it was found at; its name is what stands
/// before the first dot.
pub proof fn law_announced(a: Announcement, ip: Seq<char>, port: u16, dot: int)
    requires
        0 <= dot < a.fullname@.len(),
        a.fullname@[dot] == '.',
        forall|i: int| 0 <= i < dot ==> a.fullname@[i] != '.',
    ensures
        ({
            let d = announced(a, ip, port);
            &&& d.ip == ip && d.port == port
            &&& d.name == read_lossy(unescaped_from(encode_utf8(a.fullname@.take(dot)), 0))
            &&& a.model matches Some(m) ==> d.model == m@
            &&& a.model is None ==> d.model.len() == 0
            &&& a.device_id matches Some(i) ==> d.device_id == i@
            &&& a.device_id is None ==> d.device_id.len() == 0
            &&& a.features matches Some(f) ==> d.features == features_of(f@)
            &&& a.features is None ==> d.features == 0
            &&& a.pk matches Some(k) ==> d.pk == k@
            &&& a.pk is None ==> d.pk.len() == 0
            &&& a.flags matches Some(f) ==> d.flags == hex_u64_of(f@)
            &&& a.flags is None ==> d.flags == 0
        }),
{
    lemma_first_place(a.fullname@, '.', 0, dot);
    assert(shown_name(a.fullname@.take(dot)) == read_lossy(
        unescaped_from(encode_utf8(a.fullname@.take(dot)), 0),
    ));
}

} // verus!
