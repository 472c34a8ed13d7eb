use airfry::playfair::garble::{rol8, weird_rol32, weird_rol8, weird_ror8};
use airfry::playfair::md5::{modified_md5, rol32, MD5_CONSTANTS};
use airfry::playfair::message::decrypt_message;
use airfry::playfair::sap::sap_hash;
use airfry::playfair::tables::{
    block_of, load_u32_table, words_of, xor_blocks, PlayfairTables,
};
use airfry::playfair::{playfair_decrypt, playfair_decrypt_with_sap};

/// Tables of the right sizes, filled by a simple rule.
fn made_up_tables() -> PlayfairTables {
    let bytes = |n: usize, k: usize| (0..n).map(|i| (i * k + 1) as u8).collect::<Vec<u8>>();
    let words = |n: usize, k: u32| (0..n as u32).map(|i| i.wrapping_mul(k)).collect::<Vec<u32>>();
    let mut md5_shift = Vec::new();
    for row in [[7u8, 12, 17, 22], [5, 9, 14, 20], [4, 11, 16, 23], [6, 10, 15, 21]] {
        for i in 0..16 {
            md5_shift.push(row[i % 4]);
        }
    }
    PlayfairTables {
        s1: bytes(40 * 256, 7),
        s2: bytes(144 * 256, 11),
        s3: bytes(16 * 256, 13),
        s4: bytes(144 * 256, 17),
        s5: words(256, 0x01010101),
        s6: words(256, 0x02030405),
        s7: words(256, 0x11111111),
        s8: words(256, 0x0f0f0f0f),
        s9: words(4 * 256, 0x01020408),
        s10: bytes(16 * 256, 19),
        message_key: bytes(4 * 144, 23),
        message_iv: bytes(4 * 16, 29),
        z_key: bytes(16, 3),
        x_key: bytes(16, 5),
        t_key: bytes(16, 9),
        default_sap: bytes(280, 31),
        static_source1: bytes(17, 37),
        static_source2: bytes(47, 41),
        index_mangle: (0..11).collect(),
        initial_session_key: bytes(16, 43),
        md5_shift,
    }
}

#[test]
fn tables_are_checked() {
    let mut t = made_up_tables();
    assert!(t.check());
    t.md5_shift[9] = 32;
    assert!(!t.check());
    let mut t = made_up_tables();
    t.s9.pop();
    assert!(!t.check());
}

#[test]
fn words_are_little_endian() {
    assert_eq!(load_u32_table(&[1, 0, 0, 0, 0, 0, 0, 0x80]), vec![1, 0x8000_0000]);
    let block = [1, 2, 3, 4, 5, 6, 7, 8, 9, 10, 11, 12, 13, 14, 15, 16];
    assert_eq!(words_of(&block)[0], 0x04030201);
    assert_eq!(block_of(&words_of(&block)), block);
    assert_eq!(xor_blocks(&block, &block), [0; 16]);
}

#[test]
fn rotations() {
    assert_eq!(rol8(0x81, 1), 0x03);
    assert_eq!(rol32(0x8000_0001, 4), 0x18);
    assert_eq!(weird_ror8(0xff, 0), 0);
    assert_eq!(weird_ror8(0x01, 1), 0x80);
    assert_eq!(weird_rol8(0x81, 1), 0x03);
    assert_eq!(weird_rol32(0x81, 1), 0x103);
}

#[test]
fn the_constants_are_those_of_the_sine() {
    for (i, c) in MD5_CONSTANTS.iter().enumerate() {
        let sine = ((i as f64) + 1.0).sin().abs();
        assert_eq!(*c, (sine * (1u64 << 32) as f64) as u32);
    }
}

#[test]
fn the_digest_swaps_words_half_way() {
    let block: Vec<u8> = (0..64u8).collect();
    let key = [0x10, 0x32, 0x54, 0x76, 0x98, 0xba, 0xdc, 0xfe, 0xef, 0xcd, 0xab, 0x89, 0x67, 0x45, 0x23, 0x01];
    assert_eq!(
        modified_md5(&made_up_tables(), &block, &key),
        [0xff, 0xcc, 0x6d, 0xe0, 0x64, 0x61, 0xc5, 0x8b, 0x0b, 0x35, 0x89, 0x28, 0x41, 0x04, 0x3b, 0xe1]
    );
}

#[test]
fn the_hash_depends_on_every_byte() {
    let block: Vec<u8> = (0..64u8).collect();
    let base = sap_hash(&block);
    assert_eq!(
        base,
        [
            0x6c, 0xc8, 0xd8, 0x07, 0x34, 0xa0, 0x1e, 0xa9, 0x71, 0xd1, 0x93, 0x90, 0x37, 0xf6,
            0x1c, 0x5b
        ]
    );
    for i in 0..64 {
        let mut other = block.clone();
        other[i] ^= 1;
        assert_ne!(sap_hash(&other), base);
    }
}

fn message(mode: u8) -> Vec<u8> {
    let mut m3: Vec<u8> = (0..164u8).collect();
    m3[12] = mode;
    m3
}

#[test]
fn a_message_is_decrypted_block_by_block() {
    let plain = decrypt_message(&made_up_tables(), &message(1));
    assert_eq!(plain.len(), 128);
    assert_eq!(
        &plain[..16],
        &[
            0x10, 0x5e, 0x93, 0x49, 0x04, 0x6e, 0x30, 0xdf, 0xc0, 0x42, 0xc5, 0x38, 0xb4, 0x08,
            0xa6, 0x96
        ]
    );
}

#[test]
fn the_key_depends_on_message_and_envelope() {
    let t = made_up_tables();
    let ekey = vec![0x33u8; 72];
    let key = playfair_decrypt(&t, &message(1), &ekey);
    assert_eq!(
        key,
        [
            0xa5, 0x2b, 0x69, 0xe4, 0x2e, 0x4f, 0x92, 0xe6, 0x71, 0x60, 0x00, 0x6f, 0x1f, 0x27,
            0x67, 0x01
        ]
    );
    assert_eq!(key, playfair_decrypt_with_sap(&t, &message(1), &ekey, &t.default_sap));
    // In the last mode the blocks are chained the other way round.
    assert_eq!(
        playfair_decrypt(&t, &message(3), &ekey),
        [
            0x54, 0x85, 0x12, 0x5b, 0x4c, 0xf7, 0xca, 0xe2, 0xf3, 0xf5, 0x6e, 0x00, 0x60, 0x12,
            0xa5, 0x64
        ]
    );
}
