use airfry::fpemu::contexts::{AesCtrCtx, ShaCtx};
use airfry::fpemu::fault::Fault;
use airfry::fpemu::helpers::{
    rbit32, rbit64, rev16_32, rev16_64, rev32, rev64, sign_extend, smulhi64, vfp_expand_imm32,
    vfp_expand_imm64,
};
use airfry::fpemu::loader::{fp_sap_exchange_m3, fp_sap_exchange_standalone, load_snapshot, ExchangeError};
use airfry::fpemu::machine::{run, step, RunError};
use airfry::fpemu::state::{State, FP_HEAP_BASE};
use airfry::fpemu::stubs::{find_stub, Stub};

fn after(insts: &[u32], prepare: fn(&mut State)) -> State {
    let mut s = State::new();
    prepare(&mut s);
    for inst in insts {
        step(&mut s, *inst).unwrap();
    }
    s
}

#[test]
fn moves_and_sums() {
    // movz x0, #5 ; add x1, x0, #7 ; sub x2, x1, x0 ; movk x0, #1, lsl #16
    let s = after(&[0xD28000A0, 0x91001C01, 0xCB000022, 0xF2A00020], |_| {});
    assert_eq!(s.cpu.reg(0), 0x10005);
    assert_eq!(s.cpu.reg(1), 12);
    assert_eq!(s.cpu.reg(2), 7);
    assert_eq!(s.cpu.reg(31), 0);
}

#[test]
fn comparisons_set_the_flags() {
    // cmp x0, x1 (subs xzr, x0, x1) with 3 and 3, then 3 and 4.
    let s = after(&[0xEB01001F], |s| {
        s.cpu.set_reg(0, 3);
        s.cpu.set_reg(1, 3);
    });
    assert!(s.cpu.z && s.cpu.c && !s.cpu.n && !s.cpu.v);
    assert!(s.cpu.cond_holds(0));
    assert!(!s.cpu.cond_holds(1));
    let s = after(&[0xEB01001F], |s| {
        s.cpu.set_reg(0, 3);
        s.cpu.set_reg(1, 4);
    });
    assert!(!s.cpu.z && !s.cpu.c && s.cpu.n);
}

#[test]
fn loads_give_what_stores_wrote() {
    // str x0, [x1] ; ldr x2, [x1] ; ldrb w3, [x1, #1]
    let s = after(&[0xF9000020, 0xF9400022, 0x39400423], |s| {
        s.mem.map_range(0x5000, 0x1000);
        s.cpu.set_reg(0, 0x1122334455667788);
        s.cpu.set_reg(1, 0x5010);
    });
    assert_eq!(s.cpu.reg(2), 0x1122334455667788);
    assert_eq!(s.cpu.reg(3), 0x77);
    assert_eq!(s.mem.read64(0x5010), 0x1122334455667788);
    assert_eq!(s.mem.read16(0x5010), 0x7788);
    assert_eq!(s.mem.read8(0x6000), 0);
}

#[test]
fn memory_spans_pages() {
    let mut s = State::new();
    s.mem.map_range(0x1000, 0x2000);
    s.mem.write_n(0x1ffe, &[1, 2, 3, 4]);
    assert_eq!(s.mem.read32(0x1ffe), 0x04030201);
    assert_eq!(s.mem.read_n(0x1ffd, 6), vec![0, 1, 2, 3, 4, 0]);
}

#[test]
fn bits_are_moved() {
    // lsr x0, x1, #8 (ubfm) ; rev w2, w1 ; eor x3, x1, x1 ; ror via extr x4, x1, x1, #8
    let s = after(&[0xD348FC20, 0x5AC00822, 0xCA010023, 0x93C12024], |s| {
        s.cpu.set_reg(1, 0x0102030405060708);
    });
    assert_eq!(s.cpu.reg(0), 0x01020304050607);
    assert_eq!(s.cpu.reg(2), 0x08070605);
    assert_eq!(s.cpu.reg(3), 0);
    assert_eq!(s.cpu.reg(4), 0x0801020304050607);
}

#[test]
fn products_and_quotients() {
    // mul x2, x0, x1 ; udiv x3, x2, x1 ; umulh x4, x5, x5
    let s = after(&[0x9B017C02, 0x9AC10843, 0x9BC57CA4], |s| {
        s.cpu.set_reg(0, 1000);
        s.cpu.set_reg(1, 7);
        s.cpu.set_reg(5, u64::MAX);
    });
    assert_eq!(s.cpu.reg(2), 7000);
    assert_eq!(s.cpu.reg(3), 1000);
    assert_eq!(s.cpu.reg(4), u64::MAX - 1);
}

#[test]
fn an_unknown_instruction_is_a_fault() {
    let mut s = State::new();
    assert!(matches!(step(&mut s, 0x0000_0000), Err(Fault::UnhandledOp0 { op0: 0, inst: 0 })));
}

#[test]
fn a_program_runs_to_its_end() {
    let mut s = State::new();
    s.mem.map_range(0x4000, 0x1000);
    // loop: subs x0, x0, #1 ; add x1, x1, #2 ; b.ne loop ; b end
    let program = [0xF1000400u32, 0x91000821, 0x54FFFFC1, 0x14000001];
    for (i, inst) in program.iter().enumerate() {
        s.mem.write32(0x4000 + 4 * i as u64, *inst);
    }
    s.mem.set_code_region(0x4000, 0x4010);
    s.cpu.set_reg(0, 10);
    s.cpu.set_pc(0x4000);
    run(&mut s, 0x4010).unwrap();
    assert_eq!(s.cpu.reg(0), 0);
    assert_eq!(s.cpu.reg(1), 20);
}

#[test]
fn a_program_that_leaves_its_code_fails() {
    let mut s = State::new();
    s.cpu.set_pc(0x9999_0000);
    assert!(matches!(run(&mut s, 0x10), Err(RunError::TooLong { pc: 0 })));
}

#[test]
fn an_instruction_lies_on_one_page() {
    // On a page that was never written there is nothing: the function there is an unlisted one.
    let mut s = State::new();
    s.cpu.set_pc(0xFFD);
    s.cpu.set_reg(30, 0x10);
    assert!(run(&mut s, 0x10).is_ok());
    // The next page does not matter.
    let mut s = State::new();
    s.mem.write8(0x1000, 0x11);
    assert_eq!(s.mem.fetch_inst(0xFFD), 0);
    s.cpu.set_pc(0xFFD);
    s.cpu.set_reg(30, 0x10);
    assert!(run(&mut s, 0x10).is_ok());
    // On a page in use it would be cut.
    let mut s = State::new();
    s.mem.map_range(0, 1);
    s.cpu.set_pc(0xFFD);
    assert!(!s.mem.can_fetch(0xFFD));
    assert!(s.mem.can_fetch(0xFFC));
    assert!(matches!(
        run(&mut s, 0x10),
        Err(RunError::Step { pc: 0xFFD, count: 0, fault: Fault::Unfetchable { pc: 0xFFD } })
    ));
}

#[test]
fn a_code_region_starts_anywhere() {
    let mut s = State::new();
    s.mem.write32(0x4002, 0x9100_0821);
    s.mem.set_code_region(0x4002, 0x4009);
    s.mem.write32(0x4002, 0);
    assert_eq!(s.mem.fetch_inst(0x4002), 0x9100_0821);
    assert_eq!(s.mem.fetch_inst(0x4005), 0x9100_0821);
    assert!(!s.mem.can_fetch(0x4006));
    assert!(s.mem.can_fetch(0x4009));
}

#[test]
fn hashes_are_those_of_the_whole_message() {
    assert_eq!(
        ShaCtx::Sha1(b"abc".to_vec()).digest20(),
        vec![
            0xa9, 0x99, 0x3e, 0x36, 0x47, 0x06, 0x81, 0x6a, 0xba, 0x3e, 0x25, 0x71, 0x78, 0x50,
            0xc2, 0x6c, 0x9c, 0xd0, 0xd8, 0x9d
        ]
    );
    assert_eq!(&ShaCtx::Sha512(b"abc".to_vec()).digest64()[..4], &[0xdd, 0xaf, 0x35, 0xa1]);
}

#[test]
fn key_streams_of_three_sizes() {
    let iv = [
        0xf0, 0xf1, 0xf2, 0xf3, 0xf4, 0xf5, 0xf6, 0xf7, 0xf8, 0xf9, 0xfa, 0xfb, 0xfc, 0xfd, 0xfe,
        0xff,
    ];
    let plain = [
        0x6b, 0xc1, 0xbe, 0xe2, 0x2e, 0x40, 0x9f, 0x96, 0xe9, 0x3d, 0x7e, 0x11, 0x73, 0x93, 0x17,
        0x2a,
    ];
    let k128 = [
        0x2b, 0x7e, 0x15, 0x16, 0x28, 0xae, 0xd2, 0xa6, 0xab, 0xf7, 0x15, 0x88, 0x09, 0xcf, 0x4f,
        0x3c,
    ];
    let k192 = [
        0x8e, 0x73, 0xb0, 0xf7, 0xda, 0x0e, 0x64, 0x52, 0xc8, 0x10, 0xf3, 0x2b, 0x80, 0x90, 0x79,
        0xe5, 0x62, 0xf8, 0xea, 0xd2, 0x52, 0x2c, 0x6b, 0x7b,
    ];
    let k256 = [
        0x60, 0x3d, 0xeb, 0x10, 0x15, 0xca, 0x71, 0xbe, 0x2b, 0x73, 0xae, 0xf0, 0x85, 0x7d, 0x77,
        0x81, 0x1f, 0x35, 0x2c, 0x07, 0x3b, 0x61, 0x08, 0xd7, 0x2d, 0x98, 0x10, 0xa3, 0x09, 0x14,
        0xdf, 0xf4,
    ];
    let mut c = AesCtrCtx::new(&k128, &iv).unwrap();
    assert_eq!(&c.apply_keystream(&plain)[..4], &[0x87, 0x4d, 0x61, 0x91]);
    let mut c = AesCtrCtx::new(&k192, &iv).unwrap();
    assert_eq!(&c.apply_keystream(&plain)[..4], &[0x1a, 0xbc, 0x93, 0x24]);
    let mut c = AesCtrCtx::new(&k256, &iv).unwrap();
    assert_eq!(&c.apply_keystream(&plain)[..4], &[0x60, 0x1e, 0xc3, 0x13]);
    assert!(AesCtrCtx::new(&[1, 2, 3], &iv).is_none());
    // Two pieces are enciphered as the whole is.
    let mut whole = AesCtrCtx::new(&k128, &iv).unwrap();
    let mut pieces = AesCtrCtx::new(&k128, &iv).unwrap();
    let mut got = pieces.apply_keystream(&plain[..5]);
    got.extend(pieces.apply_keystream(&plain[5..]));
    assert_eq!(got, whole.apply_keystream(&plain));
}

#[test]
fn the_counter_runs_to_its_end() {
    // Block n of a stream is the first block of the stream whose counter starts n higher.
    let first = u128::from_be_bytes([9; 16]);
    for blocks in [1u128 << 123, 1 << 124, u128::MAX - 1] {
        let mut late = AesCtrCtx::new(&[3; 16], &[9; 16]).unwrap();
        late.blocks = blocks;
        let start = first.wrapping_add(blocks).to_be_bytes();
        let mut fresh = AesCtrCtx::new(&[3; 16], &start).unwrap();
        assert!(late.has_room(16));
        assert_eq!(late.apply_keystream(&[7; 16]), fresh.apply_keystream(&[7; 16]));
        assert_eq!((late.blocks, late.bytes), (blocks + 1, 0));
    }
    let mut last = AesCtrCtx::new(&[3; 16], &[9; 16]).unwrap();
    last.blocks = u128::MAX - 1;
    last.bytes = 3;
    assert!(last.has_room(13));
    assert!(!last.has_room(14));
    let mut s = State::new();
    s.aes_ctxs.insert(0x100, last);
    s.cpu.set_reg(0, 0x100);
    s.cpu.set_reg(1, 0x5000);
    s.cpu.set_reg(2, 14);
    s.cpu.set_reg(3, 0x6000);
    assert!(matches!(s.handle_stub("_AES_CTR_Update"), Err(Fault::KeystreamEnd)));
    assert_eq!((s.aes_ctxs[&0x100].bytes, s.cpu.reg(0)), (3, 0x100));
    s.cpu.set_reg(2, 13);
    assert!(s.handle_stub("_AES_CTR_Update").is_ok());
    assert_eq!((s.aes_ctxs[&0x100].blocks, s.cpu.reg(0)), (u128::MAX, 0));
}

#[test]
fn library_functions_are_found_by_name() {
    assert_eq!(find_stub("_malloc"), Stub::Malloc);
    assert_eq!(find_stub("_CC_SHA1_Update"), Stub::Sha1Update);
    assert_eq!(find_stub("no such function"), Stub::Nothing);
}

#[test]
fn heap_blocks_do_not_overlap() {
    let mut s = State::new();
    s.cpu.set_reg(0, 20);
    s.handle_stub("_malloc").unwrap();
    let a = s.cpu.reg(0);
    s.cpu.set_reg(0, 1);
    s.handle_stub("_malloc").unwrap();
    let b = s.cpu.reg(0);
    assert!(a >= FP_HEAP_BASE);
    assert_eq!(b - a, 32);
    assert!(matches!(s.handle_stub("_abort"), Err(Fault::Abort { .. })));
}

#[test]
fn a_snapshot_needs_its_head() {
    assert!(load_snapshot(&[0; 19]).is_none());
    assert_eq!(
        fp_sap_exchange_standalone(&[], &[0; 128]).err(),
        Some(ExchangeError::MalformedSnapshot)
    );
    assert_eq!(fp_sap_exchange_m3(&[], &[0; 10]).err(), Some(ExchangeError::ShortM2 { len: 10 }));
}

#[test]
fn bits_and_bytes_change_places() {
    for v in [0u64, 1, 0x8000_0000_0000_0000, 0x0123_4567_89AB_CDEF, u64::MAX - 0xFF0F] {
        assert_eq!(rbit64(v), v.reverse_bits());
        assert_eq!(rbit32(v as u32), (v as u32).reverse_bits());
        assert_eq!(rev64(v), v.swap_bytes());
        assert_eq!(rev32(v as u32), (v as u32).swap_bytes());
    }
    assert_eq!(rev16_64(0x0123_4567_89AB_CDEF), 0x2301_6745_AB89_EFCD);
    assert_eq!(rev16_32(0x0123_4567), 0x2301_6745);
    assert_eq!(sign_extend(0x80, 8), 0xFFFF_FFFF_FFFF_FF80);
    assert_eq!(sign_extend(0x7F, 8), 0x7F);
    assert_eq!(sign_extend(0x1_0001, 8), 0x1_0001);
    assert_eq!(sign_extend(u64::MAX, 64), u64::MAX);
}

#[test]
fn high_products_are_signed() {
    for a in [0i64, 1, -1, 7, i64::MAX, i64::MIN, 0x1234_5678_9ABC_DEF0] {
        for b in [0i64, 1, -1, -9, i64::MAX, i64::MIN, 0x0FED_CBA9_8765_4321] {
            let expected = ((a as i128 * b as i128) >> 64) as u64;
            assert_eq!(smulhi64(a as u64, b as u64), expected);
        }
    }
}

#[test]
fn immediates_stand_for_numbers() {
    assert_eq!(f32::from_bits(vfp_expand_imm32(0x70)), 1.0);
    assert_eq!(f64::from_bits(vfp_expand_imm64(0x70)), 1.0);
    assert_eq!(f32::from_bits(vfp_expand_imm32(0x00)), 2.0);
    assert_eq!(f64::from_bits(vfp_expand_imm64(0x80)), -2.0);
    assert_eq!(f32::from_bits(vfp_expand_imm32(0x3F)), 31.0);
    assert_eq!(f64::from_bits(vfp_expand_imm64(0x40)), 0.125);
}
