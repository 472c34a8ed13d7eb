//! What loads and stores do to registers and memory.
use crate::fpemu::cpu::CpuView;
use crate::fpemu::decode::ldst::{
    accessed, indexed, ldr_literal, ldst_imm9, ldst_pair, ldst_reg_off, ldst_unsigned, loaded,
    loaded_signed, pair_accessed, pair_mode, stored,
};
use crate::fpemu::decode::simd_ldst::{ldst_pair_simd, simd_accessed};
use crate::fpemu::fault::{Fault, MachineView};
use crate::fpemu::helpers::sign_extend;
use crate::fpemu::laws::branches::{address_at, lemma_sign_extension, offset};
use crate::fpemu::laws::{as_signed, value_in, value_or_sp};
use crate::fpemu::machine::{memory_step, stepped, with_machine};
use crate::fpemu::mem::{distance, MemView};
use crate::fpemu::state::StateView;
use vstd::prelude::*;

verus! {

broadcast use crate::bits::lemma_and_le_u32;

/// How many bytes an access of a size moves.
pub open spec fn bytes_moved(size: u32) -> int {
    if size == 0 {
        1
    } else if size == 1 {
        2
    } else if size == 2 {
        4
    } else {
        8
    }
}

/// How many numbers an access of a size can move.
pub open spec fn values_moved(size: u32) -> int {
    if size == 0 {
        0x100
    } else if size == 1 {
        0x1_0000
    } else if size == 2 {
        0x1_0000_0000
    } else {
        0x1_0000_0000_0000_0000
    }
}

/// The worth of a byte by its place.
pub open spec fn worth(place: int) -> int {
    if place == 0 {
        1
    } else if place == 1 {
        0x100
    } else if place == 2 {
        0x1_0000
    } else if place == 3 {
        0x100_0000
    } else if place == 4 {
        0x1_0000_0000
    } else if place == 5 {
        0x100_0000_0000
    } else if place == 6 {
        0x1_0000_0000_0000
    } else {
        0x100_0000_0000_0000
    }
}

/// The number that `n` bytes from `a` up write, the lowest first.
pub open spec fn number_at(m: MemView, a: u64, n: int) -> int
    decreases n,
{
    if n <= 0 {
        0
    } else {
        number_at(m, a, n - 1) + worth(n - 1) * m.bytes[address_at(a, n - 1)]
    }
}

/// Whether memory differs from what it was only in that a number stands in `n` bytes from `a` up.
pub open spec fn written_number(m: MemView, before: MemView, a: u64, n: int, v: int) -> bool {
    &&& forall|d: int|
        0 <= d < n ==> #[trigger] m.bytes[address_at(a, d)] == v / worth(d) % 0x100
    &&& forall|x: u64| distance(a, x) >= n ==> #[trigger] m.bytes[x] == before.bytes[x]
    &&& m.code == before.code && m.code_base == before.code_base && m.code_end == before.code_end
}

/// Whether memory differs from what it was only in two numbers of `n` bytes, the second of them
/// written last behind the first.
pub open spec fn written_pair(m: MemView, before: MemView, a: u64, n: int, v: int, w: int) -> bool {
    exists|half: MemView| #[trigger]
        written_number(half, before, a, n, v) && written_number(m, half, address_at(a, n), n, w)
}

/// A processor with another number in a register; register 31 never changes.
pub open spec fn with_value(c: CpuView, d: u32, v: int) -> CpuView {
    CpuView {
        x: if d == 31 {
            c.x
        } else {
            c.x.update(d as int, v as u64)
        },
        ..c
    }
}

/// A processor with another address in a register, where 31 is the stack pointer.
pub open spec fn with_address(c: CpuView, d: u32, a: u64) -> CpuView {
    if d == 31 {
        CpuView { sp: a, ..c }
    } else {
        CpuView { x: c.x.update(d as int, a), ..c }
    }
}

/// The number in a register of a processor, where register 31 stands for zero.
pub open spec fn number_in(c: CpuView, n: u32) -> int {
    if n == 31 {
        0
    } else {
        c.x[n as int] as int
    }
}

/// A processor with the next instruction due.
pub open spec fn next(c: CpuView) -> CpuView {
    CpuView { pc: address_at(c.pc, 4), ..c }
}

/// Whether an access of a size between register `rt` and the memory at `a` was made: `opc` 0 stores
/// the low part of the register, 1 loads a number, 2 a signed one in 64 bits and 3 one in 32. `cpu` is
/// the processor once the base is updated.
pub open spec fn moved(
    s: StateView,
    cpu: CpuView,
    after: StateView,
    size: u32,
    opc: u32,
    a: u64,
    rt: u32,
) -> bool {
    let number = number_at(s.mem, a, bytes_moved(size));
    let negative = as_signed(number, values_moved(size));
    &&& after == (StateView { cpu: after.cpu, mem: after.mem, ..s })
    &&& opc == 0 ==> after.cpu == next(cpu) && written_number(
        after.mem,
        s.mem,
        a,
        bytes_moved(size),
        number_in(cpu, rt),
    )
    &&& opc != 0 ==> after.mem == s.mem
    &&& opc == 1 ==> after.cpu == next(with_value(cpu, rt, number))
    &&& opc == 2 && size < 3 ==> after.cpu == next(
        with_value(cpu, rt, negative % 0x1_0000_0000_0000_0000),
    )
    &&& opc == 3 && size < 2 ==> after.cpu == next(with_value(cpu, rt, negative % 0x1_0000_0000))
}

proof fn lemma_number(m: MemView, a: u64, size: u32)
    requires
        size <= 3,
    ensures
        loaded(m, a, size) == number_at(m, a, bytes_moved(size)),
        number_at(m, a, bytes_moved(size)) < values_moved(size),
{
    reveal_with_fuel(number_at, 9);
    assert(forall|k: u64| k < 8 ==> a.wrapping_add(k) == #[trigger] address_at(a, k as int));
    assert(a.wrapping_add(0) == a);
    assert(a.wrapping_add(1) == address_at(a, 1));
    assert(a.wrapping_add(2) == address_at(a, 2));
    assert(a.wrapping_add(3) == address_at(a, 3));
    assert(a.wrapping_add(4) == address_at(a, 4));
    let b = a.wrapping_add(4);
    assert(b.wrapping_add(1) == address_at(a, 5));
    assert(b.wrapping_add(2) == address_at(a, 6));
    assert(b.wrapping_add(3) == address_at(a, 7));
}

proof fn lemma_signed_number(m: MemView, a: u64, size: u32)
    requires
        size < 3,
    ensures
        loaded_signed(m, a, size) == as_signed(
            number_at(m, a, bytes_moved(size)),
            values_moved(size),
        ) % 0x1_0000_0000_0000_0000,
{
    lemma_number(m, a, size);
    let v = loaded(m, a, size) as u32;
    assert(v as u64 == loaded(m, a, size));
    if size == 0 {
        lemma_sign_extension(v, 8, 0x100);
    } else if size == 1 {
        lemma_sign_extension(v, 16, 0x1_0000);
    } else {
        lemma_sign_extension(v, 32, 0x1_0000_0000);
    }
}

proof fn lemma_low_part(v: u64)
    by (bit_vector)
    ensures
        v as u8 == v % 0x100,
        v as u16 == v % 0x1_0000,
        v as u32 == v % 0x1_0000_0000,
        (v % 0x1_0000) % 0x100 == v % 0x100,
        (v % 0x1_0000) / 0x100 == v / 0x100 % 0x100,
        (v % 0x1_0000_0000) % 0x100 == v % 0x100,
        (v % 0x1_0000_0000) / 0x100 % 0x100 == v / 0x100 % 0x100,
        (v % 0x1_0000_0000) / 0x1_0000 % 0x100 == v / 0x1_0000 % 0x100,
        (v % 0x1_0000_0000) / 0x100_0000 == v / 0x100_0000 % 0x100,
        (v / 0x1_0000_0000) % 0x100 == v / 0x1_0000_0000 % 0x100,
        (v / 0x1_0000_0000) / 0x100 % 0x100 == v / 0x100_0000_0000 % 0x100,
        (v / 0x1_0000_0000) / 0x1_0000 % 0x100 == v / 0x1_0000_0000_0000 % 0x100,
        (v / 0x1_0000_0000) / 0x100_0000 == v / 0x100_0000_0000_0000 % 0x100,
{
}

/// The low bytes of a number, the lowest first, as a store of a size writes them.
spec fn low_bytes(size: u32, v: u64) -> Seq<u8> {
    if size == 0 {
        seq![(v % 0x100) as u8]
    } else if size == 1 {
        crate::bytes::le_bytes16((v % 0x1_0000) as u16)
    } else if size == 2 {
        crate::bytes::le_bytes32((v % 0x1_0000_0000) as u32)
    } else {
        crate::bytes::le_bytes64(v)
    }
}

#[verifier::rlimit(100)]
proof fn lemma_low_bytes(size: u32, v: u64)
    requires
        size <= 3,
    ensures
        low_bytes(size, v).len() == bytes_moved(size),
        forall|d: int|
            0 <= d < bytes_moved(size) ==> #[trigger] low_bytes(size, v)[d] == v as int / worth(d)
                % 0x100,
{
    let b = low_bytes(size, v);
    lemma_low_part(v);
    assert(b[0] == v as int / worth(0) % 0x100);
    if size >= 1 {
        assert(b[1] == v as int / worth(1) % 0x100);
    }
    if size >= 2 {
        assert(b[2] == v as int / worth(2) % 0x100);
        assert(b[3] == v as int / worth(3) % 0x100);
    }
    if size == 3 {
        assert(b[4] == v as int / worth(4) % 0x100);
        assert(b[5] == v as int / worth(5) % 0x100);
        assert(b[6] == v as int / worth(6) % 0x100);
        assert(b[7] == v as int / worth(7) % 0x100);
    }
    assert forall|d: int| 0 <= d < bytes_moved(size) implies #[trigger] b[d] == v as int / worth(d)
        % 0x100 by {
        assert(d == 0 || d == 1 || d == 2 || d == 3 || d == 4 || d == 5 || d == 6 || d == 7);
    }
}

proof fn lemma_stored(m: MemView, a: u64, size: u32, v: u64)
    requires
        size <= 3,
    ensures
        written_number(stored(m, a, size, v), m, a, bytes_moved(size), v as int),
{
    let after = stored(m, a, size, v);
    let data = low_bytes(size, v);
    lemma_low_part(v);
    lemma_low_bytes(size, v);
    assert(after == m.written(a, data));
    assert forall|d: int| 0 <= d < bytes_moved(size) implies #[trigger] after.bytes[address_at(a, d)]
        == v as int / worth(d) % 0x100 by {
        assert(distance(a, address_at(a, d)) == d);
        assert(after.bytes[address_at(a, d)] == data[d]);
    }
}

proof fn lemma_accessed(s: StateView, cpu: CpuView, size: u32, opc: u32, a: u64, rt: u32)
    requires
        size <= 3,
        opc <= 3,
        rt <= 31,
    ensures
        ({
            let m = accessed(MachineView { cpu, mem: s.mem }, size, opc, a, rt);
            moved(s, cpu, StateView { cpu: m.cpu, mem: m.mem, ..s }, size, opc, a, rt)
        }),
{
    lemma_number(s.mem, a, size);
    if size < 3 {
        lemma_signed_number(s.mem, a, size);
    }
    lemma_stored(s.mem, a, size, cpu.reg(rt));
    assert(cpu.pc.wrapping_add(4) == address_at(cpu.pc, 4));
}

proof fn lemma_memory_class(inst: u32)
    by (bit_vector)
    ensures
        ((inst >> 27) & 7 == 7 || (inst >> 27) & 7 == 5 || (inst >> 27) & 7 == 3) && (inst >> 25) & 1
            == 0 ==> inst & 0xFFE0_001F != 0xD420_0000 && ((inst >> 25) & 0xF) >> 1 != 4 && ((inst
            >> 25) & 0xF) >> 1 != 5 && ((inst >> 25) & 0xF) & 5 == 4,
        (inst >> 30) & 3 <= 3,
        (inst >> 10) & 0xFFF <= 0xFFF,
        ((inst >> 22) & 3) & 1 == (inst >> 22) & 1,
        (inst >> 22) & 3 >= 2 <==> (inst >> 23) & 1 == 1,
{
}

/// LDR and STR with an unsigned offset: the access lies so many times its size above the base.
pub proof fn law_access_above_base(s: StateView, inst: u32)
    requires
        (inst >> 27) & 7 == 7,
        (inst >> 26) & 1 == 0,
        (inst >> 25) & 1 == 0,
        (inst >> 24) & 1 == 1,
    ensures
        ({
            let size = (inst >> 30) & 3;
            let a = address_at(
                value_or_sp(s, (inst >> 5) & 0x1F) as u64,
                ((inst >> 10) & 0xFFF) * bytes_moved(size),
            );
            stepped(s, inst).1 is Ok && moved(
                s,
                s.cpu,
                stepped(s, inst).0,
                size,
                (inst >> 22) & 3,
                a,
                inst & 0x1F,
            )
        }),
{
    lemma_memory_class(inst);
    let m = MachineView { cpu: s.cpu, mem: s.mem };
    assert(stepped(s, inst) == with_machine(s, Ok(ldst_unsigned(m, inst)))) by {
        reveal(stepped);
        reveal(memory_step);
    }
    let size = (inst >> 30) & 3;
    let base = value_or_sp(s, (inst >> 5) & 0x1F) as u64;
    let a = address_at(base, ((inst >> 10) & 0xFFF) * bytes_moved(size));
    lemma_accessed(s, s.cpu, size, (inst >> 22) & 3, a, inst & 0x1F);
}

/// LDR and STR with a signed offset: unscaled (0) leaves the base, post-indexed (1) moves it behind
/// the access, pre-indexed (3) before it.
pub proof fn law_indexed_access(s: StateView, inst: u32)
    requires
        (inst >> 27) & 7 == 7,
        (inst >> 26) & 1 == 0,
        (inst >> 25) & 1 == 0,
        (inst >> 24) & 1 == 0,
        (inst >> 21) & 1 == 0,
        (inst >> 10) & 3 != 2,
    ensures
        ({
            let n = (inst >> 5) & 0x1F;
            let base = value_or_sp(s, n) as u64;
            let there = address_at(base, offset((inst >> 12) & 0x1FF, 0x200));
            let mode = (inst >> 10) & 3;
            stepped(s, inst).1 is Ok && moved(
                s,
                if mode == 0 {
                    s.cpu
                } else {
                    with_address(s.cpu, n, there)
                },
                stepped(s, inst).0,
                (inst >> 30) & 3,
                (inst >> 22) & 3,
                if mode == 1 {
                    base
                } else {
                    there
                },
                inst & 0x1F,
            )
        }),
{
    lemma_memory_class(inst);
    let m = MachineView { cpu: s.cpu, mem: s.mem };
    assert(stepped(s, inst) == with_machine(s, ldst_imm9(m, inst))) by {
        reveal(stepped);
        reveal(memory_step);
    }
    let n = (inst >> 5) & 0x1F;
    let base = value_or_sp(s, n) as u64;
    let imm = (inst >> 12) & 0x1FF;
    lemma_sign_extension(imm, 9, 0x200);
    let there = address_at(base, offset(imm, 0x200));
    assert(base.wrapping_add(sign_extend(imm as u64, 9)) == there);
    let mode = (inst >> 10) & 3;
    let cpu = if mode == 0 {
        s.cpu
    } else {
        with_address(s.cpu, n, there)
    };
    let a = if mode == 1 {
        base
    } else {
        there
    };
    lemma_accessed(s, cpu, (inst >> 30) & 3, (inst >> 22) & 3, a, inst & 0x1F);
}

proof fn lemma_index_step(s: StateView, inst: u32)
    requires
        (inst >> 27) & 7 == 7,
        (inst >> 26) & 1 == 0,
        (inst >> 25) & 1 == 0,
        (inst >> 24) & 1 == 0,
        (inst >> 21) & 1 == 1,
    ensures
        stepped(s, inst) == with_machine(
            s,
            Ok(ldst_reg_off(MachineView { cpu: s.cpu, mem: s.mem }, inst)),
        ),
{
    lemma_memory_class(inst);
    reveal(stepped);
    reveal(memory_step);
}

proof fn lemma_pair_step(s: StateView, inst: u32)
    requires
        (inst >> 27) & 7 == 5,
        (inst >> 26) & 1 == 0,
        (inst >> 25) & 1 == 0,
    ensures
        stepped(s, inst) == with_machine(
            s,
            ldst_pair(MachineView { cpu: s.cpu, mem: s.mem }, inst),
        ),
{
    lemma_memory_class(inst);
    reveal(stepped);
    reveal(memory_step);
}

proof fn lemma_literal_step(s: StateView, inst: u32)
    requires
        (inst >> 27) & 7 == 3,
        (inst >> 26) & 1 == 0,
        (inst >> 25) & 1 == 0,
    ensures
        stepped(s, inst) == with_machine(
            s,
            Ok(ldr_literal(MachineView { cpu: s.cpu, mem: s.mem }, inst)),
        ),
{
    lemma_memory_class(inst);
    reveal(stepped);
    reveal(memory_step);
}

proof fn lemma_literal_address(pc: u64, field: u32)
    requires
        field < 0x8_0000,
    ensures
        pc.wrapping_add(sign_extend(field as u64, 19).wrapping_mul(4)) == address_at(
            pc,
            4 * offset(field, 0x8_0000),
        ),
        pc.wrapping_add(4) == address_at(pc, 4),
{
    lemma_sign_extension(field, 19, 0x8_0000);
    lemma_times(offset(field, 0x8_0000), sign_extend(field as u64, 19), 4);
}

proof fn lemma_pair_address(base: u64, field: u32, each: int)
    requires
        field < 0x80,
        each == 4 || each == 8,
    ensures
        each == 4 ==> base.wrapping_add(sign_extend(field as u64, 7).wrapping_mul(4)) == address_at(
            base,
            each * offset(field, 0x80),
        ),
        each == 8 ==> base.wrapping_add(sign_extend(field as u64, 7).wrapping_mul(8)) == address_at(
            base,
            each * offset(field, 0x80),
        ),
{
    lemma_sign_extension(field, 7, 0x80);
    lemma_times(offset(field, 0x80), sign_extend(field as u64, 7), each);
}

/// The index of an access as a number.
pub open spec fn index_number(register: u64, option: u32) -> int {
    if option == 2 {
        register as int % 0x1_0000_0000
    } else if option == 6 {
        as_signed(register as int % 0x1_0000_0000, 0x1_0000_0000)
    } else {
        register as int
    }
}

proof fn lemma_index_address(base: u64, register: u64, option: u32, size: u32)
    requires
        size <= 3,
    ensures
        ({
            let extended = if option == 2 {
                register % 0x1_0000_0000
            } else if option == 6 {
                sign_extend(register % 0x1_0000_0000, 32)
            } else {
                register
            };
            let index = index_number(register, option);
            &&& base.wrapping_add(extended) == address_at(base, index)
            &&& base.wrapping_add(extended << size) == address_at(base, index * bytes_moved(size))
        }),
{
    let low = (register % 0x1_0000_0000) as u32;
    lemma_sign_extension(low, 32, 0x1_0000_0000);
    let extended = if option == 2 {
        register % 0x1_0000_0000
    } else if option == 6 {
        sign_extend(register % 0x1_0000_0000, 32)
    } else {
        register
    };
    let index = index_number(register, option);
    assert(extended == index % 0x1_0000_0000_0000_0000);
    lemma_times(index, extended, bytes_moved(size));
    lemma_shift(extended, size);
    lemma_around(base, extended, index);
    lemma_around(base, extended << size, index * bytes_moved(size));
}

proof fn lemma_around(base: u64, e: u64, d: int)
    requires
        e == d % 0x1_0000_0000_0000_0000,
    ensures
        base.wrapping_add(e) == address_at(base, d),
{
    let q = d / 0x1_0000_0000_0000_0000;
    assert(d == e + 0x1_0000_0000_0000_0000 * q);
}

proof fn lemma_shift(v: u64, size: u32)
    requires
        size <= 3,
    ensures
        v << size == (v * bytes_moved(size)) % 0x1_0000_0000_0000_0000,
{
    lemma_scaled(v, size as u64);
    assert(size == 0 || size == 1 || size == 2 || size == 3);
}

/// LDR and STR with a register offset: the index counts whole, or its low half as it is or signed,
/// and is taken times the size where that is said.
#[verifier::rlimit(100)]
#[verifier::spinoff_prover]
pub proof fn law_access_at_index(s: StateView, inst: u32)
    requires
        (inst >> 27) & 7 == 7,
        (inst >> 26) & 1 == 0,
        (inst >> 25) & 1 == 0,
        (inst >> 24) & 1 == 0,
        (inst >> 21) & 1 == 1,
    ensures
        ({
            let size = (inst >> 30) & 3;
            let index = index_number(
                value_in(s, (inst >> 16) & 0x1F) as u64,
                (inst >> 13) & 7,
            );
            let a = address_at(
                value_or_sp(s, (inst >> 5) & 0x1F) as u64,
                if (inst >> 12) & 1 == 1 {
                    index * bytes_moved(size)
                } else {
                    index
                },
            );
            stepped(s, inst).1 is Ok && moved(
                s,
                s.cpu,
                stepped(s, inst).0,
                size,
                (inst >> 22) & 3,
                a,
                inst & 0x1F,
            )
        }),
{
    lemma_index_step(s, inst);
    lemma_one_or_none(inst);
    let size = (inst >> 30) & 3;
    let register = value_in(s, (inst >> 16) & 0x1F) as u64;
    let index = index_number(register, (inst >> 13) & 7);
    let base = value_or_sp(s, (inst >> 5) & 0x1F) as u64;
    lemma_index_address(base, register, (inst >> 13) & 7, size);
    let a = address_at(
        base,
        if (inst >> 12) & 1 == 1 {
            index * bytes_moved(size)
        } else {
            index
        },
    );
    lemma_accessed(s, s.cpu, size, (inst >> 22) & 3, a, inst & 0x1F);
}

proof fn lemma_one_or_none(inst: u32)
    ensures
        (inst >> 12) & 1 != 0 ==> (inst >> 12) & 1 == 1,
{
    assert((inst >> 12) & 1 <= 1);
}

proof fn lemma_times(index: int, e: u64, f: int)
    requires
        e == index % 0x1_0000_0000_0000_0000,
        f == 1 || f == 2 || f == 4 || f == 8 || f == 16,
    ensures
        f == 16 ==> e.wrapping_mul(16) == (index * f) % 0x1_0000_0000_0000_0000,
        (e * f) % 0x1_0000_0000_0000_0000 == (index * f) % 0x1_0000_0000_0000_0000,
        f == 4 ==> e.wrapping_mul(4) == (index * f) % 0x1_0000_0000_0000_0000,
        f == 8 ==> e.wrapping_mul(8) == (index * f) % 0x1_0000_0000_0000_0000,
{
    let q = index / 0x1_0000_0000_0000_0000;
    assert(index == e + 0x1_0000_0000_0000_0000 * q);
    if f == 2 {
        assert(index * f == e * f + 0x1_0000_0000_0000_0000 * (2 * q));
    } else if f == 4 {
        assert(index * f == e * f + 0x1_0000_0000_0000_0000 * (4 * q));
    } else if f == 8 {
        assert(index * f == e * f + 0x1_0000_0000_0000_0000 * (8 * q));
    } else if f == 16 {
        assert(index * f == e * f + 0x1_0000_0000_0000_0000 * (16 * q));
    }
}

proof fn lemma_scaled(v: u64, size: u64)
    by (bit_vector)
    ensures
        size == 0 ==> v << size == v,
        size == 1 ==> v * 2 == (v << size) + (v >> 63u64) * 0x1_0000_0000_0000_0000,
        size == 2 ==> v * 4 == (v << size) + (v >> 62u64) * 0x1_0000_0000_0000_0000,
        size == 3 ==> v * 8 == (v << size) + (v >> 61u64) * 0x1_0000_0000_0000_0000,
{
}

/// The processor of a pair access once the base is updated, and where the access lies.
pub open spec fn pair_place(s: StateView, inst: u32) -> (CpuView, u64) {
    let each: int = if (inst >> 30) & 3 == 2 {
        8
    } else {
        4
    };
    let n = (inst >> 5) & 0x1F;
    let base = value_or_sp(s, n) as u64;
    let there = address_at(base, each * offset((inst >> 15) & 0x7F, 0x80));
    let mode = (inst >> 23) & 7;
    (
        if mode == 2 {
            s.cpu
        } else {
            with_address(s.cpu, n, there)
        },
        if mode == 1 {
            base
        } else {
            there
        },
    )
}

proof fn lemma_pair_access(s: StateView, inst: u32)
    requires
        (inst >> 27) & 7 == 5,
        (inst >> 26) & 1 == 0,
        (inst >> 25) & 1 == 0,
        1 <= (inst >> 23) & 7 <= 3,
        (inst >> 30) & 3 != 3,
    ensures
        ({
            let (cpu, a) = pair_place(s, inst);
            let p = pair_accessed(
                MachineView { cpu, mem: s.mem },
                (inst >> 30) & 3,
                (inst >> 22) & 1 != 0,
                a,
                inst & 0x1F,
                (inst >> 10) & 0x1F,
            );
            stepped(s, inst) == (StateView { cpu: p.cpu, mem: p.mem, ..s }, Ok::<(), Fault>(()))
        }),
{
    lemma_pair_step(s, inst);
    let each: int = if (inst >> 30) & 3 == 2 {
        8
    } else {
        4
    };
    let base = value_or_sp(s, (inst >> 5) & 0x1F) as u64;
    lemma_pair_address(base, (inst >> 15) & 0x7F, each);
}

proof fn lemma_around_next(a: u64)
    ensures
        a.wrapping_add(4) == address_at(a, 4),
        a.wrapping_add(8) == address_at(a, 8),
{
}

/// LDP and LDPSW: two registers get two numbers that stand one behind the other, of 8 bytes each
/// (`opc` 2) or of 4, or signed ones of 4 (`opc` 1). The base stays (2), or moves behind the access
/// (1) or before it (3).
pub proof fn law_load_pair(s: StateView, inst: u32)
    requires
        (inst >> 27) & 7 == 5,
        (inst >> 26) & 1 == 0,
        (inst >> 25) & 1 == 0,
        1 <= (inst >> 23) & 7 <= 3,
        (inst >> 30) & 3 != 3,
        (inst >> 22) & 1 == 1,
    ensures
        ({
            let opc = (inst >> 30) & 3;
            let (cpu, a) = pair_place(s, inst);
            let (v, w) = if opc == 2 {
                (number_at(s.mem, a, 8), number_at(s.mem, address_at(a, 8), 8))
            } else {
                (number_at(s.mem, a, 4), number_at(s.mem, address_at(a, 4), 4))
            };
            let (v, w) = if opc == 1 {
                (
                    as_signed(v, 0x1_0000_0000) % 0x1_0000_0000_0000_0000,
                    as_signed(w, 0x1_0000_0000) % 0x1_0000_0000_0000_0000,
                )
            } else {
                (v, w)
            };
            stepped(s, inst) == (
                StateView {
                    cpu: next(with_value(with_value(cpu, inst & 0x1F, v), (inst >> 10) & 0x1F, w)),
                    ..s
                },
                Ok::<(), Fault>(()),
            )
        }),
{
    lemma_pair_access(s, inst);
    let (cpu, a) = pair_place(s, inst);
    lemma_around_next(a);
    lemma_around_next(cpu.pc);
    lemma_number(s.mem, a, 3);
    lemma_number(s.mem, address_at(a, 8), 3);
    lemma_number(s.mem, a, 2);
    lemma_number(s.mem, address_at(a, 4), 2);
    lemma_signed_number(s.mem, a, 2);
    lemma_signed_number(s.mem, address_at(a, 4), 2);
}

/// STP: two registers go to two places that stand one behind the other.
pub proof fn law_store_pair(s: StateView, inst: u32)
    requires
        (inst >> 27) & 7 == 5,
        (inst >> 26) & 1 == 0,
        (inst >> 25) & 1 == 0,
        1 <= (inst >> 23) & 7 <= 3,
        (inst >> 30) & 3 == 0 || (inst >> 30) & 3 == 2,
        (inst >> 22) & 1 == 0,
    ensures
        ({
            let (cpu, a) = pair_place(s, inst);
            let after = stepped(s, inst).0;
            &&& stepped(s, inst).1 is Ok
            &&& after == (StateView { cpu: next(cpu), mem: after.mem, ..s })
            &&& written_pair(
                after.mem,
                s.mem,
                a,
                if (inst >> 30) & 3 == 2 {
                    8
                } else {
                    4
                },
                number_in(cpu, inst & 0x1F),
                number_in(cpu, (inst >> 10) & 0x1F),
            )
        }),
{
    lemma_pair_access(s, inst);
    let (cpu, a) = pair_place(s, inst);
    lemma_around_next(a);
    lemma_around_next(cpu.pc);
    let size: u32 = if (inst >> 30) & 3 == 2 {
        3
    } else {
        2
    };
    let n = bytes_moved(size);
    let (first, second) = (cpu.reg(inst & 0x1F), cpu.reg((inst >> 10) & 0x1F));
    let half = stored(s.mem, a, size, first);
    let whole = stored(half, address_at(a, n), size, second);
    lemma_stored(s.mem, a, size, first);
    lemma_stored(half, address_at(a, n), size, second);
    assert(written_number(half, s.mem, a, n, first as int));
    assert(written_pair(whole, s.mem, a, n, first as int, second as int));
}

/// LDR and LDRSW from a place that lies a signed number of words from the instruction.
pub proof fn law_load_literal(s: StateView, inst: u32)
    requires
        (inst >> 27) & 7 == 3,
        (inst >> 26) & 1 == 0,
        (inst >> 25) & 1 == 0,
        (inst >> 30) & 3 != 3,
    ensures
        ({
            let a = address_at(s.cpu.pc, 4 * offset((inst >> 5) & 0x7FFFF, 0x8_0000));
            let opc = (inst >> 30) & 3;
            let v = if opc == 0 {
                number_at(s.mem, a, 4)
            } else if opc == 1 {
                number_at(s.mem, a, 8)
            } else {
                as_signed(number_at(s.mem, a, 4), 0x1_0000_0000) % 0x1_0000_0000_0000_0000
            };
            stepped(s, inst) == (
                StateView { cpu: next(with_value(s.cpu, inst & 0x1F, v)), ..s },
                Ok::<(), Fault>(()),
            )
        }),
{
    lemma_literal_step(s, inst);
    let field = (inst >> 5) & 0x7FFFF;
    lemma_literal_address(s.cpu.pc, field);
    let a = address_at(s.cpu.pc, 4 * offset(field, 0x8_0000));
    lemma_number(s.mem, a, 2);
    lemma_number(s.mem, a, 3);
    lemma_signed_number(s.mem, a, 2);
    assert(s.cpu.pc.wrapping_add(4) == address_at(s.cpu.pc, 4));
}

/// LDR and STR of a vector register with an unsigned offset: 1, 2, 4, 8 or 16 bytes, which lie so many
/// times their number above the base. What is loaded is clear above them.
#[verifier::rlimit(100)]
#[verifier::spinoff_prover]
pub proof fn law_vector_access(s: StateView, inst: u32)
    requires
        (inst >> 27) & 7 == 7,
        (inst >> 26) & 1 == 1,
        (inst >> 25) & 1 == 0,
        (inst >> 24) & 1 == 1,
        s.cpu.vreg.len() == 32,
    ensures
        ({
            let whole = (inst >> 30) & 3 == 0 && (inst >> 23) & 1 == 1;
            let size = (inst >> 30) & 3;
            let n = if whole {
                16
            } else {
                bytes_moved(size)
            };
            let a = address_at(
                value_or_sp(s, (inst >> 5) & 0x1F) as u64,
                ((inst >> 10) & 0xFFF) * n,
            );
            let d = (inst & 0x1F) as int;
            let after = stepped(s, inst).0;
            let v = s.cpu.vreg[d];
            &&& stepped(s, inst).1 is Ok
            &&& after == (StateView { cpu: after.cpu, mem: after.mem, ..s })
            &&& (inst >> 22) & 1 == 1 ==> after.mem == s.mem && after.cpu == next(
                CpuView {
                    vreg: s.cpu.vreg.update(
                        d,
                        if whole {
                            (
                                number_at(s.mem, a, 8) as u64,
                                number_at(s.mem, address_at(a, 8), 8) as u64,
                            )
                        } else {
                            (number_at(s.mem, a, n) as u64, 0)
                        },
                    ),
                    ..s.cpu
                },
            )
            &&& (inst >> 22) & 1 == 0 ==> after.cpu == next(s.cpu) && (whole ==> written_pair(
                after.mem,
                s.mem,
                a,
                8,
                v.0 as int,
                v.1 as int,
            )) && (!whole ==> written_number(after.mem, s.mem, a, n, v.0 as int))
        }),
{
    lemma_memory_class(inst);
    let m = MachineView { cpu: s.cpu, mem: s.mem };
    assert(stepped(s, inst) == with_machine(
        s,
        Ok(crate::fpemu::decode::simd_ldst::ldst_simd_unsigned(m, inst)),
    )) by {
        reveal(stepped);
        reveal(memory_step);
    }
    let whole = (inst >> 30) & 3 == 0 && (inst >> 23) & 1 == 1;
    let size = (inst >> 30) & 3;
    let n = if whole {
        16
    } else {
        bytes_moved(size)
    };
    let base = value_or_sp(s, (inst >> 5) & 0x1F) as u64;
    let a = address_at(base, ((inst >> 10) & 0xFFF) * n);
    let class = crate::fpemu::decode::simd_ldst::simd_size(size, (inst >> 22) & 3);
    assert(crate::fpemu::decode::simd_ldst::simd_bytes(class) == n);
    let steps = ((inst >> 10) & 0xFFF) as int;
    assert(0 <= steps * n <= 0xFFF * 16) by (nonlinear_arith)
        requires
            0 <= steps <= 0xFFF,
            0 <= n <= 16,
    ;
    let offset = (steps * n) as u64;
    assert(base.wrapping_add(offset) == address_at(base, offset as int));
    assert((inst >> 22) & 1 <= 1);
    lemma_around_next(a);
    lemma_around_next(s.cpu.pc);
    lemma_number(s.mem, a, 3);
    lemma_number(s.mem, address_at(a, 8), 3);
    lemma_number(s.mem, a, size);
    let v = s.cpu.vreg[(inst & 0x1F) as int];
    let half = stored(s.mem, a, 3, v.0);
    let full = stored(half, address_at(a, 8), 3, v.1);
    lemma_stored(s.mem, a, 3, v.0);
    lemma_stored(half, address_at(a, 8), 3, v.1);
    lemma_stored(s.mem, a, size, v.0);
    assert(written_number(half, s.mem, a, 8, v.0 as int));
    assert(written_pair(full, s.mem, a, 8, v.0 as int, v.1 as int));
}

/// The number of bytes of each vector register in a pair.
pub open spec fn vector_bytes(inst: u32) -> int {
    if (inst >> 30) & 3 == 0 {
        4
    } else if (inst >> 30) & 3 == 1 {
        8
    } else {
        16
    }
}

/// The processor of a pair access of vector registers once the base is updated, and where the access
/// lies.
pub open spec fn vector_pair_place(s: StateView, inst: u32) -> (CpuView, u64) {
    let n = (inst >> 5) & 0x1F;
    let base = value_or_sp(s, n) as u64;
    let there = address_at(base, vector_bytes(inst) * offset((inst >> 15) & 0x7F, 0x80));
    let mode = (inst >> 23) & 7;
    (
        if mode == 2 {
            s.cpu
        } else {
            with_address(s.cpu, n, there)
        },
        if mode == 1 {
            base
        } else {
            there
        },
    )
}

/// What a vector register gets from a place; what it does not fill is clear.
pub open spec fn vector_at(m: MemView, a: u64, n: int) -> (u64, u64) {
    if n == 16 {
        (number_at(m, a, 8) as u64, number_at(m, address_at(a, 8), 8) as u64)
    } else {
        (number_at(m, a, n) as u64, 0)
    }
}

proof fn lemma_vector_at(m: MemView, a: u64, class: u32, n: int)
    requires
        class == 2 && n == 4 || class == 3 && n == 8 || class == 4 && n == 16,
    ensures
        vector_at(m, a, n) == (if class == 4 {
            (loaded(m, a, 3), loaded(m, a.wrapping_add(8), 3))
        } else {
            (loaded(m, a, class), 0)
        }),
{
    lemma_around_next(a);
    lemma_number(m, a, 2);
    lemma_number(m, a, 3);
    lemma_number(m, address_at(a, 8), 3);
}

proof fn lemma_wide_pair_address(base: u64, field: u32)
    requires
        field < 0x80,
    ensures
        base.wrapping_add(sign_extend(field as u64, 7).wrapping_mul(16)) == address_at(
            base,
            16 * offset(field, 0x80),
        ),
{
    lemma_sign_extension(field, 7, 0x80);
    lemma_times(offset(field, 0x80), sign_extend(field as u64, 7), 16);
}

proof fn lemma_vector_place(s: StateView, inst: u32, bytes: u64)
    requires
        1 <= (inst >> 23) & 7 <= 3,
        bytes == vector_bytes(inst),
    ensures
        ({
            let by = sign_extend(((inst >> 15) & 0x7F) as u64, 7).wrapping_mul(bytes);
            let (cpu, a) = vector_pair_place(s, inst);
            indexed(s.cpu, (inst >> 5) & 0x1F, by, pair_mode((inst >> 23) & 7)) == (a, cpu)
        }),
{
    let field = (inst >> 15) & 0x7F;
    let base = value_or_sp(s, (inst >> 5) & 0x1F) as u64;
    if bytes == 4 {
        lemma_pair_address(base, field, 4);
    } else if bytes == 8 {
        lemma_pair_address(base, field, 8);
    } else {
        lemma_wide_pair_address(base, field);
    }
}

proof fn lemma_vector_pair_step(s: StateView, inst: u32)
    requires
        (inst >> 27) & 7 == 5,
        (inst >> 26) & 1 == 1,
        (inst >> 25) & 1 == 0,
    ensures
        stepped(s, inst) == with_machine(
            s,
            ldst_pair_simd(MachineView { cpu: s.cpu, mem: s.mem }, inst),
        ),
{
    lemma_memory_class(inst);
    reveal(stepped);
    reveal(memory_step);
}

#[verifier::rlimit(50)]
#[verifier::spinoff_prover]
proof fn lemma_vector_pair(s: StateView, inst: u32)
    requires
        (inst >> 27) & 7 == 5,
        (inst >> 26) & 1 == 1,
        (inst >> 25) & 1 == 0,
        1 <= (inst >> 23) & 7 <= 3,
        (inst >> 30) & 3 != 3,
    ensures
        ({
            let class = (((inst >> 30) & 3) + 2) as u32;
            let load = (inst >> 22) & 1 != 0;
            let (cpu, a) = vector_pair_place(s, inst);
            let first = simd_accessed(MachineView { cpu, mem: s.mem }, load, a, inst & 0x1F, class);
            let both = simd_accessed(
                first,
                load,
                address_at(a, vector_bytes(inst)),
                (inst >> 10) & 0x1F,
                class,
            );
            stepped(s, inst) == (
                StateView { cpu: both.cpu.advanced(), mem: both.mem, ..s },
                Ok::<(), Fault>(()),
            )
        }),
{
    lemma_vector_pair_step(s, inst);
    assert((inst >> 30) & 3 <= 2) by {
        lemma_memory_class(inst);
    }
    let class = (((inst >> 30) & 3) + 2) as u32;
    let n = crate::fpemu::decode::simd_ldst::simd_bytes(class);
    assert(n == vector_bytes(inst));
    lemma_vector_place(s, inst, n);
    let (cpu, a) = vector_pair_place(s, inst);
    lemma_short_way(a, n);
}

proof fn lemma_short_way(a: u64, n: u64)
    requires
        n <= 16,
    ensures
        a.wrapping_add(n) == address_at(a, n as int),
{
}

/// LDP of vector registers: two of them get 4, 8 or 16 bytes each, which stand one behind the other.
/// The base stays (2), or moves behind the access (1) or before it (3).
#[verifier::rlimit(50)]
#[verifier::spinoff_prover]
pub proof fn law_vector_load_pair(s: StateView, inst: u32)
    requires
        (inst >> 27) & 7 == 5,
        (inst >> 26) & 1 == 1,
        (inst >> 25) & 1 == 0,
        1 <= (inst >> 23) & 7 <= 3,
        (inst >> 30) & 3 != 3,
        (inst >> 22) & 1 == 1,
        s.cpu.vreg.len() == 32,
    ensures
        ({
            let n = vector_bytes(inst);
            let (cpu, a) = vector_pair_place(s, inst);
            let first = s.cpu.vreg.update((inst & 0x1F) as int, vector_at(s.mem, a, n));
            let both = first.update(
                ((inst >> 10) & 0x1F) as int,
                vector_at(s.mem, address_at(a, n), n),
            );
            stepped(s, inst) == (
                StateView { cpu: next(CpuView { vreg: both, ..cpu }), ..s },
                Ok::<(), Fault>(()),
            )
        }),
{
    lemma_vector_pair(s, inst);
    assert((inst >> 30) & 3 <= 2) by {
        lemma_memory_class(inst);
    }
    let n = vector_bytes(inst);
    let class = (((inst >> 30) & 3) + 2) as u32;
    let (cpu, a) = vector_pair_place(s, inst);
    lemma_vector_at(s.mem, a, class, n);
    lemma_vector_at(s.mem, address_at(a, n), class, n);
    lemma_around_next(cpu.pc);
}

/// STP of vector registers: the second of two goes behind the first.
#[verifier::rlimit(50)]
#[verifier::spinoff_prover]
pub proof fn law_vector_store_pair(s: StateView, inst: u32)
    requires
        (inst >> 27) & 7 == 5,
        (inst >> 26) & 1 == 1,
        (inst >> 25) & 1 == 0,
        1 <= (inst >> 23) & 7 <= 3,
        (inst >> 30) & 3 == 1,
        (inst >> 22) & 1 == 0,
    ensures
        ({
            let (cpu, a) = vector_pair_place(s, inst);
            let after = stepped(s, inst).0;
            &&& stepped(s, inst).1 is Ok
            &&& after == (StateView { cpu: next(cpu), mem: after.mem, ..s })
            &&& written_pair(
                after.mem,
                s.mem,
                a,
                8,
                s.cpu.vreg[(inst & 0x1F) as int].0 as int,
                s.cpu.vreg[((inst >> 10) & 0x1F) as int].0 as int,
            )
        }),
{
    lemma_vector_pair(s, inst);
    let (cpu, a) = vector_pair_place(s, inst);
    let first = s.cpu.vreg[(inst & 0x1F) as int].0;
    let second = s.cpu.vreg[((inst >> 10) & 0x1F) as int].0;
    let half = stored(s.mem, a, 3, first);
    let whole = stored(half, address_at(a, 8), 3, second);
    lemma_stored(s.mem, a, 3, first);
    lemma_stored(half, address_at(a, 8), 3, second);
    assert(written_number(half, s.mem, a, 8, first as int));
    assert(written_pair(whole, s.mem, a, 8, first as int, second as int));
    lemma_around_next(cpu.pc);
}

} // verus!
