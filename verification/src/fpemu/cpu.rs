//! The processor's registers and flags.
use vstd::prelude::*;

verus! {

/// Minimal A64 processor state.
pub struct Cpu {
    /// X0 to X30; X30 is the link register.
    pub x: [u64; 31],
    pub sp: u64,
    pub pc: u64,
    pub n: bool,
    pub z: bool,
    pub c: bool,
    pub v: bool,
    /// The 128-bit vector registers, low half first.
    pub vreg: [[u64; 2]; 32],
}

/// The registers and flags of a processor.
#[verifier::ext_equal]
pub struct CpuView {
    pub x: Seq<u64>,
    pub sp: u64,
    pub pc: u64,
    pub n: bool,
    pub z: bool,
    pub c: bool,
    pub v: bool,
    /// The vector registers as (low half, high half).
    pub vreg: Seq<(u64, u64)>,
}

impl View for Cpu {
    type V = CpuView;

    open spec fn view(&self) -> CpuView {
        CpuView {
            x: self.x@,
            sp: self.sp,
            pc: self.pc,
            n: self.n,
            z: self.z,
            c: self.c,
            v: self.v,
            vreg: Seq::new(32, |i: int| (self.vreg@[i]@[0], self.vreg@[i]@[1])),
        }
    }
}

impl CpuView {
    /// Register `n`; register 31 reads as 0.
    pub open spec fn reg(self, n: u32) -> u64 {
        if n >= 31 {
            0
        } else {
            self.x[n as int]
        }
    }

    /// The state with register `n` replaced; writes to register 31 are discarded.
    pub open spec fn with_reg(self, n: u32, v: u64) -> CpuView {
        if n < 31 {
            CpuView { x: self.x.update(n as int, v), ..self }
        } else {
            self
        }
    }

    /// Register `n`, where 31 is the stack pointer.
    pub open spec fn reg_sp(self, n: u32) -> u64 {
        if n == 31 {
            self.sp
        } else {
            self.x[n as int]
        }
    }

    /// The state with register `n` replaced, where 31 is the stack pointer.
    pub open spec fn with_reg_sp(self, n: u32, v: u64) -> CpuView {
        if n == 31 {
            CpuView { sp: v, ..self }
        } else {
            CpuView { x: self.x.update(n as int, v), ..self }
        }
    }

    pub open spec fn with_vector(self, n: u32, lo: u64, hi: u64) -> CpuView {
        CpuView { vreg: self.vreg.update(n as int, (lo, hi)), ..self }
    }

    pub open spec fn lo(self, n: u32) -> u64 {
        self.vreg[n as int].0
    }

    pub open spec fn hi(self, n: u32) -> u64 {
        self.vreg[n as int].1
    }

    pub open spec fn with_flags(self, n: bool, z: bool, c: bool, v: bool) -> CpuView {
        CpuView { n, z, c, v, ..self }
    }

    pub open spec fn with_pc(self, pc: u64) -> CpuView {
        CpuView { pc, ..self }
    }

    /// The state with the program counter at the next instruction.
    pub open spec fn advanced(self) -> CpuView {
        self.with_pc(self.pc.wrapping_add(4))
    }

    /// Whether the condition code `cond` holds.
    pub open spec fn cond(self, cond: u32) -> bool {
        let base = if cond / 2 == 0 {
            self.z
        } else if cond / 2 == 1 {
            self.c
        } else if cond / 2 == 2 {
            self.n
        } else if cond / 2 == 3 {
            self.v
        } else if cond / 2 == 4 {
            self.c && !self.z
        } else if cond / 2 == 5 {
            self.n == self.v
        } else if cond / 2 == 6 {
            self.n == self.v && !self.z
        } else {
            cond / 2 == 7
        };
        if cond % 2 == 1 && cond != 15 {
            !base
        } else {
            base
        }
    }
}

impl Cpu {
    /// A processor with every register and flag clear.
    pub fn new() -> (r: Cpu)
        ensures
            r@ == (CpuView {
                x: Seq::new(31, |i: int| 0u64),
                sp: 0,
                pc: 0,
                n: false,
                z: false,
                c: false,
                v: false,
                vreg: Seq::new(32, |i: int| (0u64, 0u64)),
            }),
    {
        let r = Cpu {
            x: [0u64; 31],
            sp: 0,
            pc: 0,
            n: false,
            z: false,
            c: false,
            v: false,
            vreg: [[0u64; 2]; 32],
        };
        assert(r@.x =~= Seq::new(31, |i: int| 0u64));
        assert(r@.vreg =~= Seq::new(32, |i: int| (0u64, 0u64)));
        r
    }

    /// Reads register `n`; register 31 reads as 0.
    pub fn reg(&self, n: u32) -> (r: u64)
        ensures
            r == self@.reg(n),
    {
        if n >= 31 {
            0
        } else {
            self.x[n as usize]
        }
    }

    /// Writes register `n`; writes to register 31 are discarded.
    pub fn set_reg(&mut self, n: u32, v: u64)
        ensures
            final(self)@ == old(self)@.with_reg(n, v),
    {
        if n < 31 {
            self.x[n as usize] = v;
        }
    }

    /// Reads register `n`, where 31 is the stack pointer.
    pub fn reg_sp(&self, n: u32) -> (r: u64)
        requires
            n <= 31,
        ensures
            r == self@.reg_sp(n),
    {
        if n == 31 {
            self.sp
        } else {
            self.x[n as usize]
        }
    }

    /// Writes register `n`, where 31 is the stack pointer.
    pub fn set_reg_sp(&mut self, n: u32, v: u64)
        requires
            n <= 31,
        ensures
            final(self)@ == old(self)@.with_reg_sp(n, v),
    {
        if n == 31 {
            self.sp = v;
        } else {
            self.x[n as usize] = v;
        }
    }

    pub fn lo(&self, n: u32) -> (r: u64)
        requires
            n <= 31,
        ensures
            r == self@.lo(n),
    {
        self.vreg[n as usize][0]
    }

    pub fn hi(&self, n: u32) -> (r: u64)
        requires
            n <= 31,
        ensures
            r == self@.hi(n),
    {
        self.vreg[n as usize][1]
    }

    pub fn set_vector(&mut self, n: u32, lo: u64, hi: u64)
        requires
            n <= 31,
        ensures
            final(self)@ == old(self)@.with_vector(n, lo, hi),
    {
        self.vreg[n as usize] = [lo, hi];
        assert(self@.vreg =~= old(self)@.vreg.update(n as int, (lo, hi)));
    }

    pub fn set_flags(&mut self, n: bool, z: bool, c: bool, v: bool)
        ensures
            final(self)@ == old(self)@.with_flags(n, z, c, v),
    {
        self.n = n;
        self.z = z;
        self.c = c;
        self.v = v;
    }

    pub fn set_pc(&mut self, pc: u64)
        ensures
            final(self)@ == old(self)@.with_pc(pc),
    {
        self.pc = pc;
    }

    pub fn advance(&mut self)
        ensures
            final(self)@ == old(self)@.advanced(),
    {
        self.pc = self.pc.wrapping_add(4);
    }

    /// Evaluates a condition code against the flags.
    pub fn cond_holds(&self, cond: u32) -> (r: bool)
        ensures
            r == self@.cond(cond),
    {
        let base = match cond / 2 {
            0 => self.z,
            1 => self.c,
            2 => self.n,
            3 => self.v,
            4 => self.c && !self.z,
            5 => self.n == self.v,
            6 => self.n == self.v && !self.z,
            7 => true,
            _ => false,
        };
        if cond % 2 == 1 && cond != 15 {
            !base
        } else {
            base
        }
    }
}

/// A register reads back what was written to it, and no other register changes; register 31 stays
/// zero.
pub proof fn lemma_register_read_after_write(c: CpuView, n: u32, m: u32, v: u64)
    requires
        c.x.len() == 31,
        n <= 31,
        m <= 31,
    ensures
        c.with_reg(n, v).reg(m) == (if m == n && n < 31 {
            v
        } else {
            c.reg(m)
        }),
        c.with_reg(n, v).reg(31) == 0,
        c.with_reg_sp(n, v).reg_sp(m) == (if m == n {
            v
        } else {
            c.reg_sp(m)
        }),
{
}

/// Each odd condition code is the negation of the even one below it, except that 15 holds always
/// as 14 does.
pub proof fn lemma_condition_pairs(c: CpuView, k: u32)
    requires
        k < 8,
    ensures
        k < 7 ==> c.cond((2 * k + 1) as u32) == !c.cond((2 * k) as u32),
        c.cond(14) && c.cond(15),
{
    assert((2 * k + 1) / 2 == k && (2 * k) / 2 == k);
}

} // verus!
