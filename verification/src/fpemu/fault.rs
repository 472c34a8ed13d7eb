//! Why an instruction could not be executed.
use crate::fpemu::cpu::CpuView;
use crate::fpemu::mem::MemView;
use vstd::prelude::*;

verus! {

/// Why the interpreter stopped.
#[derive(Clone, Copy, Debug, PartialEq, Eq, Structural)]
pub enum Fault {
    /// The top-level operation field names no instruction class.
    UnhandledOp0 { op0: u32, inst: u32 },
    UnhandledDpImm { op0: u32, inst: u32 },
    ReservedMoveWide { opc: u32 },
    ReservedBitfield { opc: u32 },
    /// A 32-bit bitfield or extract names a bit position beyond the register.
    ReservedPosition { inst: u32 },
    UnhandledDpReg { top5: u32, inst: u32 },
    Unhandled11010 { sub: u32, inst: u32 },
    UnhandledDp2 { opcode: u32, inst: u32 },
    UnhandledDp1 { opcode: u32, inst: u32 },
    UnhandledDp3 { op31: u32, inst: u32 },
    UnhandledBranch { inst: u32 },
    UnhandledBranchReg { opc: u32, inst: u32 },
    UnhandledLoadStore { op1: u32, v: u32, inst: u32 },
    ReservedIndex { idx_type: u32 },
    ReservedPair { opc: u32 },
    ReservedPairType { pair_type: u32 },
    ReservedSimdIndex { idx_type: u32 },
    ReservedSimdPair { opc: u32 },
    ReservedSimdPairType { pair_type: u32 },
    UnhandledSimd { inst: u32 },
    UnhandledSimd3Same { opcode: u32, u: u32, inst: u32 },
    /// The program called `abort` from the given return address.
    Abort { lr: u64 },
    /// The program counter points at an instruction that straddles two pages, or is cut short at the
    /// end of the code region.
    Unfetchable { pc: u64 },
    /// The program asked for more keystream than a cipher gives.
    KeystreamEnd,
}

/// The processor and its memory.
#[verifier::ext_equal]
pub struct MachineView {
    pub cpu: CpuView,
    pub mem: MemView,
}

/// An instruction that touches the processor only either reached the expected state, or faulted
/// as expected and changed nothing.
pub open spec fn cpu_outcome(
    r: Result<(), Fault>,
    expected: Result<CpuView, Fault>,
    before: CpuView,
    after: CpuView,
) -> bool {
    match expected {
        Ok(state) => r is Ok && after == state,
        Err(fault) => r == Err::<(), Fault>(fault) && after == before,
    }
}

/// An instruction either reached the expected state, or faulted as expected and changed nothing.
pub open spec fn machine_outcome(
    r: Result<(), Fault>,
    expected: Result<MachineView, Fault>,
    before: MachineView,
    after: MachineView,
) -> bool {
    match expected {
        Ok(state) => r is Ok && after == state,
        Err(fault) => r == Err::<(), Fault>(fault) && after == before,
    }
}

} // verus!
