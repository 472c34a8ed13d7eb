//! Decoding and execution of single instructions.
pub mod branch;
pub mod dpimm;
pub mod dpreg;
pub mod ldst;
pub mod simd;
pub mod simd_ldst;

use vstd::prelude::*;

verus! {

/// The destination register field.
#[verifier::allow_in_spec]
pub fn rd(inst: u32) -> u32
    returns
        inst & 0x1F,
{
    inst & 0x1F
}

/// The first operand register field.
#[verifier::allow_in_spec]
pub fn rn(inst: u32) -> u32
    returns
        (inst >> 5) & 0x1F,
{
    (inst >> 5) & 0x1F
}

/// The second operand register field.
#[verifier::allow_in_spec]
pub fn rm(inst: u32) -> u32
    returns
        (inst >> 16) & 0x1F,
{
    (inst >> 16) & 0x1F
}

/// The width field: set for 64 bits, clear for 32.
#[verifier::allow_in_spec]
pub fn sf(inst: u32) -> bool
    returns
        inst >> 31 != 0,
{
    inst >> 31 != 0
}

} // verus!
