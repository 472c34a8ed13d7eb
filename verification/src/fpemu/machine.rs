//! Running the emulated program.
use crate::fpemu::cpu::CpuView;
use crate::fpemu::decode::branch::{branch, exec_branch};
use crate::fpemu::decode::dpimm::{dpimm, exec_dpimm};
use crate::fpemu::decode::dpreg::{dpreg, exec_dpreg};
use crate::fpemu::decode::ldst::{exec_load_store, load_store};
use crate::fpemu::decode::simd::{exec_simd, simd};
use crate::fpemu::fault::{Fault, MachineView};
use crate::fpemu::state::{State, StateView};
use crate::fpemu::stubs::{stub_effect, stub_of, unlisted};
use vstd::prelude::*;

verus! {

broadcast use vstd::std_specs::hash::group_hash_axioms;

/// How many instructions a program may run.
pub const INSTRUCTION_LIMIT: u64 = 100_000_000;

/// Why a run ended before the program halted.
#[derive(Clone, Copy, Debug, PartialEq, Eq, Structural)]
pub enum RunError {
    /// A library function failed.
    Stub(Fault),
    /// The instruction at `pc`, the `count`th of the run, failed.
    Step { pc: u64, count: u64, fault: Fault },
    /// The program ran longer than allowed, or a library function returned to itself.
    TooLong { pc: u64 },
}

/// A library function called by name and returned from.
pub open spec fn called(s: StateView, name: Seq<char>) -> (StateView, Result<(), Fault>) {
    match stub_effect(s, stub_of(name)) {
        Ok(after) => (after.returned(), Ok(())),
        Err(fault) => (s, Err(fault)),
    }
}

/// The unlisted function at the program counter, entered into the list and called.
pub open spec fn called_unlisted(s: StateView) -> (StateView, Result<(), Fault>) {
    let name = unlisted(s, s.cpu.pc);
    called(StateView { stubs: s.stubs.insert(s.cpu.pc, name), ..s }, name)
}

pub open spec fn with_cpu(s: StateView, r: Result<CpuView, Fault>) -> (
    StateView,
    Result<(), Fault>,
) {
    match r {
        Ok(cpu) => (StateView { cpu, ..s }, Ok(())),
        Err(fault) => (s, Err(fault)),
    }
}

pub open spec fn with_machine(s: StateView, r: Result<MachineView, Fault>) -> (
    StateView,
    Result<(), Fault>,
) {
    match r {
        Ok(m) => (StateView { cpu: m.cpu, mem: m.mem, ..s }, Ok(())),
        Err(fault) => (s, Err(fault)),
    }
}

/// Whether an instruction is a breakpoint, which stands for an unlisted function.
#[verifier::allow_in_spec]
pub fn is_breakpoint(inst: u32) -> bool
    returns
        inst & 0xFFE0_001F == 0xD420_0000,
{
    inst & 0xFFE0_001F == 0xD420_0000
}

/// An immediate data-processing instruction.
#[verifier::opaque]
pub open spec fn immediate_step(s: StateView, inst: u32) -> (StateView, Result<(), Fault>) {
    with_cpu(s, dpimm(s.cpu, inst))
}

/// A branch.
#[verifier::opaque]
pub open spec fn branch_step(s: StateView, inst: u32) -> (StateView, Result<(), Fault>) {
    with_cpu(s, branch(s.cpu, inst))
}

/// A load or a store.
#[verifier::opaque]
pub open spec fn memory_step(s: StateView, inst: u32) -> (StateView, Result<(), Fault>) {
    with_machine(s, load_store((MachineView { cpu: s.cpu, mem: s.mem }), inst))
}

/// A data-processing instruction on registers.
#[verifier::opaque]
pub open spec fn register_step(s: StateView, inst: u32) -> (StateView, Result<(), Fault>) {
    with_cpu(s, dpreg(s.cpu, inst))
}

/// A vector instruction.
#[verifier::opaque]
pub open spec fn vector_step(s: StateView, inst: u32) -> (StateView, Result<(), Fault>) {
    with_cpu(s, simd(s.cpu, inst))
}

/// One instruction: the state after it, and whether it failed.
#[verifier::opaque]
pub open spec fn stepped(s: StateView, inst: u32) -> (StateView, Result<(), Fault>) {
    let op0 = (inst >> 25) & 0xF;
    if is_breakpoint(inst) {
        called_unlisted(s)
    } else if op0 >> 1 == 4 {
        immediate_step(s, inst)
    } else if op0 >> 1 == 5 {
        branch_step(s, inst)
    } else if op0 & 5 == 4 {
        memory_step(s, inst)
    } else if op0 & 7 == 5 {
        register_step(s, inst)
    } else if op0 & 7 == 7 {
        vector_step(s, inst)
    } else {
        (s, Err(Fault::UnhandledOp0 { op0, inst }))
    }
}

/// The course of a run from a state, `count` instructions into it, until the program counter
/// reaches `halt_pc`: the state it ends in, and whether it failed.
pub open spec fn run_from(s: StateView, halt_pc: u64, count: nat) -> (
    StateView,
    Result<(), RunError>,
)
    decreases
            if count > INSTRUCTION_LIMIT {
                0
            } else {
                INSTRUCTION_LIMIT + 1 - count
            },
            if s.cpu.pc == s.x(30) {
                0int
            } else {
                1
            },
{
    let pc = s.cpu.pc;
    if pc == halt_pc {
        (s, Ok(()))
    } else if s.stubs.contains_key(pc) || (s.mem.fetchable(pc) && s.mem.inst(pc) == 0) {
        let (after, r) = if s.stubs.contains_key(pc) {
            called(s, s.stubs[pc])
        } else {
            called_unlisted(s)
        };
        match r {
            Err(fault) => (after, Err(RunError::Stub(fault))),
            Ok(_) => if pc == s.x(30) {
                (after, Err(RunError::TooLong { pc }))
            } else {
                run_from(after, halt_pc, count + 1)
            },
        }
    } else if !s.mem.fetchable(pc) {
        (s, Err(RunError::Step { pc, count: count as u64, fault: Fault::Unfetchable { pc } }))
    } else {
        let (after, r) = stepped(s, s.mem.inst(pc));
        match r {
            Err(fault) => (after, Err(RunError::Step { pc, count: count as u64, fault })),
            Ok(_) => if count >= INSTRUCTION_LIMIT {
                (after, Err(RunError::TooLong { pc: after.cpu.pc }))
            } else {
                run_from(after, halt_pc, count + 1)
            },
        }
    }
}

fn call(s: &mut State, name: &str) -> (r: Result<(), Fault>)
    requires
        old(s).wf(),
    ensures
        final(s).wf(),
        (final(s)@, r) == called(old(s)@, name@),
{
    s.handle_stub(name)?;
    s.cpu.pc = s.cpu.x[30];
    Ok(())
}

fn call_unlisted(s: &mut State) -> (r: Result<(), Fault>)
    requires
        old(s).wf(),
    ensures
        final(s).wf(),
        (final(s)@, r) == called_unlisted(old(s)@),
{
    let pc: u64 = s.cpu.pc;
    let name = s.dyn_stub_classify(pc);
    s.add_stub(pc, name.to_owned());
    call(s, name)
}

fn step_immediate(s: &mut State, inst: u32) -> (r: Result<(), Fault>)
    requires
        old(s).wf(),
    ensures
        final(s).wf(),
        (final(s)@, r) == immediate_step(old(s)@, inst),
{
    proof {
        reveal(immediate_step);
    }
    exec_dpimm(&mut s.cpu, inst)?;
    Ok(())
}

fn step_branch(s: &mut State, inst: u32) -> (r: Result<(), Fault>)
    requires
        old(s).wf(),
    ensures
        final(s).wf(),
        (final(s)@, r) == branch_step(old(s)@, inst),
{
    proof {
        reveal(branch_step);
    }
    exec_branch(&mut s.cpu, inst)?;
    Ok(())
}

fn step_memory(s: &mut State, inst: u32) -> (r: Result<(), Fault>)
    requires
        old(s).wf(),
    ensures
        final(s).wf(),
        (final(s)@, r) == memory_step(old(s)@, inst),
{
    proof {
        reveal(memory_step);
    }
    exec_load_store(&mut s.cpu, &mut s.mem, inst)?;
    Ok(())
}

fn step_register(s: &mut State, inst: u32) -> (r: Result<(), Fault>)
    requires
        old(s).wf(),
    ensures
        final(s).wf(),
        (final(s)@, r) == register_step(old(s)@, inst),
{
    proof {
        reveal(register_step);
    }
    exec_dpreg(&mut s.cpu, inst)?;
    Ok(())
}

fn step_vector(s: &mut State, inst: u32) -> (r: Result<(), Fault>)
    requires
        old(s).wf(),
    ensures
        final(s).wf(),
        (final(s)@, r) == vector_step(old(s)@, inst),
{
    proof {
        reveal(vector_step);
    }
    exec_simd(&mut s.cpu, inst)?;
    Ok(())
}

/// Executes one instruction.
pub fn step(s: &mut State, inst: u32) -> (r: Result<(), Fault>)
    requires
        old(s).wf(),
    ensures
        final(s).wf(),
        (final(s)@, r) == stepped(old(s)@, inst),
{
    proof {
        reveal(stepped);
    }
    if is_breakpoint(inst) {
        return call_unlisted(s);
    }
    let op0: u32 = (inst >> 25) & 0xF;
    if op0 >> 1 == 4 {
        return step_immediate(s, inst);
    }
    if op0 >> 1 == 5 {
        return step_branch(s, inst);
    }
    if op0 & 5 == 4 {
        return step_memory(s, inst);
    }
    if op0 & 7 == 5 {
        return step_register(s, inst);
    }
    if op0 & 7 == 7 {
        return step_vector(s, inst);
    }
    Err(Fault::UnhandledOp0 { op0, inst })
}

/// Runs the program until the program counter reaches `halt_pc`.
pub fn run(s: &mut State, halt_pc: u64) -> (r: Result<(), RunError>)
    requires
        old(s).wf(),
    ensures
        final(s).wf(),
        (final(s)@, r) == run_from(old(s)@, halt_pc, 0),
{
    let ghost start = s@;
    let mut count: u64 = 0;
    while s.cpu.pc != halt_pc
        invariant
            s.wf(),
            start == old(s)@,
            count <= INSTRUCTION_LIMIT + 1,
            count == INSTRUCTION_LIMIT + 1 ==> s@.cpu.pc == s@.x(30),
            run_from(start, halt_pc, 0) == run_from(s@, halt_pc, count as nat),
        decreases
                if count > INSTRUCTION_LIMIT {
                    0
                } else {
                    INSTRUCTION_LIMIT + 1 - count
                },
                if s@.cpu.pc == s@.x(30) {
                    0int
                } else {
                    1
                },
    {
        let pc: u64 = s.cpu.pc;
        let ghost before = s@;
        let loops: bool = pc == s.cpu.x[30];
        let listed: Option<String> = match s.stubs.get(&pc) {
            Some(name) => Some(name.clone()),
            None => None,
        };
        assert(before.stubs.contains_key(pc) <==> listed is Some);
        assert(listed matches Some(name) ==> name@ == before.stubs[pc]);
        if listed.is_some() || (s.mem.can_fetch(pc) && s.mem.fetch_inst(pc) == 0) {
            let r = match listed {
                Some(name) => call(s, name.as_str()),
                None => call_unlisted(s),
            };
            match r {
                Err(fault) => {
                    return Err(RunError::Stub(fault));
                },
                Ok(_) => {},
            }
            if loops {
                return Err(RunError::TooLong { pc });
            }
            count += 1;
        } else if !s.mem.can_fetch(pc) {
            return Err(RunError::Step { pc, count, fault: Fault::Unfetchable { pc } });
        } else {
            let inst: u32 = s.mem.fetch_inst(pc);
            match step(s, inst) {
                Err(fault) => {
                    return Err(RunError::Step { pc, count, fault });
                },
                Ok(_) => {},
            }
            if count >= INSTRUCTION_LIMIT {
                return Err(RunError::TooLong { pc: s.cpu.pc });
            }
            count += 1;
        }
    }
    Ok(())
}

} // verus!
