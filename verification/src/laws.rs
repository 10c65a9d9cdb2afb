//! General laws of the machine semantics, stated over [`step`] and proved
//! once for all states.

use vstd::prelude::*;

use crate::cpu::CpuView;
use crate::cpu::Fault;
use crate::cpu::Outcome;
use crate::cpu::step;
use crate::decode::Instruction;
use crate::decode::spec_decode;
use crate::decode::word_at;

verus! {

/// Whether an instruction is one of the three conditional skips.
pub open spec fn is_skip(i: Instruction) -> bool {
    match i {
        Instruction::SeImm(_, _) => true,
        Instruction::SneImm(_, _) => true,
        Instruction::SeReg(_, _) => true,
        _ => false,
    }
}

/// Whether a skip fetched in state `s` is satisfied, after the fetch advance
/// (skips read registers only, which the advance leaves alone).
pub open spec fn skip_taken(s: CpuView, i: Instruction) -> bool {
    match i {
        Instruction::SeImm(x, kk) => s.regs[x as int] == kk,
        Instruction::SneImm(x, kk) => s.regs[x as int] != kk,
        Instruction::SeReg(x, y) => s.regs[x as int] == s.regs[y as int],
        _ => false,
    }
}

/// Every non-skip, non-jump, non-call, non-return instruction advances the
/// program counter by exactly two: the fetch advance and nothing more. This
/// covers the halt word too, which stops the loop with the program counter
/// just past itself.
pub proof fn lemma_plain_pc_advance(s: CpuView)
    requires
        s.wf(),
        s.pc < 4095,
        (match spec_decode(word_at(s.mem, s.pc)) {
            Some(i) => match i {
                Instruction::Ret => false,
                Instruction::Jmp(_) => false,
                Instruction::Call(_) => false,
                _ => !is_skip(i),
            },
            None => false,
        }),
    ensures
        (match step(s) {
            Outcome::Stepped(t) => t.pc == s.pc + 2,
            Outcome::Halted(t) => t.pc == s.pc + 2,
            Outcome::Failed(_, _) => false,
        }),
{
}

/// A satisfied skip advances the program counter by exactly four; an
/// unsatisfied one by exactly two. Nothing else changes.
pub proof fn lemma_skip_pc_advance(s: CpuView)
    requires
        s.wf(),
        s.pc < 4095,
        (match spec_decode(word_at(s.mem, s.pc)) {
            Some(i) => is_skip(i),
            None => false,
        }),
    ensures
        (match step(s) {
            Outcome::Stepped(t) => {
                let i = spec_decode(word_at(s.mem, s.pc))->Some_0;
                &&& t.pc == s.pc + (if skip_taken(s, i) { 4int } else { 2int })
                &&& t.mem == s.mem
                &&& t.regs == s.regs
                &&& t.stack == s.stack
                &&& t.sp == s.sp
            },
            _ => false,
        }),
{
}

/// Call/return round trip: a CALL at program-counter value `s.pc` pushes
/// `s.pc + 2`, the address of the instruction immediately after it, and a
/// later RET that sees the same call stack resumes exactly there, at the
/// same stack depth as before the CALL. The states in between may be
/// anything that leaves the pushed entry and the depth alone, which the
/// strict LIFO discipline guarantees for any balanced stretch of code.
pub proof fn lemma_call_ret_round_trip(s: CpuView, t: CpuView)
    requires
        s.wf(),
        t.wf(),
        s.pc < 4095,
        s.sp < 16,
        (spec_decode(word_at(s.mem, s.pc)) matches Some(Instruction::Call(_))),
        t.pc < 4095,
        spec_decode(word_at(t.mem, t.pc)) == Some(Instruction::Ret),
        (step(s) matches Outcome::Stepped(u) ==> {
            &&& t.stack == u.stack
            &&& t.sp == u.sp
        }),
    ensures
        (step(s) matches Outcome::Stepped(u) && {
            &&& u.sp == s.sp + 1
            &&& u.stack[s.sp] == (s.pc + 2) as u16
        }),
        (match step(t) {
            Outcome::Stepped(v) => v.pc == s.pc + 2 && v.sp == s.sp,
            _ => false,
        }),
{
}

/// The bounds of the call stack are enforced: a CALL with all sixteen slots
/// in use fails with `StackOverflow`, and a RET with an empty stack fails
/// with `StackUnderflow`, each with no state change beyond the fetch
/// advance.
pub proof fn lemma_stack_bounds(s: CpuView)
    requires
        s.wf(),
        s.pc < 4095,
    ensures
        ((spec_decode(word_at(s.mem, s.pc)) matches Some(Instruction::Call(_))) && s.sp == 16
            ==> step(s) == Outcome::Failed(Fault::StackOverflow, s.with_pc(s.pc + 2))),
        (spec_decode(word_at(s.mem, s.pc)) == Some(Instruction::Ret) && s.sp == 0 ==> step(s)
            == Outcome::Failed(Fault::StackUnderflow, s.with_pc(s.pc + 2))),
{
}

/// Any word outside the dispatch table is fatal: the round fails with
/// `UnimplementedOpcode` carrying that very word, with no state change
/// beyond the fetch advance.
pub proof fn lemma_unimplemented_is_fatal(s: CpuView)
    requires
        s.wf(),
        s.pc < 4095,
        spec_decode(word_at(s.mem, s.pc)) is None,
    ensures
        step(s) == Outcome::Failed(
            Fault::UnimplementedOpcode(word_at(s.mem, s.pc)),
            s.with_pc(s.pc + 2),
        ),
{
}

} // verus!
