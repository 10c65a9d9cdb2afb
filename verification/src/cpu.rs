//! The machine state and the fetch-decode-execute engine.
//!
//! [`CpuView`] is the mathematical model of the state; [`step`] gives the
//! machine's small-step semantics over it, and [`run_n`] iterates [`step`].
//! The run loop and every instruction handler are specified and proved
//! against these functions.

use vstd::prelude::*;

use crate::decode::Instruction;
use crate::decode::decode;
use crate::decode::spec_decode;
use crate::decode::word_at;

verus! {

/// A fatal condition: it stops the run loop, which performs no further state
/// mutation and reports the condition to the caller.
#[derive(Clone, Copy, PartialEq, Eq, Structural, Debug)]
pub enum Fault {
    /// CALL attempted with all 16 call-stack slots in use.
    StackOverflow,
    /// RET attempted with an empty call stack.
    StackUnderflow,
    /// The fetched word matches no entry of the dispatch table; carries the
    /// offending word for diagnostics.
    UnimplementedOpcode(u16),
    /// The program counter leaves no room for a two-byte fetch.
    FetchOutOfBounds,
}

/// How a bounded run ended.
#[derive(Clone, Copy, PartialEq, Eq, Structural, Debug)]
pub enum RunStatus {
    /// The halt word was fetched; the program ended cleanly.
    Halted,
    /// A fatal condition stopped the loop.
    Faulted(Fault),
    /// The step budget ran out before a halt or a fault.
    OutOfSteps,
}

/// The machine state: memory image, program counter, registers and call
/// stack.
///
/// Every field is caller-writable before a run; a program is loaded by poking
/// raw instruction bytes directly into `mem` and seeding registers.
pub struct Cpu {
    /// Flat memory image; instructions are two bytes each, big-endian, and
    /// may sit at any offset.
    pub mem: [u8; 4096],
    /// Offset in `mem` of the next instruction to fetch.
    pub pos_in_mem: usize,
    /// The 16 general-purpose 8-bit registers.
    pub registers: [u8; 16],
    /// Return addresses pushed by CALL; slots at index `stack_ptr` and above
    /// are free.
    pub stack: [u16; 16],
    /// Number of call-stack slots in use.
    pub stack_ptr: usize,
}

/// Mathematical model of the machine state.
#[verifier::ext_equal]
pub struct CpuView {
    pub mem: Seq<u8>,
    pub pc: int,
    pub regs: Seq<u8>,
    pub stack: Seq<u16>,
    pub sp: int,
}

impl CpuView {
    /// Well-formedness: the fixed sizes, and the stack pointer within its
    /// bounds. The program counter is only bounded below; a fetch past the
    /// end of memory is a runtime fault, not an excluded state.
    pub open spec fn wf(self) -> bool {
        &&& self.mem.len() == 4096
        &&& self.regs.len() == 16
        &&& self.stack.len() == 16
        &&& 0 <= self.pc
        &&& 0 <= self.sp <= 16
    }

    /// The same state with the program counter at `pc`.
    pub open spec fn with_pc(self, pc: int) -> CpuView {
        CpuView { pc, ..self }
    }

    /// The same state with register `x` set to `v`.
    pub open spec fn with_reg(self, x: int, v: u8) -> CpuView {
        CpuView { regs: self.regs.update(x, v), ..self }
    }

    /// The state after pushing the current program counter and jumping to
    /// `addr`: what CALL does when the stack has a free slot.
    pub open spec fn pushed(self, addr: u16) -> CpuView {
        CpuView {
            stack: self.stack.update(self.sp, self.pc as u16),
            sp: self.sp + 1,
            pc: addr as int,
            ..self
        }
    }

    /// The state after popping the most recent return address into the
    /// program counter: what RET does when the stack is not empty.
    pub open spec fn popped(self) -> CpuView {
        CpuView { sp: self.sp - 1, pc: self.stack[self.sp - 1] as int, ..self }
    }
}

impl View for Cpu {
    type V = CpuView;

    open spec fn view(&self) -> CpuView {
        CpuView {
            mem: self.mem@,
            pc: self.pos_in_mem as int,
            regs: self.registers@,
            stack: self.stack@,
            sp: self.stack_ptr as int,
        }
    }
}

/// 8-bit addition wrapping modulo 256; no carry flag is modeled.
pub open spec fn wrap_add(a: u8, b: u8) -> u8 {
    (((a + b) % 256) as u8)
}

/// What one fetch-decode-execute round does to a machine state.
#[verifier::ext_equal]
pub enum Outcome {
    /// The halt word was fetched; the loop stops in this state.
    Halted(CpuView),
    /// A fatal condition arose; the loop stops in this state.
    Failed(Fault, CpuView),
    /// An instruction executed; the loop goes on from this state.
    Stepped(CpuView),
}

/// The small-step semantics: fetch the word at the program counter, advance
/// the program counter by two, and apply the decoded instruction.
///
/// A fetch needs two bytes, so a program counter above `4094` is a
/// [`Fault::FetchOutOfBounds`] with the state unchanged. Every other fault
/// leaves the state as it was after the fetch advance, with no effect of the
/// faulting instruction applied.
pub open spec fn step(s: CpuView) -> Outcome {
    if s.pc >= 4095 {
        Outcome::Failed(Fault::FetchOutOfBounds, s)
    } else {
        let w = word_at(s.mem, s.pc);
        let t = s.with_pc(s.pc + 2);
        match spec_decode(w) {
            None => Outcome::Failed(Fault::UnimplementedOpcode(w), t),
            Some(i) => match i {
                Instruction::Halt => Outcome::Halted(t),
                Instruction::Cls => Outcome::Stepped(t),
                Instruction::Ret => if t.sp == 0 {
                    Outcome::Failed(Fault::StackUnderflow, t)
                } else {
                    Outcome::Stepped(t.popped())
                },
                Instruction::Jmp(a) => Outcome::Stepped(t.with_pc(a as int)),
                Instruction::Call(a) => if t.sp == 16 {
                    Outcome::Failed(Fault::StackOverflow, t)
                } else {
                    Outcome::Stepped(t.pushed(a))
                },
                Instruction::SeImm(x, kk) => Outcome::Stepped(
                    if t.regs[x as int] == kk {
                        t.with_pc(t.pc + 2)
                    } else {
                        t
                    },
                ),
                Instruction::SneImm(x, kk) => Outcome::Stepped(
                    if t.regs[x as int] != kk {
                        t.with_pc(t.pc + 2)
                    } else {
                        t
                    },
                ),
                Instruction::SeReg(x, y) => Outcome::Stepped(
                    if t.regs[x as int] == t.regs[y as int] {
                        t.with_pc(t.pc + 2)
                    } else {
                        t
                    },
                ),
                Instruction::LdImm(x, kk) => Outcome::Stepped(t.with_reg(x as int, kk)),
                Instruction::AddImm(x, kk) => Outcome::Stepped(
                    t.with_reg(x as int, wrap_add(t.regs[x as int], kk)),
                ),
                Instruction::LdReg(x, y) => Outcome::Stepped(
                    t.with_reg(x as int, t.regs[y as int]),
                ),
                Instruction::Or(x, y) => Outcome::Stepped(
                    t.with_reg(x as int, t.regs[x as int] | t.regs[y as int]),
                ),
                Instruction::And(x, y) => Outcome::Stepped(
                    t.with_reg(x as int, t.regs[x as int] & t.regs[y as int]),
                ),
                Instruction::Xor(x, y) => Outcome::Stepped(
                    t.with_reg(x as int, t.regs[x as int] ^ t.regs[y as int]),
                ),
                Instruction::AddReg(x, y) => Outcome::Stepped(
                    t.with_reg(x as int, wrap_add(t.regs[x as int], t.regs[y as int])),
                ),
            },
        }
    }
}

/// The machine run for at most `n` rounds: a halt or a fault within the
/// first `n` rounds is final, otherwise the state the `n`-th round reaches.
pub open spec fn run_n(s: CpuView, n: nat) -> Outcome
    decreases n,
{
    if n == 0 {
        Outcome::Stepped(s)
    } else {
        match step(s) {
            Outcome::Stepped(t) => run_n(t, (n - 1) as nat),
            o => o,
        }
    }
}

/// Reaching a state in `n` rounds and stepping once more is reaching
/// whatever one round from there gives, in `n + 1` rounds.
pub proof fn lemma_run_n_extend(s0: CpuView, n: nat, s1: CpuView)
    requires
        run_n(s0, n) == Outcome::Stepped(s1),
    ensures
        run_n(s0, n + 1) == step(s1),
    decreases n,
{
    if n == 0 {
        assert(s1 == s0);
        match step(s0) {
            Outcome::Stepped(t) => {
                assert(run_n(t, 0) == Outcome::Stepped(t));
            },
            _ => {},
        }
    } else {
        match step(s0) {
            Outcome::Stepped(t) => {
                lemma_run_n_extend(t, (n - 1) as nat, s1);
            },
            _ => {},
        }
    }
}

impl Cpu {
    /// A machine in its default state: all memory, registers and stack slots
    /// zero, the program counter at zero, the call stack empty.
    pub fn new() -> (c: Cpu)
        ensures
            c@.wf(),
            c@.pc == 0,
            c@.sp == 0,
            forall|i: int| 0 <= i < 4096 ==> c@.mem[i] == 0,
            forall|i: int| 0 <= i < 16 ==> c@.regs[i] == 0,
            forall|i: int| 0 <= i < 16 ==> c@.stack[i] == 0,
    {
        Cpu {
            mem: [0u8; 4096],
            pos_in_mem: 0,
            registers: [0u8; 16],
            stack: [0u16; 16],
            stack_ptr: 0,
        }
    }

    /// `registers[vx] := kk`.
    pub fn ld(&mut self, vx: u8, kk: u8)
        requires
            vx < 16,
        ensures
            final(self)@ == old(self)@.with_reg(vx as int, kk),
    {
        self.registers[vx as usize] = kk;
        proof {
            assert(self@ =~= old(self)@.with_reg(vx as int, kk));
        }
    }

    /// `registers[vx] := registers[vx] + kk`, wrapping modulo 256.
    pub fn add(&mut self, vx: u8, kk: u8)
        requires
            vx < 16,
        ensures
            final(self)@ == old(self)@.with_reg(
                vx as int,
                wrap_add(old(self)@.regs[vx as int], kk),
            ),
    {
        let sum: u16 = self.registers[vx as usize] as u16 + kk as u16;
        self.registers[vx as usize] = (sum % 256) as u8;
        proof {
            assert(self@ =~= old(self)@.with_reg(
                vx as int,
                wrap_add(old(self)@.regs[vx as int], kk),
            ));
        }
    }

    /// `registers[x] := registers[x] + registers[y]`, wrapping modulo 256.
    pub fn add_xy(&mut self, x: u8, y: u8)
        requires
            x < 16,
            y < 16,
        ensures
            final(self)@ == old(self)@.with_reg(
                x as int,
                wrap_add(old(self)@.regs[x as int], old(self)@.regs[y as int]),
            ),
    {
        let vy = self.registers[y as usize];
        self.add(x, vy);
    }

    /// `registers[x] := registers[x] & registers[y]`.
    pub fn and_xy(&mut self, x: u8, y: u8)
        requires
            x < 16,
            y < 16,
        ensures
            final(self)@ == old(self)@.with_reg(
                x as int,
                old(self)@.regs[x as int] & old(self)@.regs[y as int],
            ),
    {
        let x_ = self.registers[x as usize];
        let y_ = self.registers[y as usize];
        self.registers[x as usize] = x_ & y_;
        proof {
            assert(self@ =~= old(self)@.with_reg(
                x as int,
                old(self)@.regs[x as int] & old(self)@.regs[y as int],
            ));
        }
    }

    /// `registers[x] := registers[x] | registers[y]`.
    pub fn or_xy(&mut self, x: u8, y: u8)
        requires
            x < 16,
            y < 16,
        ensures
            final(self)@ == old(self)@.with_reg(
                x as int,
                old(self)@.regs[x as int] | old(self)@.regs[y as int],
            ),
    {
        let x_ = self.registers[x as usize];
        let y_ = self.registers[y as usize];
        self.registers[x as usize] = x_ | y_;
        proof {
            assert(self@ =~= old(self)@.with_reg(
                x as int,
                old(self)@.regs[x as int] | old(self)@.regs[y as int],
            ));
        }
    }

    /// `registers[x] := registers[x] ^ registers[y]`.
    pub fn xor_xy(&mut self, x: u8, y: u8)
        requires
            x < 16,
            y < 16,
        ensures
            final(self)@ == old(self)@.with_reg(
                x as int,
                old(self)@.regs[x as int] ^ old(self)@.regs[y as int],
            ),
    {
        let x_ = self.registers[x as usize];
        let y_ = self.registers[y as usize];
        self.registers[x as usize] = x_ ^ y_;
        proof {
            assert(self@ =~= old(self)@.with_reg(
                x as int,
                old(self)@.regs[x as int] ^ old(self)@.regs[y as int],
            ));
        }
    }

    /// Skip the next instruction if `registers[vx] == kk`: a satisfied skip
    /// advances the program counter by two beyond the normal fetch advance.
    pub fn se(&mut self, vx: u8, kk: u8)
        requires
            vx < 16,
            old(self).pos_in_mem + 2 <= usize::MAX,
        ensures
            final(self)@ == (if old(self)@.regs[vx as int] == kk {
                old(self)@.with_pc(old(self)@.pc + 2)
            } else {
                old(self)@
            }),
    {
        if self.registers[vx as usize] == kk {
            self.pos_in_mem += 2;
            proof {
                assert(self@ =~= old(self)@.with_pc(old(self)@.pc + 2));
            }
        }
    }

    /// Skip the next instruction if `registers[vx] != kk`.
    pub fn sne(&mut self, vx: u8, kk: u8)
        requires
            vx < 16,
            old(self).pos_in_mem + 2 <= usize::MAX,
        ensures
            final(self)@ == (if old(self)@.regs[vx as int] != kk {
                old(self)@.with_pc(old(self)@.pc + 2)
            } else {
                old(self)@
            }),
    {
        if self.registers[vx as usize] != kk {
            self.pos_in_mem += 2;
            proof {
                assert(self@ =~= old(self)@.with_pc(old(self)@.pc + 2));
            }
        }
    }

    /// Program counter := `addr`.
    pub fn jmp(&mut self, addr: u16)
        ensures
            final(self)@ == old(self)@.with_pc(addr as int),
    {
        self.pos_in_mem = addr as usize;
        proof {
            assert(self@ =~= old(self)@.with_pc(addr as int));
        }
    }

    /// Push the current program counter onto the call stack and jump to
    /// `addr`. The caller rules out a full stack and a program counter too
    /// large for a return-address slot.
    pub fn call(&mut self, addr: u16)
        requires
            old(self).stack_ptr < 16,
            old(self).pos_in_mem <= u16::MAX,
        ensures
            final(self)@ == old(self)@.pushed(addr),
    {
        self.stack[self.stack_ptr] = self.pos_in_mem as u16;
        self.stack_ptr = self.stack_ptr + 1;
        self.pos_in_mem = addr as usize;
        proof {
            assert(self@ =~= old(self)@.pushed(addr));
        }
    }

    /// Pop the most recently pushed return address into the program counter.
    /// The caller rules out an empty stack.
    pub fn ret(&mut self)
        requires
            0 < old(self).stack_ptr <= 16,
        ensures
            final(self)@ == old(self)@.popped(),
    {
        self.stack_ptr = self.stack_ptr - 1;
        self.pos_in_mem = self.stack[self.stack_ptr] as usize;
        proof {
            assert(self@ =~= old(self)@.popped());
        }
    }

    /// Run the fetch-decode-execute loop until the halt word is fetched or a
    /// fatal condition arises, for at most `max_steps` rounds.
    ///
    /// The loop itself never returns for any reason but a halt or a fault;
    /// the budget exists because every run must provably end, and a loaded
    /// program may cycle forever. A caller that trusts its program gives a
    /// budget past the program's length and treats [`RunStatus::OutOfSteps`]
    /// as the program cycling.
    ///
    /// The result and the final state are pinned by the semantics: a halt or
    /// a fault is exactly what some number of rounds (at most `max_steps`)
    /// from the starting state reaches, and a spent budget leaves the state
    /// exactly `max_steps` rounds along.
    pub fn run(&mut self, max_steps: u64) -> (r: RunStatus)
        requires
            old(self)@.wf(),
        ensures
            final(self)@.wf(),
            (match r {
                RunStatus::Halted => exists|n: nat|
                    n <= max_steps && run_n(old(self)@, n) == Outcome::Halted(final(self)@),
                RunStatus::Faulted(f) => exists|n: nat|
                    n <= max_steps && run_n(old(self)@, n) == Outcome::Failed(f, final(self)@),
                RunStatus::OutOfSteps => run_n(old(self)@, max_steps as nat) == Outcome::Stepped(
                    final(self)@,
                ),
            }),
    {
        let mut left: u64 = max_steps;
        loop
            invariant
                self@.wf(),
                left <= max_steps,
                run_n(old(self)@, (max_steps - left) as nat) == Outcome::Stepped(self@),
            decreases left,
        {
            if left == 0 {
                return RunStatus::OutOfSteps;
            }
            left = left - 1;
            let ghost s0 = self@;
            let ghost n0 = (max_steps - left - 1) as nat;
            proof {
                lemma_run_n_extend(old(self)@, n0, s0);
            }
            if self.pos_in_mem >= 4095 {
                proof {
                    assert(run_n(old(self)@, n0 + 1) == Outcome::Failed(
                        Fault::FetchOutOfBounds,
                        self@,
                    ));
                }
                return RunStatus::Faulted(Fault::FetchOutOfBounds);
            }
            let b1 = self.mem[self.pos_in_mem];
            let b2 = self.mem[self.pos_in_mem + 1];
            let w: u16 = ((b1 as u16) << 8) | (b2 as u16);
            self.pos_in_mem += 2;
            let ghost s1 = s0.with_pc(s0.pc + 2);
            proof {
                assert(w == word_at(s0.mem, s0.pc));
                assert(self@ =~= s1);
            }
            match decode(w) {
                None => {
                    proof {
                        assert(run_n(old(self)@, n0 + 1) == Outcome::Failed(
                            Fault::UnimplementedOpcode(w),
                            self@,
                        ));
                    }
                    return RunStatus::Faulted(Fault::UnimplementedOpcode(w));
                },
                Some(i) => match i {
                    Instruction::Halt => {
                        proof {
                            assert(run_n(old(self)@, n0 + 1) == Outcome::Halted(self@));
                        }
                        return RunStatus::Halted;
                    },
                    Instruction::Cls => {},
                    Instruction::Ret => {
                        if self.stack_ptr == 0 {
                            proof {
                                assert(run_n(old(self)@, n0 + 1) == Outcome::Failed(
                                    Fault::StackUnderflow,
                                    self@,
                                ));
                            }
                            return RunStatus::Faulted(Fault::StackUnderflow);
                        }
                        self.ret();
                    },
                    Instruction::Jmp(a) => {
                        self.jmp(a);
                    },
                    Instruction::Call(a) => {
                        if self.stack_ptr == 16 {
                            proof {
                                assert(run_n(old(self)@, n0 + 1) == Outcome::Failed(
                                    Fault::StackOverflow,
                                    self@,
                                ));
                            }
                            return RunStatus::Faulted(Fault::StackOverflow);
                        }
                        self.call(a);
                    },
                    Instruction::SeImm(x, kk) => {
                        self.se(x, kk);
                    },
                    Instruction::SneImm(x, kk) => {
                        self.sne(x, kk);
                    },
                    Instruction::SeReg(x, y) => {
                        let vy = self.registers[y as usize];
                        self.se(x, vy);
                    },
                    Instruction::LdImm(x, kk) => {
                        self.ld(x, kk);
                    },
                    Instruction::AddImm(x, kk) => {
                        self.add(x, kk);
                    },
                    Instruction::LdReg(x, y) => {
                        let vy = self.registers[y as usize];
                        self.ld(x, vy);
                    },
                    Instruction::Or(x, y) => {
                        self.or_xy(x, y);
                    },
                    Instruction::And(x, y) => {
                        self.and_xy(x, y);
                    },
                    Instruction::Xor(x, y) => {
                        self.xor_xy(x, y);
                    },
                    Instruction::AddReg(x, y) => {
                        self.add_xy(x, y);
                    },
                },
            }
            proof {
                assert(step(s0) == Outcome::Stepped(self@));
                assert(run_n(old(self)@, n0 + 1) == Outcome::Stepped(self@));
            }
        }
    }
}

} // verus!
