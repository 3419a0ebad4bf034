//! The register-based virtual machine.
//!
//! The machine holds a 32-slot register file of signed 32-bit values, a
//! program counter, a remainder register set by division, one shared
//! comparison flag, one shared loop counter, and a call stack of saved
//! `(return address, base pointer)` pairs. Execution fetches the
//! instruction at the program counter and interprets it as exactly one of
//! three control effects: halt, advance, or jump. Run-time faults (stack
//! underflow on `RET`, division by zero, a program counter outside the
//! instruction sequence, a register index outside the register file) stop
//! the machine with an observable fault instead of crashing.
//!
//! The whole step relation is written out as the specification function
//! [`vm_step`]; `execute_instruction` is proved to implement it exactly,
//! and `run` is proved to stop only in a state reachable from the starting
//! state by iterating that relation.

use vstd::prelude::*;

use crate::instruction::Instruction;

verus! {

/// The number of slots in the register file.
pub const REGISTER_COUNT: usize = 32;

/// A run-time machine fault. Faults are fatal by design: the machine is a
/// bare-metal-style interpreter, not a managed sandbox, but every fault is
/// reported as a value rather than crashing the embedding process.
#[derive(Debug, Clone, Copy, PartialEq, Eq, Structural)]
pub enum VmFault {
    /// `RET` executed with no matching `CALL` frame on the stack.
    StackUnderflow,
    /// `DIV` with a zero divisor register.
    DivideByZero,
    /// The program counter does not index the instruction sequence.
    PcOutOfRange,
    /// A register operand does not index the register file.
    RegisterOutOfRange,
}

/// The control effect of executing one instruction.
#[derive(Debug, Clone, Copy, PartialEq, Eq, Structural)]
pub enum Step {
    /// Stop normally (`HLT`, or an unrecognized opcode).
    Halt,
    /// Advance the program counter by one.
    PCNext,
    /// Set the program counter to an explicit target.
    PCSet(usize),
    /// Stop with a fatal machine fault.
    Fault(VmFault),
}

/// The mathematical state of the machine: the view of [`VM`].
pub struct VmState {
    pub ir: Seq<i32>,
    pub pc: usize,
    pub sp: usize,
    pub bp: usize,
    pub running: bool,
    pub remainder: i32,
    pub compare_flag: bool,
    pub loop_counter: usize,
    pub stack: Seq<usize>,
    pub instructions: Seq<Instruction>,
}

/// The quotient written by `DIV`: truncating division, wrapping on the one
/// overflowing case (`i32::MIN / -1`). The divisor must be ruled out as
/// zero by the caller.
pub open spec fn div_quotient(l: i32, h: i32) -> i32 {
    match l.checked_div(h) {
        Some(q) => q,
        None => i32::MIN,
    }
}

/// The remainder written by `DIV`, truncating toward zero (zero on the
/// overflowing case `i32::MIN % -1`).
pub open spec fn div_remainder(l: i32, h: i32) -> i32 {
    match l.checked_rem(h) {
        Some(r) => r,
        None => 0i32,
    }
}

/// Whether every register operand of `i` indexes the register file.
pub open spec fn regs_in_range(i: Instruction) -> bool {
    match i {
        Instruction::LOAD { rd, .. } => rd < REGISTER_COUNT,
        Instruction::INC { r } => r < REGISTER_COUNT,
        Instruction::ADD { rd, rl, rh } => rd < REGISTER_COUNT && rl < REGISTER_COUNT && rh
            < REGISTER_COUNT,
        Instruction::SUB { rd, rl, rh } => rd < REGISTER_COUNT && rl < REGISTER_COUNT && rh
            < REGISTER_COUNT,
        Instruction::MUL { rd, rl, rh } => rd < REGISTER_COUNT && rl < REGISTER_COUNT && rh
            < REGISTER_COUNT,
        Instruction::DIV { rd, rl, rh } => rd < REGISTER_COUNT && rl < REGISTER_COUNT && rh
            < REGISTER_COUNT,
        Instruction::EQ { rl, rh } => rl < REGISTER_COUNT && rh < REGISTER_COUNT,
        Instruction::NEQ { rl, rh } => rl < REGISTER_COUNT && rh < REGISTER_COUNT,
        Instruction::GTE { rl, rh } => rl < REGISTER_COUNT && rh < REGISTER_COUNT,
        Instruction::LTE { rl, rh } => rl < REGISTER_COUNT && rh < REGISTER_COUNT,
        Instruction::LT { rl, rh } => rl < REGISTER_COUNT && rh < REGISTER_COUNT,
        Instruction::GT { rl, rh } => rl < REGISTER_COUNT && rh < REGISTER_COUNT,
        _ => true,
    }
}

/// One fetch-decode-execute step: the state after the instruction's data
/// effect (the program counter is applied separately, see [`vm_apply`])
/// together with its control effect. A fault leaves the state unchanged.
pub open spec fn vm_step(s: VmState) -> (VmState, Step) {
    if s.pc >= s.instructions.len() {
        (s, Step::Fault(VmFault::PcOutOfRange))
    } else {
        let i = s.instructions[s.pc as int];
        if !regs_in_range(i) {
            (s, Step::Fault(VmFault::RegisterOutOfRange))
        } else {
            match i {
                Instruction::IGL => (s, Step::Halt),
                Instruction::HLT => (s, Step::Halt),
                Instruction::JMP { dst } => (s, Step::PCSet(dst)),
                Instruction::JMPE { dst } => if s.compare_flag {
                    (s, Step::PCSet(dst))
                } else {
                    (s, Step::PCNext)
                },
                Instruction::JMPNE { dst } => if !s.compare_flag {
                    (s, Step::PCSet(dst))
                } else {
                    (s, Step::PCNext)
                },
                Instruction::LOAD { rd, value } => (
                    (VmState { ir: s.ir.update(rd as int, value), ..s }),
                    Step::PCNext,
                ),
                Instruction::RET => if s.stack.len() < 2 {
                    (s, Step::Fault(VmFault::StackUnderflow))
                } else {
                    let ret = s.stack[s.stack.len() - 2];
                    (
                        (VmState {
                            sp: s.bp,
                            bp: s.stack.last(),
                            stack: s.stack.take(s.stack.len() - 2),
                            ..s
                        }),
                        Step::PCSet(ret),
                    )
                },
                Instruction::CALL { dst } => (
                    (VmState {
                        stack: s.stack.push((s.pc + 1) as usize).push(s.bp),
                        bp: s.sp,
                        ..s
                    }),
                    Step::PCSet(dst),
                ),
                Instruction::LOOP { dst } => if s.loop_counter == 0 {
                    (s, Step::PCNext)
                } else {
                    (
                        (VmState { loop_counter: (s.loop_counter - 1) as usize, ..s }),
                        Step::PCSet(dst),
                    )
                },
                Instruction::CLOOP { count } => (
                    (VmState { loop_counter: count, ..s }),
                    Step::PCNext,
                ),
                Instruction::INC { r } => (
                    (VmState { ir: s.ir.update(r as int, s.ir[r as int].wrapping_add(1)), ..s }),
                    Step::PCNext,
                ),
                Instruction::ADD { rd, rl, rh } => (
                    (VmState {
                        ir: s.ir.update(rd as int, s.ir[rl as int].wrapping_add(s.ir[rh as int])),
                        ..s
                    }),
                    Step::PCNext,
                ),
                Instruction::SUB { rd, rl, rh } => (
                    (VmState {
                        ir: s.ir.update(rd as int, s.ir[rl as int].wrapping_sub(s.ir[rh as int])),
                        ..s
                    }),
                    Step::PCNext,
                ),
                Instruction::MUL { rd, rl, rh } => (
                    (VmState {
                        ir: s.ir.update(rd as int, s.ir[rl as int].wrapping_mul(s.ir[rh as int])),
                        ..s
                    }),
                    Step::PCNext,
                ),
                Instruction::DIV { rd, rl, rh } => if s.ir[rh as int] == 0 {
                    (s, Step::Fault(VmFault::DivideByZero))
                } else {
                    (
                        (VmState {
                            ir: s.ir.update(
                                rd as int,
                                div_quotient(s.ir[rl as int], s.ir[rh as int]),
                            ),
                            remainder: div_remainder(s.ir[rl as int], s.ir[rh as int]),
                            ..s
                        }),
                        Step::PCNext,
                    )
                },
                Instruction::EQ { rl, rh } => (
                    (VmState { compare_flag: s.ir[rl as int] == s.ir[rh as int], ..s }),
                    Step::PCNext,
                ),
                Instruction::NEQ { rl, rh } => (
                    (VmState { compare_flag: s.ir[rl as int] != s.ir[rh as int], ..s }),
                    Step::PCNext,
                ),
                Instruction::GTE { rl, rh } => (
                    (VmState { compare_flag: s.ir[rl as int] >= s.ir[rh as int], ..s }),
                    Step::PCNext,
                ),
                Instruction::LTE { rl, rh } => (
                    (VmState { compare_flag: s.ir[rl as int] <= s.ir[rh as int], ..s }),
                    Step::PCNext,
                ),
                Instruction::LT { rl, rh } => (
                    (VmState { compare_flag: s.ir[rl as int] < s.ir[rh as int], ..s }),
                    Step::PCNext,
                ),
                Instruction::GT { rl, rh } => (
                    (VmState { compare_flag: s.ir[rl as int] > s.ir[rh as int], ..s }),
                    Step::PCNext,
                ),
            }
        }
    }
}

/// Apply a step's control effect to the program counter.
pub open spec fn vm_apply(s: VmState, st: Step) -> VmState {
    match st {
        Step::PCNext => (VmState { pc: (s.pc + 1) as usize, ..s }),
        Step::PCSet(dst) => (VmState { pc: dst, ..s }),
        Step::Halt => s,
        Step::Fault(_) => s,
    }
}

/// The successor state: one full step, program counter included.
pub open spec fn vm_next(s: VmState) -> VmState {
    let (s2, st) = vm_step(s);
    vm_apply(s2, st)
}

/// Whether the step taken from `s` continues execution — an advance or a
/// jump, neither a halt nor a fault.
pub open spec fn vm_continues(s: VmState) -> bool {
    vm_step(s).1 == Step::PCNext || (vm_step(s).1 matches Step::PCSet(_))
}

/// The state after `n` full steps.
pub open spec fn vm_iterate(s: VmState, n: nat) -> VmState
    decreases n,
{
    if n == 0 {
        s
    } else {
        vm_next(vm_iterate(s, (n - 1) as nat))
    }
}

/// The data effect of a step never moves the program counter or rewrites
/// the program, and a step that advances or jumps can only have fetched an
/// instruction, so the program counter indexed the sequence.
pub proof fn lemma_vm_step_frame(s: VmState)
    ensures
        vm_step(s).0.pc == s.pc,
        vm_step(s).0.instructions == s.instructions,
        vm_step(s).1 == Step::PCNext ==> s.pc < s.instructions.len(),
        (vm_step(s).1 matches Step::PCSet(_)) ==> s.pc < s.instructions.len(),
{
}

/// The same state with the running flag cleared, as the machine leaves it
/// when it stops.
pub open spec fn vm_stopped(s: VmState) -> VmState {
    VmState { running: false, ..s }
}

/// The initial state of a machine over `prog`: all registers zero, program
/// counter zero, flags clear, stack empty.
pub open spec fn vm_init(prog: Seq<Instruction>) -> VmState {
    VmState {
        ir: Seq::new(REGISTER_COUNT as nat, |i: int| 0i32),
        pc: 0,
        sp: 0,
        bp: 0,
        running: true,
        remainder: 0,
        compare_flag: false,
        loop_counter: 0,
        stack: Seq::empty(),
        instructions: prog,
    }
}

/// The virtual machine: the mutable execution state together with the
/// immutable instruction sequence it interprets.
pub struct VM {
    pub ir: [i32; 32],
    pub pc: usize,
    pub sp: usize,
    pub bp: usize,
    pub running: bool,
    pub remainder: i32,
    pub compare_flag: bool,
    pub loop_counter: usize,
    pub stack: Vec<usize>,
    pub instructions: Vec<Instruction>,
}

impl View for VM {
    type V = VmState;

    open spec fn view(&self) -> VmState {
        VmState {
            ir: self.ir@,
            pc: self.pc,
            sp: self.sp,
            bp: self.bp,
            running: self.running,
            remainder: self.remainder,
            compare_flag: self.compare_flag,
            loop_counter: self.loop_counter,
            stack: self.stack@,
            instructions: self.instructions@,
        }
    }
}

impl VM {
    /// A fresh machine over `instructions`, in the initial state.
    pub fn new(instructions: Vec<Instruction>) -> (vm: VM)
        ensures
            vm@ == vm_init(instructions@),
    {
        let vm = VM {
            instructions,
            pc: 0,
            sp: 0,
            bp: 0,
            ir: [0; 32],
            stack: Vec::new(),
            running: true,
            remainder: 0,
            loop_counter: 0,
            compare_flag: false,
        };
        proof {
            assert(vm@.ir =~= vm_init(vm.instructions@).ir);
            assert(vm@.stack =~= vm_init(vm.instructions@).stack);
        }
        vm
    }

    /// Execute the instruction at the program counter: perform its data
    /// effect on the machine state and return its control effect, exactly
    /// as [`vm_step`] prescribes. The program counter itself is left to the
    /// caller.
    pub fn execute_instruction(&mut self) -> (step: Step)
        ensures
            vm_step(old(self)@) == (final(self)@, step),
    {
        if self.pc >= self.instructions.len() {
            return Step::Fault(VmFault::PcOutOfRange);
        }
        match self.instructions[self.pc] {
            Instruction::IGL => Step::Halt,
            Instruction::HLT => Step::Halt,
            Instruction::JMP { dst } => Step::PCSet(dst),
            Instruction::JMPE { dst } => {
                if self.compare_flag {
                    Step::PCSet(dst)
                } else {
                    Step::PCNext
                }
            },
            Instruction::JMPNE { dst } => {
                if !self.compare_flag {
                    Step::PCSet(dst)
                } else {
                    Step::PCNext
                }
            },
            Instruction::LOAD { rd, value } => {
                if rd >= REGISTER_COUNT {
                    return Step::Fault(VmFault::RegisterOutOfRange);
                }
                self.ir[rd] = value;
                Step::PCNext
            },
            Instruction::RET => {
                if self.stack.len() < 2 {
                    return Step::Fault(VmFault::StackUnderflow);
                }
                self.sp = self.bp;
                self.bp = self.stack.pop().unwrap();
                let ret = self.stack.pop().unwrap();
                proof {
                    assert(self.stack@ =~= old(self).stack@.take(
                        old(self).stack@.len() - 2,
                    ));
                }
                Step::PCSet(ret)
            },
            Instruction::CALL { dst } => {
                self.stack.push(self.pc + 1);
                self.stack.push(self.bp);
                self.bp = self.sp;
                Step::PCSet(dst)
            },
            Instruction::LOOP { dst } => {
                if self.loop_counter == 0 {
                    Step::PCNext
                } else {
                    self.loop_counter = self.loop_counter - 1;
                    Step::PCSet(dst)
                }
            },
            Instruction::CLOOP { count } => {
                self.loop_counter = count;
                Step::PCNext
            },
            Instruction::INC { r } => {
                if r >= REGISTER_COUNT {
                    return Step::Fault(VmFault::RegisterOutOfRange);
                }
                self.ir[r] = self.ir[r].wrapping_add(1);
                Step::PCNext
            },
            Instruction::ADD { rd, rl, rh } => {
                if rd >= REGISTER_COUNT || rl >= REGISTER_COUNT || rh >= REGISTER_COUNT {
                    return Step::Fault(VmFault::RegisterOutOfRange);
                }
                self.ir[rd] = self.ir[rl].wrapping_add(self.ir[rh]);
                Step::PCNext
            },
            Instruction::SUB { rd, rl, rh } => {
                if rd >= REGISTER_COUNT || rl >= REGISTER_COUNT || rh >= REGISTER_COUNT {
                    return Step::Fault(VmFault::RegisterOutOfRange);
                }
                self.ir[rd] = self.ir[rl].wrapping_sub(self.ir[rh]);
                Step::PCNext
            },
            Instruction::MUL { rd, rl, rh } => {
                if rd >= REGISTER_COUNT || rl >= REGISTER_COUNT || rh >= REGISTER_COUNT {
                    return Step::Fault(VmFault::RegisterOutOfRange);
                }
                self.ir[rd] = self.ir[rl].wrapping_mul(self.ir[rh]);
                Step::PCNext
            },
            Instruction::DIV { rd, rl, rh } => {
                if rd >= REGISTER_COUNT || rl >= REGISTER_COUNT || rh >= REGISTER_COUNT {
                    return Step::Fault(VmFault::RegisterOutOfRange);
                }
                let l = self.ir[rl];
                let h = self.ir[rh];
                if h == 0 {
                    return Step::Fault(VmFault::DivideByZero);
                }
                self.ir[rd] = match l.checked_div(h) {
                    Some(q) => q,
                    None => i32::MIN,
                };
                self.remainder = match l.checked_rem(h) {
                    Some(r) => r,
                    None => 0,
                };
                Step::PCNext
            },
            Instruction::EQ { rl, rh } => {
                if rl >= REGISTER_COUNT || rh >= REGISTER_COUNT {
                    return Step::Fault(VmFault::RegisterOutOfRange);
                }
                self.compare_flag = self.ir[rl] == self.ir[rh];
                Step::PCNext
            },
            Instruction::NEQ { rl, rh } => {
                if rl >= REGISTER_COUNT || rh >= REGISTER_COUNT {
                    return Step::Fault(VmFault::RegisterOutOfRange);
                }
                self.compare_flag = self.ir[rl] != self.ir[rh];
                Step::PCNext
            },
            Instruction::GTE { rl, rh } => {
                if rl >= REGISTER_COUNT || rh >= REGISTER_COUNT {
                    return Step::Fault(VmFault::RegisterOutOfRange);
                }
                self.compare_flag = self.ir[rl] >= self.ir[rh];
                Step::PCNext
            },
            Instruction::LTE { rl, rh } => {
                if rl >= REGISTER_COUNT || rh >= REGISTER_COUNT {
                    return Step::Fault(VmFault::RegisterOutOfRange);
                }
                self.compare_flag = self.ir[rl] <= self.ir[rh];
                Step::PCNext
            },
            Instruction::LT { rl, rh } => {
                if rl >= REGISTER_COUNT || rh >= REGISTER_COUNT {
                    return Step::Fault(VmFault::RegisterOutOfRange);
                }
                self.compare_flag = self.ir[rl] < self.ir[rh];
                Step::PCNext
            },
            Instruction::GT { rl, rh } => {
                if rl >= REGISTER_COUNT || rh >= REGISTER_COUNT {
                    return Step::Fault(VmFault::RegisterOutOfRange);
                }
                self.compare_flag = self.ir[rl] > self.ir[rh];
                Step::PCNext
            },
        }
    }

    /// Run the machine: step until the current instruction halts or
    /// faults, then clear the running flag. `Some(Ok(()))` is a normal
    /// halt, `Some(Err(f))` a fatal machine fault, and in either case the
    /// final state is reached from the starting state by some number of
    /// full steps of [`vm_step`].
    ///
    /// `fuel` bounds the number of steps taken, so that the run loop
    /// provably terminates; a program whose control flow never reaches a
    /// halting or faulting step exhausts it, and `None` reports exactly
    /// that: `fuel` full steps taken, every one of them an advance or a
    /// jump — no halt and no fault occurred — and the machine still
    /// running. A caller that wants the unbounded run loop calls this
    /// again on `None`.
    pub fn run(&mut self, fuel: u64) -> (r: Option<Result<(), VmFault>>)
        ensures
            match r {
                None => final(self)@ == vm_iterate(old(self)@, fuel as nat) && forall|m: nat|
                    m < fuel ==> vm_continues(#[trigger] vm_iterate(old(self)@, m)),
                Some(out) => exists|n: nat|
                    #![trigger vm_iterate(old(self)@, n)]
                    {
                        let s = vm_iterate(old(self)@, n);
                        &&& n < fuel
                        &&& forall|m: nat| m < n ==> vm_continues(#[trigger] vm_iterate(old(self)@, m))
                        &&& final(self)@ == vm_stopped(s)
                        &&& match out {
                            Ok(()) => vm_step(s).1 == Step::Halt,
                            Err(f) => vm_step(s).1 == Step::Fault(f),
                        }
                    },
            },
    {
        let ghost mut n: nat = 0;
        let mut left: u64 = fuel;
        while left > 0
            invariant
                n == fuel - left,
                self@ == vm_iterate(old(self)@, n),
                forall|m: nat| m < n ==> vm_continues(#[trigger] vm_iterate(old(self)@, m)),
            decreases left,
        {
            let ghost pre = self@;
            let step = self.execute_instruction();
            match step {
                Step::Halt => {
                    self.running = false;
                    proof {
                        assert(self@ == vm_stopped(vm_iterate(old(self)@, n)));
                    }
                    return Some(Ok(()));
                },
                Step::Fault(f) => {
                    self.running = false;
                    proof {
                        assert(self@ == vm_stopped(vm_iterate(old(self)@, n)));
                    }
                    return Some(Err(f));
                },
                Step::PCNext => {
                    proof {
                        lemma_vm_step_frame(pre);
                        assert(self.instructions.len() == self.instructions@.len());
                    }
                    self.pc = self.pc + 1;
                    proof {
                        assert(self@ == vm_next(pre));
                        assert(vm_continues(pre));
                        n = n + 1;
                    }
                },
                Step::PCSet(dst) => {
                    self.pc = dst;
                    proof {
                        assert(self@ == vm_next(pre));
                        assert(vm_continues(pre));
                        n = n + 1;
                    }
                },
            }
            left = left - 1;
        }
        None
    }
}

} // verus!
