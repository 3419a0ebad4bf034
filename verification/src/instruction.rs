//! The closed instruction set of the virtual machine.
//!
//! An instruction is a fixed-arity tagged variant; a compiled program is an
//! ordered sequence of them, indexed from zero. Jump, call and loop targets
//! stored inside an instruction are indices into that sequence.

use vstd::prelude::*;

verus! {

/// One concrete machine instruction, immutable once constructed.
///
/// Register operands (`rd`, `rl`, `rh`, `r`) index the 32-slot register
/// file; `dst` operands index the instruction sequence; `value` is a signed
/// immediate; `count` seeds the shared loop counter.
#[derive(Debug, Clone, Copy, PartialEq, Eq, Structural)]
pub enum Instruction {
    /// Unrecognized opcode: the machine treats it as an implicit halt.
    IGL,
    /// Halt the machine normally.
    HLT,
    /// Return from a call: pop the saved frame and jump to the return address.
    RET,
    /// Unconditional jump.
    JMP { dst: usize },
    /// Jump iff the shared comparison flag is true.
    JMPE { dst: usize },
    /// Jump iff the shared comparison flag is false.
    JMPNE { dst: usize },
    /// Load an immediate into a register.
    LOAD { rd: usize, value: i32 },
    /// Push a return frame and jump.
    CALL { dst: usize },
    /// Branch while the shared loop counter is positive, decrementing it.
    LOOP { dst: usize },
    /// Set the shared loop counter. Exactly one counter exists per
    /// machine, so nested counted loops corrupt each other's count: an
    /// inherent limitation of this design.
    CLOOP { count: usize },
    /// Increment a register by one, wrapping on overflow.
    INC { r: usize },
    /// `registers[rd] = registers[rl] + registers[rh]`, wrapping.
    ADD { rd: usize, rl: usize, rh: usize },
    /// `registers[rd] = registers[rl] - registers[rh]`, wrapping.
    SUB { rd: usize, rl: usize, rh: usize },
    /// `registers[rd] = registers[rl] * registers[rh]`, wrapping.
    MUL { rd: usize, rl: usize, rh: usize },
    /// Truncating division; also sets the remainder register.
    DIV { rd: usize, rl: usize, rh: usize },
    /// Set the comparison flag to `registers[rl] == registers[rh]`.
    EQ { rl: usize, rh: usize },
    /// Set the comparison flag to `registers[rl] != registers[rh]`.
    NEQ { rl: usize, rh: usize },
    /// Set the comparison flag to `registers[rl] >= registers[rh]`.
    GTE { rl: usize, rh: usize },
    /// Set the comparison flag to `registers[rl] <= registers[rh]`.
    LTE { rl: usize, rh: usize },
    /// Set the comparison flag to `registers[rl] < registers[rh]`.
    LT { rl: usize, rh: usize },
    /// Set the comparison flag to `registers[rl] > registers[rh]`.
    GT { rl: usize, rh: usize },
}

} // verus!
