use vstd::prelude::*;

verus! {

/// The tables of the circuit, used to say which one ran out of rows.
#[derive(Clone, Copy, Debug, PartialEq, Eq, Structural)]
pub enum Table {
    Range,
    Instruction,
    InitMemory,
    Event,
    Memory,
    Jump,
}

/// Why an assignment does not satisfy the constraint system.
#[derive(Clone, Copy, Debug, PartialEq, Eq, Structural)]
pub enum Violation {
    /// Two program rows share an address.
    DuplicateInstructionAddress,
    /// Two rows of the initial memory snapshot share an address.
    DuplicateInitMemoryAddress,
    /// A step's `(address, opcode, operand)` is not a program row.
    OpcodeNotInProgram,
    /// Two consecutive memory rows are not ordered by `(address, step)`
    /// within the range domain.
    MemoryOutOfRange,
    /// A read does not return the value most recently written.
    MemoryInconsistent,
    /// The memory-op claim differs from the number of memory-op steps, or
    /// the memory rows do not use it up.
    MemoryAccounting,
    /// A return does not close the innermost open call, or calls stay open.
    JumpNesting,
    /// The jump-op claim differs from the number of jump-op steps, or the
    /// jump frames do not use it up.
    JumpAccounting,
}

/// Errors of configuration, assignment and constraint checking.
#[derive(Clone, Copy, Debug, PartialEq, Eq, Structural)]
pub enum CircuitError {
    /// Fewer working columns than the tables need.
    Configuration,
    /// A table holds more rows than its configured capacity.
    CapacityExceeded(Table),
    /// The assigned rows violate a constraint.
    Unsatisfiable(Violation),
}

} // verus!
