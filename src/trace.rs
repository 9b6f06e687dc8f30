use vstd::prelude::*;

verus! {

/// One instruction of the compiled program.
#[derive(Clone, Copy, Debug, PartialEq, Eq, Structural)]
pub struct Instruction {
    pub addr: u64,
    pub opcode: u64,
    pub operand: u64,
}

/// The value held at `addr` before execution starts.
#[derive(Clone, Copy, Debug, PartialEq, Eq, Structural)]
pub struct InitMemoryEntry {
    pub addr: u64,
    pub value: u64,
}

/// One memory access. A read carries the value it returned, a write the
/// value it stored; `step` is the global step counter of the access.
/// Every record handed to the memory table is an enabled row.
#[derive(Clone, Copy, Debug, PartialEq, Eq, Structural)]
pub struct MemoryAccess {
    pub addr: u64,
    pub step: u64,
    pub is_write: bool,
    pub value: u64,
}

/// One control-flow transfer. A call goes from `from_pc` to `to_pc` and
/// records `return_pc`, where its matching return must land; a return goes
/// from `from_pc` to `to_pc` (its `return_pc` is not read).
#[derive(Clone, Copy, Debug, PartialEq, Eq, Structural)]
pub struct JumpFrame {
    pub is_call: bool,
    pub from_pc: u64,
    pub to_pc: u64,
    pub return_pc: u64,
}

/// One executed step: the instruction it ran and whether it touched
/// memory or transferred control.
#[derive(Clone, Copy, Debug, PartialEq, Eq, Structural)]
pub struct Event {
    pub eid: u64,
    pub iaddr: u64,
    pub opcode: u64,
    pub operand: u64,
    pub is_mop: bool,
    pub is_jop: bool,
}

/// The program image: instructions and the initial memory snapshot.
#[derive(Clone, Debug, Default)]
pub struct CompileTable {
    pub itable: Vec<Instruction>,
    pub imtable: Vec<InitMemoryEntry>,
}

/// One execution trace: its steps, memory accesses and jump frames.
#[derive(Clone, Debug, Default)]
pub struct ExecutionTable {
    pub etable: Vec<Event>,
    pub mtable: Vec<MemoryAccess>,
    pub jtable: Vec<JumpFrame>,
}

} // verus!
