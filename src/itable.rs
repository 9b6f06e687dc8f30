use vstd::prelude::*;
use crate::trace::Instruction;

verus! {

/// No two program rows share an address.
pub open spec fn unique_addresses(prog: Seq<Instruction>) -> bool {
    forall|i: int, j: int|
        0 <= i < prog.len() && 0 <= j < prog.len() && i != j ==> prog[i].addr != prog[j].addr
}

/// `(addr, opcode, operand)` is a row of the program.
pub open spec fn has_row(prog: Seq<Instruction>, addr: u64, opcode: u64, operand: u64) -> bool {
    exists|k: int|
        0 <= k < prog.len() && prog[k] == (Instruction { addr, opcode, operand })
}

/// Checks that no two program rows share an address.
pub fn check_unique_addresses(prog: &Vec<Instruction>) -> (r: bool)
    ensures
        r == unique_addresses(prog@),
{
    let n = prog.len();
    let mut i: usize = 0;
    while i < n
        invariant
            n == prog@.len(),
            i <= n,
            forall|a: int, b: int| 0 <= a < i && 0 <= b < n && a != b ==> prog@[a].addr != prog@[b].addr,
        decreases n - i,
    {
        let mut j: usize = 0;
        while j < n
            invariant
                n == prog@.len(),
                i < n,
                j <= n,
                forall|b: int| 0 <= b < j && i != b ==> prog@[i as int].addr != prog@[b].addr,
            decreases n - j,
        {
            if j != i && prog[i].addr == prog[j].addr {
                return false;
            }
            j += 1;
        }
        i += 1;
    }
    true
}

/// Looks `(addr, opcode, operand)` up among the program rows.
pub fn lookup(prog: &Vec<Instruction>, addr: u64, opcode: u64, operand: u64) -> (r: bool)
    ensures
        r == has_row(prog@, addr, opcode, operand),
{
    let n = prog.len();
    let mut i: usize = 0;
    while i < n
        invariant
            n == prog@.len(),
            i <= n,
            forall|k: int| 0 <= k < i ==> prog@[k] != (Instruction { addr, opcode, operand }),
        decreases n - i,
    {
        let ins = prog[i];
        if ins.addr == addr && ins.opcode == opcode && ins.operand == operand {
            assert(prog@[i as int] == (Instruction { addr, opcode, operand }));
            return true;
        }
        i += 1;
    }
    false
}

} // verus!
