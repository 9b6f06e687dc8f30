use vstd::prelude::*;
use crate::circuit::{trace_violation, CircuitAssignment, TestCircuit, TestCircuitConfig};
use crate::error::Violation;
use crate::etable::{count_jops, count_mops, opcodes_in_program};
use crate::itable::unique_addresses;
use crate::imtable::unique_init_addresses;
use crate::jtable::{depth, lemma_nesting_depth, open_calls, well_nested};
use crate::mtable::{
    gap_ok, lemma_memory_consistency, lemma_sort_rows, sort_rows, sorted_by_key, lemma_rows_in_step_order, ordered_in_range,
    reads_see_last_write,
};
use crate::rtable::RangeTable;
use crate::trace::{Event, InitMemoryEntry, Instruction, JumpFrame, MemoryAccess};

verus! {

/// A trace is satisfiable only if every step's `(address, opcode, operand)`
/// is a row of the program; a step outside the program makes it
/// unsatisfiable.
pub proof fn lemma_opcode_soundness(
    range: RangeTable,
    prog: Seq<Instruction>,
    init: Seq<InitMemoryEntry>,
    events: Seq<Event>,
    rows: Seq<MemoryAccess>,
    frames: Seq<JumpFrame>,
)
    ensures
        trace_violation(range, prog, init, events, rows, frames) is None ==> opcodes_in_program(
            events,
            prog,
        ),
        !opcodes_in_program(events, prog) ==> trace_violation(
            range,
            prog,
            init,
            events,
            rows,
            frames,
        ) is Some,
{
}

/// In a satisfiable trace the accesses to one address come in the order of
/// their steps, and every read returns the value of the most recent earlier
/// write to its address, or the initial value where none came before.
/// Sorted rows in which some read does not are unsatisfiable.
pub proof fn lemma_memory_soundness(
    range: RangeTable,
    prog: Seq<Instruction>,
    init: Seq<InitMemoryEntry>,
    events: Seq<Event>,
    rows: Seq<MemoryAccess>,
    frames: Seq<JumpFrame>,
)
    ensures
        trace_violation(range, prog, init, events, rows, frames) is None ==> {
            &&& reads_see_last_write(rows, init)
            &&& forall|j: int, i: int|
                0 <= j < i < rows.len() && rows[j].addr == rows[i].addr ==> rows[j].step
                    < rows[i].step
        },
        ordered_in_range(rows, range) && !reads_see_last_write(rows, init) ==> trace_violation(
            range,
            prog,
            init,
            events,
            rows,
            frames,
        ) is Some,
{
    if ordered_in_range(rows, range) {
        lemma_memory_consistency(rows, init, range);
        lemma_rows_in_step_order(rows, range);
    }
}

/// In a satisfiable trace the memory rows use up exactly the memory
/// operations the steps claim, and the jump frames exactly the jump
/// operations.
pub proof fn lemma_accounting_closure(
    range: RangeTable,
    prog: Seq<Instruction>,
    init: Seq<InitMemoryEntry>,
    events: Seq<Event>,
    rows: Seq<MemoryAccess>,
    frames: Seq<JumpFrame>,
)
    ensures
        trace_violation(range, prog, init, events, rows, frames) is None ==> {
            &&& count_mops(events) == rows.len()
            &&& count_jops(events) == frames.len()
        },
{
}

/// Dropping one memory access from a satisfiable trace, with the steps
/// unchanged, makes it unsatisfiable.
pub proof fn lemma_dropped_access_unsatisfiable(
    range: RangeTable,
    prog: Seq<Instruction>,
    init: Seq<InitMemoryEntry>,
    events: Seq<Event>,
    rows: Seq<MemoryAccess>,
    frames: Seq<JumpFrame>,
    i: int,
)
    requires
        trace_violation(range, prog, init, events, rows, frames) is None,
        0 <= i < rows.len(),
    ensures
        trace_violation(range, prog, init, events, rows.remove(i), frames) is Some,
{
}

/// Dropping one jump frame from a satisfiable trace, with the steps
/// unchanged, makes it unsatisfiable.
pub proof fn lemma_dropped_frame_unsatisfiable(
    range: RangeTable,
    prog: Seq<Instruction>,
    init: Seq<InitMemoryEntry>,
    events: Seq<Event>,
    rows: Seq<MemoryAccess>,
    frames: Seq<JumpFrame>,
    i: int,
)
    requires
        trace_violation(range, prog, init, events, rows, frames) is None,
        0 <= i < frames.len(),
    ensures
        trace_violation(range, prog, init, events, rows, frames.remove(i)) is Some,
{
}

/// In a satisfiable trace the call depth never goes negative and is back
/// at zero at the end; appending a return to well-nested frames breaks
/// the nesting.
pub proof fn lemma_jump_nesting(
    range: RangeTable,
    prog: Seq<Instruction>,
    init: Seq<InitMemoryEntry>,
    events: Seq<Event>,
    rows: Seq<MemoryAccess>,
    frames: Seq<JumpFrame>,
    ret: JumpFrame,
)
    ensures
        trace_violation(range, prog, init, events, rows, frames) is None ==> {
            &&& depth(frames) == 0
            &&& forall|n: int| 0 <= n <= frames.len() ==> depth(#[trigger] frames.take(n)) >= 0
        },
        well_nested(frames) && !ret.is_call ==> !well_nested(frames.push(ret)),
{
    if well_nested(frames) {
        lemma_nesting_depth(frames);
        assert(frames.push(ret).drop_last() =~= frames);
    }
}

/// A memory gap outside the range domain makes the trace unsatisfiable,
/// while the edges of the domain, `0` and `bound - 1`, are in it.
pub proof fn lemma_range_boundedness(
    range: RangeTable,
    prog: Seq<Instruction>,
    init: Seq<InitMemoryEntry>,
    events: Seq<Event>,
    rows: Seq<MemoryAccess>,
    frames: Seq<JumpFrame>,
    i: int,
)
    requires
        1 <= i < rows.len(),
    ensures
        !gap_ok(rows, range, i) ==> trace_violation(range, prog, init, events, rows, frames) is Some,
        range.bound > 0 ==> range.spec_contains(0) && range.spec_contains(range.bound - 1),
        !range.spec_contains(range.bound as int),
{
}

/// A trace of no steps claims no operations, and with no memory rows and
/// no frames it is satisfiable exactly when the program's addresses are
/// unique and so are the snapshot's.
pub proof fn lemma_empty_trace(range: RangeTable, prog: Seq<Instruction>, init: Seq<InitMemoryEntry>)
    ensures
        count_mops(Seq::<Event>::empty()) == 0,
        count_jops(Seq::<Event>::empty()) == 0,
        trace_violation(
            range,
            prog,
            init,
            Seq::<Event>::empty(),
            Seq::<MemoryAccess>::empty(),
            Seq::<JumpFrame>::empty(),
        ) == if !unique_addresses(prog) {
            Some(Violation::DuplicateInstructionAddress)
        } else if !unique_init_addresses(init) {
            Some(Violation::DuplicateInitMemoryAddress)
        } else {
            None::<Violation>
        },
{
    assert(open_calls(Seq::<JumpFrame>::empty()) == Some(Seq::<u64>::empty()));
}

/// Assigning a circuit whose trace is empty leaves both accumulators at
/// zero, with the memory and jump tables' accounting already closed.
pub proof fn lemma_empty_assignment(c: TestCircuit, config: TestCircuitConfig, a: CircuitAssignment)
    requires
        c.assigned(config, a),
        c.execution_tables.etable@.len() == 0,
        c.execution_tables.mtable@.len() == 0,
        c.execution_tables.jtable@.len() == 0,
    ensures
        a.mtable.claim.total == 0,
        a.jtable.claim.total == 0,
        a.mtable.accounting_closed(),
        a.jtable.accounting_closed(),
{
}

/// A satisfied assignment's claims are the numbers of memory-op and
/// jump-op steps in its event table, and its memory and jump tables hold
/// that many rows.
pub proof fn lemma_claims_match_steps(a: CircuitAssignment)
    requires
        a.violation() is None,
    ensures
        a.mtable.claim.total == count_mops(a.etable.events@),
        a.jtable.claim.total == count_jops(a.etable.events@),
        a.mtable.rows@.len() == count_mops(a.etable.events@),
        a.jtable.frames@.len() == count_jops(a.etable.events@),
{
}

/// An assignment of a circuit holds the trace's memory accesses sorted by
/// `(address, step)`, each as often as the trace has it.
pub proof fn lemma_assigned_memory_rows(
    c: TestCircuit,
    config: TestCircuitConfig,
    a: CircuitAssignment,
)
    requires
        c.assigned(config, a),
    ensures
        sorted_by_key(a.mtable.rows@),
        a.mtable.rows@.to_multiset() == c.execution_tables.mtable@.to_multiset(),
{
    lemma_sort_rows(c.execution_tables.mtable@);
}

/// An assignment of a circuit breaks the constraint the circuit's trace
/// breaks.
pub proof fn lemma_assignment_violation(
    c: TestCircuit,
    config: TestCircuitConfig,
    a: CircuitAssignment,
)
    requires
        c.assigned(config, a),
    ensures
        a.violation() == c.violation(config),
{
}

} // verus!
