use zkwasm_tables::circuit::{TableCapacities, TestCircuit, TestCircuitConfig, VAR_COLUMNS};
use zkwasm_tables::error::{CircuitError, Table, Violation};
use zkwasm_tables::etable::EventTable;
use zkwasm_tables::imtable;
use zkwasm_tables::itable;
use zkwasm_tables::jtable::JumpTable;
use zkwasm_tables::etable::{count_ops, JopsClaim, MopsClaim};
use zkwasm_tables::mtable::sort_by_key;
use zkwasm_tables::rtable::RangeTable;
use zkwasm_tables::trace::{
    CompileTable, Event, ExecutionTable, InitMemoryEntry, Instruction, JumpFrame, MemoryAccess,
};

fn ins(addr: u64, opcode: u64, operand: u64) -> Instruction {
    Instruction { addr, opcode, operand }
}

fn step(eid: u64, i: Instruction, is_mop: bool, is_jop: bool) -> Event {
    Event { eid, iaddr: i.addr, opcode: i.opcode, operand: i.operand, is_mop, is_jop }
}

fn read(addr: u64, step: u64, value: u64) -> MemoryAccess {
    MemoryAccess { addr, step, is_write: false, value }
}

fn write(addr: u64, step: u64, value: u64) -> MemoryAccess {
    MemoryAccess { addr, step, is_write: true, value }
}

fn call(from_pc: u64, to_pc: u64, return_pc: u64) -> JumpFrame {
    JumpFrame { is_call: true, from_pc, to_pc, return_pc }
}

fn ret(from_pc: u64, to_pc: u64) -> JumpFrame {
    JumpFrame { is_call: false, from_pc, to_pc, return_pc: 0 }
}

fn caps(n: usize) -> TableCapacities {
    TableCapacities { instructions: n, init_memory: n, events: n, memory: n, jumps: n }
}

fn config() -> TestCircuitConfig {
    TestCircuit::configure(VAR_COLUMNS, 1usize << 16, 1u64 << 16, caps(64)).unwrap()
}

fn program() -> Vec<Instruction> {
    vec![ins(0, 1, 7), ins(1, 2, 0), ins(2, 3, 5), ins(3, 4, 0), ins(4, 5, 0)]
}

fn circuit(events: Vec<Event>, mtable: Vec<MemoryAccess>, jtable: Vec<JumpFrame>) -> TestCircuit {
    TestCircuit::new(
        CompileTable { itable: program(), imtable: vec![InitMemoryEntry { addr: 100, value: 9 }] },
        ExecutionTable { etable: events, mtable, jtable },
    )
}

/// Three memory steps and one call/return pair over `program()`.
fn valid_circuit() -> TestCircuit {
    let p = program();
    let events = vec![
        step(0, p[0], true, false),
        step(1, p[1], true, false),
        step(2, p[2], false, true),
        step(3, p[3], false, true),
        step(4, p[4], true, false),
    ];
    let mtable = vec![read(100, 0, 9), write(100, 1, 4), read(100, 4, 4)];
    let jtable = vec![call(2, 3, 3), ret(3, 3)];
    circuit(events, mtable, jtable)
}

#[test]
fn valid_trace_is_satisfiable() {
    assert_eq!(valid_circuit().verify(&config()), Ok(()));
}

#[test]
fn step_outside_program_is_unsatisfiable() {
    let mut c = valid_circuit();
    c.execution_tables.etable[1].operand = 99;
    assert_eq!(
        c.verify(&config()),
        Err(CircuitError::Unsatisfiable(Violation::OpcodeNotInProgram))
    );
}

#[test]
fn duplicate_program_address_is_unsatisfiable() {
    let mut c = valid_circuit();
    c.compile_tables.itable.push(ins(4, 9, 9));
    assert_eq!(
        c.verify(&config()),
        Err(CircuitError::Unsatisfiable(Violation::DuplicateInstructionAddress))
    );
}

#[test]
fn interleaved_accesses_consistent() {
    let p = program();
    let events = vec![
        step(0, p[0], true, false),
        step(1, p[1], true, false),
        step(2, p[1], true, false),
        step(3, p[0], true, false),
        step(4, p[4], true, false),
        step(5, p[0], true, false),
    ];
    // address 100 starts at 9 from the snapshot, address 200 at zero
    let mtable = vec![
        read(100, 0, 9),
        write(100, 2, 1),
        read(100, 5, 1),
        read(200, 1, 0),
        write(200, 3, 8),
        read(200, 4, 8),
    ];
    let c = circuit(events, mtable, vec![]);
    assert_eq!(c.verify(&config()), Ok(()));
}

#[test]
fn read_of_stale_value_is_unsatisfiable() {
    let p = program();
    let events = vec![step(0, p[0], true, false), step(1, p[1], true, false), step(2, p[1], true, false)];
    let mtable = vec![read(100, 0, 9), write(100, 1, 1), read(100, 2, 9)];
    let c = circuit(events, mtable, vec![]);
    assert_eq!(
        c.verify(&config()),
        Err(CircuitError::Unsatisfiable(Violation::MemoryInconsistent))
    );
}

#[test]
fn first_read_must_match_snapshot() {
    let p = program();
    let c = circuit(vec![step(0, p[0], true, false)], vec![read(100, 0, 3)], vec![]);
    assert_eq!(
        c.verify(&config()),
        Err(CircuitError::Unsatisfiable(Violation::MemoryInconsistent))
    );
    let c = circuit(vec![step(0, p[0], true, false)], vec![read(300, 0, 0)], vec![]);
    assert_eq!(c.verify(&config()), Ok(()));
}

#[test]
fn unsorted_memory_rows_are_unsatisfiable() {
    let mut a = valid_circuit().synthesize(&config()).unwrap();
    assert_eq!(a.check(), Ok(()));
    a.mtable.rows.swap(0, 1);
    assert_eq!(a.check(), Err(CircuitError::Unsatisfiable(Violation::MemoryOutOfRange)));
}

#[test]
fn repeated_memory_step_is_unsatisfiable() {
    let p = program();
    let events = vec![step(0, p[0], true, false), step(1, p[1], true, false)];
    let c = circuit(events, vec![write(100, 2, 1), write(100, 2, 1)], vec![]);
    assert_eq!(
        c.verify(&config()),
        Err(CircuitError::Unsatisfiable(Violation::MemoryOutOfRange))
    );
}

#[test]
fn accesses_in_execution_order_are_sorted() {
    let p = program();
    let events = vec![step(0, p[0], true, false), step(1, p[1], true, false), step(2, p[0], true, false)];
    let c = circuit(events, vec![write(1, 0, 7), write(0, 1, 3), read(1, 2, 7)], vec![]);
    assert_eq!(c.verify(&config()), Ok(()));
    let a = c.synthesize(&config()).unwrap();
    assert_eq!(a.mtable.rows, vec![write(0, 1, 3), write(1, 0, 7), read(1, 2, 7)]);
    let bad = circuit(
        vec![step(0, p[0], true, false), step(1, p[1], true, false), step(2, p[0], true, false)],
        vec![write(1, 0, 7), write(0, 1, 3), read(1, 2, 3)],
        vec![],
    );
    assert_eq!(
        bad.verify(&config()),
        Err(CircuitError::Unsatisfiable(Violation::MemoryInconsistent))
    );
}

#[test]
fn sort_keeps_equal_keys_in_order() {
    let rows = vec![read(5, 4, 1), write(2, 9, 0), read(5, 4, 2), write(2, 1, 6)];
    assert_eq!(
        sort_by_key(&rows),
        vec![write(2, 1, 6), write(2, 9, 0), read(5, 4, 1), read(5, 4, 2)]
    );
}

#[test]
fn forged_claims_are_unsatisfiable() {
    let p = program();
    let c = circuit(vec![step(0, p[0], true, false)], vec![read(100, 0, 9)], vec![]);
    let mut a = c.synthesize(&config()).unwrap();
    assert_eq!(a.check(), Ok(()));
    a.mtable.claim = MopsClaim { total: 0 };
    a.mtable.rows.clear();
    assert_eq!(a.check(), Err(CircuitError::Unsatisfiable(Violation::MemoryAccounting)));

    let c = circuit(vec![step(0, p[2], false, true)], vec![], vec![]);
    let mut a = c.synthesize(&config()).unwrap();
    assert_eq!(a.check(), Err(CircuitError::Unsatisfiable(Violation::JumpAccounting)));
    // a claim of zero matches the empty jump table but not the flagged step
    a.jtable.claim = JopsClaim { total: 0 };
    assert_eq!(a.check(), Err(CircuitError::Unsatisfiable(Violation::JumpAccounting)));
}

#[test]
fn duplicate_snapshot_address_is_unsatisfiable() {
    let mut c = valid_circuit();
    c.compile_tables.imtable.push(InitMemoryEntry { addr: 100, value: 1 });
    assert_eq!(
        c.verify(&config()),
        Err(CircuitError::Unsatisfiable(Violation::DuplicateInitMemoryAddress))
    );
    let init = vec![InitMemoryEntry { addr: 4, value: 11 }, InitMemoryEntry { addr: 4, value: 12 }];
    assert!(!imtable::check_unique_addresses(&init));
    assert_eq!(imtable::lookup(&init, 4), 11);
}

#[test]
fn dropped_memory_access_breaks_accounting() {
    let mut c = valid_circuit();
    c.execution_tables.mtable.pop();
    assert_eq!(
        c.verify(&config()),
        Err(CircuitError::Unsatisfiable(Violation::MemoryAccounting))
    );
}

#[test]
fn dropped_jump_frame_breaks_accounting() {
    let mut c = valid_circuit();
    c.execution_tables.etable[4].is_jop = true;
    c.execution_tables.etable[4].is_mop = false;
    c.execution_tables.mtable.pop();
    assert_eq!(
        c.verify(&config()),
        Err(CircuitError::Unsatisfiable(Violation::JumpAccounting))
    );
}

#[test]
fn claims_count_flagged_steps() {
    let c = valid_circuit();
    let (t, mops, jops) = EventTable::assign(c.execution_tables.etable.clone());
    assert_eq!(t.events.len(), 5);
    assert_eq!(mops.total, 3);
    assert_eq!(jops.total, 2);
    assert_eq!(count_ops(&c.execution_tables.etable), (3, 2));
}

#[test]
fn balanced_calls_are_satisfiable() {
    let p = program();
    let events = vec![
        step(0, p[2], false, true),
        step(1, p[2], false, true),
        step(2, p[3], false, true),
        step(3, p[3], false, true),
    ];
    let jtable = vec![call(2, 10, 3), call(12, 20, 13), ret(25, 13), ret(15, 3)];
    assert_eq!(circuit(events, vec![], jtable).verify(&config()), Ok(()));
}

#[test]
fn extra_return_is_unsatisfiable() {
    let p = program();
    let events = vec![step(0, p[2], false, true), step(1, p[3], false, true), step(2, p[3], false, true)];
    let jtable = vec![call(2, 10, 3), ret(15, 3), ret(4, 3)];
    assert_eq!(
        circuit(events, vec![], jtable).verify(&config()),
        Err(CircuitError::Unsatisfiable(Violation::JumpNesting))
    );
}

#[test]
fn return_to_wrong_address_is_unsatisfiable() {
    let t = JumpTable::assign(vec![call(2, 10, 3), ret(15, 4)], JopsClaim { total: 2 }, 8).unwrap();
    assert!(!t.check_nesting());
    let t = JumpTable::assign(vec![call(2, 10, 3)], JopsClaim { total: 1 }, 8).unwrap();
    assert!(!t.check_nesting());
    let t = JumpTable::assign(vec![call(2, 10, 3), ret(15, 3)], JopsClaim { total: 2 }, 8).unwrap();
    assert!(t.check_nesting());
}

#[test]
fn range_edges() {
    let r = RangeTable::init(16, 16).unwrap();
    assert!(r.contains(0));
    assert!(r.contains(15));
    assert!(!r.contains(16));
    assert!(r.contains_gap(3, 4));
    assert!(r.contains_gap(3, 19));
    assert!(!r.contains_gap(3, 20));
    assert!(!r.contains_gap(3, 3));
}

#[test]
fn memory_gap_at_range_edges() {
    let cfg = TestCircuit::configure(VAR_COLUMNS, 64, 16, caps(8)).unwrap();
    let p = program();
    let events = vec![step(0, p[0], true, false), step(1, p[1], true, false)];
    // step gaps of 1 and 16 put 0 and 15 into the domain of 16 values
    let c = circuit(events.clone(), vec![write(5, 1, 2), read(5, 2, 2)], vec![]);
    assert_eq!(c.verify(&cfg), Ok(()));
    let c = circuit(events.clone(), vec![write(5, 1, 2), read(5, 17, 2)], vec![]);
    assert_eq!(c.verify(&cfg), Ok(()));
    let c = circuit(events, vec![write(5, 1, 2), read(5, 18, 2)], vec![]);
    assert_eq!(
        c.verify(&cfg),
        Err(CircuitError::Unsatisfiable(Violation::MemoryOutOfRange))
    );
}

#[test]
fn range_domain_larger_than_rows_fails() {
    assert_eq!(RangeTable::init(17, 16), Err(CircuitError::CapacityExceeded(Table::Range)));
    let cfg = TestCircuit::configure(VAR_COLUMNS, 16, 17, caps(8)).unwrap();
    assert_eq!(
        valid_circuit().verify(&cfg),
        Err(CircuitError::CapacityExceeded(Table::Range))
    );
}

#[test]
fn capacity_boundary() {
    let c = valid_circuit();
    let exact = TableCapacities { instructions: 5, init_memory: 1, events: 5, memory: 3, jumps: 2 };
    let cfg = TestCircuit::configure(VAR_COLUMNS, 1024, 256, exact).unwrap();
    assert_eq!(c.verify(&cfg), Ok(()));
    assert!(c.synthesize(&cfg).is_ok());

    let over = |t: TableCapacities| TestCircuit::configure(VAR_COLUMNS, 1024, 256, t).unwrap();
    let r = c.synthesize(&over(TableCapacities { instructions: 4, ..exact }));
    assert_eq!(r.err(), Some(CircuitError::CapacityExceeded(Table::Instruction)));
    let r = c.synthesize(&over(TableCapacities { init_memory: 0, ..exact }));
    assert_eq!(r.err(), Some(CircuitError::CapacityExceeded(Table::InitMemory)));
    let r = c.synthesize(&over(TableCapacities { events: 4, ..exact }));
    assert_eq!(r.err(), Some(CircuitError::CapacityExceeded(Table::Event)));
    let r = c.synthesize(&over(TableCapacities { memory: 2, ..exact }));
    assert_eq!(r.err(), Some(CircuitError::CapacityExceeded(Table::Memory)));
    let r = c.synthesize(&over(TableCapacities { jumps: 1, ..exact }));
    assert_eq!(r.err(), Some(CircuitError::CapacityExceeded(Table::Jump)));
}

#[test]
fn synthesize_keeps_rows_and_claims() {
    let c = valid_circuit();
    let a = c.synthesize(&config()).unwrap();
    assert_eq!(a.itable, c.compile_tables.itable);
    assert_eq!(a.mtable.rows, c.execution_tables.mtable);
    assert_eq!(a.jtable.frames, c.execution_tables.jtable);
    assert_eq!(a.mtable.claim.total, 3);
    assert_eq!(a.jtable.claim.total, 2);
    assert_eq!(a.mtable.remaining_after(0), 3);
    assert_eq!(a.mtable.remaining_after(3), 0);
    assert_eq!(a.jtable.remaining_after(1), 1);
    assert_eq!(a.range.bound, 1u64 << 16);
    assert_eq!(a.check(), Ok(()));
}

#[test]
fn empty_trace_is_satisfiable() {
    let c = circuit(vec![], vec![], vec![]);
    let a = c.synthesize(&config()).unwrap();
    assert_eq!(a.mtable.claim.total, 0);
    assert_eq!(a.jtable.claim.total, 0);
    assert!(a.mtable.check_accounting());
    assert!(a.jtable.check_accounting());
    assert_eq!(c.verify(&config()), Ok(()));
    let empty = valid_circuit().without_witnesses();
    assert!(empty.compile_tables.itable.is_empty());
    assert!(empty.execution_tables.etable.is_empty());
    assert_eq!(empty.verify(&config()), Ok(()));
}

#[test]
fn too_few_columns_is_a_configuration_error() {
    assert_eq!(TestCircuit::configure(19, 64, 16, caps(8)), Err(CircuitError::Configuration));
    assert!(TestCircuit::configure(20, 64, 16, caps(8)).is_ok());
    assert_eq!(TestCircuit::configure(51, 7, 4, caps(8)), Err(CircuitError::Configuration));
}

#[test]
fn lookups() {
    let p = program();
    assert!(itable::lookup(&p, 2, 3, 5));
    assert!(!itable::lookup(&p, 2, 3, 6));
    assert!(itable::check_unique_addresses(&p));
    assert!(!itable::check_unique_addresses(&vec![ins(1, 1, 1), ins(1, 2, 2)]));
    let init = vec![InitMemoryEntry { addr: 4, value: 11 }, InitMemoryEntry { addr: 5, value: 12 }];
    assert_eq!(imtable::lookup(&init, 5), 12);
    assert_eq!(imtable::lookup(&init, 6), 0);
}
