use vstd::prelude::*;
use crate::error::{CircuitError, Table, Violation};
use crate::etable::{count_jops, count_mops, count_ops, opcodes_in_program, EventTable};
use crate::itable::{check_unique_addresses, unique_addresses};
use crate::jtable::{well_nested, JumpTable};
use crate::imtable::unique_init_addresses;
use crate::mtable::{ordered_in_range, reads_follow_previous, sort_rows, MemoryTable};
use crate::rtable::RangeTable;
use crate::trace::{
    CompileTable, Event, ExecutionTable, InitMemoryEntry, Instruction, JumpFrame, MemoryAccess,
};

verus! {

/// Working columns the circuit declares.
pub const VAR_COLUMNS: usize = 51;

/// Working columns the event table claims: step index, instruction
/// address, opcode, operand, the two flags and the two running counters.
pub const EVENT_COLUMNS: usize = 8;

/// Working columns the memory table claims: address, step, write flag,
/// value, running counter and the range-checked gap.
pub const MEMORY_COLUMNS: usize = 6;

/// Working columns the jump table claims: kind, source, target, return
/// address, running counter and depth.
pub const JUMP_COLUMNS: usize = 6;

/// The working columns the tables need together.
pub const NEEDED_COLUMNS: usize = EVENT_COLUMNS + MEMORY_COLUMNS + JUMP_COLUMNS;

/// The row capacity of each table, fixed at configuration.
#[derive(Clone, Copy, Debug, PartialEq, Eq, Structural)]
pub struct TableCapacities {
    pub instructions: usize,
    pub init_memory: usize,
    pub events: usize,
    pub memory: usize,
    pub jumps: usize,
}

/// The configured circuit: its working columns, the rows the backend
/// offers, the bound of the range domain and each table's capacity.
#[derive(Clone, Copy, Debug, PartialEq, Eq, Structural)]
pub struct TestCircuitConfig {
    pub columns: usize,
    pub rows: usize,
    pub range_bound: u64,
    pub capacities: TableCapacities,
}

/// A program image and one execution trace of it.
#[derive(Clone, Debug, Default)]
pub struct TestCircuit {
    pub compile_tables: CompileTable,
    pub execution_tables: ExecutionTable,
}

/// The first constraint the tables break, in the order they are checked,
/// or `None` where all hold. The event table claims `mops_claim` memory
/// operations and `jops_claim` jump operations.
pub open spec fn violation_of(
    range: RangeTable,
    prog: Seq<Instruction>,
    init: Seq<InitMemoryEntry>,
    events: Seq<Event>,
    mops_claim: int,
    rows: Seq<MemoryAccess>,
    jops_claim: int,
    frames: Seq<JumpFrame>,
) -> Option<Violation> {
    if !unique_addresses(prog) {
        Some(Violation::DuplicateInstructionAddress)
    } else if !unique_init_addresses(init) {
        Some(Violation::DuplicateInitMemoryAddress)
    } else if !opcodes_in_program(events, prog) {
        Some(Violation::OpcodeNotInProgram)
    } else if !ordered_in_range(rows, range) {
        Some(Violation::MemoryOutOfRange)
    } else if !reads_follow_previous(rows, init) {
        Some(Violation::MemoryInconsistent)
    } else if mops_claim != count_mops(events) || mops_claim != rows.len() {
        Some(Violation::MemoryAccounting)
    } else if !well_nested(frames) {
        Some(Violation::JumpNesting)
    } else if jops_claim != count_jops(events) || jops_claim != frames.len() {
        Some(Violation::JumpAccounting)
    } else {
        None
    }
}

/// The first constraint a trace breaks, with the claims its own steps make.
pub open spec fn trace_violation(
    range: RangeTable,
    prog: Seq<Instruction>,
    init: Seq<InitMemoryEntry>,
    events: Seq<Event>,
    rows: Seq<MemoryAccess>,
    frames: Seq<JumpFrame>,
) -> Option<Violation> {
    violation_of(
        range,
        prog,
        init,
        events,
        count_mops(events) as int,
        rows,
        count_jops(events) as int,
        frames,
    )
}

/// All tables, assigned.
#[derive(Debug)]
pub struct CircuitAssignment {
    pub range: RangeTable,
    pub itable: Vec<Instruction>,
    pub imtable: Vec<InitMemoryEntry>,
    pub etable: EventTable,
    pub mtable: MemoryTable,
    pub jtable: JumpTable,
}

impl CircuitAssignment {
    /// The first constraint the assigned rows break.
    pub open spec fn violation(&self) -> Option<Violation> {
        violation_of(
            self.range,
            self.itable@,
            self.imtable@,
            self.etable.events@,
            self.mtable.claim.total as int,
            self.mtable.rows@,
            self.jtable.claim.total as int,
            self.jtable.frames@,
        )
    }

    /// Evaluates the constraint system on the assigned rows.
    pub fn check(&self) -> (r: Result<(), CircuitError>)
        ensures
            self.violation() is None ==> r == Ok::<(), CircuitError>(()),
            self.violation() is Some ==> r == Err::<(), CircuitError>(
                CircuitError::Unsatisfiable(self.violation()->Some_0),
            ),
    {
        let (mops, jops) = count_ops(&self.etable.events);
        if !check_unique_addresses(&self.itable) {
            Err(CircuitError::Unsatisfiable(Violation::DuplicateInstructionAddress))
        } else if !crate::imtable::check_unique_addresses(&self.imtable) {
            Err(CircuitError::Unsatisfiable(Violation::DuplicateInitMemoryAddress))
        } else if !self.etable.check_opcodes(&self.itable) {
            Err(CircuitError::Unsatisfiable(Violation::OpcodeNotInProgram))
        } else if !self.mtable.check_order(&self.range) {
            Err(CircuitError::Unsatisfiable(Violation::MemoryOutOfRange))
        } else if !self.mtable.check_reads(&self.imtable) {
            Err(CircuitError::Unsatisfiable(Violation::MemoryInconsistent))
        } else if mops != self.mtable.claim.total || !self.mtable.check_accounting() {
            Err(CircuitError::Unsatisfiable(Violation::MemoryAccounting))
        } else if !self.jtable.check_nesting() {
            Err(CircuitError::Unsatisfiable(Violation::JumpNesting))
        } else if jops != self.jtable.claim.total || !self.jtable.check_accounting() {
            Err(CircuitError::Unsatisfiable(Violation::JumpAccounting))
        } else {
            Ok(())
        }
    }
}

fn copy_rows<T: Copy>(v: &Vec<T>) -> (r: Vec<T>)
    ensures
        r@ == v@,
{
    let mut r: Vec<T> = Vec::new();
    let n = v.len();
    let mut i: usize = 0;
    while i < n
        invariant
            n == v@.len(),
            i <= n,
            r@ == v@.take(i as int),
        decreases n - i,
    {
        r.push(v[i]);
        proof {
            assert(r@ =~= v@.take(i as int + 1));
        }
        i += 1;
    }
    proof {
        assert(v@.take(n as int) =~= v@);
    }
    r
}

impl TestCircuit {
    pub fn new(compile_tables: CompileTable, execution_tables: ExecutionTable) -> (r: Self)
        ensures
            r.compile_tables.itable@ == compile_tables.itable@,
            r.compile_tables.imtable@ == compile_tables.imtable@,
            r.execution_tables.etable@ == execution_tables.etable@,
            r.execution_tables.mtable@ == execution_tables.mtable@,
            r.execution_tables.jtable@ == execution_tables.jtable@,
    {
        TestCircuit { compile_tables, execution_tables }
    }

    /// The same circuit shape with no program and no trace.
    pub fn without_witnesses(&self) -> (r: Self)
        ensures
            r.compile_tables.itable@.len() == 0,
            r.compile_tables.imtable@.len() == 0,
            r.execution_tables.etable@.len() == 0,
            r.execution_tables.mtable@.len() == 0,
            r.execution_tables.jtable@.len() == 0,
    {
        TestCircuit {
            compile_tables: CompileTable { itable: Vec::new(), imtable: Vec::new() },
            execution_tables: ExecutionTable {
                etable: Vec::new(),
                mtable: Vec::new(),
                jtable: Vec::new(),
            },
        }
    }

    /// Declares the working columns and the backend's rows. Fails when the
    /// columns are fewer than the tables claim together, or a table's
    /// capacity exceeds the rows.
    pub fn configure(
        columns: usize,
        rows: usize,
        range_bound: u64,
        capacities: TableCapacities,
    ) -> (r: Result<TestCircuitConfig, CircuitError>)
        ensures
            r is Ok <==> (columns >= NEEDED_COLUMNS && capacities.instructions <= rows
                && capacities.init_memory <= rows && capacities.events <= rows
                && capacities.memory <= rows && capacities.jumps <= rows),
            r is Ok ==> r == Ok::<TestCircuitConfig, CircuitError>(
                (TestCircuitConfig { columns, rows, range_bound, capacities }),
            ),
            r is Err ==> r == Err::<TestCircuitConfig, CircuitError>(CircuitError::Configuration),
    {
        if columns < NEEDED_COLUMNS {
            return Err(CircuitError::Configuration);
        }
        if capacities.instructions > rows || capacities.init_memory > rows
            || capacities.events > rows || capacities.memory > rows || capacities.jumps > rows {
            return Err(CircuitError::Configuration);
        }
        Ok(TestCircuitConfig { columns, rows, range_bound, capacities })
    }

    /// The table that does not fit its capacity, the range table first,
    /// then in the order of assignment; `None` where all fit.
    pub open spec fn capacity_error(&self, config: TestCircuitConfig) -> Option<Table> {
        if config.range_bound as int > config.rows as int {
            Some(Table::Range)
        } else if self.compile_tables.itable@.len() > config.capacities.instructions {
            Some(Table::Instruction)
        } else if self.compile_tables.imtable@.len() > config.capacities.init_memory {
            Some(Table::InitMemory)
        } else if self.execution_tables.etable@.len() > config.capacities.events {
            Some(Table::Event)
        } else if self.execution_tables.mtable@.len() > config.capacities.memory {
            Some(Table::Memory)
        } else if self.execution_tables.jtable@.len() > config.capacities.jumps {
            Some(Table::Jump)
        } else {
            None
        }
    }

    /// `a` holds this circuit's program and trace as rows, the memory
    /// accesses sorted by `(address, step)`, with the claims the event
    /// table makes.
    pub open spec fn assigned(&self, config: TestCircuitConfig, a: CircuitAssignment) -> bool {
        &&& a.range == (RangeTable { bound: config.range_bound })
        &&& a.itable@ == self.compile_tables.itable@
        &&& a.imtable@ == self.compile_tables.imtable@
        &&& a.etable.events@ == self.execution_tables.etable@
        &&& a.mtable.rows@ == sort_rows(self.execution_tables.mtable@)
        &&& a.jtable.frames@ == self.execution_tables.jtable@
        &&& a.mtable.claim.total == count_mops(self.execution_tables.etable@)
        &&& a.jtable.claim.total == count_jops(self.execution_tables.etable@)
    }

    /// The first constraint this circuit's trace breaks, its memory
    /// accesses taken in `(address, step)` order.
    pub open spec fn violation(&self, config: TestCircuitConfig) -> Option<Violation> {
        trace_violation(
            RangeTable { bound: config.range_bound },
            self.compile_tables.itable@,
            self.compile_tables.imtable@,
            self.execution_tables.etable@,
            sort_rows(self.execution_tables.mtable@),
            self.execution_tables.jtable@,
        )
    }

    /// Fills the range domain, the program and snapshot tables, then the
    /// event table, whose claims go to the memory and jump tables. Fails
    /// with the first table that exceeds its capacity.
    pub fn synthesize(&self, config: &TestCircuitConfig) -> (r: Result<CircuitAssignment, CircuitError>)
        ensures
            self.capacity_error(*config) is None ==> r is Ok && self.assigned(*config, r->Ok_0),
            self.capacity_error(*config) is Some ==> r == Err::<CircuitAssignment, CircuitError>(
                CircuitError::CapacityExceeded(self.capacity_error(*config)->Some_0),
            ),
    {
        let range = RangeTable::init(config.range_bound, config.rows)?;
        if self.compile_tables.itable.len() > config.capacities.instructions {
            return Err(CircuitError::CapacityExceeded(Table::Instruction));
        }
        let itable = copy_rows(&self.compile_tables.itable);
        if self.compile_tables.imtable.len() > config.capacities.init_memory {
            return Err(CircuitError::CapacityExceeded(Table::InitMemory));
        }
        let imtable = copy_rows(&self.compile_tables.imtable);
        if self.execution_tables.etable.len() > config.capacities.events {
            return Err(CircuitError::CapacityExceeded(Table::Event));
        }
        let (etable, mops, jops) = EventTable::assign(copy_rows(&self.execution_tables.etable));
        let mtable = MemoryTable::assign(
            copy_rows(&self.execution_tables.mtable),
            mops,
            config.capacities.memory,
        )?;
        let jtable = JumpTable::assign(
            copy_rows(&self.execution_tables.jtable),
            jops,
            config.capacities.jumps,
        )?;
        Ok(CircuitAssignment { range, itable, imtable, etable, mtable, jtable })
    }

    /// Assigns the tables and evaluates the constraint system: a capacity
    /// error first, then the first constraint the trace breaks.
    pub fn verify(&self, config: &TestCircuitConfig) -> (r: Result<(), CircuitError>)
        ensures
            self.capacity_error(*config) is Some ==> r == Err::<(), CircuitError>(
                CircuitError::CapacityExceeded(self.capacity_error(*config)->Some_0),
            ),
            self.capacity_error(*config) is None && self.violation(*config) is Some ==> r == Err::<
                (),
                CircuitError,
            >(CircuitError::Unsatisfiable(self.violation(*config)->Some_0)),
            self.capacity_error(*config) is None && self.violation(*config) is None ==> r == Ok::<
                (),
                CircuitError,
            >(()),
    {
        let a = self.synthesize(config)?;
        a.check()
    }
}

} // verus!
