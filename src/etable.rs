use vstd::prelude::*;
use crate::itable::{has_row, lookup};
use crate::trace::{Event, Instruction};

verus! {

/// The number of steps that touch memory.
pub open spec fn count_mops(events: Seq<Event>) -> nat
    decreases events.len(),
{
    if events.len() == 0 {
        0
    } else {
        count_mops(events.drop_last()) + if events.last().is_mop { 1nat } else { 0nat }
    }
}

/// The number of steps that transfer control.
pub open spec fn count_jops(events: Seq<Event>) -> nat
    decreases events.len(),
{
    if events.len() == 0 {
        0
    } else {
        count_jops(events.drop_last()) + if events.last().is_jop { 1nat } else { 0nat }
    }
}

/// Every step ran an instruction of the program.
pub open spec fn opcodes_in_program(events: Seq<Event>, prog: Seq<Instruction>) -> bool {
    forall|i: int|
        0 <= i < events.len() ==> has_row(prog, events[i].iaddr, events[i].opcode, events[i].operand)
}

/// No more operations are claimed than there are steps.
pub proof fn lemma_counts_bounded(events: Seq<Event>)
    ensures
        count_mops(events) <= events.len(),
        count_jops(events) <= events.len(),
    decreases events.len(),
{
    if events.len() > 0 {
        lemma_counts_bounded(events.drop_last());
    }
}

/// Counts the steps that touch memory and those that transfer control.
pub fn count_ops(events: &Vec<Event>) -> (r: (usize, usize))
    ensures
        r.0 == count_mops(events@),
        r.1 == count_jops(events@),
{
    let n = events.len();
    let mut mops: usize = 0;
    let mut jops: usize = 0;
    let mut i: usize = 0;
    while i < n
        invariant
            n == events@.len(),
            i <= n,
            mops == count_mops(events@.take(i as int)),
            jops == count_jops(events@.take(i as int)),
        decreases n - i,
    {
        proof {
            assert(events@.take(i as int + 1).drop_last() =~= events@.take(i as int));
            lemma_counts_bounded(events@.take(i as int));
        }
        if events[i].is_mop {
            mops += 1;
        }
        if events[i].is_jop {
            jops += 1;
        }
        i += 1;
    }
    proof {
        assert(events@.take(n as int) =~= events@);
    }
    (mops, jops)
}

/// The number of memory operations the event table claims. It is handed
/// by value to the memory table, which must use it up.
#[derive(Debug, PartialEq, Eq, Structural)]
pub struct MopsClaim {
    pub total: usize,
}

/// The number of jump operations the event table claims. It is handed by
/// value to the jump table, which must use it up.
#[derive(Debug, PartialEq, Eq, Structural)]
pub struct JopsClaim {
    pub total: usize,
}

/// The assigned event table: the steps, in trace order.
#[derive(Clone, Debug)]
pub struct EventTable {
    pub events: Vec<Event>,
}

impl EventTable {
    /// Assigns the steps and counts the operations they dispatch to the
    /// memory and jump tables.
    pub fn assign(events: Vec<Event>) -> (r: (EventTable, MopsClaim, JopsClaim))
        ensures
            r.0.events@ == events@,
            r.1.total == count_mops(events@),
            r.2.total == count_jops(events@),
    {
        let (mops, jops) = count_ops(&events);
        (EventTable { events }, MopsClaim { total: mops }, JopsClaim { total: jops })
    }

    /// Checks that every step ran an instruction of the program.
    pub fn check_opcodes(&self, prog: &Vec<Instruction>) -> (r: bool)
        ensures
            r == opcodes_in_program(self.events@, prog@),
    {
        let n = self.events.len();
        let mut i: usize = 0;
        while i < n
            invariant
                n == self.events@.len(),
                i <= n,
                forall|k: int|
                    0 <= k < i ==> has_row(prog@, self.events@[k].iaddr, self.events@[k].opcode, self.events@[k].operand),
            decreases n - i,
        {
            let e = self.events[i];
            if !lookup(prog, e.iaddr, e.opcode, e.operand) {
                return false;
            }
            i += 1;
        }
        true
    }
}

} // verus!
