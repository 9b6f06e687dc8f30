use vstd::prelude::*;
use crate::error::{CircuitError, Table};
use crate::etable::MopsClaim;
use crate::imtable::{init_value, lookup};
use crate::rtable::RangeTable;
use crate::trace::{InitMemoryEntry, MemoryAccess};

verus! {

/// `a` comes before `b` in `(address, step)` order.
pub open spec fn key_lt(a: MemoryAccess, b: MemoryAccess) -> bool {
    a.addr < b.addr || (a.addr == b.addr && a.step < b.step)
}

/// No row comes after a later row in `(address, step)` order.
pub open spec fn sorted_by_key(rows: Seq<MemoryAccess>) -> bool {
    forall|i: int, j: int| 0 <= i < j < rows.len() ==> !key_lt(rows[j], rows[i])
}

/// Where `x` goes in sorted `rows`, searching from `j`: before the first
/// row that `x` comes before, else at the end.
pub open spec fn insert_pos(rows: Seq<MemoryAccess>, x: MemoryAccess, j: int) -> int
    decreases rows.len() - j,
{
    if j < 0 || j >= rows.len() {
        rows.len() as int
    } else if key_lt(x, rows[j]) {
        j
    } else {
        insert_pos(rows, x, j + 1)
    }
}

/// The rows sorted by `(address, step)`, inserting each in turn after the
/// rows it does not come before, so that rows of equal key keep their order.
pub open spec fn sort_rows(rows: Seq<MemoryAccess>) -> Seq<MemoryAccess>
    decreases rows.len(),
{
    if rows.len() == 0 {
        rows
    } else {
        let sorted = sort_rows(rows.drop_last());
        sorted.insert(insert_pos(sorted, rows.last(), 0), rows.last())
    }
}

proof fn lemma_insert_pos(rows: Seq<MemoryAccess>, x: MemoryAccess, j: int)
    requires
        0 <= j <= rows.len(),
    ensures
        j <= insert_pos(rows, x, j) <= rows.len(),
        forall|k: int| j <= k < insert_pos(rows, x, j) ==> !key_lt(x, rows[k]),
        insert_pos(rows, x, j) < rows.len() ==> key_lt(x, rows[insert_pos(rows, x, j)]),
    decreases rows.len() - j,
{
    if j < rows.len() && !key_lt(x, rows[j]) {
        lemma_insert_pos(rows, x, j + 1);
    }
}

proof fn lemma_insert_sorted(rows: Seq<MemoryAccess>, x: MemoryAccess)
    requires
        sorted_by_key(rows),
    ensures
        0 <= insert_pos(rows, x, 0) <= rows.len(),
        sorted_by_key(rows.insert(insert_pos(rows, x, 0), x)),
        rows.insert(insert_pos(rows, x, 0), x).to_multiset() =~= rows.to_multiset().insert(x),
{
    let p = insert_pos(rows, x, 0);
    lemma_insert_pos(rows, x, 0);
    let t = rows.insert(p, x);
    assert forall|i: int, j: int| 0 <= i < j < t.len() implies !key_lt(t[j], t[i]) by {
        if i < p && j > p {
            assert(!key_lt(rows[j - 1], rows[i]));
        } else if i == p && j > p {
            assert(!key_lt(rows[j - 1], rows[p]));
        }
    }
    assert(t.remove(p) =~= rows);
    broadcast use vstd::seq_lib::group_to_multiset_ensures;
    assert(t.to_multiset().remove(x) =~= rows.to_multiset());
    assert(t.contains(x)) by {
        assert(t[p] == x);
    }
    assert(t.to_multiset().count(x) > 0);
}

/// Sorting puts the rows in `(address, step)` order and keeps each row,
/// as often as it occurs.
pub proof fn lemma_sort_rows(rows: Seq<MemoryAccess>)
    ensures
        sorted_by_key(sort_rows(rows)),
        sort_rows(rows).to_multiset() =~= rows.to_multiset(),
    decreases rows.len(),
{
    if rows.len() > 0 {
        let prefix = rows.drop_last();
        lemma_sort_rows(prefix);
        lemma_insert_sorted(sort_rows(prefix), rows.last());
        assert(prefix.push(rows.last()) =~= rows);
        broadcast use vstd::seq_lib::group_to_multiset_ensures;
        assert(rows.to_multiset() =~= prefix.to_multiset().insert(rows.last()));
    }
}

/// Sorts the rows by `(address, step)`, keeping rows of equal key in order.
pub fn sort_by_key(rows: &Vec<MemoryAccess>) -> (r: Vec<MemoryAccess>)
    ensures
        r@ == sort_rows(rows@),
{
    let n = rows.len();
    let mut sorted: Vec<MemoryAccess> = Vec::new();
    let mut i: usize = 0;
    while i < n
        invariant
            n == rows@.len(),
            i <= n,
            sorted@ == sort_rows(rows@.take(i as int)),
        decreases n - i,
    {
        let x = rows[i];
        proof {
            lemma_sort_rows(rows@.take(i as int));
            lemma_insert_pos(sorted@, x, 0);
        }
        let m = sorted.len();
        let mut j: usize = 0;
        while j < m && !(x.addr < sorted[j].addr || (x.addr == sorted[j].addr && x.step < sorted[j].step))
            invariant
                m == sorted@.len(),
                j <= m,
                insert_pos(sorted@, x, 0) == insert_pos(sorted@, x, j as int),
            decreases m - j,
        {
            j += 1;
        }
        sorted.insert(j, x);
        proof {
            assert(rows@.take(i as int + 1).drop_last() =~= rows@.take(i as int));
        }
        i += 1;
    }
    proof {
        assert(rows@.take(n as int) =~= rows@);
    }
    sorted
}

/// Row `i` follows row `i - 1` within the range domain: by step at the
/// same address, else by address.
pub open spec fn gap_ok(rows: Seq<MemoryAccess>, range: RangeTable, i: int) -> bool {
    if rows[i - 1].addr == rows[i].addr {
        range.spec_contains(rows[i].step - rows[i - 1].step - 1)
    } else {
        range.spec_contains(rows[i].addr - rows[i - 1].addr - 1)
    }
}

/// The rows are sorted by `(address, step)`, each gap proved by a lookup
/// into the range domain.
pub open spec fn ordered_in_range(rows: Seq<MemoryAccess>, range: RangeTable) -> bool {
    forall|i: int| 1 <= i < rows.len() ==> gap_ok(rows, range, i)
}

/// The value a read in row `i` must return by the row constraint: that of
/// the row before at the same address, else the initial value.
pub open spec fn prev_value(rows: Seq<MemoryAccess>, init: Seq<InitMemoryEntry>, i: int) -> u64 {
    if i > 0 && rows[i - 1].addr == rows[i].addr {
        rows[i - 1].value
    } else {
        init_value(init, rows[i].addr)
    }
}

/// The row constraint holds on every read.
pub open spec fn reads_follow_previous(rows: Seq<MemoryAccess>, init: Seq<InitMemoryEntry>) -> bool {
    forall|i: int|
        0 <= i < rows.len() && !rows[i].is_write ==> rows[i].value == prev_value(rows, init, i)
}

/// The last write to `addr` among the first `n` rows.
pub open spec fn last_write_before(rows: Seq<MemoryAccess>, addr: u64, n: int) -> Option<int>
    decreases n,
{
    if n <= 0 {
        None
    } else if rows[n - 1].addr == addr && rows[n - 1].is_write {
        Some(n - 1)
    } else {
        last_write_before(rows, addr, n - 1)
    }
}

/// The value of the last write to row `i`'s address before it, or the
/// initial value where there is none.
pub open spec fn expected_read(rows: Seq<MemoryAccess>, init: Seq<InitMemoryEntry>, i: int) -> u64 {
    match last_write_before(rows, rows[i].addr, i) {
        Some(j) => rows[j].value,
        None => init_value(init, rows[i].addr),
    }
}

/// Every read returns the value of the most recent write to its address,
/// or the initial value where none came before.
pub open spec fn reads_see_last_write(rows: Seq<MemoryAccess>, init: Seq<InitMemoryEntry>) -> bool {
    forall|i: int|
        0 <= i < rows.len() && !rows[i].is_write ==> rows[i].value == expected_read(rows, init, i)
}

proof fn lemma_order_pair(rows: Seq<MemoryAccess>, range: RangeTable, j: int, i: int)
    requires
        ordered_in_range(rows, range),
        0 <= j < i < rows.len(),
    ensures
        rows[j].addr <= rows[i].addr,
        rows[j].addr == rows[i].addr ==> rows[j].step < rows[i].step,
    decreases i - j,
{
    assert(gap_ok(rows, range, i));
    if j < i - 1 {
        lemma_order_pair(rows, range, j, i - 1);
    }
}

/// Sorted rows within the range domain put the accesses to one address in
/// the order of their steps.
pub proof fn lemma_rows_in_step_order(rows: Seq<MemoryAccess>, range: RangeTable)
    requires
        ordered_in_range(rows, range),
    ensures
        forall|j: int, i: int|
            0 <= j < i < rows.len() ==> rows[j].addr <= rows[i].addr && (rows[j].addr
                == rows[i].addr ==> rows[j].step < rows[i].step),
{
    assert forall|j: int, i: int| 0 <= j < i < rows.len() implies rows[j].addr <= rows[i].addr && (
    rows[j].addr == rows[i].addr ==> rows[j].step < rows[i].step) by {
        lemma_order_pair(rows, range, j, i);
    }
}

proof fn lemma_no_write_before(rows: Seq<MemoryAccess>, addr: u64, n: int)
    requires
        n <= rows.len(),
        forall|j: int| 0 <= j < n ==> rows[j].addr != addr,
    ensures
        last_write_before(rows, addr, n) == None::<int>,
    decreases n,
{
    if n > 0 {
        lemma_no_write_before(rows, addr, n - 1);
    }
}

proof fn lemma_prev_matches(
    rows: Seq<MemoryAccess>,
    init: Seq<InitMemoryEntry>,
    range: RangeTable,
    i: int,
)
    requires
        ordered_in_range(rows, range),
        0 <= i < rows.len(),
        forall|j: int| 0 <= j < i && !rows[j].is_write ==> rows[j].value == expected_read(rows, init, j),
    ensures
        prev_value(rows, init, i) == expected_read(rows, init, i),
{
    let a = rows[i].addr;
    if i > 0 && rows[i - 1].addr == a {
        if rows[i - 1].is_write {
            assert(last_write_before(rows, a, i) == Some(i - 1));
        } else {
            assert(last_write_before(rows, a, i) == last_write_before(rows, a, i - 1));
            assert(rows[i - 1].value == expected_read(rows, init, i - 1));
        }
    } else {
        if i > 0 {
            assert(gap_ok(rows, range, i));
            assert forall|j: int| 0 <= j < i implies rows[j].addr != a by {
                if j < i - 1 {
                    lemma_order_pair(rows, range, j, i - 1);
                }
            }
        }
        lemma_no_write_before(rows, a, i);
    }
}

proof fn lemma_follow_to_last_write(
    rows: Seq<MemoryAccess>,
    init: Seq<InitMemoryEntry>,
    range: RangeTable,
    n: int,
)
    requires
        ordered_in_range(rows, range),
        reads_follow_previous(rows, init),
        0 <= n <= rows.len(),
    ensures
        forall|j: int| 0 <= j < n && !rows[j].is_write ==> rows[j].value == expected_read(rows, init, j),
    decreases n,
{
    if n > 0 {
        lemma_follow_to_last_write(rows, init, range, n - 1);
        lemma_prev_matches(rows, init, range, n - 1);
    }
}

/// On rows sorted by `(address, step)` within the range domain, the row
/// constraint (a read returns the value of the row before at its address,
/// or the initial value) holds exactly when every read returns the value
/// of the most recent earlier write to its address, or the initial value
/// where none came before.
pub proof fn lemma_memory_consistency(
    rows: Seq<MemoryAccess>,
    init: Seq<InitMemoryEntry>,
    range: RangeTable,
)
    requires
        ordered_in_range(rows, range),
    ensures
        reads_follow_previous(rows, init) <==> reads_see_last_write(rows, init),
{
    if reads_follow_previous(rows, init) {
        lemma_follow_to_last_write(rows, init, range, rows.len() as int);
    }
    if reads_see_last_write(rows, init) {
        assert forall|i: int| 0 <= i < rows.len() && !rows[i].is_write implies rows[i].value
            == prev_value(rows, init, i) by {
            lemma_prev_matches(rows, init, range, i);
        }
    }
}

/// The assigned memory table: the access records, and the memory-op claim
/// of the event table that they must use up.
#[derive(Debug)]
pub struct MemoryTable {
    pub claim: MopsClaim,
    pub rows: Vec<MemoryAccess>,
}

impl MemoryTable {
    /// The running counter reaches zero on the last row.
    pub open spec fn accounting_closed(&self) -> bool {
        self.claim.total == self.rows@.len()
    }

    /// Assigns the records sorted by `(address, step)`, taking over the
    /// claim; fails when they are more than `capacity`.
    pub fn assign(rows: Vec<MemoryAccess>, claim: MopsClaim, capacity: usize) -> (r: Result<
        MemoryTable,
        CircuitError,
    >)
        ensures
            rows@.len() <= capacity ==> r is Ok && r->Ok_0.rows@ == sort_rows(rows@)
                && r->Ok_0.claim == claim,
            rows@.len() > capacity ==> r == Err::<MemoryTable, CircuitError>(
                CircuitError::CapacityExceeded(Table::Memory),
            ),
    {
        if rows.len() > capacity {
            Err(CircuitError::CapacityExceeded(Table::Memory))
        } else {
            Ok(MemoryTable { claim, rows: sort_by_key(&rows) })
        }
    }

    /// The running counter after `n` rows: the claim less the rows used.
    pub fn remaining_after(&self, n: usize) -> (r: i128)
        requires
            n <= self.rows@.len(),
        ensures
            r == self.claim.total - n,
    {
        self.claim.total as i128 - n as i128
    }

    /// Checks the running counter against the claim.
    pub fn check_accounting(&self) -> (r: bool)
        ensures
            r == self.accounting_closed(),
    {
        self.remaining_after(self.rows.len()) == 0
    }

    /// Checks that the rows are sorted by `(address, step)` within the
    /// range domain.
    pub fn check_order(&self, range: &RangeTable) -> (r: bool)
        ensures
            r == ordered_in_range(self.rows@, *range),
    {
        let n = self.rows.len();
        let mut i: usize = 1;
        while i < n
            invariant
                n == self.rows@.len(),
                1 <= i,
                forall|k: int| 1 <= k < i && k < n ==> gap_ok(self.rows@, *range, k),
            decreases n - i,
        {
            let prev = self.rows[i - 1];
            let cur = self.rows[i];
            let ok = if prev.addr == cur.addr {
                range.contains_gap(prev.step, cur.step)
            } else {
                range.contains_gap(prev.addr, cur.addr)
            };
            if !ok {
                assert(!gap_ok(self.rows@, *range, i as int));
                return false;
            }
            i += 1;
        }
        true
    }

    /// Checks the row constraint on every read.
    pub fn check_reads(&self, init: &Vec<InitMemoryEntry>) -> (r: bool)
        ensures
            r == reads_follow_previous(self.rows@, init@),
    {
        let n = self.rows.len();
        let mut i: usize = 0;
        while i < n
            invariant
                n == self.rows@.len(),
                i <= n,
                forall|k: int|
                    0 <= k < i && !self.rows@[k].is_write ==> self.rows@[k].value == prev_value(
                        self.rows@,
                        init@,
                        k,
                    ),
            decreases n - i,
        {
            let cur = self.rows[i];
            if !cur.is_write {
                let expected = if i > 0 && self.rows[i - 1].addr == cur.addr {
                    self.rows[i - 1].value
                } else {
                    lookup(init, cur.addr)
                };
                if cur.value != expected {
                    assert(self.rows@[i as int].value != prev_value(self.rows@, init@, i as int));
                    return false;
                }
            }
            i += 1;
        }
        true
    }
}

} // verus!
