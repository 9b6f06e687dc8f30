use vstd::prelude::*;
use crate::trace::InitMemoryEntry;

verus! {

/// No two snapshot rows share an address.
pub open spec fn unique_init_addresses(init: Seq<InitMemoryEntry>) -> bool {
    forall|i: int, j: int|
        0 <= i < init.len() && 0 <= j < init.len() && i != j ==> init[i].addr != init[j].addr
}

/// Checks that no two snapshot rows share an address.
pub fn check_unique_addresses(init: &Vec<InitMemoryEntry>) -> (r: bool)
    ensures
        r == unique_init_addresses(init@),
{
    let n = init.len();
    let mut i: usize = 0;
    while i < n
        invariant
            n == init@.len(),
            i <= n,
            forall|a: int, b: int| 0 <= a < i && 0 <= b < n && a != b ==> init@[a].addr != init@[b].addr,
        decreases n - i,
    {
        let mut j: usize = 0;
        while j < n
            invariant
                n == init@.len(),
                i < n,
                j <= n,
                forall|b: int| 0 <= b < j && i != b ==> init@[i as int].addr != init@[b].addr,
            decreases n - j,
        {
            if j != i && init[i].addr == init[j].addr {
                return false;
            }
            j += 1;
        }
        i += 1;
    }
    true
}

/// The initial value of `addr`, searching the snapshot from row `i` on:
/// the first row for `addr`, or zero where no row holds it.
pub open spec fn init_value_from(init: Seq<InitMemoryEntry>, addr: u64, i: int) -> u64
    decreases init.len() - i,
{
    if i >= init.len() || i < 0 {
        0
    } else if init[i].addr == addr {
        init[i].value
    } else {
        init_value_from(init, addr, i + 1)
    }
}

/// The initial value of `addr`. An address the snapshot does not hold
/// starts at zero. The constraint system rejects a snapshot with two rows
/// for one address; on such a snapshot the first row is the one read.
pub open spec fn init_value(init: Seq<InitMemoryEntry>, addr: u64) -> u64 {
    init_value_from(init, addr, 0)
}

/// Looks up the initial value of `addr`.
pub fn lookup(init: &Vec<InitMemoryEntry>, addr: u64) -> (r: u64)
    ensures
        r == init_value(init@, addr),
{
    let n = init.len();
    let mut i: usize = 0;
    while i < n
        invariant
            n == init@.len(),
            i <= n,
            init_value(init@, addr) == init_value_from(init@, addr, i as int),
        decreases n - i,
    {
        if init[i].addr == addr {
            return init[i].value;
        }
        i += 1;
    }
    0
}

} // verus!
