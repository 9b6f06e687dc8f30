use vstd::prelude::*;
use crate::error::{CircuitError, Table};
use crate::etable::JopsClaim;
use crate::trace::JumpFrame;

verus! {

/// The return addresses of the calls still open after `frames`, innermost
/// last; `None` once a return does not land where the innermost open call
/// said, or comes with no call open.
pub open spec fn open_calls(frames: Seq<JumpFrame>) -> Option<Seq<u64>>
    decreases frames.len(),
{
    if frames.len() == 0 {
        Some(Seq::<u64>::empty())
    } else {
        match open_calls(frames.drop_last()) {
            None => None,
            Some(stack) => {
                let f = frames.last();
                if f.is_call {
                    Some(stack.push(f.return_pc))
                } else if stack.len() > 0 && stack.last() == f.to_pc {
                    Some(stack.drop_last())
                } else {
                    None
                }
            },
        }
    }
}

/// Every return closes the innermost open call, and no call is left open.
pub open spec fn well_nested(frames: Seq<JumpFrame>) -> bool {
    open_calls(frames) == Some(Seq::<u64>::empty())
}

/// The call depth after `frames`: calls less returns.
pub open spec fn depth(frames: Seq<JumpFrame>) -> int
    decreases frames.len(),
{
    if frames.len() == 0 {
        0
    } else {
        depth(frames.drop_last()) + if frames.last().is_call { 1int } else { -1int }
    }
}

proof fn lemma_open_calls_depth(frames: Seq<JumpFrame>)
    requires
        open_calls(frames) is Some,
    ensures
        open_calls(frames)->Some_0.len() == depth(frames),
        forall|n: int| 0 <= n <= frames.len() ==> open_calls(frames.take(n)) is Some,
    decreases frames.len(),
{
    if frames.len() > 0 {
        let prefix = frames.drop_last();
        lemma_open_calls_depth(prefix);
        assert forall|n: int| 0 <= n <= frames.len() implies open_calls(frames.take(n)) is Some by {
            if n < frames.len() {
                assert(frames.take(n) =~= prefix.take(n));
            } else {
                assert(frames.take(n) =~= frames);
            }
        }
    } else {
        assert forall|n: int| 0 <= n <= frames.len() implies open_calls(frames.take(n)) is Some by {
            assert(frames.take(n) =~= frames);
        }
    }
}

/// In well-nested frames the call depth never goes negative and returns to
/// zero at the end.
pub proof fn lemma_nesting_depth(frames: Seq<JumpFrame>)
    requires
        well_nested(frames),
    ensures
        depth(frames) == 0,
        forall|n: int| 0 <= n <= frames.len() ==> depth(#[trigger] frames.take(n)) >= 0,
{
    lemma_open_calls_depth(frames);
    assert forall|n: int| 0 <= n <= frames.len() implies depth(#[trigger] frames.take(n)) >= 0 by {
        lemma_open_calls_depth(frames.take(n));
    }
}

/// A return with no call open breaks the nesting, whatever follows it.
pub proof fn lemma_unmatched_return(frames: Seq<JumpFrame>, n: int)
    requires
        0 <= n < frames.len(),
        open_calls(frames.take(n)) == Some(Seq::<u64>::empty()),
        !frames[n].is_call,
    ensures
        !well_nested(frames),
{
    assert(frames.take(n + 1).drop_last() =~= frames.take(n));
    assert(open_calls(frames.take(n + 1)) is None);
    if open_calls(frames) is Some {
        lemma_open_calls_depth(frames);
    }
}

/// The assigned jump table: the frames, and the jump-op claim of the event
/// table that they must use up.
#[derive(Debug)]
pub struct JumpTable {
    pub claim: JopsClaim,
    pub frames: Vec<JumpFrame>,
}

impl JumpTable {
    /// The running counter reaches zero on the last frame.
    pub open spec fn accounting_closed(&self) -> bool {
        self.claim.total == self.frames@.len()
    }

    /// Assigns the frames in the order given, taking over the claim; fails
    /// when they are more than `capacity`.
    pub fn assign(frames: Vec<JumpFrame>, claim: JopsClaim, capacity: usize) -> (r: Result<
        JumpTable,
        CircuitError,
    >)
        ensures
            frames@.len() <= capacity ==> r is Ok && r->Ok_0.frames@ == frames@ && r->Ok_0.claim
                == claim,
            frames@.len() > capacity ==> r == Err::<JumpTable, CircuitError>(
                CircuitError::CapacityExceeded(Table::Jump),
            ),
    {
        if frames.len() > capacity {
            Err(CircuitError::CapacityExceeded(Table::Jump))
        } else {
            Ok(JumpTable { claim, frames })
        }
    }

    /// The running counter after `n` frames: the claim less the frames used.
    pub fn remaining_after(&self, n: usize) -> (r: i128)
        requires
            n <= self.frames@.len(),
        ensures
            r == self.claim.total - n,
    {
        self.claim.total as i128 - n as i128
    }

    /// Checks the running counter against the claim.
    pub fn check_accounting(&self) -> (r: bool)
        ensures
            r == self.accounting_closed(),
    {
        self.remaining_after(self.frames.len()) == 0
    }

    /// Checks that the frames are well nested.
    pub fn check_nesting(&self) -> (r: bool)
        ensures
            r == well_nested(self.frames@),
    {
        let n = self.frames.len();
        let mut stack: Vec<u64> = Vec::new();
        let mut i: usize = 0;
        while i < n
            invariant
                n == self.frames@.len(),
                i <= n,
                open_calls(self.frames@.take(i as int)) == Some(stack@),
            decreases n - i,
        {
            proof {
                assert(self.frames@.take(i as int + 1).drop_last() =~= self.frames@.take(i as int));
            }
            let f = self.frames[i];
            if f.is_call {
                stack.push(f.return_pc);
            } else {
                let top = stack.pop();
                match top {
                    Some(pc) => {
                        if pc != f.to_pc {
                            proof {
                                assert(open_calls(self.frames@.take(i as int + 1)) is None);
                                if open_calls(self.frames@) is Some {
                                    lemma_open_calls_depth(self.frames@);
                                }
                            }
                            return false;
                        }
                    },
                    None => {
                        proof {
                            assert(open_calls(self.frames@.take(i as int + 1)) is None);
                            if open_calls(self.frames@) is Some {
                                lemma_open_calls_depth(self.frames@);
                            }
                        }
                        return false;
                    },
                }
            }
            i += 1;
        }
        proof {
            assert(self.frames@.take(n as int) =~= self.frames@);
            if stack@.len() == 0 {
                assert(stack@ =~= Seq::<u64>::empty());
            }
        }
        stack.len() == 0
    }
}

} // verus!
