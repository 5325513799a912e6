//! The tri-state heap cell implementing call-by-need, and its traversal
//! hook for a tracing collector.

use vstd::prelude::*;
use crate::value::Value;

verus! {

/// The state of a heap cell: exactly one of three at any observable instant.
#[derive(Debug, PartialEq)]
pub enum LazyState {
    /// Under evaluation right now; no payload.
    Blackhole,
    /// Not yet evaluated; holds the callable value to invoke.
    Thunk(Value),
    /// Resolved; holds the memoized result, permanently.
    Value(Value),
}

/// A heap cell holding a suspended or memoized computation.
///
/// The state is read through [`Lazy::observe`] and mutated only by the
/// force operator; every transition replaces the state wholesale, so a
/// collector traversal never observes a partial update.
#[derive(Debug, PartialEq)]
pub struct Lazy {
    pub(crate) state: LazyState,
}

impl LazyState {
    /// The payloads that a collector traversal must be shown: none for a
    /// blackhole, exactly one for a thunk or a resolved cell.
    pub open spec fn payloads(self) -> Seq<Value> {
        match self {
            LazyState::Blackhole => Seq::empty(),
            LazyState::Thunk(v) => seq![v],
            LazyState::Value(v) => seq![v],
        }
    }
}

impl Clone for LazyState {
    fn clone(&self) -> (res: Self)
        ensures
            res == self,
    {
        match self {
            LazyState::Blackhole => LazyState::Blackhole,
            LazyState::Thunk(v) => LazyState::Thunk(v.clone()),
            LazyState::Value(v) => LazyState::Value(v.clone()),
        }
    }
}

impl View for Lazy {
    type V = LazyState;

    closed spec fn view(&self) -> LazyState {
        self.state
    }
}

impl Lazy {
    /// Builds a cell in the given state; transitions stay inside the crate.
    pub(crate) fn make(state: LazyState) -> (cell: Lazy)
        ensures
            cell@ == state,
    {
        Lazy { state }
    }

    /// Reads the current state without mutating anything.
    pub fn observe(&self) -> (state: &LazyState)
        ensures
            *state == self@,
    {
        &self.state
    }

    /// Reports the cell's currently reachable payloads to a collector by
    /// appending them to `visitor`: nothing while a blackhole, the wrapped
    /// callable for a thunk, the memoized result for a resolved cell.  The
    /// callable of a cell under evaluation is reachable through the operand
    /// stack instead, so no reference is lost.  Never fails.
    pub fn traverse(&self, visitor: &mut Vec<Value>)
        ensures
            final(visitor)@ == old(visitor)@ + self@.payloads(),
    {
        match &self.state {
            LazyState::Blackhole => {
                proof {
                    assert(visitor@ =~= old(visitor)@ + self@.payloads());
                }
            }
            LazyState::Thunk(v) => {
                visitor.push(v.clone());
                proof {
                    assert(visitor@ =~= old(visitor)@ + self@.payloads());
                }
            }
            LazyState::Value(v) => {
                visitor.push(v.clone());
                proof {
                    assert(visitor@ =~= old(visitor)@ + self@.payloads());
                }
            }
        }
    }
}

} // verus!
