//! The library-wide laws of forcing, stated and proved over the semantics
//! that the executable force operator is verified against.

use vstd::prelude::*;
use crate::cell::LazyState;
use crate::semantics::lemma_call_evolves;
use crate::semantics::lemma_force_evolves;
use crate::semantics::loop_text;
use crate::semantics::spec_call;
use crate::semantics::spec_force;
use crate::semantics::spec_run;
use crate::value::Callable;
use crate::value::Value;

verus! {

/// Law: forcing a resolved cell yields the memoized value every time and
/// changes nothing — no cell moves and nothing is invoked, so repeated
/// forces are idempotent.
pub proof fn lemma_force_memoized(cells: Seq<LazyState>, r: int, v: Value)
    requires
        0 <= r < cells.len(),
        cells[r] == LazyState::Value(v),
    ensures
        spec_force(cells, r) == (cells, Ok::<Value, Seq<char>>(v)),
{
}

/// Law: a thunk whose callable forces its own enclosing cell observes the
/// blackhole that this very force installed.  The loop diagnostic arises at
/// the point of self-reference, the callable propagates it, and the cell is
/// left a blackhole.
pub proof fn lemma_force_self_reference(cells: Seq<LazyState>, r: usize)
    requires
        (r as int) < cells.len(),
        cells[r as int] == LazyState::Thunk(Value::Callable(Callable::Force(r))),
    ensures
        spec_force(cells, r as int) == (
            cells.update(r as int, LazyState::Blackhole),
            Err::<Value, Seq<char>>(loop_text()),
        ),
{
    reveal_with_fuel(spec_force, 2);
}

/// Law: what one force does to the cell it was aimed at.  A thunk is
/// memoized exactly on success and left a blackhole permanently on
/// failure; a blackhole yields the loop diagnostic without any mutation;
/// a resolved cell is terminal.
pub proof fn lemma_force_outcome(cells: Seq<LazyState>, r: int)
    requires
        0 <= r < cells.len(),
    ensures
        cells[r] is Thunk ==> (match spec_force(cells, r).1 {
            Ok(v) => spec_force(cells, r).0[r] == LazyState::Value(v),
            Err(_) => spec_force(cells, r).0[r] is Blackhole,
        }),
        cells[r] is Blackhole ==> spec_force(cells, r) == (
            cells,
            Err::<Value, Seq<char>>(loop_text()),
        ),
        cells[r] matches LazyState::Value(v) ==> spec_force(cells, r) == (
            cells,
            Ok::<Value, Seq<char>>(v),
        ),
{
    if cells[r] is Thunk {
        let f = cells[r]->Thunk_0;
        let blackholed = cells.update(r, LazyState::Blackhole);
        lemma_call_evolves(blackholed, f);
    }
}

/// Law: a failed force is not retried.  Forcing the same cell again
/// observes the blackhole and yields the loop diagnostic, not the original
/// failure.
pub proof fn lemma_failed_force_not_retryable(cells: Seq<LazyState>, r: int)
    requires
        0 <= r < cells.len(),
        cells[r] is Thunk,
        spec_force(cells, r).1 is Err,
    ensures
        spec_force(spec_force(cells, r).0, r) == (
            spec_force(cells, r).0,
            Err::<Value, Seq<char>>(loop_text()),
        ),
{
    lemma_force_outcome(cells, r);
    lemma_force_evolves(cells, r);
}

/// Law: after a successful force of a thunk, a traversal of the cell
/// visits exactly the memoized value and nothing else.
pub proof fn lemma_traverse_after_force(cells: Seq<LazyState>, r: int)
    requires
        0 <= r < cells.len(),
        cells[r] is Thunk,
        spec_force(cells, r).1 is Ok,
    ensures
        spec_force(cells, r).0[r].payloads() == seq![spec_force(cells, r).1->Ok_0],
{
    lemma_force_outcome(cells, r);
}

/// Law: two independent, non-self-referential thunks forced one inside the
/// other's evaluation both resolve to their own values, with no state
/// corruption across the nested re-entry.
pub proof fn lemma_force_nested_independent(
    cells: Seq<LazyState>,
    a: usize,
    b: usize,
    m: i64,
    n: i64,
)
    requires
        (a as int) < cells.len(),
        (b as int) < cells.len(),
        a != b,
        cells[a as int] == LazyState::Thunk(Value::Callable(Callable::ForceThen(b, m))),
        cells[b as int] == LazyState::Thunk(Value::Callable(Callable::Const(n))),
    ensures
        spec_force(cells, a as int) == (
            cells.update(b as int, LazyState::Value(Value::Int(n))).update(
                a as int,
                LazyState::Value(Value::Int(m)),
            ),
            Ok::<Value, Seq<char>>(Value::Int(m)),
        ),
{
    reveal_with_fuel(spec_force, 3);
    reveal_with_fuel(spec_call, 3);
    reveal_with_fuel(spec_run, 3);
    let c1 = cells.update(a as int, LazyState::Blackhole);
    let c2 = c1.update(b as int, LazyState::Blackhole);
    let c3 = c2.update(b as int, LazyState::Value(Value::Int(n)));
    assert(c1[b as int] == cells[b as int]);
    assert(spec_force(c1, b as int) == (c3, Ok::<Value, Seq<char>>(Value::Int(n))));
    assert(c3.update(a as int, LazyState::Value(Value::Int(m))) =~= cells.update(
        b as int,
        LazyState::Value(Value::Int(n)),
    ).update(a as int, LazyState::Value(Value::Int(m))));
}

} // verus!
