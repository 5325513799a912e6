//! The mathematical semantics of forcing: what one demand does to the heap
//! and what result it yields.
//!
//! `spec_force`, `spec_call` and `spec_run` form a big-step interpreter over
//! the heap's cell states.  The executable force operator is proved to
//! produce exactly these heap states and results.

use vstd::prelude::*;
use crate::cell::LazyState;
use crate::value::Callable;
use crate::value::Value;

verus! {

/// The fixed diagnostic produced when a demand reaches a cell already under
/// evaluation: direct or transitive self-reference within the same force.
pub open spec fn loop_text() -> Seq<char> {
    "<<loop>>"@
}

/// The diagnostic produced when the wrapped value is not callable.
pub open spec fn not_callable_text() -> Seq<char> {
    "attempt to call a non-callable value"@
}

/// The diagnostic produced when a callable names a heap reference that no
/// cell carries.
pub open spec fn bad_ref_text() -> Seq<char> {
    "invalid lazy reference"@
}

/// How many cells are thunks: the measure that every nested re-entry of the
/// force operator strictly shrinks, because a thunk is blackholed before
/// its callable runs.
pub open spec fn thunk_count(cells: Seq<LazyState>) -> nat
    decreases cells.len(),
{
    if cells.len() == 0 {
        0
    } else {
        thunk_count(cells.drop_last()) + (if cells.last() is Thunk {
            1nat
        } else {
            0nat
        })
    }
}

/// Replacing one cell state changes the thunk count exactly by the states'
/// own contributions.
pub proof fn lemma_thunk_count_update(cells: Seq<LazyState>, i: int, s: LazyState)
    requires
        0 <= i < cells.len(),
    ensures
        thunk_count(cells.update(i, s)) + (if cells[i] is Thunk {
            1int
        } else {
            0int
        }) == thunk_count(cells) + (if s is Thunk {
            1int
        } else {
            0int
        }),
    decreases cells.len(),
{
    let updated = cells.update(i, s);
    if i == cells.len() - 1 {
        assert(updated.drop_last() =~= cells.drop_last());
        assert(updated.last() == s);
    } else {
        lemma_thunk_count_update(cells.drop_last(), i, s);
        assert(updated.drop_last() =~= cells.drop_last().update(i, s));
        assert(updated.last() == cells.last());
    }
}

/// Forces the cell at reference `r`: the algorithm of one demand, by the
/// cell's current state.
///
/// - A blackhole is a re-entry into a cell already under evaluation: the
///   loop diagnostic, no mutation.
/// - A resolved cell yields its memoized value, with no mutation and no
///   re-invocation of anything.
/// - A thunk is blackholed first, then its callable runs; success memoizes
///   the result, failure leaves the blackhole in place permanently.
pub open spec fn spec_force(cells: Seq<LazyState>, r: int) -> (Seq<LazyState>, Result<
    Value,
    Seq<char>,
>)
    decreases thunk_count(cells), 0int,
    via spec_force_decreases
{
    if !(0 <= r < cells.len()) {
        (cells, Err(bad_ref_text()))
    } else {
        match cells[r] {
            LazyState::Blackhole => (cells, Err(loop_text())),
            LazyState::Value(v) => (cells, Ok(v)),
            LazyState::Thunk(f) => {
                let mid = spec_call(cells.update(r, LazyState::Blackhole), f);
                match mid.1 {
                    Ok(v) => (mid.0.update(r, LazyState::Value(v)), Ok(v)),
                    Err(m) => (mid.0, Err(m)),
                }
            },
        }
    }
}

#[via_fn]
proof fn spec_force_decreases(cells: Seq<LazyState>, r: int) {
    if 0 <= r < cells.len() && cells[r] is Thunk {
        lemma_thunk_count_update(cells, r, LazyState::Blackhole);
    }
}

/// Invokes a wrapped value: a callable runs, anything else fails.
pub open spec fn spec_call(cells: Seq<LazyState>, f: Value) -> (Seq<LazyState>, Result<
    Value,
    Seq<char>,
>)
    decreases thunk_count(cells), 2int,
{
    match f {
        Value::Callable(c) => spec_run(cells, c),
        _ => (cells, Err(not_callable_text())),
    }
}

/// Runs one callable body.
pub open spec fn spec_run(cells: Seq<LazyState>, c: Callable) -> (Seq<LazyState>, Result<
    Value,
    Seq<char>,
>)
    decreases thunk_count(cells), 1int,
{
    match c {
        Callable::Const(n) => (cells, Ok(Value::Int(n))),
        Callable::Fail(m) => (cells, Err(m@)),
        Callable::Force(r) => spec_force(cells, r as int),
        Callable::ForceThen(r, n) => {
            let mid = spec_force(cells, r as int);
            match mid.1 {
                Ok(_) => (mid.0, Ok(Value::Int(n))),
                Err(m) => (mid.0, Err(m)),
            }
        },
    }
}

/// What one demand may do to a single cell, seen from outside: a resolved
/// cell is permanent, a blackhole that the demand did not create stays a
/// blackhole, and a thunk either stays, is blackholed, or resolves.
pub open spec fn evolves(before: LazyState, after: LazyState) -> bool {
    match before {
        LazyState::Value(_) => after == before,
        LazyState::Blackhole => after is Blackhole,
        LazyState::Thunk(_) => after == before || after is Blackhole || after is Value,
    }
}

/// `evolves` composes across chained demands.
pub proof fn lemma_evolves_trans(a: LazyState, b: LazyState, c: LazyState)
    requires
        evolves(a, b),
        evolves(b, c),
    ensures
        evolves(a, c),
{
}

/// A force never allocates or frees cells, and each cell's state changes
/// only along `evolves`.
pub proof fn lemma_force_evolves(cells: Seq<LazyState>, r: int)
    ensures
        spec_force(cells, r).0.len() == cells.len(),
        forall|i: int|
            0 <= i < cells.len() ==> evolves(cells[i], #[trigger] spec_force(cells, r).0[i]),
    decreases thunk_count(cells), 0int,
{
    if 0 <= r < cells.len() && cells[r] is Thunk {
        let f = cells[r]->Thunk_0;
        let blackholed = cells.update(r, LazyState::Blackhole);
        lemma_thunk_count_update(cells, r, LazyState::Blackhole);
        lemma_call_evolves(blackholed, f);
        let mid = spec_call(blackholed, f);
        assert forall|i: int| 0 <= i < cells.len() implies evolves(
            cells[i],
            #[trigger] spec_force(cells, r).0[i],
        ) by {
            lemma_evolves_trans(cells[i], blackholed[i], mid.0[i]);
        }
    }
}

/// As `lemma_force_evolves`, for invoking a wrapped value.
pub proof fn lemma_call_evolves(cells: Seq<LazyState>, f: Value)
    ensures
        spec_call(cells, f).0.len() == cells.len(),
        forall|i: int|
            0 <= i < cells.len() ==> evolves(cells[i], #[trigger] spec_call(cells, f).0[i]),
    decreases thunk_count(cells), 2int,
{
    if f is Callable {
        lemma_run_evolves(cells, f->Callable_0);
    }
}

/// As `lemma_force_evolves`, for running one callable body.
pub proof fn lemma_run_evolves(cells: Seq<LazyState>, c: Callable)
    ensures
        spec_run(cells, c).0.len() == cells.len(),
        forall|i: int|
            0 <= i < cells.len() ==> evolves(cells[i], #[trigger] spec_run(cells, c).0[i]),
    decreases thunk_count(cells), 1int,
{
    match c {
        Callable::Force(r) => {
            lemma_force_evolves(cells, r as int);
        },
        Callable::ForceThen(r, _) => {
            lemma_force_evolves(cells, r as int);
        },
        _ => {},
    }
}

} // verus!
