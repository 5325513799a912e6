//! The machine state that the lazy core works on — heap cells, operand
//! stack, invocation counter — and the thunk constructor and force operator.

use vstd::prelude::*;
use vstd::string::StringExecFns;
use crate::cell::Lazy;
use crate::cell::LazyState;
use crate::semantics::lemma_call_evolves;
use crate::semantics::lemma_thunk_count_update;
use crate::semantics::spec_call;
use crate::semantics::spec_force;
use crate::semantics::spec_run;
use crate::semantics::thunk_count;
use crate::value::Callable;
use crate::value::Value;

verus! {

/// What a primitive reports to the dispatch loop.
#[derive(Clone, Copy, Debug, PartialEq, Eq, Structural)]
pub enum Status {
    /// The operation succeeded; its result is the top of the stack.
    Success,
    /// The operation failed; the error value is the top of the stack.
    Error,
}

/// An evaluation failure, flattened to text.
#[derive(Debug, PartialEq)]
pub struct EvalError {
    /// The failure rendered as text.
    pub message: String,
}

impl View for EvalError {
    type V = Seq<char>;

    open spec fn view(&self) -> Seq<char> {
        self.message@
    }
}

/// The machine state threaded explicitly through every operation: the heap
/// of lazy cells, the operand stack, and a count of callable invocations.
pub struct VM {
    cells: Vec<Lazy>,
    stack: Vec<Value>,
    invocations: u64,
}

impl VM {
    /// The states of the heap's cells, in allocation order.
    pub closed spec fn cellsv(&self) -> Seq<LazyState> {
        self.cells@.map_values(|c: Lazy| c@)
    }

    /// The operand stack, bottom first.
    pub closed spec fn stackv(&self) -> Seq<Value> {
        self.stack@
    }

    /// How many callable invocations the evaluator has run.
    pub closed spec fn invocationsv(&self) -> u64 {
        self.invocations
    }

    /// Whether the stack's top value is a reference to an allocated cell.
    pub open spec fn top_is_lazy_ref(&self) -> bool {
        &&& self.stackv().len() >= 1
        &&& self.stackv().last() matches Value::Lazy(r) && (r as int) < self.cellsv().len()
    }

    /// The cell reference on top of the stack.
    pub open spec fn top_ref(&self) -> usize {
        match self.stackv().last() {
            Value::Lazy(r) => r,
            _ => 0,
        }
    }

    /// A fresh machine: no cells, an empty stack, nothing invoked yet.
    pub fn new() -> (vm: VM)
        ensures
            vm.cellsv() == Seq::<LazyState>::empty(),
            vm.stackv() == Seq::<Value>::empty(),
            vm.invocationsv() == 0,
    {
        let vm = VM { cells: Vec::new(), stack: Vec::new(), invocations: 0 };
        proof {
            assert(vm.cellsv() =~= Seq::<LazyState>::empty());
        }
        vm
    }

    /// Pushes one value on the operand stack.
    pub fn push(&mut self, v: Value)
        ensures
            final(self).stackv() == old(self).stackv().push(v),
            final(self).cellsv() == old(self).cellsv(),
            final(self).invocationsv() == old(self).invocationsv(),
    {
        self.stack.push(v);
    }

    /// Pops the top of the operand stack, if any.
    pub fn pop(&mut self) -> (v: Option<Value>)
        ensures
            final(self).cellsv() == old(self).cellsv(),
            final(self).invocationsv() == old(self).invocationsv(),
            old(self).stackv().len() == 0 ==> v is None
                && final(self).stackv() == old(self).stackv(),
            old(self).stackv().len() > 0 ==> v == Some(old(self).stackv().last())
                && final(self).stackv() == old(self).stackv().drop_last(),
    {
        self.stack.pop()
    }

    /// The operand stack's height.
    pub fn stack_len(&self) -> (n: usize)
        ensures
            n == self.stackv().len(),
    {
        self.stack.len()
    }

    /// How many cells the heap holds.
    pub fn cell_count(&self) -> (n: usize)
        ensures
            n == self.cellsv().len(),
    {
        self.cells.len()
    }

    /// How many callable invocations the evaluator has run.
    pub fn invocations(&self) -> (n: u64)
        ensures
            n == self.invocationsv(),
    {
        self.invocations
    }

    /// Borrows the cell at a reference, for observation or traversal.
    pub fn cell(&self, r: usize) -> (c: &Lazy)
        requires
            (r as int) < self.cellsv().len(),
        ensures
            c@ == self.cellsv()[r as int],
    {
        &self.cells[r]
    }
}

/// Wraps the value on top of the stack as a suspended computation: a new
/// cell is allocated in the thunk state holding that value, and the value
/// on the stack is replaced by a reference to the cell.
pub fn lazy(vm: &mut VM) -> (s: Status)
    requires
        old(vm).stackv().len() >= 1,
    ensures
        s == Status::Success,
        final(vm).cellsv() == old(vm).cellsv().push(LazyState::Thunk(old(vm).stackv().last())),
        final(vm).stackv() == old(vm).stackv().update(
            old(vm).stackv().len() - 1,
            Value::Lazy(old(vm).cellsv().len() as usize),
        ),
        final(vm).invocationsv() == old(vm).invocationsv(),
{
    let top = vm.stack.len() - 1;
    let f = vm.stack[top].clone();
    let r = vm.cells.len();
    vm.cells.push(Lazy::make(LazyState::Thunk(f)));
    vm.stack[top] = Value::Lazy(r);
    proof {
        assert(vm.cellsv() =~= old(vm).cellsv().push(
            LazyState::Thunk(old(vm).stackv().last()),
        ));
    }
    Status::Success
}

/// Forces the cell referenced by the top of the stack: the call-by-need
/// resolution algorithm.
///
/// On return the stack height is back to its entry value and the slot that
/// held the reference holds the outcome: the cell's value on success, the
/// error text on failure.  Slots below that boundary are untouched however
/// the nested evaluation grew or shrank the stack.  The heap is left
/// exactly as the semantics `spec_force` describes: a resolved cell yields
/// its memoized value with no further invocation of anything; a blackholed
/// cell yields the loop diagnostic without mutation; a thunk is blackholed
/// before its callable runs, then memoized on success and left a blackhole
/// permanently on failure.
pub fn force(vm: &mut VM) -> (s: Status)
    requires
        old(vm).top_is_lazy_ref(),
    ensures
        ({
            let b = old(vm).stackv().len() - 1;
            let r = old(vm).top_ref() as int;
            let out = spec_force(old(vm).cellsv(), r);
            &&& final(vm).cellsv() == out.0
            &&& final(vm).stackv().len() == old(vm).stackv().len()
            &&& final(vm).stackv().subrange(0, b) == old(vm).stackv().subrange(0, b)
            &&& (match out.1 {
                Ok(v) => s == Status::Success && final(vm).stackv()[b] == v,
                Err(m) => s == Status::Error && (final(vm).stackv()[b] matches Value::Text(t)
                    && t@ == m),
            })
            &&& final(vm).invocationsv() >= old(vm).invocationsv()
            &&& ((old(vm).cellsv()[r] is Value || old(vm).cellsv()[r] is Blackhole)
                ==> final(vm).invocationsv() == old(vm).invocationsv())
        }),
    decreases thunk_count(vm.cellsv()), 0int,
{
    let b = vm.stack.len() - 1;
    let r: usize = match &vm.stack[b] {
        Value::Lazy(rr) => *rr,
        _ => {
            proof {
                assert(false);
            }
            0
        },
    };
    let st = vm.cells[r].observe().clone();
    match st {
        LazyState::Blackhole => {
            vm.stack[b] = Value::Text(String::from_str("<<loop>>"));
            proof {
                assert(vm.stackv().subrange(0, b as int) =~= old(vm).stackv().subrange(
                    0,
                    b as int,
                ));
            }
            Status::Error
        },
        LazyState::Value(v) => {
            vm.stack[b] = v;
            proof {
                assert(vm.stackv().subrange(0, b as int) =~= old(vm).stackv().subrange(
                    0,
                    b as int,
                ));
            }
            Status::Success
        },
        LazyState::Thunk(f) => {
            vm.stack.push(f);
            vm.stack.push(Value::Int(0));
            vm.cells[r] = Lazy::make(LazyState::Blackhole);
            let ghost entry_stack = old(vm).stackv();
            let ghost blackholed = old(vm).cellsv().update(r as int, LazyState::Blackhole);
            let ghost callee = old(vm).cellsv()[r as int]->Thunk_0;
            proof {
                assert(vm.cellsv() =~= blackholed);
                assert(vm.stackv() =~= entry_stack.push(callee).push(Value::Int(0)));
                lemma_thunk_count_update(old(vm).cellsv(), r as int, LazyState::Blackhole);
            }
            let res = execute_call(vm, 1);
            let ghost mid = spec_call(blackholed, callee);
            proof {
                lemma_call_evolves(blackholed, callee);
                assert(entry_stack.push(callee).push(Value::Int(0)).subrange(0, b as int + 1)
                    =~= entry_stack);
            }
            while vm.stack.len() > b + 1
                invariant
                    b + 1 <= vm.stackv().len(),
                    vm.stackv().subrange(0, b as int + 1) == entry_stack,
                    vm.cellsv() == mid.0,
                    vm.invocationsv() >= old(vm).invocationsv(),
                    entry_stack.len() == b + 1,
                    mid.0.len() == old(vm).cellsv().len(),
                decreases vm.stackv().len(),
            {
                vm.stack.pop();
                proof {
                    assert(vm.stackv() =~= vm.stackv().subrange(0, vm.stackv().len() as int));
                }
            }
            proof {
                assert(vm.stackv() =~= entry_stack);
            }
            match res {
                Ok(v) => {
                    vm.cells[r] = Lazy::make(LazyState::Value(v.clone()));
                    vm.stack[b] = v;
                    proof {
                        assert(vm.cellsv() =~= mid.0.update(
                            r as int,
                            LazyState::Value(spec_force(old(vm).cellsv(), r as int).1->Ok_0),
                        ));
                        assert(vm.stackv().subrange(0, b as int) =~= entry_stack.subrange(
                            0,
                            b as int,
                        ));
                    }
                    Status::Success
                },
                Err(e) => {
                    vm.stack[b] = Value::Text(e.message);
                    proof {
                        assert(vm.stackv().subrange(0, b as int) =~= entry_stack.subrange(
                            0,
                            b as int,
                        ));
                    }
                    Status::Error
                },
            }
        },
    }
}

/// Evaluates the callable located `n_args + 1` slots below the top of the
/// stack against the top `n_args` values.  The callable and the arguments
/// are consumed; on success they are replaced by the one result, which is
/// also returned.  The callable may itself force other cells before
/// returning: this is the re-entry point of the cooperative call chain.
pub fn execute_call(vm: &mut VM, n_args: usize) -> (r: Result<Value, EvalError>)
    requires
        old(vm).stackv().len() >= n_args + 1,
    ensures
        ({
            let k = old(vm).stackv().len() - n_args - 1;
            let out = spec_call(old(vm).cellsv(), old(vm).stackv()[k]);
            &&& final(vm).cellsv() == out.0
            &&& (match r {
                Ok(v) => out.1 matches Ok(w) && v == w
                    && final(vm).stackv() == old(vm).stackv().subrange(0, k).push(w),
                Err(e) => out.1 matches Err(m) && e@ == m
                    && final(vm).stackv() == old(vm).stackv().subrange(0, k),
            })
            &&& final(vm).invocationsv() >= old(vm).invocationsv()
        }),
    decreases thunk_count(vm.cellsv()), 3int,
{
    let ghost s0 = vm.stackv();
    let mut i: usize = 0;
    while i < n_args
        invariant
            i <= n_args,
            s0 == old(vm).stackv(),
            s0.len() >= n_args + 1,
            vm.stackv() == s0.take(s0.len() - i as int),
            vm.cellsv() == old(vm).cellsv(),
            vm.invocationsv() == old(vm).invocationsv(),
        decreases n_args - i,
    {
        vm.stack.pop();
        i = i + 1;
        proof {
            assert(vm.stackv() =~= s0.take(s0.len() - i as int));
        }
    }
    let cv = match vm.stack.pop() {
        Some(c) => c,
        None => {
            proof {
                assert(false);
            }
            Value::Int(0)
        },
    };
    let ghost k = s0.len() - n_args - 1;
    proof {
        assert(cv == s0[k]);
        assert(vm.stackv() =~= s0.subrange(0, k));
    }
    match cv {
        Value::Callable(c) => {
            let res = run_callable(vm, c);
            match res {
                Ok(v) => {
                    let copy = v.clone();
                    vm.stack.push(copy);
                    Ok(v)
                },
                Err(e) => Err(e),
            }
        },
        _ => Err(EvalError { message: String::from_str("attempt to call a non-callable value") }),
    }
}

/// Runs one callable body after counting the invocation.
fn run_callable(vm: &mut VM, c: Callable) -> (r: Result<Value, EvalError>)
    ensures
        ({
            let out = spec_run(old(vm).cellsv(), c);
            &&& final(vm).cellsv() == out.0
            &&& final(vm).stackv() == old(vm).stackv()
            &&& (match r {
                Ok(v) => out.1 matches Ok(w) && v == w,
                Err(e) => out.1 matches Err(m) && e@ == m,
            })
            &&& final(vm).invocationsv() >= old(vm).invocationsv()
        }),
    decreases thunk_count(vm.cellsv()), 2int,
{
    if vm.invocations < u64::MAX {
        vm.invocations = vm.invocations + 1;
    }
    match c {
        Callable::Const(n) => Ok(Value::Int(n)),
        Callable::Fail(m) => Err(EvalError { message: m }),
        Callable::Force(rf) => force_nested(vm, rf),
        Callable::ForceThen(rf, n) => {
            let res = force_nested(vm, rf);
            match res {
                Ok(_) => Ok(Value::Int(n)),
                Err(e) => Err(e),
            }
        },
    }
}

/// Forces another cell from inside a running callable: pushes the
/// reference, re-enters the force operator, and takes the one result slot
/// back off the stack.
fn force_nested(vm: &mut VM, rf: usize) -> (r: Result<Value, EvalError>)
    ensures
        ({
            let out = spec_force(old(vm).cellsv(), rf as int);
            &&& final(vm).cellsv() == out.0
            &&& final(vm).stackv() == old(vm).stackv()
            &&& (match r {
                Ok(v) => out.1 matches Ok(w) && v == w,
                Err(e) => out.1 matches Err(m) && e@ == m,
            })
            &&& final(vm).invocationsv() >= old(vm).invocationsv()
        }),
    decreases thunk_count(vm.cellsv()), 1int,
{
    if rf >= vm.cells.len() {
        return Err(EvalError { message: String::from_str("invalid lazy reference") });
    }
    vm.stack.push(Value::Lazy(rf));
    proof {
        assert(vm.stackv().subrange(0, old(vm).stackv().len() as int) =~= old(vm).stackv());
    }
    let st = force(vm);
    let res_val = match vm.stack.pop() {
        Some(v) => v,
        None => {
            proof {
                assert(false);
            }
            Value::Int(0)
        },
    };
    proof {
        assert(vm.stackv() =~= old(vm).stackv());
    }
    match st {
        Status::Success => Ok(res_val),
        Status::Error => {
            match res_val {
                Value::Text(msg) => Err(EvalError { message: msg }),
                _ => {
                    proof {
                        assert(false);
                    }
                    Err(EvalError { message: String::from_str("invalid lazy reference") })
                },
            }
        },
    }
}

} // verus!
