use lazy_vm::execute_call;
use lazy_vm::force;
use lazy_vm::lazy;
use lazy_vm::Callable;
use lazy_vm::LazyState;
use lazy_vm::Status;
use lazy_vm::Value;
use lazy_vm::VM;

#[test]
fn lazy_replaces_callable_with_reference() {
    let mut vm = VM::new();
    vm.push(Value::Int(3));
    vm.push(Value::Callable(Callable::Const(1)));
    let n = vm.stack_len();
    assert_eq!(lazy(&mut vm), Status::Success);
    assert_eq!(vm.stack_len(), n);
    assert_eq!(vm.cell_count(), 1);
    assert_eq!(vm.pop(), Some(Value::Lazy(0)));
    assert_eq!(vm.pop(), Some(Value::Int(3)));
    assert!(matches!(
        vm.cell(0).observe(),
        LazyState::Thunk(Value::Callable(Callable::Const(1)))
    ));
}

#[test]
fn memoized_force_runs_callable_once() {
    let mut vm = VM::new();
    vm.push(Value::Callable(Callable::Const(42)));
    assert_eq!(lazy(&mut vm), Status::Success);
    assert_eq!(force(&mut vm), Status::Success);
    assert_eq!(vm.pop(), Some(Value::Int(42)));
    assert_eq!(vm.invocations(), 1);
    vm.push(Value::Lazy(0));
    assert_eq!(force(&mut vm), Status::Success);
    assert_eq!(vm.pop(), Some(Value::Int(42)));
    assert_eq!(vm.invocations(), 1);
    assert!(matches!(vm.cell(0).observe(), LazyState::Value(Value::Int(42))));
}

#[test]
fn self_referential_thunk_yields_loop_diagnostic() {
    let mut vm = VM::new();
    let r = vm.cell_count();
    vm.push(Value::Callable(Callable::Force(r)));
    assert_eq!(lazy(&mut vm), Status::Success);
    assert_eq!(force(&mut vm), Status::Error);
    match vm.pop() {
        Some(Value::Text(t)) => assert_eq!(t, "<<loop>>"),
        other => panic!("expected an error text, got {:?}", other),
    }
    assert!(matches!(vm.cell(r).observe(), LazyState::Blackhole));
}

#[test]
fn self_reference_inside_callable_propagates_diagnostic() {
    let mut vm = VM::new();
    let r = vm.cell_count();
    vm.push(Value::Callable(Callable::ForceThen(r, 5)));
    assert_eq!(lazy(&mut vm), Status::Success);
    assert_eq!(force(&mut vm), Status::Error);
    assert_eq!(vm.pop(), Some(Value::Text(String::from("<<loop>>"))));
    assert!(matches!(vm.cell(r).observe(), LazyState::Blackhole));
}

#[test]
fn failed_force_then_loop_error() {
    let mut vm = VM::new();
    vm.push(Value::Callable(Callable::Fail(String::from("boom"))));
    assert_eq!(lazy(&mut vm), Status::Success);
    assert_eq!(force(&mut vm), Status::Error);
    assert_eq!(vm.pop(), Some(Value::Text(String::from("boom"))));
    assert!(matches!(vm.cell(0).observe(), LazyState::Blackhole));
    vm.push(Value::Lazy(0));
    assert_eq!(force(&mut vm), Status::Error);
    assert_eq!(vm.pop(), Some(Value::Text(String::from("<<loop>>"))));
    assert!(matches!(vm.cell(0).observe(), LazyState::Blackhole));
}

#[test]
fn stack_height_restored_after_force() {
    let mut vm = VM::new();
    vm.push(Value::Int(7));
    vm.push(Value::Callable(Callable::Const(1)));
    assert_eq!(lazy(&mut vm), Status::Success);
    let before = vm.stack_len();
    assert_eq!(force(&mut vm), Status::Success);
    assert_eq!(vm.stack_len(), before);
    assert_eq!(vm.pop(), Some(Value::Int(1)));
    assert_eq!(vm.pop(), Some(Value::Int(7)));
    vm.push(Value::Callable(Callable::Fail(String::from("no"))));
    assert_eq!(lazy(&mut vm), Status::Success);
    let before_err = vm.stack_len();
    assert_eq!(force(&mut vm), Status::Error);
    assert_eq!(vm.stack_len(), before_err);
}

#[test]
fn traverse_visits_by_state() {
    let mut vm = VM::new();
    vm.push(Value::Callable(Callable::Const(5)));
    assert_eq!(lazy(&mut vm), Status::Success);
    let mut seen: Vec<Value> = Vec::new();
    vm.cell(0).traverse(&mut seen);
    assert_eq!(seen, vec![Value::Callable(Callable::Const(5))]);
    assert_eq!(force(&mut vm), Status::Success);
    let mut after: Vec<Value> = Vec::new();
    vm.cell(0).traverse(&mut after);
    assert_eq!(after, vec![Value::Int(5)]);
    vm.pop();
    vm.push(Value::Callable(Callable::Fail(String::from("x"))));
    assert_eq!(lazy(&mut vm), Status::Success);
    assert_eq!(force(&mut vm), Status::Error);
    let mut black: Vec<Value> = Vec::new();
    vm.cell(1).traverse(&mut black);
    assert!(black.is_empty());
}

#[test]
fn nested_independent_forces_both_resolve() {
    let mut vm = VM::new();
    vm.push(Value::Callable(Callable::Const(9)));
    assert_eq!(lazy(&mut vm), Status::Success);
    vm.pop();
    let inner = 0usize;
    let outer = vm.cell_count();
    vm.push(Value::Callable(Callable::ForceThen(inner, 7)));
    assert_eq!(lazy(&mut vm), Status::Success);
    assert_eq!(force(&mut vm), Status::Success);
    assert_eq!(vm.pop(), Some(Value::Int(7)));
    assert!(matches!(vm.cell(inner).observe(), LazyState::Value(Value::Int(9))));
    assert!(matches!(vm.cell(outer).observe(), LazyState::Value(Value::Int(7))));
    assert_eq!(vm.invocations(), 2);
}

#[test]
fn force_chain_propagates_value() {
    let mut vm = VM::new();
    vm.push(Value::Callable(Callable::Const(3)));
    assert_eq!(lazy(&mut vm), Status::Success);
    vm.pop();
    vm.push(Value::Callable(Callable::Force(0)));
    assert_eq!(lazy(&mut vm), Status::Success);
    assert_eq!(force(&mut vm), Status::Success);
    assert_eq!(vm.pop(), Some(Value::Int(3)));
    assert!(matches!(vm.cell(0).observe(), LazyState::Value(Value::Int(3))));
    assert!(matches!(vm.cell(1).observe(), LazyState::Value(Value::Int(3))));
}

#[test]
fn non_callable_thunk_fails() {
    let mut vm = VM::new();
    vm.push(Value::Int(5));
    assert_eq!(lazy(&mut vm), Status::Success);
    assert_eq!(force(&mut vm), Status::Error);
    assert_eq!(
        vm.pop(),
        Some(Value::Text(String::from("attempt to call a non-callable value")))
    );
    assert!(matches!(vm.cell(0).observe(), LazyState::Blackhole));
}

#[test]
fn dangling_reference_fails() {
    let mut vm = VM::new();
    vm.push(Value::Callable(Callable::Force(99)));
    assert_eq!(lazy(&mut vm), Status::Success);
    assert_eq!(force(&mut vm), Status::Error);
    assert_eq!(vm.pop(), Some(Value::Text(String::from("invalid lazy reference"))));
}

#[test]
fn execute_call_replaces_callable_and_args() {
    let mut vm = VM::new();
    vm.push(Value::Callable(Callable::Const(11)));
    vm.push(Value::Int(0));
    let r = execute_call(&mut vm, 1);
    assert_eq!(r, Ok(Value::Int(11)));
    assert_eq!(vm.stack_len(), 1);
    assert_eq!(vm.pop(), Some(Value::Int(11)));
}

#[test]
fn execute_call_rejects_non_callable() {
    let mut vm = VM::new();
    vm.push(Value::Int(1));
    vm.push(Value::Int(0));
    match execute_call(&mut vm, 1) {
        Err(e) => assert_eq!(e.message, "attempt to call a non-callable value"),
        Ok(v) => panic!("expected failure, got {:?}", v),
    }
    assert_eq!(vm.stack_len(), 0);
}
