//! Call-by-need evaluation core for a stack-based virtual machine.
//!
//! A callable value can be wrapped as a suspended computation (a thunk) held
//! in a heap cell.  The first demand runs the callable exactly once and
//! memoizes its result; every later demand observes the memoized value.  A
//! cell under evaluation is marked as a blackhole, which turns direct or
//! transitive self-reference during the same demand into a loop diagnostic
//! instead of divergence.

pub mod cell;
pub mod laws;
pub mod semantics;
pub mod value;
pub mod vm;

pub use cell::Lazy;
pub use cell::LazyState;
pub use semantics::spec_call;
pub use semantics::spec_force;
pub use semantics::spec_run;
pub use value::Callable;
pub use value::Value;
pub use vm::execute_call;
pub use vm::force;
pub use vm::lazy;
pub use vm::EvalError;
pub use vm::Status;
pub use vm::VM;
