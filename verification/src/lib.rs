//! A minimal cooperative task scheduler for suspendable computations.
//!
//! Tasks are values that can be polled repeatedly against a simulated clock
//! and report completion exactly once.  A [`runtime::Runtime`] owns a FIFO
//! ready queue of spawned tasks and drives them with repeated drain passes;
//! each spawned task writes its output exactly once into a one-shot result
//! slot that its [`runtime::JoinHandle`] consumes exactly once.

pub mod laws;
pub mod poll;
pub mod runtime;
pub mod sleep;
pub mod task;
pub mod waker;
