//! A minimal cooperative task scheduler.
//!
//! Callers submit suspendable computations ("tasks") that may pause
//! mid-execution and later resume; a single logical worker drives them to
//! completion in strict FIFO round-robin order. The crate provides:
//!
//! - task management (`Task`, `Computation`, `Step`)
//! - a wake handle (`TaskWaker`)
//! - a FIFO executor (`Executor`)
//! - deferred admission (`TimerWheel`)
//! - a public facade (`Runtime`)

mod waker;
mod task;
mod executor;
mod timer;
mod runtime;

pub use waker::TaskWaker;
pub use task::Step;
pub use task::Computation;
pub use task::Task;
pub use executor::Executor;
pub use timer::TimerEntry;
pub use timer::TimerWheel;
pub use runtime::Runtime;
pub use runtime::SpawnError;
