//! Run a command only when its target is out of date.
//!
//! The library holds every decision of the tool as a function of plain
//! values: what the file system reported of each path goes in, and what to
//! do comes out. Reading metadata, spawning the command and exiting are left
//! to the caller, whom `run` tells step by step what to do.

pub mod error;
pub mod inference;
pub mod invocation;
pub mod outcome;
pub mod probe;
pub mod quote;
pub mod run;
pub mod semantics;
pub mod staleness;
pub mod timestamp;

pub use error::Error;
pub use inference::infer_dependencies;
pub use invocation::Invocation;
pub use outcome::Outcome;
pub use probe::Probe;
pub use run::{start, Executing, Probing, Step};
pub use staleness::should_execute;
pub use timestamp::Timestamp;
