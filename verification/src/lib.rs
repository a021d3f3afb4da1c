//! A fixed-size worker pool, modelled and verified.
//!
//! The pool owns the sending half of a single shared FIFO queue of
//! [`protocol::ControlMessage`]s and a fixed roster of workers.  Callers
//! submit tasks through [`pool::ThreadPool::execute`]; teardown broadcasts
//! one `Terminate` per worker, lets the workers drain the queue, and joins
//! every worker handle exactly once.
//!
//! Thread spawning, channel sends and joins are operating-system work that
//! a host program performs; this crate verifies every decision the pool
//! makes: admission of the configuration, the queue discipline, the worker
//! loop's branch, and the shutdown handshake.

pub mod pool;
pub mod protocol;
pub mod worker;
