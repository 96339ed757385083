//! Control plane of a distributed task-execution service.
//!
//! The crate holds the decision logic of the server: the metadata tables
//! (which worker holds which object, which worker can run which function),
//! the computation graph, the scheduler that pairs ready jobs with idle
//! workers, the worker pool, and the request front end. Every component is a
//! state machine over plain values; sockets, threads and the wire encoding of
//! messages live outside of this crate.

pub mod comm;
pub mod fntable;
pub mod frame;
pub mod graph;
pub mod objtable;
pub mod scheduler;
pub mod server;
pub mod trace;
pub mod utils;
