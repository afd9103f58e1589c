//! A single-threaded completion-queue engine for a fixed-response TCP server.
//!
//! The engine is a deterministic state machine: callers hand it one kernel
//! completion record at a time, and it answers with the follow-up submissions
//! to make (re-arm an accept, issue a receive or a send, return a leased
//! buffer, close a socket). All ring, socket and buffer I/O is performed by
//! the caller; the engine itself only tracks connection tokens, accept slots
//! and buffer leases, so every decision it takes is verified.

pub mod engine;
pub mod pool;
pub mod response;
pub mod table;
pub mod tag;
