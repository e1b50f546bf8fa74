//! Process lifecycle and sandboxed memory of a small browser-hosted kernel.
//!
//! The kernel loads compiled modules and runs each one as a process with its
//! own linear memory, an output stream and a pool of threads. This crate holds
//! the bookkeeping behind that: the region allocator over a page-granular
//! buffer, the output stream, the thread pool, the process state machine and
//! the process table with its two-phase spawn. Every function carries a
//! contract over a mathematical view of the state it touches.
//!
//! Execution units themselves live outside the crate. The driver that owns
//! them asks the process table what to start, starts it, and reports back what
//! happened.

pub mod chars;
pub mod context;
pub mod display;
pub mod fs;
pub mod ident;
pub mod manager;
pub mod manager_laws;
pub mod memory;
pub mod memory_laws;
pub mod process;
pub mod requirements;
pub mod stdout;
pub mod table;
pub mod thread;
