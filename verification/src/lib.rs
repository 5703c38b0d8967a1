//! The verified core of a small threaded request server.
//!
//! The crate holds the decisions of the server and none of its effects: the
//! life cycle of the worker pool and the order in which jobs leave it, the
//! phases of a graceful shutdown, the text of the log, and the handling of one
//! request. Threads, sockets, files and signals belong to the program that
//! drives these state machines.

pub mod guarantees;
pub mod http;
pub mod log;
pub mod protocol;
pub mod server;
pub mod text;
pub mod threadpool;

pub use log::LogLevel;
pub use threadpool::ThreadPool;
