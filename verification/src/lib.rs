//! The core of a toy runtime that executes async-await futures: a table of tasks shared by worker
//! threads, a reactor that wakes the tasks that wait for I/O, TCP streams and listeners, and a
//! simple HTTP server on top of them.
//!
//! Everything here decides and nothing waits: threads, queues, sockets and futures belong to the
//! caller, which hands in what happened and does what it is told.

pub mod current;
pub mod executor;
pub mod executor_laws;
pub mod http_laws;
pub mod http_server;
pub mod net;
pub mod net_laws;
pub mod reactor;
pub mod reactor_laws;
pub mod registry;
pub mod schedule;
pub mod slots;
pub mod slots_laws;
pub mod task_slab;
pub mod waker_slab;

pub use executor::spawn;
pub use net::{AcceptFuture, ReadFuture, TcpListener, TcpStream, WriteFuture};
