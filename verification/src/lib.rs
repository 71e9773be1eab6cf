//! Core engine of a multi-port serial console: a non-blocking byte queue,
//! a line assembler that turns raw device bytes into timestamped log lines,
//! a cooperative cancellation flag, and the decision logic of the worker,
//! logger and console loops.  All I/O lives outside this crate.

pub mod chunks;
pub mod config;
pub mod line_printer;
pub mod log_writer;
pub mod ring_queue;
pub mod session;
pub mod sync_flag;
pub mod user_io;
pub mod worker;
