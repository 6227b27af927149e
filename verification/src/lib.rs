//! A verified core for a small in-memory service stack: a bounded connection
//! pool, a time-to-live cache, a sliding-window rate limiter and a task
//! scheduler, together with the plain data types and helpers that surround
//! them. Everything that decides or computes lives here with a contract;
//! clocks, networking and serialisation stay with the callers.

pub mod cache;
pub mod config;
pub mod database;
pub mod errors;
pub mod fib;
pub mod formats;
pub mod limiter;
pub mod logging;
pub mod numtext;
pub mod pool;
pub mod registry;
pub mod scheduler;
pub mod stats;
pub mod tasklist;
pub mod text;
pub mod timeutil;
pub mod traits;
pub mod webstate;
