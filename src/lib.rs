//! Execution-context-aware profiling for cooperatively scheduled fibers.
//!
//! Timed scopes are kept per logical flow of control (per fiber), and the
//! context-switch protocol closes and reopens them in the trace so that each
//! scope's reported span covers only the time its fiber actually ran.
pub mod clock;
pub mod context;
pub mod event;
pub mod fiber;
pub mod laws;
pub mod pretty;
pub mod profiler;
pub mod wide;
