//! A WebAssembly actor runtime: the guest-bytecode instrumentation pass that
//! routes allocator calls through host profiling hooks, the host-side heap
//! ledger those hooks drive, and the life cycle of an actor process.

pub mod api;
pub mod module;
