//! Passes that bring a guest module into the form the runtime expects.

pub mod heap_profiler;
pub mod mirror;
