//! Host-side capabilities offered to guest code.

pub mod default;
pub mod heap_profiler;
pub mod heap_trace;
pub mod process;

pub use default::DefaultApi;
