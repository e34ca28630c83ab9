//! Actor processes: how one is started, suspended and completed, and the
//! table that hands each running process to its owner exactly once.

pub mod process;
pub mod table;
