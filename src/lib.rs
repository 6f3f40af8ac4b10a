//! Decision logic of a distributed benchmark sweep: shell command assembly for
//! remote sessions, partition assignment, the membership manifest, fan-in of
//! per-node results, and the sweep state machine.

pub mod decimal;
pub mod sweep;
pub mod fleet;
pub mod manifest;
pub mod shell;
pub mod run;
