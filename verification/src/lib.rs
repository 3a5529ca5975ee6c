//! Core of a bibliography-processing engine: a fixed-capacity,
//! collision-chained string interner sized by a derived prime, an
//! append-only string pool, a monotonically escalating severity
//! tracker, and the driver state machine that walks an inclusion
//! stack of control files and then an instruction stream.

pub mod builtins;
pub mod driver;
pub mod kinds;
pub mod naming;
pub mod planner;
pub mod pool;
pub mod render;
pub mod severity;
pub mod table;
