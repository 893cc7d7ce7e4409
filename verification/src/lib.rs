//! A time-tracking library built around a bidirectional duration: an amount
//! of time directed either into the future or into the past, parsed from
//! human text such as "in 1h 30m" or "1h 30m ago" and rendered back into
//! human-readable text and into arithmetic offsets against timestamps.
//! Around it stand the data types the surrounding application trades in:
//! a list of project names and the operations its menus produce.

pub mod biduration;
pub mod format;
pub mod grammar;
pub mod laws;
pub mod operations;
pub mod parser;
pub mod projects;
pub mod text;

pub use biduration::{BiDuration, BiDurationParseError, Direction, OutOfRangeError};
pub use operations::{
    ClockOperation, ClockType, GenerateDataOperation, Operation, ProjectOperation,
    ProjectOperationType, ReportOperation, ReportType, StatusOperation,
};
pub use projects::Projects;
