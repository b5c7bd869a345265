//! Retention: which log files are deleted, compressed or kept, by age, date,
//! total size and keep-last protection.
pub mod date;
pub mod laws;
pub mod options;
pub mod plan;
pub mod order;
pub mod report;
pub mod result;
pub mod scan;
pub mod run;
pub mod size;
pub mod stats;
