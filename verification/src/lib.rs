//! Supervision of long-running transfer jobs run by the external `rclone`
//! tool: the job registry, the job state machine, the progress extractor,
//! the argument builder and the text of the per-job log.

pub mod args;
pub mod config;
pub mod decimal;
pub mod extractor;
pub mod files;
pub mod housekeeping;
pub mod job;
pub mod joblog;
pub mod json;
pub mod laws;
pub mod models;
pub mod progress;
pub mod registry;
pub mod stats;
pub mod strings;
pub mod tasks;
pub mod text;
