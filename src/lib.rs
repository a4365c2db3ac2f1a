//! A buffered workflow-trace logger.
//!
//! A [`Detailer`] collects detail lines for one unit of work, optionally
//! nested in scopes and stamped with the microseconds elapsed since it
//! started, and hands back the whole trace as one record when flushed.

pub mod level;
pub mod render;
pub mod clock;
pub mod detailer;

pub use level::{Level, LevelFilter};
pub use detailer::{DetailScopeGuard, Detailer, TimingSetting};
