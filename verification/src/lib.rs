//! Decision logic for switching a convertible between laptop and tablet mode:
//! which sysfs device a pattern names, which mode is current, what has to be
//! written to which driver control file, and how each mode command is started.
//!
//! Nothing here touches the file system, the environment or a process. Callers
//! hand in what they observed and carry out what comes back.

pub mod device_path;
pub mod executor;
pub mod glob;
pub mod mode;
pub mod orchestrator;
pub mod resolver;
pub mod switcher;
pub mod text;
