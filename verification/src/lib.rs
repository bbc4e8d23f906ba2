//! A polling file watcher, split into the decisions it takes and the effects
//! it asks for.
//!
//! The crate never touches the file system, a process or a clock itself.
//! Each component is a small state machine: it names the next effect it
//! needs, and is told what came of it.  Every transition is specified over a
//! mathematical model of the component and proved against it.

pub mod text;
pub mod instant;
pub mod substitute;
pub mod config;
pub mod inbox;
pub mod prompt;
pub mod report;
pub mod supervisor;
pub mod scan;
pub mod snapshot;
pub mod watch;
