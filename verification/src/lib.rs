//! A size-triggered rotating file writer, split into a verified core and a
//! thin I/O shell.
//!
//! The core tracks the writer's configuration and open-file state, decides
//! when a write must trigger a rotation, and produces the exact rename chain
//! that a rotation performs. An in-memory disk model lets the rotation
//! algorithm be executed and proved against a mathematical map from backup
//! suffixes to file contents; unverified shell code performs the same steps
//! with real filesystem calls.

pub mod disk;
pub mod laws;
pub mod rotate;
