//! Core engine of a JVM game launcher: a settings store, an OAuth-based
//! authentication state machine, an installation-descriptor graph with
//! inheritance, the pure part of the script-host API, a bounded download
//! pool model, and launch-plan synthesis.
//!
//! All text is handled as UTF-8 byte vectors; the surrounding binary
//! converts at its edges.

pub mod assets;
pub mod auth;
pub mod error;
pub mod host;
pub mod install;
pub mod json;
pub mod launch;
pub mod pool;
pub mod settings;
pub mod template;
pub mod util;
