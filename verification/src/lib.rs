//! A debounced parse-and-render pipeline for a source-code grammar console.
//!
//! The host hands in text edits, commits, mode selections and timer ticks; the
//! pipeline decides when to parse, under which grammar entry point, and keeps
//! the artifact that is to be displayed.

pub mod artifact;
pub mod mode;
pub mod scheduler;
pub mod service;
pub mod pipeline;
