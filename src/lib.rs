//! Reactive streaming core of a scripted notebook runtime: symbols, buffered fan-out
//! of input streams to history and state readers, dependency-tracking derived state,
//! and a namespaced symbol table driven by edits.
pub mod computing_script;
pub mod derived_state;
pub mod editor;
pub mod error;
pub mod input_source;
pub mod namespace;
pub mod script_type;
pub mod state;
pub mod stream_core;
pub mod symbol;
