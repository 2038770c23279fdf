//! Plugin loading for a line-editing library: the decisions behind its
//! interposed initialization and configuration-line hooks, on plain bytes.
//!
//! - `fields`: splitting a byte string into the fields between separators;
//! - `stem`: the command name of a plugin, its path's file stem;
//! - `plan`: the plugins a `:`-separated path list asks for;
//! - `directive`: recognising the plugin directive among configuration lines;
//! - `plugin`: load failures and the configuration-line hook's result;
//! - `resolve`: the order of the dynamic linker's scopes for host exports;
//! - `guard`: the one-shot guard of the initialization hook.
pub mod fields;
pub mod stem;
pub mod plan;
pub mod directive;
pub mod plugin;
pub mod resolve;
pub mod guard;
