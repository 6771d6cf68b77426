//! A scoreboard overlay engine: a compiler from a configuration document to
//! a validated schema, and the runtime state that the schema drives.

pub mod action;
pub mod compile;
pub mod config;
pub mod dispatch;
pub mod document;
pub mod laws;
pub mod lookup;
pub mod paths;
pub mod registry;
pub mod report;
pub mod shape;
pub mod snapshot;
pub mod state;
pub mod text;
pub mod timer;
pub mod validate;
