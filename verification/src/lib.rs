//! Registry of what a native module exports to JavaScript.
//!
//! Functions, classes and exports are registered while a process starts (`registry`). When the
//! engine asks for the module, a registration puts them before it, one request at a time
//! (`session`): the driver performs each request and hands the answer back. Nothing here calls the
//! engine by itself.
pub mod calls;
pub mod classes;
pub mod custom_gc;
pub mod exports;
pub mod names;
pub mod persisted;
pub mod plan;
pub mod plan_laws;
pub mod registry;
pub mod runtime;
pub mod session;
pub mod session_laws;
pub mod setting_laws;
pub mod sys;
pub mod walk;
pub mod walk_laws;
