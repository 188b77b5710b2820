//! Management of locally launched model backends: validation of their
//! configuration, the lifecycle of each backend process, the registry of
//! backends that are known at run time, and the values that the user
//! interface is shown.

pub mod text;
pub mod kind;
pub mod json;
pub mod logs;
pub mod runtime;
pub mod outside;
pub mod store;
pub mod registry;
pub mod commands;
