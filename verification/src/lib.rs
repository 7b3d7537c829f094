//! Terminal autocompletion engine driven by withfig-style completion specs.
pub mod text;
pub mod paths;
pub mod spec;
pub mod session;
pub mod engine;
pub mod ipc;
pub mod render;
pub mod shell;
