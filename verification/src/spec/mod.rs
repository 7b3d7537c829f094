pub mod types;
pub mod loader;
