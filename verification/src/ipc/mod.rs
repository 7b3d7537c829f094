pub mod protocol;
pub mod client;
pub mod server;
