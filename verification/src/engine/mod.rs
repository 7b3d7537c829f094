pub mod parser;
pub mod resolver;
pub mod matcher;
pub mod generator;
