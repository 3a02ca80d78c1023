pub mod config;
pub mod decimal;
pub mod inference;
pub mod memory;
pub mod parser;
pub mod ranking;
pub mod report;
pub mod store;
pub mod text;
