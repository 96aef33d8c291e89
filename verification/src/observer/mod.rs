pub mod config;
pub mod classifier;
pub mod prompt;
pub mod client;
pub mod record;
