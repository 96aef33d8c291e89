pub mod types;
pub mod db;
pub mod observer;
pub mod search;
pub mod simulation;
pub mod text;
pub mod vector;
pub mod mcp;
pub mod cli;
pub mod persist;
pub mod embed;
