pub mod fts;
pub mod ops;
pub mod schema;
