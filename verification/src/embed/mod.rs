pub mod batch;
pub mod padding;
pub mod encode;
