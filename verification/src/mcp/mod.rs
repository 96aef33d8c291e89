pub mod routing;
pub mod tools;
