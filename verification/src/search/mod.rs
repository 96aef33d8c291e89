pub mod smart;
pub mod ranking;
pub mod report;
