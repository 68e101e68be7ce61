pub mod backup;
pub mod project;
