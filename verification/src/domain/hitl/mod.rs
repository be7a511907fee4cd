pub mod models;
pub mod policy;
