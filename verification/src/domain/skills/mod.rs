pub mod models;
pub mod parser;
pub mod service;
