pub mod api;
pub mod config;
pub mod digest;
pub mod json;
pub mod domain;
pub mod lists;
pub mod order;
pub mod text;
