pub mod dto;
pub mod errors;
pub mod routes;
