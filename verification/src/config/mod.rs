pub mod model;
pub mod loader;
