pub mod todo;
pub mod background;
pub mod message_bus;
pub mod service;
pub mod teammate;
