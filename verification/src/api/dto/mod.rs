pub mod chat;
pub mod memory;
pub mod skills;
