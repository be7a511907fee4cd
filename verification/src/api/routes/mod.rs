pub mod frontend;
pub mod skills;
pub mod chat;
