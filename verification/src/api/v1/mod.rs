pub mod admin;
pub mod chat;
pub mod image;
pub mod responses;
