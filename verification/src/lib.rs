pub mod api;
pub mod common;
pub mod services;
pub mod text;
