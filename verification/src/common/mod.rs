pub mod auth;
pub mod batch_tasks;
pub mod clock;
pub mod exceptions;
pub mod string_map;
