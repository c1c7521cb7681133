pub mod manager;
pub mod models;
pub mod pool;
pub mod scheduler;
pub mod service;
