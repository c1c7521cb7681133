pub mod assets;
pub mod batch;
pub mod chat;
pub mod grpc_web;
pub mod headers;
pub mod imagine_nsfw;
pub mod media;
pub mod model;
pub mod nsfw;
pub mod processor;
pub mod retry;
pub mod rotation;
pub mod statsig;
pub mod usage;
pub mod wreq_client;
