pub mod cache;
pub mod client;
pub mod config;
pub mod message;
pub mod pipeline;
pub mod wire;
