pub mod array;
pub mod auth;
pub mod batch;
pub mod config;
pub mod event;
pub mod events;
pub mod handlers;
pub mod hashing;
pub mod hex;
pub mod json;
pub mod logging;
pub mod queue;
pub mod responses;
pub mod rotate;
pub mod timeutil;

pub use event::Event;
