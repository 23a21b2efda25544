//! Core logic of a streamer toolbox: stream timers, a bounded log buffer,
//! an event bus, query-string and Twitch message handling.

pub mod num_text;
pub mod clock;
pub mod text;
pub mod query;
pub mod paint;
pub mod logs;
pub mod events;
pub mod config;
pub mod routes;
pub mod twitch;
pub mod sql;
pub mod server;
pub mod shared;
pub mod client;
