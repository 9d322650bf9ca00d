//! Agent runtime core: a bounded tool-use turn engine, a session store with
//! durable transcripts, a gateway router, a background-process manager and a
//! cron scheduler, together with the plain-data tools and codecs they share.

pub mod api;
pub mod clock;
pub mod config;
pub mod context;
pub mod cron_tool;
pub mod engine;
pub mod error;
pub mod gateway;
pub mod items;
pub mod json;
pub mod procman;
pub mod sched;
pub mod session_key;
pub mod skills;
pub mod store;
pub mod text;
pub mod tools;
