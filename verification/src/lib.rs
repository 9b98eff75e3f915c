//! Coordination core for a desktop host that supervises a conversational
//! agent subprocess ("adapter"), multiplexes sessions over it, brokers
//! permission requests, and supervises short-lived terminal processes.
//!
//! Everything here is pure state and data logic with verified contracts.
//! Process spawning, stream I/O, timers and serialization live in the
//! unverified shell that drives this library.

pub mod auth;
pub mod clock;
pub mod codec;
pub mod commands;
pub mod conversations;
pub mod mcp_config;
pub mod permission;
pub mod relay;
pub mod sessions;
pub mod settings;
pub mod spaces;
pub mod strings;
pub mod supervisor;
pub mod terminal;
