//! Remote desktops through self-hosted relays: the decisions of the program, each with what it is
//! proved to do.
//!
//! Nothing here reads a file, opens a connection or asks a clock but [`time::Timestamp::now`]. What
//! the outside has to say comes in as plain values; what is to be done out there goes out as such.
pub mod cli;
pub mod config;
pub mod credentials;
pub mod discovery;
pub mod error;
pub mod json;
pub mod mdns;
pub mod net;
pub mod path;
pub mod registry;
pub mod registry_client;
pub mod relay_lifecycle;
pub mod session;
pub mod storage;
pub mod target;
pub mod text;
pub mod textmap;
pub mod time;
pub mod viewer;
