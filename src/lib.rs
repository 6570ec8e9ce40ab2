//! Provisioning helpers for a game server: the verified core of a setup
//! assistant that fetches a server artifact and edits its property files.

pub mod catalog;
pub mod fetch;
pub mod patch;
pub mod path;
pub mod port;
pub mod progress;
pub mod swap;
pub mod text;
