//! Exom: verified core logic of a hall-based collaboration platform.
//!
//! Roles, permissions, host election, bot capabilities, wire framing and the
//! decision logic of the desktop client, each stated as a contract and proved.

pub mod archive;
pub mod archivist;
pub mod auth;
pub mod associates;
pub mod bot;
pub mod chat;
pub mod chest;
pub mod error;
pub mod format;
pub mod halls;
pub mod hosting;
pub mod ids;
pub mod invariants;
pub mod manifest;
pub mod migrations;
pub mod models;
pub mod net;
pub mod network;
pub mod order;
pub mod parlor;
pub mod paths;
pub mod permissions;
pub mod platform;
pub mod roles;
pub mod state;
pub mod storage;
pub mod summary;
pub mod text;
pub mod time;
pub mod tools;
pub mod town_crier;
pub mod workspace;
