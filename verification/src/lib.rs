//! Verified core of a chat server: a bounded history buffer, the state machine of a
//! chat room, the registry of rooms, the settings model and the database set-up plan.

pub mod app;
pub mod domain;
pub mod migration;
pub mod settings;
