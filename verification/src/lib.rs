//! Doors: legacy single-user DOS programs, each run in a throwaway container
//! for one caller on one numbered node.
//!
//! The library decides; its caller acts. Node claims, workspaces, command
//! lines and the status view are computed here from plain values, and every
//! step that touches a file, a lock or a process is handed out as an action
//! whose outcome is handed back.

pub mod action;
pub mod args;
pub mod config;
pub mod container;
pub mod door;
pub mod dos;
pub mod error;
pub mod json;
pub mod locks;
pub mod setuid;
pub mod text;
pub mod user;
pub mod who;
