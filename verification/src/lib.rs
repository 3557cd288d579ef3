//! The rules of a portable launcher for an input method.
//!
//! The library decides; the program around it asks the system and carries out what was decided.
//! Paths, registry values and process lists come in as plain values, and plans and single actions
//! go out.
pub mod archive;
pub mod cli;
pub mod deploy;
pub mod deployment;
pub mod dialog;
pub mod exit;
pub mod icon;
pub mod layout;
pub mod lifecycle;
pub mod path;
pub mod process;
pub mod reg;
pub mod registering;
pub mod registration;
pub mod replace;
pub mod reply;
pub mod rpc;
pub mod service;
pub mod singleton;
pub mod text;
pub mod ui;
pub mod unpack;
pub mod variant;
pub mod wizard;
