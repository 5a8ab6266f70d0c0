//! The hotkey binding core of a launcher that gives groups of applications
//! a global keyboard shortcut: the configuration model, the reconciliation
//! of shortcut registrations with user edits, record mode and dispatch.

pub mod components;
pub mod hotkeys;
pub mod models;
pub mod open;
pub mod os;
pub mod sequences;
pub mod services;
pub mod text;
