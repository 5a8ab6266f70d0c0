//! Keeping the shortcuts registered with the system in step with the
//! configuration.

pub mod binder;
pub mod record_registered;
pub mod registry;
pub mod service;

pub use binder::{
    may_bind, triage, BinderError, BinderEvent, Delivery, HotkeyBinder, KeyState, RecordingBinder,
};
pub use record_registered::RecordRegistered;
pub use registry::Registry;
pub use service::HotkeyService;
