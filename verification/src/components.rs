//! What the windows decide: which rows are selected, and what a change to a
//! list does to the configuration.

pub mod group_config;
pub mod list;
pub mod root;

pub use list::CellChange;
