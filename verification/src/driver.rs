//! The network console driver: targets, their attributes, and what is sent to them.
pub mod attribute;
pub mod cmdline;
pub mod config;
pub mod entry;
pub mod module;
pub mod sysdata;
pub mod target;
pub mod targets;
pub mod userdata;
