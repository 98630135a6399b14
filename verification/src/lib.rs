//! A network console: kernel log messages are formatted, decorated with
//! user supplied and system supplied data, and sent as UDP packets to a set
//! of configurable targets.
//!
//! Everything here is computation on plain values. Setting up a network
//! device, sending a packet and parsing the text of an IP address are done by
//! the caller, who hands the outcome back.
pub mod bytes;
pub mod console;
pub mod cstr;
pub mod decimal;
pub mod driver;
pub mod error;
pub mod memory;
pub mod minimal;
pub mod net;
pub mod utf8;
