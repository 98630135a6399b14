//! Networking: addresses and packet transmission.
pub mod ip;
pub mod mac;
pub mod netpoll;
