//! Console flags.
use vstd::prelude::*;

verus! {

/// Used by newly registered consoles to avoid duplicate output.
pub const CON_PRINTBUFFER: u16 = 1;

/// The console backs the console device.
pub const CON_CONSDEV: u16 = 2;

/// The console is enabled.
pub const CON_ENABLED: u16 = 4;

/// Early boot console.
pub const CON_BOOT: u16 = 8;

/// The console can be called from any context.
pub const CON_ANYTIME: u16 = 16;

/// Braille device.
pub const CON_BRL: u16 = 32;

/// The console supports the extended output format.
pub const CON_EXTENDED: u16 = 64;

/// The console is suspended.
pub const CON_SUSPENDED: u16 = 128;

} // verus!
