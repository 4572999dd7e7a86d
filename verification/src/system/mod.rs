//! System components for the IMSAI 8080 emulator.
use vstd::prelude::*;

verus! {

/// System configuration for the IMSAI 8080
pub struct SystemConfig;

impl Default for SystemConfig {
    fn default() -> (r: Self) {
        Self::new()
    }
}

impl SystemConfig {
    /// Create a new system configuration
    pub fn new() -> (r: Self) {
        Self
    }
}

} // verus!
