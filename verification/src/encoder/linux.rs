//! Linux encoder: no hardware encoder is available yet.
use vstd::prelude::*;

verus! {

/// The Linux clip encoder.
pub struct LinuxEncoder;

impl LinuxEncoder {
    /// A new Linux encoder.
    pub fn new() -> (r: Self) {
        LinuxEncoder
    }
}

} // verus!
