//! What the codecs of this crate have in common.
use vstd::prelude::*;

verus! {

/// The longest time, in milliseconds, that decoding the sample may take when a
/// decoder is tried out; a decoder that takes this long has failed.
pub const TEST_TIMEOUT_MS: u128 = 1000;

/// The compressed formats.
#[derive(Clone, Copy, Debug, PartialEq, Eq, Structural)]
pub enum DataFormat {
    H264,
    H265,
    VP8,
    VP9,
    AV1,
}

/// The machine, as far as the choice of decoders depends on it.
#[derive(Clone, Copy, Debug, PartialEq, Eq, Structural)]
pub enum Platform {
    /// `nv`: a usable NVIDIA GPU was found.
    Linux { nv: bool },
    Windows,
    /// `h264`, `h265`: VideoToolbox says that it decodes the format.
    Macos { h264: bool, h265: bool },
    Ios,
    Other,
}

} // verus!
