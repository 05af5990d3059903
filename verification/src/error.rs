use vstd::prelude::*;

verus! {

/// Why a frame could not be read as a message.
#[derive(Clone, Copy, Debug, PartialEq, Eq, Structural)]
pub enum DecodeError {
    /// The frame has fewer bytes than a header.
    FrameTooShort,
}

} // verus!
