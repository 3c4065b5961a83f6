//! Why a checked byte access did not take place.

use vstd::prelude::*;

verus! {

/// The failure of one checked access to a buffer.
#[derive(Clone, Copy, Debug, PartialEq, Eq, Structural)]
pub enum Failure {
    /// The access starts inside the buffer but needs `size` bytes where only
    /// `len` remain.
    TooBig { size: usize, len: usize },
    /// The access starts at or behind the end of the buffer.
    BadOffset(usize),
    /// The bytes were there and did not spell a value of the type asked for.
    BadInput { size: usize },
    /// A failure that carries only a message.
    Custom,
    /// A failure of an underlying stream.
    Io,
}

/// The failure of an access of `width` bytes at `at` in a buffer of `len`
/// bytes, when the access does not fit.
pub open spec fn access_failure(at: int, width: int, len: int) -> Failure {
    if at >= len {
        Failure::BadOffset(at as usize)
    } else {
        Failure::TooBig { size: width as usize, len: (len - at) as usize }
    }
}

} // verus!
