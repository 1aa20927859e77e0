//! Buffers of bytes as the contracts see them.

use vstd::prelude::*;

verus! {

/// The bytes of an optional buffer.
pub open spec fn bytes_view(buffer: Option<Vec<u8>>) -> Option<Seq<u8>> {
    match buffer {
        Some(bytes) => Some(bytes@),
        None => None,
    }
}

/// The bytes of each buffer of a list.
pub open spec fn frames_view(frames: Seq<Vec<u8>>) -> Seq<Seq<u8>> {
    Seq::new(frames.len(), |i: int| frames[i]@)
}

} // verus!
