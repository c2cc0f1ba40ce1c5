use vstd::prelude::*;

verus! {

/// A signed fixed-point number in Q7 format: the stored `i8` is the value
/// scaled by 2^7, so it represents `raw / 128`, covering [-1, 127/128].
#[derive(Clone, Copy, Debug, PartialEq, Eq, Structural)]
pub struct Q7(pub i8);

} // verus!
