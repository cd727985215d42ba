//! Byte order of multi-byte fields.
use vstd::prelude::*;

verus! {

/// Order in which the bytes of a multi-byte number are laid out.
#[derive(Clone, Copy, Debug, PartialEq, Eq, Structural)]
pub enum Endian {
    /// Most significant byte first.
    Big,
    /// Least significant byte first.
    Little,
}

impl Default for Endian {
    /// Big endian, the byte order of the manual codec entry points.
    fn default() -> (e: Endian)
        ensures
            e == Endian::Big,
    {
        Endian::Big
    }
}

} // verus!
