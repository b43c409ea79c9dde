//! Why a sheet or a tile is refused.

use vstd::prelude::*;

verus! {

/// The reasons for which the library refuses its input.
#[derive(Clone, Copy, Debug, PartialEq, Eq, Structural)]
pub enum SheetError {
    /// The tile width or the tile height is zero, so no grid can be laid
    /// over the sheet.
    ZeroTileSize,
    /// The corner radius is negative or larger than the tile is wide or
    /// high.
    RadiusOutOfRange,
    /// A blank sheet of the size asked for cannot be made: its width or its
    /// height does not fit in 32 bits, or its pixels do not fit in one
    /// buffer on this machine.
    TooLarge,
}

} // verus!
