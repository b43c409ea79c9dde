//! Corner rounding for sprite sheets: a sheet of equally sized tiles is cut
//! into its tiles, each tile gets a rounded-rectangle opacity mask, and the
//! masked tiles are put back at their places.

pub mod error;
pub mod raster;
pub mod mask;
pub mod compose;
pub mod sheet;
pub mod laws;
