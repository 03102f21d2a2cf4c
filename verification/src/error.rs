//! The error type shared by every operation of the crate.

use vstd::prelude::*;

verus! {

/// The error that image decoding and PNG encoding report.
#[verifier::external_type_specification]
#[verifier::external_body]
pub struct ExImageError(image::ImageError);

/// The error of std's I/O layer.
#[verifier::external_type_specification]
#[verifier::external_body]
pub struct ExIoError(std::io::Error);

/// Why a sheet could not be sliced, or a sprite not selected.
#[derive(Debug)]
pub enum SpriteError {
    /// Both a grid (`rows`/`cols`) and a tile size were given.
    AmbiguousSpec,
    /// Neither a grid nor a tile size was given, or only half of one.
    MissingSpec,
    /// A row, column or tile count or size resolved to zero.
    ZeroDimension,
    /// `rows * cols` does not fit in a `u32`.
    SpriteCountOverflow,
    /// The resolved grid does not fit in the sheet.
    DoesNotFit {
        width: u32,
        height: u32,
        rows: u32,
        cols: u32,
        margin_x: u32,
        margin_y: u32,
        spacing_x: u32,
        spacing_y: u32,
    },
    /// In grid mode, the usable length of an axis is not a multiple of the tile count.
    NonDivisibleGrid { axis: &'static str, usable: u32, count: u32, leftover: u32 },
    /// The selector gives neither an index nor both a row and a column.
    MissingSelector,
    /// The selected index is not below the number of sprites.
    IndexOutOfRange { index: u32, count: u32 },
    /// The selected cell lies outside the grid.
    CellOutOfRange { row: u32, col: u32, rows: u32, cols: u32 },
    /// The image could not be decoded or encoded.
    Image(image::ImageError),
    /// An I/O failure while reading or writing image bytes.
    Io(std::io::Error),
    /// A request or response could not be read or written as CBOR.
    Cbor(String),
}

} // verus!
