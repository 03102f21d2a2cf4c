//! Requests: how the caller describes the slice and selects a sprite.

use vstd::prelude::*;

verus! {

/// How to carve a sheet into sprites.
///
/// Provide *either* `rows` + `cols` (grid mode) *or* `tile_width` +
/// `tile_height` (size mode). Supplying both pairs, or neither, is an error.
#[derive(Debug, Clone, Copy, PartialEq, Eq)]
pub struct SliceSpec {
    /// Number of sprite rows (grid mode).
    pub rows: Option<u32>,
    /// Number of sprite columns (grid mode).
    pub cols: Option<u32>,
    /// Width of a single sprite in pixels (size mode).
    pub tile_width: Option<u32>,
    /// Height of a single sprite in pixels (size mode).
    pub tile_height: Option<u32>,
    /// Border between the left/right edges and the outermost tiles, in pixels.
    pub margin_x: u32,
    /// Border between the top/bottom edges and the outermost tiles, in pixels.
    pub margin_y: u32,
    /// Horizontal gap between adjacent tiles, in pixels.
    pub spacing_x: u32,
    /// Vertical gap between adjacent tiles, in pixels.
    pub spacing_y: u32,
}

impl Default for SliceSpec {
    /// No grid, no tile size, no margin and no spacing.
    fn default() -> (s: SliceSpec)
        ensures
            s.rows is None,
            s.cols is None,
            s.tile_width is None,
            s.tile_height is None,
            s.margin_x == 0,
            s.margin_y == 0,
            s.spacing_x == 0,
            s.spacing_y == 0,
    {
        SliceSpec {
            rows: None,
            cols: None,
            tile_width: None,
            tile_height: None,
            margin_x: 0,
            margin_y: 0,
            spacing_x: 0,
            spacing_y: 0,
        }
    }
}

impl SliceSpec {
    /// Grid mode: some of `rows` / `cols` is given.
    pub open spec fn has_grid(self) -> bool {
        self.rows is Some || self.cols is Some
    }

    /// Size mode: some of `tile_width` / `tile_height` is given.
    pub open spec fn has_tiles(self) -> bool {
        self.tile_width is Some || self.tile_height is Some
    }
}

/// Which sprite to return.
///
/// Provide either `index` (row-major, zero-based) or both `row` and `col`.
#[derive(Debug, Clone, Copy, PartialEq, Eq)]
pub struct Selector {
    /// Row-major, zero-based index into the grid.
    pub index: Option<u32>,
    /// Zero-based row.
    pub row: Option<u32>,
    /// Zero-based column.
    pub col: Option<u32>,
}

impl Default for Selector {
    /// Selects nothing.
    fn default() -> (s: Selector)
        ensures
            s.index is None,
            s.row is None,
            s.col is None,
    {
        Selector { index: None, row: None, col: None }
    }
}

} // verus!
