//! Responses: what slicing hands back to the host.

use vstd::prelude::*;

verus! {

/// A single sprite cut from the sheet, with its position and PNG bytes.
#[derive(Debug, PartialEq, Eq)]
pub struct Sprite {
    pub row: u32,
    pub col: u32,
    /// Pixel offset of the sprite's left edge within the sheet.
    pub x: u32,
    /// Pixel offset of the sprite's top edge within the sheet.
    pub y: u32,
    pub width: u32,
    pub height: u32,
    /// PNG-encoded sprite.
    pub png: Vec<u8>,
}

/// Response of [`split`](crate::split): the resolved grid plus every sprite.
#[derive(Debug, PartialEq, Eq)]
pub struct SplitResponse {
    pub rows: u32,
    pub cols: u32,
    pub tile_width: u32,
    pub tile_height: u32,
    /// Every sprite, in row-major order.
    pub sprites: Vec<Sprite>,
}

/// Response of [`info`](crate::info): sheet dimensions and the resolved grid.
#[derive(Debug, Clone, Copy, PartialEq, Eq)]
pub struct Info {
    pub sheet_width: u32,
    pub sheet_height: u32,
    pub rows: u32,
    pub cols: u32,
    pub tile_width: u32,
    pub tile_height: u32,
    pub count: u32,
}

} // verus!
