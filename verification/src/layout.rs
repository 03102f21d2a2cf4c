//! Resolving a [`SliceSpec`] into concrete tile geometry, and locating cells.

use vstd::prelude::*;

use crate::codec::{crop, encode_png, png_bytes, ImageModel, Sheet};
use crate::error::SpriteError;
use crate::model::Sprite;
use crate::spec::{Selector, SliceSpec};

verus! {

/// `x` clamped from below to zero.
pub open spec fn floored(x: int) -> int {
    if x < 0 {
        0
    } else {
        x
    }
}

/// Grid mode, one axis: the tile size that splits `length` into `count` tiles,
/// after two margins and `count - 1` gaps of `spacing` are taken off, or why
/// there is none.
pub open spec fn tile_size_result(
    axis: &'static str,
    length: u32,
    count: u32,
    margin: u32,
    spacing: u32,
) -> Result<u32, SpriteError> {
    if count == 0 {
        Err(SpriteError::ZeroDimension)
    } else {
        let usable = length - 2 * margin - (count - 1) * spacing;
        if usable < 0 {
            Err(SpriteError::NonDivisibleGrid { axis, usable: 0, count, leftover: 0 })
        } else if usable % (count as int) != 0 {
            Err(
                SpriteError::NonDivisibleGrid {
                    axis,
                    usable: usable as u32,
                    count,
                    leftover: (usable % (count as int)) as u32,
                },
            )
        } else {
            Ok((usable / (count as int)) as u32)
        }
    }
}

/// Size mode, one axis: the greatest number of whole tiles of `tile` pixels,
/// `spacing` apart, that fit in `length` less two margins (zero when not even
/// one does).
pub open spec fn tile_fit_result(length: u32, tile: u32, margin: u32, spacing: u32) -> Result<u32, SpriteError> {
    if tile == 0 {
        Err(SpriteError::ZeroDimension)
    } else {
        let usable = floored(length - 2 * margin);
        if usable < tile {
            Ok(0)
        } else {
            Ok(((usable - tile) / (tile + spacing) + 1) as u32)
        }
    }
}

/// Grid mode: derive the tile size along one axis, requiring an even division.
fn tile_size(axis: &'static str, length: u32, count: u32, margin: u32, spacing: u32) -> (r: Result<
    u32,
    SpriteError,
>)
    ensures
        r == tile_size_result(axis, length, count, margin, spacing),
{
    if count == 0 {
        return Err(SpriteError::ZeroDimension);
    }
    // The margins and gaps are summed without bound, so that taking them off
    // a `u32` length never wraps or saturates.
    let edges: u128 = 2 * (margin as u128);
    proof {
        assert((count - 1) * spacing <= 0xffff_ffffu128 * 0xffff_ffffu128) by (nonlinear_arith)
            requires
                count >= 1,
        ;
    }
    let gaps: u128 = ((count - 1) as u128) * (spacing as u128);
    if (length as u128) < edges + gaps {
        return Err(SpriteError::NonDivisibleGrid { axis, usable: 0, count, leftover: 0 });
    }
    let usable = ((length as u128) - edges - gaps) as u32;
    let leftover = usable % count;
    if leftover != 0 {
        return Err(SpriteError::NonDivisibleGrid { axis, usable, count, leftover });
    }
    Ok(usable / count)
}

/// Size mode: how many whole tiles of `tile` pixels fit along one axis.
fn tile_fit(length: u32, tile: u32, margin: u32, spacing: u32) -> (r: Result<u32, SpriteError>)
    ensures
        r == tile_fit_result(length, tile, margin, spacing),
{
    if tile == 0 {
        return Err(SpriteError::ZeroDimension);
    }
    let edges: u64 = 2 * (margin as u64);
    if (length as u64) < edges + (tile as u64) {
        return Ok(0);
    }
    let usable: u64 = (length as u64) - edges;
    // The first tile takes `tile` pixels, every further one `tile + spacing`.
    let step: u64 = (tile as u64) + (spacing as u64);
    let more: u64 = (usable - tile as u64) / step;
    proof {
        let rest: int = usable - tile;
        assert(more <= rest) by (nonlinear_arith)
            requires
                more == rest / (step as int),
                step >= 1,
                rest >= 0,
        ;
    }
    Ok((more + 1) as u32)
}

/// A fully resolved grid: concrete tile sizes and offsets for the sheet.
#[derive(Debug, Clone, Copy)]
pub struct Layout {
    pub rows: u32,
    pub cols: u32,
    pub tile_w: u32,
    pub tile_h: u32,
    pub margin_x: u32,
    pub margin_y: u32,
    pub spacing_x: u32,
    pub spacing_y: u32,
}

/// Grid mode: `(rows, cols, tile_w, tile_h)` from the requested grid, or why not.
pub open spec fn grid_dims(spec: SliceSpec, width: u32, height: u32) -> Result<(u32, u32, u32, u32), SpriteError> {
    match (spec.rows, spec.cols) {
        (Some(rows), Some(cols)) => match tile_size_result("horizontal", width, cols, spec.margin_x, spec.spacing_x) {
            Err(e) => Err(e),
            Ok(tile_w) => match tile_size_result("vertical", height, rows, spec.margin_y, spec.spacing_y) {
                Err(e) => Err(e),
                Ok(tile_h) => Ok((rows, cols, tile_w, tile_h)),
            },
        },
        _ => Err(SpriteError::MissingSpec),
    }
}

/// Size mode: `(rows, cols, tile_w, tile_h)` from the requested tile size, or why not.
pub open spec fn size_dims(spec: SliceSpec, width: u32, height: u32) -> Result<(u32, u32, u32, u32), SpriteError> {
    match (spec.tile_width, spec.tile_height) {
        (Some(tile_w), Some(tile_h)) => match tile_fit_result(width, tile_w, spec.margin_x, spec.spacing_x) {
            Err(e) => Err(e),
            Ok(cols) => match tile_fit_result(height, tile_h, spec.margin_y, spec.spacing_y) {
                Err(e) => Err(e),
                Ok(rows) => Ok((rows, cols, tile_w, tile_h)),
            },
        },
        _ => Err(SpriteError::MissingSpec),
    }
}

/// What resolving `spec` against a `width` x `height` sheet gives.
pub open spec fn resolve_result(spec: SliceSpec, width: u32, height: u32) -> Result<Layout, SpriteError> {
    if spec.has_grid() && spec.has_tiles() {
        Err(SpriteError::AmbiguousSpec)
    } else if !spec.has_grid() && !spec.has_tiles() {
        Err(SpriteError::MissingSpec)
    } else {
        let dims = if spec.has_grid() {
            grid_dims(spec, width, height)
        } else {
            size_dims(spec, width, height)
        };
        match dims {
            Err(e) => Err(e),
            Ok((rows, cols, tile_w, tile_h)) => if rows == 0 || cols == 0 || tile_w == 0 || tile_h == 0 {
                Err(SpriteError::ZeroDimension)
            } else {
                Ok(
                    Layout {
                        rows,
                        cols,
                        tile_w,
                        tile_h,
                        margin_x: spec.margin_x,
                        margin_y: spec.margin_y,
                        spacing_x: spec.spacing_x,
                        spacing_y: spec.spacing_y,
                    },
                )
            },
        }
    }
}

/// Where the tile at position `i` of an axis starts: after the margin, `i`
/// tiles and `i` gaps.
pub open spec fn offset(margin: u32, i: int, tile: u32, spacing: u32) -> int {
    margin + i * tile + i * spacing
}

/// Pixels taken along one axis by two margins, `tiles` tiles and the gaps between them.
pub open spec fn extent(margin: u32, tiles: u32, tile: u32, spacing: u32) -> int {
    2 * margin + tiles * tile + (tiles - 1) * spacing
}

/// [`extent`], counting no gap where there are no tiles.
pub open spec fn span(margin: u32, tiles: u32, tile: u32, spacing: u32) -> int {
    2 * margin + tiles * tile + floored(tiles - 1) * spacing
}

/// [`span`], computed without bound so that no grid wraps or saturates into
/// fitting.
fn used_span(margin: u32, tiles: u32, tile: u32, spacing: u32) -> (r: u128)
    ensures
        r == span(margin, tiles, tile, spacing),
{
    let gaps: u32 = if tiles > 0 {
        tiles - 1
    } else {
        0
    };
    proof {
        assert(tiles * tile <= 0xffff_ffffu128 * 0xffff_ffffu128) by (nonlinear_arith);
        assert(gaps * spacing <= 0xffff_ffffu128 * 0xffff_ffffu128) by (nonlinear_arith);
    }
    2 * (margin as u128) + (tiles as u128) * (tile as u128) + (gaps as u128) * (spacing as u128)
}

impl Layout {
    /// Every count and size is positive and the grid, margins included, lies
    /// within a `width` x `height` sheet.
    pub open spec fn fits(self, width: u32, height: u32) -> bool {
        &&& self.rows > 0
        &&& self.cols > 0
        &&& self.tile_w > 0
        &&& self.tile_h > 0
        &&& extent(self.margin_x, self.cols, self.tile_w, self.spacing_x) <= width
        &&& extent(self.margin_y, self.rows, self.tile_h, self.spacing_y) <= height
    }

    /// The `DoesNotFit` error for this grid on a `width` x `height` sheet.
    pub open spec fn does_not_fit(self, width: u32, height: u32) -> SpriteError {
        SpriteError::DoesNotFit {
            width,
            height,
            rows: self.rows,
            cols: self.cols,
            margin_x: self.margin_x,
            margin_y: self.margin_y,
            spacing_x: self.spacing_x,
            spacing_y: self.spacing_y,
        }
    }

    /// Resolve a [`SliceSpec`] against the sheet's pixel dimensions.
    pub fn resolve(spec: &SliceSpec, width: u32, height: u32) -> (r: Result<Layout, SpriteError>)
        ensures
            r == resolve_result(*spec, width, height),
            r matches Ok(l) ==> l.fits(width, height),
    {
        let has_grid = spec.rows.is_some() || spec.cols.is_some();
        let has_tiles = spec.tile_width.is_some() || spec.tile_height.is_some();

        let (rows, cols, tile_w, tile_h) = match (has_grid, has_tiles) {
            (true, true) => return Err(SpriteError::AmbiguousSpec),
            (false, false) => return Err(SpriteError::MissingSpec),
            (true, false) => {
                let rows = match spec.rows {
                    Some(r) => r,
                    None => return Err(SpriteError::MissingSpec),
                };
                let cols = match spec.cols {
                    Some(c) => c,
                    None => return Err(SpriteError::MissingSpec),
                };
                let tile_w = tile_size("horizontal", width, cols, spec.margin_x, spec.spacing_x)?;
                let tile_h = tile_size("vertical", height, rows, spec.margin_y, spec.spacing_y)?;
                (rows, cols, tile_w, tile_h)
            },
            (false, true) => {
                let tile_w = match spec.tile_width {
                    Some(t) => t,
                    None => return Err(SpriteError::MissingSpec),
                };
                let tile_h = match spec.tile_height {
                    Some(t) => t,
                    None => return Err(SpriteError::MissingSpec),
                };
                let cols = tile_fit(width, tile_w, spec.margin_x, spec.spacing_x)?;
                let rows = tile_fit(height, tile_h, spec.margin_y, spec.spacing_y)?;
                (rows, cols, tile_w, tile_h)
            },
        };

        if rows == 0 || cols == 0 || tile_w == 0 || tile_h == 0 {
            return Err(SpriteError::ZeroDimension);
        }

        let layout = Layout {
            rows,
            cols,
            tile_w,
            tile_h,
            margin_x: spec.margin_x,
            margin_y: spec.margin_y,
            spacing_x: spec.spacing_x,
            spacing_y: spec.spacing_y,
        };

        proof {
            if has_grid {
                lemma_grid_axis_fills("horizontal", width, cols, spec.margin_x, spec.spacing_x, tile_w);
                lemma_grid_axis_fills("vertical", height, rows, spec.margin_y, spec.spacing_y, tile_h);
            } else {
                lemma_size_axis_fits(width, tile_w, spec.margin_x, spec.spacing_x, cols);
                lemma_size_axis_fits(height, tile_h, spec.margin_y, spec.spacing_y, rows);
            }
        }

        layout.ensure_fits(width, height)?;

        Ok(layout)
    }

    /// What [`Layout::count`] gives: the number of cells, where it fits in a `u32`.
    pub open spec fn count_result(self) -> Result<u32, SpriteError> {
        if self.rows * self.cols > u32::MAX {
            Err(SpriteError::SpriteCountOverflow)
        } else {
            Ok((self.rows * self.cols) as u32)
        }
    }

    /// The number of cells, `rows * cols`.
    pub fn count(&self) -> (r: Result<u32, SpriteError>)
        ensures
            r == self.count_result(),
    {
        match self.rows.checked_mul(self.cols) {
            Some(n) => Ok(n),
            None => Err(SpriteError::SpriteCountOverflow),
        }
    }

    /// Left edge of the cells in column `col`.
    pub open spec fn cell_x(self, col: int) -> int {
        offset(self.margin_x, col, self.tile_w, self.spacing_x)
    }

    /// Top edge of the cells in row `row`.
    pub open spec fn cell_y(self, row: int) -> int {
        offset(self.margin_y, row, self.tile_h, self.spacing_y)
    }

    /// The origin of cell `(row, col)` is a `u32`.
    pub open spec fn origin_in_range(self, row: u32, col: u32) -> bool {
        &&& self.cell_x(col as int) <= u32::MAX
        &&& self.cell_y(row as int) <= u32::MAX
    }

    /// Top-left pixel offset of the cell at `(row, col)`.
    pub fn origin(&self, row: u32, col: u32) -> (r: (u32, u32))
        requires
            self.origin_in_range(row, col),
        ensures
            r.0 == self.cell_x(col as int),
            r.1 == self.cell_y(row as int),
    {
        proof {
            assert(0 <= col * self.tile_w && 0 <= col * self.spacing_x) by (nonlinear_arith);
            assert(0 <= row * self.tile_h && 0 <= row * self.spacing_y) by (nonlinear_arith);
        }
        // Each of the `col` steps is a tile and a gap.
        let x = self.margin_x + col * self.tile_w + col * self.spacing_x;
        let y = self.margin_y + row * self.tile_h + row * self.spacing_y;
        (x, y)
    }

    /// The grid is not empty, and the origin of every cell is computed within `u32`.
    pub open spec fn addressable(self) -> bool {
        &&& self.rows > 0
        &&& self.cols > 0
        &&& self.cell_x(self.cols - 1) <= u32::MAX
        &&& self.cell_y(self.rows - 1) <= u32::MAX
    }

    /// `s` is the sprite of cell `(row, col)`: its place and size in the sheet.
    pub open spec fn cell_sprite(self, row: int, col: int, s: Sprite) -> bool {
        &&& s.row == row
        &&& s.col == col
        &&& s.x == self.cell_x(col)
        &&& s.y == self.cell_y(row)
        &&& s.width == self.tile_w
        &&& s.height == self.tile_h
    }

    /// The PNG bytes of cell `(row, col)` cut out of the image `model`
    /// describes, or `None` where encoding fails.
    pub open spec fn cell_png(self, model: ImageModel, row: int, col: int) -> Option<Seq<u8>> {
        png_bytes(
            ImageModel::Cropped(
                Box::new(model),
                self.cell_x(col) as u32,
                self.cell_y(row) as u32,
                self.tile_w,
                self.tile_h,
            ),
        )
    }

    /// [`Layout::cell_png`] of the cell at row-major position `index`.
    pub open spec fn index_png(self, model: ImageModel, index: int) -> Option<Seq<u8>> {
        self.cell_png(model, index / (self.cols as int), index % (self.cols as int))
    }

    /// Crop the cell at `(row, col)` and encode it as a PNG sprite.
    pub fn cut(&self, img: &Sheet, row: u32, col: u32) -> (r: Result<Sprite, SpriteError>)
        requires
            self.origin_in_range(row, col),
        ensures
            match self.cell_png(img.model(), row as int, col as int) {
                Some(png) => r matches Ok(s) && self.cell_sprite(row as int, col as int, s) && s.png@
                    == png && png.len() > 0,
                None => r matches Err(e) && e is Image,
            },
    {
        let (x, y) = self.origin(row, col);
        let cell = crop(img, x, y, self.tile_w, self.tile_h);
        let png = match encode_png(&cell) {
            Ok(png) => png,
            Err(e) => return Err(SpriteError::Image(e)),
        };
        Ok(Sprite { row, col, x, y, width: self.tile_w, height: self.tile_h, png })
    }

    /// What [`Layout::locate`] gives for `selector`: an index is taken first,
    /// row-major; otherwise both a row and a column are needed.
    pub open spec fn locate_result(self, selector: Selector) -> Result<(u32, u32), SpriteError> {
        match selector.index {
            Some(index) => match self.count_result() {
                Err(e) => Err(e),
                Ok(count) => if index >= count {
                    Err(SpriteError::IndexOutOfRange { index, count })
                } else {
                    Ok((index / self.cols, index % self.cols))
                },
            },
            None => match (selector.row, selector.col) {
                (Some(row), Some(col)) => if row >= self.rows || col >= self.cols {
                    Err(SpriteError::CellOutOfRange { row, col, rows: self.rows, cols: self.cols })
                } else {
                    Ok((row, col))
                },
                _ => Err(SpriteError::MissingSelector),
            },
        }
    }

    /// Translate a [`Selector`] into a `(row, col)` cell, bounds-checked.
    pub fn locate(&self, selector: &Selector) -> (r: Result<(u32, u32), SpriteError>)
        ensures
            r == self.locate_result(*selector),
            r matches Ok((row, col)) ==> row < self.rows && col < self.cols,
    {
        if let Some(index) = selector.index {
            let count = self.count()?;
            if index >= count {
                return Err(SpriteError::IndexOutOfRange { index, count });
            }
            proof {
                assert(self.cols > 0) by {
                    if self.cols == 0 {
                        assert(self.rows * self.cols == 0) by (nonlinear_arith)
                            requires
                                self.cols == 0,
                        ;
                    }
                }
                lemma_index_splits(index, self.rows, self.cols);
            }
            return Ok((index / self.cols, index % self.cols));
        }
        match (selector.row, selector.col) {
            (Some(row), Some(col)) => {
                if row >= self.rows || col >= self.cols {
                    return Err(
                        SpriteError::CellOutOfRange { row, col, rows: self.rows, cols: self.cols },
                    );
                }
                Ok((row, col))
            },
            _ => Err(SpriteError::MissingSelector),
        }
    }

    /// Verify the resolved grid stays within the sheet bounds.
    fn ensure_fits(&self, width: u32, height: u32) -> (r: Result<(), SpriteError>)
        ensures
            r is Ok <==> span(self.margin_x, self.cols, self.tile_w, self.spacing_x) <= width && span(
                self.margin_y,
                self.rows,
                self.tile_h,
                self.spacing_y,
            ) <= height,
            r is Err ==> r->Err_0 == self.does_not_fit(width, height),
    {
        let used_w = used_span(self.margin_x, self.cols, self.tile_w, self.spacing_x);
        let used_h = used_span(self.margin_y, self.rows, self.tile_h, self.spacing_y);

        if used_w > width as u128 || used_h > height as u128 {
            return Err(
                SpriteError::DoesNotFit {
                    width,
                    height,
                    rows: self.rows,
                    cols: self.cols,
                    margin_x: self.margin_x,
                    margin_y: self.margin_y,
                    spacing_x: self.spacing_x,
                    spacing_y: self.spacing_y,
                },
            );
        }
        Ok(())
    }
}

/// In grid mode a positive tile size fills its axis exactly: two margins,
/// `count` tiles and `count - 1` gaps add up to the sheet's length.
pub proof fn lemma_grid_axis_fills(
    axis: &'static str,
    length: u32,
    count: u32,
    margin: u32,
    spacing: u32,
    tile: u32,
)
    requires
        tile_size_result(axis, length, count, margin, spacing) == Ok::<u32, SpriteError>(tile),
        tile > 0,
    ensures
        extent(margin, count, tile, spacing) == length,
{
    let usable = length - 2 * margin - (count - 1) * spacing;
    assert(count > 0);
    assert(usable == count * (usable / (count as int))) by {
        vstd::arithmetic::div_mod::lemma_fundamental_div_mod(usable, count as int);
    }
}

/// In size mode the tiles that were counted fit, and one more would not: two
/// margins, the tiles and the gaps between them take no more than the sheet's
/// length, and a further tile and gap would exceed it.
pub proof fn lemma_size_axis_fits(length: u32, tile: u32, margin: u32, spacing: u32, count: u32)
    requires
        tile > 0,
        tile_fit_result(length, tile, margin, spacing) == Ok::<u32, SpriteError>(count),
    ensures
        count > 0 ==> extent(margin, count, tile, spacing) <= length,
        2 * margin + (count + 1) * tile + count * spacing > length,
{
    let usable = floored(length - 2 * margin);
    let step = tile + spacing;
    if usable < tile {
        assert(count == 0);
    } else {
        let rest = usable - tile;
        let more = rest / step;
        assert(count == more + 1);
        vstd::arithmetic::div_mod::lemma_fundamental_div_mod(rest, step);
        assert(more * step <= rest && rest < (more + 1) * step) by (nonlinear_arith)
            requires
                rest == step * more + rest % step,
                0 <= rest % step < step,
        ;
        assert(count * tile + (count - 1) * spacing == tile + more * step) by (nonlinear_arith)
            requires
                step == tile + spacing,
                count == more + 1,
        ;
        assert((count + 1) * tile + count * spacing == tile + (more + 1) * step) by (nonlinear_arith)
            requires
                step == tile + spacing,
                count == more + 1,
        ;
    }
}

/// A row-major index below `rows * cols` splits into a row below `rows` and a
/// column below `cols`, and is recovered from them.
pub proof fn lemma_index_splits(index: u32, rows: u32, cols: u32)
    requires
        cols > 0,
        index < rows * cols,
    ensures
        index / cols < rows,
        index % cols < cols,
        index == (index / cols) * cols + index % cols,
{
    vstd::arithmetic::div_mod::lemma_fundamental_div_mod(index as int, cols as int);
    let q = index / cols;
    assert(q < rows) by (nonlinear_arith)
        requires
            index == cols * q + index % cols,
            index % cols >= 0,
            index < rows * cols,
            cols > 0,
    ;
    assert(cols * q == q * cols) by (nonlinear_arith);
}

/// Every cell of a grid that fits the sheet lies inside the sheet, within the
/// margins, and cells further right (or further down) start after the earlier
/// ones end: no two cells overlap.
pub proof fn lemma_cells_within_sheet(layout: Layout, width: u32, height: u32, row: int, col: int)
    requires
        layout.fits(width, height),
        0 <= row < layout.rows,
        0 <= col < layout.cols,
    ensures
        layout.margin_x <= layout.cell_x(col),
        layout.cell_x(col) + layout.tile_w + layout.margin_x <= width,
        layout.margin_y <= layout.cell_y(row),
        layout.cell_y(row) + layout.tile_h + layout.margin_y <= height,
        forall|later: int|
            col < later < layout.cols ==> layout.cell_x(col) + layout.tile_w <= #[trigger] layout.cell_x(later),
        forall|later: int|
            row < later < layout.rows ==> layout.cell_y(row) + layout.tile_h <= #[trigger] layout.cell_y(later),
{
    lemma_axis_within(layout.margin_x, layout.cols, layout.tile_w, layout.spacing_x, width, col);
    lemma_axis_within(layout.margin_y, layout.rows, layout.tile_h, layout.spacing_y, height, row);
}

/// One axis of [`lemma_cells_within_sheet`].
proof fn lemma_axis_within(margin: u32, tiles: u32, tile: u32, spacing: u32, length: u32, i: int)
    requires
        tile > 0,
        extent(margin, tiles, tile, spacing) <= length,
        0 <= i < tiles,
    ensures
        margin <= offset(margin, i, tile, spacing),
        offset(margin, i, tile, spacing) + tile + margin <= length,
        forall|j: int|
            i < j < tiles ==> offset(margin, i, tile, spacing) + tile <= #[trigger] offset(
                margin,
                j,
                tile,
                spacing,
            ),
{
    assert(0 <= i * tile && 0 <= i * spacing) by (nonlinear_arith)
        requires
            i >= 0,
    ;
    assert(i * tile + i * spacing + tile <= tiles * tile + (tiles - 1) * spacing) by (nonlinear_arith)
        requires
            0 <= i < tiles,
            spacing >= 0,
            tile >= 0,
    ;
    assert forall|j: int| i < j < tiles implies offset(margin, i, tile, spacing) + tile
        <= #[trigger] offset(margin, j, tile, spacing) by {
        assert(i * tile + i * spacing + tile <= j * tile + j * spacing) by (nonlinear_arith)
            requires
                i < j,
                tile >= 0,
                spacing >= 0,
        ;
    }
}

/// A grid that fits the sheet is addressable.
pub proof fn lemma_fitting_grid_addressable(layout: Layout, width: u32, height: u32)
    requires
        layout.fits(width, height),
    ensures
        layout.addressable(),
{
    lemma_cells_within_sheet(layout, width, height, layout.rows - 1, layout.cols - 1);
}

/// In an addressable grid every cell's origin is computed within `u32`.
pub proof fn lemma_addressable_cell(layout: Layout, row: u32, col: u32)
    requires
        layout.addressable(),
        row < layout.rows,
        col < layout.cols,
    ensures
        layout.origin_in_range(row, col),
{
    let (tw, sx, th, sy) = (layout.tile_w, layout.spacing_x, layout.tile_h, layout.spacing_y);
    assert(col * tw + col * sx <= (layout.cols - 1) * tw + (layout.cols - 1) * sx) by (nonlinear_arith)
        requires
            col <= layout.cols - 1,
            tw >= 0,
            sx >= 0,
    ;
    assert(row * th + row * sy <= (layout.rows - 1) * th + (layout.rows - 1) * sy) by (nonlinear_arith)
        requires
            row <= layout.rows - 1,
            th >= 0,
            sy >= 0,
    ;
}

/// Selecting by a row-major index and selecting the cell it names agree: an
/// index below the number of cells selects row `index / cols` and column
/// `index % cols`, and selecting that row and column gives the same cell.
pub proof fn lemma_index_and_cell_agree(layout: Layout, index: u32)
    requires
        layout.rows * layout.cols <= u32::MAX,
        index < layout.rows * layout.cols,
    ensures
        layout.cols > 0,
        layout.locate_result(Selector { index: Some(index), row: None, col: None }) == Ok::<
            (u32, u32),
            SpriteError,
        >((index / layout.cols, index % layout.cols)),
        layout.locate_result(
            Selector { index: None, row: Some(index / layout.cols), col: Some(index % layout.cols) },
        ) == Ok::<(u32, u32), SpriteError>((index / layout.cols, index % layout.cols)),
{
    if layout.cols == 0 {
        assert(layout.rows * layout.cols == 0) by (nonlinear_arith)
            requires
                layout.cols == 0,
        ;
    }
    lemma_index_splits(index, layout.rows, layout.cols);
}

/// Every cell is selected by its row-major index `row * cols + col`.
pub proof fn lemma_cell_index_round_trip(layout: Layout, row: u32, col: u32)
    requires
        layout.rows * layout.cols <= u32::MAX,
        row < layout.rows,
        col < layout.cols,
    ensures
        row * layout.cols + col < layout.rows * layout.cols,
        layout.locate_result(
            Selector { index: Some((row * layout.cols + col) as u32), row: None, col: None },
        ) == Ok::<(u32, u32), SpriteError>((row, col)),
{
    assert(row * layout.cols + col < layout.rows * layout.cols) by (nonlinear_arith)
        requires
            row < layout.rows,
            col < layout.cols,
    ;
    vstd::arithmetic::div_mod::lemma_fundamental_div_mod_converse(
        row * layout.cols + col,
        layout.cols as int,
        row as int,
        col as int,
    );
}

/// Grid mode gives the requested grid, and its tiles, margins and gaps fill
/// the sheet exactly.
pub proof fn lemma_grid_mode_exact(spec: SliceSpec, width: u32, height: u32, layout: Layout)
    requires
        spec.has_grid(),
        resolve_result(spec, width, height) == Ok::<Layout, SpriteError>(layout),
    ensures
        spec.rows == Some(layout.rows),
        spec.cols == Some(layout.cols),
        extent(layout.margin_x, layout.cols, layout.tile_w, layout.spacing_x) == width,
        extent(layout.margin_y, layout.rows, layout.tile_h, layout.spacing_y) == height,
{
    lemma_grid_axis_fills("horizontal", width, layout.cols, spec.margin_x, spec.spacing_x, layout.tile_w);
    lemma_grid_axis_fills("vertical", height, layout.rows, spec.margin_y, spec.spacing_y, layout.tile_h);
}

/// Grid mode is complete: where positive tile sizes exist whose `cols` (and
/// `rows`) tiles, gaps and two margins fill the sheet exactly, resolving gives
/// the requested grid with exactly those tile sizes.
pub proof fn lemma_grid_mode_complete(spec: SliceSpec, width: u32, height: u32, tile_w: u32, tile_h: u32)
    requires
        spec.rows is Some,
        spec.cols is Some,
        !spec.has_tiles(),
        spec.rows->0 > 0,
        spec.cols->0 > 0,
        tile_w > 0,
        tile_h > 0,
        extent(spec.margin_x, spec.cols->0, tile_w, spec.spacing_x) == width,
        extent(spec.margin_y, spec.rows->0, tile_h, spec.spacing_y) == height,
    ensures
        resolve_result(spec, width, height) == Ok::<Layout, SpriteError>(
            Layout {
                rows: spec.rows->0,
                cols: spec.cols->0,
                tile_w,
                tile_h,
                margin_x: spec.margin_x,
                margin_y: spec.margin_y,
                spacing_x: spec.spacing_x,
                spacing_y: spec.spacing_y,
            },
        ),
{
    lemma_axis_divides(spec.margin_x, spec.cols->0, tile_w, spec.spacing_x, width);
    lemma_axis_divides(spec.margin_y, spec.rows->0, tile_h, spec.spacing_y, height);
}

/// One axis of [`lemma_grid_mode_complete`]: an exact tiling is what the
/// grid-mode tile size finds.
proof fn lemma_axis_divides(margin: u32, count: u32, tile: u32, spacing: u32, length: u32)
    requires
        count > 0,
        extent(margin, count, tile, spacing) == length,
    ensures
        forall|axis: &'static str|
            #[trigger] tile_size_result(axis, length, count, margin, spacing) == Ok::<u32, SpriteError>(
                tile,
            ),
{
    let usable = length - 2 * margin - (count - 1) * spacing;
    assert(usable == tile * count) by (nonlinear_arith)
        requires
            usable == length - 2 * margin - (count - 1) * spacing,
            2 * margin + count * tile + (count - 1) * spacing == length,
    ;
    vstd::arithmetic::div_mod::lemma_fundamental_div_mod_converse(usable, count as int, tile as int, 0);
}

/// Size mode is complete: where tiles of the requested sizes fit at least once
/// along each axis, resolving succeeds with those tile sizes and, on each
/// axis, as many tiles as fit and no fewer.
pub proof fn lemma_size_mode_complete(spec: SliceSpec, width: u32, height: u32)
    requires
        !spec.has_grid(),
        spec.tile_width is Some,
        spec.tile_height is Some,
        spec.tile_width->0 > 0,
        spec.tile_height->0 > 0,
        2 * spec.margin_x + spec.tile_width->0 <= width,
        2 * spec.margin_y + spec.tile_height->0 <= height,
    ensures
        resolve_result(spec, width, height) matches Ok(l) && {
            &&& l.tile_w == spec.tile_width->0
            &&& l.tile_h == spec.tile_height->0
            &&& l.margin_x == spec.margin_x
            &&& l.margin_y == spec.margin_y
            &&& l.spacing_x == spec.spacing_x
            &&& l.spacing_y == spec.spacing_y
            &&& extent(l.margin_x, l.cols, l.tile_w, l.spacing_x) <= width
            &&& 2 * l.margin_x + (l.cols + 1) * l.tile_w + l.cols * l.spacing_x > width
            &&& extent(l.margin_y, l.rows, l.tile_h, l.spacing_y) <= height
            &&& 2 * l.margin_y + (l.rows + 1) * l.tile_h + l.rows * l.spacing_y > height
        },
{
    let (tw, th) = (spec.tile_width->0, spec.tile_height->0);
    lemma_axis_counts_one(width, tw, spec.margin_x, spec.spacing_x);
    lemma_axis_counts_one(height, th, spec.margin_y, spec.spacing_y);
    let cols = tile_fit_result(width, tw, spec.margin_x, spec.spacing_x)->Ok_0;
    let rows = tile_fit_result(height, th, spec.margin_y, spec.spacing_y)->Ok_0;
    lemma_size_axis_fits(width, tw, spec.margin_x, spec.spacing_x, cols);
    lemma_size_axis_fits(height, th, spec.margin_y, spec.spacing_y, rows);
}

/// Where one tile fits, the size-mode count is at least one.
proof fn lemma_axis_counts_one(length: u32, tile: u32, margin: u32, spacing: u32)
    requires
        tile > 0,
        2 * margin + tile <= length,
    ensures
        tile_fit_result(length, tile, margin, spacing) matches Ok(n) && n >= 1,
{
    let usable = floored(length - 2 * margin);
    let rest = usable - tile;
    assert(rest / ((tile + spacing) as int) >= 0) by (nonlinear_arith)
        requires
            rest >= 0,
            tile + spacing >= 1,
    ;
    assert(rest / ((tile + spacing) as int) <= rest) by (nonlinear_arith)
        requires
            rest >= 0,
            tile + spacing >= 1,
    ;
}

/// Size mode gives the requested tile size and as many whole tiles as fit:
/// one more column (or row) would not.
pub proof fn lemma_size_mode_maximal(spec: SliceSpec, width: u32, height: u32, layout: Layout)
    requires
        !spec.has_grid(),
        resolve_result(spec, width, height) == Ok::<Layout, SpriteError>(layout),
    ensures
        spec.tile_width == Some(layout.tile_w),
        spec.tile_height == Some(layout.tile_h),
        extent(layout.margin_x, layout.cols, layout.tile_w, layout.spacing_x) <= width,
        2 * layout.margin_x + (layout.cols + 1) * layout.tile_w + layout.cols * layout.spacing_x > width,
        extent(layout.margin_y, layout.rows, layout.tile_h, layout.spacing_y) <= height,
        2 * layout.margin_y + (layout.rows + 1) * layout.tile_h + layout.rows * layout.spacing_y > height,
{
    lemma_size_axis_fits(width, layout.tile_w, spec.margin_x, spec.spacing_x, layout.cols);
    lemma_size_axis_fits(height, layout.tile_h, spec.margin_y, spec.spacing_y, layout.rows);
}

} // verus!
