//! # spryst
//!
//! Slicing a spritesheet into its individual sprites.
//!
//! Three operations take the raw sheet bytes and a [`SliceSpec`]:
//!
//! - [`split`] — decode the sheet and return every sprite as a PNG.
//! - [`sprite`] — return a single sprite, addressed by index or `(row, col)`.
//! - [`info`] — report the sheet dimensions and the resolved grid, without
//!   encoding any sprites.
//!
//! ## Slicing model
//!
//! The grid can be given in one of two ways:
//!
//! - **grid mode** — `rows` and `cols`; the tile size is derived and must divide
//!   the usable area evenly.
//! - **size mode** — `tile_width` and `tile_height`; the row/column counts are
//!   derived as the number of whole tiles that fit.
//!
//! Both modes honour a `margin` (a border between the sheet edges and the
//! outermost tiles) and a `spacing` (the gap between adjacent tiles), each
//! configurable per axis.

pub mod codec;
pub mod error;
pub mod layout;
pub mod model;
pub mod spec;

pub use codec::{decode_image, Sheet};
pub use error::SpriteError;
pub use layout::Layout;
pub use model::{Info, Sprite, SplitResponse};
pub use spec::{Selector, SliceSpec};

use vstd::prelude::*;

use codec::{image_size, ImageModel};
use layout::resolve_result;

verus! {

/// `s` is the sprite at row-major position `index` of `layout`, cut out of
/// the image `model` describes: its place, its size and its PNG bytes.
pub open spec fn is_indexed_sprite(layout: Layout, model: ImageModel, index: int, s: Sprite) -> bool {
    &&& layout.cell_sprite(index / (layout.cols as int), index % (layout.cols as int), s)
    &&& layout.index_png(model, index) == Some(s.png@)
    &&& s.png@.len() > 0
}

/// What [`split_sheet`] gives for the image `model` describes: the error of
/// resolving `spec` against its size, the count overflow, an image error where
/// some cell fails to encode, or else every sprite, each exactly once, in
/// row-major order.
pub open spec fn split_outcome(spec: SliceSpec, model: ImageModel, r: Result<SplitResponse, SpriteError>) -> bool {
    match resolve_result(spec, image_size(model).0, image_size(model).1) {
        Err(e) => r == Err::<SplitResponse, SpriteError>(e),
        Ok(l) => match l.count_result() {
            Err(e) => r == Err::<SplitResponse, SpriteError>(e),
            Ok(n) => if exists|i: int| 0 <= i < n && #[trigger] l.index_png(model, i) is None {
                r matches Err(e) && e is Image
            } else {
                &&& r matches Ok(resp)
                &&& resp.rows == l.rows
                &&& resp.cols == l.cols
                &&& resp.tile_width == l.tile_w
                &&& resp.tile_height == l.tile_h
                &&& resp.sprites.len() == n
                &&& forall|i: int|
                    0 <= i < n ==> is_indexed_sprite(l, model, i, #[trigger] resp.sprites@[i])
            },
        },
    }
}

/// Decode `sheet` and return every sprite as a PNG, per `spec`.
pub fn split(sheet: &[u8], spec: &SliceSpec) -> (r: Result<SplitResponse, SpriteError>)
    ensures
        (r matches Err(e) && e is Image) || (exists|model: ImageModel|
            model is Decoded && #[trigger] split_outcome(*spec, model, r)),
{
    let img = decode_image(sheet)?;
    split_sheet(&img, spec)
}

/// Return every sprite of the decoded sheet `img` as a PNG, per `spec`.
pub fn split_sheet(img: &Sheet, spec: &SliceSpec) -> (r: Result<SplitResponse, SpriteError>)
    ensures
        split_outcome(*spec, img.model(), r),
{
    let (width, height) = img.dimensions();
    let ghost model = img.model();
    let layout = Layout::resolve(spec, width, height)?;
    let count = layout.count()?;
    proof {
        layout::lemma_fitting_grid_addressable(layout, width, height);
    }

    let mut sprites: Vec<Sprite> = Vec::with_capacity(count as usize);
    let cols = layout.cols;
    let mut row: u32 = 0;
    while row < layout.rows
        invariant
            layout.addressable(),
            model == img.model(),
            image_size(model) == (width, height),
            resolve_result(*spec, width, height) == Ok::<Layout, SpriteError>(layout),
            layout.count_result() == Ok::<u32, SpriteError>(count),
            cols == layout.cols,
            count == layout.rows * layout.cols,
            row <= layout.rows,
            sprites.len() == row * cols,
            forall|i: int|
                0 <= i < sprites.len() ==> is_indexed_sprite(layout, model, i, #[trigger] sprites@[i]),
        decreases layout.rows - row,
    {
        let mut col: u32 = 0;
        while col < cols
            invariant
                layout.addressable(),
                model == img.model(),
                image_size(model) == (width, height),
                resolve_result(*spec, width, height) == Ok::<Layout, SpriteError>(layout),
                layout.count_result() == Ok::<u32, SpriteError>(count),
                cols == layout.cols,
                count == layout.rows * layout.cols,
                row < layout.rows,
                col <= cols,
                sprites.len() == row * cols + col,
                forall|i: int|
                    0 <= i < sprites.len() ==> is_indexed_sprite(
                        layout,
                        model,
                        i,
                        #[trigger] sprites@[i],
                    ),
            decreases cols - col,
        {
            let ghost index = row * cols + col;
            proof {
                layout::lemma_addressable_cell(layout, row, col);
                vstd::arithmetic::div_mod::lemma_fundamental_div_mod_converse(
                    index,
                    cols as int,
                    row as int,
                    col as int,
                );
                assert((row + 1) * cols == row * cols + cols) by (nonlinear_arith);
                assert((row + 1) * cols <= layout.rows * cols) by (nonlinear_arith)
                    requires
                        row < layout.rows,
                ;
                assert(layout.index_png(model, index) == layout.cell_png(model, row as int, col as int));
            }
            let s = match layout.cut(&img, row, col) {
                Ok(s) => s,
                Err(e) => {
                    assert(layout.index_png(model, index) is None);
                    return Err(e);
                },
            };
            sprites.push(s);
            col = col + 1;
        }
        proof {
            assert((row + 1) * cols == row * cols + cols) by (nonlinear_arith);
        }
        row = row + 1;
    }

    let resp = SplitResponse {
        rows: layout.rows,
        cols: layout.cols,
        tile_width: layout.tile_w,
        tile_height: layout.tile_h,
        sprites,
    };
    assert forall|i: int| 0 <= i < count implies #[trigger] layout.index_png(model, i) is Some by {
        assert(is_indexed_sprite(layout, model, i, resp.sprites@[i]));
    }
    Ok(resp)
}

/// What [`sprite_in_sheet`] gives for the image `model` describes: the error
/// of resolving `spec` against its size or of selecting, an image error where
/// the selected cell fails to encode, or else the sprite of the selected cell.
pub open spec fn sprite_outcome(
    spec: SliceSpec,
    selector: Selector,
    model: ImageModel,
    r: Result<Sprite, SpriteError>,
) -> bool {
    match resolve_result(spec, image_size(model).0, image_size(model).1) {
        Err(e) => r == Err::<Sprite, SpriteError>(e),
        Ok(l) => match l.locate_result(selector) {
            Err(e) => r == Err::<Sprite, SpriteError>(e),
            Ok((row, col)) => match l.cell_png(model, row as int, col as int) {
                Some(png) => r matches Ok(s) && l.cell_sprite(row as int, col as int, s) && s.png@
                    == png && png.len() > 0,
                None => r matches Err(e) && e is Image,
            },
        },
    }
}

/// Decode `sheet` and return the single sprite chosen by `selector`, using
/// the grid of `spec`.
pub fn sprite(sheet: &[u8], spec: &SliceSpec, selector: &Selector) -> (r: Result<
    Sprite,
    SpriteError,
>)
    ensures
        (r matches Err(e) && e is Image) || (exists|model: ImageModel|
            model is Decoded && #[trigger] sprite_outcome(*spec, *selector, model, r)),
{
    let img = decode_image(sheet)?;
    sprite_in_sheet(&img, spec, selector)
}

/// Return the single sprite of the decoded sheet `img` chosen by `selector`,
/// using the grid of `spec`.
pub fn sprite_in_sheet(img: &Sheet, spec: &SliceSpec, selector: &Selector) -> (r: Result<
    Sprite,
    SpriteError,
>)
    ensures
        sprite_outcome(*spec, *selector, img.model(), r),
{
    let (width, height) = img.dimensions();
    let layout = Layout::resolve(spec, width, height)?;
    let (row, col) = layout.locate(selector)?;
    proof {
        layout::lemma_fitting_grid_addressable(layout, width, height);
        layout::lemma_addressable_cell(layout, row, col);
    }
    layout.cut(img, row, col)
}

/// What [`info_for`] gives: the sheet's dimensions and the grid resolved on
/// them, with its number of cells.
pub open spec fn info_result(spec: SliceSpec, width: u32, height: u32) -> Result<Info, SpriteError> {
    match resolve_result(spec, width, height) {
        Err(e) => Err(e),
        Ok(l) => match l.count_result() {
            Err(e) => Err(e),
            Ok(n) => Ok(
                Info {
                    sheet_width: width,
                    sheet_height: height,
                    rows: l.rows,
                    cols: l.cols,
                    tile_width: l.tile_w,
                    tile_height: l.tile_h,
                    count: n,
                },
            ),
        },
    }
}

/// The report of [`info`] for a sheet of `width` x `height` pixels.
pub fn info_for(spec: &SliceSpec, width: u32, height: u32) -> (r: Result<Info, SpriteError>)
    ensures
        r == info_result(*spec, width, height),
{
    let layout = Layout::resolve(spec, width, height)?;
    let count = layout.count()?;
    Ok(
        Info {
            sheet_width: width,
            sheet_height: height,
            rows: layout.rows,
            cols: layout.cols,
            tile_width: layout.tile_w,
            tile_height: layout.tile_h,
            count,
        },
    )
}

/// Decode just enough of `sheet` to report its dimensions and the grid
/// resolved from `spec`. No sprites are encoded.
pub fn info(sheet: &[u8], spec: &SliceSpec) -> (r: Result<Info, SpriteError>)
    ensures
        (r matches Err(e) && e is Image) || (exists|model: ImageModel|
            model is Decoded && #[trigger] info_result(*spec, image_size(model).0, image_size(model).1)
                == r),
{
    let img = decode_image(sheet)?;
    info_sheet(&img, spec)
}

/// Report the dimensions of the decoded sheet `img` and the grid resolved
/// from `spec` on them. No sprites are encoded.
pub fn info_sheet(img: &Sheet, spec: &SliceSpec) -> (r: Result<Info, SpriteError>)
    ensures
        r == info_result(*spec, image_size(img.model()).0, image_size(img.model()).1),
{
    let (width, height) = img.dimensions();
    info_for(spec, width, height)
}

/// Two sprites have the same cell, place, size and PNG bytes.
pub open spec fn same_sprite(a: Sprite, b: Sprite) -> bool {
    &&& a.row == b.row
    &&& a.col == b.col
    &&& a.x == b.x
    &&& a.y == b.y
    &&& a.width == b.width
    &&& a.height == b.height
    &&& a.png@ == b.png@
}

/// The selector of the sprite at row-major position `index`.
pub open spec fn index_selector(index: u32) -> Selector {
    Selector { index: Some(index), row: None, col: None }
}

/// The selector of the sprite at `(row, col)`.
pub open spec fn cell_selector(row: u32, col: u32) -> Selector {
    Selector { index: None, row: Some(row), col: Some(col) }
}

/// On one decoded sheet, selecting a sprite by its row-major index and
/// selecting the cell that index names give the same outcome: both succeed
/// with the same sprite (PNG included), or both fail.
pub proof fn lemma_sprite_index_and_cell_agree(
    spec: SliceSpec,
    model: ImageModel,
    layout: Layout,
    index: u32,
    by_index: Result<Sprite, SpriteError>,
    by_cell: Result<Sprite, SpriteError>,
)
    requires
        resolve_result(spec, image_size(model).0, image_size(model).1) == Ok::<Layout, SpriteError>(
            layout,
        ),
        layout.rows * layout.cols <= u32::MAX,
        index < layout.rows * layout.cols,
        sprite_outcome(spec, index_selector(index), model, by_index),
        sprite_outcome(
            spec,
            cell_selector(index / layout.cols, index % layout.cols),
            model,
            by_cell,
        ),
    ensures
        by_index is Ok <==> by_cell is Ok,
        by_index matches Ok(a) ==> by_cell matches Ok(b) && same_sprite(a, b),
{
    layout::lemma_index_and_cell_agree(layout, index);
}

/// On one decoded sheet, the sprite that [`split_sheet`] gives at row-major
/// position `index` is the one that [`sprite_in_sheet`] gives for that index.
pub proof fn lemma_split_and_sprite_agree(
    spec: SliceSpec,
    model: ImageModel,
    all: Result<SplitResponse, SpriteError>,
    index: u32,
    one: Result<Sprite, SpriteError>,
)
    requires
        split_outcome(spec, model, all),
        all matches Ok(resp) && index < resp.sprites.len(),
        sprite_outcome(spec, index_selector(index), model, one),
    ensures
        one matches Ok(s) && same_sprite(s, all->Ok_0.sprites@[index as int]),
{
    let resp = all->Ok_0;
    let l = resolve_result(spec, image_size(model).0, image_size(model).1)->Ok_0;
    assert(is_indexed_sprite(l, model, index as int, resp.sprites@[index as int]));
    layout::lemma_index_and_cell_agree(l, index);
}

/// Where [`split_sheet`] succeeds on a decoded sheet, the report of
/// [`info_sheet`] on that sheet gives the same grid, and as many sprites as
/// `split_sheet` returned.
pub proof fn lemma_info_and_split_agree(spec: SliceSpec, model: ImageModel, all: Result<SplitResponse, SpriteError>)
    requires
        split_outcome(spec, model, all),
        all is Ok,
    ensures
        info_result(spec, image_size(model).0, image_size(model).1) matches Ok(info) && {
            let resp = all->Ok_0;
            &&& info.sheet_width == image_size(model).0
            &&& info.sheet_height == image_size(model).1
            &&& info.rows == resp.rows
            &&& info.cols == resp.cols
            &&& info.tile_width == resp.tile_width
            &&& info.tile_height == resp.tile_height
            &&& info.count == resp.sprites.len()
        },
{
}

} // verus!
