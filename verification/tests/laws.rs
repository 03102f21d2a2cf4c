use std::io::Cursor;

use image::{GenericImageView, ImageFormat};

use spryst::{
    decode_image, info, info_for, info_sheet, split, split_sheet, sprite, sprite_in_sheet, Info, Layout, Selector,
    SliceSpec, SpriteError,
};

fn png_of(width: u32, height: u32) -> Vec<u8> {
    let mut img = image::RgbaImage::new(width, height);
    for (px, py, pixel) in img.enumerate_pixels_mut() {
        *pixel = image::Rgba([(px % 256) as u8, (py % 256) as u8, 7, 255]);
    }
    let mut bytes = Vec::new();
    image::DynamicImage::ImageRgba8(img)
        .write_to(&mut Cursor::new(&mut bytes), ImageFormat::Png)
        .unwrap();
    bytes
}

fn grid(rows: u32, cols: u32) -> SliceSpec {
    SliceSpec { rows: Some(rows), cols: Some(cols), ..Default::default() }
}

fn tiles(w: u32, h: u32) -> SliceSpec {
    SliceSpec { tile_width: Some(w), tile_height: Some(h), ..Default::default() }
}

#[test]
fn grid_mode_fills_the_sheet_exactly() {
    let spec = SliceSpec { margin_x: 2, margin_y: 1, spacing_x: 3, spacing_y: 4, ..grid(3, 5) };
    // width: 2*2 + 5*t + 4*3 = 100 => t = 16.8: not divisible; pick 101 => t = 17
    let l = Layout::resolve(&spec, 101, 2 + 3 * 10 + 2 * 4).unwrap();
    assert_eq!((l.rows, l.cols, l.tile_w, l.tile_h), (3, 5, 17, 10));
    assert_eq!(2 * 2 + 5 * 17 + 4 * 3, 101);
}

#[test]
fn non_divisible_grid_reports_usable_and_leftover() {
    match Layout::resolve(&grid(2, 3), 64, 32) {
        Err(SpriteError::NonDivisibleGrid { axis, usable, count, leftover }) => {
            assert_eq!((axis, usable, count, leftover), ("horizontal", 64, 3, 1));
        }
        other => panic!("unexpected {:?}", other),
    }
    match Layout::resolve(&grid(3, 2), 64, 32) {
        Err(SpriteError::NonDivisibleGrid { axis, usable, count, leftover }) => {
            assert_eq!((axis, usable, count, leftover), ("vertical", 32, 3, 2));
        }
        other => panic!("unexpected {:?}", other),
    }
}

#[test]
fn margins_wider_than_the_sheet_leave_nothing_usable() {
    let spec = SliceSpec { margin_x: 40, ..grid(1, 1) };
    match Layout::resolve(&spec, 64, 64) {
        Err(SpriteError::NonDivisibleGrid { axis, usable, count, leftover }) => {
            assert_eq!((axis, usable, count, leftover), ("horizontal", 0, 1, 0));
        }
        other => panic!("unexpected {:?}", other),
    }
}

#[test]
fn half_a_spec_is_missing() {
    let rows_only = SliceSpec { rows: Some(2), ..Default::default() };
    assert!(matches!(Layout::resolve(&rows_only, 16, 16), Err(SpriteError::MissingSpec)));
    let width_only = SliceSpec { tile_width: Some(2), ..Default::default() };
    assert!(matches!(Layout::resolve(&width_only, 16, 16), Err(SpriteError::MissingSpec)));
    let mixed = SliceSpec { rows: Some(2), tile_width: Some(2), ..Default::default() };
    assert!(matches!(Layout::resolve(&mixed, 16, 16), Err(SpriteError::AmbiguousSpec)));
}

#[test]
fn zero_counts_and_sizes_are_rejected() {
    assert!(matches!(Layout::resolve(&grid(0, 2), 16, 16), Err(SpriteError::ZeroDimension)));
    assert!(matches!(Layout::resolve(&grid(2, 0), 16, 16), Err(SpriteError::ZeroDimension)));
    assert!(matches!(Layout::resolve(&tiles(0, 4), 16, 16), Err(SpriteError::ZeroDimension)));
    assert!(matches!(Layout::resolve(&tiles(4, 0), 16, 16), Err(SpriteError::ZeroDimension)));
    // A tile larger than the sheet fits zero times.
    assert!(matches!(Layout::resolve(&tiles(20, 4), 16, 16), Err(SpriteError::ZeroDimension)));
    // Margins that take the whole sheet leave tiles of zero pixels.
    let spec = SliceSpec { margin_x: 8, ..grid(1, 1) };
    assert!(matches!(Layout::resolve(&spec, 16, 16), Err(SpriteError::ZeroDimension)));
}

#[test]
fn size_mode_counts_whole_tiles_with_margin_and_spacing() {
    // usable = 50 - 2*3 = 44; n*10 + (n-1)*2 <= 44 => n = 3 (34), n = 4 would take 46.
    let spec = SliceSpec { margin_x: 3, spacing_x: 2, ..tiles(10, 5) };
    let l = Layout::resolve(&spec, 50, 20).unwrap();
    assert_eq!((l.cols, l.rows), (3, 4));
    assert!(2 * 3 + 3 * 10 + 2 * 2 <= 50);
    assert!(2 * 3 + 4 * 10 + 3 * 2 > 50);
}

#[test]
fn origin_steps_by_tile_plus_spacing() {
    let l = Layout {
        rows: 3,
        cols: 4,
        tile_w: 8,
        tile_h: 6,
        margin_x: 1,
        margin_y: 2,
        spacing_x: 3,
        spacing_y: 4,
    };
    assert_eq!(l.origin(0, 0), (1, 2));
    assert_eq!(l.origin(2, 3), (1 + 3 * 11, 2 + 2 * 10));
}

#[test]
fn count_overflow_is_reported() {
    let l = Layout {
        rows: 70_000,
        cols: 70_000,
        tile_w: 1,
        tile_h: 1,
        margin_x: 0,
        margin_y: 0,
        spacing_x: 0,
        spacing_y: 0,
    };
    assert!(matches!(l.count(), Err(SpriteError::SpriteCountOverflow)));
    let sel = Selector { index: Some(0), ..Default::default() };
    assert!(matches!(l.locate(&sel), Err(SpriteError::SpriteCountOverflow)));
    // A cell selector needs no count.
    let sel = Selector { row: Some(3), col: Some(4), ..Default::default() };
    assert_eq!(l.locate(&sel).unwrap(), (3, 4));
}

#[test]
fn index_and_cell_select_the_same_cell() {
    let l = Layout::resolve(&grid(3, 5), 50, 30).unwrap();
    for index in 0..15u32 {
        let by_index = l.locate(&Selector { index: Some(index), ..Default::default() }).unwrap();
        let by_cell = l
            .locate(&Selector { row: Some(index / 5), col: Some(index % 5), ..Default::default() })
            .unwrap();
        assert_eq!(by_index, by_cell);
        assert_eq!(by_index, (index / 5, index % 5));
    }
}

#[test]
fn index_takes_precedence_over_cell() {
    let l = Layout::resolve(&grid(2, 2), 20, 20).unwrap();
    let sel = Selector { index: Some(3), row: Some(0), col: Some(0) };
    assert_eq!(l.locate(&sel).unwrap(), (1, 1));
}

#[test]
fn selector_errors() {
    let l = Layout::resolve(&grid(2, 4), 64, 32).unwrap();
    assert!(matches!(l.locate(&Selector::default()), Err(SpriteError::MissingSelector)));
    let row_only = Selector { row: Some(1), ..Default::default() };
    assert!(matches!(l.locate(&row_only), Err(SpriteError::MissingSelector)));
    match l.locate(&Selector { index: Some(8), ..Default::default() }) {
        Err(SpriteError::IndexOutOfRange { index, count }) => assert_eq!((index, count), (8, 8)),
        other => panic!("unexpected {:?}", other),
    }
    match l.locate(&Selector { row: Some(2), col: Some(0), ..Default::default() }) {
        Err(SpriteError::CellOutOfRange { row, col, rows, cols }) => {
            assert_eq!((row, col, rows, cols), (2, 0, 2, 4))
        }
        other => panic!("unexpected {:?}", other),
    }
}

#[test]
fn info_for_reports_sheet_and_grid() {
    let info = info_for(&grid(2, 4), 64, 32).unwrap();
    assert_eq!(
        info,
        Info {
            sheet_width: 64,
            sheet_height: 32,
            rows: 2,
            cols: 4,
            tile_width: 16,
            tile_height: 16,
            count: 8,
        }
    );
    assert!(matches!(info_for(&SliceSpec::default(), 64, 32), Err(SpriteError::MissingSpec)));
}

#[test]
fn info_reads_the_decoded_dimensions() {
    let bytes = png_of(48, 20);
    let info = info(&bytes, &tiles(16, 10)).unwrap();
    assert_eq!((info.sheet_width, info.sheet_height), (48, 20));
    assert_eq!((info.rows, info.cols, info.count), (2, 3, 6));
}

#[test]
fn undecodable_sheet_is_an_image_error() {
    let garbage = vec![1u8, 2, 3, 4, 5];
    assert!(matches!(decode_image(&garbage), Err(SpriteError::Image(_))));
    assert!(matches!(split(&garbage, &grid(1, 1)), Err(SpriteError::Image(_))));
    assert!(matches!(info(&garbage, &grid(1, 1)), Err(SpriteError::Image(_))));
    let sel = Selector { index: Some(0), ..Default::default() };
    assert!(matches!(sprite(&garbage, &grid(1, 1), &sel), Err(SpriteError::Image(_))));
}

#[test]
fn split_orders_sprites_row_major_with_geometry() {
    let bytes = png_of(27, 27);
    let spec = SliceSpec { margin_x: 3, margin_y: 3, spacing_x: 1, spacing_y: 1, ..grid(2, 2) };
    let resp = split(&bytes, &spec).unwrap();
    assert_eq!((resp.tile_width, resp.tile_height), (10, 10));
    assert_eq!(resp.sprites.len(), 4);
    for (i, s) in resp.sprites.iter().enumerate() {
        let (row, col) = (i as u32 / 2, i as u32 % 2);
        assert_eq!((s.row, s.col), (row, col));
        assert_eq!((s.x, s.y), (3 + col * 11, 3 + row * 11));
        assert_eq!((s.width, s.height), (10, 10));
    }
}

#[test]
fn sprites_are_pngs_of_the_cell() {
    let bytes = png_of(40, 30);
    let resp = split(&bytes, &tiles(10, 15)).unwrap();
    assert_eq!(resp.sprites.len(), 8);
    let s = &resp.sprites[6]; // row 1, col 2
    let cell = image::load_from_memory(&s.png).unwrap();
    assert_eq!(cell.dimensions(), (10, 15));
    let px = cell.to_rgba8().get_pixel(0, 0).0;
    assert_eq!(px, [20, 15, 7, 255]);
    assert_ne!(s.png, bytes);
}

#[test]
fn sprite_matches_the_split_entry() {
    let bytes = png_of(40, 30);
    let resp = split(&bytes, &tiles(10, 15)).unwrap();
    let one = sprite(&bytes, &tiles(10, 15), &Selector { index: Some(6), ..Default::default() })
        .unwrap();
    assert_eq!(one, resp.sprites[6]);
}

#[test]
fn single_column_with_huge_spacing_is_sliced() {
    let bytes = png_of(16, 16);
    let spec = SliceSpec { spacing_x: u32::MAX, ..grid(1, 1) };
    let resp = split(&bytes, &spec).unwrap();
    assert_eq!(resp.sprites.len(), 1);
    assert_eq!((resp.sprites[0].x, resp.sprites[0].y, resp.sprites[0].width), (0, 0, 16));
    let sel = Selector { index: Some(0), ..Default::default() };
    assert_eq!(sprite(&bytes, &spec, &sel).unwrap(), resp.sprites[0]);
    let info = info(&bytes, &spec).unwrap();
    assert_eq!((info.rows, info.cols, info.tile_width), (1, 1, 16));
}

#[test]
fn size_mode_counts_every_tile_that_fits_on_long_axes() {
    // Two 1-pixel tiles 2^31 pixels apart take 2^31 + 2 pixels.
    let spec = SliceSpec { spacing_x: 1 << 31, ..tiles(1, 1) };
    let l = Layout::resolve(&spec, (1u32 << 31) + 2, 1).unwrap();
    assert_eq!((l.cols, l.rows), (2, 1));
    let l = Layout::resolve(&spec, (1u32 << 31) + 1, 1).unwrap();
    assert_eq!(l.cols, 1);
}

#[test]
fn cell_index_round_trip() {
    let l = Layout::resolve(&tiles(7, 5), 40, 23).unwrap();
    assert_eq!((l.rows, l.cols), (4, 5));
    for row in 0..l.rows {
        for col in 0..l.cols {
            let sel = Selector { index: Some(row * l.cols + col), ..Default::default() };
            assert_eq!(l.locate(&sel).unwrap(), (row, col));
        }
    }
}

#[test]
fn cells_lie_inside_the_sheet_without_overlap() {
    let spec = SliceSpec { margin_x: 2, margin_y: 3, spacing_x: 1, spacing_y: 2, ..tiles(6, 4) };
    let (width, height) = (45, 31);
    let l = Layout::resolve(&spec, width, height).unwrap();
    for row in 0..l.rows {
        for col in 0..l.cols {
            let (x, y) = l.origin(row, col);
            assert!(x >= l.margin_x && x + l.tile_w + l.margin_x <= width);
            assert!(y >= l.margin_y && y + l.tile_h + l.margin_y <= height);
            if col + 1 < l.cols {
                assert!(x + l.tile_w <= l.origin(row, col + 1).0);
            }
            if row + 1 < l.rows {
                assert!(y + l.tile_h <= l.origin(row + 1, col).1);
            }
        }
    }
}

#[test]
fn size_mode_spacing_past_u32_still_counts_tiles() {
    // A second tile would start 4 + u32::MAX pixels in: only one fits.
    let spec = SliceSpec { spacing_x: u32::MAX, ..tiles(4, 4) };
    let l = Layout::resolve(&spec, 16, 16).unwrap();
    assert_eq!((l.cols, l.rows), (1, 4));
    let bytes = png_of(16, 16);
    let resp = split(&bytes, &spec).unwrap();
    assert_eq!(resp.sprites.len(), 4);
    assert_eq!((resp.sprites[3].x, resp.sprites[3].y), (0, 12));
}

#[test]
fn grid_margins_past_u32_leave_nothing_usable() {
    let spec = SliceSpec { margin_x: 1 << 31, ..grid(1, 1) };
    match Layout::resolve(&spec, u32::MAX, 4) {
        Err(SpriteError::NonDivisibleGrid { axis, usable, count, leftover }) => {
            assert_eq!((axis, usable, count, leftover), ("horizontal", 0, 1, 0));
        }
        other => panic!("unexpected {:?}", other),
    }
}

#[test]
fn sheet_level_split_and_sprite_agree() {
    let bytes = png_of(30, 20);
    let img = decode_image(&bytes).unwrap();
    assert_eq!(img.dimensions(), (30, 20));
    let spec = grid(2, 3);
    let resp = split_sheet(&img, &spec).unwrap();
    assert_eq!(resp.sprites.len(), 6);
    for index in 0..6u32 {
        let sel = Selector { index: Some(index), ..Default::default() };
        let one = sprite_in_sheet(&img, &spec, &sel).unwrap();
        assert_eq!(one, resp.sprites[index as usize]);
        let cell = Selector { row: Some(index / 3), col: Some(index % 3), ..Default::default() };
        assert_eq!(sprite_in_sheet(&img, &spec, &cell).unwrap(), one);
    }
    let i = info_for(&spec, 30, 20).unwrap();
    assert_eq!((i.rows, i.cols, i.count), (resp.rows, resp.cols, resp.sprites.len() as u32));
}

#[test]
fn info_sheet_reports_the_decoded_size() {
    let bytes = png_of(30, 20);
    let img = decode_image(&bytes).unwrap();
    let i = info_sheet(&img, &grid(2, 3)).unwrap();
    assert_eq!((i.sheet_width, i.sheet_height), (30, 20));
    assert_eq!((i.rows, i.cols, i.tile_width, i.tile_height, i.count), (2, 3, 10, 10, 6));
    // A grid that only the transposed sheet would take is refused.
    assert!(matches!(info_sheet(&img, &grid(3, 2)), Err(SpriteError::NonDivisibleGrid { .. })));
    let resp = split_sheet(&img, &grid(2, 3)).unwrap();
    assert!(resp.sprites.iter().all(|s| !s.png.is_empty()));
}
