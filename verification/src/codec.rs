//! Decoding sheets and encoding sprites, through the `image` crate.

use vstd::prelude::*;

use image::{DynamicImage, ImageError};

use crate::error::SpriteError;

verus! {

/// A decoded raster image of any pixel layout.
#[verifier::external_type_specification]
#[verifier::external_body]
pub struct ExDynamicImage(image::DynamicImage);

/// How the pixels of a [`Sheet`] came to be: decoded (the image as it was
/// decoded), or copied out of the rectangle at `(x, y)` of `width` x `height`
/// pixels of another image.
pub ghost enum ImageModel {
    Decoded(DynamicImage),
    Cropped(Box<ImageModel>, u32, u32, u32, u32),
}

/// The width and height, as `GenericImageView::dimensions` gives them, of the
/// image that `model` describes.
pub uninterp spec fn image_size(model: ImageModel) -> (u32, u32);

/// The bytes that `DynamicImage::write_to` writes, in the PNG format, for the
/// image that `model` describes, or `None` where encoding fails.
pub uninterp spec fn png_bytes(model: ImageModel) -> Option<Seq<u8>>;

/// The smaller of two `u32`s.
pub open spec fn min_u32(a: u32, b: u32) -> u32 {
    if a <= b {
        a
    } else {
        b
    }
}

/// The size of the rectangle at `(x, y)` of `width` x `height` pixels, clamped
/// to an image of `size`.
pub open spec fn clamped_size(size: (u32, u32), x: u32, y: u32, width: u32, height: u32) -> (u32, u32) {
    let (iw, ih) = size;
    let x0 = min_u32(x, iw);
    let y0 = min_u32(y, ih);
    (min_u32(width, (iw - x0) as u32), min_u32(height, (ih - y0) as u32))
}

/// A decoded image together with how it came to be.
pub struct Sheet {
    image: DynamicImage,
    model: Ghost<ImageModel>,
}

impl Sheet {
    /// How this image came to be.
    pub closed spec fn model(&self) -> ImageModel {
        self.model@
    }

    /// The image's width and height in pixels.
    pub fn dimensions(&self) -> (r: (u32, u32))
        ensures
            r == image_size(self.model()),
    {
        image_dimensions(self)
    }
}

/// Calls `image::load_from_memory`, which guesses the format from the leading
/// bytes (after any format hooks registered in the process) and decodes. The
/// image it gives is recorded as decoded; which image that is, and on which
/// bytes decoding fails, is left unsaid: it also depends on those hooks.
#[verifier::external_body]
fn load_image(bytes: &[u8]) -> (r: Result<Sheet, ImageError>)
    ensures
        r matches Ok(s) ==> s.model() is Decoded,
{
    match image::load_from_memory(bytes) {
        Ok(image) => Ok(Sheet { model: Ghost(ImageModel::Decoded(image)), image }),
        Err(e) => Err(e),
    }
}

/// Calls `GenericImageView::dimensions`: the image's width and height in pixels.
#[verifier::external_body]
fn image_dimensions(img: &Sheet) -> (r: (u32, u32))
    ensures
        r == image_size(img.model()),
{
    image::GenericImageView::dimensions(&img.image)
}

/// Calls `DynamicImage::crop_imm`, which copies the rectangle at `(x, y)` of
/// `width` x `height` pixels, clamped to the image (as `crop_dimms` does).
#[verifier::external_body]
pub(crate) fn crop(img: &Sheet, x: u32, y: u32, width: u32, height: u32) -> (r: Sheet)
    ensures
        r.model() == ImageModel::Cropped(Box::new(img.model()), x, y, width, height),
        image_size(r.model()) == clamped_size(image_size(img.model()), x, y, width, height),
{
    Sheet {
        image: img.image.crop_imm(x, y, width, height),
        model: Ghost(ImageModel::Cropped(Box::new(img.model@), x, y, width, height)),
    }
}

/// Calls `DynamicImage::write_to` with `ImageFormat::Png` into an in-memory
/// buffer, and hands back the buffer: the bytes `png_bytes` names, which
/// start with the PNG signature and so are never empty, or the error where it
/// names none. Which images fail to encode is left unsaid.
#[verifier::external_body]
pub(crate) fn encode_png(img: &Sheet) -> (r: Result<Vec<u8>, ImageError>)
    ensures
        match r {
            Ok(v) => png_bytes(img.model()) == Some(v@) && v@.len() > 0,
            Err(_) => png_bytes(img.model()) is None,
        },
{
    let mut png = Vec::new();
    match img.image.write_to(&mut std::io::Cursor::new(&mut png), image::ImageFormat::Png) {
        Ok(()) => Ok(png),
        Err(e) => Err(e),
    }
}

/// Decode a sheet, guessing its format from its contents.
pub fn decode_image(bytes: &[u8]) -> (r: Result<Sheet, SpriteError>)
    ensures
        match r {
            Ok(s) => s.model() is Decoded,
            Err(e) => e is Image,
        },
{
    match load_image(bytes) {
        Ok(img) => Ok(img),
        Err(e) => Err(SpriteError::Image(e)),
    }
}

} // verus!
