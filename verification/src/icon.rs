//! The halo logo: decoded once from its PNG bytes and scaled to the sizes
//! the system tray asks for.

use vstd::prelude::*;

use image::imageops::FilterType;
use image::ImageFormat;

verus! {

/// A decoded image: `width` x `height` pixels, RGBA with one byte per
/// channel, row by row.
pub struct Logo {
    width: u32,
    height: u32,
    pixels: Vec<u8>,
}

impl Logo {
    /// The pixel buffer holds exactly `width * height` RGBA pixels.
    #[verifier::type_invariant]
    spec fn buffer_fits(self) -> bool {
        self.pixels@.len() == (self.width as int) * (self.height as int) * 4
    }

    /// Width in pixels.
    pub closed spec fn spec_width(self) -> u32 {
        self.width
    }

    /// Height in pixels.
    pub closed spec fn spec_height(self) -> u32 {
        self.height
    }

    /// RGBA bytes, row by row.
    pub closed spec fn spec_pixels(self) -> Seq<u8> {
        self.pixels@
    }

    /// Width in pixels.
    pub fn width(&self) -> (r: u32)
        ensures
            r == self.spec_width(),
    {
        self.width
    }

    /// Height in pixels.
    pub fn height(&self) -> (r: u32)
        ensures
            r == self.spec_height(),
    {
        self.height
    }

    /// RGBA bytes, row by row.
    pub fn pixels(&self) -> (r: &Vec<u8>)
        ensures
            r@ == self.spec_pixels(),
            r@.len() == (self.spec_width() as int) * (self.spec_height() as int) * 4,
    {
        proof {
            use_type_invariant(self);
        }
        &self.pixels
    }
}

/// What `image::load_from_memory_with_format(bytes, ImageFormat::Png)`
/// followed by `into_rgba8` gives: width, height and RGBA bytes of the
/// decoded PNG image, or nothing when the bytes are not such an image.
pub uninterp spec fn decoded_png_rgba8(bytes: Seq<u8>) -> Option<(u32, u32, Seq<u8>)>;

/// Calls `image::load_from_memory_with_format` with the PNG format, which
/// uses the crate's own PNG decoder and no format detection, converts the
/// image with `into_rgba8` and hands out its dimensions and raw bytes; that
/// is a function of the bytes alone, named `decoded_png_rgba8`.
#[verifier::external_body]
fn decode_png_rgba8(bytes: &[u8]) -> (r: Option<(u32, u32, Vec<u8>)>)
    ensures
        match r {
            Some((w, h, px)) => decoded_png_rgba8(bytes@) == Some((w, h, px@)),
            None => decoded_png_rgba8(bytes@).is_none(),
        },
{
    match image::load_from_memory_with_format(bytes, ImageFormat::Png) {
        Ok(img) => {
            let img = img.into_rgba8();
            Some((img.width(), img.height(), img.into_raw()))
        },
        Err(_) => None,
    }
}

/// Holds when `out` is a result that `image::imageops::resize` with the
/// Lanczos3 filter can give for the image `width` x `height` with RGBA bytes
/// `pixels`, scaled to `size` x `size`. It is a relation, not a function: the
/// resampling computes in floating point with the platform's `sin`, so two
/// runs need not agree, and nothing here says they do.
pub uninterp spec fn lanczos3_resample(
    width: u32,
    height: u32,
    pixels: Seq<u8>,
    size: u32,
    out: Seq<u8>,
) -> bool;

/// Calls `image::imageops::resize` with the Lanczos3 filter on the image
/// `width` x `height` with RGBA bytes `pixels`, and returns the raw bytes of
/// the result. The contract ties the result to these arguments through the
/// relation `lanczos3_resample`, which names no single result, and states
/// what the crate's source shows of its size: a fresh buffer of
/// `size * size` RGBA pixels.
#[verifier::external_body]
fn resize_lanczos3(width: u32, height: u32, pixels: &Vec<u8>, size: u32) -> (r: Vec<u8>)
    requires
        pixels@.len() == (width as int) * (height as int) * 4,
        (size as int) * (size as int) * 4 <= usize::MAX,
    ensures
        r@.len() == (size as int) * (size as int) * 4,
        lanczos3_resample(width, height, pixels@, size, r@),
{
    let img = image::RgbaImage::from_raw(width, height, pixels.clone()).expect(
        "buffer of width * height pixels",
    );
    image::imageops::resize(&img, size, size, FilterType::Lanczos3).into_raw()
}

impl Logo {
    /// Decodes a PNG image into RGBA bytes; `None` when the bytes cannot be
    /// decoded.
    pub fn decode(bytes: &[u8]) -> (r: Option<Logo>)
        ensures
            match r {
                Some(l) => decoded_png_rgba8(bytes@) == Some(
                    (l.spec_width(), l.spec_height(), l.spec_pixels()),
                ),
                None => match decoded_png_rgba8(bytes@) {
                    Some((w, h, px)) => px.len() != (w as int) * (h as int) * 4,
                    None => true,
                },
            },
    {
        match decode_png_rgba8(bytes) {
            Some((width, height, pixels)) => {
                let w = width as u128;
                let h = height as u128;
                assert(w * h <= 0xffff_ffff_ffff_ffff_ffff_ffff_ffff) by (nonlinear_arith)
                    requires
                        w <= 0xffff_ffff,
                        h <= 0xffff_ffff,
                ;
                if (pixels.len() as u128) == w * h * 4 {
                    Some(Logo { width, height, pixels })
                } else {
                    None
                }
            },
            None => None,
        }
    }
}

/// The logo as `size` x `size` RGBA bytes, row by row: its own bytes when it
/// already has that size, else resampled with the Lanczos3 filter.
pub fn rgba(logo: &Logo, size: u32) -> (r: Vec<u8>)
    requires
        (size as int) * (size as int) * 4 <= usize::MAX,
    ensures
        r@.len() == (size as int) * (size as int) * 4,
        logo.spec_width() == size && logo.spec_height() == size ==> r@ == logo.spec_pixels(),
        !(logo.spec_width() == size && logo.spec_height() == size) ==> lanczos3_resample(
            logo.spec_width(),
            logo.spec_height(),
            logo.spec_pixels(),
            size,
            r@,
        ),
{
    proof {
        use_type_invariant(logo);
    }
    if logo.width == size && logo.height == size {
        return logo.pixels.clone();
    }
    resize_lanczos3(logo.width, logo.height, &logo.pixels, size)
}

} // verus!
