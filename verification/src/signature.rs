//! The signature image, ready to be drawn.
//!
//! A scan of a signature has no alpha channel, just dark ink on light paper.
//! Deriving the mask from luminance keeps the paper from being painted as a
//! white box over the line, and keeps the ink's antialiasing. An image that
//! does carry transparency keeps its own. The alpha has to travel inside the
//! encoded image, which is where the PDF writer looks for a soft mask, so the
//! result is re-encoded as a PNG.

use vstd::prelude::*;

verus! {

#[verifier::external_type_specification]
#[verifier::external_body]
pub struct ExImageError(image::ImageError);

/// One pixel: red, green, blue, alpha.
pub type Rgba = [u8; 4];

/// Every pixel is fully opaque: the image is a scan, not a cut-out.
pub open spec fn all_opaque(pixels: Seq<Rgba>) -> bool {
    forall|i: int| 0 <= i < pixels.len() ==> (#[trigger] pixels[i])[3] == 255
}

/// The pixels with their mask: when every pixel is opaque, each one's alpha
/// becomes its darkness, `255 - luma`; otherwise the pixels are unchanged.
pub open spec fn masked(pixels: Seq<Rgba>, luma: Seq<u8>) -> Seq<Rgba> {
    if all_opaque(pixels) {
        Seq::new(pixels.len(), |i: int| [pixels[i][0], pixels[i][1], pixels[i][2], (255 - luma[i]) as u8])
    } else {
        pixels
    }
}

/// The PNG `image` writes for a `width` by `height` image of these pixels,
/// row after row, or `None` where it refuses to.
pub uninterp spec fn png_encoding(width: u32, height: u32, pixels: Seq<Rgba>) -> Option<Seq<u8>>;

/// `image::ImageBuffer::write_to` with `ImageFormat::Png`, on the pixels
/// taken as an RGBA image of `width` by `height` (`ImageBuffer::from_raw`,
/// which accepts them since there are exactly that many). What it writes is
/// left to the name `png_encoding`.
#[verifier::external_body]
fn encode_png(width: u32, height: u32, pixels: Vec<Rgba>) -> (r: Result<Vec<u8>, image::ImageError>)
    requires
        pixels@.len() == width * height,
    ensures
        match r {
            Ok(png) => png_encoding(width, height, pixels@) == Some(png@),
            Err(_) => png_encoding(width, height, pixels@) is None,
        },
{
    let raw: Vec<u8> = pixels.into_iter().flatten().collect();
    let image = image::RgbaImage::from_raw(width, height, raw).unwrap();
    let mut png = Vec::new();
    image.write_to(&mut std::io::Cursor::new(&mut png), image::ImageFormat::Png)?;
    Ok(png)
}

/// Whether every pixel is fully opaque.
pub fn is_opaque(pixels: &Vec<Rgba>) -> (r: bool)
    ensures
        r == all_opaque(pixels@),
{
    let mut i: usize = 0;
    while i < pixels.len()
        invariant
            i <= pixels@.len(),
            forall|k: int| 0 <= k < i ==> (#[trigger] pixels@[k])[3] == 255,
        decreases pixels@.len() - i,
    {
        if pixels[i][3] != 255 {
            return false;
        }
        i += 1;
    }
    true
}

/// The pixels with their mask in the alpha channel: taken from `luma`
/// (darkness, that is) when the image is fully opaque, kept otherwise.
pub fn with_mask(pixels: Vec<Rgba>, luma: &Vec<u8>) -> (r: Vec<Rgba>)
    requires
        luma@.len() == pixels@.len(),
    ensures
        r@ == masked(pixels@, luma@),
{
    if !is_opaque(&pixels) {
        return pixels;
    }
    let mut r: Vec<Rgba> = Vec::new();
    let mut i: usize = 0;
    while i < pixels.len()
        invariant
            luma@.len() == pixels@.len(),
            all_opaque(pixels@),
            i <= pixels@.len(),
            r@.len() == i,
            forall|k: int| 0 <= k < i ==> #[trigger] r@[k] == masked(pixels@, luma@)[k],
        decreases pixels@.len() - i,
    {
        let pixel = pixels[i];
        r.push([pixel[0], pixel[1], pixel[2], 255 - luma[i]]);
        i += 1;
    }
    assert(r@ =~= masked(pixels@, luma@));
    r
}

/// Why a signature could not be prepared.
#[derive(Debug)]
pub enum SignatureError {
    /// The pixels do not fill a `width` by `height` image.
    WrongSize,
    /// The PNG encoder refused the image.
    Encoding(image::ImageError),
}

/// A signature image: its size in pixels, and the PNG to draw.
pub struct Signature {
    width: u32,
    height: u32,
    png: Vec<u8>,
}

impl Signature {
    pub closed spec fn spec_width(&self) -> u32 {
        self.width
    }

    pub closed spec fn spec_height(&self) -> u32 {
        self.height
    }

    pub closed spec fn spec_png(&self) -> Seq<u8> {
        self.png@
    }

    /// The signature a `width` by `height` image of `pixels` makes, with
    /// `luma` the luminance of each pixel, in the same order.
    pub fn from_pixels(width: u32, height: u32, pixels: Vec<Rgba>, luma: &Vec<u8>) -> (r: Result<Signature, SignatureError>)
        ensures
            pixels@.len() != width * height || luma@.len() != pixels@.len() ==> r matches Err(SignatureError::WrongSize),
            pixels@.len() == width * height && luma@.len() == pixels@.len() ==> match png_encoding(width, height, masked(pixels@, luma@)) {
                Some(png) => r matches Ok(signature) && signature.spec_width() == width
                    && signature.spec_height() == height && signature.spec_png() == png,
                None => r matches Err(SignatureError::Encoding(_)),
            },
    {
        assert((width as int) * (height as int) <= 0xffff_ffff * 0xffff_ffff) by (nonlinear_arith)
            requires
                0 <= width <= 0xffff_ffff,
                0 <= height <= 0xffff_ffff,
        ;
        if (width as u64) * (height as u64) != pixels.len() as u64 || luma.len() != pixels.len() {
            return Err(SignatureError::WrongSize);
        }
        let pixels = with_mask(pixels, luma);
        match encode_png(width, height, pixels) {
            Ok(png) => Ok(Signature { width, height, png }),
            Err(error) => Err(SignatureError::Encoding(error)),
        }
    }

    /// Width in pixels.
    pub fn width(&self) -> (r: u32)
        ensures
            r == self.spec_width(),
    {
        self.width
    }

    /// Height in pixels.
    pub fn height(&self) -> (r: u32)
        ensures
            r == self.spec_height(),
    {
        self.height
    }

    /// The image, encoded as a PNG with its mask as alpha.
    pub fn png(&self) -> (r: &Vec<u8>)
        ensures
            r@ == self.spec_png(),
    {
        &self.png
    }
}

} // verus!
