//! A rendered page, and turning it upright.

use vstd::prelude::*;

verus! {

/// One pixel: red, green, blue.
pub type Rgb = [u8; 3];

/// A colour image: one pixel per element, row after row from the top.
pub struct PageImage {
    pub width: u32,
    pub height: u32,
    pub pixels: Vec<Rgb>,
}

impl PageImage {
    /// The pixels fill the rows exactly.
    pub open spec fn wf(&self) -> bool {
        self.pixels@.len() == self.width * self.height
    }

    /// The pixel at column `x` of row `y`.
    pub open spec fn pixel(&self, x: int, y: int) -> Rgb {
        self.pixels@[y * self.width + x]
    }
}

/// `turned` is `page` turned clockwise by a quarter.
pub open spec fn is_quarter_turn(page: &PageImage, turned: &PageImage) -> bool {
    &&& turned.wf()
    &&& turned.width == page.height
    &&& turned.height == page.width
    &&& forall|x: int, y: int| 0 <= x < turned.width && 0 <= y < turned.height
        ==> #[trigger] turned.pixel(x, y) == page.pixel(y, page.height - 1 - x)
}

/// `turned` is `page` turned half way round.
pub open spec fn is_half_turn(page: &PageImage, turned: &PageImage) -> bool {
    &&& turned.wf()
    &&& turned.width == page.width
    &&& turned.height == page.height
    &&& forall|x: int, y: int| 0 <= x < turned.width && 0 <= y < turned.height
        ==> #[trigger] turned.pixel(x, y) == page.pixel(page.width - 1 - x, page.height - 1 - y)
}

/// `turned` is `page` turned clockwise by three quarters.
pub open spec fn is_three_quarter_turn(page: &PageImage, turned: &PageImage) -> bool {
    &&& turned.wf()
    &&& turned.width == page.height
    &&& turned.height == page.width
    &&& forall|x: int, y: int| 0 <= x < turned.width && 0 <= y < turned.height
        ==> #[trigger] turned.pixel(x, y) == page.pixel(page.width - 1 - y, x)
}

/// `turned` is `page` unchanged.
pub open spec fn is_same(page: &PageImage, turned: &PageImage) -> bool {
    &&& turned.width == page.width
    &&& turned.height == page.height
    &&& turned.pixels@ == page.pixels@
}

/// `image::imageops::rotate90`: the page turned a quarter clockwise. The
/// page crosses over as an `image::RgbImage` (`ImageBuffer::from_raw`, which
/// accepts exactly `width * height` pixels) and comes back as its raw pixels.
#[verifier::external_body]
fn rotate90(page: &PageImage) -> (r: PageImage)
    requires
        page.wf(),
    ensures
        is_quarter_turn(page, &r),
{
    let raw: Vec<u8> = page.pixels.iter().flatten().copied().collect();
    let image = image::RgbImage::from_raw(page.width, page.height, raw).unwrap();
    let turned = image::imageops::rotate90(&image);
    let (width, height) = turned.dimensions();
    let pixels = turned.into_raw().chunks_exact(3).map(|p| [p[0], p[1], p[2]]).collect();
    PageImage { width, height, pixels }
}

/// `image::imageops::rotate180`: the page turned half way round, crossing
/// over as for [`rotate90`].
#[verifier::external_body]
fn rotate180(page: &PageImage) -> (r: PageImage)
    requires
        page.wf(),
    ensures
        is_half_turn(page, &r),
{
    let raw: Vec<u8> = page.pixels.iter().flatten().copied().collect();
    let image = image::RgbImage::from_raw(page.width, page.height, raw).unwrap();
    let turned = image::imageops::rotate180(&image);
    let (width, height) = turned.dimensions();
    let pixels = turned.into_raw().chunks_exact(3).map(|p| [p[0], p[1], p[2]]).collect();
    PageImage { width, height, pixels }
}

/// `image::imageops::rotate270`: the page turned three quarters clockwise,
/// crossing over as for [`rotate90`].
#[verifier::external_body]
fn rotate270(page: &PageImage) -> (r: PageImage)
    requires
        page.wf(),
    ensures
        is_three_quarter_turn(page, &r),
{
    let raw: Vec<u8> = page.pixels.iter().flatten().copied().collect();
    let image = image::RgbImage::from_raw(page.width, page.height, raw).unwrap();
    let turned = image::imageops::rotate270(&image);
    let (width, height) = turned.dimensions();
    let pixels = turned.into_raw().chunks_exact(3).map(|p| [p[0], p[1], p[2]]).collect();
    PageImage { width, height, pixels }
}

/// A copy of the page.
fn copy(page: &PageImage) -> (r: PageImage)
    ensures
        is_same(page, &r),
{
    let mut pixels: Vec<Rgb> = Vec::new();
    let mut i: usize = 0;
    while i < page.pixels.len()
        invariant
            i <= page.pixels@.len(),
            pixels@ == page.pixels@.take(i as int),
        decreases page.pixels@.len() - i,
    {
        pixels.push(page.pixels[i]);
        assert(page.pixels@.take(i + 1) =~= page.pixels@.take(i as int).push(page.pixels@[i as int]));
        i += 1;
    }
    assert(page.pixels@.take(page.pixels@.len() as int) =~= page.pixels@);
    PageImage { width: page.width, height: page.height, pixels }
}

/// `page` turned clockwise by `degrees`: 90, 180 or 270, and any other
/// number leaves it as it is.
pub fn rotate(page: &PageImage, degrees: i32) -> (r: PageImage)
    requires
        page.wf(),
    ensures
        r.wf(),
        degrees == 90 ==> is_quarter_turn(page, &r),
        degrees == 180 ==> is_half_turn(page, &r),
        degrees == 270 ==> is_three_quarter_turn(page, &r),
        degrees != 90 && degrees != 180 && degrees != 270 ==> is_same(page, &r),
{
    if degrees == 90 {
        rotate90(page)
    } else if degrees == 180 {
        rotate180(page)
    } else if degrees == 270 {
        rotate270(page)
    } else {
        copy(page)
    }
}

/// The size and pixels `image` decodes `data` to, in RGB, or `None` where it
/// cannot decode it.
pub uninterp spec fn rgb_decoding(data: Seq<u8>) -> Option<(u32, u32, Seq<Rgb>)>;

/// `image::load_from_memory`, then `DynamicImage::to_rgb8`: the encoded
/// image `data` as RGB pixels, as the name `rgb_decoding` says. The contract
/// adds that the pixels fill the rows, which an `ImageBuffer` always does.
#[verifier::external_body]
fn decode_rgb(data: &[u8]) -> (r: Result<PageImage, image::ImageError>)
    ensures
        match r {
            Ok(page) => page.wf() && rgb_decoding(data@) == Some((page.width, page.height, page.pixels@)),
            Err(_) => rgb_decoding(data@) is None,
        },
{
    let image = image::load_from_memory(data)?.to_rgb8();
    let (width, height) = image.dimensions();
    let pixels = image.into_raw().chunks_exact(3).map(|p| [p[0], p[1], p[2]]).collect();
    Ok(PageImage { width, height, pixels })
}

/// A rendered page that could not be decoded.
#[derive(Debug)]
pub struct Undecodable(pub image::ImageError);

/// The rendered page `data` (PNG, or any format `image` reads) as a page
/// image.
pub fn decode_page(data: &[u8]) -> (r: Result<PageImage, Undecodable>)
    ensures
        match rgb_decoding(data@) {
            Some((width, height, pixels)) => r matches Ok(page) && page.wf() && page.width == width
                && page.height == height && page.pixels@ == pixels,
            None => r is Err,
        },
{
    match decode_rgb(data) {
        Ok(page) => Ok(page),
        Err(error) => Err(Undecodable(error)),
    }
}

#[verifier::external_type_specification]
#[verifier::external_body]
pub struct ExPdfDocument(pdf_oxide::document::PdfDocument);

#[verifier::external_type_specification]
#[verifier::external_body]
pub struct ExPdfError(pdf_oxide::Error);

/// Resolution a page is rendered at for OCR: high enough for 6pt form
/// labels, low enough that a four-page document stays quick.
pub const DPI: u32 = 150;

/// `pdf_oxide::rendering::render_page` at `dpi` dots per inch: the encoded
/// image of page `page`. What it holds depends on the document, which is
/// opaque here, so nothing is said of it.
#[verifier::external_body]
fn render_encoded(doc: &pdf_oxide::document::PdfDocument, page: usize, dpi: u32) -> Result<Vec<u8>, pdf_oxide::Error> {
    Ok(pdf_oxide::rendering::render_page(doc, page, &pdf_oxide::rendering::RenderOptions::with_dpi(dpi))?.data)
}

/// Why a page could not be rendered.
#[derive(Debug)]
pub enum RenderError {
    /// The document could not be drawn.
    Render(pdf_oxide::Error),
    /// What was drawn could not be decoded.
    Decode(image::ImageError),
}

/// Page `page` of `doc`, rendered at `DPI` and decoded: whatever the
/// renderer drew, the page is the RGB decoding of it, and fills its rows.
pub fn render(doc: &pdf_oxide::document::PdfDocument, page: usize) -> (r: Result<PageImage, RenderError>)
    ensures
        r matches Ok(image) ==> image.wf() && exists|data: Seq<u8>|
            #[trigger] rgb_decoding(data) == Some((image.width, image.height, image.pixels@)),
{
    let data = match render_encoded(doc, page, DPI) {
        Ok(data) => data,
        Err(error) => return Err(RenderError::Render(error)),
    };
    match decode_page(data.as_slice()) {
        Ok(image) => Ok(image),
        Err(Undecodable(error)) => Err(RenderError::Decode(error)),
    }
}

} // verus!
