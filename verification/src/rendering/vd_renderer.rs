//! Variable density rendering: one image column per trace, one row per
//! sample, resampled to the viewport and encoded as PNG.

use crate::rendering::raster::{lemma_pixel_index, pixel_index, Raster, Rgb};
use crate::rendering::types::{ImageFormat, RenderedImage, ViewportConfig};
use vstd::prelude::*;

verus! {

/// The color of positions that no sample stands for.
pub const BLACK: Rgb = [0, 0, 0];

/// The bytes of a list of pixels: red, green and blue of each, one pixel
/// after the other.
pub open spec fn rgb_bytes(pixels: Seq<Rgb>) -> Seq<u8> {
    Seq::new(pixels.len() * 3, |i: int| pixels[i / 3][i % 3])
}

/// What the PNG encoder gives for an 8-bit RGB image of the given size and
/// bytes under fast compression: the encoded file, or the reason why it
/// refused the image.
pub uninterp spec fn png_rgb8_fast(width: u32, height: u32, pixels: Seq<u8>) -> Result<
    Seq<u8>,
    Seq<char>,
>;

/// Whether an outcome of encoding is the given one.
pub open spec fn is_outcome(outcome: Result<Vec<u8>, String>, expected: Result<Seq<u8>, Seq<char>>) -> bool {
    match (outcome, expected) {
        (Ok(bytes), Ok(encoded)) => bytes@ == encoded,
        (Err(reason), Err(text)) => reason@ == text,
        _ => false,
    }
}

/// Whether an image of a size is small enough for the PNG encoder: the
/// sizes that it computes from the width and the height fit the machine's
/// address range.
pub open spec fn encodable_size(width: u32, height: u32) -> bool {
    width * height * 4 + 16 <= isize::MAX
}

/// The `png` crate's encoder: `Encoder::new` on a buffer in memory, set to
/// RGB color, 8-bit depth and fast compression, then `write_header` and
/// `write_image_data`. The result is the encoded file, or the text of the
/// error of whichever step failed; it is a function of the size and the
/// bytes alone. `write_image_data` multiplies the row length by the height
/// without a check, and adds one byte for each row, so `requires` leaves
/// out sizes whose products do not fit.
#[verifier::external_body]
fn encode_rgb8_fast(width: u32, height: u32, pixels: &Vec<u8>) -> (outcome: Result<Vec<u8>, String>)
    requires
        pixels@.len() == width * height * 3,
        encodable_size(width, height),
    ensures
        is_outcome(outcome, png_rgb8_fast(width, height, pixels@)),
{
    let mut png_bytes = Vec::new();
    let mut encoder = png::Encoder::new(std::io::Cursor::new(&mut png_bytes), width, height);
    encoder.set_color(png::ColorType::Rgb);
    encoder.set_depth(png::BitDepth::Eight);
    encoder.set_compression(png::Compression::Fast);
    let mut writer = encoder.write_header().map_err(|e| format!("PNG header write failed: {}", e))?;
    writer.write_image_data(pixels).map_err(|e| format!("PNG encoding failed: {}", e))?;
    drop(writer);
    Ok(png_bytes)
}

/// `image::imageops::resize` with the Lanczos3 filter on an 8-bit RGB
/// image given by its size and bytes (`ImageBuffer::from_raw`, `into_raw`).
/// The result holds three bytes for each pixel of the new size. The
/// function panics when a buffer it allocates is too large for the
/// machine, which `requires` leaves out.
#[verifier::external_body]
fn resize_rgb8_lanczos3(
    width: u32,
    height: u32,
    pixels: Vec<u8>,
    new_width: u32,
    new_height: u32,
) -> (resized: Vec<u8>)
    requires
        pixels@.len() == width * height * 3,
        width * new_height * 16 <= isize::MAX,
        new_width * new_height * 16 <= isize::MAX,
    ensures
        resized@.len() == new_width * new_height * 3,
{
    let source = image::RgbImage::from_raw(width, height, pixels).unwrap();
    let filter = image::imageops::FilterType::Lanczos3;
    image::imageops::resize(&source, new_width, new_height, filter).into_raw()
}

impl Raster {
    /// The bytes of the image: red, green and blue of each pixel, row by
    /// row.
    pub fn to_rgb_bytes(&self) -> (bytes: Vec<u8>)
        ensures
            bytes@ == rgb_bytes(self.pixels@),
    {
        let mut bytes: Vec<u8> = Vec::new();
        let mut i: usize = 0;
        while i < self.pixels.len()
            invariant
                i <= self.pixels@.len(),
                bytes@ == rgb_bytes(self.pixels@.take(i as int)),
            decreases self.pixels@.len() - i,
        {
            let pixel = self.pixels[i];
            bytes.push(pixel[0]);
            bytes.push(pixel[1]);
            bytes.push(pixel[2]);
            i += 1;
            assert(bytes@ =~= rgb_bytes(self.pixels@.take(i as int)));
        }
        assert(self.pixels@.take(i as int) == self.pixels@);
        bytes
    }

    /// The image of the given size whose bytes, red, green and blue of
    /// each pixel, row by row, are `bytes`.
    pub fn from_rgb_bytes(width: u32, height: u32, bytes: &Vec<u8>) -> (image: Raster)
        requires
            bytes@.len() == width * height * 3,
        ensures
            image.wf(),
            image.width == width,
            image.height == height,
            rgb_bytes(image.pixels@) == bytes@,
    {
        let count = bytes.len() / 3;
        assert(count == width * height && count * 3 == bytes@.len()) by (nonlinear_arith)
            requires
                bytes@.len() == width * height * 3,
                count == bytes@.len() / 3,
        ;
        let mut pixels: Vec<Rgb> = Vec::new();
        let mut i: usize = 0;
        while i < count
            invariant
                i <= count,
                count * 3 == bytes@.len() <= usize::MAX,
                pixels@.len() == i,
                forall|k: int, c: int|
                    0 <= k < i && 0 <= c < 3 ==> (#[trigger] pixels@[k])[c] == #[trigger] bytes@[k
                        * 3 + c],
            decreases count - i,
        {
            pixels.push([bytes[i * 3], bytes[i * 3 + 1], bytes[i * 3 + 2]]);
            i += 1;
        }
        let image = Raster { width, height, pixels };
        assert(rgb_bytes(image.pixels@) =~= bytes@) by {
            assert forall|j: int| 0 <= j < bytes@.len() implies rgb_bytes(image.pixels@)[j]
                == bytes@[j] by {
                let k = j / 3;
                let c = j % 3;
                assert(image.pixels@[k][c] == bytes@[k * 3 + c]);
            }
        }
        image
    }
}

/// The color of a position of the variable density grid: the color of the
/// sample `y` of the trace `x`, and black where there is no such sample.
pub open spec fn grid_color(columns: Seq<Vec<Rgb>>, x: int, y: int) -> Rgb {
    if 0 <= x < columns.len() && 0 <= y < columns[x]@.len() {
        columns[x]@[y]
    } else {
        BLACK
    }
}

/// The height of the variable density grid: the number of samples of the
/// first trace, and 0 without traces.
pub open spec fn grid_height(columns: Seq<Vec<Rgb>>) -> int {
    if columns.len() > 0 {
        columns[0]@.len() as int
    } else {
        0
    }
}

/// Lays the colors of the samples out as an image `width` wide: one column
/// per trace, one row per sample, as high as the first trace is long.
/// Positions without a sample are black.
pub fn variable_density_grid(columns: &Vec<Vec<Rgb>>, width: u32) -> (image: Raster)
    requires
        grid_height(columns@) <= u32::MAX,
        width * grid_height(columns@) <= usize::MAX,
    ensures
        image.wf(),
        image.width == width,
        image.height == grid_height(columns@),
        forall|x: int, y: int|
            image.contains(x, y) ==> #[trigger] image.at(x, y) == grid_color(columns@, x, y),
{
    let height: u32 = if columns.len() > 0 {
        columns[0].len() as u32
    } else {
        0
    };
    let mut pixels: Vec<Rgb> = Vec::new();
    let mut y: u32 = 0;
    assert(0 * width == 0) by (nonlinear_arith);
    while y < height
        invariant
            y <= height,
            height == grid_height(columns@),
            pixels@.len() == y * width,
            forall|px: int, py: int|
                0 <= px < width && 0 <= py < y ==> #[trigger] pixels@[pixel_index(
                    width as int,
                    px,
                    py,
                )] == grid_color(columns@, px, py),
        decreases height - y,
    {
        let mut x: u32 = 0;
        while x < width
            invariant
                x <= width,
                y < height,
                pixels@.len() == y * width + x,
                forall|px: int, py: int|
                    0 <= px < width && 0 <= py < y ==> #[trigger] pixels@[pixel_index(
                        width as int,
                        px,
                        py,
                    )] == grid_color(columns@, px, py),
                forall|px: int|
                    0 <= px < x ==> #[trigger] pixels@[pixel_index(width as int, px, y as int)]
                        == grid_color(columns@, px, y as int),
            decreases width - x,
        {
            let trace_idx = x as usize;
            let sample_idx = y as usize;
            let color = if trace_idx < columns.len() && sample_idx < columns[trace_idx].len() {
                columns[trace_idx][sample_idx]
            } else {
                BLACK
            };
            let ghost before = pixels@;
            pixels.push(color);
            proof {
                assert forall|px: int, py: int| 0 <= px < width && 0 <= py < y implies #[trigger] pixels@[pixel_index(
                    width as int,
                    px,
                    py,
                )] == grid_color(columns@, px, py) by {
                    lemma_pixel_index(width as int, y as int, px, py, px, py);
                    assert(width * y == y * width) by (nonlinear_arith);
                    assert(pixels@[pixel_index(width as int, px, py)] == before[pixel_index(
                        width as int,
                        px,
                        py,
                    )]);
                }
                assert forall|px: int| 0 <= px < x + 1 implies #[trigger] pixels@[pixel_index(
                    width as int,
                    px,
                    y as int,
                )] == grid_color(columns@, px, y as int) by {
                    if px < x {
                        assert(pixels@[pixel_index(width as int, px, y as int)]
                            == before[pixel_index(width as int, px, y as int)]);
                    }
                }
            }
            x += 1;
        }
        proof {
            assert((y + 1) * width == y * width + width) by (nonlinear_arith);
        }
        y += 1;
    }
    assert(width * height == height * width) by (nonlinear_arith);
    let image = Raster { width, height, pixels };
    image
}

/// Brings an image to the size of the viewport: the image itself when it
/// has that size already, else a resampling of it.
pub fn fit_to_viewport(image: Raster, viewport: &ViewportConfig) -> (fitted: Raster)
    requires
        image.wf(),
        image.width * viewport.height * 16 <= isize::MAX,
        viewport.width * viewport.height * 16 <= isize::MAX,
    ensures
        fitted.wf(),
        fitted.width == viewport.width,
        fitted.height == viewport.height,
        image.width == viewport.width && image.height == viewport.height ==> fitted == image,
{
    if image.width != viewport.width || image.height != viewport.height {
        let bytes = image.to_rgb_bytes();
        assert(image.width * image.height * 3 == image.pixels@.len() * 3) by (nonlinear_arith)
            requires
                image.pixels@.len() == image.width * image.height,
        ;
        let resized = resize_rgb8_lanczos3(
            image.width,
            image.height,
            bytes,
            viewport.width,
            viewport.height,
        );
        Raster::from_rgb_bytes(viewport.width, viewport.height, &resized)
    } else {
        image
    }
}

/// The rendered image that an outcome of encoding stands for: the encoded
/// bytes with the size of the image, or the encoder's reason.
pub fn rendered_from(width: u32, height: u32, encoded: Result<Vec<u8>, String>) -> (rendered:
    Result<RenderedImage, String>)
    ensures
        rendered == match encoded {
            Ok(data) => Ok::<RenderedImage, String>(
                RenderedImage { width, height, data, format: ImageFormat::Png },
            ),
            Err(reason) => Err::<RenderedImage, String>(reason),
        },
{
    match encoded {
        Ok(data) => Ok(RenderedImage { width, height, data, format: ImageFormat::Png }),
        Err(reason) => Err(reason),
    }
}

/// Whether `rendered` is what encoding an image gives: the image's size and
/// the encoder's bytes for it, or the encoder's reason.
pub open spec fn is_encoding_of(rendered: Result<RenderedImage, String>, image: Raster) -> bool {
    match (rendered, png_rgb8_fast(image.width, image.height, rgb_bytes(image.pixels@))) {
        (Ok(picture), Ok(encoded)) => {
            &&& picture.width == image.width
            &&& picture.height == image.height
            &&& picture.data@ == encoded
            &&& picture.format == ImageFormat::Png
        },
        (Err(reason), Err(text)) => reason@ == text,
        _ => false,
    }
}

/// Encodes an image as PNG: RGB, 8 bits deep, with fast compression.
pub fn encode_png_fast(img: &Raster) -> (rendered: Result<RenderedImage, String>)
    requires
        img.wf(),
        encodable_size(img.width, img.height),
    ensures
        is_encoding_of(rendered, *img),
{
    let raw_pixels = img.to_rgb_bytes();
    assert(raw_pixels@.len() == img.width * img.height * 3) by (nonlinear_arith)
        requires
            raw_pixels@.len() == img.pixels@.len() * 3,
            img.pixels@.len() == img.width * img.height,
    ;
    rendered_from(img.width, img.height, encode_rgb8_fast(img.width, img.height, &raw_pixels))
}

/// The variable density base image of a viewport: the grid of the sample
/// colors, as wide as there are traces, brought to the size of the
/// viewport.
pub fn render_vd_base(columns: &Vec<Vec<Rgb>>, viewport: &ViewportConfig) -> (image: Raster)
    requires
        columns@.len() <= u32::MAX,
        grid_height(columns@) <= u32::MAX,
        columns@.len() * grid_height(columns@) <= usize::MAX,
        columns@.len() * viewport.height * 16 <= isize::MAX,
        viewport.width * viewport.height * 16 <= isize::MAX,
    ensures
        image.wf(),
        image.width == viewport.width,
        image.height == viewport.height,
        columns@.len() == viewport.width && grid_height(columns@) == viewport.height
            ==> forall|x: int, y: int|
            image.contains(x, y) ==> #[trigger] image.at(x, y) == grid_color(columns@, x, y),
{
    let width = columns.len() as u32;
    let grid = variable_density_grid(columns, width);
    fit_to_viewport(grid, viewport)
}

/// Renders variable density: the grid of the sample colors, as wide as the
/// viewport has traces, brought to the size of the viewport and encoded as
/// PNG.
pub fn render_variable_density(columns: &Vec<Vec<Rgb>>, viewport: &ViewportConfig) -> (rendered:
    Result<RenderedImage, String>)
    requires
        viewport.trace_count <= u32::MAX,
        grid_height(columns@) <= u32::MAX,
        viewport.trace_count * grid_height(columns@) <= usize::MAX,
        viewport.trace_count * viewport.height * 16 <= isize::MAX,
        viewport.width * viewport.height * 16 <= isize::MAX,
    ensures
        exists|image: Raster|
            {
                &&& #[trigger] is_encoding_of(rendered, image)
                &&& image.wf()
                &&& image.width == viewport.width
                &&& image.height == viewport.height
                &&& viewport.trace_count == viewport.width && grid_height(columns@)
                    == viewport.height ==> forall|x: int, y: int|
                    image.contains(x, y) ==> #[trigger] image.at(x, y) == grid_color(
                        columns@,
                        x,
                        y,
                    )
            },
{
    let width = viewport.trace_count as u32;
    let grid = variable_density_grid(columns, width);
    let img = fit_to_viewport(grid, viewport);
    assert(encodable_size(img.width, img.height)) by (nonlinear_arith)
        requires
            img.width * img.height * 16 <= isize::MAX,
            isize::MAX >= 0x7FFF_FFFF,
    ;
    encode_png_fast(&img)
}

} // verus!
