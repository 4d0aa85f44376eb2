//! Decoded images and their placement on the framebuffer.

use vstd::prelude::*;
use vstd::slice::slice_index_get;
use zune_image::codecs::jpeg::JpegDecoder;
use zune_image::codecs::png::PngDecoder;
use zune_image::codecs::png::zune_core::options::DecoderOptions;
use zune_image::errors::ImageErrors;
use crate::canvas::Canvas;
use crate::color::{rgb, rgb_spec};
use crate::framebuffer::Framebuffer;
use crate::raster::{clip, clipped};
use crate::geometry::Rect;
use crate::text::text_chars;

verus! {

/// The formats that images are decoded from. A decoded PNG holds four
/// bytes per pixel (red, green, blue, alpha), a decoded JPEG three.
#[derive(Clone, Copy, Debug, PartialEq, Eq, Structural)]
pub enum ImageFormat {
    PNG,
    JPEG,
}

/// Why an image could not be loaded.
#[derive(Debug, PartialEq, Eq)]
pub enum ImageError {
    /// The file extension names no supported format.
    UnsupportedExtension,
    /// The decoder rejected the data; the text is its report.
    Decode(String),
    /// The decoder gave no 8-bit samples or no dimensions.
    Incomplete,
    /// The decoded bytes do not hold `width * height` pixels of the
    /// format's size, or a dimension is beyond `i32::MAX`.
    BadLayout { width: usize, height: usize, len: usize },
}

/// The bytes that one pixel takes in a decoded image.
pub open spec fn bytes_per_pixel(format: ImageFormat) -> int {
    match format {
        ImageFormat::PNG => 4,
        ImageFormat::JPEG => 3,
    }
}

/// A decoded image. Its area starts at the origin and has the image's
/// size.
#[derive(Debug)]
pub struct Image {
    pub format: ImageFormat,
    pub area: Rect,
    pub bitmap: Vec<u8>,
}

/// The failure type of the image decoders.
#[verifier::external_type_specification]
#[verifier::external_body]
pub struct ExImageErrors(ImageErrors);

/// Runs `zune_image::codecs::jpeg::JpegDecoder` over `data`: the decoder is
/// made with `new_with_options`, `decode` gives the samples and
/// `dimensions` the size. Nothing is claimed of what comes back.
#[verifier::external_body]
fn decode_jpeg(data: &[u8]) -> (r: Result<(Vec<u8>, Option<(usize, usize)>), ImageErrors>) {
    let options = DecoderOptions::default().png_set_strip_to_8bit(true).png_set_add_alpha_channel(
        true,
    );
    let mut decoder = JpegDecoder::new_with_options(data, options);
    let bitmap = decoder.decode().map_err(ImageErrors::from)?;
    Ok((bitmap, decoder.dimensions()))
}

/// Runs `zune_image::codecs::png::PngDecoder` over `data`, asking for 8-bit
/// samples with an alpha channel: the decoder is made with
/// `new_with_options`, `decode` gives the samples, `u8` takes them as
/// bytes, and `get_dimensions` gives the size. Nothing is claimed of what
/// comes back.
#[verifier::external_body]
fn decode_png(data: &[u8]) -> (r: Result<(Option<Vec<u8>>, Option<(usize, usize)>), ImageErrors>) {
    let options = DecoderOptions::default().png_set_strip_to_8bit(true).png_set_add_alpha_channel(
        true,
    );
    let mut decoder = PngDecoder::new_with_options(data, options);
    let samples = decoder.decode().map_err(ImageErrors::from)?;
    Ok((samples.u8(), decoder.get_dimensions()))
}

/// The decoder's report of a failure: `format!` with the `Debug` impl of
/// `zune_image::errors::ImageErrors`. Nothing is claimed of the text.
#[verifier::external_body]
fn error_text(e: &ImageErrors) -> (s: String) {
    format!("{:?}", e)
}

/// Whether two strings hold the same characters.
pub fn same_text(a: &str, b: &str) -> (eq: bool)
    ensures
        eq == (a@ == b@),
{
    let x = text_chars(a);
    let y = text_chars(b);
    if x.len() != y.len() {
        return false;
    }
    let mut i: usize = 0;
    while i < x.len()
        invariant
            x@ == a@,
            y@ == b@,
            x@.len() == y@.len(),
            i <= x@.len(),
            forall|j: int| 0 <= j < i ==> x@[j] == y@[j],
        decreases x@.len() - i,
    {
        if x[i] != y[i] {
            return false;
        }
        i += 1;
    }
    assert(x@ =~= y@);
    true
}

impl ImageFormat {
    /// The format that a file extension names, in lower case: `jpg` and
    /// `jpeg` name JPEG, `png` names PNG.
    pub open spec fn of_extension(ext: Seq<char>) -> Option<ImageFormat> {
        if ext == "jpg"@ || ext == "jpeg"@ {
            Some(ImageFormat::JPEG)
        } else if ext == "png"@ {
            Some(ImageFormat::PNG)
        } else {
            None
        }
    }

    /// The format that a file extension names.
    pub fn from_extension(ext: &str) -> (f: Option<ImageFormat>)
        ensures
            f == ImageFormat::of_extension(ext@),
    {
        if same_text(ext, "jpg") || same_text(ext, "jpeg") {
            Some(ImageFormat::JPEG)
        } else if same_text(ext, "png") {
            Some(ImageFormat::PNG)
        } else {
            None
        }
    }

    /// The bytes that one pixel takes.
    pub fn pixel_size(&self) -> (n: usize)
        ensures
            n == bytes_per_pixel(*self),
    {
        match self {
            ImageFormat::PNG => 4,
            ImageFormat::JPEG => 3,
        }
    }
}

impl Image {
    /// The bitmap holds exactly the pixels of the area, and the area
    /// starts at the origin.
    pub open spec fn wf(&self) -> bool {
        &&& self.area.x == 0
        &&& self.area.y == 0
        &&& self.area.width >= 0
        &&& self.area.height >= 0
        &&& self.bitmap@.len() == self.area.width * self.area.height * bytes_per_pixel(self.format)
    }

    /// Whether decoded samples of this size can be taken as an image.
    pub open spec fn layout_ok(format: ImageFormat, width: usize, height: usize, len: nat) -> bool {
        width <= i32::MAX && height <= i32::MAX && len == width * height * bytes_per_pixel(format)
    }

    /// Takes what a decoder gave as an image, if the samples hold exactly
    /// `width * height` pixels of the format's size.
    pub fn from_decoded(format: ImageFormat, width: usize, height: usize, bitmap: Vec<u8>) -> (r:
        Result<Image, ImageError>)
        ensures
            match r {
                Ok(img) => Image::layout_ok(format, width, height, bitmap@.len()) && img.wf()
                    && img.format == format && img.bitmap == bitmap && img.area == (Rect {
                    x: 0,
                    y: 0,
                    width: width as i32,
                    height: height as i32,
                }),
                Err(e) => !Image::layout_ok(format, width, height, bitmap@.len()) && e == (
                ImageError::BadLayout { width, height, len: bitmap@.len() as usize }),
            },
    {
        let len = bitmap.len();
        if width > i32::MAX as usize || height > i32::MAX as usize {
            return Err(ImageError::BadLayout { width, height, len });
        }
        assert(0 <= width * height <= 0x7FFF_FFFF * 0x7FFF_FFFF) by (nonlinear_arith)
            requires
                0 <= width <= 0x7FFF_FFFF,
                0 <= height <= 0x7FFF_FFFF,
        ;
        let pixels: u128 = (width as u128) * (height as u128);
        let want: u128 = match format {
            ImageFormat::PNG => pixels * 4,
            ImageFormat::JPEG => pixels * 3,
        };
        if want != len as u128 {
            return Err(ImageError::BadLayout { width, height, len });
        }
        Ok(Image { format, area: Rect { x: 0, y: 0, width: width as i32, height: height as i32 }, bitmap })
    }

    /// The number of columns.
    pub fn width(&self) -> (w: i32)
        ensures
            w == self.area.width,
    {
        self.area.width
    }

    /// The number of rows.
    pub fn height(&self) -> (h: i32)
        ensures
            h == self.area.height,
    {
        self.area.height
    }
}

/// Decodes the bytes of an image file whose name ends in the extension
/// `extension`.
///
/// Fails with `UnsupportedExtension` exactly when the extension names no
/// format; the decoder is then not run. Otherwise the result is what
/// `Image::from_decoded` makes of the decoder's output, or the decoder's
/// failure.
pub fn image(bytes: &[u8], extension: &str) -> (r: Result<Image, ImageError>)
    ensures
        ImageFormat::of_extension(extension@) is None <==> r matches Err(
            ImageError::UnsupportedExtension,
        ),
        r matches Ok(img) ==> img.wf() && Some(img.format) == ImageFormat::of_extension(extension@),
{
    match ImageFormat::from_extension(extension) {
        None => Err(ImageError::UnsupportedExtension),
        Some(ImageFormat::JPEG) => {
            match decode_jpeg(bytes) {
                Err(e) => Err(ImageError::Decode(error_text(&e))),
                Ok((bitmap, dims)) => image_from_parts(ImageFormat::JPEG, Some(bitmap), dims),
            }
        },
        Some(ImageFormat::PNG) => {
            match decode_png(bytes) {
                Err(e) => Err(ImageError::Decode(error_text(&e))),
                Ok((samples, dims)) => image_from_parts(ImageFormat::PNG, samples, dims),
            }
        },
    }
}

/// Makes an image of what a decoder handed out: `Incomplete` when the
/// samples or the dimensions are missing, else what `Image::from_decoded`
/// gives.
pub fn image_from_parts(format: ImageFormat, samples: Option<Vec<u8>>, dims: Option<
    (usize, usize),
>) -> (r: Result<Image, ImageError>)
    ensures
        match (samples, dims) {
            (Some(bitmap), Some(d)) => match r {
                Ok(img) => Image::layout_ok(format, d.0, d.1, bitmap@.len()) && img.wf()
                    && img.format == format && img.bitmap == bitmap && img.area == (Rect {
                    x: 0,
                    y: 0,
                    width: d.0 as i32,
                    height: d.1 as i32,
                }),
                Err(e) => !Image::layout_ok(format, d.0, d.1, bitmap@.len()) && e == (
                ImageError::BadLayout { width: d.0, height: d.1, len: bitmap@.len() as usize }),
            },
            _ => r matches Err(ImageError::Incomplete),
        },
{
    match samples {
        None => Err(ImageError::Incomplete),
        Some(bitmap) => match dims {
            None => Err(ImageError::Incomplete),
            Some((width, height)) => Image::from_decoded(format, width, height, bitmap),
        },
    }
}

/// The packed colour of pixel `k` of decoded samples with `size` bytes
/// per pixel: its first three bytes are red, green and blue.
pub open spec fn sample_pixel(data: Seq<u8>, size: int, k: int) -> u32 {
    rgb_spec(data[k * size] as int, data[k * size + 1] as int, data[k * size + 2] as int) as u32
}

impl Canvas {
    /// A decoded image of `w` by `h` pixels placed with its top left
    /// corner at `(x, y)`. Pixel `(col, row)` of the image is pixel
    /// `row * w + col` of the samples; pixels for which the samples hold
    /// no complete entry, and pixels off the canvas, are left out.
    pub open spec fn blit(self, data: Seq<u8>, size: int, x: int, y: int, w: int, h: int) -> Canvas {
        self.map_pixels(
            |px: int, py: int, old: u32|
                if x <= px < x + w && y <= py < y + h && ((py - y) * w + (px - x) + 1) * size
                    <= data.len() {
                    sample_pixel(data, size, (py - y) * w + (px - x))
                } else {
                    old
                },
        )
    }
}

impl Framebuffer {
    /// Places decoded samples as an image of `width` by `height` pixels
    /// with its top left corner at `(x, y)`. The first three bytes of each
    /// pixel are its red, green and blue; a fourth byte is passed over.
    /// What leaves the framebuffer is clipped, and pixels beyond the end
    /// of the samples are left as they were.
    pub fn draw_image(
        &mut self,
        data: &[u8],
        x: usize,
        y: usize,
        width: usize,
        height: usize,
        format: ImageFormat,
    )
        requires
            old(self).wf(),
        ensures
            final(self).wf(),
            final(self)@ == old(self)@.blit(
                data@,
                bytes_per_pixel(format),
                x as int,
                y as int,
                width as int,
                height as int,
            ),
    {
        let w = self.width();
        let h = self.height();
        let len = data.len();
        let size = format.pixel_size();
        // The number of complete pixels that the samples hold.
        let count: usize = match format {
            ImageFormat::PNG => len / 4,
            ImageFormat::JPEG => len / 3,
        };
        let cw = clip(x, width, w);
        let ch = if cw == 0 {
            0
        } else {
            clip(y, height, h)
        };
        let ghost bpp = bytes_per_pixel(format);
        let ghost c0 = old(self)@;
        let mut j: usize = 0;
        assert(self@ =~= c0.map_pixels(
            |px: int, py: int, o: u32|
                if x <= px < x + width && y <= py < y + height && ((py - y) * width + (px - x) + 1)
                    * bpp <= data@.len() && py < y + j {
                    sample_pixel(data@, bpp, (py - y) * width + (px - x))
                } else {
                    o
                },
        )) by {
            self.lemma_view_wf();
        }
        while j < ch
            invariant
                self.wf(),
                c0 == old(self)@,
                self@.width == c0.width == w,
                self@.height == c0.height == h,
                len == data@.len(),
                bpp == bytes_per_pixel(format),
                size == bpp,
                count == len as int / bpp,
                cw == clipped(x as int, width as int, w as int),
                ch == 0 || (cw > 0 && ch == clipped(y as int, height as int, h as int)),
                j <= ch,
                self@ == c0.map_pixels(
                    |px: int, py: int, o: u32|
                        if x <= px < x + width && y <= py < y + height && ((py - y) * width + (px
                            - x) + 1) * bpp <= data@.len() && py < y + j {
                            sample_pixel(data@, bpp, (py - y) * width + (px - x))
                        } else {
                            o
                        },
                ),
            decreases ch - j,
        {
            let mut i: usize = 0;
            assert(self@ =~= c0.map_pixels(
                |px: int, py: int, o: u32|
                    if x <= px < x + width && y <= py < y + height && ((py - y) * width + (px - x)
                        + 1) * bpp <= data@.len() && (py < y + j || (py == y + j && px < x + i)) {
                        sample_pixel(data@, bpp, (py - y) * width + (px - x))
                    } else {
                        o
                    },
            ));
            while i < cw
                invariant
                    self.wf(),
                    c0 == old(self)@,
                    self@.width == c0.width == w,
                    self@.height == c0.height == h,
                    len == data@.len(),
                    bpp == bytes_per_pixel(format),
                    size == bpp,
                    count == len as int / bpp,
                    cw == clipped(x as int, width as int, w as int),
                    cw > 0 && ch == clipped(y as int, height as int, h as int),
                    j < ch,
                    i <= cw,
                    self@ == c0.map_pixels(
                        |px: int, py: int, o: u32|
                            if x <= px < x + width && y <= py < y + height && ((py - y) * width + (
                            px - x) + 1) * bpp <= data@.len() && (py < y + j || (py == y + j && px
                                < x + i)) {
                                sample_pixel(data@, bpp, (py - y) * width + (px - x))
                            } else {
                                o
                            },
                    ),
                decreases cw - i,
            {
                proof {
                    assert(0 <= j * width <= 0xFFFF_FFFF_FFFF_FFFF * 0xFFFF_FFFF_FFFF_FFFF)
                        by (nonlinear_arith)
                        requires
                            0 <= j <= 0xFFFF_FFFF_FFFF_FFFF,
                            0 <= width <= 0xFFFF_FFFF_FFFF_FFFF,
                    ;
                }
                let k: u128 = (j as u128) * (width as u128) + (i as u128);
                proof {
                    lemma_sample_count(len as int, bpp, k as int);
                }
                if k < count as u128 {
                    let at = (k as usize) * size;
                    let px = rgb(
                        *slice_index_get(data, at),
                        *slice_index_get(data, at + 1),
                        *slice_index_get(data, at + 2),
                    );
                    self.draw_pixel(x + i, y + j, px);
                }
                i += 1;
                assert(self@ =~= c0.map_pixels(
                    |px: int, py: int, o: u32|
                        if x <= px < x + width && y <= py < y + height && ((py - y) * width + (px
                            - x) + 1) * bpp <= data@.len() && (py < y + j || (py == y + j && px < x
                            + i)) {
                            sample_pixel(data@, bpp, (py - y) * width + (px - x))
                        } else {
                            o
                        },
                ));
            }
            j += 1;
            assert(self@ =~= c0.map_pixels(
                |px: int, py: int, o: u32|
                    if x <= px < x + width && y <= py < y + height && ((py - y) * width + (px - x)
                        + 1) * bpp <= data@.len() && py < y + j {
                        sample_pixel(data@, bpp, (py - y) * width + (px - x))
                    } else {
                        o
                    },
            ));
        }
        assert(self@ =~= c0.blit(data@, bpp, x as int, y as int, width as int, height as int));
    }
}

/// Pixel `k` is complete in samples of `len` bytes exactly when `k` is
/// below `len / size`; its bytes then lie within the samples.
proof fn lemma_sample_count(len: int, size: int, k: int)
    requires
        0 <= len,
        size == 3 || size == 4,
        0 <= k,
    ensures
        (k + 1) * size <= len <==> k < len / size,
        k < len / size ==> 0 <= k * size && k * size + 2 < len,
{
    if size == 3 {
        assert((k + 1) * 3 <= len <==> k < len / 3);
    } else {
        assert((k + 1) * 4 <= len <==> k < len / 4);
    }
}

} // verus!
