//! Decoded images, the resize policy, and encoding, over the `image` crate.

use vstd::prelude::*;
use image::{DynamicImage, ImageFormat};
use crate::error::ServeError;
use crate::float::{scale_f32, scaled_f32};
use crate::params::ImageParams;
use crate::path::OutputFormat;

verus! {

#[verifier::external_type_specification]
#[verifier::external_body]
pub struct ExDynamicImage(DynamicImage);

/// The most pixels an image buffer may hold: at 16 bytes a pixel (four
/// 32-bit float channels, the widest layout the resampler uses) its size
/// must stay within `isize::MAX` on a 64-bit target.
pub const MAX_PIXELS: u64 = 576460752303423487;

/// Whether a `w` by `h` buffer stays within `MAX_PIXELS`.
pub open spec fn fits(w: u32, h: u32) -> bool {
    (w as int) * (h as int) <= MAX_PIXELS as int
}

/// What decoding `bytes` as the file `name` gives: the image's width and
/// height, or the decoder's error text. It depends on these two alone.
pub uninterp spec fn decode_outcome(bytes: Seq<u8>, name: Seq<char>) -> Result<(u32, u32), Seq<char>>;

/// What JPEG encoding at `quality` gives, for the image that decoding `bytes`
/// as `name` and resizing to `width` by `height` makes (no resize where that
/// is its own size): the encoded bytes, or the encoder's error text.
pub uninterp spec fn jpeg_outcome(bytes: Seq<u8>, name: Seq<char>, width: u32, height: u32, quality: u8) -> Result<Seq<u8>, Seq<char>>;

/// The same, for encoding in `format` with that format's default settings.
pub uninterp spec fn default_outcome(bytes: Seq<u8>, name: Seq<char>, width: u32, height: u32, format: OutputFormat) -> Result<Seq<u8>, Seq<char>>;

/// A decoded image: its size and where its pixels come from, the original's
/// bytes and file name.
pub struct RasterView {
    pub width: u32,
    pub height: u32,
    pub bytes: Seq<u8>,
    pub name: Seq<char>,
}

/// A decoded image, possibly resized once.
pub struct Raster {
    pixels: DynamicImage,
    width: u32,
    height: u32,
    origin: Ghost<(Seq<u8>, Seq<char>)>,
}

impl View for Raster {
    type V = RasterView;

    closed spec fn view(&self) -> RasterView {
        RasterView { width: self.width, height: self.height, bytes: self.origin@.0, name: self.origin@.1 }
    }
}

impl Raster {
    pub fn width(&self) -> (r: u32)
        ensures
            r == self@.width,
    {
        self.width
    }

    pub fn height(&self) -> (r: u32)
        ensures
            r == self@.height,
    {
        self.height
    }
}

/// An image as its original decodes, before any resize.
pub open spec fn as_decoded(v: RasterView) -> bool {
    decode_outcome(v.bytes, v.name) == Ok::<(u32, u32), Seq<char>>((v.width, v.height))
}

/// Relies on `ImageFormat::from_path` and `image::load_from_memory_with_format`
/// (what `image::open` does once the file is read): the decoder is chosen by
/// the name's extension, and the outcome depends on the bytes and the name
/// alone. Errors are given as their `Display` text.
#[verifier::external_body]
fn decode(bytes: &[u8], name: &str) -> (r: Result<Raster, String>)
    ensures
        match decode_outcome(bytes@, name@) {
            Ok(dims) => r matches Ok(img) && img@ == (RasterView { width: dims.0, height: dims.1, bytes: bytes@, name: name@ }),
            Err(text) => r matches Err(m) && m@ == text,
        },
{
    let format = match ImageFormat::from_path(name) {
        Ok(f) => f,
        Err(e) => return Err(e.to_string()),
    };
    match image::load_from_memory_with_format(bytes, format) {
        Ok(img) => Ok(Raster { width: img.width(), height: img.height(), pixels: img, origin: Ghost((bytes@, name@)) }),
        Err(e) => Err(e.to_string()),
    }
}

/// Relies on `DynamicImage::resize_exact` with the Lanczos3 filter: its result
/// is exactly `w` by `h`, and its pixels depend on the source's and the size
/// alone. It panics on an empty source and where a buffer of the source's
/// width and the new height, or of the new size, overflows.
#[verifier::external_body]
fn resize_exact(src: &Raster, w: u32, h: u32) -> (r: Raster)
    requires
        as_decoded(src@),
        src@.width > 0,
        src@.height > 0,
        fits(src@.width, h),
        fits(w, h),
    ensures
        r@ == (RasterView { width: w, height: h, ..src@ }),
{
    let img = src.pixels.resize_exact(w, h, image::imageops::FilterType::Lanczos3);
    Raster { pixels: img, width: w, height: h, origin: src.origin }
}

/// Relies on `DynamicImage::to_rgba8` and `JpegEncoder::new_with_quality` /
/// `encode`: converts to 8-bit RGBA and encodes as JPEG at `quality`.
#[verifier::external_body]
fn encode_jpeg_with_quality(src: &Raster, quality: u8) -> (r: Result<Vec<u8>, String>)
    requires
        fits(src@.width, src@.height),
    ensures
        match jpeg_outcome(src@.bytes, src@.name, src@.width, src@.height, quality) {
            Ok(b) => r matches Ok(v) && v@ == b,
            Err(text) => r matches Err(m) && m@ == text,
        },
{
    let rgba = src.pixels.to_rgba8();
    let mut out: Vec<u8> = Vec::new();
    let mut encoder = image::codecs::jpeg::JpegEncoder::new_with_quality(&mut out, quality);
    match encoder.encode(&rgba, rgba.width(), rgba.height(), image::ColorType::Rgba8) {
        Ok(()) => Ok(out),
        Err(e) => Err(e.to_string()),
    }
}

/// Whether the BMP encoder's unchecked `u32` arithmetic on the size (a row
/// of up to 4 bytes a pixel, up to 3 bytes of padding a row) stays in range.
pub open spec fn bmp_fits(w: u32, h: u32) -> bool {
    (w as int) * 4 <= u32::MAX && (h as int) * 3 <= u32::MAX
}

/// Relies on `DynamicImage::write_to`: encodes in `format` with the codec's
/// default settings. The BMP encoder panics where `bmp_fits` fails.
#[verifier::external_body]
fn encode_default(src: &Raster, format: OutputFormat) -> (r: Result<Vec<u8>, String>)
    requires
        fits(src@.width, src@.height),
        format == OutputFormat::Bmp ==> bmp_fits(src@.width, src@.height),
    ensures
        match default_outcome(src@.bytes, src@.name, src@.width, src@.height, format) {
            Ok(b) => r matches Ok(v) && v@ == b,
            Err(text) => r matches Err(m) && m@ == text,
        },
{
    let format = match format {
        OutputFormat::Png => ImageFormat::Png,
        OutputFormat::Jpeg => ImageFormat::Jpeg,
        OutputFormat::Gif => ImageFormat::Gif,
        OutputFormat::WebP => ImageFormat::WebP,
        OutputFormat::Bmp => ImageFormat::Bmp,
    };
    let mut buffer = std::io::Cursor::new(Vec::new());
    match src.pixels.write_to(&mut buffer, format) {
        Ok(()) => Ok(buffer.into_inner()),
        Err(e) => Err(e.to_string()),
    }
}

/// The resize policy. Both sizes given: exactly those. One given: the other
/// follows the source's aspect ratio, computed in single precision as
/// `(other as f32 * (given as f32 / given_side as f32)) as u32` (truncated,
/// saturating). Neither: the source size.
pub open spec fn target_dims(src_w: u32, src_h: u32, w: Option<u32>, h: Option<u32>) -> (u32, u32) {
    match (w, h) {
        (Some(w), Some(h)) => (w, h),
        (Some(w), None) => (w, scaled_f32(src_h, w, src_w)),
        (None, Some(h)) => (scaled_f32(src_w, h, src_h), h),
        (None, None) => (src_w, src_h),
    }
}

proof fn lemma_u32_product(a: u32, b: u32)
    ensures
        (a as int) * (b as int) <= u64::MAX,
{
    assert((a as int) * (b as int) <= (u32::MAX as int) * (u32::MAX as int)) by (nonlinear_arith)
        requires
            0 <= a <= u32::MAX,
            0 <= b <= u32::MAX,
    ;
}

/// The size an image of `src_w` by `src_h` is resized to.
pub fn target_dimensions(src_w: u32, src_h: u32, w: Option<u32>, h: Option<u32>) -> (r: (u32, u32))
    requires
        src_w > 0,
        src_h > 0,
    ensures
        r == target_dims(src_w, src_h, w, h),
{
    match (w, h) {
        (Some(w), Some(h)) => (w, h),
        (Some(w), None) => (w, scale_f32(src_h, w, src_w)),
        (None, Some(h)) => (scale_f32(src_w, h, src_h), h),
        (None, None) => (src_w, src_h),
    }
}

/// Whether a `w` by `h` buffer stays within `MAX_PIXELS`.
pub fn buffer_fits(w: u32, h: u32) -> (r: bool)
    ensures
        r == fits(w, h),
{
    proof {
        lemma_u32_product(w, h);
    }
    (w as u64) * (h as u64) <= MAX_PIXELS
}

/// Whether the parameters ask for a resize.
pub open spec fn resizes(p: ImageParams) -> bool {
    p.w is Some || p.h is Some
}

/// A resize is asked of an image with no pixels.
pub open spec fn resizes_empty(src: (u32, u32), p: ImageParams) -> bool {
    resizes(p) && (src.0 == 0 || src.1 == 0)
}

/// A resize is asked whose buffers would exceed `MAX_PIXELS`.
pub open spec fn resizes_too_far(src: (u32, u32), p: ImageParams) -> bool {
    let t = target_dims(src.0, src.1, p.w, p.h);
    resizes(p) && !resizes_empty(src, p) && !(fits(src.0, t.1) && fits(t.0, t.1))
}

/// Applies the resize policy to a decoded image. Quality alone leaves the
/// image as it is.
pub fn transform(src: Raster, params: &ImageParams) -> (r: Result<Raster, ServeError>)
    requires
        as_decoded(src@),
    ensures
        !resizes(*params) ==> r == Ok::<Raster, ServeError>(src),
        match r {
            Ok(out) => !resizes_empty((src@.width, src@.height), *params)
                && !resizes_too_far((src@.width, src@.height), *params)
                && out@ == (RasterView {
                    width: target_dims(src@.width, src@.height, params.w, params.h).0,
                    height: target_dims(src@.width, src@.height, params.w, params.h).1,
                    ..src@
                }),
            Err(e) => (resizes_empty((src@.width, src@.height), *params)
                && error_is(e, Fault::Decode("image has no pixels"@)))
                || (resizes_too_far((src@.width, src@.height), *params) && e is TooLarge),
        },
{
    if params.w.is_none() && params.h.is_none() {
        return Ok(src);
    }
    if src.width() == 0 || src.height() == 0 {
        return Err(ServeError::DecodeFailed(String::from_str("image has no pixels")));
    }
    let (w, h) = target_dimensions(src.width(), src.height(), params.w, params.h);
    if !buffer_fits(src.width(), h) || !buffer_fits(w, h) {
        return Err(ServeError::TooLarge);
    }
    Ok(resize_exact(&src, w, h))
}

/// How a transformed image is encoded.
#[derive(Clone, Copy, Debug, PartialEq, Eq, Structural)]
pub enum EncodePlan {
    /// The format's own default settings.
    Default(OutputFormat),
    /// JPEG from 8-bit RGBA pixels at this quality.
    JpegQuality(u8),
}

/// JPEG with a quality is encoded at that quality, capped at 100; every
/// other case uses the format's defaults, and ignores the quality.
pub open spec fn plan_of(format: OutputFormat, quality: Option<u8>) -> EncodePlan {
    match (format, quality) {
        (OutputFormat::Jpeg, Some(q)) => EncodePlan::JpegQuality(if q > 100 { 100 } else { q }),
        _ => EncodePlan::Default(format),
    }
}

pub fn encode_plan(format: OutputFormat, quality: Option<u8>) -> (r: EncodePlan)
    ensures
        r == plan_of(format, quality),
{
    match (format, quality) {
        (OutputFormat::Jpeg, Some(q)) => EncodePlan::JpegQuality(if q > 100 { 100 } else { q }),
        _ => EncodePlan::Default(format),
    }
}

/// A JPEG quality above 100 encodes exactly as 100 does.
pub proof fn lemma_quality_capped(q: u8)
    requires
        q >= 100,
    ensures
        plan_of(OutputFormat::Jpeg, Some(q)) == plan_of(OutputFormat::Jpeg, Some(100u8)),
{
}

/// Whether an image of this size can be handed to the codec of a plan.
pub open spec fn encodable(w: u32, h: u32, plan: EncodePlan) -> bool {
    fits(w, h) && (plan == EncodePlan::Default(OutputFormat::Bmp) ==> bmp_fits(w, h))
}

/// What the codec of a plan gives for an image.
pub open spec fn encode_outcome(v: RasterView, plan: EncodePlan) -> Result<Seq<u8>, Seq<char>> {
    match plan {
        EncodePlan::JpegQuality(q) => jpeg_outcome(v.bytes, v.name, v.width, v.height, q),
        EncodePlan::Default(f) => default_outcome(v.bytes, v.name, v.width, v.height, f),
    }
}

/// Why rendering fails, as a value.
pub enum Fault {
    Decode(Seq<char>),
    Encode(Seq<char>),
    TooLarge,
}

/// An error is the one a fault describes, with its text.
pub open spec fn error_is(e: ServeError, f: Fault) -> bool {
    match (e, f) {
        (ServeError::DecodeFailed(m), Fault::Decode(t)) => m@ == t,
        (ServeError::EncodeFailed(m), Fault::Encode(t)) => m@ == t,
        (ServeError::TooLarge, Fault::TooLarge) => true,
        _ => false,
    }
}

/// A result is the outcome: the same bytes, or the error the fault describes.
pub open spec fn agrees(r: Result<Vec<u8>, ServeError>, o: Result<Seq<u8>, Fault>) -> bool {
    match (r, o) {
        (Ok(b), Ok(s)) => b@ == s,
        (Err(e), Err(f)) => error_is(e, f),
        _ => false,
    }
}

pub open spec fn encode_result(v: RasterView, plan: EncodePlan) -> Result<Seq<u8>, Fault> {
    if !encodable(v.width, v.height, plan) {
        Err(Fault::TooLarge)
    } else {
        match encode_outcome(v, plan) {
            Ok(b) => Ok(b),
            Err(t) => Err(Fault::Encode(t)),
        }
    }
}

/// The whole pipeline: decode, apply the resize policy, encode by the plan
/// for `format` and the requested quality.
pub open spec fn render_result(bytes: Seq<u8>, name: Seq<char>, p: ImageParams, format: OutputFormat) -> Result<Seq<u8>, Fault> {
    match decode_outcome(bytes, name) {
        Err(t) => Err(Fault::Decode(t)),
        Ok(dims) => if resizes_empty(dims, p) {
            Err(Fault::Decode("image has no pixels"@))
        } else if resizes_too_far(dims, p) {
            Err(Fault::TooLarge)
        } else {
            let t = target_dims(dims.0, dims.1, p.w, p.h);
            encode_result(RasterView { width: t.0, height: t.1, bytes, name }, plan_of(format, p.q))
        },
    }
}

/// Rendering is a function of its inputs: two renders of the same original,
/// name, parameters and format agree, byte for byte or error for error.
pub proof fn lemma_render_repeatable(
    r1: Result<Vec<u8>, ServeError>,
    r2: Result<Vec<u8>, ServeError>,
    bytes: Seq<u8>,
    name: Seq<char>,
    p: ImageParams,
    format: OutputFormat,
)
    requires
        agrees(r1, render_result(bytes, name, p, format)),
        agrees(r2, render_result(bytes, name, p, format)),
    ensures
        r1 is Ok <==> r2 is Ok,
        r1 is Ok ==> r1->Ok_0@ == r2->Ok_0@,
{
}

/// Encodes an image by a plan.
pub fn encode(src: &Raster, plan: EncodePlan) -> (r: Result<Vec<u8>, ServeError>)
    ensures
        agrees(r, encode_result(src@, plan)),
{
    if !buffer_fits(src.width(), src.height()) {
        return Err(ServeError::TooLarge);
    }
    let encoded = match plan {
        EncodePlan::JpegQuality(q) => encode_jpeg_with_quality(src, q),
        EncodePlan::Default(format) => {
            if format == OutputFormat::Bmp && !bmp_size_ok(src.width(), src.height()) {
                return Err(ServeError::TooLarge);
            }
            encode_default(src, format)
        },
    };
    match encoded {
        Ok(bytes) => Ok(bytes),
        Err(text) => Err(ServeError::EncodeFailed(text)),
    }
}

fn bmp_size_ok(w: u32, h: u32) -> (r: bool)
    ensures
        r == bmp_fits(w, h),
{
    w <= u32::MAX / 4 && h <= u32::MAX / 3
}

/// Decodes an original (in the format its file name selects), applies the
/// resize policy, and encodes the result by the plan for `format` and the
/// requested quality.
pub fn render(original: &[u8], file_name: &str, params: &ImageParams, format: OutputFormat) -> (r: Result<Vec<u8>, ServeError>)
    ensures
        agrees(r, render_result(original@, file_name@, *params, format)),
{
    let decoded = match decode(original, file_name) {
        Ok(img) => img,
        Err(text) => return Err(ServeError::DecodeFailed(text)),
    };
    let resized = match transform(decoded, params) {
        Ok(img) => img,
        Err(e) => return Err(e),
    };
    encode(&resized, encode_plan(format, params.q))
}

} // verus!
