//! Decoded images as the viewer holds them: a single picture or the frames
//! of an animation.
//!
//! The program reads the file; the library decodes its bytes and sorts the
//! decoder's failures into the viewer's errors.
use crate::utils::errors::ShImagesError;
use crate::utils::text::ascii_lower;
use image::{ColorType, DynamicImage, GenericImageView, ImageError, ImageFormat, ImageReader};
use std::io;
use std::time::Duration;
use vstd::prelude::*;

verus! {

#[verifier::external_type_specification]
#[verifier::external_body]
pub struct ExDynamicImage(DynamicImage);

#[verifier::external_type_specification]
pub struct ExColorType(ColorType);

#[verifier::external_type_specification]
pub struct ExImageFormat(ImageFormat);

/// Width and height of an image.
pub uninterp spec fn image_dimensions(img: DynamicImage) -> (u32, u32);

/// The colour type (channels and bit depth) of an image.
pub uninterp spec fn image_color(img: DynamicImage) -> ColorType;

/// Bytes per pixel of a colour type (the table of
/// `ColorType::bytes_per_pixel`).
pub open spec fn color_bytes_per_pixel(c: ColorType) -> u8 {
    match c {
        ColorType::L8 => 1,
        ColorType::L16 | ColorType::La8 => 2,
        ColorType::Rgb8 => 3,
        ColorType::Rgba8 | ColorType::La16 => 4,
        ColorType::Rgb16 => 6,
        ColorType::Rgba16 => 8,
        ColorType::Rgb32F => 12,
        ColorType::Rgba32F => 16,
        _ => arbitrary(),
    }
}

/// The size of the cut-out at `(x, y)` of size `w` by `h` from an image of
/// `iw` by `ih`: the corner is moved inside the image and the size cut to
/// what remains (`crop_imm`'s clamping).
pub open spec fn crop_size(iw: u32, ih: u32, x: u32, y: u32, w: u32, h: u32) -> (u32, u32) {
    let x0 = if x < iw { x } else { iw };
    let y0 = if y < ih { y } else { ih };
    (if w < iw - x0 { w } else { (iw - x0) as u32 }, if h < ih - y0 { h } else { (ih - y0) as u32 })
}

/// The image that `DynamicImage::thumbnail(nw, nh)` makes of `img`.
pub uninterp spec fn image_thumbnail(img: DynamicImage, nw: u32, nh: u32) -> DynamicImage;

/// The image that `DynamicImage::crop_imm(x, y, w, h)` makes of `img`.
pub uninterp spec fn image_crop(img: DynamicImage, x: u32, y: u32, w: u32, h: u32) -> DynamicImage;

/// `GenericImageView::dimensions` of a `DynamicImage`: its width and height.
#[verifier::external_body]
pub(crate) fn dimensions_of(img: &DynamicImage) -> (r: (u32, u32))
    ensures
        r == image_dimensions(*img),
{
    img.dimensions()
}

/// `DynamicImage::color`: the colour type of the image.
#[verifier::external_body]
pub(crate) fn color_of(img: &DynamicImage) -> (r: ColorType)
    ensures
        r == image_color(*img),
{
    img.color()
}

/// `ColorType::bytes_per_pixel`.
#[verifier::external_body]
pub(crate) fn bytes_per_pixel(c: ColorType) -> (r: u8)
    ensures
        r == color_bytes_per_pixel(c),
{
    c.bytes_per_pixel()
}

/// `DynamicImage::clone`: a copy of the pixel buffer, the same image as
/// `img`.
#[verifier::external_body]
pub(crate) fn clone_image(img: &DynamicImage) -> (r: DynamicImage)
    ensures
        r == *img,
{
    img.clone()
}

/// `DynamicImage::thumbnail(nw, nh)`: the image scaled down to fit in
/// `nw` by `nh`, keeping its aspect ratio.
#[verifier::external_body]
pub(crate) fn thumbnail_of(img: &DynamicImage, nw: u32, nh: u32) -> (r: DynamicImage)
    ensures
        r == image_thumbnail(*img, nw, nh),
{
    img.thumbnail(nw, nh)
}

/// `DynamicImage::crop_imm(x, y, w, h)`: the sub-image at `(x, y)` of size
/// `w` by `h`, clamped to the image (see `crop_size`), in the same colour
/// type.
#[verifier::external_body]
pub(crate) fn crop_of(img: &DynamicImage, x: u32, y: u32, w: u32, h: u32) -> (r: DynamicImage)
    ensures
        r == image_crop(*img, x, y, w, h),
        image_dimensions(r) == crop_size(image_dimensions(*img).0, image_dimensions(*img).1, x, y, w, h),
        image_color(r) == image_color(*img),
{
    img.crop_imm(x, y, w, h)
}

/// What decoding an image's bytes gives: the image, or the decoder's
/// failure sorted by kind (reading, an unsupported format, anything else)
/// with its message.
pub enum DecodeOutcome {
    Decoded(DynamicImage),
    Io(io::Error),
    Unsupported(String),
    Other(String),
}

/// The format that an extension names, without ASCII case (the table of
/// `ImageFormat::from_extension`).
pub open spec fn extension_format(ext: Seq<char>) -> Option<ImageFormat> {
    let e = ext.map_values(|c: char| ascii_lower(c));
    if e == "avif"@ {
        Some(ImageFormat::Avif)
    } else if e == "jpg"@ || e == "jpeg"@ || e == "jfif"@ {
        Some(ImageFormat::Jpeg)
    } else if e == "png"@ || e == "apng"@ {
        Some(ImageFormat::Png)
    } else if e == "gif"@ {
        Some(ImageFormat::Gif)
    } else if e == "webp"@ {
        Some(ImageFormat::WebP)
    } else if e == "tif"@ || e == "tiff"@ {
        Some(ImageFormat::Tiff)
    } else if e == "tga"@ {
        Some(ImageFormat::Tga)
    } else if e == "dds"@ {
        Some(ImageFormat::Dds)
    } else if e == "bmp"@ {
        Some(ImageFormat::Bmp)
    } else if e == "ico"@ {
        Some(ImageFormat::Ico)
    } else if e == "hdr"@ {
        Some(ImageFormat::Hdr)
    } else if e == "exr"@ {
        Some(ImageFormat::OpenExr)
    } else if e == "pbm"@ || e == "pam"@ || e == "ppm"@ || e == "pgm"@ || e == "pnm"@ {
        Some(ImageFormat::Pnm)
    } else if e == "ff"@ {
        Some(ImageFormat::Farbfeld)
    } else if e == "qoi"@ {
        Some(ImageFormat::Qoi)
    } else {
        None
    }
}


/// `ImageFormat::from_extension`: the format an extension names, if any
/// (see `extension_format`).
#[verifier::external_body]
fn format_of_extension(ext: &str) -> (r: Option<ImageFormat>)
    ensures
        r == extension_format(ext@),
{
    ImageFormat::from_extension(ext)
}

/// `outcome` is an outcome that the `image` crate's reader can give for the
/// image file `bytes` with the format hint `hint`: a reader over the bytes
/// with that format (or none), then `ImageReader::with_guessed_format` and
/// `ImageReader::decode`, the error sorted by kind. This is a relation, not
/// a function of the input: both steps also consult the format-detection
/// and decoding hooks that any code in the process may register, so the
/// same input may decode differently.
pub uninterp spec fn decoder_outcome(hint: Option<ImageFormat>, bytes: Seq<u8>, outcome: DecodeOutcome) -> bool;

/// `ImageReader::with_format(bytes, format)`, then `with_guessed_format`
/// and `decode`; the error converted variant by variant. The outcome is one
/// the reader can give for this input (see `decoder_outcome`); which one is
/// the reader's.
#[verifier::external_body]
fn decode_as(format: ImageFormat, bytes: &[u8]) -> (r: DecodeOutcome)
    ensures
        decoder_outcome(Some(format), bytes@, r),
{
    let reader = ImageReader::with_format(io::Cursor::new(bytes), format);
    match reader.with_guessed_format() {
        Err(e) => DecodeOutcome::Io(e),
        Ok(reader) => match reader.decode() {
            Ok(image) => DecodeOutcome::Decoded(image),
            Err(ImageError::IoError(e)) => DecodeOutcome::Io(e),
            Err(ImageError::Unsupported(u)) => DecodeOutcome::Unsupported(u.to_string()),
            Err(other) => DecodeOutcome::Other(other.to_string()),
        },
    }
}

/// `ImageReader::new(bytes)` (no format), then `with_guessed_format` and
/// `decode`; the error converted variant by variant. The outcome is one the
/// reader can give for this input (see `decoder_outcome`).
#[verifier::external_body]
fn decode_guessed(bytes: &[u8]) -> (r: DecodeOutcome)
    ensures
        decoder_outcome(None, bytes@, r),
{
    let reader = ImageReader::new(io::Cursor::new(bytes));
    match reader.with_guessed_format() {
        Err(e) => DecodeOutcome::Io(e),
        Ok(reader) => match reader.decode() {
            Ok(image) => DecodeOutcome::Decoded(image),
            Err(ImageError::IoError(e)) => DecodeOutcome::Io(e),
            Err(ImageError::Unsupported(u)) => DecodeOutcome::Unsupported(u.to_string()),
            Err(other) => DecodeOutcome::Other(other.to_string()),
        },
    }
}

/// The format hint for a file with extension `ext`: the format the
/// extension names, if any.
pub open spec fn decode_hint_spec(ext: Option<&str>) -> Option<ImageFormat> {
    match ext {
        Some(e) => extension_format(e@),
        None => None,
    }
}

/// The format hint for a file with extension `ext`.
pub fn decode_hint(ext: Option<&str>) -> (r: Option<ImageFormat>)
    ensures
        r == decode_hint_spec(ext),
{
    match ext {
        Some(e) => format_of_extension(e),
        None => None,
    }
}

/// Decodes `bytes` with the format hint `hint` handed to the reader as is.
pub fn decode_with_hint(hint: Option<ImageFormat>, bytes: &[u8]) -> (r: DecodeOutcome)
    ensures
        decoder_outcome(hint, bytes@, r),
{
    match hint {
        Some(f) => decode_as(f, bytes),
        None => decode_guessed(bytes),
    }
}

/// Decodes the bytes of an image file whose extension is `ext` into a still
/// image: the format the extension names is the reader's hint, and the
/// content may override it. A reading failure is an I/O error, an unknown or
/// unsupported format an unsupported-format error, any other failure a
/// decoding error, each with the decoder's message (see
/// `loaded_from_outcome`). Which outcome the reader gives for that input is
/// its own.
pub fn decode_image(ext: Option<&str>, bytes: &[u8]) -> (r: Result<LoadedImage, ShImagesError>)
    ensures
        exists|o: DecodeOutcome|
            decoder_outcome(decode_hint_spec(ext), bytes@, o) && outcome_result(o, r),
{
    let hint = decode_hint(ext);
    let outcome = decode_with_hint(hint, bytes);
    let ghost o = outcome;
    let r = loaded_from_outcome(outcome);
    assert(decoder_outcome(decode_hint_spec(ext), bytes@, o) && outcome_result(o, r));
    r
}

/// `r` is what the viewer makes of the decoding outcome `o`: the decoded
/// image as a still image, else the error of the failure's kind with its
/// message.
pub open spec fn outcome_result(o: DecodeOutcome, r: Result<LoadedImage, ShImagesError>) -> bool {
    match o {
        DecodeOutcome::Decoded(img) => r == Ok::<LoadedImage, ShImagesError>(
            LoadedImage::Static(img),
        ),
        DecodeOutcome::Io(e) => r == Err::<LoadedImage, ShImagesError>(ShImagesError::Io(e)),
        DecodeOutcome::Unsupported(m) => r matches Err(ShImagesError::UnsupportedFormat(s)) && s@
            == m@,
        DecodeOutcome::Other(m) => r matches Err(ShImagesError::Decode(s)) && s@ == m@,
    }
}

/// Sorts a decoding outcome into the viewer's result: a reading failure is
/// an I/O error, an unsupported format an unsupported-format error, any
/// other failure a decoding error.
pub fn loaded_from_outcome(outcome: DecodeOutcome) -> (r: Result<LoadedImage, ShImagesError>)
    ensures
        outcome_result(outcome, r),
{
    match outcome {
        DecodeOutcome::Decoded(img) => Ok(LoadedImage::Static(img)),
        DecodeOutcome::Io(e) => Err(ShImagesError::Io(e)),
        DecodeOutcome::Unsupported(m) => Err(ShImagesError::UnsupportedFormat(m)),
        DecodeOutcome::Other(m) => Err(ShImagesError::Decode(m)),
    }
}

/// One frame of an animation: a fully composed buffer and how long it shows.
pub struct AnimatedFrame {
    pub image: DynamicImage,
    pub delay: Duration,
}

/// An animation (GIF): its frames in playback order and its total duration.
///
/// The loader gives non-empty `frames` and a positive `total_duration`.
pub struct AnimatedImage {
    pub frames: Vec<AnimatedFrame>,
    pub total_duration: Duration,
}

/// A decoded image: still or animated.
pub enum LoadedImage {
    Static(DynamicImage),
    Animated(AnimatedImage),
}

/// The first frame of `img` (the whole picture for a still image).
pub open spec fn first_frame_spec(img: LoadedImage) -> DynamicImage {
    match img {
        LoadedImage::Static(i) => i,
        LoadedImage::Animated(a) => a.frames@[0].image,
    }
}

/// `img` is an animation without frames.
pub open spec fn is_empty_animation(img: LoadedImage) -> bool {
    match img {
        LoadedImage::Static(_) => false,
        LoadedImage::Animated(a) => a.frames@.len() == 0,
    }
}

impl LoadedImage {
    /// `true` for an animation.
    pub fn is_animated(&self) -> (r: bool)
        ensures
            r == (*self is Animated),
    {
        match self {
            LoadedImage::Static(_) => false,
            LoadedImage::Animated(_) => true,
        }
    }

    /// The first frame (the whole picture for a still image).
    pub fn first_frame(&self) -> (r: &DynamicImage)
        requires
            !is_empty_animation(*self),
        ensures
            *r == first_frame_spec(*self),
    {
        match self {
            LoadedImage::Static(img) => img,
            LoadedImage::Animated(anim) => &anim.frames[0].image,
        }
    }

    /// Width and height of the first frame (all frames share them).
    pub fn dimensions(&self) -> (r: (u32, u32))
        requires
            !is_empty_animation(*self),
        ensures
            r == image_dimensions(first_frame_spec(*self)),
    {
        dimensions_of(self.first_frame())
    }
}

impl From<DynamicImage> for LoadedImage {
    fn from(image: DynamicImage) -> (r: Self) {
        LoadedImage::Static(image)
    }
}

impl vstd::std_specs::convert::FromSpecImpl<DynamicImage> for LoadedImage {
    open spec fn obeys_from_spec() -> bool {
        true
    }

    open spec fn from_spec(v: DynamicImage) -> LoadedImage {
        LoadedImage::Static(v)
    }
}

/// Law: a decoded image becomes a still image, and each decoding failure
/// becomes the viewer's error of its kind with the decoder's message: a
/// reading failure an I/O error, an unsupported format an
/// unsupported-format error, anything else a decoding error.
pub proof fn law_outcomes_keep_their_kind(o: DecodeOutcome, r: Result<LoadedImage, ShImagesError>)
    requires
        outcome_result(o, r),
    ensures
        o matches DecodeOutcome::Decoded(img) ==> r matches Ok(LoadedImage::Static(i)) && i == img,
        o matches DecodeOutcome::Io(e) ==> r matches Err(ShImagesError::Io(x)) && x == e,
        o matches DecodeOutcome::Unsupported(m) ==> r matches Err(ShImagesError::UnsupportedFormat(x))
            && x@ == m@,
        o matches DecodeOutcome::Other(m) ==> r matches Err(ShImagesError::Decode(x)) && x@ == m@,
{
}

} // verus!
