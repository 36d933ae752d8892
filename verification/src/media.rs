//! Images and link previews: what may be shown, and what is known of each.
use vstd::prelude::*;
use vstd::string::{StringExecFns, StringSliceAdditionalSpecFns};
use vstd::utf8::encode_utf8;
use crate::collections::{TextMap, TextSet};
use crate::encoding::{base64url, encode_base64url, is_base64url_char};
use crate::preview::{LinkPreview, LinkPreviewView};
use crate::seqs::first_index;
use crate::text::{
    alphanumeric, chars_of, contains, is_alphanumeric, join3, lemma_split_on_len,
    lowercase, opt_text, rsplit_once, same_text, split_on, split_once, str_contains,
    str_rsplit_once, str_split, str_split_once, text_of, texts, to_lowercase, to_uppercase,
    uppercase,
};

verus! {

/// How many bytes an inline image may have.
pub const MAX_INLINE_IMAGE_BYTES: u64 = 20_971_520;

/// How wide and how high an inline image may be.
pub const MAX_INLINE_IMAGE_DIMENSION: u32 = 8192;

/// How many pixels an inline image may have.
pub const MAX_INLINE_IMAGE_PIXELS: u64 = 25_000_000;

/// How many images are kept.
pub const IMAGE_CACHE_MAX: usize = 200;

/// How many link previews are kept.
pub const PREVIEW_CACHE_MAX: usize = 200;

/// How many times the size of a file must stay the same before it is read.
pub const STABLE_SAMPLES: u32 = 10;

/// The largest edge of an avatar, in pixels.
pub const MAX_AVATAR_EDGE: u32 = 16_384;

/// How many times smaller an avatar may become with its even colours assured.
pub const MAX_AVATAR_REDUCTION: u32 = 128;

// ---------------------------------------------------------------------------
// What the image library says
// ---------------------------------------------------------------------------

/// The width and height that the image reader finds in the header of encoded
/// bytes, or the words of its error.
pub uninterp spec fn image_dimensions(bytes: Seq<u8>) -> Result<(u32, u32), Seq<char>>;

/// What the decoders make of encoded bytes: the width, the height and the
/// pixels at eight bits for each channel, and the pixels at sixteen bits where
/// the bytes have as many; or the words of the error.
pub uninterp spec fn image_decoded(bytes: Seq<u8>) -> Result<
    (u32, u32, Seq<u8>, Option<Seq<u16>>),
    Seq<char>,
>;

/// Whether encoded bytes decode to an image.
pub open spec fn image_decodes(bytes: Seq<u8>) -> bool {
    image_decoded(bytes) is Ok
}

/// The pixels that encoded bytes decode to, row by row, with four bytes for
/// each.
pub open spec fn image_pixels(bytes: Seq<u8>) -> Seq<u8> {
    (image_decoded(bytes)->Ok_0).2
}

/// The PNG file of an image. None where the pixels do not fill it.
pub uninterp spec fn png_file(width: u32, height: u32, rgba: Seq<u8>) -> Option<
    Result<Seq<u8>, Seq<char>>,
>;

pub open spec fn dimensions_view(dimensions: Result<(u32, u32), String>) -> Result<
    (u32, u32),
    Seq<char>,
> {
    match dimensions {
        Ok(d) => Ok(d),
        Err(e) => Err(e@),
    }
}

/// `image::ImageReader` with a guessed format, then `into_dimensions`.
#[verifier::external_body]
pub(crate) fn read_dimensions(bytes: &[u8]) -> (dimensions: Result<(u32, u32), String>)
    ensures
        dimensions_view(dimensions) == image_dimensions(bytes@),
{
    match image::ImageReader::new(std::io::Cursor::new(bytes)).with_guessed_format() {
        Ok(reader) => match reader.into_dimensions() {
            Ok(dimensions) => Ok(dimensions),
            Err(error) => Err(error.to_string()),
        },
        Err(error) => Err(error.to_string()),
    }
}

pub open spec fn decoded_view(
    decoded: Result<(u32, u32, Vec<u8>, Option<Vec<u16>>), String>,
) -> Result<(u32, u32, Seq<u8>, Option<Seq<u16>>), Seq<char>> {
    match decoded {
        Ok((width, height, rgba, fine)) => Ok((width, height, rgba@, fine_view(fine))),
        Err(error) => Err(error@),
    }
}

pub open spec fn fine_view(fine: Option<Vec<u16>>) -> Option<Seq<u16>> {
    match fine {
        Some(samples) => Some(samples@),
        None => None,
    }
}

/// `image::load_from_memory`, then `DynamicImage::to_rgba8` and, for an image of
/// sixteen bits, `to_rgba16`: the width, the height and the pixels, or the words
/// of the error. There are four samples for each pixel. The size is the one in
/// the header, since both are read by the same decoder.
#[verifier::external_body]
pub(crate) fn decode_rgba(bytes: &[u8]) -> (decoded: Result<
    (u32, u32, Vec<u8>, Option<Vec<u16>>),
    String,
>)
    ensures
        decoded_view(decoded) == image_decoded(bytes@),
        match decoded {
            Ok((width, height, rgba, fine)) => {
                &&& image_dimensions(bytes@) == Ok::<_, Seq<char>>((width, height))
                &&& rgba@.len() == width * height * 4
                &&& fine is Some ==> fine->0@.len() == width * height * 4
            },
            Err(_) => true,
        },
{
    let image = match image::load_from_memory(bytes) {
        Ok(image) => image,
        Err(error) => return Err(error.to_string()),
    };
    let fine = match image.color() {
        image::ColorType::L16 | image::ColorType::La16 => Some(image.to_rgba16().into_raw()),
        image::ColorType::Rgb16 | image::ColorType::Rgba16 => Some(image.to_rgba16().into_raw()),
        _ => None,
    };
    Ok((image.width(), image.height(), image.to_rgba8().into_raw(), fine))
}

/// Where the sample `k` of a square part of an image stands in the whole image,
/// at four samples for each pixel, row by row.
pub open spec fn square_source(width: u32, left: u32, top: u32, side: u32, k: int) -> int {
    ((top + k / (4 * side)) * width + left + (k / 4) % (side as int)) * 4 + k % 4
}

/// The pixels of a square part of an image.
pub open spec fn square_part<A>(width: u32, rgba: Seq<A>, left: u32, top: u32, side: u32) -> Seq<A> {
    Seq::new(
        (side * side * 4) as nat,
        |k: int| rgba[square_source(width, left, top, side, k)],
    )
}

/// `image::RgbaImage::from_raw`, then `DynamicImage::crop_imm`, on eight-bit
/// RGBA pixels: the pixels of a part that lies inside the image, unchanged.
#[verifier::external_body]
pub(crate) fn crop_square(width: u32, height: u32, rgba: Vec<u8>, left: u32, top: u32, side: u32) -> (part:
    Vec<u8>)
    requires
        rgba@.len() == width * height * 4,
        0 < side,
        left + side <= width,
        top + side <= height,
    ensures
        part@ == square_part(width, rgba@, left, top, side),
{
    let image = image::RgbaImage::from_raw(width, height, rgba).unwrap();
    image::DynamicImage::ImageRgba8(image)
        .crop_imm(left, top, side, side)
        .to_rgba8()
        .into_raw()
}

/// `image::ImageBuffer::from_raw`, then `DynamicImage::crop_imm`, on RGBA pixels
/// of sixteen bits: the pixels of a part that lies inside the image, unchanged.
#[verifier::external_body]
pub(crate) fn crop_fine_square(
    width: u32,
    height: u32,
    rgba: Vec<u16>,
    left: u32,
    top: u32,
    side: u32,
) -> (part: Vec<u16>)
    requires
        rgba@.len() == width * height * 4,
        0 < side,
        left + side <= width,
        top + side <= height,
    ensures
        part@ == square_part(width, rgba@, left, top, side),
{
    let image = image::ImageBuffer::from_raw(width, height, rgba).unwrap();
    image::DynamicImage::ImageRgba16(image)
        .crop_imm(left, top, side, side)
        .to_rgba16()
        .into_raw()
}

/// Whether every pixel has the same value in a channel.
pub open spec fn even_channel<A>(rgba: Seq<A>, channel: int, value: A) -> bool {
    forall|i: int| 0 <= i < rgba.len() && i % 4 == channel ==> #[trigger] rgba[i] == value
}

/// Whether a channel that is even in one image is even in another, with the
/// same value.
pub open spec fn keeps_even_channels(before: Seq<u8>, after: Seq<u8>) -> bool {
    forall|channel: int, value: u8|
        0 <= channel < 4 && #[trigger] even_channel(before, channel, value) ==> even_channel(
            after,
            channel,
            value,
        )
}

/// `image::DynamicImage::resize_exact` with the Lanczos filter, on eight-bit
/// RGBA pixels: four bytes for each pixel of the new square. A square that has
/// the new size already stays as it is. Each value of a channel is a sum of
/// values of that channel, with weights that are divided by their own sum, and
/// is rounded to a whole number: a channel that is the same everywhere stays
/// the same. The bound on the sides keeps the number of weights, and with it
/// what rounding adds up to, small. Nothing is said of the pixels otherwise: the
/// filter computes with floating-point sines, whose last digits differ between
/// machines.
#[verifier::external_body]
pub(crate) fn scale_square(side: u32, rgba: Vec<u8>, edge: u32) -> (pixels: Vec<u8>)
    requires
        rgba@.len() == side * side * 4,
        0 < side,
        0 < edge <= MAX_AVATAR_EDGE,
    ensures
        pixels@.len() == edge * edge * 4,
        side == edge ==> pixels@ == rgba@,
        side <= MAX_AVATAR_REDUCTION * edge ==> keeps_even_channels(rgba@, pixels@),
{
    let image = image::RgbaImage::from_raw(side, side, rgba).unwrap();
    image::DynamicImage::ImageRgba8(image)
        .resize_exact(edge, edge, image::imageops::FilterType::Lanczos3)
        .to_rgba8()
        .into_raw()
}

/// A sample of sixteen bits, rounded to eight.
pub open spec fn eight_bits(sample: u16) -> u8 {
    ((sample + 128) / 257) as u8
}

/// Whether a channel that is even in an image of sixteen bits has its value in
/// every pixel of another image, but for a step up or down.
pub open spec fn nearly_keeps_even_channels(before: Seq<u16>, after: Seq<u8>) -> bool {
    forall|channel: int, value: u16|
        0 <= channel < 4 && #[trigger] even_channel(before, channel, value) ==> forall|i: int|
            0 <= i < after.len() && i % 4 == channel ==> -1 <= (#[trigger] after[i]) - eight_bits(
                value,
            ) <= 1
}

/// `image::DynamicImage::resize_exact` with the Lanczos filter on RGBA pixels of
/// sixteen bits, then `to_rgba8`: four bytes for each pixel of the new square. A
/// square that has the new size already is rounded sample by sample. A channel
/// that is the same everywhere stays so, as in `scale_square`; among so many
/// more values, what the sums lose may reach the next one of eight bits. Nothing
/// is said of the pixels otherwise, for the reason given there.
#[verifier::external_body]
pub(crate) fn scale_fine_square(side: u32, rgba: Vec<u16>, edge: u32) -> (pixels: Vec<u8>)
    requires
        rgba@.len() == side * side * 4,
        0 < side,
        0 < edge <= MAX_AVATAR_EDGE,
    ensures
        pixels@.len() == edge * edge * 4,
        side == edge ==> pixels@ == rgba@.map_values(|sample: u16| eight_bits(sample)),
        side <= MAX_AVATAR_REDUCTION * edge ==> nearly_keeps_even_channels(rgba@, pixels@),
{
    let image = image::ImageBuffer::from_raw(side, side, rgba).unwrap();
    image::DynamicImage::ImageRgba16(image)
        .resize_exact(edge, edge, image::imageops::FilterType::Lanczos3)
        .to_rgba8()
        .into_raw()
}

pub open spec fn png_view(png: Option<Result<Vec<u8>, String>>) -> Option<
    Result<Seq<u8>, Seq<char>>,
> {
    match png {
        Some(Ok(bytes)) => Some(Ok(bytes@)),
        Some(Err(error)) => Some(Err(error@)),
        None => None,
    }
}

/// `image::RgbaImage::from_raw`, then `DynamicImage::write_to` in the PNG
/// format. The encoder panics on more bytes than the pixels have.
#[verifier::external_body]
pub(crate) fn encode_png(width: u32, height: u32, rgba: Vec<u8>) -> (png: Option<
    Result<Vec<u8>, String>,
>)
    requires
        rgba@.len() <= width * height * 4,
    ensures
        png_view(png) == png_file(width, height, rgba@),
{
    let image = image::RgbaImage::from_raw(width, height, rgba)?;
    let mut png = Vec::new();
    let written = image::DynamicImage::ImageRgba8(image)
        .write_to(&mut std::io::Cursor::new(&mut png), image::ImageFormat::Png);
    match written {
        Ok(()) => Some(Ok(png)),
        Err(error) => Some(Err(error.to_string())),
    }
}

// ---------------------------------------------------------------------------
// Which images are shown
// ---------------------------------------------------------------------------

pub open spec fn dimensions_allowed(width: u32, height: u32) -> bool {
    width <= MAX_INLINE_IMAGE_DIMENSION && height <= MAX_INLINE_IMAGE_DIMENSION && width * height
        <= MAX_INLINE_IMAGE_PIXELS
}

pub fn inline_image_dimensions_allowed(width: u32, height: u32) -> (yes: bool)
    ensures
        yes == dimensions_allowed(width, height),
{
    assert(width <= 8192 && height <= 8192 ==> width * height <= 8192 * 8192) by (nonlinear_arith)
        requires
            width >= 0,
            height >= 0,
    ;
    width <= MAX_INLINE_IMAGE_DIMENSION && height <= MAX_INLINE_IMAGE_DIMENSION && width as u64
        * height as u64 <= MAX_INLINE_IMAGE_PIXELS
}

/// What is said of an image with dimensions that were or were not read.
pub open spec fn dimensions_verdict(dimensions: Result<(u32, u32), Seq<char>>) -> Result<
    (),
    Seq<char>,
> {
    match dimensions {
        Ok((width, height)) => if dimensions_allowed(width, height) {
            Ok(())
        } else {
            Err("Image dimensions are too large for an inline preview"@)
        },
        Err(error) => Err(error),
    }
}

pub open spec fn unit_view(result: Result<(), String>) -> Result<(), Seq<char>> {
    match result {
        Ok(()) => Ok(()),
        Err(error) => Err(error@),
    }
}

pub fn check_dimensions(dimensions: Result<(u32, u32), String>) -> (verdict: Result<(), String>)
    ensures
        unit_view(verdict) == dimensions_verdict(dimensions_view(dimensions)),
{
    match dimensions {
        Ok((width, height)) => if inline_image_dimensions_allowed(width, height) {
            Ok(())
        } else {
            Err("Image dimensions are too large for an inline preview".to_owned())
        },
        Err(error) => Err(error),
    }
}

pub fn validate_inline_image_dimensions(bytes: &[u8]) -> (verdict: Result<(), String>)
    ensures
        unit_view(verdict) == dimensions_verdict(image_dimensions(bytes@)),
{
    check_dimensions(read_dimensions(bytes))
}

/// Whether bytes are a whole image that may be shown.
pub open spec fn image_is_complete(bytes: Seq<u8>) -> bool {
    dimensions_verdict(image_dimensions(bytes)) is Ok && image_decodes(bytes)
}

pub fn matrix_image_bytes_complete(bytes: &[u8]) -> (yes: bool)
    ensures
        yes == image_is_complete(bytes@),
{
    validate_inline_image_dimensions(bytes).is_ok() && decode_rgba(bytes).is_ok()
}

/// A decoded image: four samples for each pixel, row by row.
#[derive(Debug)]
pub struct Picture {
    pub width: u32,
    pub height: u32,
    /// The samples at eight bits.
    pub rgba: Vec<u8>,
    /// The samples at sixteen bits, where the image has as many.
    pub fine: Option<Vec<u16>>,
}

impl Picture {
    pub open spec fn wf(&self) -> bool {
        &&& self.rgba@.len() == self.width * self.height * 4
        &&& self.fine is Some ==> self.fine->0@.len() == self.width * self.height * 4
    }
}

/// Whether a picture is the one that encoded bytes hold.
pub open spec fn holds_picture(bytes: Seq<u8>, picture: Picture) -> bool {
    &&& picture.wf()
    &&& picture.rgba@ == image_pixels(bytes)
    &&& image_decoded(bytes) == Ok::<_, Seq<char>>(
        (picture.width, picture.height, picture.rgba@, fine_view(picture.fine)),
    )
    &&& image_dimensions(bytes) == Ok::<_, Seq<char>>((picture.width, picture.height))
}

/// The picture that encoded bytes hold, unless it is too large or cannot be
/// decoded.
pub fn inline_picture(bytes: &[u8]) -> (result: Result<Picture, String>)
    ensures
        result is Ok <==> image_is_complete(bytes@),
        match result {
            Ok(picture) => holds_picture(bytes@, picture) && dimensions_allowed(
                picture.width,
                picture.height,
            ),
            Err(error) => match dimensions_verdict(image_dimensions(bytes@)) {
                Ok(()) => image_decoded(bytes@) == Err::<
                    (u32, u32, Seq<u8>, Option<Seq<u16>>),
                    _,
                >(error@),
                Err(refusal) => error@ == refusal,
            },
        },
{
    match validate_inline_image_dimensions(bytes) {
        Ok(()) => match decode_rgba(bytes) {
            Ok((width, height, rgba, fine)) => Ok(Picture { width, height, rgba, fine }),
            Err(error) => Err(error),
        },
        Err(error) => Err(error),
    }
}

/// The square in the middle of an image: its left and upper edge and its side.
pub open spec fn middle_square(width: u32, height: u32) -> (u32, u32, u32) {
    let side = if width < height {
        width
    } else {
        height
    };
    (((width - side) / 2) as u32, ((height - side) / 2) as u32, side)
}

pub fn avatar_square(width: u32, height: u32) -> (square: (u32, u32, u32))
    ensures
        square == middle_square(width, height),
{
    let side: u32 = if width < height {
        width
    } else {
        height
    };
    ((width - side) / 2, (height - side) / 2, side)
}

/// The square in the middle lies inside the image, as large as it can be, with
/// margins that differ by at most one pixel.
pub proof fn middle_square_is_centred(width: u32, height: u32)
    ensures
        ({
            let (left, top, side) = middle_square(width, height);
            &&& left + side <= width && top + side <= height
            &&& side == width || side == height
            &&& 0 <= (width - side - left) - left <= 1
            &&& 0 <= (height - side - top) - top <= 1
        }),
{
}

/// The square in the middle of an image, before it is scaled.
pub open spec fn avatar_part<A>(width: u32, height: u32, rgba: Seq<A>) -> Seq<A> {
    let (left, top, side) = middle_square(width, height);
    square_part(width, rgba, left, top, side)
}

/// The pixels of the square in the middle of an image.
pub fn avatar_pixels(width: u32, height: u32, rgba: Vec<u8>) -> (part: Vec<u8>)
    requires
        0 < width,
        0 < height,
        rgba@.len() == width * height * 4,
    ensures
        part@ == avatar_part(width, height, rgba@),
{
    let square = avatar_square(width, height);
    crop_square(width, height, rgba, square.0, square.1, square.2)
}

/// The pixels of the square in the middle of an image of sixteen bits.
pub fn fine_avatar_pixels(width: u32, height: u32, rgba: Vec<u16>) -> (part: Vec<u16>)
    requires
        0 < width,
        0 < height,
        rgba@.len() == width * height * 4,
    ensures
        part@ == avatar_part(width, height, rgba@),
{
    let square = avatar_square(width, height);
    crop_fine_square(width, height, rgba, square.0, square.1, square.2)
}

/// The avatar of an image: the square in its middle, scaled to `edge` pixels at
/// the depth that the image has, and then at eight bits. A square of that size
/// already is taken over as it is. In another one, a channel that is the same
/// all over the square is the same in the avatar, but for one step up or down
/// where the image has sixteen bits; what the scaling makes of other channels is
/// left to the filter.
pub fn avatar_thumbnail(picture: Picture, edge: u32) -> (pixels: Vec<u8>)
    requires
        picture.wf(),
        0 < picture.width,
        0 < picture.height,
        0 < edge <= MAX_AVATAR_EDGE,
    ensures
        pixels@.len() == edge * edge * 4,
        ({
            let side = middle_square(picture.width, picture.height).2;
            match picture.fine {
                Some(fine) => {
                    let part = avatar_part(picture.width, picture.height, fine@);
                    &&& side == edge ==> pixels@ == part.map_values(
                        |sample: u16| eight_bits(sample),
                    )
                    &&& side <= MAX_AVATAR_REDUCTION * edge ==> nearly_keeps_even_channels(
                        part,
                        pixels@,
                    )
                },
                None => {
                    let part = avatar_part(picture.width, picture.height, picture.rgba@);
                    &&& side == edge ==> pixels@ == part
                    &&& side <= MAX_AVATAR_REDUCTION * edge ==> keeps_even_channels(part, pixels@)
                },
            }
        }),
{
    let Picture { width, height, rgba, fine } = picture;
    let side: u32 = avatar_square(width, height).2;
    match fine {
        Some(samples) => {
            let part = fine_avatar_pixels(width, height, samples);
            scale_fine_square(side, part, edge)
        },
        None => {
            let part = avatar_pixels(width, height, rgba);
            scale_square(side, part, edge)
        },
    }
}

/// What is said of a clipboard image that was or was not encoded.
pub open spec fn clipboard_result(png: Option<Result<Seq<u8>, Seq<char>>>) -> Result<
    Seq<u8>,
    Seq<char>,
> {
    match png {
        Some(Ok(bytes)) => Ok(bytes),
        Some(Err(error)) => Err("Cannot encode clipboard image: "@ + error),
        None => Err("Clipboard returned an invalid RGBA image"@),
    }
}

pub open spec fn bytes_view(result: Result<Vec<u8>, String>) -> Result<Seq<u8>, Seq<char>> {
    match result {
        Ok(bytes) => Ok(bytes@),
        Err(error) => Err(error@),
    }
}

pub fn clipboard_png_from(png: Option<Result<Vec<u8>, String>>) -> (result: Result<Vec<u8>, String>)
    ensures
        bytes_view(result) == clipboard_result(png_view(png)),
{
    match png {
        Some(Ok(bytes)) => Ok(bytes),
        Some(Err(error)) => Err(
            crate::text::join2("Cannot encode clipboard image: ", error.as_str()),
        ),
        None => Err("Clipboard returned an invalid RGBA image".to_owned()),
    }
}

/// The PNG file of an image from the clipboard. More bytes than its pixels have
/// are as little an image as fewer.
pub fn clipboard_png(width: u32, height: u32, rgba: Vec<u8>) -> (result: Result<Vec<u8>, String>)
    ensures
        bytes_view(result) == (if rgba@.len() > width * height * 4 {
            Err("Clipboard returned an invalid RGBA image"@)
        } else {
            clipboard_result(png_file(width, height, rgba@))
        }),
{
    assert(width * height * 4 <= 0xffff_ffff * 0xffff_ffff * 4) by (nonlinear_arith)
        requires
            0 <= width <= 0xffff_ffff,
            0 <= height <= 0xffff_ffff,
    ;
    if rgba.len() as u128 > width as u128 * height as u128 * 4 {
        return Err("Clipboard returned an invalid RGBA image".to_owned());
    }
    clipboard_png_from(encode_png(width, height, rgba))
}

/// Whether an image of a known length may be fetched.
pub fn fetch_refusal(content_length: Option<u64>) -> (refusal: Option<String>)
    ensures
        opt_text(refusal) == (if content_length is Some && content_length->0
            > MAX_INLINE_IMAGE_BYTES {
            Some("Image is too large for an inline preview"@)
        } else {
            None
        }),
{
    match content_length {
        Some(length) => if length > MAX_INLINE_IMAGE_BYTES {
            Some("Image is too large for an inline preview".to_owned())
        } else {
            None
        },
        None => None,
    }
}

/// Appends a chunk to what was fetched of an image, unless it grows too large.
pub fn fetched_chunk(bytes: &mut Vec<u8>, chunk: &mut Vec<u8>) -> (result: Result<(), String>)
    ensures
        match result {
            Ok(()) => final(bytes)@ == old(bytes)@ + old(chunk)@ && final(bytes)@.len()
                <= MAX_INLINE_IMAGE_BYTES,
            Err(error) => old(bytes)@.len() + old(chunk)@.len() > MAX_INLINE_IMAGE_BYTES && error@
                == "Image is too large for an inline preview"@ && final(bytes)@ == old(bytes)@,
        },
{
    let have: usize = bytes.len();
    let more: usize = chunk.len();
    if have as u64 > MAX_INLINE_IMAGE_BYTES || more as u64 > MAX_INLINE_IMAGE_BYTES - have as u64 {
        return Err("Image is too large for an inline preview".to_owned());
    }
    bytes.append(chunk);
    Ok(())
}

// ---------------------------------------------------------------------------
// Waiting for a download
// ---------------------------------------------------------------------------

/// What is known of a file that another program is writing.
#[derive(Debug, Clone, Copy, PartialEq, Eq, Structural)]
pub struct MediaWait {
    pub previous_size: Option<u64>,
    pub stable_samples: u32,
}

/// What to do about the file.
#[derive(Debug, Clone, Copy, PartialEq, Eq, Structural)]
pub enum MediaStep {
    /// Its size has not changed for a while: read it.
    Read,
    /// Look again later.
    Wait,
    /// It will not be shown.
    TooLarge,
}

impl MediaWait {
    /// A file of which nothing is known.
    pub open spec fn unknown() -> MediaWait {
        MediaWait { previous_size: None, stable_samples: 0 }
    }

    /// What is known after its size was looked at.
    pub open spec fn after(self, size: u64) -> MediaWait {
        let stable = size > 0 && self.previous_size == Some(size);
        let samples = if !stable {
            0
        } else if self.stable_samples + 1 >= STABLE_SAMPLES {
            0
        } else {
            (self.stable_samples + 1) as u32
        };
        MediaWait { previous_size: Some(size), stable_samples: samples }
    }

    /// What to do after its size was looked at.
    pub open spec fn step(self, size: u64) -> MediaStep {
        if size > MAX_INLINE_IMAGE_BYTES {
            MediaStep::TooLarge
        } else if size > 0 && self.previous_size == Some(size) && self.stable_samples + 1
            >= STABLE_SAMPLES {
            MediaStep::Read
        } else {
            MediaStep::Wait
        }
    }

    pub fn new() -> (wait: MediaWait)
        ensures
            wait == MediaWait::unknown(),
    {
        MediaWait { previous_size: None, stable_samples: 0 }
    }

    /// Notes the size of the file and says what to do about it. After a read
    /// that finds the file incomplete, the waiting begins anew.
    pub fn sample(&mut self, size: u64) -> (step: MediaStep)
        requires
            old(self).stable_samples < STABLE_SAMPLES,
        ensures
            step == old(self).step(size),
            step is TooLarge ==> *final(self) == *old(self),
            !(step is TooLarge) ==> *final(self) == old(self).after(size),
            final(self).stable_samples < STABLE_SAMPLES,
    {
        if size > MAX_INLINE_IMAGE_BYTES {
            return MediaStep::TooLarge;
        }
        let stable: bool = size > 0 && self.previous_size == Some(size);
        self.previous_size = Some(size);
        if !stable {
            self.stable_samples = 0;
            return MediaStep::Wait;
        }
        self.stable_samples = self.stable_samples + 1;
        if self.stable_samples >= STABLE_SAMPLES {
            self.stable_samples = 0;
            MediaStep::Read
        } else {
            MediaStep::Wait
        }
    }
}

/// The state after a file showed the same size again and again.
pub open spec fn after_steady(wait: MediaWait, size: u64, n: nat) -> MediaWait
    decreases n,
{
    if n == 0 {
        wait
    } else {
        after_steady(wait, size, (n - 1) as nat).after(size)
    }
}

/// A file is read only once its size has stayed the same for ten looks in a
/// row after the first one.
pub proof fn steady_file_is_read_after_ten_looks(size: u64)
    requires
        0 < size <= MAX_INLINE_IMAGE_BYTES,
    ensures
        forall|n: nat|
            n < 10 ==> !((#[trigger] after_steady(MediaWait::unknown(), size, n)).step(size)
                is Read),
        after_steady(MediaWait::unknown(), size, 10).step(size) is Read,
{
    reveal_with_fuel(after_steady, 12);
    assert forall|n: nat| n < 10 implies !((#[trigger] after_steady(
        MediaWait::unknown(),
        size,
        n,
    )).step(size) is Read) by {
        lemma_steady(size, n);
    }
    lemma_steady(size, 10);
}

proof fn lemma_steady(size: u64, n: nat)
    requires
        0 < size <= MAX_INLINE_IMAGE_BYTES,
        n <= 10,
    ensures
        after_steady(MediaWait::unknown(), size, n) == (if n == 0 {
            MediaWait::unknown()
        } else {
            MediaWait { previous_size: Some(size), stable_samples: (n - 1) as u32 }
        }),
    decreases n,
{
    if n > 0 {
        lemma_steady(size, (n - 1) as nat);
    }
}

// ---------------------------------------------------------------------------
// Addresses and names
// ---------------------------------------------------------------------------

/// The address of an emoji image.
pub fn is_twemoji_url(url: &str) -> (yes: bool)
    ensures
        yes == contains(url@, "cdnjs.cloudflare.com/ajax/libs/twemoji"@),
{
    str_contains(url, "cdnjs.cloudflare.com/ajax/libs/twemoji")
}

/// The name of the file that a path with slashes ends in.
pub open spec fn file_name(path: Seq<char>) -> Option<Seq<char>> {
    let parts = split_on(path, '/').filter(|p: Seq<char>| p.len() > 0 && p != "."@);
    if parts.len() == 0 || parts.last() == ".."@ {
        None
    } else {
        Some(parts.last())
    }
}

/// What stands behind the last dot of a file name, unless the name begins with
/// that dot.
pub open spec fn extension(path: Seq<char>) -> Option<Seq<char>> {
    match file_name(path) {
        Some(name) => match rsplit_once(name, "."@) {
            Some((stem, ext)) if stem.len() > 0 => Some(ext),
            _ => None,
        },
        None => None,
    }
}

/// The part of an address that names a file: its fragment, or everything before
/// the query.
pub open spec fn naming_part(url: Seq<char>) -> Seq<char> {
    match split_once(url, "#"@) {
        Some((_, fragment)) => fragment,
        None => split_on(url, '?')[0],
    }
}

pub open spec fn is_image_extension(ext: Option<Seq<char>>) -> bool {
    ext == Some("png"@) || ext == Some("jpg"@) || ext == Some("jpeg"@) || ext == Some("gif"@) || ext
        == Some("webp"@) || ext == Some("bmp"@)
}

/// Whether an address names an image.
pub open spec fn names_image(url: Seq<char>) -> bool {
    is_image_extension(extension(lowercase(naming_part(url))))
}

/// Whether a path in lower case ends in the name of an image.
pub fn is_image_path(path: &str) -> (yes: bool)
    ensures
        yes == is_image_extension(extension(path@)),
{
    let parts = str_split(path, '/');
    let ghost p = |p: Seq<char>| p.len() > 0 && p != "."@;
    let ghost all = texts(parts@);
    let mut name: Option<String> = None;
    let mut i: usize = 0;
    proof {
        reveal(Seq::filter);
        assert(all.take(0).filter(p) =~= Seq::empty());
    }
    while i < parts.len()
        invariant
            i <= parts@.len(),
            all == texts(parts@),
            p == (|p: Seq<char>| p.len() > 0 && p != "."@),
            opt_text(name) == (if all.take(i as int).filter(p).len() == 0 {
                None
            } else {
                Some(all.take(i as int).filter(p).last())
            }),
        decreases parts@.len() - i,
    {
        proof {
            crate::seqs::lemma_filter_take(all, i as int, p);
            assert(all[i as int] == parts@[i as int]@);
        }
        if !parts[i].as_str().is_empty() && !same_text(parts[i].as_str(), ".") {
            name = Some(parts[i].clone());
        }
        i = i + 1;
    }
    assert(all.take(i as int) =~= all);
    let name = match name {
        Some(name) => name,
        None => {
            return false;
        },
    };
    if same_text(name.as_str(), "..") {
        return false;
    }
    match str_rsplit_once(name.as_str(), ".") {
        Some((stem, ext)) => !stem.as_str().is_empty() && (same_text(ext.as_str(), "png")
            || same_text(ext.as_str(), "jpg") || same_text(ext.as_str(), "jpeg") || same_text(
            ext.as_str(),
            "gif",
        ) || same_text(ext.as_str(), "webp") || same_text(ext.as_str(), "bmp")),
        None => false,
    }
}

/// Whether an address names an image.
pub fn is_image_url(url: &str) -> (yes: bool)
    ensures
        yes == names_image(url@),
{
    let part = match str_split_once(url, "#") {
        Some((_, fragment)) => fragment,
        None => {
            let parts = str_split(url, '?');
            proof {
                lemma_split_on_len(url@, '?');
                assert(texts(parts@)[0] == parts@[0]@);
            }
            parts[0].clone()
        },
    };
    let lowered = to_lowercase(part.as_str());
    is_image_path(lowered.as_str())
}

/// The name of the cache file of a Matrix image: the address in characters that
/// are safe in a file name.
pub fn matrix_media_cache_name(mxc_uri: &str) -> (name: String)
    ensures
        name@ == base64url(encode_utf8(mxc_uri@)),
        forall|i: int| 0 <= i < name@.len() ==> is_base64url_char(#[trigger] name@[i]),
{
    encode_base64url(mxc_uri.as_bytes())
}

/// How a character stands inside a quoted argument.
pub open spec fn escaped(c: char) -> Seq<char> {
    if c == '\\' || c == '"' {
        seq!['\\', c]
    } else {
        seq![c]
    }
}

pub open spec fn escaped_all(value: Seq<char>) -> Seq<char>
    decreases value.len(),
{
    if value.len() == 0 {
        Seq::empty()
    } else {
        escaped_all(value.drop_last()) + escaped(value.last())
    }
}

/// A value as one argument of a command.
pub open spec fn quoted(value: Seq<char>) -> Seq<char> {
    seq!['"'] + escaped_all(value) + seq!['"']
}

pub fn quote_weechat_argument(value: &str) -> (argument: String)
    ensures
        argument@ == quoted(value@),
{
    let chars = chars_of(value);
    let mut out: Vec<char> = Vec::new();
    out.push('"');
    let mut i: usize = 0;
    assert(out@ =~= seq!['"'] + escaped_all(value@.take(0)));
    while i < chars.len()
        invariant
            i <= chars@.len(),
            chars@ == value@,
            out@ == seq!['"'] + escaped_all(value@.take(i as int)),
        decreases chars@.len() - i,
    {
        let c: char = chars[i];
        if c == '\\' || c == '"' {
            out.push('\\');
        }
        out.push(c);
        assert(value@.take(i + 1).drop_last() =~= value@.take(i as int));
        assert(out@ =~= seq!['"'] + (escaped_all(value@.take(i as int)) + escaped(c)));
        i = i + 1;
    }
    assert(value@.take(i as int) =~= value@);
    out.push('"');
    assert(out@ =~= quoted(value@));
    text_of(out.as_slice())
}

/// Reads an argument whose opening quote was read: the characters up to the
/// closing quote, each without the backslash before it, and what follows.
pub open spec fn read_quoted(text: Seq<char>) -> Option<(Seq<char>, Seq<char>)>
    decreases text.len(),
{
    if text.len() == 0 {
        None
    } else if text[0] == '"' {
        Some((Seq::empty(), text.skip(1)))
    } else if text[0] == '\\' && text.len() >= 2 {
        match read_quoted(text.skip(2)) {
            Some((value, rest)) => Some((seq![text[1]] + value, rest)),
            None => None,
        }
    } else {
        match read_quoted(text.skip(1)) {
            Some((value, rest)) => Some((seq![text[0]] + value, rest)),
            None => None,
        }
    }
}

proof fn lemma_escaped_front(value: Seq<char>)
    requires
        value.len() > 0,
    ensures
        escaped_all(value) == escaped(value[0]) + escaped_all(value.skip(1)),
    decreases value.len(),
{
    if value.len() == 1 {
        assert(value.drop_last() =~= Seq::empty());
        assert(value.skip(1) =~= Seq::empty());
        assert(escaped_all(value) =~= escaped(value[0]) + escaped_all(value.skip(1)));
    } else {
        lemma_escaped_front(value.drop_last());
        assert(value.drop_last().skip(1) =~= value.skip(1).drop_last());
        assert(escaped_all(value) =~= escaped(value[0]) + escaped_all(value.skip(1)));
    }
}

proof fn lemma_read_escaped(value: Seq<char>, rest: Seq<char>)
    ensures
        read_quoted(escaped_all(value) + (seq!['"'] + rest)) == Some((value, rest)),
    decreases value.len(),
{
    let text = escaped_all(value) + (seq!['"'] + rest);
    if value.len() == 0 {
        assert(text =~= seq!['"'] + rest);
        assert(text.skip(1) =~= rest);
        assert(value =~= Seq::empty());
    } else {
        lemma_escaped_front(value);
        lemma_read_escaped(value.skip(1), rest);
        let tail = escaped_all(value.skip(1)) + (seq!['"'] + rest);
        assert(text =~= escaped(value[0]) + tail);
        assert(text.skip(escaped(value[0]).len() as int) =~= tail);
        assert(value =~= seq![value[0]] + value.skip(1));
        if value[0] == '\\' || value[0] == '"' {
            assert(text[0] == '\\');
            assert(text[1] == value[0]);
        } else {
            assert(text[0] == value[0]);
        }
    }
}

/// A quoted value is one argument, and it reads back as the value.
pub proof fn quoted_value_is_one_argument(value: Seq<char>)
    ensures
        quoted(value)[0] == '"',
        read_quoted(quoted(value).skip(1)) == Some((value, Seq::<char>::empty())),
{
    lemma_read_escaped(value, Seq::empty());
    assert(quoted(value).skip(1) =~= escaped_all(value) + (seq!['"'] + Seq::<char>::empty()));
}

/// The command that has the relay download an image to a path.
pub fn matrix_media_download_command(mxc_uri: &str, path: &str) -> (command: String)
    ensures
        command@ == "/matrix media download "@ + mxc_uri@ + " "@ + quoted(path@),
{
    let mut command = join3("/matrix media download ", mxc_uri, " ");
    command.append(quote_weechat_argument(path).as_str());
    command
}

/// Whether a line only reports on a download that this program asked for.
pub open spec fn is_download_report(message: Seq<char>) -> bool {
    contains(message, "matrix: Error downloading media "@) || (contains(
        message,
        "weechatrs/matrix-media/"@,
    ) || contains(message, "weechatrs\\matrix-media\\"@)) && (contains(
        message,
        "matrix: Downloading media to"@,
    ) || contains(message, "matrix: Successfully downloaded media to"@) || contains(
        message,
        "matrix: Error writing media to"@,
    ) || contains(message, "matrix: Error creating media directory"@))
}

pub fn is_matrix_media_status_line(message: &str) -> (yes: bool)
    ensures
        yes == is_download_report(message@),
{
    str_contains(message, "matrix: Error downloading media ") || ((str_contains(
        message,
        "weechatrs/matrix-media/",
    ) || str_contains(message, "weechatrs\\matrix-media\\")) && (str_contains(
        message,
        "matrix: Downloading media to",
    ) || str_contains(message, "matrix: Successfully downloaded media to") || str_contains(
        message,
        "matrix: Error writing media to",
    ) || str_contains(message, "matrix: Error creating media directory")))
}

// ---------------------------------------------------------------------------
// Avatars without an image
// ---------------------------------------------------------------------------

/// The letter that stands for a room without an image.
pub open spec fn avatar_initial(name: Seq<char>) -> Seq<char> {
    match first_index(name, |c: char| alphanumeric(c)) {
        Some(i) => uppercase(name[i]),
        None => "?"@,
    }
}

pub fn sidebar_avatar_initial(name: &str) -> (initial: String)
    ensures
        initial@ == avatar_initial(name@),
{
    let chars = chars_of(name);
    let ghost p = |c: char| alphanumeric(c);
    let mut i: usize = 0;
    while i < chars.len()
        invariant
            i <= chars@.len(),
            chars@ == name@,
            p == (|c: char| alphanumeric(c)),
            first_index(name@, p) == crate::seqs::first_from(name@, p, i as int),
        decreases chars@.len() - i,
    {
        if is_alphanumeric(chars[i]) {
            return to_uppercase(chars[i]);
        }
        i = i + 1;
    }
    "?".to_owned()
}

/// How many colours avatars without an image have.
pub const AVATAR_COLORS: usize = 8;

/// The hash of the first `n` bytes, modulo the size of a machine word.
pub open spec fn word_hash(bytes: Seq<u8>, n: nat, modulus: int) -> int
    decreases n,
{
    if n == 0 || n > bytes.len() {
        0
    } else {
        (word_hash(bytes, (n - 1) as nat, modulus) * 31 + bytes[n - 1]) % modulus
    }
}

/// The colour, in red, green and blue, of an avatar without an image.
pub fn sidebar_avatar_fallback_color(key: &str) -> (rgb: (u8, u8, u8))
    ensures
        rgb == avatar_color(
            word_hash(encode_utf8(key@), encode_utf8(key@).len(), usize::MAX + 1)
                % AVATAR_COLORS as int,
        ),
{
    let index: usize = sidebar_avatar_color_index(key);
    if index == 0 {
        (83, 121, 189)
    } else if index == 1 {
        (111, 83, 189)
    } else if index == 2 {
        (176, 81, 143)
    } else if index == 3 {
        (189, 91, 83)
    } else if index == 4 {
        (184, 128, 61)
    } else if index == 5 {
        (91, 151, 79)
    } else if index == 6 {
        (60, 151, 145)
    } else {
        (67, 130, 174)
    }
}

pub open spec fn avatar_color(index: int) -> (u8, u8, u8) {
    let colors: Seq<(u8, u8, u8)> = seq![
        (83u8, 121u8, 189u8),
        (111u8, 83u8, 189u8),
        (176u8, 81u8, 143u8),
        (189u8, 91u8, 83u8),
        (184u8, 128u8, 61u8),
        (91u8, 151u8, 79u8),
        (60u8, 151u8, 145u8),
        (67u8, 130u8, 174u8),
    ];
    colors[index]
}

/// Which of the colours an avatar without an image has.
pub fn sidebar_avatar_color_index(key: &str) -> (index: usize)
    ensures
        index == word_hash(
            encode_utf8(key@),
            encode_utf8(key@).len(),
            usize::MAX + 1,
        ) % AVATAR_COLORS as int,
        index < AVATAR_COLORS,
{
    let bytes = key.as_bytes();
    let mut hash: usize = 0;
    let mut i: usize = 0;
    while i < bytes.len()
        invariant
            i <= bytes@.len(),
            hash == word_hash(bytes@, i as nat, usize::MAX + 1),
        decreases bytes@.len() - i,
    {
        let ghost before = hash as int;
        let byte: usize = bytes[i] as usize;
        hash = hash.wrapping_mul(31).wrapping_add(byte);
        proof {
            lemma_wrapped_step(before, byte as int, usize::MAX + 1);
        }
        i = i + 1;
    }
    hash % AVATAR_COLORS
}

proof fn lemma_wrapped_step(hash: int, byte: int, modulus: int)
    requires
        0 <= byte < modulus,
    ensures
        0 <= (hash * 31) % modulus < modulus,
        (if (hash * 31) % modulus + byte >= modulus {
            (hash * 31) % modulus + byte - modulus
        } else {
            (hash * 31) % modulus + byte
        }) == (hash * 31 + byte) % modulus,
{
    let p = (hash * 31) % modulus;
    vstd::arithmetic::div_mod::lemma_mod_bound(hash * 31, modulus);
    vstd::arithmetic::div_mod::lemma_mod_twice(hash * 31, modulus);
    vstd::arithmetic::div_mod::lemma_add_mod_noop(hash * 31, byte, modulus);
    vstd::arithmetic::div_mod::lemma_add_mod_noop(p, byte, modulus);
    if p + byte >= modulus {
        vstd::arithmetic::div_mod::lemma_small_mod((p + byte - modulus) as nat, modulus as nat);
        vstd::arithmetic::div_mod::lemma_mod_add_multiples_vanish(p + byte - modulus, modulus);
    } else {
        vstd::arithmetic::div_mod::lemma_small_mod((p + byte) as nat, modulus as nat);
    }
}

/// The colour number of a nick, from 1 to 15.
pub open spec fn nick_color(name: Seq<char>) -> int {
    word_hash(encode_utf8(name), encode_utf8(name).len(), 0x1_0000_0000) % 15 + 1
}

/// The colour number of a nick, from 1 to 15.
pub fn hash_nick(name: &str) -> (color: u8)
    ensures
        color == nick_color(name@),
        1 <= color <= 15,
{
    let bytes = name.as_bytes();
    let mut hash: u32 = 0;
    let mut i: usize = 0;
    while i < bytes.len()
        invariant
            i <= bytes@.len(),
            hash == word_hash(bytes@, i as nat, 0x1_0000_0000),
        decreases bytes@.len() - i,
    {
        let ghost before = hash as int;
        let byte: u32 = bytes[i] as u32;
        hash = hash.wrapping_mul(31).wrapping_add(byte);
        proof {
            lemma_wrapped_step(before, byte as int, 0x1_0000_0000);
        }
        i = i + 1;
    }
    ((hash % 15) + 1) as u8
}

// ---------------------------------------------------------------------------
// What is known of images and previews
// ---------------------------------------------------------------------------

#[derive(Debug, Clone, Copy, PartialEq, Eq, Structural)]
pub enum ImageState {
    Loading,
    Loaded,
    Failed,
}

impl View for ImageState {
    type V = ImageState;

    open spec fn view(&self) -> ImageState {
        *self
    }
}

#[derive(Debug)]
pub enum PreviewState {
    Loading,
    Loaded(LinkPreview),
    Failed,
}

pub ghost enum PreviewView {
    Loading,
    Loaded(LinkPreviewView),
    Failed,
}

impl View for PreviewState {
    type V = PreviewView;

    open spec fn view(&self) -> PreviewView {
        match self {
            PreviewState::Loading => PreviewView::Loading,
            PreviewState::Loaded(preview) => PreviewView::Loaded(preview@),
            PreviewState::Failed => PreviewView::Failed,
        }
    }
}

/// Whether `kept` is what is left of a map of which at most `cap` entries stay:
/// all of them where they are no more than that, and otherwise exactly `cap`.
pub open spec fn is_capped<V>(map: Map<Seq<char>, V>, kept: Map<Seq<char>, V>, cap: nat) -> bool {
    &&& kept.submap_of(map)
    &&& kept.dom().finite()
    &&& if map.dom().len() <= cap {
        kept == map
    } else {
        kept.dom().len() == cap
    }
}

/// Drops entries until at most `cap` are left. Which ones go is left open.
pub fn cap_map<V: View>(map: &mut TextMap<V>, cap: usize)
    ensures
        is_capped(old(map)@, final(map)@, cap as nat),
{
    map.cap(cap);
}

/// Begins to load a Matrix image, unless it is known or was asked for already.
pub fn begin_matrix_media_load(
    image_cache: &mut TextMap<ImageState>,
    pending: &mut TextSet,
    cache_key: &str,
) -> (begun: bool)
    ensures
        begun == (!old(image_cache)@.contains_key(cache_key@) && !old(pending)@.contains(
            cache_key@,
        )),
        final(image_cache)@ == (if begun {
            old(image_cache)@.insert(cache_key@, ImageState::Loading)
        } else {
            old(image_cache)@
        }),
        final(pending)@ == (if old(image_cache)@.contains_key(cache_key@) {
            old(pending)@
        } else {
            old(pending)@.insert(cache_key@)
        }),
{
    if image_cache.contains_key(cache_key) {
        return false;
    }
    if pending.contains(cache_key) {
        assert(pending@.insert(cache_key@) =~= pending@);
        return false;
    }
    pending.insert(cache_key.to_owned());
    image_cache.insert(cache_key.to_owned(), ImageState::Loading);
    true
}

/// What is known of images and previews.
#[derive(Debug)]
pub struct MediaState {
    pub image_cache: TextMap<ImageState>,
    /// Downloads already asked of the relay. An image that is dropped from the
    /// cache while it loads must not be asked for again.
    pub pending_matrix_media: TextSet,
    /// The images that exist as small avatars too.
    pub avatar_cache: TextMap<ImageState>,
    pub avatar_image_keys: TextSet,
    pub image_expanded: TextSet,
    pub image_full_size: TextSet,
    pub preview_cache: TextMap<PreviewState>,
    pub preview_expanded: TextSet,
}

pub ghost struct MediaStateView {
    pub image_cache: Map<Seq<char>, ImageState>,
    pub pending_matrix_media: Set<Seq<char>>,
    pub avatar_cache: Map<Seq<char>, ImageState>,
    pub avatar_image_keys: Set<Seq<char>>,
    pub image_expanded: Set<Seq<char>>,
    pub image_full_size: Set<Seq<char>>,
    pub preview_cache: Map<Seq<char>, PreviewView>,
    pub preview_expanded: Set<Seq<char>>,
}

impl View for MediaState {
    type V = MediaStateView;

    open spec fn view(&self) -> MediaStateView {
        MediaStateView {
            image_cache: self.image_cache@,
            pending_matrix_media: self.pending_matrix_media@,
            avatar_cache: self.avatar_cache@,
            avatar_image_keys: self.avatar_image_keys@,
            image_expanded: self.image_expanded@,
            image_full_size: self.image_full_size@,
            preview_cache: self.preview_cache@,
            preview_expanded: self.preview_expanded@,
        }
    }
}

impl MediaStateView {
    /// The state with a Matrix image begun to load, where that is due.
    pub open spec fn with_matrix_load(self, key: Seq<char>) -> MediaStateView {
        MediaStateView {
            image_expanded: self.image_expanded.insert(key),
            image_cache: if self.loads_matrix(key) {
                self.image_cache.insert(key, ImageState::Loading)
            } else {
                self.image_cache
            },
            pending_matrix_media: if self.image_cache.contains_key(key) {
                self.pending_matrix_media
            } else {
                self.pending_matrix_media.insert(key)
            },
            ..self
        }
    }

    pub open spec fn loads_matrix(self, key: Seq<char>) -> bool {
        !self.image_cache.contains_key(key) && !self.pending_matrix_media.contains(key)
    }

    /// Whether `after` is what is known once the image of an address came, or
    /// could not be shown. Of too many images exactly as many are kept as may
    /// be; which ones go is left open.
    pub open spec fn takes_image(self, url: Seq<char>, shown: bool, after: MediaStateView) -> bool {
        let state = if shown {
            ImageState::Loaded
        } else {
            ImageState::Failed
        };
        let images = self.image_cache.insert(url, state);
        let avatars = if shown && self.avatar_image_keys.contains(url) {
            self.avatar_cache.insert(url, ImageState::Loaded)
        } else {
            self.avatar_cache
        };
        let full = if shown {
            self.image_full_size
        } else {
            self.image_full_size.remove(url)
        };
        &&& after.pending_matrix_media == self.pending_matrix_media.remove(url)
        &&& is_capped(images, after.image_cache, IMAGE_CACHE_MAX as nat)
        &&& is_capped(avatars, after.avatar_cache, IMAGE_CACHE_MAX as nat)
        &&& after.avatar_image_keys == self.avatar_image_keys.filter(
            |k: Seq<char>|
                after.image_cache.contains_key(k) || after.avatar_cache.contains_key(k),
        )
        &&& after.image_full_size == full.filter(
            |k: Seq<char>| after.image_cache.contains_key(k),
        )
        &&& after.image_expanded == self.image_expanded
        &&& after.preview_cache == self.preview_cache
        &&& after.preview_expanded == self.preview_expanded
    }
}

impl MediaState {
    pub fn new() -> (state: Self)
        ensures
            state@ == (MediaStateView {
                image_cache: Map::empty(),
                pending_matrix_media: Set::empty(),
                avatar_cache: Map::empty(),
                avatar_image_keys: Set::empty(),
                image_expanded: Set::empty(),
                image_full_size: Set::empty(),
                preview_cache: Map::empty(),
                preview_expanded: Set::empty(),
            }),
    {
        MediaState {
            image_cache: TextMap::new(),
            pending_matrix_media: TextSet::new(),
            avatar_cache: TextMap::new(),
            avatar_image_keys: TextSet::new(),
            image_expanded: TextSet::new(),
            image_full_size: TextSet::new(),
            preview_cache: TextMap::new(),
            preview_expanded: TextSet::new(),
        }
    }

    /// Shows a Matrix image and says whether it has to be downloaded.
    pub fn ensure_matrix_media_loading(&mut self, mxc_uri: &str) -> (begun: bool)
        ensures
            begun == old(self)@.loads_matrix(mxc_uri@),
            final(self)@ == old(self)@.with_matrix_load(mxc_uri@),
    {
        self.image_expanded.insert(mxc_uri.to_owned());
        begin_matrix_media_load(&mut self.image_cache, &mut self.pending_matrix_media, mxc_uri)
    }

    /// Shows an image and says whether it has to be fetched. An address that is
    /// not a safe public one is never fetched.
    pub fn ensure_image_loading(&mut self, url: &str, is_safe: bool) -> (begun: bool)
        ensures
            begun == (is_safe && !old(self)@.image_cache.contains_key(url@)),
            final(self)@ == (MediaStateView {
                image_expanded: old(self)@.image_expanded.insert(url@),
                image_cache: if begun {
                    old(self)@.image_cache.insert(url@, ImageState::Loading)
                } else {
                    old(self)@.image_cache
                },
                ..old(self)@
            }),
    {
        self.image_expanded.insert(url.to_owned());
        if self.image_cache.contains_key(url) || !is_safe {
            return false;
        }
        self.image_cache.insert(url.to_owned(), ImageState::Loading);
        true
    }

    /// Says whether the picture of an emoji has to be fetched. It is kept among
    /// the images of messages.
    pub fn ensure_emoji_loading(&mut self, url: &str) -> (begun: bool)
        ensures
            begun == !old(self)@.image_cache.contains_key(url@),
            final(self)@ == (MediaStateView {
                image_cache: if begun {
                    old(self)@.image_cache.insert(url@, ImageState::Loading)
                } else {
                    old(self)@.image_cache
                },
                ..old(self)@
            }),
    {
        if self.image_cache.contains_key(url) {
            return false;
        }
        self.image_cache.insert(url.to_owned(), ImageState::Loading);
        true
    }

    /// Says whether the preview of an address has to be fetched.
    pub fn ensure_link_preview_loading(&mut self, url: &str, is_safe: bool) -> (begun: bool)
        ensures
            begun == (is_safe && !old(self)@.preview_cache.contains_key(url@)),
            final(self)@ == (MediaStateView {
                preview_cache: if begun {
                    old(self)@.preview_cache.insert(url@, PreviewView::Loading)
                } else {
                    old(self)@.preview_cache
                },
                ..old(self)@
            }),
    {
        if self.preview_cache.contains_key(url) || !is_safe {
            return false;
        }
        self.preview_cache.insert(url.to_owned(), PreviewState::Loading);
        true
    }

    /// Takes in an image that came, or that did not. `shown` says whether its
    /// bytes could be made visible.
    pub fn image_arrived(&mut self, url: &str, shown: bool)
        ensures
            old(self)@.takes_image(url@, shown, final(self)@),
    {
        self.pending_matrix_media.remove(url);
        if shown {
            if self.avatar_image_keys.contains(url) {
                self.avatar_cache.insert(url.to_owned(), ImageState::Loaded);
            }
            self.image_cache.insert(url.to_owned(), ImageState::Loaded);
        } else {
            self.image_full_size.remove(url);
            self.image_cache.insert(url.to_owned(), ImageState::Failed);
        }
        cap_map(&mut self.image_cache, IMAGE_CACHE_MAX);
        cap_map(&mut self.avatar_cache, IMAGE_CACHE_MAX);
        let images = &self.image_cache;
        let avatars = &self.avatar_cache;
        let keep = |k: &String| -> (r: bool)
            ensures
                r == (images@.contains_key(k@) || avatars@.contains_key(k@)),
            { images.contains_key(k.as_str()) || avatars.contains_key(k.as_str()) };
        let ghost kept = |k: Seq<char>| images@.contains_key(k) || avatars@.contains_key(k);
        self.avatar_image_keys.retain(keep, Ghost(kept));
        let keep_full = |k: &String| -> (r: bool)
            ensures
                r == images@.contains_key(k@),
            { images.contains_key(k.as_str()) };
        let ghost kept_full = |k: Seq<char>| images@.contains_key(k);
        self.image_full_size.retain(keep_full, Ghost(kept_full));
    }

    /// Takes in the bytes of an image, or the words of why none came, and gives
    /// the picture that can be shown from now on.
    pub fn take_image(&mut self, url: &str, fetched: Result<Vec<u8>, String>) -> (picture: Option<
        Picture,
    >)
        ensures
            picture is Some <==> fetched is Ok && image_is_complete(fetched->Ok_0@),
            old(self)@.takes_image(url@, picture is Some, final(self)@),
            match picture {
                Some(p) => holds_picture(fetched->Ok_0@, p) && dimensions_allowed(
                    p.width,
                    p.height,
                ),
                None => true,
            },
    {
        let picture = match fetched {
            Ok(bytes) => match inline_picture(bytes.as_slice()) {
                Ok(picture) => Some(picture),
                Err(_) => None,
            },
            Err(_) => None,
        };
        self.image_arrived(url, picture.is_some());
        picture
    }

    /// Takes in the preview of an address, and says whether its image has to be
    /// fetched. `image_is_safe` says whether its address is a safe public one.
    pub fn preview_arrived(
        &mut self,
        url: &str,
        preview: Option<LinkPreview>,
        image_is_safe: bool,
    ) -> (fetch: Option<String>)
        ensures
            ({
                let state = match preview {
                    Some(p) => PreviewView::Loaded(p@),
                    None => PreviewView::Failed,
                };
                let image = match preview {
                    Some(p) => p@.image_url,
                    None => None,
                };
                let wanted = image is Some && image_is_safe
                    && !old(self)@.image_cache.contains_key(image->0);
                let previews = old(self)@.preview_cache.insert(url@, state);
                &&& opt_text(fetch) == (if wanted {
                    image
                } else {
                    None
                })
                &&& final(self)@.image_cache == (if wanted {
                    old(self)@.image_cache.insert(image->0, ImageState::Loading)
                } else {
                    old(self)@.image_cache
                })
                &&& is_capped(previews, final(self)@.preview_cache, PREVIEW_CACHE_MAX as nat)
                &&& final(self)@ == (MediaStateView {
                    image_cache: final(self)@.image_cache,
                    preview_cache: final(self)@.preview_cache,
                    ..old(self)@
                })
            }),
    {
        let mut fetch: Option<String> = None;
        match preview {
            Some(p) => {
                match &p.image_url {
                    Some(image) => {
                        if image_is_safe && !self.image_cache.contains_key(image.as_str()) {
                            self.image_cache.insert(image.clone(), ImageState::Loading);
                            fetch = Some(image.clone());
                        }
                    },
                    None => {},
                }
                self.preview_cache.insert(url.to_owned(), PreviewState::Loaded(p));
            },
            None => {
                self.preview_cache.insert(url.to_owned(), PreviewState::Failed);
            },
        }
        cap_map(&mut self.preview_cache, PREVIEW_CACHE_MAX);
        fetch
    }
}

/// An image that is being downloaded is not asked for a second time, even when
/// it was dropped from the cache meanwhile.
pub proof fn dropped_image_is_not_asked_for_twice(state: MediaStateView, key: Seq<char>)
    requires
        state.loads_matrix(key),
    ensures
        ({
            let begun = state.with_matrix_load(key);
            let dropped = MediaStateView { image_cache: begun.image_cache.remove(key), ..begun };
            !begun.loads_matrix(key) && !dropped.loads_matrix(key)
        }),
{
}

} // verus!
