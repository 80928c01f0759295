//! Pictures as the bytes of files.

use crate::panes::canvas::frame::{
    checked_frame_bytes, expand, expanded, frame_bytes, size_fault, validate_canvas_dimensions,
    Frame, FrameView, DEFAULT_IMAGE_DIMENSION_LIMIT,
};
use crate::paths::{extension, extension_of};
use crate::text::{ascii_lowercase, same, to_ascii_lowercase};
use png::ColorType;
use vstd::prelude::*;
use vstd::string::*;

verus! {

/// The most bytes of a file of a project.
pub const PROJECT_FILE_LIMIT: u64 = 67_108_864;

/// The most bytes of the pictures of a project.
pub const PROJECT_PIXEL_LIMIT: u64 = 536_870_912;

/// The colours that a PNG comes in.
#[derive(Clone, Copy, PartialEq, Eq, Structural)]
pub enum PngColour {
    Grey,
    GreyAlpha,
    Rgb,
    Rgba,
    Indexed,
}

/// A PNG as it is read: its pixels have one byte to a channel.
pub struct PngPicture {
    pub width: u32,
    pub height: u32,
    pub colour: PngColour,
    pub bytes: Vec<u8>,
}

pub struct PngView {
    pub width: u32,
    pub height: u32,
    pub colour: PngColour,
    pub bytes: Seq<u8>,
}

impl View for PngPicture {
    type V = PngView;

    open spec fn view(&self) -> PngView {
        PngView {
            width: self.width,
            height: self.height,
            colour: self.colour,
            bytes: self.bytes@,
        }
    }
}

pub open spec fn png_outcome(r: Result<PngPicture, String>) -> Result<PngView, Seq<char>> {
    match r {
        Ok(picture) => Ok(picture@),
        Err(e) => Err(e@),
    }
}

pub open spec fn size_outcome(r: Result<(u32, u32), String>) -> Result<(u32, u32), Seq<char>> {
    match r {
        Ok(size) => Ok(size),
        Err(e) => Err(e@),
    }
}

pub open spec fn bytes_outcome(r: Result<Vec<u8>, String>) -> Result<Seq<u8>, Seq<char>> {
    match r {
        Ok(bytes) => Ok(bytes@),
        Err(e) => Err(e@),
    }
}

/// The size that `png::Decoder::read_info` reads from the bytes of a file, with
/// a limit on what it may allocate.
pub uninterp spec fn png_size(bytes: Seq<u8>, limit: usize) -> Result<(u32, u32), Seq<char>>;

/// The picture that `png::Reader::next_frame` reads from the bytes of a file,
/// its channels widened or narrowed to one byte, with a limit on what it may
/// allocate.
pub uninterp spec fn png_picture(bytes: Seq<u8>, limit: usize) -> Result<PngView, Seq<char>>;

/// The bytes that `png::Writer::write_image_data` writes for opaque and
/// translucent colours.
pub uninterp spec fn png_written(width: u32, height: u32, pixels: Seq<u8>) -> Result<
    Seq<u8>,
    Seq<char>,
>;

/// Calls `png::Decoder::read_info` and takes the size from `png::Reader::info`.
/// The format takes pages, so the result is only named, as a function of the
/// bytes and the limit.
#[verifier::external_body]
pub(crate) fn read_png_size(bytes: &Vec<u8>, limit: usize) -> (r: Result<(u32, u32), String>)
    ensures
        size_outcome(r) == png_size(bytes@, limit),
{
    let mut decoder = png::Decoder::new(bytes.as_slice());
    decoder.set_limits(png::Limits { bytes: limit });
    decoder.set_transformations(png::Transformations::EXPAND | png::Transformations::STRIP_16);
    let reader = decoder.read_info().map_err(|e| e.to_string())?;
    Ok((reader.info().width, reader.info().height))
}

/// Calls `png::Decoder::read_info` and `png::Reader::next_frame`, with palettes
/// expanded and channels of two bytes cut to one, and takes the bytes that
/// `png::OutputInfo::buffer_size` counts. The format takes pages, so the result
/// is only named, as a function of the bytes and the limit. A buffer for the
/// whole picture is allocated, so its size has to be one that a vector can have.
#[verifier::external_body]
pub(crate) fn read_png(bytes: &Vec<u8>, limit: usize) -> (r: Result<PngPicture, String>)
    requires
        png_size(bytes@, limit) matches Ok(size) && frame_bytes(size.0, size.1) <= isize::MAX,
    ensures
        png_outcome(r) == png_picture(bytes@, limit),
{
    let mut decoder = png::Decoder::new(bytes.as_slice());
    decoder.set_limits(png::Limits { bytes: limit });
    decoder.set_transformations(png::Transformations::EXPAND | png::Transformations::STRIP_16);
    let mut reader = decoder.read_info().map_err(|e| e.to_string())?;
    let mut buffer = vec![0; reader.output_buffer_size()];
    let info = reader.next_frame(&mut buffer).map_err(|e| e.to_string())?;
    buffer.truncate(info.buffer_size());
    let colour = match info.color_type {
        ColorType::Grayscale => PngColour::Grey,
        ColorType::GrayscaleAlpha => PngColour::GreyAlpha,
        ColorType::Rgb => PngColour::Rgb,
        ColorType::Rgba => PngColour::Rgba,
        ColorType::Indexed => PngColour::Indexed,
    };
    Ok(PngPicture { width: info.width, height: info.height, colour, bytes: buffer })
}

/// The bytes of a file are read as a picture of opaque and translucent colours,
/// by a reader that may allocate as much as the picture takes.
pub open spec fn reads_back(bytes: Seq<u8>, width: u32, height: u32, pixels: Seq<u8>) -> bool {
    let picture = PngView { width, height, colour: PngColour::Rgba, bytes: pixels };
    &&& forall|limit: usize|
        pixels.len() <= limit ==> #[trigger] png_size(bytes, limit) == Ok::<
            (u32, u32),
            Seq<char>,
        >((width, height))
    &&& forall|limit: usize|
        pixels.len() <= limit ==> #[trigger] png_picture(bytes, limit) == Ok::<PngView, Seq<char>>(
            picture,
        )
}

/// Calls `png::Encoder::write_header` and `png::Writer::write_image_data` for
/// colours with opacity, one byte to a channel. The format takes pages, so the
/// result is only named, as a function of the size and the pixels. The format
/// loses nothing: what was written is read back as it was, by a reader that may
/// allocate as much as the picture takes.
#[verifier::external_body]
pub(crate) fn write_png(width: u32, height: u32, pixels: &Vec<u8>) -> (r: Result<Vec<u8>, String>)
    requires
        pixels@.len() == frame_bytes(width, height),
    ensures
        bytes_outcome(r) == png_written(width, height, pixels@),
        r matches Ok(bytes) ==> reads_back(bytes@, width, height, pixels@),
{
    let mut out = Vec::new();
    let mut encoder = png::Encoder::new(&mut out, width, height);
    encoder.set_color(png::ColorType::Rgba);
    encoder.set_depth(png::BitDepth::Eight);
    let mut writer = encoder.write_header().map_err(|e| e.to_string())?;
    writer.write_image_data(pixels).map_err(|e| e.to_string())?;
    drop(writer);
    Ok(out)
}

/// The picture that `image::ImageReader::decode` reads from the bytes of a file,
/// with a limit on its sides and on what it may allocate: its size and its
/// pixels as RGBA.
pub uninterp spec fn picture_read(bytes: Seq<u8>, side: u32, allocation: u64) -> Result<
    (u32, u32, Seq<u8>),
    Seq<char>,
>;

/// The bytes of a file begin as those of a JPEG.
pub open spec fn is_jpeg(bytes: Seq<u8>) -> bool {
    bytes.len() >= 3 && bytes[0] == 0xff && bytes[1] == 0xd8 && bytes[2] == 0xff
}

/// Calls `image::ImageReader::decode` on the bytes of a file, with a limit on
/// its sides and on what it may allocate, and turns the picture into RGBA by
/// `image::DynamicImage::to_rgba8`. The formats take pages, so the result is
/// only named, as a function of the bytes and the limits; its size is within
/// the limit, and the pixels are those of the size. Which pixels a JPEG decodes
/// to may depend on the machine, so of its result the pixels are left unsaid.
#[verifier::external_body]
pub(crate) fn read_picture(bytes: &Vec<u8>, side: u32, allocation: u64) -> (r: Result<
    (u32, u32, Vec<u8>),
    String,
>)
    ensures
        match (r, picture_read(bytes@, side, allocation)) {
            (Ok(picture), Ok(named)) => picture.0 == named.0 && picture.1 == named.1 && (!is_jpeg(
                bytes@,
            ) ==> picture.2@ == named.2),
            (Err(e), Err(named)) => e@ == named,
            _ => false,
        },
        r matches Ok(picture) ==> picture.2@.len() == frame_bytes(picture.0, picture.1)
            && picture.0 <= side && picture.1 <= side,
{
    let cursor = std::io::Cursor::new(bytes);
    let mut reader = image::ImageReader::new(cursor).with_guessed_format().map_err(|e| e.to_string())?;
    let mut limits = image::Limits::default();
    limits.max_image_width = Some(side);
    limits.max_image_height = Some(side);
    limits.max_alloc = Some(allocation);
    reader.limits(limits);
    let picture = reader.decode().map_err(|e| e.to_string())?.to_rgba8();
    Ok((picture.width(), picture.height(), picture.into_raw()))
}

/// No side of a picture is longer than the longest.
pub open spec fn is_short(size: (u32, u32)) -> bool {
    size.0 <= DEFAULT_IMAGE_DIMENSION_LIMIT && size.1 <= DEFAULT_IMAGE_DIMENSION_LIMIT
}

/// A picture of one size can be scaled to another: no side is longer than the
/// longest, and the pictures that scaling makes are ones that a vector can
/// hold: the result, and one of the old width and the new height with four
/// bytes to a channel.
pub open spec fn can_resize(from: (u32, u32), to: (u32, u32)) -> bool {
    &&& is_short(from)
    &&& is_short(to)
    &&& frame_bytes(to.0, to.1) <= isize::MAX
    &&& 4 * frame_bytes(from.0, to.1) <= isize::MAX
}

/// No side of a picture shrinks to less than a sixty-fourth.
pub open spec fn is_moderate(from: (u32, u32), to: (u32, u32)) -> bool {
    from.0 <= 64 * to.0 && from.1 <= 64 * to.1
}

/// One of the four channels of a picture has the same value everywhere.
pub open spec fn is_even(pixels: Seq<u8>, channel: int, value: u8) -> bool {
    forall|i: int|
        0 <= i < pixels.len() && i % 4 == channel ==> #[trigger] pixels[i] == value
}

/// Two of the four channels of a picture have the same value in every pixel.
pub open spec fn is_alike(pixels: Seq<u8>, a: int, b: int) -> bool {
    forall|i: int|
        0 <= i < pixels.len() && i % 4 == a ==> #[trigger] pixels[i] == pixels[i - a + b]
}

/// What scaling keeps of a picture, however its weights come out. A channel
/// that is the same everywhere stays so, at the same value: nothing stays
/// nothing, and other values stay where the picture does not shrink too much.
/// Channels that are alike stay alike.
pub open spec fn is_scaled(
    pixels: Seq<u8>,
    from: (u32, u32),
    scaled: Seq<u8>,
    to: (u32, u32),
) -> bool {
    &&& forall|channel: int, value: u8|
        0 <= channel < 4 && (value == 0 || is_moderate(from, to)) && #[trigger] is_even(
            pixels,
            channel,
            value,
        ) ==> is_even(scaled, channel, value)
    &&& forall|a: int, b: int|
        0 <= a < 4 && 0 <= b < 4 && #[trigger] is_alike(pixels, a, b) ==> is_alike(scaled, a, b)
}

/// Calls `image::imageops::resize` with the Lanczos filter on RGBA pixels. The
/// filter takes its weights from `f32::sin`, whose precision is the machine's,
/// so the pixels of the result are left unsaid but for what holds of any
/// weights. They are the same for the four channels and are divided by their
/// sum, so channels that are alike stay alike, and one that is the same
/// everywhere keeps its value: that of nothing in any case, another as long as
/// so few weights are summed up that their rounding is far below one half. A
/// picture of the same size is a copy. On sides that are too long for
/// floating-point numbers it would fail.
#[verifier::external_body]
pub(crate) fn resize_pixels(width: u32, height: u32, pixels: Vec<u8>, to: (u32, u32)) -> (r: Vec<u8>)
    requires
        pixels@.len() == frame_bytes(width, height),
        can_resize((width, height), to),
        width > 0,
        height > 0,
        to.0 > 0,
        to.1 > 0,
    ensures
        r@.len() == frame_bytes(to.0, to.1),
        to == (width, height) ==> r@ == pixels@,
        is_scaled(pixels@, (width, height), r@, to),
{
    let source = image::RgbaImage::from_raw(width, height, pixels).expect("the size of the pixels");
    image::imageops::resize(&source, to.0, to.1, image::imageops::FilterType::Lanczos3).into_raw()
}

/// The pixels that `image::imageops::thumbnail` makes of a picture of a size for
/// another size.
pub uninterp spec fn picture_shrunk(
    width: u32,
    height: u32,
    pixels: Seq<u8>,
    to_width: u32,
    to_height: u32,
) -> Seq<u8>;

/// Calls `image::imageops::thumbnail` on RGBA pixels. Which pixels it weighs for
/// one, and how, takes pages, so the result is only named, as a function of the
/// picture and the sizes; it is of the new size. Where very many pixels go into
/// one its sums would overflow, so the sides of the picture are not to be too
/// long, nor those of the result too short.
#[verifier::external_body]
pub(crate) fn shrink_pixels(width: u32, height: u32, pixels: Vec<u8>, to: (u32, u32)) -> (r: Vec<u8>)
    requires
        pixels@.len() == frame_bytes(width, height),
        is_short((width, height)),
        is_short(to),
        to.0 >= 256,
        to.1 >= 256,
        frame_bytes(to.0, to.1) <= isize::MAX,
    ensures
        r@.len() == frame_bytes(to.0, to.1),
        r@ == picture_shrunk(width, height, pixels@, to.0, to.1),
{
    let source = image::RgbaImage::from_raw(width, height, pixels).expect("the size of the pixels");
    image::imageops::thumbnail(&source, to.0, to.1).into_raw()
}

/// The small picture of a project.
pub fn thumbnail_of(frame: Frame) -> (r: Frame)
    requires
        frame@.is_whole(),
        is_short((frame.width, frame.height)),
    ensures
        r.width == 480,
        r.height == 320,
        r@.is_whole(),
        r@.pixels == picture_shrunk(frame.width, frame.height, frame@.pixels, 480, 320),
{
    proof {
        assert(frame_bytes(480, 320) == 614_400) by (nonlinear_arith);
    }
    let pixels: Vec<u8> = shrink_pixels(frame.width, frame.height, frame.pixels, (480, 320));
    Frame { width: 480, height: 320, pixels }
}

/// A picture as it is read from a PNG: its size and its RGBA pixels.
pub open spec fn picture_pixels(picture: PngView) -> Result<(u32, u32, Seq<u8>), Seq<char>> {
    let size = (picture.width, picture.height);
    match picture.colour {
        PngColour::Rgba => Ok((size.0, size.1, picture.bytes)),
        PngColour::Rgb => Ok((size.0, size.1, expanded(picture.bytes, 3))),
        PngColour::Grey => Ok((size.0, size.1, expanded(picture.bytes, 1))),
        PngColour::GreyAlpha => Ok((size.0, size.1, expanded(picture.bytes, 2))),
        PngColour::Indexed => Err("png: unsupported colour type Indexed"@),
    }
}

pub open spec fn pixels_outcome(r: Result<(u32, u32, Vec<u8>), String>) -> Result<
    (u32, u32, Seq<u8>),
    Seq<char>,
> {
    match r {
        Ok((w, h, pixels)) => Ok((w, h, pixels@)),
        Err(e) => Err(e@),
    }
}

/// The RGBA pixels of a picture as it is read from a PNG.
pub fn take_pixels(picture: PngPicture) -> (r: Result<(u32, u32, Vec<u8>), String>)
    ensures
        pixels_outcome(r) == picture_pixels(picture@),
{
    match picture.colour {
        PngColour::Rgba => Ok((picture.width, picture.height, picture.bytes)),
        PngColour::Rgb => Ok((picture.width, picture.height, expand(&picture.bytes, 3))),
        PngColour::Grey => Ok((picture.width, picture.height, expand(&picture.bytes, 1))),
        PngColour::GreyAlpha => Ok((picture.width, picture.height, expand(&picture.bytes, 2))),
        PngColour::Indexed => Err("png: unsupported colour type Indexed".to_owned()),
    }
}

/// What reading a PNG gives, from the size and the picture that are read: the
/// size is held to the limit of the device first, and to what the machine can
/// address.
pub open spec fn png_decoded(
    size: Result<(u32, u32), Seq<char>>,
    picture: Result<PngView, Seq<char>>,
    texture_limit: Option<u32>,
) -> Result<(u32, u32, Seq<u8>), Seq<char>> {
    match size {
        Err(e) => Err(e),
        Ok((w, h)) => match size_fault(w, h, texture_limit) {
            Some(message) => Err(message),
            None => if frame_bytes(w, h) > isize::MAX {
                Err("png: the picture is too large"@)
            } else {
                match picture {
                    Err(e) => Err(e),
                    Ok(p) => picture_pixels(p),
                }
            },
        },
    }
}

/// Reads a PNG as RGBA: its size and its pixels.
pub fn decode_png(bytes: &Vec<u8>, texture_limit: Option<u32>) -> (r: Result<
    (u32, u32, Vec<u8>),
    String,
>)
    ensures
        pixels_outcome(r) == png_decoded(
            png_size(bytes@, PROJECT_PIXEL_LIMIT as usize),
            png_picture(bytes@, PROJECT_PIXEL_LIMIT as usize),
            texture_limit,
        ),
{
    let limit: usize = PROJECT_PIXEL_LIMIT as usize;
    let (width, height): (u32, u32) = match read_png_size(bytes, limit) {
        Ok(size) => size,
        Err(e) => {
            return Err(e);
        },
    };
    if let Err(e) = validate_canvas_dimensions(width, height, texture_limit) {
        return Err(e);
    }
    let addressable: bool = match checked_frame_bytes(width, height) {
        Some(n) => n <= isize::MAX as usize,
        None => false,
    };
    if !addressable {
        return Err("png: the picture is too large".to_owned());
    }
    match read_png(bytes, limit) {
        Ok(picture) => take_pixels(picture),
        Err(e) => Err(e),
    }
}

/// The bytes of a file are read as a frame, as long as it is within the limits
/// of a project and of the device.
pub open spec fn survives(bytes: Seq<u8>, frame: FrameView) -> bool {
    forall|texture_limit: Option<u32>|
        frame.pixels.len() <= PROJECT_PIXEL_LIMIT && (#[trigger] size_fault(
            frame.width,
            frame.height,
            texture_limit,
        )) is None ==> png_decoded(
            png_size(bytes, PROJECT_PIXEL_LIMIT as usize),
            png_picture(bytes, PROJECT_PIXEL_LIMIT as usize),
            texture_limit,
        ) == Ok::<(u32, u32, Seq<u8>), Seq<char>>((frame.width, frame.height, frame.pixels))
}

/// Writes a picture as a PNG. What is written is read back as it was, as long
/// as it is within the limits of a project and of the device.
pub fn encode_png(frame: &Frame) -> (r: Result<Vec<u8>, String>)
    requires
        frame@.is_whole(),
    ensures
        bytes_outcome(r) == png_written(frame.width, frame.height, frame@.pixels),
        r matches Ok(bytes) ==> survives(bytes@, frame@),
{
    write_png(frame.width, frame.height, &frame.pixels)
}

/// Why a file is not read, by its size.
pub open spec fn file_fault(bytes: u64) -> bool {
    bytes > PROJECT_FILE_LIMIT
}

/// Whether a file of so many bytes is too large to be read.
pub fn is_too_large(bytes: u64) -> (r: bool)
    ensures
        r == file_fault(bytes),
{
    bytes > PROJECT_FILE_LIMIT
}

pub open spec fn frame_outcome(r: Result<Frame, String>) -> Result<FrameView, Seq<char>> {
    match r {
        Ok(frame) => Ok(frame@),
        Err(e) => Err(e@),
    }
}

/// The frame of the pixels that were read.
pub open spec fn framed(read: Result<(u32, u32, Seq<u8>), Seq<char>>) -> Result<
    FrameView,
    Seq<char>,
> {
    match read {
        Err(e) => Err(e),
        Ok((width, height, pixels)) => if width == 0 || height == 0 || pixels.len() != frame_bytes(
            width,
            height,
        ) {
            Err("empty image"@)
        } else {
            Ok(FrameView { width, height, pixels })
        },
    }
}

/// The frame of the pixels that were read.
pub fn frame_of(read: Result<(u32, u32, Vec<u8>), String>) -> (r: Result<Frame, String>)
    ensures
        frame_outcome(r) == framed(pixels_outcome(read)),
        r matches Ok(frame) ==> frame@.is_whole() && frame.width > 0 && frame.height > 0,
{
    match read {
        Err(e) => Err(e),
        Ok((width, height, pixels)) => match Frame::from_rgba(width, height, pixels) {
            Some(frame) => Ok(frame),
            None => Err("empty image".to_owned()),
        },
    }
}

/// Whether a path leads to a PNG, by its extension.
pub open spec fn is_png_path(path: Seq<char>) -> bool {
    extension_of(path) matches Some(e) && ascii_lowercase(e) == "png"@
}

/// Whether a path leads to a PNG, by its extension.
pub fn names_png(path: &str) -> (r: bool)
    ensures
        r == is_png_path(path@),
{
    match extension(path) {
        Some(e) => same(to_ascii_lowercase(e.as_str()).as_str(), "png"),
        None => false,
    }
}

/// The longest side of a picture, where a device has a limit or none is known.
pub open spec fn longest_side(texture_limit: Option<u32>) -> u32 {
    match texture_limit {
        Some(limit) => limit,
        None => DEFAULT_IMAGE_DIMENSION_LIMIT,
    }
}

/// A frame is one of the picture that was read: of its size and, where that is
/// said, of its pixels. A picture of nothing is none.
pub open spec fn is_read_as(
    r: Result<FrameView, Seq<char>>,
    read: Result<(u32, u32, Seq<u8>), Seq<char>>,
    exact: bool,
) -> bool {
    match read {
        Err(e) => r == Err::<FrameView, Seq<char>>(e),
        Ok((width, height, pixels)) => if width == 0 || height == 0 {
            r == Err::<FrameView, Seq<char>>("empty image"@)
        } else {
            r matches Ok(frame) && frame.width == width && frame.height == height && frame.is_whole()
                && (exact ==> frame.pixels == pixels)
        },
    }
}

/// Reads the bytes of a picture file: a PNG by its own format, any other by
/// what its bytes look like.
pub fn decode(path: &str, bytes: &Vec<u8>, texture_limit: Option<u32>) -> (r: Result<Frame, String>)
    ensures
        is_png_path(path@) ==> frame_outcome(r) == framed(
            png_decoded(
                png_size(bytes@, PROJECT_PIXEL_LIMIT as usize),
                png_picture(bytes@, PROJECT_PIXEL_LIMIT as usize),
                texture_limit,
            ),
        ),
        !is_png_path(path@) ==> is_read_as(
            frame_outcome(r),
            picture_read(bytes@, longest_side(texture_limit), PROJECT_PIXEL_LIMIT),
            !is_jpeg(bytes@),
        ),
        r matches Ok(frame) ==> frame@.is_whole() && frame.width > 0 && frame.height > 0,
        !is_png_path(path@) ==> (r matches Ok(frame) ==> frame.width <= longest_side(texture_limit)
            && frame.height <= longest_side(texture_limit)),
{
    if names_png(path) {
        frame_of(decode_png(bytes, texture_limit))
    } else {
        let side: u32 = match texture_limit {
            Some(limit) => limit,
            None => DEFAULT_IMAGE_DIMENSION_LIMIT,
        };
        frame_of(read_picture(bytes, side, PROJECT_PIXEL_LIMIT))
    }
}

/// A picture scaled to a size.
pub fn resized(frame: Frame, to: (u32, u32)) -> (r: Frame)
    requires
        frame@.is_whole(),
        frame.width > 0,
        frame.height > 0,
        to.0 > 0,
        to.1 > 0,
        to != (frame.width, frame.height) ==> can_resize((frame.width, frame.height), to),
    ensures
        r.width == to.0,
        r.height == to.1,
        r@.is_whole(),
        to == (frame.width, frame.height) ==> r@ == frame@,
        is_scaled(frame@.pixels, (frame.width, frame.height), r@.pixels, to),
{
    if to.0 == frame.width && to.1 == frame.height {
        return frame;
    }
    let pixels: Vec<u8> = resize_pixels(frame.width, frame.height, frame.pixels, to);
    Frame { width: to.0, height: to.1, pixels }
}

} // verus!
