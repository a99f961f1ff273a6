//! Trusted items for the decoders and encoders of outside crates: GIF
//! decoding (`gif`), pixel operations and PNG encoding (`image`) and
//! Base64 encoding (`base64`).
use vstd::prelude::*;
use vstd::utf8::is_ascii_chars;

verus! {

/// The outside type of a GIF decoding error.
#[verifier::external_type_specification]
#[verifier::external_body]
pub struct ExGifDecodingError(gif::DecodingError);

/// The outside type of an image encoding error.
#[verifier::external_type_specification]
#[verifier::external_body]
pub struct ExImageError(image::ImageError);

/// A GIF decoder over an in-memory file, seen as the stream of frames that it
/// still has to hand out. Verus does not read its field.
#[verifier::external_body]
pub struct GifStream {
    decoder: gif::Decoder<std::io::Cursor<Vec<u8>>>,
}

/// One decoded GIF frame: its size in pixels and its RGBA pixel bytes, row by row.
pub struct RawFrame {
    pub width: u16,
    pub height: u16,
    pub buffer: Vec<u8>,
}

impl RawFrame {
    pub open spec fn view_frame(&self) -> (u16, u16, Seq<u8>) {
        (self.width, self.height, self.buffer@)
    }
}

/// The frames that the decoder will still hand out, in order.
pub uninterp spec fn gif_pending(stream: GifStream) -> Seq<(u16, u16, Seq<u8>)>;

/// Whether, once the pending frames are out, the decoder reports an error
/// rather than the end of the file.
pub uninterp spec fn gif_fails_at_end(stream: GifStream) -> bool;

/// What `gif::DecodeOptions::read_info` makes of a file when asked for RGBA
/// output: `None` when it refuses the header, else the frames that the
/// decoder will hand out and whether it then reports an error.
pub uninterp spec fn gif_rgba_stream(bytes: Seq<u8>) -> Option<(Seq<(u16, u16, Seq<u8>)>, bool)>;

/// Opens a GIF file with `gif::DecodeOptions` set to RGBA output
/// (`set_color_output`, then `read_info`). Trusted: the decoder is opened
/// exactly when `gif_rgba_stream` is `Some`, and then holds the frames that
/// it names. The frames and the point of failure are a function of the bytes
/// alone (the decoder runs on an in-memory cursor with its default limits).
#[verifier::external_body]
pub(crate) fn gif_read_info(bytes: Vec<u8>) -> (res: Result<GifStream, gif::DecodingError>)
    ensures
        res is Ok <==> gif_rgba_stream(bytes@) is Some,
        res matches Ok(s) ==> gif_rgba_stream(bytes@) == Some(
            (gif_pending(s), gif_fails_at_end(s)),
        ),
{
    let mut options = gif::DecodeOptions::new();
    options.set_color_output(gif::ColorOutput::RGBA);
    match options.read_info(std::io::Cursor::new(bytes)) {
        Ok(decoder) => Ok(GifStream { decoder }),
        Err(e) => Err(e),
    }
}

/// Reads the next frame with `gif::Decoder::read_next_frame`. Trusted: while
/// frames are pending it hands out the first of them and drops it from the
/// stream; then it reports the end (`Ok(None)`) or the error that the stream
/// ends with. Nothing is stated of the stream after an error or the end.
#[verifier::external_body]
pub(crate) fn gif_read_next_frame(stream: &mut GifStream) -> (res: Result<Option<RawFrame>, gif::DecodingError>)
    ensures
        gif_pending(*old(stream)).len() > 0 ==> {
            &&& res matches Ok(Some(f)) && f.view_frame() == gif_pending(*old(stream))[0]
            &&& gif_pending(*final(stream)) == gif_pending(*old(stream)).drop_first()
            &&& gif_fails_at_end(*final(stream)) == gif_fails_at_end(*old(stream))
        },
        gif_pending(*old(stream)).len() == 0 ==> (res is Err <==> gif_fails_at_end(*old(stream))),
        gif_pending(*old(stream)).len() == 0 ==> (res is Ok ==> res == Ok::<Option<RawFrame>, gif::DecodingError>(None)),
{
    match stream.decoder.read_next_frame() {
        Ok(Some(frame)) => Ok(Some(RawFrame {
            width: frame.width,
            height: frame.height,
            buffer: frame.buffer.to_vec(),
        })),
        Ok(None) => Ok(None),
        Err(e) => Err(e),
    }
}


/// The number of bytes of an RGBA image of the given size.
pub open spec fn rgba_len(width: int, height: int) -> int {
    4 * width * height
}

/// Whether `image::ImageBuffer::from_raw` accepts a buffer of `len` bytes for
/// an RGBA image of the given size: the needed length, computed as
/// `4 * width` and then times `height`, fits in `usize` at each step, and the
/// buffer holds at least that many bytes.
pub open spec fn rgba_fits(width: u32, height: u32, len: nat) -> bool {
    &&& 4 * width <= usize::MAX
    &&& rgba_len(width as int, height as int) <= usize::MAX
    &&& rgba_len(width as int, height as int) <= len
}

/// The sizes for which an RGBA image can be built either way round:
/// `4 * width`, `4 * height` and `4 * width * height` fit in `usize` (the
/// products that `ImageBuffer::from_raw` and `ImageBuffer::new` check).
pub open spec fn rgba_dims_fit(width: int, height: int) -> bool {
    &&& 4 * width <= usize::MAX
    &&& 4 * height <= usize::MAX
    &&& rgba_len(width, height) <= usize::MAX
}

/// Builds an RGBA image from raw bytes with `image::RgbaImage::from_raw` and
/// hands its buffer back with `into_raw`. Trusted: the image is built exactly
/// when the buffer fits (`check_image_fits` in the source), and the buffer is
/// kept as it was given.
#[verifier::external_body]
pub(crate) fn rgba_from_raw(width: u32, height: u32, buf: Vec<u8>) -> (res: Option<Vec<u8>>)
    ensures
        res is Some <==> rgba_fits(width, height, buf@.len()),
        res matches Some(v) ==> v@ == buf@,
{
    match image::RgbaImage::from_raw(width, height, buf) {
        Some(img) => Some(img.into_raw()),
        None => None,
    }
}

/// What `image::DynamicImage::resize_exact` with `FilterType::Nearest` gives
/// for an RGBA image of `width` x `height` scaled to `size` x `size`: its
/// RGBA bytes.
pub uninterp spec fn rgba_resized_nearest(width: u32, height: u32, pixels: Seq<u8>, size: u32) -> Seq<u8>;

/// Scales an RGBA image to `size` x `size` with
/// `image::DynamicImage::resize_exact` and `FilterType::Nearest`. Trusted:
/// the result is the RGBA buffer named by `rgba_resized_nearest`, of exactly
/// `4 * size * size` bytes. The bounds on the sizes are those under which the
/// buffers that `resize` allocates (`ImageBuffer::new`) fit in `usize`, each
/// product checked as the source computes it.
#[verifier::external_body]
pub(crate) fn resize_exact_rgba(width: u32, height: u32, pixels: Vec<u8>, size: u32) -> (res: Vec<u8>)
    requires
        rgba_fits(width, height, pixels@.len()),
        rgba_len(width as int, size as int) <= usize::MAX,
        rgba_dims_fit(size as int, size as int),
    ensures
        res@ == rgba_resized_nearest(width, height, pixels@, size),
        res@.len() == rgba_len(size as int, size as int),
{
    let img = image::RgbaImage::from_raw(width, height, pixels).unwrap();
    image::DynamicImage::ImageRgba8(img)
        .resize_exact(size, size, image::imageops::FilterType::Nearest)
        .into_rgba8()
        .into_raw()
}

/// The RGBA bytes of an image of `width` x `height` turned 90 degrees
/// clockwise: the result is `height` wide and `width` high, and its pixel
/// (x, y) is the source pixel (y, height - 1 - x).
pub open spec fn rgba_rotated90(width: int, height: int, pixels: Seq<u8>) -> Seq<u8> {
    Seq::new(rgba_len(width, height) as nat, |i: int| {
        let x = (i / 4) % height;
        let y = (i / 4) / height;
        pixels[((height - 1 - x) * width + y) * 4 + i % 4]
    })
}

/// The RGBA bytes of an image of `width` x `height` turned 180 degrees: its
/// pixel (x, y) is the source pixel (width - 1 - x, height - 1 - y).
pub open spec fn rgba_rotated180(width: int, height: int, pixels: Seq<u8>) -> Seq<u8> {
    Seq::new(rgba_len(width, height) as nat, |i: int| {
        let x = (i / 4) % width;
        let y = (i / 4) / width;
        pixels[((height - 1 - y) * width + (width - 1 - x)) * 4 + i % 4]
    })
}

/// The RGBA bytes of an image of `width` x `height` turned 270 degrees
/// clockwise: the result is `height` wide and `width` high, and its pixel
/// (x, y) is the source pixel (width - 1 - y, x).
pub open spec fn rgba_rotated270(width: int, height: int, pixels: Seq<u8>) -> Seq<u8> {
    Seq::new(rgba_len(width, height) as nat, |i: int| {
        let x = (i / 4) % height;
        let y = (i / 4) / height;
        pixels[(x * width + (width - 1 - y)) * 4 + i % 4]
    })
}

/// Turns an RGBA image 90 degrees clockwise with
/// `image::DynamicImage::rotate90`. Trusted: the pixel mapping of
/// `imageops::rotate90_in` (source pixel (x, y) goes to (height - 1 - y, x)).
#[verifier::external_body]
pub(crate) fn rotate90_rgba(width: u32, height: u32, pixels: Vec<u8>) -> (res: Vec<u8>)
    requires
        pixels@.len() == rgba_len(width as int, height as int),
        rgba_dims_fit(width as int, height as int),
    ensures
        res@ == rgba_rotated90(width as int, height as int, pixels@),
{
    let img = image::RgbaImage::from_raw(width, height, pixels).unwrap();
    image::DynamicImage::ImageRgba8(img).rotate90().into_rgba8().into_raw()
}

/// Turns an RGBA image 180 degrees with `image::DynamicImage::rotate180`.
/// Trusted: the pixel mapping of `imageops::rotate180_in` (source pixel
/// (x, y) goes to (width - 1 - x, height - 1 - y)).
#[verifier::external_body]
pub(crate) fn rotate180_rgba(width: u32, height: u32, pixels: Vec<u8>) -> (res: Vec<u8>)
    requires
        pixels@.len() == rgba_len(width as int, height as int),
        rgba_dims_fit(width as int, height as int),
    ensures
        res@ == rgba_rotated180(width as int, height as int, pixels@),
{
    let img = image::RgbaImage::from_raw(width, height, pixels).unwrap();
    image::DynamicImage::ImageRgba8(img).rotate180().into_rgba8().into_raw()
}

/// Turns an RGBA image 270 degrees clockwise with
/// `image::DynamicImage::rotate270`. Trusted: the pixel mapping of
/// `imageops::rotate270_in` (source pixel (x, y) goes to (y, width - 1 - x)).
#[verifier::external_body]
pub(crate) fn rotate270_rgba(width: u32, height: u32, pixels: Vec<u8>) -> (res: Vec<u8>)
    requires
        pixels@.len() == rgba_len(width as int, height as int),
        rgba_dims_fit(width as int, height as int),
    ensures
        res@ == rgba_rotated270(width as int, height as int, pixels@),
{
    let img = image::RgbaImage::from_raw(width, height, pixels).unwrap();
    image::DynamicImage::ImageRgba8(img).rotate270().into_rgba8().into_raw()
}

/// What `image::DynamicImage::write_to` with `ImageOutputFormat::Png` writes
/// for an RGBA image: `None` when it reports an error, else the PNG file.
pub uninterp spec fn png_of_rgba(width: u32, height: u32, pixels: Seq<u8>) -> Option<Seq<u8>>;

/// Encodes an RGBA image as a PNG file in memory with
/// `image::DynamicImage::write_to` and `ImageOutputFormat::Png`. Trusted: the
/// outcome is the one named by `png_of_rgba`; on failure the encoder's error
/// is handed on (which error it is, is not stated).
#[verifier::external_body]
pub(crate) fn png_encode_rgba(width: u32, height: u32, pixels: Vec<u8>) -> (res: Result<Vec<u8>, image::ImageError>)
    requires
        pixels@.len() == rgba_len(width as int, height as int),
        rgba_dims_fit(width as int, height as int),
    ensures
        res is Ok <==> png_of_rgba(width, height, pixels@) is Some,
        res matches Ok(v) ==> png_of_rgba(width, height, pixels@) == Some(v@),
{
    let img = image::RgbaImage::from_raw(width, height, pixels).unwrap();
    let mut buf: Vec<u8> = Vec::new();
    match image::DynamicImage::ImageRgba8(img).write_to(
        &mut std::io::Cursor::new(&mut buf),
        image::ImageOutputFormat::Png,
    ) {
        Ok(()) => Ok(buf),
        Err(e) => Err(e),
    }
}

/// The symbol of the standard Base64 alphabet for a 6-bit value.
pub open spec fn base64_symbol(v: int) -> char {
    if v < 26 {
        (65 + v) as char
    } else if v < 52 {
        (97 + v - 26) as char
    } else if v < 62 {
        (48 + v - 52) as char
    } else if v == 62 {
        '+'
    } else {
        '/'
    }
}

/// Standard Base64 (RFC 4648, alphabet `A-Z a-z 0-9 + /`, padded with `=`).
pub open spec fn base64_standard(bytes: Seq<u8>) -> Seq<char>
    decreases bytes.len(),
{
    if bytes.len() == 0 {
        Seq::empty()
    } else if bytes.len() == 1 {
        let b0 = bytes[0] as int;
        seq![base64_symbol(b0 / 4), base64_symbol((b0 % 4) * 16), '=', '=']
    } else if bytes.len() == 2 {
        let b0 = bytes[0] as int;
        let b1 = bytes[1] as int;
        seq![
            base64_symbol(b0 / 4),
            base64_symbol((b0 % 4) * 16 + b1 / 16),
            base64_symbol((b1 % 16) * 4),
            '=',
        ]
    } else {
        let b0 = bytes[0] as int;
        let b1 = bytes[1] as int;
        let b2 = bytes[2] as int;
        seq![
            base64_symbol(b0 / 4),
            base64_symbol((b0 % 4) * 16 + b1 / 16),
            base64_symbol((b1 % 16) * 4 + b2 / 64),
            base64_symbol(b2 % 64),
        ] + base64_standard(bytes.skip(3))
    }
}

/// Encodes bytes with `base64::encode` (the `STANDARD` engine, padded).
/// Trusted: the result is the standard padded Base64 text of the bytes.
#[verifier::external_body]
pub(crate) fn base64_encode(bytes: &[u8]) -> (res: String)
    ensures
        res@ == base64_standard(bytes@),
{
    #[allow(deprecated)]
    base64::encode(bytes)
}

/// The symbols of Base64 are ASCII.
proof fn lemma_base64_symbol_ascii(v: int)
    requires
        0 <= v < 64,
    ensures
        '\0' <= base64_symbol(v) <= '\u{7f}',
{
    if v < 26 {
        assert((65 + v) as char as int == 65 + v);
    } else if v < 52 {
        assert((97 + v - 26) as char as int == 97 + v - 26);
    } else if v < 62 {
        assert((48 + v - 52) as char as int == 48 + v - 52);
    }
}

/// Base64 text is ASCII.
pub proof fn lemma_base64_ascii(bytes: Seq<u8>)
    ensures
        is_ascii_chars(base64_standard(bytes)),
    decreases bytes.len(),
{
    if bytes.len() > 0 {
        let b0 = bytes[0] as int;
        lemma_base64_symbol_ascii(b0 / 4);
        if bytes.len() == 1 {
            lemma_base64_symbol_ascii((b0 % 4) * 16);
        } else {
            let b1 = bytes[1] as int;
            lemma_base64_symbol_ascii((b0 % 4) * 16 + b1 / 16);
            if bytes.len() == 2 {
                lemma_base64_symbol_ascii((b1 % 16) * 4);
            } else {
                let b2 = bytes[2] as int;
                lemma_base64_symbol_ascii((b1 % 16) * 4 + b2 / 64);
                lemma_base64_symbol_ascii(b2 % 64);
                lemma_base64_ascii(bytes.skip(3));
            }
        }
    }
}

} // verus!
