//! Images attached to transcript messages: which formats the reader
//! decodes, the size checks an image must pass before it is decoded, and
//! the byte and pixel budget of one transcript.
use vstd::prelude::*;
use image::AnimationDecoder;
use crate::text::{eq_ignore_ascii_case, spec_trim, trimmed_is};
use crate::transcript::{ImageAttachment, TranscriptMessage};

verus! {

/// The image formats of the reader's renderer.
#[derive(Clone, Copy, Debug, PartialEq, Eq, Structural)]
pub enum ImageFormat {
    Png,
    Jpeg,
    Webp,
    Gif,
    Svg,
    Bmp,
    Tiff,
    Ico,
    Pnm,
}

/// The format that the `image` crate recognises from the leading bytes of
/// `bytes`, among those the renderer knows; `None` when it recognises none
/// of them.
pub uninterp spec fn sniffed_format(bytes: Seq<u8>) -> Option<ImageFormat>;

/// The width and height that the `image` crate reads from the header of
/// `bytes`, if it can.
pub uninterp spec fn header_dimensions(bytes: Seq<u8>) -> Option<(u32, u32)>;

/// Whether each of the first `limit` frames of the GIF `bytes` decodes,
/// in order; `None` when the GIF cannot be opened.
pub uninterp spec fn gif_frame_results(bytes: Seq<u8>, limit: usize) -> Option<Seq<bool>>;

/// Whether the WebP `bytes` are animated; `None` when they cannot be opened.
pub uninterp spec fn webp_animated(bytes: Seq<u8>) -> Option<bool>;

/// Whether each of the first `limit` frames of the WebP `bytes` decodes,
/// in order; `None` when the WebP cannot be opened.
pub uninterp spec fn webp_frame_results(bytes: Seq<u8>, limit: usize) -> Option<Seq<bool>>;

/// Calls `ImageReader::with_guessed_format` and `ImageReader::format` on
/// `bytes`. The contract names the result: the format found from the
/// leading bytes (no format hook is ever registered here), mapped to the
/// renderer's formats, other formats giving `None`.
#[verifier::external_body]
fn guessed_format(bytes: &[u8]) -> (res: Option<ImageFormat>)
    ensures
        res == sniffed_format(bytes@),
{
    let reader = image::ImageReader::new(std::io::Cursor::new(bytes)).with_guessed_format().ok()?;
    match reader.format()? {
        image::ImageFormat::Png => Some(ImageFormat::Png),
        image::ImageFormat::Jpeg => Some(ImageFormat::Jpeg),
        image::ImageFormat::WebP => Some(ImageFormat::Webp),
        image::ImageFormat::Gif => Some(ImageFormat::Gif),
        image::ImageFormat::Bmp => Some(ImageFormat::Bmp),
        image::ImageFormat::Tiff => Some(ImageFormat::Tiff),
        image::ImageFormat::Ico => Some(ImageFormat::Ico),
        image::ImageFormat::Pnm => Some(ImageFormat::Pnm),
        _ => None,
    }
}

/// Calls `ImageReader::into_dimensions` on a reader of `bytes` whose
/// format was guessed; the contract names the result.
#[verifier::external_body]
fn read_dimensions(bytes: &[u8]) -> (res: Option<(u32, u32)>)
    ensures
        res == header_dimensions(bytes@),
{
    let reader = image::ImageReader::new(std::io::Cursor::new(bytes)).with_guessed_format().ok()?;
    reader.into_dimensions().ok()
}

/// Calls `GifDecoder::new` on `bytes` and takes at most `limit` frames of
/// `into_frames`, each reduced to whether it decoded. The contract names
/// the result and states what `Iterator::take` promises: no more than
/// `limit` frames.
#[verifier::external_body]
fn decode_gif_frames(bytes: &[u8], limit: usize) -> (res: Option<Vec<bool>>)
    ensures
        match res {
            Some(v) => gif_frame_results(bytes@, limit) == Some(v@) && v@.len() <= limit,
            None => gif_frame_results(bytes@, limit) is None,
        },
{
    let decoder = image::codecs::gif::GifDecoder::new(std::io::Cursor::new(bytes)).ok()?;
    Some(decoder.into_frames().take(limit).map(|frame| frame.is_ok()).collect())
}

/// Calls `WebPDecoder::new` on `bytes` and `has_animation`; the contract
/// names the result.
#[verifier::external_body]
fn webp_has_animation(bytes: &[u8]) -> (res: Option<bool>)
    ensures
        res == webp_animated(bytes@),
{
    let decoder = image::codecs::webp::WebPDecoder::new(std::io::Cursor::new(bytes)).ok()?;
    Some(decoder.has_animation())
}

/// Calls `WebPDecoder::new` on `bytes` and takes at most `limit` frames of
/// `into_frames`, each reduced to whether it decoded. The contract names
/// the result and states what `Iterator::take` promises.
#[verifier::external_body]
fn decode_webp_frames(bytes: &[u8], limit: usize) -> (res: Option<Vec<bool>>)
    ensures
        match res {
            Some(v) => webp_frame_results(bytes@, limit) == Some(v@) && v@.len() <= limit,
            None => webp_frame_results(bytes@, limit) is None,
        },
{
    let decoder = image::codecs::webp::WebPDecoder::new(std::io::Cursor::new(bytes)).ok()?;
    Some(decoder.into_frames().take(limit).map(|frame| frame.is_ok()).collect())
}

} // verus!

verus! {

/// `media`, without surrounding whitespace and ignoring ASCII case, is `lit`.
pub open spec fn media_is(media: Seq<char>, lit: &str) -> bool {
    eq_ignore_ascii_case(spec_trim(media), lit@)
}

/// The renderer format of an image by its media type; SVG is not decoded
/// (its drawing cost cannot be bounded before decoding) and offered as a
/// download instead.
pub open spec fn spec_image_format_of(media: Seq<char>) -> Option<ImageFormat> {
    if media_is(media, "image/png") {
        Some(ImageFormat::Png)
    } else if media_is(media, "image/jpeg") || media_is(media, "image/jpg") {
        Some(ImageFormat::Jpeg)
    } else if media_is(media, "image/webp") {
        Some(ImageFormat::Webp)
    } else if media_is(media, "image/gif") {
        Some(ImageFormat::Gif)
    } else if media_is(media, "image/bmp") {
        Some(ImageFormat::Bmp)
    } else if media_is(media, "image/tiff") || media_is(media, "image/tif") {
        Some(ImageFormat::Tiff)
    } else {
        None
    }
}

/// The renderer format of an image by its media type.
pub fn image_format_of(media_type: &str) -> (res: Option<ImageFormat>)
    ensures
        res == spec_image_format_of(media_type@),
{
    if trimmed_is(media_type, "image/png") {
        Some(ImageFormat::Png)
    } else if trimmed_is(media_type, "image/jpeg") || trimmed_is(media_type, "image/jpg") {
        Some(ImageFormat::Jpeg)
    } else if trimmed_is(media_type, "image/webp") {
        Some(ImageFormat::Webp)
    } else if trimmed_is(media_type, "image/gif") {
        Some(ImageFormat::Gif)
    } else if trimmed_is(media_type, "image/bmp") {
        Some(ImageFormat::Bmp)
    } else if trimmed_is(media_type, "image/tiff") || trimmed_is(media_type, "image/tif") {
        Some(ImageFormat::Tiff)
    } else {
        None
    }
}

/// The file extension an image is saved with, by its media type.
pub open spec fn spec_image_extension(media: Seq<char>) -> Seq<char> {
    if media_is(media, "image/jpeg") || media_is(media, "image/jpg") {
        "jpg"@
    } else if media_is(media, "image/webp") {
        "webp"@
    } else if media_is(media, "image/gif") {
        "gif"@
    } else if media_is(media, "image/svg+xml") {
        "svg"@
    } else if media_is(media, "image/bmp") {
        "bmp"@
    } else if media_is(media, "image/tiff") || media_is(media, "image/tif") {
        "tiff"@
    } else if media_is(media, "image/heic") || media_is(media, "image/heif") {
        "heic"@
    } else if media_is(media, "image/avif") {
        "avif"@
    } else {
        "png"@
    }
}

/// The file extension an image is saved with; PNG when the media type is
/// not known.
pub fn image_extension(media_type: &str) -> (res: &'static str)
    ensures
        res@ == spec_image_extension(media_type@),
{
    if trimmed_is(media_type, "image/jpeg") || trimmed_is(media_type, "image/jpg") {
        "jpg"
    } else if trimmed_is(media_type, "image/webp") {
        "webp"
    } else if trimmed_is(media_type, "image/gif") {
        "gif"
    } else if trimmed_is(media_type, "image/svg+xml") {
        "svg"
    } else if trimmed_is(media_type, "image/bmp") {
        "bmp"
    } else if trimmed_is(media_type, "image/tiff") || trimmed_is(media_type, "image/tif") {
        "tiff"
    } else if trimmed_is(media_type, "image/heic") || trimmed_is(media_type, "image/heif") {
        "heic"
    } else if trimmed_is(media_type, "image/avif") {
        "avif"
    } else {
        "png"
    }
}

/// Largest width or height decoded.
pub const MAX_DIMENSION: u32 = 8192;

/// Largest pixel count of one frame.
pub const MAX_STATIC_PIXELS: u64 = 16_000_000;

/// Largest pixel count of all frames of an animation.
pub const MAX_ANIMATED_PIXELS: u64 = 32_000_000;

/// Most frames of an animation.
pub const MAX_ANIMATION_FRAMES: usize = 120;

/// An image that passed the checks: its size and the pixels its frames
/// decode to.
#[derive(Clone, Copy, Debug, PartialEq, Eq)]
pub struct ImageProbe {
    pub dims: (u32, u32),
    pub decoded_pixels: u64,
}

/// The format the leading bytes must show for a declared format; formats
/// the reader never decodes have none.
pub open spec fn expected_format(format: ImageFormat) -> Option<ImageFormat> {
    match format {
        ImageFormat::Svg | ImageFormat::Ico | ImageFormat::Pnm => None,
        other => Some(other),
    }
}

/// The pixels of one frame, when the image is of its declared format and
/// its header gives a size within the limits.
pub open spec fn spec_frame_pixels(
    format: ImageFormat,
    guessed: Option<ImageFormat>,
    dims: Option<(u32, u32)>,
) -> Option<u64> {
    match (expected_format(format), guessed, dims) {
        (Some(e), Some(g), Some((w, h))) => if g != e || w == 0 || h == 0 || w > MAX_DIMENSION || h
            > MAX_DIMENSION || w * h > MAX_STATIC_PIXELS {
            None
        } else {
            Some((w * h) as u64)
        },
        _ => None,
    }
}

/// The checks made before any frame is decoded: the bytes are of the
/// declared format (as the `image` crate recognised it, `guessed`), and
/// the size read from the header (`dims`) is within the limits. Returns the
/// pixels of one frame.
pub fn frame_pixels(format: ImageFormat, guessed: Option<ImageFormat>, dims: Option<(u32, u32)>) -> (res:
    Option<u64>)
    ensures
        res == spec_frame_pixels(format, guessed, dims),
        res matches Some(p) ==> p > 0,
{
    let expected = match format {
        ImageFormat::Svg | ImageFormat::Ico | ImageFormat::Pnm => {
            return None;
        },
        other => other,
    };
    let g = match guessed {
        Some(g) => g,
        None => {
            return None;
        },
    };
    if g != expected {
        return None;
    }
    let (w, h) = match dims {
        Some(d) => d,
        None => {
            return None;
        },
    };
    if w == 0 || h == 0 || w > MAX_DIMENSION || h > MAX_DIMENSION {
        return None;
    }
    assert(1 <= (w as u64) * (h as u64) <= 8192 * 8192) by (nonlinear_arith)
        requires
            1 <= w <= 8192,
            1 <= h <= 8192,
    ;
    let pixels = (w as u64) * (h as u64);
    if pixels > MAX_STATIC_PIXELS {
        return None;
    }
    Some(pixels)
}

/// How many frames of `pixels_per_frame` pixels fit in `max_pixels`, at
/// least one and at most the frame limit.
pub open spec fn frame_budget(pixels_per_frame: u64, max_pixels: u64) -> int {
    let n = max_pixels / pixels_per_frame;
    if n < 1 {
        1
    } else if n > MAX_ANIMATION_FRAMES {
        MAX_ANIMATION_FRAMES as int
    } else {
        n as int
    }
}

/// The frame count of an animation whose frames decoded as `results` (in
/// order), when it stays within `limit` frames: `None` when a frame fails
/// or there are none or too many.
pub open spec fn spec_bounded_frames(results: Seq<bool>, limit: int) -> Option<usize> {
    let seen = results.take(min_int(results.len() as int, limit + 1));
    if seen.len() == 0 || seen.len() > limit || exists|i: int| 0 <= i < seen.len() && !seen[i] {
        None
    } else {
        Some(seen.len() as usize)
    }
}

pub open spec fn min_int(a: int, b: int) -> int {
    if a <= b {
        a
    } else {
        b
    }
}

/// Counts the frames of an animation, given whether each decoded, within
/// the frames that `max_pixels` allows at `pixels_per_frame` pixels each.
pub fn bounded_animation_frames(results: &[bool], pixels_per_frame: u64, max_pixels: u64) -> (res:
    Option<usize>)
    requires
        pixels_per_frame > 0,
    ensures
        res == spec_bounded_frames(results@, frame_budget(pixels_per_frame, max_pixels)),
{
    let n = max_pixels / pixels_per_frame;
    let limit: usize = if n < 1 {
        1
    } else if n > 120 {
        120
    } else {
        n as usize
    };
    let ghost seen = results@.take(min_int(results@.len() as int, limit + 1));
    let mut count: usize = 0;
    while count < results.len()
        invariant
            count <= results.len(),
            count <= limit,
            1 <= limit <= 120,
            limit == frame_budget(pixels_per_frame, max_pixels),
            seen == results@.take(min_int(results@.len() as int, limit + 1)),
            forall|i: int| 0 <= i < count ==> #[trigger] results@[i],
        decreases results.len() - count,
    {
        if !results[count] {
            proof {
                assert(seen[count as int] == results@[count as int]);
            }
            return None;
        }
        count += 1;
        if count > limit {
            return None;
        }
    }
    assert(seen =~= results@.take(count as int));
    if count > 0 {
        assert(forall|i: int| 0 <= i < seen.len() ==> seen[i] == results@[i]);
        Some(count)
    } else {
        None
    }
}

/// The frame count of the image, for the checks on animations.
pub open spec fn spec_frame_count(format: ImageFormat, bytes: Seq<u8>, pixels: u64) -> Option<usize> {
    let limit = frame_budget(pixels, MAX_ANIMATED_PIXELS);
    match format {
        ImageFormat::Gif => match gif_frame_results(bytes, (limit + 1) as usize) {
            Some(r) => spec_bounded_frames(r, limit),
            None => None,
        },
        ImageFormat::Webp => match webp_animated(bytes) {
            Some(true) => match webp_frame_results(bytes, (limit + 1) as usize) {
                Some(r) => spec_bounded_frames(r, limit),
                None => None,
            },
            Some(false) => Some(1),
            None => None,
        },
        _ => Some(1),
    }
}

/// The result of the checks once the frames are counted.
pub open spec fn spec_finish_probe(dims: (u32, u32), pixels: u64, frames: usize) -> Option<
    ImageProbe,
> {
    if frames > MAX_ANIMATION_FRAMES || pixels * frames > u64::MAX {
        None
    } else {
        Some(ImageProbe { dims, decoded_pixels: (pixels * frames) as u64 })
    }
}

/// The probe of an image of `pixels` pixels per frame and `frames` frames:
/// none past the frame limit.
pub fn finish_probe(dims: (u32, u32), pixels: u64, frames: usize) -> (res: Option<ImageProbe>)
    ensures
        res == spec_finish_probe(dims, pixels, frames),
{
    if frames > MAX_ANIMATION_FRAMES {
        return None;
    }
    match pixels.checked_mul(frames as u64) {
        Some(p) => Some(ImageProbe { dims, decoded_pixels: p }),
        None => None,
    }
}

/// What the checks decide for `bytes` declared as `format`.
pub open spec fn spec_image_probe(bytes: Seq<u8>, format: ImageFormat) -> Option<ImageProbe> {
    match spec_frame_pixels(format, sniffed_format(bytes), header_dimensions(bytes)) {
        Some(pixels) => match spec_frame_count(format, bytes, pixels) {
            Some(frames) => spec_finish_probe(header_dimensions(bytes)->0, pixels, frames),
            None => None,
        },
        None => None,
    }
}

/// Checks an image before it is decoded: its bytes must be of the declared
/// format, at most 8192 pixels wide and high and 16 million pixels large,
/// and an animation at most 120 frames and 32 million pixels in all, each
/// frame decoding. Returns its size and decoded pixel count.
pub fn image_probe(bytes: &[u8], format: ImageFormat) -> (res: Option<ImageProbe>)
    ensures
        res == spec_image_probe(bytes@, format),
{
    let guessed = guessed_format(bytes);
    let dims = match guessed {
        Some(g) => if expected_format_of(format) == Some(g) {
            read_dimensions(bytes)
        } else {
            None
        },
        None => None,
    };
    proof {
        if dims != header_dimensions(bytes@) {
            assert(spec_frame_pixels(format, guessed, header_dimensions(bytes@)) is None);
        }
    }
    let pixels = match frame_pixels(format, guessed, dims) {
        Some(p) => p,
        None => {
            return None;
        },
    };
    let d = match dims {
        Some(d) => d,
        None => {
            return None;
        },
    };
    let n = MAX_ANIMATED_PIXELS / pixels;
    let limit: usize = if n < 1 {
        1
    } else if n > 120 {
        120
    } else {
        n as usize
    };
    let frames = match format {
        ImageFormat::Gif => match decode_gif_frames(bytes, limit + 1) {
            Some(r) => bounded_animation_frames(r.as_slice(), pixels, MAX_ANIMATED_PIXELS),
            None => None,
        },
        ImageFormat::Webp => match webp_has_animation(bytes) {
            Some(true) => match decode_webp_frames(bytes, limit + 1) {
                Some(r) => bounded_animation_frames(r.as_slice(), pixels, MAX_ANIMATED_PIXELS),
                None => None,
            },
            Some(false) => Some(1),
            None => None,
        },
        _ => Some(1),
    };
    match frames {
        Some(f) => finish_probe(d, pixels, f),
        None => None,
    }
}

fn expected_format_of(format: ImageFormat) -> (res: Option<ImageFormat>)
    ensures
        res == expected_format(format),
{
    match format {
        ImageFormat::Svg | ImageFormat::Ico | ImageFormat::Pnm => None,
        other => Some(other),
    }
}

} // verus!

verus! {

/// How one attached image is shown in the reader.
#[derive(Clone, Debug)]
pub enum ImageSlot {
    /// Decoded and shown inline.
    Ready {
        format: ImageFormat,
        bytes: Vec<u8>,
        dims: Option<(u32, u32)>,
        decoded_pixels: u64,
        text_offset: usize,
    },
    /// Not decoded; offered as a download.
    Unsupported { media_type: String, bytes: Vec<u8>, text_offset: usize },
    /// Over the transcript's byte budget; its bytes are not kept.
    Omitted { text_offset: usize },
}

impl ImageSlot {
    pub open spec fn spec_text_offset(self) -> usize {
        match self {
            ImageSlot::Ready { text_offset, .. } => text_offset,
            ImageSlot::Unsupported { text_offset, .. } => text_offset,
            ImageSlot::Omitted { text_offset } => text_offset,
        }
    }

    /// The byte offset of the message text where the image stands.
    pub fn text_offset(&self) -> (res: usize)
        ensures
            res == self.spec_text_offset(),
    {
        match self {
            ImageSlot::Ready { text_offset, .. } => *text_offset,
            ImageSlot::Unsupported { text_offset, .. } => *text_offset,
            ImageSlot::Omitted { text_offset } => *text_offset,
        }
    }
}

/// Bytes of images one transcript keeps.
pub const TRANSCRIPT_IMAGE_BYTES: usize = 67_108_864;

/// Pixels the images of one transcript may decode to.
pub const TRANSCRIPT_DECODED_PIXELS: u64 = 96_000_000;

/// The slot of one attachment of a message whose text is `text_len` bytes
/// long, with `bytes_left` and `pixels_left` of the budgets, and the
/// budgets left after it. An image over the byte budget is omitted;
/// otherwise its bytes are paid, and it is decoded when its format is known,
/// it passes the checks and its pixels fit the pixel budget.
pub open spec fn slot_for(
    att: ImageAttachment,
    text_len: int,
    bytes_left: int,
    pixels_left: int,
) -> (ImageSlot, int, int) {
    let text_offset = (if att.text_offset <= text_len {
        att.text_offset as int
    } else {
        text_len
    }) as usize;
    if att.bytes@.len() > bytes_left {
        (ImageSlot::Omitted { text_offset }, bytes_left, pixels_left)
    } else {
        let rest = bytes_left - att.bytes@.len();
        let unsupported = ImageSlot::Unsupported {
            media_type: att.media_type,
            bytes: att.bytes,
            text_offset,
        };
        match spec_image_format_of(att.media_type@) {
            Some(format) => match spec_image_probe(att.bytes@, format) {
                Some(probe) => if probe.decoded_pixels <= pixels_left {
                    (
                        ImageSlot::Ready {
                            format,
                            bytes: att.bytes,
                            dims: Some(probe.dims),
                            decoded_pixels: probe.decoded_pixels,
                            text_offset,
                        },
                        rest,
                        pixels_left - probe.decoded_pixels,
                    )
                } else {
                    (unsupported, rest, pixels_left)
                },
                None => (unsupported, rest, pixels_left),
            },
            None => (unsupported, rest, pixels_left),
        }
    }
}

/// The slots of the attachments of one message, in order, and the budgets
/// left after them.
pub open spec fn slots_for(
    atts: Seq<ImageAttachment>,
    text_len: int,
    bytes_left: int,
    pixels_left: int,
) -> (Seq<ImageSlot>, int, int)
    decreases atts.len(),
{
    if atts.len() == 0 {
        (Seq::empty(), bytes_left, pixels_left)
    } else {
        let (prev, b, p) = slots_for(atts.drop_last(), text_len, bytes_left, pixels_left);
        let (slot, b2, p2) = slot_for(atts.last(), text_len, b, p);
        (prev.push(slot), b2, p2)
    }
}

/// The byte length of the UTF-8 text of `m`, as `str::len` reports it.
pub open spec fn text_bytes(m: TranscriptMessage) -> int {
    vstd::utf8::encode_utf8(m.text@).len() as usize as int
}

/// The slots of all messages' attachments, message by message, and the
/// budgets left after them.
pub open spec fn transcript_slots(
    messages: Seq<TranscriptMessage>,
    bytes_left: int,
    pixels_left: int,
) -> (Seq<Seq<ImageSlot>>, int, int)
    decreases messages.len(),
{
    if messages.len() == 0 {
        (Seq::empty(), bytes_left, pixels_left)
    } else {
        let (prev, b, p) = transcript_slots(messages.drop_last(), bytes_left, pixels_left);
        let m = messages.last();
        let (slots, b2, p2) = slots_for(m.images@, text_bytes(m), b, p);
        (prev.push(slots), b2, p2)
    }
}

/// `after` is `before` with its images taken out.
pub open spec fn images_taken(before: TranscriptMessage, after: TranscriptMessage) -> bool {
    &&& after.seq == before.seq
    &&& after.role == before.role
    &&& after.kind == before.kind
    &&& after.text == before.text
    &&& after.tool_calls == before.tool_calls
    &&& after.thinking == before.thinking
    &&& after.images@.len() == 0
}

fn slot_of(att: ImageAttachment, text_len: usize, bytes_left: usize, pixels_left: u64) -> (res: (
    ImageSlot,
    usize,
    u64,
))
    ensures
        (res.0, res.1 as int, res.2 as int) == slot_for(
            att,
            text_len as int,
            bytes_left as int,
            pixels_left as int,
        ),
{
    let text_offset = if att.text_offset <= text_len {
        att.text_offset
    } else {
        text_len
    };
    if att.bytes.len() > bytes_left {
        return (ImageSlot::Omitted { text_offset }, bytes_left, pixels_left);
    }
    let rest = bytes_left - att.bytes.len();
    let probe = match image_format_of(att.media_type.as_str()) {
        Some(format) => match image_probe(att.bytes.as_slice(), format) {
            Some(p) => if p.decoded_pixels <= pixels_left {
                Some((format, p))
            } else {
                None
            },
            None => None,
        },
        None => None,
    };
    match probe {
        Some((format, p)) => (
            ImageSlot::Ready {
                format,
                bytes: att.bytes,
                dims: Some(p.dims),
                decoded_pixels: p.decoded_pixels,
                text_offset,
            },
            rest,
            pixels_left - p.decoded_pixels,
        ),
        None => (
            ImageSlot::Unsupported { media_type: att.media_type, bytes: att.bytes, text_offset },
            rest,
            pixels_left,
        ),
    }
}

/// Takes the attachments out of `messages` and decides how each is shown,
/// within one transcript's budgets: 64 MiB of image bytes and 96 million
/// decoded pixels, spent in message order.
pub fn take_image_slots(messages: &mut Vec<TranscriptMessage>) -> (res: Vec<Vec<ImageSlot>>)
    ensures
        final(messages)@.len() == old(messages)@.len(),
        forall|i: int|
            0 <= i < old(messages)@.len() ==> images_taken(
                #[trigger] old(messages)@[i],
                final(messages)@[i],
            ),
        res@.len() == old(messages)@.len(),
        forall|i: int|
            0 <= i < res@.len() ==> #[trigger] res@[i]@ == transcript_slots(
                old(messages)@,
                TRANSCRIPT_IMAGE_BYTES as int,
                TRANSCRIPT_DECODED_PIXELS as int,
            ).0[i],
{
    let ghost orig = messages@;
    let mut rest: Vec<TranscriptMessage> = Vec::new();
    std::mem::swap(&mut rest, messages);
    let n = rest.len();
    let mut out: Vec<Vec<ImageSlot>> = Vec::new();
    let mut bytes_left: usize = TRANSCRIPT_IMAGE_BYTES;
    let mut pixels_left: u64 = TRANSCRIPT_DECODED_PIXELS;
    let mut i: usize = 0;
    while rest.len() > 0
        invariant
            i <= n,
            orig.len() == n,
            rest@ == orig.subrange(i as int, n as int),
            messages@.len() == i,
            out@.len() == i,
            forall|k: int| 0 <= k < i ==> images_taken(#[trigger] orig[k], messages@[k]),
            ({
                let (slots, b, p) = transcript_slots(
                    orig.take(i as int),
                    TRANSCRIPT_IMAGE_BYTES as int,
                    TRANSCRIPT_DECODED_PIXELS as int,
                );
                &&& b == bytes_left as int
                &&& p == pixels_left as int
                &&& slots.len() == i
                &&& forall|k: int| 0 <= k < i ==> #[trigger] out@[k]@ == slots[k]
            }),
        decreases rest.len(),
    {
        let mut m = rest.remove(0);
        proof {
            assert(m == orig[i as int]);
            assert(rest@ =~= orig.subrange(i + 1, n as int));
        }
        let mut atts: Vec<ImageAttachment> = Vec::new();
        std::mem::swap(&mut atts, &mut m.images);
        let ghost all_atts = atts@;
        let text_len = m.text.as_str().len();
        assert(m.text == orig[i as int].text);
        assert(text_len as int == text_bytes(orig[i as int]));
        let k_n = atts.len();
        let mut slots: Vec<ImageSlot> = Vec::new();
        let mut j: usize = 0;
        let ghost b0 = bytes_left as int;
        let ghost p0 = pixels_left as int;
        while atts.len() > 0
            invariant
                i < n,
                orig.len() == n,
                j <= k_n,
                all_atts.len() == k_n,
                atts@ == all_atts.subrange(j as int, k_n as int),
                text_len as int == text_bytes(orig[i as int]),
                ({
                    let (s, b, p) = slots_for(all_atts.take(j as int), text_len as int, b0, p0);
                    &&& s == slots@
                    &&& b == bytes_left as int
                    &&& p == pixels_left as int
                }),
            decreases atts.len(),
        {
            let att = atts.remove(0);
            proof {
                assert(att == all_atts[j as int]);
                assert(atts@ =~= all_atts.subrange(j + 1, k_n as int));
                let t = all_atts.take(j + 1 as int);
                assert(t.drop_last() =~= all_atts.take(j as int));
                assert(t.last() == all_atts[j as int]);
            }
            let (slot, b, p) = slot_of(att, text_len, bytes_left, pixels_left);
            slots.push(slot);
            bytes_left = b;
            pixels_left = p;
            j += 1;
        }
        proof {
            assert(all_atts.take(k_n as int) =~= all_atts);
            assert(all_atts == orig[i as int].images@);
            let t = orig.take(i + 1 as int);
            assert(t.drop_last() =~= orig.take(i as int));
            assert(t.last() == orig[i as int]);
        }
        messages.push(m);
        out.push(slots);
        i += 1;
    }
    assert(orig.take(n as int) =~= orig);
    out
}

} // verus!

verus! {

/// The image bytes a slot keeps.
pub open spec fn kept_bytes(slot: ImageSlot) -> int {
    match slot {
        ImageSlot::Ready { bytes, .. } => bytes@.len() as int,
        ImageSlot::Unsupported { bytes, .. } => bytes@.len() as int,
        ImageSlot::Omitted { .. } => 0,
    }
}

/// The pixels a slot decodes to.
pub open spec fn decoded_pixels_of(slot: ImageSlot) -> int {
    match slot {
        ImageSlot::Ready { decoded_pixels, .. } => decoded_pixels as int,
        _ => 0,
    }
}

pub open spec fn slots_bytes(slots: Seq<ImageSlot>) -> int
    decreases slots.len(),
{
    if slots.len() == 0 {
        0
    } else {
        slots_bytes(slots.drop_last()) + kept_bytes(slots.last())
    }
}

pub open spec fn slots_pixels(slots: Seq<ImageSlot>) -> int
    decreases slots.len(),
{
    if slots.len() == 0 {
        0
    } else {
        slots_pixels(slots.drop_last()) + decoded_pixels_of(slots.last())
    }
}

/// The image bytes all messages keep.
pub open spec fn transcript_bytes(slots: Seq<Seq<ImageSlot>>) -> int
    decreases slots.len(),
{
    if slots.len() == 0 {
        0
    } else {
        transcript_bytes(slots.drop_last()) + slots_bytes(slots.last())
    }
}

/// The pixels all messages' images decode to.
pub open spec fn transcript_pixels(slots: Seq<Seq<ImageSlot>>) -> int
    decreases slots.len(),
{
    if slots.len() == 0 {
        0
    } else {
        transcript_pixels(slots.drop_last()) + slots_pixels(slots.last())
    }
}

proof fn lemma_slots_pay(atts: Seq<ImageAttachment>, text_len: int, b: int, p: int)
    requires
        b >= 0,
        p >= 0,
    ensures
        ({
            let (slots, b2, p2) = slots_for(atts, text_len, b, p);
            &&& 0 <= b2 <= b
            &&& 0 <= p2 <= p
            &&& slots_bytes(slots) == b - b2
            &&& slots_pixels(slots) == p - p2
            &&& slots.len() == atts.len()
        }),
    decreases atts.len(),
{
    if atts.len() > 0 {
        lemma_slots_pay(atts.drop_last(), text_len, b, p);
        let (prev, b1, p1) = slots_for(atts.drop_last(), text_len, b, p);
        let (slot, b2, p2) = slot_for(atts.last(), text_len, b1, p1);
        let slots = prev.push(slot);
        assert(slots.drop_last() =~= prev);
    }
}

proof fn lemma_transcript_pays(messages: Seq<TranscriptMessage>, b: int, p: int)
    requires
        b >= 0,
        p >= 0,
    ensures
        ({
            let (slots, b2, p2) = transcript_slots(messages, b, p);
            &&& 0 <= b2 <= b
            &&& 0 <= p2 <= p
            &&& transcript_bytes(slots) == b - b2
            &&& transcript_pixels(slots) == p - p2
            &&& slots.len() == messages.len()
        }),
    decreases messages.len(),
{
    if messages.len() > 0 {
        lemma_transcript_pays(messages.drop_last(), b, p);
        let (prev, b1, p1) = transcript_slots(messages.drop_last(), b, p);
        let m = messages.last();
        lemma_slots_pay(m.images@, text_bytes(m), b1, p1);
        let (s, b2, p2) = slots_for(m.images@, text_bytes(m), b1, p1);
        assert(prev.push(s).drop_last() =~= prev);
    }
}

/// The images of one transcript never keep more than 64 MiB of bytes nor
/// decode to more than 96 million pixels, whatever the messages hold.
pub proof fn law_image_budget_respected(messages: Seq<TranscriptMessage>)
    ensures
        ({
            let slots = transcript_slots(
                messages,
                TRANSCRIPT_IMAGE_BYTES as int,
                TRANSCRIPT_DECODED_PIXELS as int,
            ).0;
            &&& transcript_bytes(slots) <= TRANSCRIPT_IMAGE_BYTES
            &&& transcript_pixels(slots) <= TRANSCRIPT_DECODED_PIXELS
            &&& slots.len() == messages.len()
        }),
{
    lemma_transcript_pays(messages, TRANSCRIPT_IMAGE_BYTES as int, TRANSCRIPT_DECODED_PIXELS as int);
}

/// An image kept or decoded was checked: a decoded image passed the
/// format and size checks, and an image is omitted only when its bytes did
/// not fit what was left of the byte budget.
pub proof fn law_slot_reasons(att: ImageAttachment, text_len: int, b: int, p: int)
    ensures
        ({
            let (slot, b2, p2) = slot_for(att, text_len, b, p);
            &&& (slot is Omitted <==> att.bytes@.len() > b)
            &&& (slot matches ImageSlot::Ready { format, decoded_pixels, .. } ==> {
                &&& spec_image_format_of(att.media_type@) == Some(format)
                &&& spec_image_probe(att.bytes@, format) matches Some(probe)
                &&& probe.decoded_pixels == decoded_pixels
                &&& decoded_pixels <= p
            })
        }),
{
}

} // verus!

verus! {

/// A run of images of one message that stand at the same place of its
/// text: slots `first..end`, at byte `offset`.
#[derive(Clone, Copy, Debug, PartialEq, Eq, Structural)]
pub struct ImageGroup {
    pub first: usize,
    pub end: usize,
    pub offset: usize,
}

/// Where an image at `offset` stands in a text of `len` bytes.
pub open spec fn placed(offset: usize, len: usize) -> usize {
    if offset <= len {
        offset
    } else {
        len
    }
}

/// The groups of the images at `offsets` (in order): each image joins the
/// group before it when it stands where that group's first image stands.
pub open spec fn image_groups(offsets: Seq<usize>, len: usize) -> Seq<ImageGroup>
    decreases offsets.len(),
{
    if offsets.len() == 0 {
        Seq::empty()
    } else {
        let prev = image_groups(offsets.drop_last(), len);
        let k = (offsets.len() - 1) as usize;
        let here = placed(offsets.last(), len);
        if prev.len() > 0 && prev.last().offset == here {
            prev.drop_last().push(ImageGroup { end: (k + 1) as usize, ..prev.last() })
        } else {
            prev.push(ImageGroup { first: k, end: (k + 1) as usize, offset: here })
        }
    }
}

/// The groups in which the images of a message are shown, the text of the
/// message running between them.
pub fn group_images(slots: &Vec<ImageSlot>, text_len: usize) -> (res: Vec<ImageGroup>)
    ensures
        res@ == image_groups(slots@.map_values(|s: ImageSlot| s.spec_text_offset()), text_len),
{
    let ghost offs = slots@.map_values(|s: ImageSlot| s.spec_text_offset());
    let mut groups: Vec<ImageGroup> = Vec::new();
    let mut i: usize = 0;
    while i < slots.len()
        invariant
            i <= slots.len(),
            offs == slots@.map_values(|s: ImageSlot| s.spec_text_offset()),
            groups@ == image_groups(offs.take(i as int), text_len),
        decreases slots.len() - i,
    {
        let o = slots[i].text_offset();
        let here = if o <= text_len {
            o
        } else {
            text_len
        };
        proof {
            let t = offs.take(i + 1 as int);
            assert(t.drop_last() =~= offs.take(i as int));
            assert(t.last() == offs[i as int]);
        }
        let n = groups.len();
        if n > 0 && groups[n - 1].offset == here {
            let last = groups[n - 1];
            let ghost before = groups@;
            groups.set(n - 1, ImageGroup { end: i + 1, ..last });
            assert(groups@ =~= before.drop_last().push(ImageGroup { end: (i + 1) as usize, ..last }));
        } else {
            groups.push(ImageGroup { first: i, end: i + 1, offset: here });
        }
        i += 1;
    }
    assert(offs.take(i as int) =~= offs);
    groups
}

} // verus!
