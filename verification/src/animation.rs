//! Decoded animations: decoding a GIF into frames, frame timing, scaling
//! decisions, and the metadata kept beside the cached frames.

use vstd::prelude::*;
use image::AnimationDecoder;

verus! {

/// What the cache records about an animation beside its frames.
#[derive(Debug)]
pub struct Meta {
    /// Width in pixels of every frame.
    pub width: u32,
    /// Height in pixels of every frame.
    pub height: u32,
    /// Number of frames.
    pub n_frames: usize,
    /// Display time of each frame, in milliseconds.
    pub durations: Vec<u32>,
    /// File name of the GIF the frames were decoded from.
    pub source: String,
}

/// A frame as the GIF decoder hands it out: RGBA pixels, row by row, and
/// its delay as the fraction `delay_numer / delay_denom` milliseconds.
#[derive(Debug)]
pub struct RawFrame {
    /// Width in pixels.
    pub width: u32,
    /// Height in pixels.
    pub height: u32,
    /// Four bytes (red, green, blue, alpha) per pixel.
    pub rgba: Vec<u8>,
    /// Numerator of the delay in milliseconds.
    pub delay_numer: u32,
    /// Denominator of the delay in milliseconds.
    pub delay_denom: u32,
}

/// A frame as plain values: width, height, pixels, delay numerator and
/// denominator.
pub type FrameValue = (u32, u32, Seq<u8>, u32, u32);

impl RawFrame {
    /// The frame as plain values.
    pub open spec fn value(&self) -> FrameValue {
        (self.width, self.height, self.rgba@, self.delay_numer, self.delay_denom)
    }

    /// The pixel buffer has four bytes per pixel and the delay is a proper
    /// fraction.
    pub open spec fn wf(&self) -> bool {
        &&& self.rgba@.len() == self.width * self.height * 4
        &&& self.delay_denom > 0
    }
}

/// All frames have the size of the first.
pub open spec fn same_size(frames: Seq<RawFrame>) -> bool {
    forall|i: int|
        0 <= i < frames.len() ==> (#[trigger] frames[i]).width == frames[0].width && frames[i].height
            == frames[0].height
}

/// The frames of a list as plain values.
pub open spec fn frame_values(frames: Seq<RawFrame>) -> Seq<FrameValue> {
    frames.map_values(|f: RawFrame| f.value())
}

/// The frames that the `image` crate's GIF decoder yields for the file
/// contents `data`, composited to the full logical screen, or `None` where
/// it reports an error.
pub uninterp spec fn gif_frames(data: Seq<u8>) -> Option<Seq<FrameValue>>;

#[verifier::external_type_specification]
#[verifier::external_body]
pub struct ExImageError(image::ImageError);

/// Calls `image::codecs::gif::GifDecoder::new` on the bytes, then
/// `AnimationDecoder::into_frames` and `Frames::collect_frames`, and converts
/// each `image::Frame` to a `RawFrame` (`Delay::numer_denom_ms`,
/// `ImageBuffer::into_raw`). Claimed: the frames are `gif_frames` of the
/// input, or the error comes exactly where that is `None`; and, as the
/// decoder's source shows, each frame's buffer holds four bytes per pixel,
/// each delay's denominator is positive (`Ratio::new` rejects zero), and
/// every frame has the size of the logical screen, so that of the first.
#[verifier::external_body]
fn decode_gif_frames(data: &[u8]) -> (r: Result<Vec<RawFrame>, image::ImageError>)
    ensures
        match r {
            Ok(frames) => {
                &&& gif_frames(data@) == Some(frame_values(frames@))
                &&& forall|i: int| 0 <= i < frames@.len() ==> #[trigger] frames@[i].wf()
                &&& same_size(frames@)
            },
            Err(_) => gif_frames(data@) is None,
        },
{
    let decoder = match image::codecs::gif::GifDecoder::new(std::io::Cursor::new(data)) {
        Ok(d) => d,
        Err(e) => return Err(e),
    };
    decoder.into_frames().collect_frames().map(|frames| frames.into_iter().map(|f| {
        let (delay_numer, delay_denom) = f.delay().numer_denom_ms();
        let b = f.into_buffer();
        RawFrame { width: b.width(), height: b.height(), delay_numer, delay_denom, rgba: b.into_raw() }
    }).collect())
}

/// Calls `ImageError`'s `Display` (through `to_string`). Nothing is claimed
/// of the message.
#[verifier::external_body]
fn image_error_message(e: &image::ImageError) -> String {
    e.to_string()
}

/// Why a GIF could not be turned into an animation.
#[derive(Debug)]
pub enum LoadError {
    /// The decoder reported an error; its message.
    Decode(String),
    /// The GIF has fewer than two frames.
    TooFewFrames,
}

impl LoadError {
    /// The message shown for the error.
    pub fn message(&self) -> (m: String)
        ensures
            match self {
                LoadError::Decode(msg) => m@ == msg@,
                LoadError::TooFewFrames => m@ == "Need at least 2 frames for animation"@,
            },
    {
        match self {
            LoadError::Decode(msg) => msg.clone(),
            LoadError::TooFewFrames => String::from_str("Need at least 2 frames for animation"),
        }
    }
}

/// Decodes the GIF file contents `data` into its frames; an animation needs
/// at least two.
pub fn decode_gif(data: &[u8]) -> (r: Result<Vec<RawFrame>, LoadError>)
    ensures
        match gif_frames(data@) {
            None => r matches Err(LoadError::Decode(_)),
            Some(fs) => if fs.len() < 2 {
                r matches Err(LoadError::TooFewFrames)
            } else {
                &&& r matches Ok(frames)
                &&& frame_values(frames@) == fs
                &&& forall|i: int| 0 <= i < frames@.len() ==> #[trigger] frames@[i].wf()
                &&& same_size(frames@)
            },
        },
{
    match decode_gif_frames(data) {
        Ok(frames) => {
            proof {
                assert(frame_values(frames@).len() == frames@.len());
            }
            if frames.len() < 2 {
                Err(LoadError::TooFewFrames)
            } else {
                Ok(frames)
            }
        },
        Err(e) => Err(LoadError::Decode(image_error_message(&e))),
    }
}

/// The width to scale frames down to: the limit `max_width`, where there is
/// one and the frames are wider than it; otherwise none (frames are never
/// scaled up).
pub fn scale_target_width(orig_width: u32, max_width: Option<u32>) -> (r: Option<u32>)
    ensures
        r == match max_width {
            Some(mw) => if orig_width > mw {
                Some(mw)
            } else {
                None
            },
            None => None,
        },
{
    match max_width {
        Some(mw) => if orig_width > mw {
            Some(mw)
        } else {
            None
        },
        None => None,
    }
}

/// Display time of a frame whose delay is `numer / denom` milliseconds: the
/// whole milliseconds of the delay, but at least 20.
pub open spec fn duration_ms(numer: u32, denom: u32) -> u32 {
    if numer / denom >= 20 {
        (numer / denom) as u32
    } else {
        20
    }
}

/// A frame's display time is the larger of its whole-millisecond delay and
/// 20: never below either, and equal to one of them.
pub proof fn lemma_duration_is_delay_or_floor(numer: u32, denom: u32)
    requires
        denom > 0,
    ensures
        duration_ms(numer, denom) >= 20,
        duration_ms(numer, denom) >= numer / denom,
        duration_ms(numer, denom) == 20 || duration_ms(numer, denom) == numer / denom,
{
}

/// Computes `duration_ms`.
pub fn frame_duration_ms(numer: u32, denom: u32) -> (ms: u32)
    requires
        denom > 0,
    ensures
        ms == duration_ms(numer, denom),
        ms >= 20,
        ms >= numer / denom,
        ms == 20 || ms == numer / denom,
{
    let q: u32 = numer / denom;
    if q >= 20 {
        q
    } else {
        20
    }
}


/// `out` is a pixel buffer that `image::imageops::resize` with the Lanczos3
/// filter may make of the RGBA image `src` (`w` x `h`) at the size `nw` x
/// `nh`. This is a relation, not a function: the kernel computes with
/// `f32::sin`, whose results std does not fix, so two resizes of the same
/// image need not give the same pixels.
pub uninterp spec fn lanczos3_outcome(src: Seq<u8>, w: u32, h: u32, nw: u32, nh: u32, out: Seq<u8>) -> bool;

/// The buffers that resizing allocates fit in memory as `usize` counts them:
/// the result, and the intermediate image of the old width and the new
/// height, which is only made when there is something to sample and the
/// size changes.
pub open spec fn resize_fits(width: u32, height: u32, new_width: u32, new_height: u32) -> bool {
    &&& new_width * new_height * 4 <= usize::MAX
    &&& (width == 0 || height == 0 || (width == new_width && height == new_height)
        || width * new_height * 4 <= usize::MAX)
}

/// Calls `ImageBuffer::<Rgba<u8>, _>::from_raw` on the pixels, then
/// `image::imageops::resize` with `FilterType::Lanczos3`, and hands back the
/// result's raw buffer. Claimed: the result is a `lanczos3_outcome` of the
/// pixels and sizes handed to the call; there are four bytes for each pixel of the
/// new size (the result is built with `ImageBuffer::new(new_width,
/// new_height)` or is a copy at that size), and at an unchanged size the
/// pixels come back as they were (`resize` then copies the image). Which
/// pixels a real resize makes is not claimed: the Lanczos3 kernel computes
/// with `f32::sin`, whose results std does not fix. `from_raw` succeeds because the buffer holds four bytes per
/// pixel, and `resize` allocates without overflow as `resize_fits` says;
/// `requires` asks both.
#[verifier::external_body]
fn resize_lanczos3(rgba: Vec<u8>, width: u32, height: u32, new_width: u32, new_height: u32) -> (r: Vec<u8>)
    requires
        rgba@.len() >= width * height * 4,
        resize_fits(width, height, new_width, new_height),
    ensures
        lanczos3_outcome(rgba@, width, height, new_width, new_height, r@),
        r@.len() == new_width * new_height * 4,
        (width == new_width && height == new_height && rgba@.len() == width * height * 4) ==> r@
            == rgba@,
{
    let img = image::RgbaImage::from_raw(width, height, rgba).unwrap();
    image::imageops::resize(&img, new_width, new_height, image::imageops::FilterType::Lanczos3).into_raw()
}

/// A copy of a byte buffer.
fn copy_bytes(v: &Vec<u8>) -> (r: Vec<u8>)
    ensures
        r@ == v@,
{
    let mut r: Vec<u8> = Vec::new();
    crate::bytes::push_bytes(&mut r, v.as_slice());
    r
}

/// An animation ready to cache and play: its metadata and each frame's
/// RGBA pixels.
pub struct Animation {
    /// Size, frame count, durations and source name.
    pub meta: Meta,
    /// RGBA pixels of each frame.
    pub frames: Vec<Vec<u8>>,
}

/// Turns decoded frames into an animation of size `out_w` x `out_h`: each
/// frame's display time comes from its delay, and its pixels are resized
/// with Lanczos3 when the size differs from the first frame's, and kept as
/// they are otherwise.
pub fn build_animation(frames: &Vec<RawFrame>, out_w: u32, out_h: u32, source: String) -> (a: Animation)
    requires
        frames@.len() >= 1,
        forall|i: int| 0 <= i < frames@.len() ==> #[trigger] frames@[i].wf(),
        same_size(frames@),
        forall|i: int|
            0 <= i < frames@.len() ==> resize_fits(
                #[trigger] frames@[i].width,
                frames@[i].height,
                out_w,
                out_h,
            ),
    ensures
        a.meta.width == out_w,
        a.meta.height == out_h,
        a.meta.n_frames == frames@.len(),
        a.meta.source@ == source@,
        a.meta.durations@.len() == frames@.len(),
        a.frames@.len() == frames@.len(),
        forall|i: int| 0 <= i < frames@.len() ==> (#[trigger] a.frames@[i])@.len() == out_w * out_h * 4,
        forall|i: int|
            0 <= i < frames@.len() ==> #[trigger] a.meta.durations@[i] == duration_ms(
                frames@[i].delay_numer,
                frames@[i].delay_denom,
            ),
        forall|i: int|
            0 <= i < frames@.len() ==> {
                &&& #[trigger] a.meta.durations@[i] >= 20
                &&& a.meta.durations@[i] >= frames@[i].delay_numer / frames@[i].delay_denom
                &&& (a.meta.durations@[i] == 20 || a.meta.durations@[i] == frames@[i].delay_numer
                    / frames@[i].delay_denom)
            },
        (out_w == frames@[0].width && out_h == frames@[0].height) ==> forall|i: int|
            0 <= i < frames@.len() ==> #[trigger] a.frames@[i]@ == frames@[i].rgba@,
        (out_w != frames@[0].width || out_h != frames@[0].height) ==> forall|i: int|
            0 <= i < frames@.len() ==> lanczos3_outcome(
                frames@[i].rgba@,
                frames@[i].width,
                frames@[i].height,
                out_w,
                out_h,
                (#[trigger] a.frames@[i])@,
            ),
{
    let first_w = frames[0].width;
    let first_h = frames[0].height;
    let resize = out_w != first_w || out_h != first_h;
    let mut pixels: Vec<Vec<u8>> = Vec::new();
    let mut durations: Vec<u32> = Vec::new();
    let mut i: usize = 0;
    while i < frames.len()
        invariant
            i <= frames@.len(),
            first_w == frames@[0].width,
            first_h == frames@[0].height,
            resize == (out_w != first_w || out_h != first_h),
            forall|j: int| 0 <= j < frames@.len() ==> #[trigger] frames@[j].wf(),
            forall|j: int|
                0 <= j < frames@.len() ==> resize_fits(
                    #[trigger] frames@[j].width,
                    frames@[j].height,
                    out_w,
                    out_h,
                ),
            pixels@.len() == i,
            durations@.len() == i,
            same_size(frames@),
            forall|j: int| 0 <= j < i ==> (#[trigger] pixels@[j])@.len() == out_w * out_h * 4,
            forall|j: int|
                0 <= j < i ==> #[trigger] durations@[j] == duration_ms(
                    frames@[j].delay_numer,
                    frames@[j].delay_denom,
                ),
            forall|j: int|
                0 <= j < i ==> {
                    &&& #[trigger] durations@[j] >= 20
                    &&& durations@[j] >= frames@[j].delay_numer / frames@[j].delay_denom
                    &&& (durations@[j] == 20 || durations@[j] == frames@[j].delay_numer
                        / frames@[j].delay_denom)
                },
            !resize ==> forall|j: int| 0 <= j < i ==> #[trigger] pixels@[j]@ == frames@[j].rgba@,
            resize ==> forall|j: int|
                0 <= j < i ==> lanczos3_outcome(
                    frames@[j].rgba@,
                    frames@[j].width,
                    frames@[j].height,
                    out_w,
                    out_h,
                    (#[trigger] pixels@[j])@,
                ),
        decreases frames@.len() - i,
    {
        let f = &frames[i];
        proof {
            assert(frames@[i as int].wf());
            assert(resize_fits(frames@[i as int].width, frames@[i as int].height, out_w, out_h));
            assert(frames@[i as int].width == first_w && frames@[i as int].height == first_h);
        }
        durations.push(frame_duration_ms(f.delay_numer, f.delay_denom));
        let img = copy_bytes(&f.rgba);
        let out = if resize {
            resize_lanczos3(img, f.width, f.height, out_w, out_h)
        } else {
            img
        };
        pixels.push(out);
        i = i + 1;
    }
    let n_frames = pixels.len();
    Animation {
        meta: Meta { width: out_w, height: out_h, n_frames, durations, source },
        frames: pixels,
    }
}

} // verus!
