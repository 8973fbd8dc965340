//! Animated GIF transformation: decode the frames, resize each one,
//! re-encode at the source's frame speed — all in memory.
//!
//! Frames cross the trusted boundary as plain values (raw RGBA bytes
//! plus dimensions), so every stage's result is named and the whole
//! transform is pinned to `gif_resized`, a function of the input bytes
//! and the target size alone.

use image::AnimationDecoder;
use vstd::prelude::*;

verus! {

/// What decoding an animated GIF yields: the frames, each as its raw
/// RGBA pixel bytes with width and height, and the delay denominator of
/// the second frame (the value the encoder reuses as its speed) — or
/// nothing, when the bytes do not decode as a GIF of at least two
/// frames.  A function of the bytes alone.
pub uninterp spec fn gif_parts(bytes: Seq<u8>) -> Option<(Seq<(Seq<u8>, u32, u32)>, u32)>;

/// Relies on image::codecs::gif::GifDecoder and
/// AnimationDecoder::into_frames / collect_frames (decoding is a
/// function of the bytes), Frame::delay / Delay::numer_denom_ms (the
/// second frame's delay denominator), and Frame::into_buffer (each
/// frame's raw RGBA pixels and size).
#[verifier::external_body]
fn decode_gif(body: &Vec<u8>) -> (r: Option<(Vec<(Vec<u8>, u32, u32)>, u32)>)
    ensures
        match r {
            Some(p) => gif_parts(body@) matches Some(q) && q.0.len() == p.0@.len() && q.1 == p.1
                && forall|i: int|
                0 <= i < p.0@.len() ==> (#[trigger] p.0@[i]).0@ == q.0[i].0 && p.0@[i].1
                    == q.0[i].1 && p.0@[i].2 == q.0[i].2,
            None => gif_parts(body@) is None,
        },
{
    let cur = std::io::Cursor::new(body.as_slice());
    let dec = image::codecs::gif::GifDecoder::new(cur).ok()?;
    let frames = dec.into_frames().collect_frames().ok()?;
    let speed = frames.get(1)?.delay().numer_denom_ms().1;
    let to_raw = |f: image::Frame| {
        let b = f.into_buffer();
        let (w, h) = (b.width(), b.height());
        (b.into_raw(), w, h)
    };
    Some((frames.into_iter().map(to_raw).collect(), speed))
}

/// One raw RGBA frame of size `w` by `h`, resized to fill `nw` by `nh`
/// and handed back as raw RGBA bytes; nothing when the byte count does
/// not match the dimensions.  A function of the five arguments alone.
pub uninterp spec fn rgba_resized(raw: Seq<u8>, w: u32, h: u32, nw: u32, nh: u32) -> Option<
    Seq<u8>,
>;

/// Relies on RgbaImage::from_raw (fails when the buffer is too small
/// for the dimensions), DynamicImage::resize_to_fill with the Lanczos3
/// filter, and into_rgba8 / into_raw — deterministic in the pixels and
/// the dimensions alone.  The result is a crop to at most the target
/// size, so it holds at most `4 * nw * nh` bytes.
#[verifier::external_body]
fn resize_rgba(raw: &Vec<u8>, w: u32, h: u32, nw: u32, nh: u32) -> (r: Option<Vec<u8>>)
    requires
        w >= 1,
        h >= 1,
        nw >= 1,
        nh >= 1,
    ensures
        match r {
            Some(v) => rgba_resized(raw@, w, h, nw, nh) == Some(v@) && v@.len() <= 4 * (nw as int)
                * (nh as int),
            None => rgba_resized(raw@, w, h, nw, nh) is None,
        },
{
    let buffer = image::RgbaImage::from_raw(w, h, raw.clone())?;
    let resized = image::DynamicImage::ImageRgba8(buffer).resize_to_fill(
        nw,
        nh,
        image::imageops::FilterType::Lanczos3,
    );
    Some(resized.into_rgba8().into_raw())
}

/// The GIF encoding of a frame list (each frame raw RGBA bytes of size
/// `nw` by `nh`) at the given speed; nothing when a frame's byte count
/// does not match or the encoder fails.  A function of the arguments
/// alone.
pub uninterp spec fn gif_encoded(frames: Seq<Seq<u8>>, nw: u32, nh: u32, speed: i32) -> Option<
    Seq<u8>,
>;

/// Relies on image::codecs::gif::GifEncoder::new_with_speed and
/// try_encode_frames, writing into an in-memory buffer, with
/// RgbaImage::from_raw / Frame::new turning each raw frame back into a
/// pixel buffer.  The encoder asserts a speed between 1 and 30, and
/// gif's Frame::from_rgba_speed asserts a buffer of exactly
/// `4 * nw * nh` bytes — from_raw rejects smaller buffers but accepts
/// larger ones, so the length requirement keeps that assert
/// unreachable and the call total.
#[verifier::external_body]
fn encode_gif_frames(frames: &Vec<Vec<u8>>, nw: u32, nh: u32, speed: i32) -> (r: Option<Vec<u8>>)
    requires
        1 <= speed <= 30,
        forall|i: int|
            0 <= i < frames@.len() ==> (#[trigger] frames@[i])@.len() <= 4 * (nw as int) * (
            nh as int),
    ensures
        match r {
            Some(v) => gif_encoded(
                Seq::new(frames@.len() as nat, |i: int| frames@[i]@),
                nw,
                nh,
                speed,
            ) == Some(v@),
            None => gif_encoded(
                Seq::new(frames@.len() as nat, |i: int| frames@[i]@),
                nw,
                nh,
                speed,
            ) is None,
        },
{
    let mut out: Vec<u8> = Vec::new();
    let mut enc = image::codecs::gif::GifEncoder::new_with_speed(&mut out, speed);
    let items = frames.iter().map(|raw| {
        image::RgbaImage::from_raw(nw, nh, raw.clone()).map(image::Frame::new).ok_or_else(|| {
            image::ImageError::Parameter(image::error::ParameterError::from_kind(
                image::error::ParameterErrorKind::DimensionMismatch,
            ))
        })
    });
    let status = enc.try_encode_frames(items);
    drop(enc);
    match status {
        Ok(()) => Some(out),
        Err(_) => None,
    }
}

/// Whether one decoded frame survives the transform: positive source
/// dimensions and a successful resize.
pub open spec fn frame_ok(f: (Seq<u8>, u32, u32), nw: u32, nh: u32) -> bool {
    f.1 >= 1 && f.2 >= 1 && rgba_resized(f.0, f.1, f.2, nw, nh) is Some
}

/// The transformed animation: decode, resize every frame to fill the
/// target size, re-encode at the source's frame speed.  Nothing when
/// the bytes do not decode as a GIF of at least two frames, the source
/// speed falls outside the encoder's accepted range, a frame fails the
/// transform, or re-encoding fails.
pub open spec fn gif_resized(bytes: Seq<u8>, nw: u32, nh: u32) -> Option<Seq<u8>> {
    match gif_parts(bytes) {
        None => None,
        Some(p) => if p.1 < 1 || p.1 > 30 {
            None
        } else if exists|i: int| 0 <= i < p.0.len() && !frame_ok(#[trigger] p.0[i], nw, nh) {
            None
        } else {
            gif_encoded(
                Seq::new(
                    p.0.len(),
                    |i: int| rgba_resized(p.0[i].0, p.0[i].1, p.0[i].2, nw, nh)->Some_0,
                ),
                nw,
                nh,
                p.1 as i32,
            )
        },
    }
}

/// Transform an animated GIF: every frame is resized to fill the target
/// size and the animation is re-encoded at the source's frame speed.
/// The result is exactly `gif_resized` of the input bytes and the
/// target size.
pub fn run(gif_content: &Vec<u8>, new_width: u32, new_height: u32) -> (r: Option<Vec<u8>>)
    requires
        new_width >= 1,
        new_height >= 1,
    ensures
        match r {
            Some(v) => gif_resized(gif_content@, new_width, new_height) == Some(v@),
            None => gif_resized(gif_content@, new_width, new_height) is None,
        },
{
    let parts = match decode_gif(gif_content) {
        Some(p) => p,
        None => {
            return None;
        },
    };
    let (frames, speed_raw) = parts;
    let ghost gp = gif_parts(gif_content@)->Some_0;
    if speed_raw < 1 || speed_raw > 30 {
        return None;
    }
    let speed: i32 = speed_raw as i32;
    let n: usize = frames.len();
    let mut resized: Vec<Vec<u8>> = Vec::new();
    let mut i: usize = 0;
    while i < n
        invariant
            0 <= i <= n == frames@.len(),
            new_width >= 1,
            new_height >= 1,
            gif_parts(gif_content@) == Some(gp),
            gp.0.len() == frames@.len(),
            forall|j: int|
                0 <= j < frames@.len() ==> (#[trigger] frames@[j]).0@ == gp.0[j].0 && frames@[j].1
                    == gp.0[j].1 && frames@[j].2 == gp.0[j].2,
            resized@.len() == i,
            forall|j: int|
                0 <= j < i ==> (#[trigger] resized@[j])@.len() <= 4 * (new_width as int) * (
                new_height as int),
            forall|j: int|
                0 <= j < i ==> frame_ok(#[trigger] gp.0[j], new_width, new_height) && rgba_resized(
                    gp.0[j].0,
                    gp.0[j].1,
                    gp.0[j].2,
                    new_width,
                    new_height,
                ) == Some(resized@[j]@),
        decreases n - i,
    {
        let fw: u32 = frames[i].1;
        let fh: u32 = frames[i].2;
        if fw < 1 || fh < 1 {
            proof {
                assert(!frame_ok(gp.0[i as int], new_width, new_height));
            }
            return None;
        }
        match resize_rgba(&frames[i].0, fw, fh, new_width, new_height) {
            Some(v) => {
                let ghost pre = resized@;
                proof {
                    assert(frames@[i as int].0@ == gp.0[i as int].0);
                    assert(rgba_resized(gp.0[i as int].0, gp.0[i as int].1, gp.0[i as int].2, new_width, new_height) == Some(v@));
                    assert(frame_ok(gp.0[i as int], new_width, new_height));
                }
                resized.push(v);
                proof {
                    assert(forall|j: int| 0 <= j < pre.len() ==> resized@[j] == pre[j]);
                    assert(resized@[i as int]@ == rgba_resized(gp.0[i as int].0, gp.0[i as int].1, gp.0[i as int].2, new_width, new_height)->Some_0);
                }
            },
            None => {
                proof {
                    assert(!frame_ok(gp.0[i as int], new_width, new_height));
                }
                return None;
            },
        }
        i = i + 1;
    }
    let out = encode_gif_frames(&resized, new_width, new_height, speed);
    proof {
        assert(forall|j: int|
            0 <= j < gp.0.len() ==> frame_ok(#[trigger] gp.0[j], new_width, new_height));
        assert(Seq::new(resized@.len() as nat, |j: int| resized@[j]@) =~= Seq::new(
            gp.0.len(),
            |j: int| rgba_resized(gp.0[j].0, gp.0[j].1, gp.0[j].2, new_width, new_height)->Some_0,
        ));
    }
    out
}

} // verus!
