//! Decoding, resizing and re-encoding, through the image crate.
//!
//! The decoder and encoder are black boxes to the pipeline: each call is
//! a pure function of the bytes and the target size, named below so the
//! pipeline's contracts can speak of it.

use vstd::prelude::*;

pub mod gif;

verus! {

/// The encodings the pipeline serves.
#[derive(Clone, Copy, Debug, PartialEq, Eq, Structural)]
pub enum ImageKind {
    Png,
    Jpeg,
    Gif,
}

/// The content type served for an encoding.
pub open spec fn kind_mime(k: ImageKind) -> Seq<char> {
    match k {
        ImageKind::Png => "image/png"@,
        ImageKind::Jpeg => "image/jpeg"@,
        ImageKind::Gif => "image/gif"@,
    }
}

/// Content-type string for an encoding.
pub fn kind_mime_str(k: ImageKind) -> (r: &'static str)
    ensures
        r@ == kind_mime(k),
{
    match k {
        ImageKind::Png => "image/png",
        ImageKind::Jpeg => "image/jpeg",
        ImageKind::Gif => "image/gif",
    }
}

/// What probing a byte buffer yields: source width, source height and the
/// detected format — or nothing, when the bytes do not decode to a
/// supported format.  A function of the bytes alone.
pub uninterp spec fn image_probe(bytes: Seq<u8>) -> Option<(u32, u32, ImageKind)>;

/// Relies on image::load_from_memory and image::guess_format: decoding
/// and format detection depend on the bytes alone; the reported size is
/// the decoded image's.  Formats other than PNG, JPEG and GIF report as
/// unsupported.
#[verifier::external_body]
pub(crate) fn probe_image(body: &Vec<u8>) -> (r: Option<(u32, u32, ImageKind)>)
    ensures
        r == image_probe(body@),
{
    let img = match image::load_from_memory(body) {
        Ok(img) => img,
        Err(_) => return None,
    };
    let kind = match image::guess_format(body) {
        Ok(image::ImageFormat::Png) => ImageKind::Png,
        Ok(image::ImageFormat::Jpeg) => ImageKind::Jpeg,
        Ok(image::ImageFormat::Gif) => ImageKind::Gif,
        _ => return None,
    };
    Some((img.width(), img.height(), kind))
}

/// The re-encoding of `bytes` after a resize-to-fill to `w` by `h`, in
/// the format the bytes themselves declare.  A function of the bytes and
/// the target size alone; nothing when decoding or encoding fails.
pub uninterp spec fn resized_static(bytes: Seq<u8>, w: u32, h: u32) -> Option<Seq<u8>>;

/// Relies on image::load_from_memory, DynamicImage::resize_to_fill with
/// the Lanczos3 filter, and DynamicImage::write_to into an in-memory
/// buffer — all deterministic in the bytes and the target size.
#[verifier::external_body]
pub(crate) fn resize_encode(body: &Vec<u8>, w: u32, h: u32) -> (r: Option<Vec<u8>>)
    requires
        w >= 1,
        h >= 1,
    ensures
        match r {
            Some(v) => resized_static(body@, w, h) == Some(v@),
            None => resized_static(body@, w, h) is None,
        },
{
    let img = match image::load_from_memory(body) {
        Ok(img) => img,
        Err(_) => return None,
    };
    let fmt = match image::guess_format(body) {
        Ok(f) => f,
        Err(_) => return None,
    };
    let resized = img.resize_to_fill(w, h, image::imageops::FilterType::Lanczos3);
    let mut cur = std::io::Cursor::new(Vec::new());
    match resized.write_to(&mut cur, fmt) {
        Ok(()) => Some(cur.into_inner()),
        Err(_) => None,
    }
}

} // verus!
