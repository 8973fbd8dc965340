use media_gateway::cache::Cache;
use media_gateway::image_cache::{
    build_file_name, cache_image, FixedFetcher, ImageCacheError, Info, InfoError,
};

const MAX_W: usize = 2000;
const MAX_H: usize = 2000;
const TTL: usize = 3600;
const NOW: usize = 1_700_000_000;

fn hint(width: Option<u32>, height: Option<u32>, ratio: Option<&str>) -> Info {
    Info {
        url: String::from("https://example.com/a.png"),
        width,
        height,
        ratio: ratio.map(|s| s.to_string()),
    }
}

fn png_bytes(w: u32, h: u32) -> Vec<u8> {
    let img = image::DynamicImage::ImageRgba8(image::RgbaImage::from_pixel(
        w,
        h,
        image::Rgba([10, 20, 30, 255]),
    ));
    let mut cur = std::io::Cursor::new(Vec::new());
    img.write_to(&mut cur, image::ImageFormat::Png).unwrap();
    cur.into_inner()
}

fn gif_bytes(w: u32, h: u32) -> Vec<u8> {
    let mut out: Vec<u8> = Vec::new();
    {
        let mut enc = image::codecs::gif::GifEncoder::new_with_speed(&mut out, 10);
        let f1 = image::Frame::from_parts(
            image::RgbaImage::from_pixel(w, h, image::Rgba([255, 0, 0, 255])),
            0,
            0,
            image::Delay::from_numer_denom_ms(100, 1),
        );
        let f2 = image::Frame::from_parts(
            image::RgbaImage::from_pixel(w, h, image::Rgba([0, 255, 0, 255])),
            0,
            0,
            image::Delay::from_numer_denom_ms(100, 1),
        );
        enc.encode_frames(vec![f1, f2]).unwrap();
    }
    out
}

fn fetcher_of(body: Vec<u8>) -> FixedFetcher {
    FixedFetcher { body: Some(body), calls: 0 }
}

#[test]
fn end_to_end_width_only() {
    // url=https://example.com/a.png&width=100 against a 400x200 source:
    // the resolver takes the width-only path and serves 100x50.
    let params = hint(Some(100), None, None);
    let mut cache = Cache::new();
    let mut fetcher = fetcher_of(png_bytes(400, 200));
    let (bytes, _mime) =
        cache_image(&params, &mut cache, &mut fetcher, MAX_W, MAX_H, TTL, NOW).unwrap();
    let served = image::load_from_memory(&bytes).unwrap();
    assert_eq!((served.width(), served.height()), (100, 50));
    assert_eq!(image::guess_format(&bytes).unwrap(), image::ImageFormat::Png);
    // The companion entry records the served content type.
    let mut ext_key = build_file_name(&params);
    ext_key.push_str("+ext");
    assert_eq!(cache.get_str(&ext_key).unwrap(), "image/png");
    // The write-instant marker sits under the file name itself.
    let marker = cache.get_str(&build_file_name(&params)).unwrap();
    assert_eq!(marker, NOW.to_string());
}

#[test]
fn cache_hit_never_fetches() {
    let params = hint(Some(100), None, None);
    let mut cache = Cache::new();
    let mut fetcher = fetcher_of(png_bytes(400, 200));
    let first = cache_image(&params, &mut cache, &mut fetcher, MAX_W, MAX_H, TTL, NOW).unwrap();
    assert_eq!(fetcher.calls, 1);
    let second = cache_image(&params, &mut cache, &mut fetcher, MAX_W, MAX_H, TTL, NOW).unwrap();
    assert_eq!(fetcher.calls, 1);
    assert_eq!(first.0, second.0);
    assert_eq!(first.1, second.1);
}

#[test]
fn oversized_width_rejected_before_any_fetch() {
    let params = hint(Some(5000), None, None);
    let mut cache = Cache::new();
    let mut fetcher = fetcher_of(png_bytes(400, 200));
    let e = cache_image(&params, &mut cache, &mut fetcher, MAX_W, MAX_H, TTL, NOW).unwrap_err();
    assert_eq!(e, ImageCacheError::WidthTooLarge);
    assert_eq!(fetcher.calls, 0);
}

#[test]
fn oversized_height_rejected_before_any_fetch() {
    let params = hint(None, Some(5000), None);
    let mut cache = Cache::new();
    let mut fetcher = fetcher_of(png_bytes(400, 200));
    let e = cache_image(&params, &mut cache, &mut fetcher, MAX_W, MAX_H, TTL, NOW).unwrap_err();
    assert_eq!(e, ImageCacheError::HeightTooLarge);
    assert_eq!(fetcher.calls, 0);
}

#[test]
fn transport_failure_is_fetch_failed() {
    let params = hint(Some(100), None, None);
    let mut cache = Cache::new();
    let mut fetcher = FixedFetcher { body: None, calls: 0 };
    let e = cache_image(&params, &mut cache, &mut fetcher, MAX_W, MAX_H, TTL, NOW).unwrap_err();
    assert_eq!(e, ImageCacheError::FetchFailed);
}

#[test]
fn non_image_body_is_decode_failed() {
    let params = hint(Some(100), None, None);
    let mut cache = Cache::new();
    let mut fetcher = fetcher_of(b"this is not an image".to_vec());
    let e = cache_image(&params, &mut cache, &mut fetcher, MAX_W, MAX_H, TTL, NOW).unwrap_err();
    assert_eq!(e, ImageCacheError::DecodeFailed);
}

#[test]
fn ratio_derived_size_checked_after_decode() {
    // A 400x200 source with ratio 1:1 resolves (by the cross-driven
    // branch) to 200x400, which the 300-high limit rejects only after
    // the source size is known.
    let params = hint(None, None, Some("1:1"));
    let mut cache = Cache::new();
    let mut fetcher = fetcher_of(png_bytes(400, 200));
    let e = cache_image(&params, &mut cache, &mut fetcher, MAX_W, 300, TTL, NOW).unwrap_err();
    assert_eq!(e, ImageCacheError::SizeTooLargeAfterRatio);
    assert_eq!(fetcher.calls, 1);
}

#[test]
fn malformed_ratio_propagates_the_resolver_error() {
    let params = hint(Some(100), None, Some("1:2:3"));
    let mut cache = Cache::new();
    let mut fetcher = fetcher_of(png_bytes(400, 200));
    let e = cache_image(&params, &mut cache, &mut fetcher, MAX_W, MAX_H, TTL, NOW).unwrap_err();
    assert_eq!(e, ImageCacheError::Resolve(InfoError::InvalidRatioFormat));
}

#[test]
fn gif_animation_is_resized_frame_by_frame() {
    let params = Info {
        url: String::from("https://example.com/anim.gif"),
        width: Some(20),
        height: None,
        ratio: None,
    };
    let mut cache = Cache::new();
    let mut fetcher = fetcher_of(gif_bytes(40, 20));
    let (bytes, _mime) =
        cache_image(&params, &mut cache, &mut fetcher, MAX_W, MAX_H, TTL, NOW).unwrap();
    assert_eq!(image::guess_format(&bytes).unwrap(), image::ImageFormat::Gif);
    let served = image::load_from_memory(&bytes).unwrap();
    assert_eq!((served.width(), served.height()), (20, 10));
    let mut ext_key = build_file_name(&params);
    ext_key.push_str("+ext");
    assert_eq!(cache.get_str(&ext_key).unwrap(), "image/gif");
}

#[test]
fn distinct_requests_use_distinct_entries() {
    let mut cache = Cache::new();
    let a = hint(Some(100), None, None);
    let b = hint(Some(101), None, None);
    let mut fetcher = fetcher_of(png_bytes(400, 200));
    cache_image(&a, &mut cache, &mut fetcher, MAX_W, MAX_H, TTL, NOW).unwrap();
    cache_image(&b, &mut cache, &mut fetcher, MAX_W, MAX_H, TTL, NOW).unwrap();
    assert_eq!(fetcher.calls, 2);
    assert_ne!(build_file_name(&a), build_file_name(&b));
}
