//! Dimension resolution: turning a partial size hint (width, height,
//! aspect-ratio string — any subset) into a concrete target size.
//!
//! All arithmetic is integral; every derived dimension is the floor of the
//! exact quotient, and saturates at `u32::MAX` as a cast from a large float
//! would.

use vstd::prelude::*;

use crate::cache::{get_media_cache, media_key, mime_of, set_media_cache, Cache};
use crate::digits::{all_digits, dec_seq, dec_val, parse_u64, pow10, u64_to_dec, usize_to_dec};
use crate::images::{image_probe, kind_mime, kind_mime_str, probe_image, resize_encode, resized_static, ImageKind};
use crate::ram_cache::expiry_at;

verus! {

/// Rejections of a size hint.
#[derive(Clone, Copy, Debug, PartialEq, Eq, Structural)]
pub enum InfoError {
    /// The ratio string is not two positive numbers joined by `:`.
    InvalidRatioFormat,
    /// None of width, height and ratio was given.
    NoSizeDefined,
}

/// A media request: source URL plus a partial size hint.
pub struct Info {
    pub url: String,
    pub width: Option<u32>,
    pub height: Option<u32>,
    /// Aspect ratio, written `"W:H"`.
    pub ratio: Option<String>,
}

/// Index of the first occurrence of `c` in `s`, or `-1`.
pub open spec fn find_char(s: Seq<char>, c: char) -> int
    decreases s.len(),
{
    if s.len() == 0 {
        -1
    } else if s[0] == c {
        0
    } else {
        if find_char(s.skip(1), c) == -1 {
            -1
        } else {
            find_char(s.skip(1), c) + 1
        }
    }
}

/// `find_char` returns the first matching position.
pub proof fn lemma_find_char_first(s: Seq<char>, c: char, p: int)
    requires
        0 <= p < s.len(),
        s[p] == c,
        forall|j: int| 0 <= j < p ==> s[j] != c,
    ensures
        find_char(s, c) == p,
    decreases p,
{
    if p > 0 {
        assert(forall|j: int| 0 <= j < p - 1 ==> s.skip(1)[j] != c);
        assert(s.skip(1)[p - 1] == c);
        lemma_find_char_first(s.skip(1), c, p - 1);
    }
}

/// If `c` occurs nowhere in `s`, `find_char` reports `-1`.
pub proof fn lemma_find_char_absent(s: Seq<char>, c: char)
    requires
        forall|j: int| 0 <= j < s.len() ==> s[j] != c,
    ensures
        find_char(s, c) == -1,
    decreases s.len(),
{
    if s.len() > 0 {
        assert(forall|j: int| 0 <= j < s.skip(1).len() ==> s.skip(1)[j] != c);
        lemma_find_char_absent(s.skip(1), c);
    }
}

/// The digits of a decimal ratio part with its dot (if any) removed.
pub open spec fn part_mantissa(p: Seq<char>) -> Seq<char> {
    if find_char(p, '.') == -1 {
        p
    } else {
        p.subrange(0, find_char(p, '.')) + p.skip(find_char(p, '.') + 1)
    }
}

/// How many fractional digits a decimal ratio part carries.
pub open spec fn part_scale(p: Seq<char>) -> nat {
    if find_char(p, '.') == -1 {
        0
    } else {
        (p.len() - find_char(p, '.') - 1) as nat
    }
}

/// One side of a ratio: decimal digits, at most one dot among them, at
/// least one digit in all, with a digit value that fits in 64 bits.
/// (A second dot or a stray character sits inside the mantissa and the
/// digit check rejects it.)
pub open spec fn ratio_part_ok(p: Seq<char>) -> bool {
    part_mantissa(p).len() > 0 && all_digits(part_mantissa(p)) && dec_val(part_mantissa(p))
        <= u64::MAX
}

/// The numeric value of a part, scaled by the other part's fractional
/// digits so that the pair becomes a pair of integers with the same
/// quotient.
pub open spec fn part_scaled(own: Seq<char>, other: Seq<char>) -> nat {
    dec_val(part_mantissa(own)) * pow10(part_scale(other))
}

/// A well-formed ratio string: two positive decimal parts joined by a
/// single colon, whose common-denominator integer forms fit in 64 bits.
/// (A second colon would sit inside a part and the digit check rejects
/// it.)
pub open spec fn ratio_ok(s: Seq<char>) -> bool {
    let f = find_char(s, ':');
    let l = s.subrange(0, f);
    let r = s.skip(f + 1);
    f >= 0 && ratio_part_ok(l) && ratio_part_ok(r) && 1 <= part_scaled(l, r) <= u64::MAX && 1
        <= part_scaled(r, l) <= u64::MAX
}

/// Width component of a well-formed ratio string, brought to the common
/// denominator.
pub open spec fn ratio_w(s: Seq<char>) -> nat {
    part_scaled(s.subrange(0, find_char(s, ':')), s.skip(find_char(s, ':') + 1))
}

/// Height component of a well-formed ratio string, brought to the
/// common denominator.
pub open spec fn ratio_h(s: Seq<char>) -> nat {
    part_scaled(s.skip(find_char(s, ':') + 1), s.subrange(0, find_char(s, ':')))
}

/// Read one decimal ratio part: its digit value with the dot removed,
/// and its count of fractional digits.
fn parse_dec_part(p: &str) -> (r: Option<(u64, usize)>)
    ensures
        match r {
            Some(q) => ratio_part_ok(p@) && q.0 == dec_val(part_mantissa(p@)) && q.1 as nat
                == part_scale(p@),
            None => !ratio_part_ok(p@),
        },
{
    let n: usize = p.unicode_len();
    let mut i: usize = 0;
    while i < n
        invariant
            0 <= i <= n == p@.len(),
            forall|j: int| 0 <= j < i ==> p@[j] != '.',
        decreases n - i,
    {
        let c: char = p.get_char(i);
        if c == '.' {
            proof {
                lemma_find_char_first(p@, '.', i as int);
            }
            let mut m = p.substring_char(0, i).to_owned();
            m.append(p.substring_char(i + 1, n));
            proof {
                assert(m@ =~= part_mantissa(p@));
            }
            return match parse_u64(m.as_str()) {
                Some(v) => Some((v, n - i - 1)),
                None => None,
            };
        }
        i = i + 1;
    }
    proof {
        lemma_find_char_absent(p@, '.');
    }
    match parse_u64(p) {
        Some(v) => Some((v, 0)),
        None => None,
    }
}

/// Scale one part's digit value by the other's fractional digits,
/// reporting exactly whether the result is a positive 64-bit value.
fn scale_part(mantissa: u64, other_scale: usize) -> (r: Option<u64>)
    ensures
        match r {
            Some(v) => v == mantissa as nat * pow10(other_scale as nat) && 1 <= v,
            None => mantissa as nat * pow10(other_scale as nat) < 1 || mantissa as nat * pow10(
                other_scale as nat,
            ) > u64::MAX,
        },
{
    let p = match crate::digits::pow10_u64(other_scale) {
        Some(p) => p,
        None => {
            proof {
                if mantissa >= 1 {
                    vstd::arithmetic::mul::lemma_mul_inequality(
                        1,
                        mantissa as int,
                        pow10(other_scale as nat) as int,
                    );
                }
            }
            return None;
        },
    };
    match mantissa.checked_mul(p) {
        Some(v) => {
            if v >= 1 {
                Some(v)
            } else {
                None
            }
        },
        None => None,
    }
}

/// Split a ratio string into its two positive components, brought to a
/// common denominator.  Returns `None` exactly on malformed input.
pub fn parse_ratio(s: &str) -> (r: Option<(u64, u64)>)
    ensures
        match r {
            Some(p) => ratio_ok(s@) && p.0 == ratio_w(s@) && p.1 == ratio_h(s@),
            None => !ratio_ok(s@),
        },
{
    let n: usize = s.unicode_len();
    let mut i: usize = 0;
    while i < n
        invariant
            0 <= i <= n == s@.len(),
            forall|j: int| 0 <= j < i ==> s@[j] != ':',
        decreases n - i,
    {
        let c: char = s.get_char(i);
        if c == ':' {
            proof {
                lemma_find_char_first(s@, ':', i as int);
            }
            let left = s.substring_char(0, i);
            let right = s.substring_char(i + 1, n);
            proof {
                assert(left@ =~= s@.subrange(0, i as int));
                assert(right@ =~= s@.skip(i + 1));
            }
            let lp = match parse_dec_part(left) {
                Some(q) => q,
                None => {
                    return None;
                },
            };
            let rp = match parse_dec_part(right) {
                Some(q) => q,
                None => {
                    return None;
                },
            };
            let w = match scale_part(lp.0, rp.1) {
                Some(v) => v,
                None => {
                    return None;
                },
            };
            let h = match scale_part(rp.0, lp.1) {
                Some(v) => v,
                None => {
                    return None;
                },
            };
            return Some((w, h));
        }
        i = i + 1;
    }
    proof {
        lemma_find_char_absent(s@, ':');
    }
    None
}

/// Floor of `n`, capped at `u32::MAX` — the value a float-to-`u32` cast
/// would produce for a large positive quantity.
pub open spec fn sat32(n: int) -> nat {
    if n > u32::MAX {
        u32::MAX as nat
    } else if n < 0 {
        0
    } else {
        n as nat
    }
}

/// The view of an optional ratio string.
pub open spec fn ratio_view(r: Option<String>) -> Option<Seq<char>> {
    match r {
        Some(s) => Some(s@),
        None => None,
    }
}

/// The resolution policy: first matching branch wins.
///
/// 1. width and height: clamp each to the source axis;
/// 2. width and ratio: height derived by cross-multiplication;
/// 3. width only: height scaled from the source aspect;
/// 4. height and ratio: width derived by cross-multiplication;
/// 5. height only: width scaled from the source aspect;
/// 6. ratio only: each output axis driven by the opposite source axis
///    (deliberate in the reference behavior);
/// 7. nothing: no size defined.
pub open spec fn resolve_spec(
    width: Option<u32>,
    height: Option<u32>,
    ratio: Option<Seq<char>>,
    sw: u32,
    sh: u32,
) -> Result<(nat, nat), InfoError> {
    match width {
        Some(w) => match height {
            Some(h) => Ok(
                (
                    (if w > sw {
                        sw
                    } else {
                        w
                    }) as nat,
                    (if h > sh {
                        sh
                    } else {
                        h
                    }) as nat,
                ),
            ),
            None => match ratio {
                Some(r) => if ratio_ok(r) {
                    Ok((w as nat, sat32((w as int) * (ratio_h(r) as int) / (ratio_w(r) as int))))
                } else {
                    Err(InfoError::InvalidRatioFormat)
                },
                None => Ok((w as nat, sat32((w as int) * (sh as int) / (sw as int)))),
            },
        },
        None => match height {
            Some(h) => match ratio {
                Some(r) => if ratio_ok(r) {
                    Ok((sat32((h as int) * (ratio_w(r) as int) / (ratio_h(r) as int)), h as nat))
                } else {
                    Err(InfoError::InvalidRatioFormat)
                },
                None => Ok((sat32((h as int) * (sw as int) / (sh as int)), h as nat)),
            },
            None => match ratio {
                Some(r) => if ratio_ok(r) {
                    Ok((sat32((sh as int) * (ratio_w(r) as int) / (ratio_h(r) as int)), sat32((sw as int) * (ratio_h(r) as int) / (ratio_w(r) as int))))
                } else {
                    Err(InfoError::InvalidRatioFormat)
                },
                None => Err(InfoError::NoSizeDefined),
            },
        },
    }
}

/// With both width and height given, resolution always succeeds, and the
/// result never exceeds the hint or the source on either axis.
pub proof fn lemma_both_axes_clamped(
    w: u32,
    h: u32,
    ratio: Option<Seq<char>>,
    sw: u32,
    sh: u32,
)
    ensures
        resolve_spec(Some(w), Some(h), ratio, sw, sh) is Ok,
        resolve_spec(Some(w), Some(h), ratio, sw, sh) matches Ok(d) ==> d.0 <= w && d.0 <= sw
            && d.1 <= h && d.1 <= sh,
{
}

/// With width and a well-formed ratio, the derived height is the exact
/// floor of the cross-multiplied quotient: `rw * h' <= w * rh < rw * (h' + 1)`
/// (as long as the quotient does not saturate the 32-bit range).
pub proof fn lemma_width_ratio_cross(w: u32, r: Seq<char>, sw: u32, sh: u32)
    requires
        ratio_ok(r),
        (w as int) * (ratio_h(r) as int) / (ratio_w(r) as int) <= u32::MAX,
    ensures
        resolve_spec(Some(w), None, Some(r), sw, sh) matches Ok(d) && d.0 == w && (ratio_w(r)
            as int) * (d.1 as int) <= (w as int) * (ratio_h(r) as int) < (ratio_w(r) as int) * (
        d.1 + 1),
{
    let a = ratio_w(r) as int;
    let b = ratio_h(r) as int;
    let p = (w as int) * b;
    vstd::arithmetic::div_mod::lemma_fundamental_div_mod(p, a);
    vstd::arithmetic::div_mod::lemma_mod_division_less_than_divisor(p, a);
    vstd::arithmetic::mul::lemma_mul_is_distributive_add(a, p / a, 1);
}

/// Symmetric statement for height plus ratio: the derived width is the
/// exact floor of `h * rw / rh`.
pub proof fn lemma_height_ratio_cross(h: u32, r: Seq<char>, sw: u32, sh: u32)
    requires
        ratio_ok(r),
        (h as int) * (ratio_w(r) as int) / (ratio_h(r) as int) <= u32::MAX,
    ensures
        resolve_spec(None, Some(h), Some(r), sw, sh) matches Ok(d) && d.1 == h && (ratio_h(r)
            as int) * (d.0 as int) <= (h as int) * (ratio_w(r) as int) < (ratio_h(r) as int) * (
        d.0 + 1),
{
    let a = ratio_h(r) as int;
    let b = ratio_w(r) as int;
    let p = (h as int) * b;
    vstd::arithmetic::div_mod::lemma_fundamental_div_mod(p, a);
    vstd::arithmetic::div_mod::lemma_mod_division_less_than_divisor(p, a);
    vstd::arithmetic::mul::lemma_mul_is_distributive_add(a, p / a, 1);
}

/// Where `find_char` points, and that nothing matches before it.
pub proof fn lemma_find_char_props(s: Seq<char>, c: char)
    ensures
        find_char(s, c) == -1 ==> forall|j: int| 0 <= j < s.len() ==> s[j] != c,
        find_char(s, c) != -1 ==> 0 <= find_char(s, c) < s.len() && s[find_char(s, c)] == c
            && forall|j: int| 0 <= j < find_char(s, c) ==> s[j] != c,
    decreases s.len(),
{
    if s.len() > 0 && s[0] != c {
        lemma_find_char_props(s.skip(1), c);
        let f2 = find_char(s.skip(1), c);
        if f2 == -1 {
            assert forall|j: int| 0 <= j < s.len() implies s[j] != c by {
                if j >= 1 {
                    assert(s.skip(1)[j - 1] == s[j]);
                }
            }
        } else {
            assert(s[f2 + 1] == s.skip(1)[f2]);
            assert forall|j: int| 0 <= j < f2 + 1 implies s[j] != c by {
                if j >= 1 {
                    assert(s.skip(1)[j - 1] == s[j]);
                }
            }
        }
    }
}

/// A character of a part that is not the dot survives into the part's
/// mantissa.
pub proof fn lemma_mantissa_has(p: Seq<char>, k: int)
    requires
        0 <= k < p.len(),
        p[k] != '.',
    ensures
        exists|m: int| 0 <= m < part_mantissa(p).len() && part_mantissa(p)[m] == p[k],
{
    let d = find_char(p, '.');
    lemma_find_char_props(p, '.');
    if d == -1 {
        assert(part_mantissa(p)[k] == p[k]);
    } else if k < d {
        assert(part_mantissa(p)[k] == p[k]);
    } else {
        assert(k != d);
        assert(part_mantissa(p)[k - 1] == p.skip(d + 1)[k - d - 1]);
        assert(part_mantissa(p)[k - 1] == p[k]);
    }
}

/// A ratio string with more than one colon — the wrong arity — is always
/// malformed: the extra colon sits inside a part, survives into that
/// part's mantissa and fails the digit check.
pub proof fn lemma_ratio_wrong_arity(s: Seq<char>, i: int, j: int)
    requires
        0 <= i < j < s.len(),
        s[i] == ':',
        s[j] == ':',
    ensures
        !ratio_ok(s),
{
    if ratio_ok(s) {
        let f = find_char(s, ':');
        lemma_find_char_props(s, ':');
        assert(f <= i);
        let rp = s.skip(f + 1);
        assert(rp[j - f - 1] == s[j]);
        assert(!crate::digits::is_digit_char(':')) by {
            assert(':' as int == 58);
        }
        assert(':' as int != '.' as int) by {
            assert('.' as int == 46);
        }
        lemma_mantissa_has(rp, j - f - 1);
        assert(!all_digits(part_mantissa(rp)));
    }
}

/// A string with no colon at all is never a well-formed ratio.
pub proof fn lemma_ratio_no_colon(s: Seq<char>)
    requires
        forall|j: int| 0 <= j < s.len() ==> s[j] != ':',
    ensures
        !ratio_ok(s),
{
    lemma_find_char_absent(s, ':');
}

/// A malformed ratio string is rejected with the ratio-format error in
/// every branch that consults the ratio, never silently defaulted.
pub proof fn lemma_malformed_ratio_rejected(s: Seq<char>, w: u32, h: u32, sw: u32, sh: u32)
    requires
        !ratio_ok(s),
    ensures
        resolve_spec(Some(w), None, Some(s), sw, sh) == Err::<(nat, nat), _>(
            InfoError::InvalidRatioFormat,
        ),
        resolve_spec(None, Some(h), Some(s), sw, sh) == Err::<(nat, nat), _>(
            InfoError::InvalidRatioFormat,
        ),
        resolve_spec(None, None, Some(s), sw, sh) == Err::<(nat, nat), _>(
            InfoError::InvalidRatioFormat,
        ),
{
}

/// With no width, no height and no ratio, resolution always fails with
/// the no-size error.
pub proof fn lemma_no_size_defined(sw: u32, sh: u32)
    ensures
        resolve_spec(None, None, None, sw, sh) == Err::<(nat, nat), _>(InfoError::NoSizeDefined),
{
}

/// Resolution is a pure function of the hint and the source dimensions:
/// two resolutions of identical inputs agree.
pub proof fn lemma_resolve_deterministic(
    width: Option<u32>,
    height: Option<u32>,
    ratio: Option<Seq<char>>,
    sw: u32,
    sh: u32,
    r1: Result<(nat, nat), InfoError>,
    r2: Result<(nat, nat), InfoError>,
)
    requires
        r1 == resolve_spec(width, height, ratio, sw, sh),
        r2 == resolve_spec(width, height, ratio, sw, sh),
    ensures
        r1 == r2,
{
}

/// Multiply two bounded values and divide, entirely in 128 bits, capping
/// the quotient at `u32::MAX`.
fn scale_div(a: u64, b: u64, d: u64) -> (r: u32)
    requires
        d >= 1,
    ensures
        r as nat == sat32((a as int) * (b as int) / (d as int)),
{
    proof {
        vstd::arithmetic::mul::lemma_mul_upper_bound(
            a as int,
            u64::MAX as int,
            b as int,
            u64::MAX as int,
        );
    }
    let p: u128 = (a as u128) * (b as u128);
    let q: u128 = p / (d as u128);
    if q > u32::MAX as u128 {
        u32::MAX
    } else {
        q as u32
    }
}

impl Info {
    /// Resolve this hint against the source dimensions.  Pure: the result
    /// is a function of the hint and the source size alone.
    pub fn get_new_size(&self, width: u32, height: u32) -> (r: Result<(u32, u32), InfoError>)
        requires
            width >= 1,
            height >= 1,
        ensures
            match r {
                Ok(d) => resolve_spec(self.width, self.height, ratio_view(self.ratio), width, height)
                    == Ok::<_, InfoError>((d.0 as nat, d.1 as nat)),
                Err(e) => resolve_spec(
                    self.width,
                    self.height,
                    ratio_view(self.ratio),
                    width,
                    height,
                ) == Err::<(nat, nat), _>(e),
            },
    {
        match self.width {
            Some(w) => match self.height {
                Some(h) => {
                    let new_width: u32 = if w > width {
                        width
                    } else {
                        w
                    };
                    let new_height: u32 = if h > height {
                        height
                    } else {
                        h
                    };
                    Ok((new_width, new_height))
                },
                None => match &self.ratio {
                    Some(r) => match parse_ratio(r.as_str()) {
                        Some(p) => Ok((w, scale_div(w as u64, p.1, p.0))),
                        None => Err(InfoError::InvalidRatioFormat),
                    },
                    None => Ok((w, scale_div(w as u64, height as u64, width as u64))),
                },
            },
            None => match self.height {
                Some(h) => match &self.ratio {
                    Some(r) => match parse_ratio(r.as_str()) {
                        Some(p) => Ok((scale_div(h as u64, p.0, p.1), h)),
                        None => Err(InfoError::InvalidRatioFormat),
                    },
                    None => Ok((scale_div(h as u64, width as u64, height as u64), h)),
                },
                None => match &self.ratio {
                    Some(r) => match parse_ratio(r.as_str()) {
                        Some(p) => Ok(
                            (
                                scale_div(height as u64, p.0, p.1),
                                scale_div(width as u64, p.1, p.0),
                            ),
                        ),
                        None => Err(InfoError::InvalidRatioFormat),
                    },
                    None => Err(InfoError::NoSizeDefined),
                },
            },
        }
    }
}

/// Pipeline failures.
#[derive(Clone, Copy, Debug, PartialEq, Eq, Structural)]
pub enum ImageCacheError {
    /// The raw width hint exceeds the configured maximum.
    WidthTooLarge,
    /// The raw height hint exceeds the configured maximum.
    HeightTooLarge,
    /// The resolved size exceeds the configured maximum.
    SizeTooLargeAfterRatio,
    /// The size hint could not be resolved.
    Resolve(InfoError),
    /// The origin could not be fetched.
    FetchFailed,
    /// The body did not decode, or could not be re-encoded, as a
    /// supported image.
    DecodeFailed,
}

/// The origin fetcher: hands back the raw bytes behind a URL, or nothing
/// on a transport failure.  The fetcher is an external collaborator, so
/// nothing is assumed of the outcome of a call.
pub trait Fetcher {
    fn fetch(&mut self, url: &str) -> Option<Vec<u8>>;
}

/// A canned fetcher: serves one fixed body (or fails when none is set)
/// and counts its calls, so a caller can observe that the cache-hit path
/// never fetches.
pub struct FixedFetcher {
    pub body: Option<Vec<u8>>,
    pub calls: u64,
}

impl Fetcher for FixedFetcher {
    fn fetch(&mut self, url: &str) -> Option<Vec<u8>> {
        if self.calls < u64::MAX {
            self.calls = self.calls + 1;
        }
        match &self.body {
            Some(b) => Some(crate::ram_cache::copy_bytes(b)),
            None => None,
        }
    }
}

/// A dimension hint, with absence read as zero (for key building).
pub open spec fn opt_dim(d: Option<u32>) -> nat {
    match d {
        Some(v) => v as nat,
        None => 0,
    }
}

/// A ratio hint, with absence read as the empty string.
pub open spec fn opt_ratio_or_empty(r: Option<Seq<char>>) -> Seq<char> {
    match r {
        Some(s) => s,
        None => Seq::empty(),
    }
}

/// The decimal-rendered dimensions tail of a media file name.  In the
/// whole name each variable part is preceded by its length (or is plain
/// decimal), so two distinct request tuples can never collide.
pub open spec fn dims_part(w: nat, h: nat) -> Seq<char> {
    dec_seq(w) + "|"@ + dec_seq(h)
}

/// The ratio-and-dimensions tail of a media file name.
pub open spec fn ratio_part(ratio: Seq<char>, w: nat, h: nat) -> Seq<char> {
    dec_seq(ratio.len()) + "|"@ + (ratio + "|"@ + dims_part(w, h))
}

/// The deterministic media file name for a request tuple (continued).
pub open spec fn file_name_spec(url: Seq<char>, ratio: Seq<char>, w: nat, h: nat) -> Seq<char> {
    dec_seq(url.len()) + "|"@ + (url + "|"@ + ratio_part(ratio, w, h))
}

/// The media file name of a request.
pub open spec fn info_file_name(i: Info) -> Seq<char> {
    file_name_spec(
        i.url@,
        opt_ratio_or_empty(ratio_view(i.ratio)),
        opt_dim(i.width),
        opt_dim(i.height),
    )
}

/// Build the media file name of a request.
#[verifier::rlimit(100)]
pub fn build_file_name(params: &Info) -> (r: String)
    ensures
        r@ == info_file_name(*params),
{
    let ratio_str: &str = match &params.ratio {
        Some(rt) => rt.as_str(),
        None => "",
    };
    proof {
        reveal_strlit("");
        assert(ratio_str@ == opt_ratio_or_empty(ratio_view(params.ratio)));
    }
    let width_val: u64 = match params.width {
        Some(w) => w as u64,
        None => 0,
    };
    let height_val: u64 = match params.height {
        Some(h) => h as u64,
        None => 0,
    };
    let mut s = u64_to_dec(params.url.unicode_len() as u64);
    s.append("|");
    s.append(params.url.as_str());
    s.append("|");
    s.append(u64_to_dec(ratio_str.unicode_len() as u64).as_str());
    s.append("|");
    s.append(ratio_str);
    s.append("|");
    s.append(u64_to_dec(width_val).as_str());
    s.append("|");
    s.append(u64_to_dec(height_val).as_str());
    proof {
        assert(s@ =~= info_file_name(*params));
    }
    s
}

/// Equal digit renderings come from equal numbers.
pub proof fn lemma_dec_seq_injective(a: nat, b: nat)
    requires
        dec_seq(a) == dec_seq(b),
    ensures
        a == b,
{
    crate::digits::lemma_dec_seq_val(a);
    crate::digits::lemma_dec_seq_val(b);
}

/// Two equal strings that each start with an all-digit run, a separator
/// bar and a tail split identically: the separator cannot sit inside a
/// digit run.
pub proof fn lemma_digit_segment(a: Seq<char>, b: Seq<char>, t1: Seq<char>, t2: Seq<char>)
    requires
        all_digits(a),
        all_digits(b),
        a + "|"@ + t1 == b + "|"@ + t2,
    ensures
        a == b,
        t1 == t2,
{
    reveal_strlit("|");
    assert("|"@ =~= seq!['|']);
    assert(!crate::digits::is_digit_char('|')) by {
        assert('|' as int == 124);
    }
    let s1 = a + "|"@ + t1;
    let s2 = b + "|"@ + t2;
    if a.len() < b.len() {
        assert(s1[a.len() as int] == '|');
        assert(s2[a.len() as int] == b[a.len() as int]);
        assert(false);
    }
    if b.len() < a.len() {
        assert(s2[b.len() as int] == '|');
        assert(s1[b.len() as int] == a[b.len() as int]);
        assert(false);
    }
    assert(s1.len() == a.len() + 1 + t1.len());
    assert(s2.len() == b.len() + 1 + t2.len());
    assert(t1.len() == t2.len());
    assert forall|i: int| 0 <= i < a.len() implies a[i] == b[i] by {
        assert(s1[i] == a[i]);
        assert(s2[i] == b[i]);
    }
    assert(a =~= b);
    assert forall|i: int| 0 <= i < t1.len() implies t1[i] == t2[i] by {
        assert(s1[a.len() + 1 + i] == t1[i]);
        assert(s2[a.len() + 1 + i] == t2[i]);
    }
    assert(t1 =~= t2);
}

/// Two equal strings whose leading segments have the same length split
/// identically.
pub proof fn lemma_known_len_segment(a: Seq<char>, b: Seq<char>, t1: Seq<char>, t2: Seq<char>)
    requires
        a.len() == b.len(),
        a + t1 == b + t2,
    ensures
        a == b,
        t1 == t2,
{
    let s1 = a + t1;
    let s2 = b + t2;
    assert(s1.len() == a.len() + t1.len());
    assert(s2.len() == b.len() + t2.len());
    assert(t1.len() == t2.len());
    assert forall|i: int| 0 <= i < a.len() implies a[i] == b[i] by {
        assert(s1[i] == a[i]);
        assert(s2[i] == b[i]);
    }
    assert(a =~= b);
    assert forall|i: int| 0 <= i < t1.len() implies t1[i] == t2[i] by {
        assert(s1[a.len() + i] == t1[i]);
        assert(s2[a.len() + i] == t2[i]);
    }
    assert(t1 =~= t2);
}

/// The dimensions tail is injective.
pub proof fn lemma_dims_part_injective(w1: nat, h1: nat, w2: nat, h2: nat)
    requires
        dims_part(w1, h1) == dims_part(w2, h2),
    ensures
        w1 == w2,
        h1 == h2,
{
    crate::digits::lemma_dec_seq_digits(w1);
    crate::digits::lemma_dec_seq_digits(w2);
    lemma_digit_segment(dec_seq(w1), dec_seq(w2), dec_seq(h1), dec_seq(h2));
    lemma_dec_seq_injective(w1, w2);
    lemma_dec_seq_injective(h1, h2);
}

/// The ratio-and-dimensions tail is injective.
pub proof fn lemma_ratio_part_injective(
    r1: Seq<char>,
    w1: nat,
    h1: nat,
    r2: Seq<char>,
    w2: nat,
    h2: nat,
)
    requires
        ratio_part(r1, w1, h1) == ratio_part(r2, w2, h2),
    ensures
        r1 == r2,
        w1 == w2,
        h1 == h2,
{
    reveal_strlit("|");
    crate::digits::lemma_dec_seq_digits(r1.len());
    crate::digits::lemma_dec_seq_digits(r2.len());
    lemma_digit_segment(
        dec_seq(r1.len()),
        dec_seq(r2.len()),
        r1 + "|"@ + dims_part(w1, h1),
        r2 + "|"@ + dims_part(w2, h2),
    );
    lemma_dec_seq_injective(r1.len(), r2.len());
    lemma_known_len_segment(r1 + "|"@, r2 + "|"@, dims_part(w1, h1), dims_part(w2, h2));
    lemma_known_len_segment(r1, r2, "|"@, "|"@);
    lemma_dims_part_injective(w1, h1, w2, h2);
}

/// The media file name is injective: two request tuples with the same
/// name are the same tuple, so distinct requests can never share a cache
/// entry.
pub proof fn lemma_file_name_injective(
    u1: Seq<char>,
    r1: Seq<char>,
    w1: nat,
    h1: nat,
    u2: Seq<char>,
    r2: Seq<char>,
    w2: nat,
    h2: nat,
)
    requires
        file_name_spec(u1, r1, w1, h1) == file_name_spec(u2, r2, w2, h2),
    ensures
        u1 == u2,
        r1 == r2,
        w1 == w2,
        h1 == h2,
{
    reveal_strlit("|");
    crate::digits::lemma_dec_seq_digits(u1.len());
    crate::digits::lemma_dec_seq_digits(u2.len());
    lemma_digit_segment(
        dec_seq(u1.len()),
        dec_seq(u2.len()),
        u1 + "|"@ + ratio_part(r1, w1, h1),
        u2 + "|"@ + ratio_part(r2, w2, h2),
    );
    lemma_dec_seq_injective(u1.len(), u2.len());
    lemma_known_len_segment(u1 + "|"@, u2 + "|"@, ratio_part(r1, w1, h1), ratio_part(r2, w2, h2));
    lemma_known_len_segment(u1, u2, "|"@, "|"@);
    lemma_ratio_part_injective(r1, w1, h1, r2, w2, h2);
}

/// The cache contents after a successful store: the encoded bytes under
/// the media key, the content type under the `+ext` companion key, and
/// the write instant under the file name itself, all with the media
/// time-to-live.
pub open spec fn written_maps(
    b0: Map<Seq<char>, (Seq<u8>, nat)>,
    t0: Map<Seq<char>, (Seq<char>, nat)>,
    b1: Map<Seq<char>, (Seq<u8>, nat)>,
    t1: Map<Seq<char>, (Seq<char>, nat)>,
    fname: Seq<char>,
    enc: Seq<u8>,
    kind: ImageKind,
    ttl: usize,
    now: usize,
) -> bool {
    let e = expiry_at(now as nat, ttl as nat);
    &&& b1 == b0.insert(media_key(fname), (enc, e))
    &&& t1 == t0.insert(fname + "+ext"@, (kind_mime(kind), e)).insert(
        fname,
        (dec_seq(now as nat), e),
    )
}

/// What storing a fetched body does: probe, resolve, bound-check,
/// transform, write, read back — or fail with the exact error the input
/// forces, leaving the cache untouched.
pub open spec fn store_post(
    params: Info,
    b0: Map<Seq<char>, (Seq<u8>, nat)>,
    t0: Map<Seq<char>, (Seq<char>, nat)>,
    b1: Map<Seq<char>, (Seq<u8>, nat)>,
    t1: Map<Seq<char>, (Seq<char>, nat)>,
    body: Seq<u8>,
    max_w: usize,
    max_h: usize,
    ttl: usize,
    now: usize,
    r: Result<(Vec<u8>, String), ImageCacheError>,
) -> bool {
    let fname = info_file_name(params);
    match image_probe(body) {
        None => r == Err::<(Vec<u8>, String), _>(ImageCacheError::DecodeFailed) && b1 == b0 && t1
            == t0,
        Some(p) => if p.0 == 0 || p.1 == 0 {
            r == Err::<(Vec<u8>, String), _>(ImageCacheError::DecodeFailed) && b1 == b0 && t1 == t0
        } else {
            match resolve_spec(params.width, params.height, ratio_view(params.ratio), p.0, p.1) {
                Err(e) => r == Err::<(Vec<u8>, String), _>(ImageCacheError::Resolve(e)) && b1 == b0
                    && t1 == t0,
                Ok(d) => if d.0 > max_w as nat || d.1 > max_h as nat {
                    r == Err::<(Vec<u8>, String), _>(ImageCacheError::SizeTooLargeAfterRatio) && b1
                        == b0 && t1 == t0
                } else if d.0 == 0 || d.1 == 0 {
                    r == Err::<(Vec<u8>, String), _>(ImageCacheError::DecodeFailed) && b1 == b0
                        && t1 == t0
                } else if p.2 is Gif {
                    match crate::images::gif::gif_resized(body, d.0 as u32, d.1 as u32) {
                        None => r == Err::<(Vec<u8>, String), _>(ImageCacheError::DecodeFailed)
                            && b1 == b0 && t1 == t0,
                        Some(enc) => if enc.len() == 0 {
                            r == Err::<(Vec<u8>, String), _>(ImageCacheError::DecodeFailed) && b1
                                == b0 && t1 == t0
                        } else {
                            written_maps(b0, t0, b1, t1, fname, enc, p.2, ttl, now) && (r matches
                            Ok(v) && v.0@ == enc && v.1@ == mime_of(fname))
                        },
                    }
                } else {
                    match resized_static(body, d.0 as u32, d.1 as u32) {
                        None => r == Err::<(Vec<u8>, String), _>(ImageCacheError::DecodeFailed)
                            && b1 == b0 && t1 == t0,
                        Some(enc) => if enc.len() == 0 {
                            r == Err::<(Vec<u8>, String), _>(ImageCacheError::DecodeFailed) && b1
                                == b0 && t1 == t0
                        } else {
                            written_maps(b0, t0, b1, t1, fname, enc, p.2, ttl, now) && (r matches
                            Ok(v) && v.0@ == enc && v.1@ == mime_of(fname))
                        },
                    }
                },
            }
        },
    }
}

/// Steps 3 to 7 of the pipeline, on an already-fetched body: decode to
/// learn the source size, resolve the hint, enforce the configured
/// maxima, resize and re-encode in the detected format, write the entry
/// and its companions, and serve the read-back.
pub fn cache_image_store(
    params: &Info,
    cache: &mut Cache,
    body: &Vec<u8>,
    max_width: usize,
    max_height: usize,
    cache_ttl_images: usize,
    now: usize,
) -> (r: Result<(Vec<u8>, String), ImageCacheError>)
    requires
        old(cache).wf(),
    ensures
        final(cache).wf(),
        store_post(
            *params,
            old(cache).blobs(),
            old(cache).texts(),
            final(cache).blobs(),
            final(cache).texts(),
            body@,
            max_width,
            max_height,
            cache_ttl_images,
            now,
            r,
        ),
{
    let probe = probe_image(body);
    let (sw, sh, kind) = match probe {
        Some(p) => p,
        None => {
            return Err(ImageCacheError::DecodeFailed);
        },
    };
    if sw == 0 || sh == 0 {
        return Err(ImageCacheError::DecodeFailed);
    }
    let dims = match params.get_new_size(sw, sh) {
        Ok(d) => d,
        Err(e) => {
            return Err(ImageCacheError::Resolve(e));
        },
    };
    let (nw, nh) = dims;
    if (nw as usize) > max_width || (nh as usize) > max_height {
        return Err(ImageCacheError::SizeTooLargeAfterRatio);
    }
    if nw == 0 || nh == 0 {
        return Err(ImageCacheError::DecodeFailed);
    }
    let encoded: Vec<u8> = match kind {
        ImageKind::Gif => match crate::images::gif::run(body, nw, nh) {
            Some(v) => v,
            None => {
                return Err(ImageCacheError::DecodeFailed);
            },
        },
        _ => match resize_encode(body, nw, nh) {
            Some(v) => v,
            None => {
                return Err(ImageCacheError::DecodeFailed);
            },
        },
    };
    if encoded.len() == 0 {
        return Err(ImageCacheError::DecodeFailed);
    }
    let ghost enc_view = encoded@;
    let file_name = build_file_name(params);
    set_media_cache(file_name.as_str(), encoded, cache, cache_ttl_images, now);
    let mut ext_key = file_name.clone();
    ext_key.append("+ext");
    let _ = cache.set_str(ext_key.as_str(), kind_mime_str(kind), cache_ttl_images, now);
    let marker_value = usize_to_dec(now);
    let _ = cache.set_str(file_name.as_str(), marker_value.as_str(), cache_ttl_images, now);
    proof {
        let fname = info_file_name(*params);
        assert(file_name@ == fname);
        assert(ext_key@ == fname + "+ext"@);
        assert(written_maps(
            old(cache).blobs(),
            old(cache).texts(),
            cache.blobs(),
            cache.texts(),
            fname,
            enc_view,
            kind,
            cache_ttl_images,
            now,
        ));
    }
    match get_media_cache(file_name.as_str(), cache) {
        Some(hit) => Ok(hit),
        None => Err(ImageCacheError::DecodeFailed),
    }
}

/// Whether the cache already holds a non-empty media entry for this
/// request.
pub open spec fn media_hit(c: Cache, params: Info) -> bool {
    let k = media_key(info_file_name(params));
    c.blobs().contains_key(k) && c.blobs()[k].0.len() > 0
}

/// Whether the raw width hint exceeds the configured maximum.
pub open spec fn width_oversized(p: Info, m: usize) -> bool {
    match p.width {
        Some(w) => w as nat > m as nat,
        None => false,
    }
}

/// Whether the raw height hint exceeds the configured maximum.
pub open spec fn height_oversized(p: Info, m: usize) -> bool {
    match p.height {
        Some(h) => h as nat > m as nat,
        None => false,
    }
}

/// The media pipeline.  A cache hit is served as stored, without
/// touching the origin fetcher or the cache; a miss validates the raw
/// hint before fetching, then stores and serves the transformed image.
pub fn cache_image<F: Fetcher>(
    params: &Info,
    cache: &mut Cache,
    fetcher: &mut F,
    max_width: usize,
    max_height: usize,
    cache_ttl_images: usize,
    now: usize,
) -> (r: Result<(Vec<u8>, String), ImageCacheError>)
    requires
        old(cache).wf(),
    ensures
        final(cache).wf(),
        media_hit(*old(cache), *params) ==> {
            &&& *final(cache) == *old(cache)
            &&& *final(fetcher) == *old(fetcher)
            &&& r matches Ok(v) && v.0@ == old(cache).blobs()[media_key(info_file_name(*params))].0
                && v.1@ == mime_of(info_file_name(*params))
        },
        (!media_hit(*old(cache), *params) && width_oversized(*params, max_width)) ==> r == Err::<
            (Vec<u8>, String),
            _,
        >(ImageCacheError::WidthTooLarge) && *final(cache) == *old(cache) && *final(fetcher)
            == *old(fetcher),
        (!media_hit(*old(cache), *params) && !width_oversized(*params, max_width)
            && height_oversized(*params, max_height)) ==> r == Err::<(Vec<u8>, String), _>(
            ImageCacheError::HeightTooLarge,
        ) && *final(cache) == *old(cache) && *final(fetcher) == *old(fetcher),
        (!media_hit(*old(cache), *params) && !width_oversized(*params, max_width)
            && !height_oversized(*params, max_height)) ==> ((r == Err::<(Vec<u8>, String), _>(
            ImageCacheError::FetchFailed,
        ) && *final(cache) == *old(cache)) || (exists|b: Seq<u8>|
            store_post(
                *params,
                old(cache).blobs(),
                old(cache).texts(),
                final(cache).blobs(),
                final(cache).texts(),
                b,
                max_width,
                max_height,
                cache_ttl_images,
                now,
                r,
            ))),
{
    let file_name = build_file_name(params);
    match get_media_cache(file_name.as_str(), cache) {
        Some(hit) => {
            return Ok(hit);
        },
        None => {},
    }
    match params.width {
        Some(w) => {
            if (w as usize) > max_width {
                return Err(ImageCacheError::WidthTooLarge);
            }
        },
        None => {},
    }
    match params.height {
        Some(h) => {
            if (h as usize) > max_height {
                return Err(ImageCacheError::HeightTooLarge);
            }
        },
        None => {},
    }
    let body = match fetcher.fetch(params.url.as_str()) {
        Some(b) => b,
        None => {
            return Err(ImageCacheError::FetchFailed);
        },
    };
    cache_image_store(params, cache, &body, max_width, max_height, cache_ttl_images, now)
}

} // verus!
