//! Decoding, shrinking and fitting of pictures.
use vstd::prelude::*;
use std::sync::Arc;
use crate::pixmap::{Picture, Pixmap};
use crate::single::{single, single_is_near, to_single, to_whole, whole, MANTISSA_HIGH};
use crate::text::join2;

verus! {

/// What the `image` crate makes of the bytes of an image file: the picture in
/// eight-bit colour with alpha, or the text of its error.
pub uninterp spec fn decoded_picture(bytes: Seq<u8>) -> Result<Picture, Seq<char>>;

/// `image::load_from_memory` guesses the format and decodes;
/// `DynamicImage::to_rgba8` converts. What a file holds is left to that crate;
/// a decoded picture always fills its size.
#[verifier::external_body]
fn decode_with_image(bytes: &[u8]) -> (r: Result<Pixmap, String>)
    ensures
        match decoded_picture(bytes@) {
            Ok(p) => r matches Ok(x) && x@ == p,
            Err(m) => r matches Err(s) && s@ == m,
        },
        r matches Ok(x) ==> x.wf(),
{
    match image::load_from_memory(bytes) {
        Ok(img) => {
            let rgba = img.to_rgba8();
            Ok(Pixmap { width: rgba.width(), height: rgba.height(), data: rgba.into_raw() })
        },
        Err(e) => Err(e.to_string()),
    }
}

/// The size that the `image` crate reads from the head of an image file; none
/// where it does not know the format or the head is damaged.
pub uninterp spec fn header_size(bytes: Seq<u8>) -> Option<(u32, u32)>;

/// `image::ImageReader` with `with_guessed_format` and `into_dimensions` reads the
/// size of a picture without decoding it. What the head of a file says is left to
/// that crate.
#[verifier::external_body]
pub(crate) fn read_dimensions(bytes: &[u8]) -> (r: Option<(u32, u32)>)
    ensures
        r == header_size(bytes@),
{
    match image::ImageReader::new(std::io::Cursor::new(bytes)).with_guessed_format() {
        Ok(reader) => reader.into_dimensions().ok(),
        Err(_) => None,
    }
}

/// The picture that the `image` crate samples from another at a given size.
pub uninterp spec fn resampled(p: Picture, width: u32, height: u32) -> Picture;

/// `image::imageops::resize` with the triangle filter gives a picture of the
/// size asked for. How its pixels are sampled is left to that crate.
#[verifier::external_body]
fn resize_with_image(p: &Pixmap, width: u32, height: u32) -> (r: Pixmap)
    requires
        p.wf(),
        1 <= width <= 4096,
        1 <= height <= 4096,
    ensures
        r@ == resampled(p@, width, height),
        r.width == width,
        r.height == height,
        r.wf(),
{
    let view: image::ImageBuffer<image::Rgba<u8>, &[u8]> =
        image::ImageBuffer::from_raw(p.width, p.height, p.data.as_slice()).expect("picture is filled");
    let out = image::imageops::resize(&view, width, height, image::imageops::FilterType::Triangle);
    Pixmap { width: out.width(), height: out.height(), data: out.into_raw() }
}

/// What the batch is told of a decoding: the picture, or why there is none.
pub fn decode_outcome(result: Result<Pixmap, String>) -> (r: Result<Arc<Pixmap>, String>)
    ensures
        match result {
            Ok(p) => r == Ok::<Arc<Pixmap>, String>(Arc::new(p)),
            Err(e) => r matches Err(m) && m@ == "decode failed: "@ + e@,
        },
{
    match result {
        Ok(p) => Ok(Arc::new(p)),
        Err(e) => Err(join2("decode failed: ", e.as_str())),
    }
}

/// Decodes the bytes of an image file.
pub fn decode_source(bytes: &[u8]) -> (r: Result<Arc<Pixmap>, String>)
    ensures
        match decoded_picture(bytes@) {
            Ok(p) => r matches Ok(x) && x@ == p && x.wf(),
            Err(e) => r matches Err(m) && m@ == "decode failed: "@ + e,
        },
{
    decode_outcome(decode_with_image(bytes))
}

/// Decodes the bytes of an image file. The error is that of the decoder.
pub fn decode_result_file(bytes: &[u8]) -> (r: Result<Pixmap, String>)
    ensures
        match decoded_picture(bytes@) {
            Ok(p) => r matches Ok(x) && x@ == p && x.wf(),
            Err(e) => r matches Err(m) && m@ == e,
        },
{
    decode_with_image(bytes)
}

/// Longest side of a thumbnail.
pub const THUMB_MAX_PX: u32 = 160;

/// The ratio by which a side has to shrink, in single precision; one where it need not.
pub open spec fn side_ratio(src: nat, max: nat) -> (nat, nat) {
    if src == 0 || whole(max) >= whole(src) {
        (1, 1)
    } else {
        single(whole(max), whole(src))
    }
}

/// The smaller of the ratios by which the width and the height have to shrink.
pub open spec fn fit_ratio(src_w: nat, src_h: nat, max_w: nat, max_h: nat) -> (nat, nat) {
    let w = side_ratio(src_w, max_w);
    let h = side_ratio(src_h, max_h);
    if w.0 * h.1 <= h.0 * w.1 {
        w
    } else {
        h
    }
}

/// A length times a ratio in single precision, rounded to the nearest whole number,
/// half up; at least one, and at most what 32 bits hold.
pub open spec fn scaled(src: nat, ratio: (nat, nat)) -> nat {
    let x = single(whole(src) * ratio.0, ratio.1);
    let n = (2 * x.0 + x.1) / (2 * x.1);
    if n < 1 {
        1
    } else if n > u32::MAX {
        u32::MAX as nat
    } else {
        n
    }
}

/// Size of a picture shrunk into a box, keeping its shape.
pub open spec fn fitted(src_w: nat, src_h: nat, max_w: nat, max_h: nat) -> (nat, nat) {
    let r = fit_ratio(src_w, src_h, max_w, max_h);
    (scaled(src_w, r), scaled(src_h, r))
}

/// Sides of a box up to this length are met exactly.
pub const EXACT_SIDE: u32 = 1_048_576;

proof fn side_ratio_bounds(src: nat, max: nat)
    requires
        max <= EXACT_SIDE,
    ensures
        ({
            let r = side_ratio(src, max);
            &&& r.1 > 0
            &&& src > max ==> MANTISSA_HIGH * (r.0 * whole(src)) <= (MANTISSA_HIGH + 1) * (max * r.1)
            &&& src > max ==> MANTISSA_HIGH * (r.0 * whole(src)) >= (MANTISSA_HIGH - 1) * (max * r.1)
            &&& src > max ==> whole(src) > max
            &&& src <= max ==> r == (1nat, 1nat)
        }),
{
    if src > max {
        if src >= MANTISSA_HIGH {
            single_is_near(src, 1);
            assert(MANTISSA_HIGH * whole(src) >= (MANTISSA_HIGH - 1) * src);
        }
        single_is_near(max, whole(src));
    }
}

/// A side that is scaled by at most what takes it to `bound` does not get longer than
/// that.
proof fn scaled_is_bounded(src: nat, ratio: (nat, nat), bound: nat)
    requires
        ratio.1 > 0,
        bound <= EXACT_SIDE,
        MANTISSA_HIGH * (whole(src) * ratio.0) <= (MANTISSA_HIGH + 1) * (bound * ratio.1),
    ensures
        1 <= scaled(src, ratio) <= if bound < 1 {
            1
        } else {
            bound
        },
{
    let p = whole(src) * ratio.0;
    single_is_near(p, ratio.1);
    let (n, d) = single(p, ratio.1);
    let e = ratio.1;
    assert(2 * n < (2 * bound + 1) * d) by (nonlinear_arith)
        requires
            MANTISSA_HIGH * (n * e) <= (MANTISSA_HIGH + 1) * (p * d),
            MANTISSA_HIGH * p <= (MANTISSA_HIGH + 1) * (bound * e),
            0 <= bound <= EXACT_SIDE,
            e > 0,
            d > 0,
    ;
    assert((2 * n + d) / (2 * d) <= bound) by (nonlinear_arith)
        requires
            2 * n < (2 * bound + 1) * d,
            d > 0,
    ;
}

/// A side that is scaled by at least what takes it to `bound` gets that long.
proof fn scaled_reaches(src: nat, ratio: (nat, nat), bound: nat)
    requires
        ratio.1 > 0,
        1 <= bound <= EXACT_SIDE,
        MANTISSA_HIGH * (whole(src) * ratio.0) >= (MANTISSA_HIGH - 1) * (bound * ratio.1),
    ensures
        scaled(src, ratio) >= bound,
{
    let p = whole(src) * ratio.0;
    single_is_near(p, ratio.1);
    let (n, d) = single(p, ratio.1);
    let e = ratio.1;
    assert(2 * n > (2 * bound - 1) * d) by (nonlinear_arith)
        requires
            MANTISSA_HIGH * (n * e) >= (MANTISSA_HIGH - 1) * (p * d),
            MANTISSA_HIGH * p >= (MANTISSA_HIGH - 1) * (bound * e),
            1 <= bound <= EXACT_SIDE,
            e > 0,
            d > 0,
    ;
    assert((2 * n + d) / (2 * d) >= bound) by (nonlinear_arith)
        requires
            2 * n > (2 * bound - 1) * d,
            d > 0,
            bound >= 1,
    ;
}

proof fn side_fits(src: nat, max: nat, ratio: (nat, nat))
    requires
        max <= EXACT_SIDE,
        ratio.1 > 0,
        ratio.0 * side_ratio(src, max).1 <= side_ratio(src, max).0 * ratio.1,
    ensures
        1 <= scaled(src, ratio) <= if max < 1 {
            1
        } else {
            max
        },
        scaled(src, ratio) <= if src < 1 {
            1
        } else {
            src
        },
{
    let own = side_ratio(src, max);
    let w = whole(src);
    side_ratio_bounds(src, max);
    if src > max {
        assert(MANTISSA_HIGH * (w * ratio.0) <= (MANTISSA_HIGH + 1) * (max * ratio.1))
            by (nonlinear_arith)
            requires
                MANTISSA_HIGH * (own.0 * w) <= (MANTISSA_HIGH + 1) * (max * own.1),
                ratio.0 * own.1 <= own.0 * ratio.1,
                own.1 > 0,
                ratio.1 > 0,
                w >= 0,
                max >= 0,
        ;
        scaled_is_bounded(src, ratio, max);
    } else {
        assert(MANTISSA_HIGH * (w * ratio.0) <= (MANTISSA_HIGH + 1) * (src * ratio.1))
            by (nonlinear_arith)
            requires
                w == src,
                ratio.0 * 1 <= 1 * ratio.1,
                src >= 0,
        ;
        scaled_is_bounded(src, ratio, src);
    }
}

/// A shrunk picture fits into its box, is not enlarged, and keeps at least one pixel.
pub proof fn fitted_fits(src_w: nat, src_h: nat, max_w: nat, max_h: nat)
    requires
        max_w <= EXACT_SIDE,
        max_h <= EXACT_SIDE,
    ensures
        ({
            let f = fitted(src_w, src_h, max_w, max_h);
            &&& 1 <= f.0 <= (if max_w < 1 {
                1
            } else {
                max_w
            })
            &&& 1 <= f.1 <= (if max_h < 1 {
                1
            } else {
                max_h
            })
            &&& f.0 <= (if src_w < 1 {
                1
            } else {
                src_w
            })
            &&& f.1 <= (if src_h < 1 {
                1
            } else {
                src_h
            })
        }),
{
    side_ratio_bounds(src_w, max_w);
    side_ratio_bounds(src_h, max_h);
    let r = fit_ratio(src_w, src_h, max_w, max_h);
    side_fits(src_w, max_w, r);
    side_fits(src_h, max_h, r);
}

/// A picture that has to shrink fills one side of its box.
pub proof fn shrunk_fills_a_side(src_w: nat, src_h: nat, max_w: nat, max_h: nat)
    requires
        1 <= max_w <= EXACT_SIDE,
        1 <= max_h <= EXACT_SIDE,
        src_w > max_w || src_h > max_h,
    ensures
        fitted(src_w, src_h, max_w, max_h).0 == max_w || fitted(src_w, src_h, max_w, max_h).1
            == max_h,
{
    let w = side_ratio(src_w, max_w);
    let h = side_ratio(src_h, max_h);
    side_ratio_bounds(src_w, max_w);
    side_ratio_bounds(src_h, max_h);
    fitted_fits(src_w, src_h, max_w, max_h);
    if w.0 * h.1 <= h.0 * w.1 {
        if src_w <= max_w {
            shrinking_is_below_one(src_h, max_h);
            assert(h.1 <= h.0) by (nonlinear_arith)
                requires
                    w.0 * h.1 <= h.0 * w.1,
                    w.0 == 1 && w.1 == 1,
            ;
        } else {
            assert(whole(src_w) * w.0 == w.0 * whole(src_w)) by (nonlinear_arith);
            scaled_reaches(src_w, w, max_w);
        }
    } else {
        if src_h <= max_h {
            shrinking_is_below_one(src_w, max_w);
            assert(w.0 > w.1) by (nonlinear_arith)
                requires
                    w.0 * h.1 > h.0 * w.1,
                    h.0 == 1 && h.1 == 1,
            ;
        } else {
            assert(whole(src_h) * h.0 == h.0 * whole(src_h)) by (nonlinear_arith);
            scaled_reaches(src_h, h, max_h);
        }
    }
}

proof fn shrinking_is_below_one(src: nat, max: nat)
    requires
        src > max,
        max <= EXACT_SIDE,
    ensures
        side_ratio(src, max).0 < side_ratio(src, max).1,
{
    let r = side_ratio(src, max);
    let w = whole(src);
    side_ratio_bounds(src, max);
    if r.0 >= r.1 {
        assert(false) by (nonlinear_arith)
            requires
                r.0 >= r.1 > 0,
                MANTISSA_HIGH * (r.0 * w) <= (MANTISSA_HIGH + 1) * (max * r.1),
                w >= max + 1,
                max <= EXACT_SIDE,
        ;
    }
}

/// The ratio by which a side has to shrink, in single precision.
fn find_ratio(src: u32, max: u32) -> (r: (u128, u128))
    ensures
        (r.0 as nat, r.1 as nat) == side_ratio(src as nat, max as nat),
        r.0 <= MANTISSA_HIGH,
        0 < r.1 <= 0x200_0000_0000_0000,
{
    if src == 0 {
        return (1, 1);
    }
    let s: u64 = to_whole(src);
    let m: u64 = to_whole(max);
    if m >= s {
        return (1, 1);
    }
    to_single(m, s)
}

/// A length times a ratio in single precision.
fn scale(src: u32, ratio: (u128, u128)) -> (r: u32)
    requires
        ratio.0 <= MANTISSA_HIGH,
        0 < ratio.1 <= 0x200_0000_0000_0000,
    ensures
        r == scaled(src as nat, (ratio.0 as nat, ratio.1 as nat)),
{
    let s: u64 = to_whole(src);
    let m: u64 = ratio.0 as u64;
    assert(0 <= s * m <= 0x2_0000_0000 * MANTISSA_HIGH) by (nonlinear_arith)
        requires
            0 <= s <= 0x2_0000_0000,
            0 <= m <= MANTISSA_HIGH,
    ;
    let x: (u128, u128) = to_single(s * m, ratio.1 as u64);
    proof {
        assert(x.0 <= MANTISSA_HIGH * 0x200_0000_0000_0000);
        assert(x.1 <= MANTISSA_HIGH * 0x200_0000_0000_0000);
    }
    let n: u128 = (2 * x.0 + x.1) / (2 * x.1);
    if n < 1 {
        1
    } else if n > u32::MAX as u128 {
        u32::MAX
    } else {
        n as u32
    }
}

/// Size of a picture shrunk into a box, keeping its shape, reckoned in single precision.
/// A box with sides of up to `EXACT_SIDE` is met exactly.
pub fn fit_dimensions(src_w: u32, src_h: u32, max_w: u32, max_h: u32) -> (r: (u32, u32))
    ensures
        (r.0 as nat, r.1 as nat) == fitted(
            src_w as nat,
            src_h as nat,
            max_w as nat,
            max_h as nat,
        ),
{
    let w = find_ratio(src_w, max_w);
    let h = find_ratio(src_h, max_h);
    proof {
        assert(0 <= w.0 * h.1 <= MANTISSA_HIGH * 0x200_0000_0000_0000) by (nonlinear_arith)
            requires
                0 <= w.0 <= MANTISSA_HIGH,
                0 <= h.1 <= 0x200_0000_0000_0000,
        ;
        assert(0 <= h.0 * w.1 <= MANTISSA_HIGH * 0x200_0000_0000_0000) by (nonlinear_arith)
            requires
                0 <= h.0 <= MANTISSA_HIGH,
                0 <= w.1 <= 0x200_0000_0000_0000,
        ;
    }
    let r: (u128, u128) = if w.0 * h.1 <= h.0 * w.1 {
        w
    } else {
        h
    };
    (scale(src_w, r), scale(src_h, r))
}

/// Thumbnail of a picture.
pub fn thumbnail(p: &Pixmap) -> (r: Pixmap)
    requires
        p.wf(),
    ensures
        ({
            let f = fitted(
                p.width as nat,
                p.height as nat,
                THUMB_MAX_PX as nat,
                THUMB_MAX_PX as nat,
            );
            &&& r@ == resampled(p@, f.0 as u32, f.1 as u32)
            &&& r.width == f.0
            &&& r.height == f.1
            &&& r.wf()
        }),
{
    proof {
        fitted_fits(p.width as nat, p.height as nat, THUMB_MAX_PX as nat, THUMB_MAX_PX as nat);
    }
    let (w, h): (u32, u32) = fit_dimensions(p.width, p.height, THUMB_MAX_PX, THUMB_MAX_PX);
    resize_with_image(p, w, h)
}

/// Thumbnail of an image file; `None` where it cannot be decoded.
pub fn thumbnail_of_file(bytes: &[u8]) -> (r: Option<Pixmap>)
    ensures
        match decoded_picture(bytes@) {
            Ok(p) => {
                let f = fitted(
                    p.width as nat,
                    p.height as nat,
                    THUMB_MAX_PX as nat,
                    THUMB_MAX_PX as nat,
                );
                r matches Some(t) && t@ == resampled(p, f.0 as u32, f.1 as u32)
            },
            Err(_) => r is None,
        },
{
    match decode_with_image(bytes) {
        Ok(p) => Some(thumbnail(&p)),
        Err(_) => None,
    }
}

/// Why a picture could not be filtered.
pub fn filter_failure(load_error: Option<&str>) -> (r: String)
    ensures
        r@ == match load_error {
            Some(e) => "Failed to load: "@ + e@,
            None => "Decode failed"@,
        },
{
    match load_error {
        Some(e) => join2("Failed to load: ", e),
        None => "Decode failed".to_owned(),
    }
}

/// A picture that fits into its box keeps its size.
pub proof fn fitting_pictures_keep_their_size(src_w: nat, src_h: nat, max_w: nat, max_h: nat)
    requires
        1 <= src_w <= max_w <= EXACT_SIDE,
        1 <= src_h <= max_h <= EXACT_SIDE,
    ensures
        fitted(src_w, src_h, max_w, max_h) == (src_w, src_h),
{
    side_ratio_bounds(src_w, max_w);
    side_ratio_bounds(src_h, max_h);
    fitted_fits(src_w, src_h, max_w, max_h);
    scaled_reaches(src_w, (1, 1), src_w);
    scaled_reaches(src_h, (1, 1), src_h);
}

/// A scaled side is less than a pixel away from the length times the ratio.
proof fn scaled_is_near(src: nat, ratio: (nat, nat))
    requires
        ratio.1 > 0,
        scaled(src, ratio) <= EXACT_SIDE,
    ensures
        scaled(src, ratio) * ratio.1 <= src * ratio.0 + ratio.1,
        src * ratio.0 <= scaled(src, ratio) * ratio.1 + ratio.1,
{
    let w = whole(src) as int;
    if src >= MANTISSA_HIGH {
        single_is_near(src, 1);
        let s = single(src, 1);
        assert(s.1 == 1);
        assert(s.0 * 1 == s.0 && src * 1 == src);
    }
    assert(16_777_216 * w <= 16_777_217 * src && 16_777_216 * w >= 16_777_215 * src);
    let e = ratio.1 as int;
    let p = whole(src) * ratio.0;
    single_is_near(p, ratio.1);
    let n = single(p, ratio.1).0 as int;
    let d = single(p, ratio.1).1 as int;
    let x = src * ratio.0;
    let r0 = ratio.0 as int;
    assert(16_777_216 * p <= 16_777_217 * x && 16_777_216 * p >= 16_777_215 * x) by (nonlinear_arith)
        requires
            16_777_216 * w <= 16_777_217 * src,
            16_777_216 * w >= 16_777_215 * src,
            p == w * r0,
            x == src * r0,
            r0 >= 0,
    ;
    let k = (2 * n + d) / (2 * d);
    assert(2 * (d * k) <= 2 * n + d && 2 * n < 2 * (d * k) + d) by (nonlinear_arith)
        requires
            d > 0,
            n >= 0,
            k == (2 * n + d) / (2 * d),
    ;
    let ke = k * e;
    assert(0 <= k <= EXACT_SIDE) by (nonlinear_arith)
        requires
            d > 0,
            n >= 0,
            k == (2 * n + d) / (2 * d),
            k <= EXACT_SIDE,
    ;
    assert(33_554_432 * ke <= 33_554_434 * p + 16_777_216 * e) by (nonlinear_arith)
        requires
            2 * (d * k) <= 2 * n + d,
            16_777_216 * (n * e) <= 16_777_217 * (p * d),
            ke == k * e,
            d > 0,
            e > 0,
    ;
    assert(33_554_430 * p <= 33_554_432 * ke + 16_777_216 * e) by (nonlinear_arith)
        requires
            2 * n < 2 * (d * k) + d,
            16_777_216 * (n * e) >= 16_777_215 * (p * d),
            ke == k * e,
            d > 0,
            e > 0,
    ;
    assert(0 <= ke <= EXACT_SIDE * e) by (nonlinear_arith)
        requires
            0 <= k <= EXACT_SIDE,
            ke == k * e,
            e > 0,
    ;
    assert(x >= 0) by (nonlinear_arith)
        requires
            x == src * r0,
            src >= 0,
            r0 >= 0,
    ;
    assert(ke <= x + e && x <= ke + e);
    if k < 1 {
        assert(ke == 0) by (nonlinear_arith)
            requires
                k == 0,
                ke == k * e,
        ;
    }
}

/// A picture is shrunk alike in both directions: its sides keep their ratio, but for
/// the pixel that each is rounded by.
pub proof fn shrunk_pictures_keep_their_shape(src_w: nat, src_h: nat, max_w: nat, max_h: nat)
    requires
        1 <= max_w <= EXACT_SIDE,
        1 <= max_h <= EXACT_SIDE,
    ensures
        ({
            let f = fitted(src_w, src_h, max_w, max_h);
            &&& f.0 * src_h <= f.1 * src_w + src_w + src_h
            &&& f.1 * src_w <= f.0 * src_h + src_w + src_h
        }),
{
    fitted_fits(src_w, src_h, max_w, max_h);
    side_ratio_bounds(src_w, max_w);
    side_ratio_bounds(src_h, max_h);
    let f = fitted(src_w, src_h, max_w, max_h);
    let r = fit_ratio(src_w, src_h, max_w, max_h);
    scaled_is_near(src_w, r);
    scaled_is_near(src_h, r);
    let a = f.0 as int;
    let b = f.1 as int;
    let e = r.1 as int;
    let k = r.0 as int;
    let w = src_w as int;
    let h = src_h as int;
    assert(a * h <= b * w + w + h) by (nonlinear_arith)
        requires
            a * e <= w * k + e,
            h * k <= b * e + e,
            e > 0,
            w >= 0,
            h >= 0,
    {
        assert(e * (a * h) <= (w * k + e) * h) by (nonlinear_arith)
            requires
                a * e <= w * k + e,
                h >= 0,
        ;
        assert(w * (h * k) <= w * (b * e + e)) by (nonlinear_arith)
            requires
                h * k <= b * e + e,
                w >= 0,
        ;
        assert((w * k + e) * h == w * (h * k) + e * h) by (nonlinear_arith);
        assert(w * (b * e + e) == e * (b * w + w)) by (nonlinear_arith);
        assert(e * (a * h) <= e * (b * w + w + h)) by (nonlinear_arith)
            requires
                e * (a * h) <= e * (b * w + w) + e * h,
        ;
    }
    assert(b * w <= a * h + w + h) by (nonlinear_arith)
        requires
            b * e <= h * k + e,
            w * k <= a * e + e,
            e > 0,
            w >= 0,
            h >= 0,
    {
        assert(e * (b * w) <= (h * k + e) * w) by (nonlinear_arith)
            requires
                b * e <= h * k + e,
                w >= 0,
        ;
        assert(h * (w * k) <= h * (a * e + e)) by (nonlinear_arith)
            requires
                w * k <= a * e + e,
                h >= 0,
        ;
        assert((h * k + e) * w == h * (w * k) + e * w) by (nonlinear_arith);
        assert(h * (a * e + e) == e * (a * h + h)) by (nonlinear_arith);
        assert(e * (b * w) <= e * (a * h + h + w)) by (nonlinear_arith)
            requires
                e * (b * w) <= e * (a * h + h) + e * w,
        ;
    }
}

/// A thumbnail is at most 160 pixels wide and high, and no larger than its picture.
pub proof fn thumbnails_are_small(src_w: nat, src_h: nat)
    requires
        src_w > 0,
        src_h > 0,
    ensures
        ({
            let f = fitted(src_w, src_h, THUMB_MAX_PX as nat, THUMB_MAX_PX as nat);
            &&& 1 <= f.0 <= 160 && f.0 <= src_w
            &&& 1 <= f.1 <= 160 && f.1 <= src_h
            &&& src_w > 160 || src_h > 160 ==> f.0 == 160 || f.1 == 160
        }),
{
    fitted_fits(src_w, src_h, THUMB_MAX_PX as nat, THUMB_MAX_PX as nat);
    if src_w > 160 || src_h > 160 {
        shrunk_fills_a_side(src_w, src_h, THUMB_MAX_PX as nat, THUMB_MAX_PX as nat);
    }
}

} // verus!
