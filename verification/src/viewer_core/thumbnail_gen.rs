//! Thumbnail sizing and generation. The size is computed in binary64 by the
//! formula `(side * (max / longest_side)).round()`; the model below follows
//! every rounding step of that computation on integers.
use crate::utils::rounding::{
    binary64_quotient, binary64_value, lemma_nearest_binary64_lower, lemma_nearest_binary64_upper,
    lemma_quotient_shift_lower, lemma_round_half_even_lower, lemma_round_half_even_upper,
    nearest_binary64, quotient_shift, quotient_significand,
};
use crate::viewer_core::image_loader::{
    clone_image, dimensions_of, image_dimensions, image_thumbnail, thumbnail_of,
};
use image::DynamicImage;
use vstd::arithmetic::power2::{lemma_pow2_unfold, pow2};
use vstd::prelude::*;

verus! {

/// The longest side of a thumbnail in the sidebar.
pub const THUMB_MAX: u32 = 96;

/// `v` as `f64 as u32` converts a non-negative value: saturated at
/// `u32::MAX`.
pub open spec fn saturating_u32(v: nat) -> nat {
    if v > u32::MAX {
        u32::MAX as nat
    } else {
        v
    }
}

/// `v`, raised to 1 when it is 0.
pub open spec fn at_least_one(v: nat) -> nat {
    if v == 0 {
        1
    } else {
        v
    }
}

/// `(x as f64 * (max as f64 / big as f64)).round() as u32`: the scale is the
/// binary64 nearest to `max / big`, the product is rounded to binary64, and
/// the result is rounded half away from zero.
pub open spec fn scaled_side(x: nat, max: nat, big: nat) -> nat {
    let e = quotient_shift(max, big);
    let product = nearest_binary64(x * quotient_significand(max, big));
    saturating_u32((2 * product + pow2(e)) / pow2(e + 1))
}

/// The thumbnail size of a `w` by `h` image whose longest side may be at
/// most `max`: `(0, 0)` when one of them is 0, the image's own size when it
/// already fits, else both sides scaled by `max / longest side` (at least 1).
pub open spec fn thumbnail_dims(w: nat, h: nat, max: nat) -> (nat, nat) {
    if max == 0 || w == 0 || h == 0 {
        (0, 0)
    } else if w <= max && h <= max {
        (w, h)
    } else {
        let big = if w >= h {
            w
        } else {
            h
        };
        (at_least_one(scaled_side(w, max, big)), at_least_one(scaled_side(h, max, big)))
    }
}

/// One side scaled by `max / big`.
fn scale_side(x: u32, max: u32, big: u32) -> (r: u32)
    requires
        0 < max < big,
        x <= big,
    ensures
        r == at_least_one(scaled_side(x as nat, max as nat, big as nat)),
{
    let (s, p) = binary64_quotient(max as u128, big as u128);
    let ghost e = quotient_shift(max as nat, big as nat);
    proof {
        lemma_pow2_unfold(e + 1);
        assert(x as u128 * s <= 0x100000000 * 0x20000000000000) by (nonlinear_arith)
            requires
                x <= 0x100000000,
                s <= 0x20000000000000,
        ;
    }
    let product = binary64_value(x as u128 * s);
    let v = (2 * product + p) / (2 * p);
    let r = if v > u32::MAX as u128 {
        u32::MAX
    } else {
        v as u32
    };
    if r == 0 {
        1
    } else {
        r
    }
}

/// The size of the thumbnail of a `w` by `h` image with longest side `max`.
pub fn thumbnail_size(w: u32, h: u32, max: u32) -> (r: (u32, u32))
    ensures
        (r.0 as nat, r.1 as nat) == thumbnail_dims(w as nat, h as nat, max as nat),
{
    if max == 0 || w == 0 || h == 0 {
        return (0, 0);
    }
    if w <= max && h <= max {
        return (w, h);
    }
    let big = if w >= h {
        w
    } else {
        h
    };
    (scale_side(w, max, big), scale_side(h, max, big))
}

/// The thumbnail of `image` with longest side `max`: the image itself (a
/// copy) when `max` is 0 or it already fits, else `DynamicImage::thumbnail`
/// at the size `thumbnail_size` gives.
pub fn generate_thumbnail(image: &DynamicImage, max: u32) -> (r: DynamicImage)
    ensures
        ({
            let (w, h) = image_dimensions(*image);
            let (nw, nh) = thumbnail_dims(w as nat, h as nat, max as nat);
            if nw == 0 || (nw == w && nh == h) {
                r == *image
            } else {
                r == image_thumbnail(*image, nw as u32, nh as u32)
            }
        }),
{
    let (w, h) = dimensions_of(image);
    let (nw, nh) = thumbnail_size(w, h, max);
    if nw == 0 || (nw == w && nh == h) {
        return clone_image(image);
    }
    thumbnail_of(image, nw, nh)
}

/// Like `generate_thumbnail`, but always resamples (so the result is a new
/// buffer of at most `max` per side) unless the image has no pixels.
pub fn generate_thumbnail_capped(image: &DynamicImage, max: u32) -> (r: DynamicImage)
    ensures
        ({
            let (w, h) = image_dimensions(*image);
            let (nw, nh) = thumbnail_dims(w as nat, h as nat, max as nat);
            if w == 0 || h == 0 {
                r == *image
            } else {
                r == image_thumbnail(*image, nw as u32, nh as u32)
            }
        }),
{
    let (w, h) = dimensions_of(image);
    if w == 0 || h == 0 {
        return clone_image(image);
    }
    let (nw, nh) = thumbnail_size(w, h, max);
    thumbnail_of(image, nw, nh)
}


/// A side of at most `big` scaled by `max / big` stays within `max`.
proof fn lemma_scaled_side_fits(x: nat, max: nat, big: nat)
    requires
        0 < max < big,
        x <= big,
        max <= u32::MAX,
    ensures
        scaled_side(x, max, big) <= max,
{
    let e = quotient_shift(max, big);
    let p = pow2(e);
    let s = quotient_significand(max, big);
    let n = x * s;
    let nb = nearest_binary64(n);
    vstd::arithmetic::power2::lemma_pow2_pos(e);
    lemma_pow2_unfold(e + 1);
    lemma_quotient_shift_lower(max, big);
    lemma_round_half_even_upper(max * p, big);
    lemma_nearest_binary64_upper(n);
    assert(n <= big * s) by (nonlinear_arith)
        requires
            n == x * s,
            x <= big,
    ;
    assert(0x40000000000000 * nb < 0x20000000000000 * (2 * max * p + p)) by (nonlinear_arith)
        requires
            0x20000000000000 * nb <= 0x20000000000001 * n,
            n <= big * s,
            2 * big * s <= 2 * (max * p) + big,
            max * p >= 0x10000000000000 * big,
            0 < max <= 0xffffffff,
            p > 0,
    ;
    assert((2 * nb + p) / (2 * p) <= max) by (nonlinear_arith)
        requires
            2 * nb < 2 * max * p + p,
            p > 0,
    ;
}

/// Law: a thumbnail is never larger than `max` on either side, and it is
/// never empty when neither `max` nor a side of the image is zero.
pub proof fn law_thumbnail_fits(w: nat, h: nat, max: nat)
    requires
        w <= u32::MAX,
        h <= u32::MAX,
        max <= u32::MAX,
    ensures
        thumbnail_dims(w, h, max).0 <= max,
        thumbnail_dims(w, h, max).1 <= max,
        w > 0 && h > 0 && max > 0 ==> thumbnail_dims(w, h, max).0 >= 1 && thumbnail_dims(
            w,
            h,
            max,
        ).1 >= 1,
{
    if max > 0 && w > 0 && h > 0 && !(w <= max && h <= max) {
        let big = if w >= h {
            w
        } else {
            h
        };
        lemma_scaled_side_fits(w, max, big);
        lemma_scaled_side_fits(h, max, big);
    }
}

/// The longest side, scaled by `max / longest side`, becomes `max` again:
/// the rounding errors stay far below half a pixel.
proof fn lemma_scaled_side_longest(max: nat, big: nat)
    requires
        0 < max < big,
        big <= u32::MAX,
    ensures
        scaled_side(big, max, big) >= max,
{
    let e = quotient_shift(max, big);
    let p = pow2(e);
    let s = quotient_significand(max, big);
    let n = big * s;
    let nb = nearest_binary64(n);
    let mp = max * p;
    vstd::arithmetic::power2::lemma_pow2_pos(e);
    lemma_pow2_unfold(e + 1);
    lemma_quotient_shift_lower(max, big);
    lemma_round_half_even_lower(mp, big);
    lemma_nearest_binary64_lower(n);
    assert(p >= 2 * big && mp <= 0xffffffff * p) by (nonlinear_arith)
        requires
            mp == max * p,
            mp >= 0x10000000000000 * big,
            max <= 0xffffffff,
            p > 0,
    ;
    assert(2 * n + big >= 2 * mp) by (nonlinear_arith)
        requires
            n == big * s,
            2 * big * s + big >= 2 * mp,
    ;
    assert(2 * nb + p >= 2 * mp);
    assert((2 * nb + p) / (2 * p) >= max) by (nonlinear_arith)
        requires
            2 * nb + p >= 2 * (max * p),
            p > 0,
    ;
}

/// A side scaled by `max / big`, with `max < big`, does not grow.
proof fn lemma_scaled_side_shrinks(x: nat, max: nat, big: nat)
    requires
        0 < max < big,
        1 <= x <= big,
        big <= u32::MAX,
    ensures
        scaled_side(x, max, big) <= x,
{
    let e = quotient_shift(max, big);
    let p = pow2(e);
    let s = quotient_significand(max, big);
    let n = x * s;
    let nb = nearest_binary64(n);
    vstd::arithmetic::power2::lemma_pow2_pos(e);
    lemma_pow2_unfold(e + 1);
    lemma_quotient_shift_lower(max, big);
    lemma_round_half_even_upper(max * p, big);
    lemma_nearest_binary64_upper(n);
    let a = big * nb;
    let bn = big * n;
    let xmp = x * (max * p);
    let xbp = x * (big * p);
    let xp = x * p;
    let xb = x * big;
    let bp = big * p;
    assert(p >= 2 * big) by (nonlinear_arith)
        requires
            max * p >= 0x10000000000000 * big,
            max <= 0xffffffff,
            p > 0,
    ;
    assert(0x20000000000000 * a <= 0x20000000000001 * bn) by (nonlinear_arith)
        requires
            0x20000000000000 * nb <= 0x20000000000001 * n,
            a == big * nb,
            bn == big * n,
    ;
    assert(2 * bn <= 2 * xmp + xb) by (nonlinear_arith)
        requires
            2 * big * s <= 2 * (max * p) + big,
            n == x * s,
            bn == big * n,
            xmp == x * (max * p),
            xb == x * big,
    ;
    assert(xmp + xp <= xbp && xb <= 2 * xp && xbp <= 0xffffffff * bp && bp > 0)
        by (nonlinear_arith)
        requires
            max + 1 <= big,
            p >= 2 * big,
            x <= big,
            big <= 0xffffffff,
            big > 0,
            p > 0,
            xmp == x * (max * p),
            xbp == x * (big * p),
            xp == x * p,
            xb == x * big,
            bp == big * p,
    ;
    assert(2 * a < 2 * xbp + bp);
    assert(2 * nb + p < 2 * x * p + 2 * p) by (nonlinear_arith)
        requires
            2 * a < 2 * xbp + bp,
            a == big * nb,
            xbp == x * (big * p),
            bp == big * p,
            big > 0,
    ;
    assert((2 * nb + p) / (2 * p) <= x) by (nonlinear_arith)
        requires
            2 * nb + p < 2 * x * p + 2 * p,
            p > 0,
    ;
}

/// Law: a thumbnail never grows a side of the image, and when the image
/// must shrink its longest side becomes exactly `max`.
pub proof fn law_thumbnail_keeps_longest_side(w: nat, h: nat, max: nat)
    requires
        w <= u32::MAX,
        h <= u32::MAX,
        max <= u32::MAX,
    ensures
        thumbnail_dims(w, h, max).0 <= w,
        thumbnail_dims(w, h, max).1 <= h,
        max > 0 && w > 0 && h > 0 && !(w <= max && h <= max) ==> if w >= h {
            thumbnail_dims(w, h, max).0 == max
        } else {
            thumbnail_dims(w, h, max).1 == max
        },
{
    if max > 0 && w > 0 && h > 0 && !(w <= max && h <= max) {
        let big = if w >= h {
            w
        } else {
            h
        };
        lemma_scaled_side_fits(w, max, big);
        lemma_scaled_side_fits(h, max, big);
        lemma_scaled_side_shrinks(w, max, big);
        lemma_scaled_side_shrinks(h, max, big);
        lemma_scaled_side_longest(max, big);
    }
}

} // verus!
