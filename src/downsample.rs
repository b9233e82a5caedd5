//! Area-average downsampling into a bounding box, keeping the aspect ratio.
//!
//! Samples are stored row-major with `ch` interleaved channels per pixel
//! (1 for a mono plane, 3 for RGB); every channel is resampled with the same
//! box mapping.
use vstd::arithmetic::div_mod::{lemma_fundamental_div_mod, lemma_fundamental_div_mod_converse};
use vstd::prelude::*;

use crate::error::ImageError;
use crate::parallel::par_map_range;
use crate::grid::{
    Grid2,
    Grid3,
    grid2_cells,
    grid3_cells,
    lemma_row_element,
    lemma_shape_fits2,
    lemma_shape_fits3,
    shape_fits,
};

verus! {

pub open spec fn min_int(a: int, b: int) -> int {
    if a <= b {
        a
    } else {
        b
    }
}

/// `a / b` rounded to the nearest integer, halves up (for `a >= 0`, `b > 0`).
pub open spec fn round_div(a: int, b: int) -> int {
    (2 * a + b) / (2 * b)
}

/// `a / b` rounded up (for `b > 0`).
pub open spec fn ceil_div(a: int, b: int) -> int {
    (a + b - 1) / b
}

/// The bounding box is relatively wider than the source:
/// `max_w / max_h > w / h`.
pub open spec fn box_is_wider(w: int, h: int, max_w: int, max_h: int) -> bool {
    max_w * h > w * max_h
}

/// (target width, target height) for a `w` x `h` source and a
/// `max_w` x `max_h` bounding box. The side that binds is clamped to the
/// source, the other is derived from the aspect ratio and rounded.
pub open spec fn target_dims(w: int, h: int, max_w: int, max_h: int) -> (int, int) {
    if box_is_wider(w, h, max_w, max_h) {
        let th = min_int(max_h, h);
        (round_div(th * w, h), th)
    } else {
        let tw = min_int(max_w, w);
        (tw, round_div(tw * h, w))
    }
}

/// Downsampling is defined: nothing is empty and no target side rounds to 0.
pub open spec fn target_ok(w: int, h: int, max_w: int, max_h: int) -> bool {
    &&& w > 0
    &&& h > 0
    &&& max_w > 0
    &&& max_h > 0
    &&& target_dims(w, h, max_w, max_h).0 > 0
    &&& target_dims(w, h, max_w, max_h).1 > 0
}

/// First source index covered by target index `i` (source length `n`,
/// target length `t`): `floor(i * n / t)`.
pub open spec fn span_lo(i: int, n: int, t: int) -> int {
    (i * n) / t
}

/// One past the last source index covered by target index `i`:
/// `ceil((i + 1) * n / t)`, clamped to the source.
pub open spec fn span_hi(i: int, n: int, t: int) -> int {
    min_int(ceil_div((i + 1) * n, t), n)
}

pub open spec fn sample(s: Seq<i32>, w: int, ch: int, y: int, x: int, c: int) -> int {
    s[(y * w + x) * ch + c] as int
}

/// Sum of channel `c` over columns `x0 .. x1` of row `y`.
pub open spec fn row_sum(s: Seq<i32>, w: int, ch: int, c: int, y: int, x0: int, x1: int) -> int
    decreases x1 - x0,
{
    if x1 <= x0 {
        0
    } else {
        row_sum(s, w, ch, c, y, x0, x1 - 1) + sample(s, w, ch, y, x1 - 1, c)
    }
}

/// Sum of channel `c` over rows `y0 .. y1` and columns `x0 .. x1`.
pub open spec fn box_sum(
    s: Seq<i32>,
    w: int,
    ch: int,
    c: int,
    y0: int,
    y1: int,
    x0: int,
    x1: int,
) -> int
    decreases y1 - y0,
{
    if y1 <= y0 {
        0
    } else {
        box_sum(s, w, ch, c, y0, y1 - 1, x0, x1) + row_sum(s, w, ch, c, y1 - 1, x0, x1)
    }
}

/// Floor of the mean of channel `c` over the source box of target pixel
/// (`y`, `x`).
pub open spec fn box_mean(
    s: Seq<i32>,
    w: int,
    h: int,
    ch: int,
    tw: int,
    th: int,
    y: int,
    x: int,
    c: int,
) -> int {
    let y0 = span_lo(y, h, th);
    let y1 = span_hi(y, h, th);
    let x0 = span_lo(x, w, tw);
    let x1 = span_hi(x, w, tw);
    box_sum(s, w, ch, c, y0, y1, x0, x1) / ((y1 - y0) * (x1 - x0))
}

/// Element `i` of the resampled array in row-major (y, x, channel) order.
pub open spec fn resample_cell(
    s: Seq<i32>,
    w: int,
    h: int,
    ch: int,
    tw: int,
    th: int,
    i: int,
) -> i32 {
    box_mean(s, w, h, ch, tw, th, (i / ch) / tw, (i / ch) % tw, i % ch) as i32
}

/// A `w` x `h` source with `ch` channels, area-averaged to `tw` x `th`.
pub open spec fn resample_spec(s: Seq<i32>, w: nat, h: nat, ch: nat, tw: nat, th: nat) -> Seq<
    i32,
> {
    Seq::new(th * tw * ch, |i: int| resample_cell(s, w as int, h as int, ch as int, tw as int, th as int, i))
}

// ---- arithmetic helpers ----
proof fn lemma_div_at_most(a: int, b: int, q: int)
    requires
        0 <= a,
        0 < b,
        a < b * (q + 1),
    ensures
        a / b <= q,
{
    lemma_fundamental_div_mod(a, b);
    assert(a / b <= q) by (nonlinear_arith)
        requires
            a == b * (a / b) + a % b,
            0 <= a % b,
            0 < b,
            a < b * (q + 1),
    ;
}

proof fn lemma_div_at_least(a: int, b: int, q: int)
    requires
        0 < b,
        b * q <= a,
    ensures
        q <= a / b,
{
    lemma_fundamental_div_mod(a, b);
    assert(q <= a / b) by (nonlinear_arith)
        requires
            a == b * (a / b) + a % b,
            a % b < b,
            0 < b,
            b * q <= a,
    ;
}

/// Floor division of a negative number through a ceiling on its magnitude.
proof fn lemma_floor_of_negative(a: int, n: int)
    requires
        0 < a,
        0 < n,
    ensures
        (-a) / n == -((a + n - 1) / n),
{
    let q = (a + n - 1) / n;
    let r = (a + n - 1) % n;
    lemma_fundamental_div_mod(a + n - 1, n);
    assert(-a == (-q) * n + (n - 1 - r)) by (nonlinear_arith)
        requires
            a + n - 1 == n * q + r,
    ;
    lemma_fundamental_div_mod_converse(-a, n, -q, n - 1 - r);
}

proof fn lemma_mul_le(a: int, b: int, c: int, d: int)
    requires
        0 <= a <= c,
        0 <= b <= d,
    ensures
        a * b <= c * d,
{
    assert(a * b <= c * d) by (nonlinear_arith)
        requires
            0 <= a <= c,
            0 <= b <= d,
    ;
}

/// Position `p * ch + c` of channel `c` of pixel `p` lies in an array of
/// `n` pixels.
proof fn lemma_channel_index(p: int, c: int, n: int, ch: int)
    requires
        0 <= p < n,
        0 <= c < ch,
    ensures
        0 <= p * ch + c < n * ch,
{
    assert(0 <= p * ch + c < n * ch) by (nonlinear_arith)
        requires
            0 <= p < n,
            0 <= c < ch,
    ;
}

/// Pixel `y * w + x` lies in an `h` x `w` plane.
proof fn lemma_pixel_index(y: int, x: int, h: int, w: int)
    requires
        0 <= y < h,
        0 <= x < w,
    ensures
        0 <= y * w + x < h * w,
        y * w + w <= h * w,
{
    assert(y * w + w <= h * w) by (nonlinear_arith)
        requires
            0 <= y < h,
            0 <= x < w,
    ;
}

/// The source span of target index `i` is non-empty and inside the source.
proof fn lemma_span(i: int, n: int, t: int)
    requires
        0 <= i < t,
        0 < t <= n,
    ensures
        0 <= span_lo(i, n, t) < span_hi(i, n, t) <= n,
{
    lemma_mul_le(i, n, t - 1, n);
    assert(i * n < t * n) by (nonlinear_arith)
        requires
            0 <= i < t,
            0 < n,
    ;
    lemma_div_at_most(i * n, t, n - 1);
    lemma_fundamental_div_mod(i * n, t);
    assert(0 <= (i * n) / t) by (nonlinear_arith)
        requires
            0 <= i,
            0 < n,
            0 < t,
    ;
    let lo = (i * n) / t;
    assert(t * (lo + 1) <= (i + 1) * n + t - 1) by (nonlinear_arith)
        requires
            i * n == t * lo + (i * n) % t,
            0 <= (i * n) % t,
            1 <= n,
    ;
    lemma_div_at_least((i + 1) * n + t - 1, t, lo + 1);
}

/// The chosen target size keeps the source aspect ratio up to the rounding
/// of the derived side: within half a target pixel, i.e.
/// `|tw - th * w / h| <= 1/2` when the height binds and
/// `|th - tw * h / w| <= 1/2` when the width binds.
pub proof fn lemma_target_keeps_aspect(w: int, h: int, max_w: int, max_h: int)
    requires
        target_ok(w, h, max_w, max_h),
    ensures
        ({
            let (tw, th) = target_dims(w, h, max_w, max_h);
            if box_is_wider(w, h, max_w, max_h) {
                -h <= 2 * (tw * h - th * w) <= h
            } else {
                -w <= 2 * (th * w - tw * h) <= w
            }
        }),
{
    let (tw, th) = target_dims(w, h, max_w, max_h);
    if box_is_wider(w, h, max_w, max_h) {
        let a = 2 * (th * w) + h;
        lemma_fundamental_div_mod(a, 2 * h);
        assert(-h <= 2 * (tw * h - th * w) <= h) by (nonlinear_arith)
            requires
                a == 2 * (th * w) + h,
                a == (2 * h) * tw + a % (2 * h),
                0 <= a % (2 * h) < 2 * h,
        ;
    } else {
        let a = 2 * (tw * h) + w;
        lemma_fundamental_div_mod(a, 2 * w);
        assert(-w <= 2 * (th * w - tw * h) <= w) by (nonlinear_arith)
            requires
                a == 2 * (tw * h) + w,
                a == (2 * w) * th + a % (2 * w),
                0 <= a % (2 * w) < 2 * w,
        ;
    }
}

/// A span mapping of `n` onto itself covers exactly one index.
proof fn lemma_unit_span(i: int, n: int)
    requires
        0 <= i < n,
    ensures
        span_lo(i, n, n) == i,
        span_hi(i, n, n) == i + 1,
{
    lemma_fundamental_div_mod_converse(i * n, n, i, 0);
    lemma_fundamental_div_mod_converse((i + 1) * n + n - 1, n, i + 1, n - 1);
}

proof fn lemma_identity_cell(s: Seq<i32>, w: int, h: int, ch: int, i: int)
    requires
        w > 0,
        h > 0,
        0 <= i < s.len(),
        s.len() == h * w * ch,
    ensures
        resample_cell(s, w, h, ch, w, h, i) == s[i],
{
    assert(ch > 0) by (nonlinear_arith)
        requires
            0 <= i < h * w * ch,
            h > 0,
            w > 0,
    ;
    let p = i / ch;
    let c = i % ch;
    let y = p / w;
    let x = p % w;
    lemma_fundamental_div_mod(i, ch);
    lemma_fundamental_div_mod(p, w);
    assert(0 <= p < h * w) by (nonlinear_arith)
        requires
            i == ch * p + c,
            0 <= c < ch,
            0 <= i < h * w * ch,
    ;
    assert(0 <= y < h) by (nonlinear_arith)
        requires
            p == w * y + x,
            0 <= x < w,
            0 <= p < h * w,
    ;
    lemma_unit_span(y, h);
    lemma_unit_span(x, w);
    reveal_with_fuel(box_sum, 2);
    reveal_with_fuel(row_sum, 2);
    assert((y * w + x) * ch + c == i) by (nonlinear_arith)
        requires
            i == ch * p + c,
            p == w * y + x,
    ;
    assert(box_sum(s, w, ch, c, y, y + 1, x, x + 1) == s[i] as int);
    let v = s[i] as int;
    assert((y + 1 - y) * (x + 1 - x) == 1) by (nonlinear_arith);
    assert(v / 1 == v);
    assert(box_mean(s, w, h, ch, w, h, y, x, c) == v);
}

/// Downsampling into a box the size of the source keeps the size and every
/// sample.
pub proof fn lemma_downsample_identity(s: Seq<i32>, w: nat, h: nat, ch: nat)
    requires
        w > 0,
        h > 0,
        s.len() == h * w * ch,
    ensures
        target_ok(w as int, h as int, w as int, h as int),
        target_dims(w as int, h as int, w as int, h as int) == (w as int, h as int),
        resample_spec(s, w, h, ch, w, h) == s,
{
    assert(2 * (w * h) + w == h * (2 * w) + w) by (nonlinear_arith);
    lemma_fundamental_div_mod_converse((2 * (w * h) + w) as int, (2 * w) as int, h as int, w as int);
    assert forall|i: int| 0 <= i < s.len() implies #[trigger] resample_spec(
        s,
        w,
        h,
        ch,
        w,
        h,
    )[i] == s[i] by {
        lemma_identity_cell(s, w as int, h as int, ch as int, i);
    }
    assert(resample_spec(s, w, h, ch, w, h) =~= s);
}

// ---- executable parts ----
/// Target (width, height) for a `width` x `height` source and a bounding
/// box; `None` where downsampling is not defined.
pub fn target_size(width: usize, height: usize, max_width: usize, max_height: usize) -> (r: Option<
    (usize, usize),
>)
    requires
        width * height <= usize::MAX,
    ensures
        r is Some <==> target_ok(width as int, height as int, max_width as int, max_height as int),
        r matches Some(d) ==> (d.0 as int, d.1 as int) == target_dims(
            width as int,
            height as int,
            max_width as int,
            max_height as int,
        ) && d.0 <= width && d.1 <= height,
{
    if width == 0 || height == 0 || max_width == 0 || max_height == 0 {
        return None;
    }
    let w = width as u128;
    let h = height as u128;
    let mw = max_width as u128;
    let mh = max_height as u128;
    proof {
        lemma_mul_le(mw as int, h as int, usize::MAX as int, usize::MAX as int);
        lemma_mul_le(w as int, mh as int, usize::MAX as int, usize::MAX as int);
        assert(usize::MAX * usize::MAX < u128::MAX) by (nonlinear_arith);
    }
    let (tw, th): (u128, u128) = if mw * h > w * mh {
        let th = if mh < h {
            mh
        } else {
            h
        };
        proof {
            lemma_mul_le(th as int, w as int, h as int, w as int);
            assert(h * w == w * h) by (nonlinear_arith);
            assert((2 * h) * (w + 1) == 2 * (h * w) + 2 * h) by (nonlinear_arith);
            lemma_div_at_most(2 * (th * w) + h, 2 * h, w as int);
        }
        ((2 * (th * w) + h) / (2 * h), th)
    } else {
        let tw = if mw < w {
            mw
        } else {
            w
        };
        proof {
            lemma_mul_le(tw as int, h as int, w as int, h as int);
            assert((2 * w) * (h + 1) == 2 * (w * h) + 2 * w) by (nonlinear_arith);
            lemma_div_at_most(2 * (tw * h) + w, 2 * w, h as int);
        }
        (tw, (2 * (tw * h) + w) / (2 * w))
    };
    if tw == 0 || th == 0 {
        return None;
    }
    Some((tw as usize, th as usize))
}

/// Source span (lo, hi) of target index `i`.
fn span(i: usize, n: usize, t: usize) -> (r: (usize, usize))
    requires
        i < t <= n,
    ensures
        r.0 == span_lo(i as int, n as int, t as int),
        r.1 == span_hi(i as int, n as int, t as int),
        r.0 < r.1 <= n,
{
    proof {
        lemma_span(i as int, n as int, t as int);
        lemma_mul_le(i as int + 1, n as int, usize::MAX as int, usize::MAX as int);
        lemma_mul_le(i as int, n as int, usize::MAX as int, usize::MAX as int);
        assert(usize::MAX * usize::MAX + usize::MAX < u128::MAX) by (nonlinear_arith);
    }
    let lo = (i as u128 * n as u128) / t as u128;
    let up = ((i as u128 + 1) * n as u128 + t as u128 - 1) / t as u128;
    let hi = if up < n as u128 {
        up
    } else {
        n as u128
    };
    (lo as usize, hi as usize)
}

/// `sum / n` rounded down.
fn floor_div(sum: i128, n: usize) -> (r: i32)
    requires
        n > 0,
        -0x8000_0000 * n <= sum <= 0x7fff_ffff * n,
    ensures
        r == (sum as int) / (n as int),
{
    if sum >= 0 {
        proof {
            lemma_div_at_most(sum as int, n as int, 0x7fff_ffff);
        }
        let q = (sum as u128) / (n as u128);
        q as i32
    } else {
        let a: u128 = (-sum) as u128;
        proof {
            lemma_floor_of_negative(a as int, n as int);
            lemma_div_at_most(a + n - 1, n as int, 0x8000_0000);
        }
        let q = (a + n as u128 - 1) / (n as u128);
        (-(q as i64)) as i32
    }
}

/// Floor of the mean of channel `c` over rows `y0 .. y1`, columns `x0 .. x1`.
fn mean_of_box(
    s: &Vec<i32>,
    w: usize,
    h: usize,
    ch: usize,
    c: usize,
    y0: usize,
    y1: usize,
    x0: usize,
    x1: usize,
) -> (r: i32)
    requires
        s@.len() == h * w * ch,
        c < ch,
        y0 < y1 <= h,
        x0 < x1 <= w,
        h * w <= isize::MAX,
    ensures
        r == box_sum(s@, w as int, ch as int, c as int, y0 as int, y1 as int, x0 as int, x1 as int)
            / ((y1 - y0) * (x1 - x0)),
{
    let ghost cols = x1 - x0;
    let total = s.len();
    proof {
        lemma_mul_le((y1 - y0) as int, cols, h as int, w as int);
        assert((y1 - y0) * cols > 0) by (nonlinear_arith)
            requires
                y1 > y0,
                cols > 0,
        ;
    }
    let mut sum: i128 = 0;
    let mut n: usize = 0;
    let mut yy: usize = y0;
    while yy < y1
        invariant
            s@.len() == h * w * ch,
            total == s@.len(),
            c < ch,
            y0 < y1 <= h,
            x0 < x1 <= w,
            cols == x1 - x0,
            (y1 - y0) * cols > 0,
            (y1 - y0) * cols <= h * w <= isize::MAX,
            y0 <= yy <= y1,
            n == (yy - y0) * cols,
            sum == box_sum(s@, w as int, ch as int, c as int, y0 as int, yy as int, x0 as int, x1 as int),
            -0x8000_0000 * n <= sum <= 0x7fff_ffff * n,
        decreases y1 - yy,
    {
        proof {
            assert((yy - y0) * cols + cols == (yy + 1 - y0) * cols) by (nonlinear_arith);
            lemma_mul_le((yy + 1 - y0) as int, cols, (y1 - y0) as int, cols);
            lemma_pixel_index(yy as int, x0 as int, h as int, w as int);
        }
        let ghost done = n as int;
        let mut pix: usize = yy * w + x0;
        let mut xx: usize = x0;
        while xx < x1
            invariant
                s@.len() == h * w * ch,
                total == s@.len(),
                h * w <= isize::MAX,
                c < ch,
                yy < y1 <= h,
                x0 <= xx <= x1 <= w,
                cols == x1 - x0,
                pix == yy * w + xx,
                yy * w + w <= h * w,
                done + cols <= isize::MAX,
                n == done + (xx - x0),
                sum == box_sum(s@, w as int, ch as int, c as int, y0 as int, yy as int, x0 as int, x1 as int)
                    + row_sum(s@, w as int, ch as int, c as int, yy as int, x0 as int, xx as int),
                -0x8000_0000 * n <= sum <= 0x7fff_ffff * n,
            decreases x1 - xx,
        {
            proof {
                lemma_channel_index(pix as int, c as int, (h * w) as int, ch as int);
            }
            let v = s[pix * ch + c];
            sum = sum + v as i128;
            n = n + 1;
            pix = pix + 1;
            xx = xx + 1;
        }
        yy = yy + 1;
    }
    floor_div(sum, n)
}

/// Row `y` of the resampled array: `tw` pixels of `ch` channels.
pub open spec fn resample_row_spec(
    s: Seq<i32>,
    w: int,
    h: int,
    ch: int,
    tw: int,
    th: int,
    y: int,
) -> Seq<i32> {
    Seq::new((tw * ch) as nat, |j: int| box_mean(s, w, h, ch, tw, th, y, j / ch, j % ch) as i32)
}

/// `row` is row `y` of the resampled array.
pub open spec fn is_resample_row(
    row: Seq<i32>,
    s: Seq<i32>,
    w: usize,
    h: usize,
    ch: usize,
    tw: usize,
    th: usize,
    y: usize,
) -> bool {
    row == resample_row_spec(s, w as int, h as int, ch as int, tw as int, th as int, y as int)
}

/// Row `y` of `s` (a `w` x `h` source with `ch` channels) area-averaged to
/// `tw` x `th`.
fn resample_row(s: &Vec<i32>, w: usize, h: usize, ch: usize, tw: usize, th: usize, y: usize) -> (r:
    Vec<i32>)
    requires
        s@.len() == h * w * ch,
        0 < tw <= w,
        0 < th <= h,
        h * w <= isize::MAX,
        y < th,
    ensures
        is_resample_row(r@, s@, w, h, ch, tw, th, y),
{
    let (y0, y1) = span(y, h, th);
    let mut out: Vec<i32> = Vec::new();
    let mut x: usize = 0;
    assert(0 * ch == 0) by (nonlinear_arith);
    while x < tw
        invariant
            s@.len() == h * w * ch,
            0 < tw <= w,
            0 < th <= h,
            h * w <= isize::MAX,
            y < th,
            y0 == span_lo(y as int, h as int, th as int),
            y1 == span_hi(y as int, h as int, th as int),
            y0 < y1 <= h,
            x <= tw,
            out@.len() == x * ch,
            forall|j: int|
                0 <= j < out@.len() ==> out@[j] == box_mean(
                    s@,
                    w as int,
                    h as int,
                    ch as int,
                    tw as int,
                    th as int,
                    y as int,
                    j / ch as int,
                    j % ch as int,
                ) as i32,
        decreases tw - x,
    {
        let (x0, x1) = span(x, w, tw);
        let mut c: usize = 0;
        while c < ch
            invariant
                s@.len() == h * w * ch,
                0 < tw <= w,
                0 < th <= h,
                h * w <= isize::MAX,
                y < th,
                x < tw,
                y0 == span_lo(y as int, h as int, th as int),
                y1 == span_hi(y as int, h as int, th as int),
                x0 == span_lo(x as int, w as int, tw as int),
                x1 == span_hi(x as int, w as int, tw as int),
                y0 < y1 <= h,
                x0 < x1 <= w,
                c <= ch,
                out@.len() == x * ch + c,
                forall|j: int|
                    0 <= j < out@.len() ==> out@[j] == box_mean(
                        s@,
                        w as int,
                        h as int,
                        ch as int,
                        tw as int,
                        th as int,
                        y as int,
                        j / ch as int,
                        j % ch as int,
                    ) as i32,
            decreases ch - c,
        {
            let v = mean_of_box(s, w, h, ch, c, y0, y1, x0, x1);
            proof {
                lemma_fundamental_div_mod_converse(x * ch + c, ch as int, x as int, c as int);
            }
            out.push(v);
            c = c + 1;
        }
        proof {
            assert(x * ch + ch == (x + 1) * ch) by (nonlinear_arith);
        }
        x = x + 1;
    }
    proof {
        assert(out@ =~= resample_row_spec(
            s@,
            w as int,
            h as int,
            ch as int,
            tw as int,
            th as int,
            y as int,
        ));
    }
    out
}

/// Area-averages `s` (a `w` x `h` source with `ch` channels) to `tw` x `th`,
/// output rows in parallel.
fn resample(s: &Vec<i32>, w: usize, h: usize, ch: usize, tw: usize, th: usize) -> (out: Vec<i32>)
    requires
        s@.len() == h * w * ch,
        0 < tw <= w,
        0 < th <= h,
        h * w <= isize::MAX,
    ensures
        out@ == resample_spec(s@, w as nat, h as nat, ch as nat, tw as nat, th as nat),
{
    let row_of = (move |y: usize| -> (row: Vec<i32>)
        requires
            th > y,
        ensures
            is_resample_row(row@, s@, w, h, ch, tw, th, y),
        { resample_row(s, w, h, ch, tw, th, y) });
    let rows = par_map_range(th, row_of);
    let ghost spec_out = resample_spec(s@, w as nat, h as nat, ch as nat, tw as nat, th as nat);
    let mut out: Vec<i32> = Vec::new();
    let mut y: usize = 0;
    assert(0 * (tw * ch) == 0) by (nonlinear_arith);
    while y < th
        invariant
            rows@.len() == th,
            forall|k: int|
                0 <= k < th ==> is_resample_row((#[trigger] rows@[k])@, s@, w, h, ch, tw, th, k as usize),
            0 < tw <= w,
            spec_out == resample_spec(s@, w as nat, h as nat, ch as nat, tw as nat, th as nat),
            y <= th,
            out@.len() == y * (tw * ch),
            forall|i: int|
                0 <= i < out@.len() ==> out@[i] == resample_cell(
                    s@,
                    w as int,
                    h as int,
                    ch as int,
                    tw as int,
                    th as int,
                    i,
                ),
        decreases th - y,
    {
        let row = &rows[y];
        let mut j: usize = 0;
        while j < row.len()
            invariant
                is_resample_row(row@, s@, w, h, ch, tw, th, y),
                0 < tw <= w,
                y < th,
                j <= row@.len(),
                out@.len() == y * (tw * ch) + j,
                forall|i: int|
                    0 <= i < out@.len() ==> out@[i] == resample_cell(
                        s@,
                        w as int,
                        h as int,
                        ch as int,
                        tw as int,
                        th as int,
                        i,
                    ),
            decreases row@.len() - j,
        {
            proof {
                assert(ch > 0) by (nonlinear_arith)
                    requires
                        j < tw * ch,
                        0 <= j,
                        tw > 0,
                ;
                lemma_row_element(y as int, j as int, tw as int, ch as int);
            }
            out.push(row[j]);
            j = j + 1;
        }
        proof {
            assert(y * (tw * ch) + tw * ch == (y + 1) * (tw * ch)) by (nonlinear_arith);
        }
        y = y + 1;
    }
    proof {
        assert(th * (tw * ch) == th * tw * ch) by (nonlinear_arith);
        assert(out@ =~= spec_out);
    }
    out
}

/// Downsamples a mono plane into a `max_width` x `max_height` box.
pub fn downsample(data: &Grid2, max_width: usize, max_height: usize) -> (r: Result<
    Grid2,
    ImageError,
>)
    ensures
        r is Err <==> !target_ok(data.cols() as int, data.rows() as int, max_width as int, max_height as int),
        r matches Err(e) ==> e == ImageError::Downsample,
        r matches Ok(g) ==> {
            let (tw, th) = target_dims(
                data.cols() as int,
                data.rows() as int,
                max_width as int,
                max_height as int,
            );
            &&& g.cols() == tw
            &&& g.rows() == th
            &&& grid2_cells(g) == resample_spec(
                grid2_cells(*data),
                data.cols(),
                data.rows(),
                1,
                tw as nat,
                th as nat,
            )
        },
{
    let (h, w) = data.dim();
    proof {
        lemma_shape_fits2(h as nat, w as nat);
        if h > 0 && w > 0 {
            assert(h * w == w * h) by (nonlinear_arith);
        }
    }
    let (tw, th) = match target_size(w, h, max_width, max_height) {
        Some(d) => d,
        None => {
            return Err(ImageError::Downsample);
        },
    };
    let s = data.to_vec();
    let out = resample(&s, w, h, 1, tw, th);
    proof {
        lemma_mul_le(th as int, tw as int, h as int, w as int);
        lemma_shape_fits2(th as nat, tw as nat);
    }
    match Grid2::from_shape_vec(th, tw, out) {
        Some(g) => Ok(g),
        None => Err(ImageError::Downsample),
    }
}

/// Downsamples an interleaved block (rows x cols x channels) into a
/// `max_width` x `max_height` box, each channel with the same box mapping.
pub fn downsample_rgb(data: &Grid3, max_width: usize, max_height: usize) -> (r: Result<
    Grid3,
    ImageError,
>)
    ensures
        r is Err <==> !target_ok(data.cols() as int, data.rows() as int, max_width as int, max_height as int),
        r matches Err(e) ==> e == ImageError::Downsample,
        r matches Ok(g) ==> {
            let (tw, th) = target_dims(
                data.cols() as int,
                data.rows() as int,
                max_width as int,
                max_height as int,
            );
            &&& g.cols() == tw
            &&& g.rows() == th
            &&& g.depth() == data.depth()
            &&& grid3_cells(g) == resample_spec(
                grid3_cells(*data),
                data.cols(),
                data.rows(),
                data.depth(),
                tw as nat,
                th as nat,
            )
        },
{
    let (h, w, d) = data.dim();
    proof {
        lemma_shape_fits3(h as nat, w as nat, d as nat);
        if h > 0 && w > 0 {
            assert(h * w == w * h) by (nonlinear_arith);
            assert(h * w <= h * w * (if d == 0 { 1 } else { d as int })) by (nonlinear_arith)
                requires
                    h > 0,
                    w > 0,
            ;
        }
    }
    let (tw, th) = match target_size(w, h, max_width, max_height) {
        Some(t) => t,
        None => {
            return Err(ImageError::Downsample);
        },
    };
    let s = data.to_vec();
    let out = resample(&s, w, h, d, tw, th);
    proof {
        lemma_shape_fits3(th as nat, tw as nat, d as nat);
        lemma_mul_le(th as int, tw as int, h as int, w as int);
        let dd: int = if d == 0 {
            1
        } else {
            d as int
        };
        lemma_mul_le(th * tw, dd, h * w, dd);
    }
    match Grid3::from_shape_vec(th, tw, d, out) {
        Some(g) => Ok(g),
        None => Err(ImageError::Downsample),
    }
}

} // verus!
