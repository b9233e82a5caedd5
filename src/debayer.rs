//! Quarter-resolution demosaic: each 2x2 block of the mosaic becomes one
//! RGB pixel.
use vstd::arithmetic::div_mod::lemma_fundamental_div_mod_converse;
use vstd::prelude::*;

use crate::error::ImageError;
use crate::grid::{Grid2, Grid3, grid2_cells, grid3_cells, lemma_row_element, shape_fits};
use crate::parallel::par_map_range;
use crate::pattern::BayerPattern;

verus! {

/// (R, G, B) of one block from its top-left, top-right, bottom-left and
/// bottom-right samples. Green is the floor of the mean of the two green
/// sites; red and blue are copied.
pub open spec fn block_rgb(p: BayerPattern, tl: int, tr: int, bl: int, br: int) -> (int, int, int) {
    match p {
        BayerPattern::RGGB => (tl, (tr + bl) / 2, br),
        BayerPattern::BGGR => (br, (tr + bl) / 2, tl),
        BayerPattern::GRBG => (tr, (tl + br) / 2, bl),
        BayerPattern::GBRG => (bl, (tl + br) / 2, tr),
        BayerPattern::NONE => (0, 0, 0),
    }
}

/// Channel `c` of output pixel (`y`, `x`) for a mosaic `s` of width `w`.
pub open spec fn demosaic_at(s: Seq<i32>, w: int, p: BayerPattern, y: int, x: int, c: int) -> int {
    let top = 2 * y * w + 2 * x;
    let bottom = (2 * y + 1) * w + 2 * x;
    let rgb = block_rgb(p, s[top] as int, s[top + 1] as int, s[bottom] as int, s[bottom + 1] as int);
    if c == 0 {
        rgb.0
    } else if c == 1 {
        rgb.1
    } else {
        rgb.2
    }
}

/// Element `i` of the demosaiced block in row-major (y, x, channel) order.
pub open spec fn demosaic_cell(s: Seq<i32>, w: nat, p: BayerPattern, i: int) -> i32 {
    let w2 = (w / 2) as int;
    demosaic_at(s, w as int, p, (i / 3) / w2, (i / 3) % w2, i % 3) as i32
}

/// The (h/2) x (w/2) x 3 demosaic of an h x w mosaic `s` in row-major order;
/// a trailing odd row or column is dropped.
pub open spec fn demosaic_spec(s: Seq<i32>, h: nat, w: nat, p: BayerPattern) -> Seq<i32> {
    Seq::new((h / 2) * (w / 2) * 3, |i: int| demosaic_cell(s, w, p, i))
}

/// Floor of the mean of two samples, through a wide intermediate.
fn half_sum(a: i32, b: i32) -> (r: i32)
    ensures
        r == (a as int + b as int) / 2,
{
    let s: i64 = a as i64 + b as i64;
    let shifted: u64 = (s + 0x1_0000_0000) as u64;
    let r: i64 = (shifted / 2) as i64 - 0x8000_0000;
    r as i32
}

/// Block row `y` of the demosaic: `w / 2` pixels of three channels.
pub open spec fn demosaic_row_spec(s: Seq<i32>, w: nat, p: BayerPattern, y: int) -> Seq<i32> {
    Seq::new((w / 2) * 3, |j: int| demosaic_at(s, w as int, p, y, j / 3, j % 3) as i32)
}

/// `row` is block row `y` of the demosaic of `s` (width `w`).
pub open spec fn is_demosaic_row(row: Seq<i32>, s: Seq<i32>, w: usize, p: BayerPattern, y: usize) -> bool {
    row == demosaic_row_spec(s, w as nat, p, y as int)
}

/// Demosaics block row `y` of an `h` x `w` mosaic.
fn demosaic_row(s: &Vec<i32>, w: usize, h: usize, y: usize, pattern: BayerPattern) -> (r: Vec<i32>)
    requires
        s@.len() == h * w,
        2 * y + 2 <= h,
        pattern != BayerPattern::NONE,
    ensures
        r@ == demosaic_row_spec(s@, w as nat, pattern, y as int),
{
    let n = s.len();
    let w2 = w / 2;
    proof {
        assert(2 * y * w + w + w <= h * w) by (nonlinear_arith)
            requires
                2 * y + 2 <= h,
        ;
        assert(2 * y * w + w == (2 * y + 1) * w) by (nonlinear_arith);
    }
    let top: usize = 2 * y * w;
    let bottom: usize = top + w;
    let mut out: Vec<i32> = Vec::with_capacity(w2 * 3);
    let mut x: usize = 0;
    while x < w2
        invariant
            s@.len() == h * w,
            n == s@.len(),
            w2 == w / 2,
            pattern != BayerPattern::NONE,
            top == 2 * y * w,
            bottom == (2 * y + 1) * w,
            bottom == top + w,
            bottom + w <= h * w,
            x <= w2,
            out@.len() == x * 3,
            forall|j: int|
                0 <= j < out@.len() ==> out@[j] == demosaic_at(
                    s@,
                    w as int,
                    pattern,
                    y as int,
                    j / 3,
                    j % 3,
                ) as i32,
        decreases w2 - x,
    {
        let col = 2 * x;
        let tl = s[top + col];
        let tr = s[top + col + 1];
        let bl = s[bottom + col];
        let br = s[bottom + col + 1];
        let (r, g, b) = match pattern {
            BayerPattern::RGGB => (tl, half_sum(tr, bl), br),
            BayerPattern::BGGR => (br, half_sum(tr, bl), tl),
            BayerPattern::GRBG => (tr, half_sum(tl, br), bl),
            _ => (bl, half_sum(tl, br), tr),
        };
        proof {
            lemma_fundamental_div_mod_converse(3 * x, 3, x as int, 0);
            lemma_fundamental_div_mod_converse(3 * x + 1, 3, x as int, 1);
            lemma_fundamental_div_mod_converse(3 * x + 2, 3, x as int, 2);
        }
        out.push(r);
        out.push(g);
        out.push(b);
        x = x + 1;
    }
    proof {
        assert(out@ =~= demosaic_row_spec(s@, w as nat, pattern, y as int));
    }
    out
}

/// Demosaics a mosaic `data` with layout `pattern` at quarter resolution,
/// block rows in parallel. A frame without a pattern is refused, as is an
/// output shape that ndarray cannot hold.
pub fn debayer_image(data: &Grid2, pattern: BayerPattern) -> (r: Result<Grid3, ImageError>)
    ensures
        r is Err <==> (pattern == BayerPattern::NONE || !shape_fits(
            seq![data.rows() / 2, data.cols() / 2, 3nat],
        )),
        r matches Err(e) ==> e == ImageError::Demosaic,
        r matches Ok(g) ==> g.rows() == data.rows() / 2 && g.cols() == data.cols() / 2 && g.depth()
            == 3 && grid3_cells(g) == demosaic_spec(
            grid2_cells(*data),
            data.rows(),
            data.cols(),
            pattern,
        ),
{
    if !pattern.is_mosaic() {
        return Err(ImageError::Demosaic);
    }
    let (h, w) = data.dim();
    let s = data.to_vec();
    let h2 = h / 2;
    let w2 = w / 2;
    let src = &s;
    let row_of = (move |y: usize| -> (row: Vec<i32>)
        requires
            h2 > y,
        ensures
            is_demosaic_row(row@, src@, w, pattern, y),
        { demosaic_row(src, w, h, y, pattern) });
    let rows = par_map_range(h2, row_of);
    let ghost spec_out = demosaic_spec(s@, h as nat, w as nat, pattern);
    let mut out: Vec<i32> = Vec::new();
    let mut y: usize = 0;
    while y < h2
        invariant
            rows@.len() == h2,
            forall|k: int|
                0 <= k < h2 ==> (#[trigger] rows@[k])@ == demosaic_row_spec(
                    s@,
                    w as nat,
                    pattern,
                    k,
                ),
            h2 == h / 2,
            w2 == w / 2,
            spec_out == demosaic_spec(s@, h as nat, w as nat, pattern),
            y <= h2,
            out@.len() == y * (w2 * 3),
            forall|i: int| 0 <= i < out@.len() ==> out@[i] == demosaic_cell(s@, w as nat, pattern, i),
        decreases h2 - y,
    {
        let row = &rows[y];
        let mut j: usize = 0;
        while j < row.len()
            invariant
                row@ == demosaic_row_spec(s@, w as nat, pattern, y as int),
                w2 == w / 2,
                y < h2,
                j <= row@.len(),
                out@.len() == y * (w2 * 3) + j,
                forall|i: int|
                    0 <= i < out@.len() ==> out@[i] == demosaic_cell(s@, w as nat, pattern, i),
            decreases row@.len() - j,
        {
            proof {
                lemma_row_element(y as int, j as int, w2 as int, 3);
            }
            out.push(row[j]);
            j = j + 1;
        }
        proof {
            assert(y * (w2 * 3) + w2 * 3 == (y + 1) * (w2 * 3)) by (nonlinear_arith);
        }
        y = y + 1;
    }
    proof {
        assert(h2 * (w2 * 3) == h2 * w2 * 3) by (nonlinear_arith);
        assert(out@ =~= spec_out);
    }
    match Grid3::from_shape_vec(h2, w2, 3, out) {
        Some(g) => Ok(g),
        None => Err(ImageError::Demosaic),
    }
}

} // verus!
