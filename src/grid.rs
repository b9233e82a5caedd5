//! Row-major integer arrays held in `ndarray` storage.
//!
//! `Grid2` is a height x width plane, `Grid3` a rows x cols x depth block
//! (depth 3 for interleaved colour). Their contents and shape are known to
//! proofs through the names `grid2_cells`/`grid2_dims` and
//! `grid3_cells`/`grid3_dims`, which the wrappers below speak of.
use vstd::arithmetic::div_mod::{lemma_fundamental_div_mod, lemma_fundamental_div_mod_converse};
use vstd::prelude::*;

verus! {

/// A two-dimensional array of samples.
#[verifier::external_body]
pub struct Grid2 {
    arr: ndarray::Array2<i32>,
}

/// A three-dimensional array of samples.
#[verifier::external_body]
pub struct Grid3 {
    arr: ndarray::Array3<i32>,
}

/// The elements of a `Grid2` in logical row-major order.
pub uninterp spec fn grid2_cells(g: Grid2) -> Seq<i32>;

/// The axis lengths (rows, cols) of a `Grid2`.
pub uninterp spec fn grid2_dims(g: Grid2) -> (nat, nat);

/// The elements of a `Grid3` in logical row-major order.
pub uninterp spec fn grid3_cells(g: Grid3) -> Seq<i32>;

/// The axis lengths (rows, cols, depth) of a `Grid3`.
pub uninterp spec fn grid3_dims(g: Grid3) -> (nat, nat, nat);

/// Product of the axis lengths that are not zero (ndarray's size bound).
pub open spec fn nonzero_product(dims: Seq<nat>) -> nat
    decreases dims.len(),
{
    if dims.len() == 0 {
        1
    } else {
        let d = dims.last();
        nonzero_product(dims.drop_last()) * (if d == 0 {
            1
        } else {
            d
        })
    }
}

/// ndarray accepts a shape only when the product of its non-zero axis
/// lengths is at most `isize::MAX`.
pub open spec fn shape_fits(dims: Seq<nat>) -> bool {
    nonzero_product(dims) <= isize::MAX
}

/// The non-zero product of two axes, written out.
pub proof fn lemma_shape_fits2(a: nat, b: nat)
    ensures
        nonzero_product(seq![a, b]) == (if a == 0 {
            1
        } else {
            a
        }) * (if b == 0 {
            1
        } else {
            b
        }),
{
    let s = seq![a, b];
    assert(s.drop_last() =~= seq![a]);
    assert(seq![a].drop_last() =~= Seq::<nat>::empty());
    reveal_with_fuel(nonzero_product, 3);
}

/// The non-zero product of three axes, written out.
pub proof fn lemma_shape_fits3(a: nat, b: nat, c: nat)
    ensures
        shape_fits(seq![a, b, c]) <==> nonzero_product(seq![a, b]) * (if c == 0 {
            1
        } else {
            c
        }) <= isize::MAX,
        nonzero_product(seq![a, b]) == (if a == 0 {
            1
        } else {
            a
        }) * (if b == 0 {
            1
        } else {
            b
        }),
{
    let s = seq![a, b, c];
    assert(s.drop_last() =~= seq![a, b]);
    assert(seq![a, b].drop_last() =~= seq![a]);
    assert(seq![a].drop_last() =~= Seq::<nat>::empty());
    reveal_with_fuel(nonzero_product, 4);
}

/// Row-major position `(a * t + b) * ch + c` decodes back to `(a, b, c)`.
pub proof fn lemma_row_major_decode(a: int, b: int, c: int, t: int, ch: int)
    requires
        0 <= b < t,
        0 <= c < ch,
        0 <= a,
    ensures
        ((a * t + b) * ch + c) / ch == a * t + b,
        ((a * t + b) * ch + c) % ch == c,
        (a * t + b) / t == a,
        (a * t + b) % t == b,
{
    lemma_fundamental_div_mod_converse(a * t + b, t, a, b);
    lemma_fundamental_div_mod_converse((a * t + b) * ch + c, ch, a * t + b, c);
}

/// Element `j` of row `a` in rows of `t * ch` elements is
/// `(a * t + j / ch) * ch + j % ch` overall, and decodes back.
pub proof fn lemma_row_element(a: int, j: int, t: int, ch: int)
    requires
        0 <= a,
        0 <= j < t * ch,
        0 < ch,
    ensures
        0 <= j / ch < t,
        0 <= j % ch < ch,
        a * (t * ch) + j == (a * t + j / ch) * ch + j % ch,
        (a * (t * ch) + j) / ch == a * t + j / ch,
        (a * (t * ch) + j) % ch == j % ch,
        (a * t + j / ch) / t == a,
        (a * t + j / ch) % t == j / ch,
{
    lemma_fundamental_div_mod(j, ch);
    let x = j / ch;
    let c = j % ch;
    assert(0 <= x < t) by (nonlinear_arith)
        requires
            j == ch * x + c,
            0 <= c < ch,
            0 <= j < t * ch,
    ;
    assert(a * (t * ch) + j == (a * t + x) * ch + c) by (nonlinear_arith)
        requires
            j == ch * x + c,
    ;
    lemma_row_major_decode(a, x, c, t, ch);
}

/// Relies on ndarray's `Array2::from_shape_vec`: with the default (C) layout
/// it succeeds exactly when the length equals rows * cols and the shape's
/// non-zero product fits in `isize`, and keeps the vector's order.
#[verifier::external_body]
fn array2_from_vec(rows: usize, cols: usize, v: Vec<i32>) -> (r: Option<Grid2>)
    ensures
        r is Some <==> (v@.len() == rows * cols && shape_fits(seq![rows as nat, cols as nat])),
        r matches Some(g) ==> grid2_cells(g) == v@ && grid2_dims(g) == (rows as nat, cols as nat),
{
    ndarray::Array2::from_shape_vec((rows, cols), v).ok().map(|arr| Grid2 { arr })
}

/// Relies on ndarray's `Array3::from_shape_vec` (as for `array2_from_vec`).
#[verifier::external_body]
fn array3_from_vec(rows: usize, cols: usize, depth: usize, v: Vec<i32>) -> (r: Option<Grid3>)
    ensures
        r is Some <==> (v@.len() == rows * cols * depth && shape_fits(
            seq![rows as nat, cols as nat, depth as nat],
        )),
        r matches Some(g) ==> grid3_cells(g) == v@ && grid3_dims(g) == (
            rows as nat,
            cols as nat,
            depth as nat,
        ),
{
    ndarray::Array3::from_shape_vec((rows, cols, depth), v).ok().map(|arr| Grid3 { arr })
}

/// Relies on ndarray's `dim`: the axis lengths. ndarray keeps the product of
/// the non-zero axis lengths of every array within `isize::MAX` (a safety
/// invariant documented on `ArrayBase`).
#[verifier::external_body]
fn array2_dim(g: &Grid2) -> (r: (usize, usize))
    ensures
        (r.0 as nat, r.1 as nat) == grid2_dims(*g),
        shape_fits(seq![r.0 as nat, r.1 as nat]),
{
    g.arr.dim()
}

/// Relies on ndarray's `dim` (as for `array2_dim`).
#[verifier::external_body]
fn array3_dim(g: &Grid3) -> (r: (usize, usize, usize))
    ensures
        (r.0 as nat, r.1 as nat, r.2 as nat) == grid3_dims(*g),
        shape_fits(seq![r.0 as nat, r.1 as nat, r.2 as nat]),
{
    g.arr.dim()
}

/// Relies on ndarray's `iter`: it visits every element once, in logical
/// row-major order.
#[verifier::external_body]
fn array2_to_vec(g: &Grid2) -> (r: Vec<i32>)
    ensures
        r@ == grid2_cells(*g),
        r@.len() == grid2_dims(*g).0 * grid2_dims(*g).1,
{
    g.arr.iter().copied().collect()
}

/// Relies on ndarray's `iter` (as for `array2_to_vec`).
#[verifier::external_body]
fn array3_to_vec(g: &Grid3) -> (r: Vec<i32>)
    ensures
        r@ == grid3_cells(*g),
        r@.len() == grid3_dims(*g).0 * grid3_dims(*g).1 * grid3_dims(*g).2,
{
    g.arr.iter().copied().collect()
}

impl Grid2 {
    pub open spec fn rows(self) -> nat {
        grid2_dims(self).0
    }

    pub open spec fn cols(self) -> nat {
        grid2_dims(self).1
    }

    /// Builds a rows x cols plane from samples in row-major order; `None`
    /// when the length does not match the shape or the shape is too large.
    pub fn from_shape_vec(rows: usize, cols: usize, v: Vec<i32>) -> (r: Option<Grid2>)
        ensures
            r is Some <==> (v@.len() == rows * cols && shape_fits(
                seq![rows as nat, cols as nat],
            )),
            r matches Some(g) ==> grid2_cells(g) == v@ && g.rows() == rows && g.cols() == cols,
    {
        array2_from_vec(rows, cols, v)
    }

    /// (rows, cols)
    pub fn dim(&self) -> (r: (usize, usize))
        ensures
            r.0 == self.rows(),
            r.1 == self.cols(),
            shape_fits(seq![r.0 as nat, r.1 as nat]),
    {
        array2_dim(self)
    }

    /// The samples in row-major order.
    pub fn to_vec(&self) -> (r: Vec<i32>)
        ensures
            r@ == grid2_cells(*self),
            r@.len() == self.rows() * self.cols(),
    {
        array2_to_vec(self)
    }
}

impl Grid3 {
    pub open spec fn rows(self) -> nat {
        grid3_dims(self).0
    }

    pub open spec fn cols(self) -> nat {
        grid3_dims(self).1
    }

    pub open spec fn depth(self) -> nat {
        grid3_dims(self).2
    }

    /// Builds a rows x cols x depth block from samples in row-major order;
    /// `None` when the length does not match the shape or the shape is too
    /// large.
    pub fn from_shape_vec(rows: usize, cols: usize, depth: usize, v: Vec<i32>) -> (r: Option<
        Grid3,
    >)
        ensures
            r is Some <==> (v@.len() == rows * cols * depth && shape_fits(
                seq![rows as nat, cols as nat, depth as nat],
            )),
            r matches Some(g) ==> grid3_cells(g) == v@ && g.rows() == rows && g.cols() == cols
                && g.depth() == depth,
    {
        array3_from_vec(rows, cols, depth, v)
    }

    /// (rows, cols, depth)
    pub fn dim(&self) -> (r: (usize, usize, usize))
        ensures
            r.0 == self.rows(),
            r.1 == self.cols(),
            r.2 == self.depth(),
            shape_fits(seq![r.0 as nat, r.1 as nat, r.2 as nat]),
    {
        array3_dim(self)
    }

    /// The samples in row-major order.
    pub fn to_vec(&self) -> (r: Vec<i32>)
        ensures
            r@ == grid3_cells(*self),
            r@.len() == self.rows() * self.cols() * self.depth(),
    {
        array3_to_vec(self)
    }
}

} // verus!
