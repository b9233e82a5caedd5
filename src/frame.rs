//! A sensor frame as it moves through the pipeline, and its packaging for
//! transport.
use vstd::prelude::*;

use crate::debayer::{debayer_image, demosaic_spec};
use crate::downsample::{downsample, downsample_rgb, resample_spec, target_dims, target_ok};
use crate::error::ImageError;
use crate::grid::{Grid2, Grid3, grid2_cells, grid3_cells, shape_fits};
use crate::parallel::join;
use crate::pattern::{BayerPattern, pattern_named};
use crate::stats::{Stat, calc_channel_stats};

verus! {

/// The signed 16-bit value of a big-endian byte pair.
pub open spec fn be_i16(hi: u8, lo: u8) -> int {
    let u = hi as int * 256 + lo as int;
    if u >= 0x8000 {
        u - 0x1_0000
    } else {
        u
    }
}

/// A raw sample with offset and scale applied in wide arithmetic, then
/// narrowed to 32 bits as Rust's `as i32` does (two's-complement truncation).
pub open spec fn scaled_sample(raw: int, bzero: int, bscale: int) -> i32 {
    ((raw + bzero) * bscale) as i32
}

/// Samples decoded from big-endian 16-bit pairs.
pub open spec fn decode_be_samples(b: Seq<u8>, bzero: int, bscale: int) -> Seq<i32> {
    Seq::new(b.len() / 2, |i: int| scaled_sample(be_i16(b[2 * i], b[2 * i + 1]), bzero, bscale))
}

/// Samples taken from 16-bit values.
pub open spec fn scale_samples(v: Seq<i16>, bzero: int, bscale: int) -> Seq<i32> {
    Seq::new(v.len(), |i: int| scaled_sample(v[i] as int, bzero, bscale))
}

/// A value clamped into the 16-bit transport range.
pub open spec fn clamp_u16(v: int) -> u16 {
    if v < 0 {
        0
    } else if v > 0xffff {
        0xffff
    } else {
        v as u16
    }
}

/// Every sample clamped, in order.
pub open spec fn clamp_all(s: Seq<i32>) -> Seq<u16> {
    Seq::new(s.len(), |i: int| clamp_u16(s[i] as int))
}

/// Every sample clamped and repeated as an (R, G, B) triple.
pub open spec fn gray_triples(s: Seq<i32>) -> Seq<u16> {
    Seq::new(s.len() * 3, |i: int| clamp_u16(s[i / 3] as int))
}

/// Channel `c` of an interleaved three-channel sequence.
pub open spec fn channel_of(s: Seq<i32>, c: int) -> Seq<i32> {
    Seq::new(s.len() / 3, |i: int| s[3 * i + c])
}

/// A frame from the sensor: the sample plane, its colour filter layout, the
/// demosaiced block once computed, and the bounding box of the last
/// downsampling.
pub struct RawImage {
    pub bayer_pattern: BayerPattern,
    pub raw_image: Grid2,
    pub debayered_image: Option<Grid3>,
    pub downsampled: bool,
    pub downsampled_width: usize,
    pub downsampled_height: usize,
}

/// The raw transport form: three interleaved 16-bit samples per pixel
/// (a mono frame repeats its gray value) and one `Stat` per channel.
pub struct RawRGBImage {
    pub width: u32,
    pub height: u32,
    pub pixels: Vec<u16>,
    pub stats: Vec<Stat>,
}

/// Stage notifications of one frame request, in the order they are sent.
pub enum ImageProgress {
    Fetching,
    Downsampling,
    Debayering,
    Rendering { width: u32, height: u32, stats: Vec<Stat> },
    Error(String),
}

/// `r` is the transport packaging of the samples `s` of a `rows` x `cols`
/// frame, in colour (three interleaved channels) or in gray.
pub open spec fn packaged_from(r: RawRGBImage, s: Seq<i32>, rows: nat, cols: nat, color: bool) -> bool {
    &&& r.width == cols
    &&& r.height == rows
    &&& r.pixels@.len() == rows * cols * 3
    &&& if color {
        &&& r.pixels@ == clamp_all(s)
        &&& r.stats@.len() == 3
        &&& forall|c: int| 0 <= c < 3 ==> (#[trigger] r.stats@[c]).describes(channel_of(s, c))
    } else {
        &&& r.pixels@ == gray_triples(s)
        &&& r.stats@.len() == 1
        &&& r.stats@[0].describes(s)
    }
}

/// Why packaging the samples `s` of a `rows` x `cols` x `depth` frame
/// fails, if it does: a colour block without three channels, then an empty
/// frame, then a side that does not fit 32 bits.
pub open spec fn packaging_error(rows: nat, cols: nat, depth: nat, color: bool) -> Option<ImageError> {
    if color && depth != 3 {
        Some(ImageError::Packaging)
    } else if rows * cols == 0 {
        Some(ImageError::Statistics)
    } else if rows > u32::MAX || cols > u32::MAX {
        Some(ImageError::Packaging)
    } else {
        None
    }
}

/// `r` is what `calc_channel_stats` returns for the samples `s`.
pub open spec fn stats_result(r: Result<Stat, ImageError>, s: Seq<i32>) -> bool {
    &&& (s.len() == 0 <==> r is Err)
    &&& (r matches Err(e) ==> e == ImageError::Statistics)
    &&& (r matches Ok(st) ==> st.describes(s))
}

/// Decodes one big-endian pair.
fn be_pair(hi: u8, lo: u8) -> (r: i32)
    ensures
        r == be_i16(hi, lo),
{
    let u: i32 = hi as i32 * 256 + lo as i32;
    if u >= 0x8000 {
        u - 0x1_0000
    } else {
        u
    }
}

fn scale(raw: i32, bzero: i64, bscale: i64) -> (r: i32)
    requires
        -0x8000 <= raw < 0x8000,
    ensures
        r == scaled_sample(raw as int, bzero as int, bscale as int),
{
    let shifted: i128 = raw as i128 + bzero as i128;
    proof {
        let a = shifted as int;
        let b = bscale as int;
        assert(-0x8000_0000_0000_0000_0000_0000_0000_0000 < a * b < 0x7fff_ffff_ffff_ffff_ffff_ffff_ffff_ffff)
            by (nonlinear_arith)
            requires
                -0x1_0000_0000_0000_0000 < a < 0x1_0000_0000_0000_0000,
                -0x8000_0000_0000_0000 <= b < 0x8000_0000_0000_0000,
        ;
    }
    let wide: i128 = shifted * bscale as i128;
    #[verifier::truncate]
    (wide as i32)
}

fn clamp16(v: i32) -> (r: u16)
    ensures
        r == clamp_u16(v as int),
{
    if v < 0 {
        0
    } else if v > 0xffff {
        0xffff
    } else {
        v as u16
    }
}

impl RawImage {
    /// The pattern is a colour one and the demosaiced block is present.
    pub open spec fn is_color(self) -> bool {
        self.bayer_pattern != BayerPattern::NONE && self.debayered_image is Some
    }

    /// The samples the frame presents in its current stage.
    pub open spec fn stage_cells(self) -> Seq<i32> {
        match self.debayered_image {
            Some(g) if self.bayer_pattern != BayerPattern::NONE => grid3_cells(g),
            _ => grid2_cells(self.raw_image),
        }
    }

    /// (rows, cols, channels) of the current stage.
    pub open spec fn stage_dims(self) -> (nat, nat, nat) {
        match self.debayered_image {
            Some(g) if self.bayer_pattern != BayerPattern::NONE => (g.rows(), g.cols(), g.depth()),
            _ => (self.raw_image.rows(), self.raw_image.cols(), 1),
        }
    }

    /// A frame of `height` rows and `width` columns from big-endian signed
    /// 16-bit samples, each becoming `(sample + bzero) * bscale`. Fails when
    /// the buffer is not exactly `width * height * 2` bytes or the shape is
    /// too large for an array.
    pub fn from_bytes_i16(
        raw_image: Vec<u8>,
        width: usize,
        height: usize,
        bayer_pattern: BayerPattern,
        bzero: i64,
        bscale: i64,
    ) -> (r: Result<RawImage, ImageError>)
        ensures
            r is Err <==> !(raw_image@.len() == width * height * 2 && shape_fits(
                seq![height as nat, width as nat],
            )),
            r matches Err(e) ==> e == ImageError::Ingestion,
            r matches Ok(img) ==> {
                &&& img.raw_image.rows() == height
                &&& img.raw_image.cols() == width
                &&& grid2_cells(img.raw_image) == decode_be_samples(
                    raw_image@,
                    bzero as int,
                    bscale as int,
                )
                &&& img.bayer_pattern == bayer_pattern
                &&& img.debayered_image is None
                &&& !img.downsampled
                &&& img.downsampled_width == 0
                &&& img.downsampled_height == 0
            },
    {
        let len = raw_image.len();
        if len % 2 != 0 {
            return Err(ImageError::Ingestion);
        }
        let n = len / 2;
        let mut samples: Vec<i32> = Vec::with_capacity(n);
        let mut i: usize = 0;
        while i < n
            invariant
                n == raw_image@.len() / 2,
                len == raw_image@.len(),
                len % 2 == 0,
                i <= n,
                samples@.len() == i,
                forall|j: int|
                    0 <= j < i ==> samples@[j] == scaled_sample(
                        be_i16(raw_image@[2 * j], raw_image@[2 * j + 1]),
                        bzero as int,
                        bscale as int,
                    ),
            decreases n - i,
        {
            let raw = be_pair(raw_image[2 * i], raw_image[2 * i + 1]);
            samples.push(scale(raw, bzero, bscale));
            i = i + 1;
        }
        proof {
            assert(samples@ =~= decode_be_samples(raw_image@, bzero as int, bscale as int));
        }
        match Grid2::from_shape_vec(height, width, samples) {
            Some(g) => Ok(
                RawImage {
                    bayer_pattern,
                    raw_image: g,
                    debayered_image: None,
                    downsampled: false,
                    downsampled_width: 0,
                    downsampled_height: 0,
                },
            ),
            None => Err(ImageError::Ingestion),
        }
    }

    /// A frame from the fields of an image file header: `NAXIS1` (width),
    /// `NAXIS2` (height), optional `BZERO` (default 0) and `BSCALE`
    /// (default 1), and an optional `BAYERPAT` matched without regard to
    /// case. Fails when a dimension is missing or too large, or the sample
    /// count does not match.
    pub fn from_header_fields(
        samples: Vec<i16>,
        naxis1: Option<u64>,
        naxis2: Option<u64>,
        bzero: Option<i64>,
        bscale: Option<i64>,
        bayer_pattern: Option<&str>,
    ) -> (r: Result<RawImage, ImageError>)
        ensures
            r is Err <==> !(naxis1 matches Some(w) && naxis2 matches Some(h) && w <= usize::MAX
                && h <= usize::MAX && samples@.len() == w * h && shape_fits(
                seq![h as nat, w as nat],
            )),
            r matches Err(e) ==> e == ImageError::Ingestion,
            r matches Ok(img) ==> {
                let z: int = match bzero {
                    Some(v) => v as int,
                    None => 0,
                };
                let sc: int = match bscale {
                    Some(v) => v as int,
                    None => 1,
                };
                &&& img.raw_image.cols() == naxis1->0
                &&& img.raw_image.rows() == naxis2->0
                &&& grid2_cells(img.raw_image) == scale_samples(samples@, z, sc)
                &&& img.bayer_pattern == match bayer_pattern {
                    Some(s) => pattern_named(s@),
                    None => BayerPattern::NONE,
                }
                &&& img.debayered_image is None
                &&& !img.downsampled
                &&& img.downsampled_width == 0
                &&& img.downsampled_height == 0
            },
    {
        let (w, h) = match (naxis1, naxis2) {
            (Some(w), Some(h)) => (w, h),
            _ => {
                return Err(ImageError::Ingestion);
            },
        };
        if w > usize::MAX as u64 || h > usize::MAX as u64 {
            return Err(ImageError::Ingestion);
        }
        let width = w as usize;
        let height = h as usize;
        let z: i64 = match bzero {
            Some(v) => v,
            None => 0,
        };
        let sc: i64 = match bscale {
            Some(v) => v,
            None => 1,
        };
        let n = samples.len();
        let mut cells: Vec<i32> = Vec::with_capacity(n);
        let mut i: usize = 0;
        while i < n
            invariant
                n == samples@.len(),
                i <= n,
                cells@.len() == i,
                forall|j: int|
                    0 <= j < i ==> cells@[j] == scaled_sample(samples@[j] as int, z as int, sc as int),
            decreases n - i,
        {
            cells.push(scale(samples[i] as i32, z, sc));
            i = i + 1;
        }
        proof {
            assert(cells@ =~= scale_samples(samples@, z as int, sc as int));
        }
        let pattern = match bayer_pattern {
            Some(s) => BayerPattern::from_name(s),
            None => BayerPattern::NONE,
        };
        match Grid2::from_shape_vec(height, width, cells) {
            Some(g) => Ok(
                RawImage {
                    bayer_pattern: pattern,
                    raw_image: g,
                    debayered_image: None,
                    downsampled: false,
                    downsampled_width: 0,
                    downsampled_height: 0,
                },
            ),
            None => Err(ImageError::Ingestion),
        }
    }

    /// Demosaics the frame once. A mono frame, or one already demosaiced, is
    /// left as it is; this is not an error.
    pub fn debayer(&mut self) -> (r: Result<(), ImageError>)
        ensures
            r is Err <==> (old(self).bayer_pattern != BayerPattern::NONE
                && old(self).debayered_image is None && !shape_fits(
                seq![old(self).raw_image.rows() / 2, old(self).raw_image.cols() / 2, 3nat],
            )),
            r matches Err(e) ==> e == ImageError::Demosaic,
            r is Err || old(self).bayer_pattern == BayerPattern::NONE
                || old(self).debayered_image is Some ==> *final(self) == *old(self),
            r is Ok && old(self).bayer_pattern != BayerPattern::NONE
                && old(self).debayered_image is None ==> {
                &&& final(self).raw_image == old(self).raw_image
                &&& final(self).bayer_pattern == old(self).bayer_pattern
                &&& final(self).downsampled == old(self).downsampled
                &&& final(self).downsampled_width == old(self).downsampled_width
                &&& final(self).downsampled_height == old(self).downsampled_height
                &&& final(self).debayered_image matches Some(g) && g.rows()
                    == old(self).raw_image.rows() / 2 && g.cols() == old(self).raw_image.cols() / 2
                    && g.depth() == 3 && grid3_cells(g) == demosaic_spec(
                    grid2_cells(old(self).raw_image),
                    old(self).raw_image.rows(),
                    old(self).raw_image.cols(),
                    old(self).bayer_pattern,
                )
            },
    {
        if !self.bayer_pattern.is_mosaic() {
            return Ok(());
        }
        if self.debayered_image.is_some() {
            return Ok(());
        }
        let debayered = debayer_image(&self.raw_image, self.bayer_pattern)?;
        self.debayered_image = Some(debayered);
        Ok(())
    }

    /// Downsamples the current stage (the demosaiced block if present, else
    /// the sample plane) into a `target_width` x `target_height` box. A
    /// repeat request for the box already applied does nothing.
    pub fn downsample(&mut self, target_width: usize, target_height: usize) -> (r: Result<
        (),
        ImageError,
    >)
        ensures
            ({
                let repeat = old(self).downsampled && old(self).downsampled_width == target_width
                    && old(self).downsampled_height == target_height;
                let (w, h) = match old(self).debayered_image {
                    Some(g) => (g.cols() as int, g.rows() as int),
                    None => (old(self).raw_image.cols() as int, old(self).raw_image.rows() as int),
                };
                &&& r is Err <==> !repeat && !target_ok(w, h, target_width as int, target_height as int)
                &&& r matches Err(e) ==> e == ImageError::Downsample
                &&& (repeat || r is Err) ==> *final(self) == *old(self)
                &&& (!repeat && r is Ok) ==> {
                    let (tw, th) = target_dims(w, h, target_width as int, target_height as int);
                    &&& final(self).bayer_pattern == old(self).bayer_pattern
                    &&& final(self).downsampled
                    &&& final(self).downsampled_width == target_width
                    &&& final(self).downsampled_height == target_height
                    &&& match old(self).debayered_image {
                        Some(g) => {
                            &&& final(self).raw_image == old(self).raw_image
                            &&& final(self).debayered_image matches Some(g2) && g2.cols() == tw
                                && g2.rows() == th && g2.depth() == g.depth() && grid3_cells(g2)
                                == resample_spec(
                                grid3_cells(g),
                                g.cols(),
                                g.rows(),
                                g.depth(),
                                tw as nat,
                                th as nat,
                            )
                        },
                        None => {
                            &&& final(self).debayered_image is None
                            &&& final(self).raw_image.cols() == tw
                            &&& final(self).raw_image.rows() == th
                            &&& grid2_cells(final(self).raw_image) == resample_spec(
                                grid2_cells(old(self).raw_image),
                                old(self).raw_image.cols(),
                                old(self).raw_image.rows(),
                                1,
                                tw as nat,
                                th as nat,
                            )
                        },
                    }
                }
            }),
    {
        if self.downsampled && self.downsampled_width == target_width && self.downsampled_height
            == target_height {
            return Ok(());
        }
        match &self.debayered_image {
            Some(g) => {
                let smaller = downsample_rgb(g, target_width, target_height)?;
                self.debayered_image = Some(smaller);
            },
            None => {
                let smaller = downsample(&self.raw_image, target_width, target_height)?;
                self.raw_image = smaller;
            },
        }
        self.downsampled = true;
        self.downsampled_width = target_width;
        self.downsampled_height = target_height;
        Ok(())
    }

    /// Statistics of the current stage: one per channel, R, G, B in order for
    /// a demosaiced frame, one for a mono frame.
    pub fn calculate_stats(&self) -> (r: Result<Vec<Stat>, ImageError>)
        ensures
            ({
                let s = self.stage_cells();
                let (rows, cols, depth) = self.stage_dims();
                let bad_depth = self.is_color() && depth != 3;
                &&& r is Err <==> bad_depth || rows * cols == 0
                &&& r matches Err(e) ==> e == if bad_depth {
                    ImageError::Packaging
                } else {
                    ImageError::Statistics
                }
                &&& r matches Ok(v) ==> if self.is_color() {
                    &&& v@.len() == 3
                    &&& forall|c: int| 0 <= c < 3 ==> (#[trigger] v@[c]).describes(channel_of(s, c))
                } else {
                    &&& v@.len() == 1
                    &&& v@[0].describes(s)
                }
            }),
    {
        if self.bayer_pattern.is_mosaic() {
            if let Some(g) = &self.debayered_image {
                let (rows, cols, depth) = g.dim();
                if depth != 3 {
                    return Err(ImageError::Packaging);
                }
                let s = g.to_vec();
                let (red, green, blue) = split_channels(&s);
                let (a, b, c) = stats_of_channels(&red, &green, &blue);
                let mut out: Vec<Stat> = Vec::new();
                out.push(a?);
                out.push(b?);
                out.push(c?);
                proof {
                    assert(s@.len() / 3 == rows * cols) by (nonlinear_arith)
                        requires
                            s@.len() == rows * cols * 3,
                    ;
                }
                return Ok(out);
            }
        }
        let s = self.raw_image.to_vec();
        let st = calc_channel_stats(s.as_slice())?;
        let mut out: Vec<Stat> = Vec::new();
        out.push(st);
        Ok(out)
    }

    /// Packages the current stage for transport: samples clamped to 16 bits,
    /// three per pixel, and the statistics of each channel.
    pub fn get_raw_image(&self) -> (r: Result<RawRGBImage, ImageError>)
        ensures
            ({
                let (rows, cols, depth) = self.stage_dims();
                &&& r is Err <==> packaging_error(rows, cols, depth, self.is_color()) is Some
                &&& r matches Err(e) ==> Some(e) == packaging_error(
                    rows,
                    cols,
                    depth,
                    self.is_color(),
                )
                &&& r matches Ok(img) ==> packaged_from(
                    img,
                    self.stage_cells(),
                    rows,
                    cols,
                    self.is_color(),
                )
            }),
    {
        let stats = self.calculate_stats()?;
        let color = self.bayer_pattern.is_mosaic() && self.debayered_image.is_some();
        let (rows, cols, s) = match &self.debayered_image {
            Some(g) if color => {
                let (rows, cols, _) = g.dim();
                (rows, cols, g.to_vec())
            },
            _ => {
                let (rows, cols) = self.raw_image.dim();
                (rows, cols, self.raw_image.to_vec())
            },
        };
        if rows > u32::MAX as usize || cols > u32::MAX as usize {
            return Err(ImageError::Packaging);
        }
        let pixels = if color {
            clamp_samples(&s)
        } else {
            gray_to_triples(&s)
        };
        proof {
            if !color {
                assert(s@.len() * 3 == rows * cols * 3) by (nonlinear_arith)
                    requires
                        s@.len() == rows * cols,
                ;
            }
        }
        Ok(RawRGBImage { width: cols as u32, height: rows as u32, pixels, stats })
    }
}

impl RawRGBImage {
    /// Checks the transport size invariant: three samples per pixel.
    pub fn check_size(&self) -> (r: Result<(), ImageError>)
        ensures
            r is Ok <==> self.pixels@.len() == self.width * self.height * 3,
            r matches Err(e) ==> e == ImageError::Packaging,
    {
        proof {
            assert(self.width * self.height * 3 <= 0xffff_ffff * 0xffff_ffff * 3) by (nonlinear_arith)
                requires
                    self.width <= 0xffff_ffff,
                    self.height <= 0xffff_ffff,
            ;
        }
        let expected: u128 = self.width as u128 * self.height as u128 * 3;
        if self.pixels.len() as u128 == expected {
            Ok(())
        } else {
            Err(ImageError::Packaging)
        }
    }
}

fn clamp_samples(s: &Vec<i32>) -> (r: Vec<u16>)
    ensures
        r@ == clamp_all(s@),
{
    let mut out: Vec<u16> = Vec::with_capacity(s.len());
    let mut i: usize = 0;
    while i < s.len()
        invariant
            i <= s@.len(),
            out@.len() == i,
            forall|j: int| 0 <= j < i ==> out@[j] == clamp_u16(s@[j] as int),
        decreases s@.len() - i,
    {
        out.push(clamp16(s[i]));
        i = i + 1;
    }
    proof {
        assert(out@ =~= clamp_all(s@));
    }
    out
}

fn gray_to_triples(s: &Vec<i32>) -> (r: Vec<u16>)
    ensures
        r@ == gray_triples(s@),
{
    let mut out: Vec<u16> = Vec::new();
    let mut i: usize = 0;
    while i < s.len()
        invariant
            i <= s@.len(),
            out@.len() == 3 * i,
            forall|j: int| 0 <= j < 3 * i ==> out@[j] == clamp_u16(s@[j / 3] as int),
        decreases s@.len() - i,
    {
        let v = clamp16(s[i]);
        out.push(v);
        out.push(v);
        out.push(v);
        i = i + 1;
    }
    proof {
        assert(out@ =~= gray_triples(s@));
    }
    out
}

/// The three channels of an interleaved RGB sequence.
fn split_channels(s: &Vec<i32>) -> (r: (Vec<i32>, Vec<i32>, Vec<i32>))
    ensures
        r.0@ == channel_of(s@, 0),
        r.1@ == channel_of(s@, 1),
        r.2@ == channel_of(s@, 2),
{
    let len = s.len();
    let n = len / 3;
    let mut red: Vec<i32> = Vec::with_capacity(n);
    let mut green: Vec<i32> = Vec::with_capacity(n);
    let mut blue: Vec<i32> = Vec::with_capacity(n);
    let mut i: usize = 0;
    while i < n
        invariant
            len == s@.len(),
            n == len / 3,
            i <= n,
            red@.len() == i,
            green@.len() == i,
            blue@.len() == i,
            forall|j: int| 0 <= j < i ==> red@[j] == s@[3 * j],
            forall|j: int| 0 <= j < i ==> green@[j] == s@[3 * j + 1],
            forall|j: int| 0 <= j < i ==> blue@[j] == s@[3 * j + 2],
        decreases n - i,
    {
        red.push(s[3 * i]);
        green.push(s[3 * i + 1]);
        blue.push(s[3 * i + 2]);
        i = i + 1;
    }
    proof {
        assert(red@ =~= channel_of(s@, 0));
        assert(green@ =~= channel_of(s@, 1));
        assert(blue@ =~= channel_of(s@, 2));
    }
    (red, green, blue)
}

/// Statistics of three channels, computed concurrently.
fn stats_of_channels(a: &Vec<i32>, b: &Vec<i32>, c: &Vec<i32>) -> (r: (
    Result<Stat, ImageError>,
    Result<Stat, ImageError>,
    Result<Stat, ImageError>,
))
    ensures
        stats_result(r.0, a@),
        stats_result(r.1, b@),
        stats_result(r.2, c@),
{
    let first = (move || -> (st: Result<Stat, ImageError>)
        ensures
            stats_result(st, a@),
        { calc_channel_stats(a.as_slice()) });
    let second = (move || -> (st: Result<Stat, ImageError>)
        ensures
            stats_result(st, b@),
        { calc_channel_stats(b.as_slice()) });
    let third = (move || -> (st: Result<Stat, ImageError>)
        ensures
            stats_result(st, c@),
        { calc_channel_stats(c.as_slice()) });
    let rest = (move || -> (pair: (Result<Stat, ImageError>, Result<Stat, ImageError>))
        ensures
            stats_result(pair.0, b@),
            stats_result(pair.1, c@),
        { join(second, third) });
    let (x, (y, z)) = join(first, rest);
    (x, y, z)
}

/// The computing part of a camera frame request: decode the frame (samples
/// offset by 32768), demosaic it when it has a pattern, and package it.
pub fn render_camera_frame(
    img: Vec<u8>,
    width: usize,
    height: usize,
    bayer_pattern: BayerPattern,
) -> (r: Result<RawRGBImage, ImageError>)
    ensures
        !(img@.len() == width * height * 2 && shape_fits(seq![height as nat, width as nat]))
            ==> r == Err::<RawRGBImage, ImageError>(ImageError::Ingestion),
        ({
            let s = decode_be_samples(img@, 0x8000, 1);
            let color = bayer_pattern != BayerPattern::NONE;
            let (rows, cols) = if color {
                (height as nat / 2, width as nat / 2)
            } else {
                (height as nat, width as nat)
            };
            img@.len() == width * height * 2 && shape_fits(seq![height as nat, width as nat]) ==> {
                &&& color && !shape_fits(seq![rows, cols, 3nat]) ==> r == Err::<
                    RawRGBImage,
                    ImageError,
                >(ImageError::Demosaic)
                &&& (!color || shape_fits(seq![rows, cols, 3nat])) ==> {
                    &&& r is Err <==> packaging_error(rows, cols, 3, color) is Some
                    &&& r matches Err(e) ==> Some(e) == packaging_error(rows, cols, 3, color)
                    &&& r matches Ok(out) ==> packaged_from(
                        out,
                        if color {
                            demosaic_spec(s, height as nat, width as nat, bayer_pattern)
                        } else {
                            s
                        },
                        rows,
                        cols,
                        color,
                    )
                }
            }
        }),
{
    let mut raw = RawImage::from_bytes_i16(img, width, height, bayer_pattern, 0x8000, 1)?;
    raw.debayer()?;
    raw.get_raw_image()
}

} // verus!
