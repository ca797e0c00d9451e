//! Color depth manipulation: the color value type, the loss metrics used
//! to score conversions, and the pixel buffer the conversions run on.
use vstd::prelude::*;

use crate::arith::{is_sqrt_floor, lemma_sqrt_floor_exists, lemma_sqrt_floor_unique, sqrt_floor,
    u64_sqrt};
use vstd::string::StrSliceExecFns;

pub mod cga;
pub mod depth;
pub mod ega;
pub mod median;
pub mod quant;

pub use crate::color::depth::{
    BackForePalette, BestPalette, ColorDepth, ColorMapper, FixedPalette, MappingColorDepth,
    TrueColor24Bit, TrueColor24BitMapper, Vga16Bit, Vga16BitMapper, Vga18Bit, Vga18BitMapper,
};
pub use crate::color::median::color_median;
pub use crate::color::quant::build_palette;

verus! {

/// An 8-bit-per-channel RGBA color. Alpha is normalized to opaque (255)
/// whenever a buffer is ingested; the crate does not model transparency.
#[derive(Debug, Clone, Copy, PartialEq, Eq, Structural, Hash)]
pub struct Color {
    pub r: u8,
    pub g: u8,
    pub b: u8,
    pub a: u8,
}

impl Color {
    /// A color from its four channel components.
    pub fn new(r: u8, g: u8, b: u8, a: u8) -> (c: Color)
        ensures
            c == (Color { r, g, b, a }),
    {
        Color { r, g, b, a }
    }

    /// An opaque color from its three RGB components.
    pub fn opaque(r: u8, g: u8, b: u8) -> (c: Color)
        ensures
            c == (Color { r, g, b, a: 255u8 }),
    {
        Color { r, g, b, a: 255 }
    }
}

/// Enumeration of supported color distance algorithms for loss
/// calculation.
///
/// The use of one algorithm or the other may slightly affect which
/// palette colors are chosen, especially in modes such as CGA.
#[derive(Debug, Copy, Clone, Eq, PartialEq, Structural)]
pub enum LossAlgorithm {
    /// L2, Euclidean distance
    L2,
    /// L1, Manhattan distance
    L1,
}

/// The error returned when a string names no loss algorithm.
#[derive(Debug, Copy, Clone, Eq, PartialEq, Structural)]
pub struct LossAlgorithmParseError;

impl LossAlgorithmParseError {
    /// A human-readable description of the error.
    pub fn message(self) -> (r: &'static str)
        ensures
            r@ == ("invalid distance/loss algorithm, should be \"L1\" or \"L2\"")@,
    {
        "invalid distance/loss algorithm, should be \"L1\" or \"L2\""
    }
}

impl Default for LossAlgorithm {
    /// The default loss algorithm is L2.
    fn default() -> (r: Self)
        ensures
            r == LossAlgorithm::L2,
    {
        LossAlgorithm::L2
    }
}

/// Which `LossAlgorithm` (if any) a sequence of characters names:
/// exactly "L1", "l1", "L2" and "l2" are accepted.
pub open spec fn loss_algorithm_of_chars(s: Seq<char>) -> Result<
    LossAlgorithm,
    LossAlgorithmParseError,
> {
    if s.len() == 2 && (s[0] == 'L' || s[0] == 'l') && s[1] == '1' {
        Ok(LossAlgorithm::L1)
    } else if s.len() == 2 && (s[0] == 'L' || s[0] == 'l') && s[1] == '2' {
        Ok(LossAlgorithm::L2)
    } else {
        Err(LossAlgorithmParseError)
    }
}

impl LossAlgorithm {
    /// The canonical name of the algorithm, "L1" or "L2".
    pub fn as_str(self) -> (r: &'static str)
        ensures
            self == LossAlgorithm::L1 ==> r@ == "L1"@,
            self == LossAlgorithm::L2 ==> r@ == "L2"@,
    {
        match self {
            LossAlgorithm::L1 => "L1",
            LossAlgorithm::L2 => "L2",
        }
    }

    /// Parse an algorithm name; "L1"/"l1" and "L2"/"l2" are accepted.
    pub fn from_str(s: &str) -> (r: Result<Self, LossAlgorithmParseError>)
        ensures
            r == loss_algorithm_of_chars(s@),
    {
        if s.unicode_len() == 2 {
            let c0 = s.get_char(0);
            let c1 = s.get_char(1);
            if (c0 == 'L' || c0 == 'l') && c1 == '1' {
                Ok(LossAlgorithm::L1)
            } else if (c0 == 'L' || c0 == 'l') && c1 == '2' {
                Ok(LossAlgorithm::L2)
            } else {
                Err(LossAlgorithmParseError)
            }
        } else {
            Err(LossAlgorithmParseError)
        }
    }
}

/// The absolute difference between two channel values.
pub open spec fn abs_diff(a: u8, b: u8) -> int {
    if a >= b {
        a - b
    } else {
        b - a
    }
}

/// The L1 (Manhattan) distance between two colors, ignoring alpha.
pub open spec fn l1_diff(c1: Color, c2: Color) -> int {
    abs_diff(c1.r, c2.r) + abs_diff(c1.g, c2.g) + abs_diff(c1.b, c2.b)
}

/// The sum of squared per-channel differences, ignoring alpha.
pub open spec fn l2_sq(c1: Color, c2: Color) -> int {
    abs_diff(c1.r, c2.r) * abs_diff(c1.r, c2.r) + abs_diff(c1.g, c2.g) * abs_diff(c1.g, c2.g)
        + abs_diff(c1.b, c2.b) * abs_diff(c1.b, c2.b)
}

/// The L2 (Euclidean) distance between two colors: the integer square
/// root of the sum of squared per-channel differences.
pub open spec fn l2_diff(c1: Color, c2: Color) -> int {
    sqrt_floor(l2_sq(c1, c2))
}

/// The distance between two colors under the chosen algorithm.
pub open spec fn color_diff_spec(alg: LossAlgorithm, c1: Color, c2: Color) -> int {
    match alg {
        LossAlgorithm::L1 => l1_diff(c1, c2),
        LossAlgorithm::L2 => l2_diff(c1, c2),
    }
}

/// The largest value either metric can take on a pair of colors.
pub const MAX_COLOR_DIFF: u64 = 765;

/// Both metrics are non-negative and bounded by `MAX_COLOR_DIFF`.
pub proof fn lemma_color_diff_bound(alg: LossAlgorithm, c1: Color, c2: Color)
    ensures
        0 <= color_diff_spec(alg, c1, c2) <= MAX_COLOR_DIFF,
{
    match alg {
        LossAlgorithm::L1 => {
        },
        LossAlgorithm::L2 => {
            let q = l2_sq(c1, c2);
            assert(0 <= q <= 195075) by (nonlinear_arith)
                requires
                    q == l2_sq(c1, c2),
                    abs_diff(c1.r, c2.r) <= 255,
                    abs_diff(c1.g, c2.g) <= 255,
                    abs_diff(c1.b, c2.b) <= 255,
                    abs_diff(c1.r, c2.r) >= 0,
                    abs_diff(c1.g, c2.g) >= 0,
                    abs_diff(c1.b, c2.b) >= 0,
            ;
            lemma_sqrt_floor_exists(q);
            let r = sqrt_floor(q);
            assert(r <= 441) by (nonlinear_arith)
                requires
                    is_sqrt_floor(q, r),
                    q <= 195075,
            ;
        },
    }
}

/// A color is at distance zero from itself, under both metrics.
pub proof fn lemma_color_diff_self(alg: LossAlgorithm, c: Color)
    ensures
        color_diff_spec(alg, c, c) == 0,
{
    match alg {
        LossAlgorithm::L1 => {
        },
        LossAlgorithm::L2 => {
            assert(l2_sq(c, c) == 0);
            lemma_sqrt_floor_unique(0, 0);
        },
    }
}

/// Both metrics are symmetric in their two colors.
pub proof fn lemma_color_diff_symmetric(alg: LossAlgorithm, c1: Color, c2: Color)
    ensures
        color_diff_spec(alg, c1, c2) == color_diff_spec(alg, c2, c1),
{
    assert(l2_sq(c1, c2) == l2_sq(c2, c1));
}

/// A distance of zero means the RGB channels are equal, under both
/// metrics (alpha is ignored by the metrics).
pub proof fn lemma_color_diff_zero(alg: LossAlgorithm, c1: Color, c2: Color)
    requires
        color_diff_spec(alg, c1, c2) == 0,
    ensures
        c1.r == c2.r && c1.g == c2.g && c1.b == c2.b,
{
    match alg {
        LossAlgorithm::L1 => {
        },
        LossAlgorithm::L2 => {
            let q = l2_sq(c1, c2);
            lemma_sqrt_floor_exists(q);
            assert(q >= 0) by (nonlinear_arith)
                requires
                    q == l2_sq(c1, c2),
            ;
            if q > 0 {
                assert(sqrt_floor(q) > 0) by {
                    let r = sqrt_floor(q);
                    if r == 0 {
                        assert(q < 1);
                    }
                };
            }
            assert(q == 0);
            assert(abs_diff(c1.r, c2.r) == 0) by (nonlinear_arith)
                requires
                    q == l2_sq(c1, c2),
                    q == 0,
                    abs_diff(c1.r, c2.r) >= 0,
                    abs_diff(c1.g, c2.g) >= 0,
                    abs_diff(c1.b, c2.b) >= 0,
            ;
            assert(abs_diff(c1.g, c2.g) == 0) by (nonlinear_arith)
                requires
                    q == l2_sq(c1, c2),
                    q == 0,
                    abs_diff(c1.r, c2.r) >= 0,
                    abs_diff(c1.g, c2.g) >= 0,
                    abs_diff(c1.b, c2.b) >= 0,
            ;
            assert(abs_diff(c1.b, c2.b) == 0) by (nonlinear_arith)
                requires
                    q == l2_sq(c1, c2),
                    q == 0,
                    abs_diff(c1.r, c2.r) >= 0,
                    abs_diff(c1.g, c2.g) >= 0,
                    abs_diff(c1.b, c2.b) >= 0,
            ;
        },
    }
}

/// The absolute difference between two channel values.
fn abs_diff_u8(a: u8, b: u8) -> (r: u8)
    ensures
        r as int == abs_diff(a, b),
{
    if a >= b {
        a - b
    } else {
        b - a
    }
}

/// The L1 difference between two colors.
fn color_diff_l1(c1: Color, c2: Color) -> (r: u64)
    ensures
        r as int == l1_diff(c1, c2),
{
    let dr = abs_diff_u8(c1.r, c2.r) as u64;
    let dg = abs_diff_u8(c1.g, c2.g) as u64;
    let db = abs_diff_u8(c1.b, c2.b) as u64;
    dr + dg + db
}

/// The L2 difference between two colors.
fn color_diff_l2(c1: Color, c2: Color) -> (r: u64)
    ensures
        r as int == l2_diff(c1, c2),
{
    let dr = abs_diff_u8(c1.r, c2.r) as u64;
    let dg = abs_diff_u8(c1.g, c2.g) as u64;
    let db = abs_diff_u8(c1.b, c2.b) as u64;
    proof {
        assert(dr * dr <= 65025 && dg * dg <= 65025 && db * db <= 65025) by (nonlinear_arith)
            requires
                dr <= 255,
                dg <= 255,
                db <= 255,
        ;
    }
    let sum = dr * dr + dg * dg + db * db;
    let r = u64_sqrt(sum);
    proof {
        lemma_sqrt_floor_unique(sum as int, r as int);
    }
    r
}

/// The total distance between two equally long pixel sequences: the sum
/// of the per-pixel color distances.
pub open spec fn image_diff_spec(alg: LossAlgorithm, a: Seq<Color>, b: Seq<Color>) -> int
    decreases a.len(),
{
    if a.len() == 0 {
        0
    } else {
        image_diff_spec(alg, a.drop_last(), b.drop_last()) + color_diff_spec(
            alg,
            a.last(),
            b.last(),
        )
    }
}

/// The image distance is bounded by the pixel count times the largest
/// per-pixel distance.
pub proof fn lemma_image_diff_bound(alg: LossAlgorithm, a: Seq<Color>, b: Seq<Color>)
    requires
        a.len() == b.len(),
    ensures
        0 <= image_diff_spec(alg, a, b) <= a.len() * MAX_COLOR_DIFF,
    decreases a.len(),
{
    if a.len() == 0 {
    } else {
        lemma_image_diff_bound(alg, a.drop_last(), b.drop_last());
        lemma_color_diff_bound(alg, a.last(), b.last());
        assert((a.len() - 1) * MAX_COLOR_DIFF + MAX_COLOR_DIFF == a.len() * MAX_COLOR_DIFF)
            by (nonlinear_arith);
    }
}

/// An image is at distance zero from itself.
pub proof fn lemma_image_diff_self(alg: LossAlgorithm, a: Seq<Color>)
    ensures
        image_diff_spec(alg, a, a) == 0,
    decreases a.len(),
{
    if a.len() == 0 {
    } else {
        lemma_image_diff_self(alg, a.drop_last());
        lemma_color_diff_self(alg, a.last());
    }
}

impl LossAlgorithm {
    /// Calculate the difference between 2 colors using this algorithm.
    pub fn color_diff(self, c1: Color, c2: Color) -> (r: u64)
        ensures
            r as int == color_diff_spec(self, c1, c2),
            r <= MAX_COLOR_DIFF,
    {
        proof {
            lemma_color_diff_bound(self, c1, c2);
        }
        match self {
            LossAlgorithm::L1 => color_diff_l1(c1, c2),
            LossAlgorithm::L2 => color_diff_l2(c1, c2),
        }
    }

    /// Calculate the difference between 2 images of the same size using
    /// this algorithm.
    pub fn image_diff(self, a: &Vec<Color>, b: &Vec<Color>) -> (r: u64)
        requires
            a@.len() == b@.len(),
            a@.len() * MAX_COLOR_DIFF <= u64::MAX,
        ensures
            r as int == image_diff_spec(self, a@, b@),
    {
        let mut total: u64 = 0;
        let mut i: usize = 0;
        while i < a.len()
            invariant
                i <= a@.len(),
                a@.len() == b@.len(),
                a@.len() * MAX_COLOR_DIFF <= u64::MAX,
                total as int == image_diff_spec(self, a@.take(i as int), b@.take(i as int)),
                total <= i * MAX_COLOR_DIFF,
            decreases a@.len() - i,
        {
            let d = self.color_diff(a[i], b[i]);
            proof {
                assert(a@.take(i + 1).drop_last() =~= a@.take(i as int));
                assert(b@.take(i + 1).drop_last() =~= b@.take(i as int));
                assert(a@.take(i + 1).last() == a@[i as int]);
                assert(b@.take(i + 1).last() == b@[i as int]);
                assert((i + 1) * MAX_COLOR_DIFF == i * MAX_COLOR_DIFF + MAX_COLOR_DIFF)
                    by (nonlinear_arith);
                assert(i * MAX_COLOR_DIFF <= a@.len() * MAX_COLOR_DIFF) by (nonlinear_arith)
                    requires
                        0 <= i < a@.len(),
            ;
            }
            total = total + d;
            i = i + 1;
        }
        proof {
            assert(a@.take(a@.len() as int) =~= a@);
            assert(b@.take(b@.len() as int) =~= b@);
        }
        total
    }
}

/// The options for transforming an image to have a different color depth.
#[derive(Debug, Copy, Clone, Eq, PartialEq)]
pub struct ColorOptions {
    /// The maximum number of colors to admit. `None` means no limit.
    pub num_colors: Option<u32>,
    /// The distance algorithm used for the loss between colors.
    ///
    /// The default is L2.
    pub loss: LossAlgorithm,
}

impl Default for ColorOptions {
    /// No color limit, loss measured with L2.
    fn default() -> (r: Self)
        ensures
            r.num_colors is None,
            r.loss == LossAlgorithm::L2,
    {
        ColorOptions { num_colors: None, loss: LossAlgorithm::L2 }
    }
}

/// The two colors of the monochrome black/white palette.
pub open spec fn bw_1bit_spec() -> Seq<Color> {
    seq![
        (Color { r: 0x00, g: 0x00, b: 0x00, a: 255 }),
        (Color { r: 0xFF, g: 0xFF, b: 0xFF, a: 255 }),
    ]
}

/// The monochrome black/white palette.
pub fn bw_1bit() -> (r: Vec<Color>)
    ensures
        r@ == bw_1bit_spec(),
{
    let mut v: Vec<Color> = Vec::new();
    v.push(Color { r: 0x00, g: 0x00, b: 0x00, a: 255 });
    v.push(Color { r: 0xFF, g: 0xFF, b: 0xFF, a: 255 });
    proof {
        assert(v@ =~= bw_1bit_spec());
    }
    v
}

/// The monochrome black/white palette as a conversion strategy.
pub fn palette_bw_1bit() -> (r: depth::FixedPalette)
    ensures
        r.0@ == bw_1bit_spec(),
{
    depth::FixedPalette(bw_1bit())
}

/// A row-major dense buffer of colors with known dimensions.
pub struct PixelBuffer {
    /// The width of the image in pixels.
    pub width: u32,
    /// The height of the image in pixels.
    pub height: u32,
    /// The pixels, row by row; its length is `width * height`.
    pub pixels: Vec<Color>,
}

impl PixelBuffer {
    /// The buffer's structural invariant: the pixel count matches the
    /// dimensions and every pixel is opaque.
    pub open spec fn wf(&self) -> bool {
        &&& self.pixels@.len() == self.width * self.height
        &&& forall|i: int| 0 <= i < self.pixels@.len() ==> self.pixels@[i].a == 255
    }

    /// Build a buffer from dimensions and a color sequence, normalizing
    /// every pixel to opaque. Returns `None` when the pixel count does
    /// not match the dimensions.
    pub fn new(width: u32, height: u32, pixels: Vec<Color>) -> (r: Option<PixelBuffer>)
        ensures
            match r {
                Some(pb) => {
                    &&& pb.wf()
                    &&& pb.width == width
                    &&& pb.height == height
                    &&& pixels@.len() == width * height
                    &&& pb.pixels@.len() == pixels@.len()
                    &&& forall|i: int|
                        0 <= i < pixels@.len() ==> pb.pixels@[i] == (Color {
                            a: 255u8,
                            ..pixels@[i]
                        })
                },
                None => pixels@.len() != width * height,
            },
    {
        proof {
            assert((width as int) * (height as int) <= u64::MAX as int) by (nonlinear_arith)
                requires
                    (width as int) <= 0xffffffff,
                    (height as int) <= 0xffffffff,
            ;
        }
        let expected = (width as u64) * (height as u64);
        if (pixels.len() as u64) != expected {
            return None;
        }
        let mut normalized: Vec<Color> = Vec::new();
        let mut i: usize = 0;
        while i < pixels.len()
            invariant
                i <= pixels@.len(),
                normalized@.len() == i,
                forall|j: int|
                    0 <= j < i ==> normalized@[j] == (Color { a: 255u8, ..pixels@[j] }),
            decreases pixels@.len() - i,
        {
            let c = pixels[i];
            normalized.push(Color { r: c.r, g: c.g, b: c.b, a: 255 });
            i = i + 1;
        }
        Some(PixelBuffer { width, height, pixels: normalized })
    }

    /// Build a buffer from dimensions and raw RGB bytes, three per pixel
    /// in row-major order. Returns `None` when the byte count does not
    /// match the dimensions.
    pub fn from_rgb_bytes(width: u32, height: u32, bytes: &Vec<u8>) -> (r: Option<PixelBuffer>)
        ensures
            match r {
                Some(pb) => {
                    &&& pb.wf()
                    &&& pb.width == width
                    &&& pb.height == height
                    &&& bytes@.len() == 3 * (width * height)
                    &&& forall|i: int|
                        0 <= i < pb.pixels@.len() ==> pb.pixels@[i] == (Color {
                            r: bytes@[3 * i],
                            g: bytes@[3 * i + 1],
                            b: bytes@[3 * i + 2],
                            a: 255u8,
                        })
                },
                None => bytes@.len() != 3 * (width * height),
            },
    {
        proof {
            assert((width as int) * (height as int) <= u64::MAX as int) by (nonlinear_arith)
                requires
                    (width as int) <= 0xffffffff,
                    (height as int) <= 0xffffffff,
            ;
        }
        let expected = (width as u64) * (height as u64);
        let blen = bytes.len();
        if expected > (usize::MAX as u64) / 3 {
            // no byte vector can be three times this long
            proof {
                assert(3 * (expected as int) > usize::MAX as int);
                assert(blen as int <= usize::MAX as int);
            }
            return None;
        }
        let count = expected as usize;
        if blen != 3 * count {
            return None;
        }
        let mut pixels: Vec<Color> = Vec::new();
        let mut i: usize = 0;
        while i < count
            invariant
                i <= count,
                count == width * height,
                bytes@.len() == 3 * count,
                3 * count <= usize::MAX,
                pixels@.len() == i,
                forall|j: int|
                    0 <= j < i ==> pixels@[j] == (Color {
                        r: bytes@[3 * j],
                        g: bytes@[3 * j + 1],
                        b: bytes@[3 * j + 2],
                        a: 255u8,
                    }),
            decreases count - i,
        {
            let c = Color { r: bytes[3 * i], g: bytes[3 * i + 1], b: bytes[3 * i + 2], a: 255 };
            pixels.push(c);
            i = i + 1;
        }
        Some(PixelBuffer { width, height, pixels })
    }

    /// The buffer's pixels as raw RGB bytes, three per pixel in
    /// row-major order; alpha is dropped.
    pub fn to_rgb_bytes(&self) -> (r: Vec<u8>)
        requires
            self.pixels@.len() * 3 <= usize::MAX,
        ensures
            r@.len() == 3 * self.pixels@.len(),
            forall|i: int|
                0 <= i < self.pixels@.len() ==> {
                    &&& r@[3 * i] == self.pixels@[i].r
                    &&& r@[3 * i + 1] == self.pixels@[i].g
                    &&& r@[3 * i + 2] == self.pixels@[i].b
                },
    {
        let mut bytes: Vec<u8> = Vec::new();
        let mut i: usize = 0;
        while i < self.pixels.len()
            invariant
                i <= self.pixels@.len(),
                self.pixels@.len() * 3 <= usize::MAX,
                bytes@.len() == 3 * i,
                forall|j: int|
                    0 <= j < i ==> {
                        &&& bytes@[3 * j] == self.pixels@[j].r
                        &&& bytes@[3 * j + 1] == self.pixels@[j].g
                        &&& bytes@[3 * j + 2] == self.pixels@[j].b
                    },
            decreases self.pixels@.len() - i,
        {
            proof {
                assert(i * 3 < self.pixels@.len() * 3) by (nonlinear_arith)
                    requires
                        0 <= i < self.pixels@.len(),
                ;
            }
            let c = self.pixels[i];
            bytes.push(c.r);
            bytes.push(c.g);
            bytes.push(c.b);
            i = i + 1;
        }
        bytes
    }
}

} // verus!
