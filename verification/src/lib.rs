//! Reduce full-color raster images to constrained color models that
//! approximate historical display hardware: fixed 16/64-color palettes,
//! packed 16/18-bit color, and CGA mode-4 style background/foreground
//! palettes, with error-diffusion dithering and a loss score that lets
//! competing palette strategies be compared.
use vstd::prelude::*;

pub mod arith;
pub mod color;
pub mod parse;

pub use crate::color::{ColorDepth, FixedPalette};

use crate::arith::round_ratio;

verus! {

/// A pixel aspect ratio as an exact fraction of two positive integers.
#[derive(Debug, Copy, Clone, PartialEq, Eq, Structural)]
pub struct AspectRatio {
    /// The width component of the ratio.
    pub numer: u32,
    /// The height component of the ratio.
    pub denom: u32,
}

/// The ways an output resolution request can be invalid.
#[derive(Debug, Copy, Clone, PartialEq, Eq, Structural)]
pub enum ResolutionError {
    /// Not enough components to resolve the output resolution.
    Non,
    /// A width or height is required alongside a pixel ratio.
    RatioWithoutSide,
    /// A pixel ratio, width and height cannot be used together.
    TooMany,
}

impl ResolutionError {
    /// A human-readable description of the error.
    pub fn message(self) -> (r: &'static str)
        ensures
            self == ResolutionError::Non ==> r@ == (
            "not enough components to resolve output resolution")@,
            self == ResolutionError::RatioWithoutSide ==> r@ == (
            "'width' or 'height' are required alongside 'pixel_ratio'")@,
            self == ResolutionError::TooMany ==> r@ == (
            "'pixel_ratio', 'width' and 'height' cannot be used together")@,
    {
        match self {
            ResolutionError::Non => "not enough components to resolve output resolution",
            ResolutionError::RatioWithoutSide => "'width' or 'height' are required alongside 'pixel_ratio'",
            ResolutionError::TooMany => "'pixel_ratio', 'width' and 'height' cannot be used together",
        }
    }
}

/// The output resolution that a combination of requested width,
/// requested height and pixel ratio resolves to, by the rule of
/// proportions over the input dimensions; or the error that the
/// combination is rejected with.
pub open spec fn resolution_answer(
    width: u32,
    height: u32,
    output_width: Option<u32>,
    output_height: Option<u32>,
    pixel_ratio: Option<AspectRatio>,
) -> Result<(int, int), ResolutionError> {
    match (pixel_ratio, output_width, output_height) {
        (None, None, None) => Err(ResolutionError::Non),
        (None, Some(w), Some(h)) => Ok((w as int, h as int)),
        (Some(q), None, Some(h)) => Ok(
            (round_ratio(q.numer * h * width, q.denom * height), h as int),
        ),
        (Some(q), Some(w), None) => Ok(
            (w as int, round_ratio(w * height * q.denom, q.numer * width)),
        ),
        (None, None, Some(h)) => Ok((round_ratio(h * width, height as int), h as int)),
        (None, Some(w), None) => Ok((w as int, round_ratio(w * height, width as int))),
        (Some(_), None, None) => Err(ResolutionError::RatioWithoutSide),
        (Some(_), Some(_), Some(_)) => Err(ResolutionError::TooMany),
    }
}

/// Which resolution requests can be computed: positive input
/// dimensions, a positive pixel ratio, and results that fit in `u32`.
pub open spec fn resolution_ok(
    width: u32,
    height: u32,
    output_width: Option<u32>,
    output_height: Option<u32>,
    pixel_ratio: Option<AspectRatio>,
) -> bool {
    &&& width >= 1
    &&& height >= 1
    &&& (pixel_ratio matches Some(q) ==> q.numer >= 1 && q.denom >= 1)
    &&& match resolution_answer(width, height, output_width, output_height, pixel_ratio) {
        Ok((w, h)) => 0 <= w <= u32::MAX && 0 <= h <= u32::MAX,
        Err(_) => true,
    }
}

/// Products of up to three `u32`-bounded factors fit comfortably in
/// `u128`.
proof fn lemma_mul3_u32_fits(x: int, y: int, z: int)
    requires
        0 <= x < 0x100000000,
        0 <= y < 0x100000000,
        0 <= z < 0x100000000,
    ensures
        0 <= x * y < 0x10000000000000000,
        0 <= x * y * z < 0x1000000000000000000000000,
        x >= 1 && y >= 1 ==> x * y >= 1,
{
    assert(0 <= x * y < 0x10000000000000000 && 0 <= x * y * z < 0x1000000000000000000000000 && (
    x >= 1 && y >= 1 ==> x * y >= 1)) by (nonlinear_arith)
        requires
            0 <= x < 0x100000000,
            0 <= y < 0x100000000,
            0 <= z < 0x100000000,
    ;
}

/// Rounds `a / b` to the nearest integer, half-way cases away from
/// zero.
fn round_div(a: u128, b: u128) -> (r: u128)
    requires
        1 <= b,
        a <= 0x2000000000000000000000000,
        b <= 0x2000000000000000000000000,
    ensures
        r as int == round_ratio(a as int, b as int),
{
    (2 * a + b) / (2 * b)
}

/// Resolve the output resolution from the requested width and/or
/// height and pixel ratio, scaling the input dimensions by the rule of
/// proportions. Exactly the combinations named in `ResolutionError`
/// are rejected.
pub fn resolve_output_resolution(
    width: u32,
    height: u32,
    output_width: Option<u32>,
    output_height: Option<u32>,
    pixel_ratio: Option<AspectRatio>,
) -> (r: Result<(u32, u32), ResolutionError>)
    requires
        resolution_ok(width, height, output_width, output_height, pixel_ratio),
    ensures
        match resolution_answer(width, height, output_width, output_height, pixel_ratio) {
            Ok((w, h)) => r == Ok::<(u32, u32), ResolutionError>(((w as u32), (h as u32))),
            Err(e) => r == Err::<(u32, u32), ResolutionError>(e),
        },
{
    match (pixel_ratio, output_width, output_height) {
        (None, None, None) => Err(ResolutionError::Non),
        (None, Some(w), Some(h)) => Ok((w, h)),
        (Some(q), None, Some(h)) => {
            proof {
                lemma_mul3_u32_fits(q.numer as int, h as int, width as int);
                lemma_mul3_u32_fits(q.denom as int, height as int, 1);
            }
            let a = (q.numer as u128) * (h as u128) * (width as u128);
            let b = (q.denom as u128) * (height as u128);
            let w = round_div(a, b);
            Ok((w as u32, h))
        },
        (Some(q), Some(w), None) => {
            proof {
                lemma_mul3_u32_fits(w as int, height as int, q.denom as int);
                lemma_mul3_u32_fits(q.numer as int, width as int, 1);
            }
            let a = (w as u128) * (height as u128) * (q.denom as u128);
            let b = (q.numer as u128) * (width as u128);
            let h = round_div(a, b);
            Ok((w, h as u32))
        },
        (None, None, Some(h)) => {
            proof {
                lemma_mul3_u32_fits(h as int, width as int, 1);
            }
            let a = (h as u128) * (width as u128);
            let w = round_div(a, height as u128);
            Ok((w as u32, h))
        },
        (None, Some(w), None) => {
            proof {
                lemma_mul3_u32_fits(w as int, height as int, 1);
            }
            let a = (w as u128) * (height as u128);
            let h = round_div(a, width as u128);
            Ok((w, h as u32))
        },
        (Some(_), None, None) => Err(ResolutionError::RatioWithoutSide),
        (Some(_), Some(_), Some(_)) => Err(ResolutionError::TooMany),
    }
}

/// Whether `resolve_output_resolution` accepts these inputs; lets a
/// caller test the precondition at run time.
pub fn resolution_inputs_ok(
    width: u32,
    height: u32,
    output_width: Option<u32>,
    output_height: Option<u32>,
    pixel_ratio: Option<AspectRatio>,
) -> (ok: bool)
    ensures
        ok == resolution_ok(width, height, output_width, output_height, pixel_ratio),
{
    if width < 1 || height < 1 {
        return false;
    }
    if let Some(q) = pixel_ratio {
        if q.numer < 1 || q.denom < 1 {
            return false;
        }
    }
    let fits: bool = match (pixel_ratio, output_width, output_height) {
        (Some(q), None, Some(h)) => {
            proof {
                lemma_mul3_u32_fits(q.numer as int, h as int, width as int);
                lemma_mul3_u32_fits(q.denom as int, height as int, 1);
            }
            let a = (q.numer as u128) * (h as u128) * (width as u128);
            let b = (q.denom as u128) * (height as u128);
            round_div(a, b) <= u32::MAX as u128
        },
        (Some(q), Some(w), None) => {
            proof {
                lemma_mul3_u32_fits(w as int, height as int, q.denom as int);
                lemma_mul3_u32_fits(q.numer as int, width as int, 1);
            }
            let a = (w as u128) * (height as u128) * (q.denom as u128);
            let b = (q.numer as u128) * (width as u128);
            round_div(a, b) <= u32::MAX as u128
        },
        (None, None, Some(h)) => {
            proof {
                lemma_mul3_u32_fits(h as int, width as int, 1);
            }
            let a = (h as u128) * (width as u128);
            round_div(a, height as u128) <= u32::MAX as u128
        },
        (None, Some(w), None) => {
            proof {
                lemma_mul3_u32_fits(w as int, height as int, 1);
            }
            let a = (w as u128) * (height as u128);
            round_div(a, width as u128) <= u32::MAX as u128
        },
        _ => true,
    };
    fits
}

} // verus!
