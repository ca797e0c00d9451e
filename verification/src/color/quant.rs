//! Palette construction: iterative cluster splitting with K-Means
//! refinement, and error-diffusion remapping of pixels to palette
//! indices. The clustering and dithering themselves are done by the
//! `exoquant` crate behind the trusted items below; everything this
//! module promises about counts and index ranges is stated here.
use vstd::prelude::*;

use crate::color::Color;

verus! {

/// `exoquant`'s color histogram, used as the input of quantization.
#[verifier::external_type_specification]
#[verifier::external_body]
pub struct ExHistogram(exoquant::Histogram);

/// `exoquant`'s quantizer state: a growing set of color clusters.
#[verifier::external_type_specification]
#[verifier::external_body]
pub struct ExQuantizer(exoquant::Quantizer);

/// The number of color clusters a quantizer state currently holds.
pub uninterp spec fn quantizer_color_count(q: exoquant::Quantizer) -> nat;

/// Relies on `exoquant::Histogram::new`: an empty color histogram.
#[verifier::external_body]
pub(crate) fn histogram_new() -> (h: exoquant::Histogram) {
    exoquant::Histogram::new()
}

/// Relies on `exoquant::Histogram`'s `Extend<Color>` impl: counts one
/// occurrence of each given pixel color.
#[verifier::external_body]
pub(crate) fn histogram_extend(h: &mut exoquant::Histogram, pixels: &Vec<Color>) {
    h.extend(pixels.iter().map(|c| exoquant::Color::new(c.r, c.g, c.b, c.a)));
}

/// Relies on `exoquant::Quantizer::new`: a quantizer over the histogram
/// in the default `SimpleColorSpace`, starting with a single cluster.
#[verifier::external_body]
pub(crate) fn quantizer_new(h: &exoquant::Histogram) -> (q: exoquant::Quantizer)
    ensures
        quantizer_color_count(q) == 1,
{
    exoquant::Quantizer::new(h, &exoquant::SimpleColorSpace::default())
}

/// Relies on `exoquant::Quantizer::num_colors`: the current cluster count.
#[verifier::external_body]
pub(crate) fn quantizer_num_colors(q: &exoquant::Quantizer) -> (n: usize)
    ensures
        n == quantizer_color_count(*q),
{
    q.num_colors()
}

/// Relies on `exoquant::Quantizer::step`: splits one cluster in two,
/// growing the cluster count by exactly one.
#[verifier::external_body]
pub(crate) fn quantizer_step(q: &mut exoquant::Quantizer)
    ensures
        quantizer_color_count(*final(q)) == quantizer_color_count(*old(q)) + 1,
{
    q.step();
}

/// Relies on `exoquant::Quantizer::optimize` with the `KMeans`
/// optimizer: runs K-Means refinement passes, keeping the cluster count.
#[verifier::external_body]
pub(crate) fn quantizer_optimize(q: exoquant::Quantizer, iterations: usize) -> (r:
    exoquant::Quantizer)
    requires
        quantizer_color_count(q) >= 1,
    ensures
        quantizer_color_count(r) == quantizer_color_count(q),
{
    q.optimize(&exoquant::optimizer::KMeans, iterations)
}

/// Relies on `exoquant::Quantizer::colors`: one representative color per
/// cluster, in the default `SimpleColorSpace`.
#[verifier::external_body]
pub(crate) fn quantizer_colors(q: &exoquant::Quantizer) -> (palette: Vec<Color>)
    ensures
        palette@.len() == quantizer_color_count(*q),
{
    q.colors(&exoquant::SimpleColorSpace::default()).into_iter().map(
        |c: exoquant::Color| Color { r: c.r, g: c.g, b: c.b, a: c.a },
    ).collect()
}

/// Relies on `exoquant::optimizer::Optimizer::optimize_palette` with the
/// `KMeans` optimizer: K-Means refinement of a palette against a
/// histogram, returning one color per input palette entry.
#[verifier::external_body]
pub(crate) fn kmeans_optimize_palette(
    palette: &Vec<Color>,
    h: &exoquant::Histogram,
    iterations: usize,
) -> (r: Vec<Color>)
    requires
        palette@.len() >= 1,
    ensures
        r@.len() == palette@.len(),
{
    let pal: Vec<exoquant::Color> = palette.iter().map(
        |c| exoquant::Color::new(c.r, c.g, c.b, c.a),
    ).collect();
    let out = exoquant::optimizer::Optimizer::optimize_palette(
        &exoquant::optimizer::KMeans,
        &exoquant::SimpleColorSpace::default(),
        &pal,
        h,
        iterations,
    );
    out.into_iter().map(|c: exoquant::Color| Color { r: c.r, g: c.g, b: c.b, a: c.a }).collect()
}

/// Relies on `exoquant::Remapper::remap` with the `FloydSteinberg`
/// ditherer in the default `SimpleColorSpace`: error-diffusion dithering
/// that yields one palette index per input pixel, every index in range.
/// `remap` refuses palettes of more than 256 colors, and divides by the
/// row width when there is at least one pixel.
#[verifier::external_body]
pub(crate) fn dither_remap(palette: &Vec<Color>, pixels: &Vec<Color>, width: usize) -> (idx: Vec<
    usize,
>)
    requires
        1 <= palette@.len() <= 256,
        pixels@.len() > 0 ==> width >= 1,
        width <= 0xffffffff,
    ensures
        idx@.len() == pixels@.len(),
        forall|i: int| 0 <= i < idx@.len() ==> idx@[i] < palette@.len(),
{
    let pal: Vec<exoquant::Color> = palette.iter().map(
        |c| exoquant::Color::new(c.r, c.g, c.b, c.a),
    ).collect();
    let px: Vec<exoquant::Color> = pixels.iter().map(
        |c| exoquant::Color::new(c.r, c.g, c.b, c.a),
    ).collect();
    let colorspace = exoquant::SimpleColorSpace::default();
    let ditherer = exoquant::ditherer::FloydSteinberg::new();
    let remapper = exoquant::Remapper::new(&pal, &colorspace, &ditherer);
    remapper.remap(&px, width).into_iter().map(|i| i as usize).collect()
}

/// Build a palette of `num_colors` representative colors for the given
/// pixels: histogram the colors, split clusters until the target count
/// is reached (with an optional K-Means pass at every multiple of 256
/// colors), then run a final bounded K-Means refinement. The palette
/// never exceeds the requested color count, and every entry is opaque.
pub fn build_palette(pixels: &Vec<Color>, num_colors: u32) -> (palette: Vec<Color>)
    requires
        num_colors >= 1,
    ensures
        palette@.len() == num_colors,
        forall|i: int| 0 <= i < palette@.len() ==> palette@[i].a == 255,
{
    let mut histogram = histogram_new();
    histogram_extend(&mut histogram, pixels);
    let mut quantizer = quantizer_new(&histogram);
    let mut count = quantizer_num_colors(&quantizer);
    let target = num_colors as usize;
    while count < target
        invariant
            count == quantizer_color_count(quantizer),
            1 <= count <= target,
            target == num_colors,
        decreases target - count,
    {
        quantizer_step(&mut quantizer);
        count = quantizer_num_colors(&quantizer);
        // a bounded refinement pass at intermediate sizes; a speed/quality
        // trade-off that only triggers for large targets
        if count % 256 == 0 {
            quantizer = quantizer_optimize(quantizer, 16);
        }
    }
    let rough = quantizer_colors(&quantizer);
    // the final refinement pass dominates palette quality
    let refined = kmeans_optimize_palette(&rough, &histogram, 8);
    let mut palette: Vec<Color> = Vec::new();
    let mut i: usize = 0;
    while i < refined.len()
        invariant
            i <= refined@.len(),
            palette@.len() == i,
            forall|j: int| 0 <= j < i ==> palette@[j].a == 255,
        decreases refined@.len() - i,
    {
        let c = refined[i];
        palette.push(Color { r: c.r, g: c.g, b: c.b, a: 255 });
        i = i + 1;
    }
    palette
}

} // verus!
