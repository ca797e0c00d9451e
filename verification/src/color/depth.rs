//! The color depth strategies: identity true color, VGA bit-masking,
//! fixed hardware palettes, background/foreground palettes, and the
//! automatic best-of-N selection among candidate strategies.
use vstd::prelude::*;

use crate::color::median::{color_median, median_color};
use crate::color::quant::{build_palette, dither_remap};
use crate::color::{
    image_diff_spec, l2_sq, lemma_image_diff_self, Color, ColorOptions, PixelBuffer,
    MAX_COLOR_DIFF,
};

verus! {

/// The index of the first palette entry at minimal squared Euclidean
/// RGB distance from `c`.
pub open spec fn nearest_index(palette: Seq<Color>, c: Color) -> int
    recommends
        palette.len() > 0,
    decreases palette.len(),
{
    if palette.len() <= 1 {
        0
    } else {
        let rest = nearest_index(palette.drop_first(), c) + 1;
        if l2_sq(palette[0], c) <= l2_sq(palette[rest], c) {
            0
        } else {
            rest
        }
    }
}

/// `nearest_index` is in range, minimizes the squared distance, and is
/// the first index to do so.
pub proof fn lemma_nearest_index(palette: Seq<Color>, c: Color)
    requires
        palette.len() > 0,
    ensures
        0 <= nearest_index(palette, c) < palette.len(),
        forall|j: int|
            #![trigger l2_sq(palette[j], c)]
            0 <= j < palette.len() ==> l2_sq(palette[nearest_index(palette, c)], c) <= l2_sq(
                palette[j],
                c,
            ),
        forall|j: int|
            #![trigger l2_sq(palette[j], c)]
            0 <= j < nearest_index(palette, c) ==> l2_sq(palette[j], c) > l2_sq(
                palette[nearest_index(palette, c)],
                c,
            ),
    decreases palette.len(),
{
    if palette.len() > 1 {
        let rest0 = palette.drop_first();
        lemma_nearest_index(rest0, c);
        let nd = nearest_index(rest0, c);
        let rest = nd + 1;
        let n = nearest_index(palette, c);
        assert(forall|j: int| 0 <= j < rest0.len() ==> rest0[j] == palette[j + 1]);
        assert(palette[rest] == rest0[nd]);
        assert forall|j: int|
            #![trigger l2_sq(palette[j], c)]
            0 <= j < palette.len() implies l2_sq(palette[n], c) <= l2_sq(palette[j], c) by {
            if j >= 1 {
                assert(l2_sq(rest0[nd], c) <= l2_sq(rest0[j - 1], c));
            }
        }
        assert forall|j: int|
            #![trigger l2_sq(palette[j], c)]
            0 <= j < n implies l2_sq(palette[j], c) > l2_sq(palette[n], c) by {
            if j >= 1 {
                assert(l2_sq(rest0[j - 1], c) > l2_sq(rest0[nd], c));
            }
        }
    }
}

/// Any index that minimizes the squared distance and comes before every
/// other minimizer is `nearest_index`.
pub proof fn lemma_nearest_index_unique(palette: Seq<Color>, c: Color, k: int)
    requires
        palette.len() > 0,
        0 <= k < palette.len(),
        forall|j: int|
            #![trigger l2_sq(palette[j], c)]
            0 <= j < palette.len() ==> l2_sq(palette[k], c) <= l2_sq(palette[j], c),
        forall|j: int|
            #![trigger l2_sq(palette[j], c)]
            0 <= j < k ==> l2_sq(palette[j], c) > l2_sq(palette[k], c),
    ensures
        k == nearest_index(palette, c),
{
    let n = nearest_index(palette, c);
    lemma_nearest_index(palette, c);
    if k < n {
        assert(l2_sq(palette[k], c) > l2_sq(palette[n], c));
        assert(l2_sq(palette[k], c) <= l2_sq(palette[n], c));
    }
    if n < k {
        assert(l2_sq(palette[n], c) > l2_sq(palette[k], c));
        assert(l2_sq(palette[n], c) <= l2_sq(palette[k], c));
    }
}

/// The color a pixel snaps to within a palette: the RGB channels of the
/// first entry at minimal squared Euclidean distance, made opaque.
pub open spec fn snap_spec(palette: Seq<Color>, c: Color) -> Color
    recommends
        palette.len() > 0,
{
    let e = palette[nearest_index(palette, c)];
    Color { r: e.r, g: e.g, b: e.b, a: 255 }
}

/// A zero squared distance means equal RGB channels.
pub proof fn lemma_l2_sq_zero(a: Color, b: Color)
    ensures
        (l2_sq(a, b) == 0) <==> (a.r == b.r && a.g == b.g && a.b == b.b),
{
    let dr = crate::color::abs_diff(a.r, b.r);
    let dg = crate::color::abs_diff(a.g, b.g);
    let db = crate::color::abs_diff(a.b, b.b);
    assert((dr * dr + dg * dg + db * db == 0) <==> (dr == 0 && dg == 0 && db == 0))
        by (nonlinear_arith)
        requires
            dr >= 0,
            dg >= 0,
            db >= 0,
    ;
}

/// The squared distance is never negative.
pub proof fn lemma_l2_sq_nonneg(a: Color, b: Color)
    ensures
        l2_sq(a, b) >= 0,
{
    let dr = crate::color::abs_diff(a.r, b.r);
    let dg = crate::color::abs_diff(a.g, b.g);
    let db = crate::color::abs_diff(a.b, b.b);
    assert(dr * dr + dg * dg + db * db >= 0) by (nonlinear_arith)
        requires
            dr >= 0,
            dg >= 0,
            db >= 0,
    ;
}

/// Snapping an already-snapped color yields the same color: the nearest
/// entry to a palette entry's own color is at distance zero, and the
/// first such entry carries the same RGB channels.
pub proof fn lemma_snap_idempotent(palette: Seq<Color>, c: Color)
    requires
        palette.len() > 0,
    ensures
        snap_spec(palette, snap_spec(palette, c)) == snap_spec(palette, c),
{
    let s = snap_spec(palette, c);
    let n1 = nearest_index(palette, c);
    let n2 = nearest_index(palette, s);
    lemma_nearest_index(palette, c);
    lemma_nearest_index(palette, s);
    lemma_l2_sq_zero(palette[n1], s);
    assert(l2_sq(palette[n1], s) == 0);
    lemma_l2_sq_nonneg(palette[n2], s);
    assert(l2_sq(palette[n2], s) == 0);
    lemma_l2_sq_zero(palette[n2], s);
}

/// The squared Euclidean RGB distance between two colors.
fn dist_sq(a: Color, b: Color) -> (d: u32)
    ensures
        d as int == l2_sq(a, b),
{
    let dr = (if a.r >= b.r {
        a.r - b.r
    } else {
        b.r - a.r
    }) as u32;
    let dg = (if a.g >= b.g {
        a.g - b.g
    } else {
        b.g - a.g
    }) as u32;
    let db = (if a.b >= b.b {
        a.b - b.b
    } else {
        b.b - a.b
    }) as u32;
    proof {
        assert(dr * dr <= 65025 && dg * dg <= 65025 && db * db <= 65025) by (nonlinear_arith)
            requires
                dr <= 255,
                dg <= 255,
                db <= 255,
        ;
    }
    dr * dr + dg * dg + db * db
}

/// The entry of a non-empty palette nearest to the given pixel, by
/// brute-force search; ties go to the earliest entry.
pub fn nearest_in_palette(palette: &Vec<Color>, pixel: Color) -> (r: Color)
    requires
        palette@.len() > 0,
    ensures
        r == snap_spec(palette@, pixel),
{
    let mut best: usize = 0;
    let mut best_d: u32 = dist_sq(palette[0], pixel);
    let mut i: usize = 1;
    while i < palette.len()
        invariant
            0 <= best < i <= palette@.len(),
            best_d as int == l2_sq(palette@[best as int], pixel),
            forall|j: int|
                #![trigger l2_sq(palette@[j], pixel)]
                0 <= j < i ==> l2_sq(palette@[best as int], pixel) <= l2_sq(palette@[j], pixel),
            forall|j: int|
                #![trigger l2_sq(palette@[j], pixel)]
                0 <= j < best ==> l2_sq(palette@[j], pixel) > l2_sq(palette@[best as int], pixel),
        decreases palette@.len() - i,
    {
        let d = dist_sq(palette[i], pixel);
        if d < best_d {
            best = i;
            best_d = d;
        }
        i = i + 1;
    }
    proof {
        lemma_nearest_index_unique(palette@, pixel, best as int);
    }
    let e = palette[best];
    Color { r: e.r, g: e.g, b: e.b, a: 255 }
}

/// Whether a color cap is usable: dithering supports palettes of 1 to
/// 256 colors.
pub open spec fn cap_ok(options: ColorOptions) -> bool {
    match options.num_colors {
        None => true,
        Some(n) => 1 <= n <= 256,
    }
}

/// A single color conversion step.
pub trait ColorMapper {
    /// The per-pixel mapping this mapper applies.
    spec fn map_spec(&self, c: Color) -> Color;

    /// Convert a single color.
    fn convert_color(&self, c: Color) -> (r: Color)
        ensures
            r == self.map_spec(c),
    ;
}

/// Color depth image converter.
pub trait ColorDepth: Sized {
    /// Which pixel sequences and options this strategy accepts.
    spec fn ok_input(&self, pixels: Seq<Color>, options: ColorOptions) -> bool;

    /// What this strategy promises of a conversion result.
    spec fn convert_ok(
        &self,
        pixels: Seq<Color>,
        options: ColorOptions,
        out: Seq<Color>,
        loss: u64,
    ) -> bool;

    /// Every acceptable result has one output pixel per input pixel, and
    /// its loss is the image distance under the selected metric.
    proof fn lemma_convert_ok(
        &self,
        pixels: Seq<Color>,
        options: ColorOptions,
        out: Seq<Color>,
        loss: u64,
    )
        requires
            self.convert_ok(pixels, options, out, loss),
        ensures
            out.len() == pixels.len(),
            loss as int == image_diff_spec(options.loss, pixels, out),
    ;

    /// Convert and retrieve the loss from converting an image.
    fn convert_image_with_loss(&self, image: &PixelBuffer, options: ColorOptions) -> (r: (
        Vec<Color>,
        u64,
    ))
        requires
            image.wf(),
            image.pixels@.len() * MAX_COLOR_DIFF <= u64::MAX,
            self.ok_input(image.pixels@, options),
        ensures
            self.convert_ok(image.pixels@, options, r.0@, r.1),
    ;

    /// Convert an RGB image to this color depth.
    fn convert_image(&self, image: &PixelBuffer, options: ColorOptions) -> (r: Vec<Color>)
        requires
            image.wf(),
            image.pixels@.len() * MAX_COLOR_DIFF <= u64::MAX,
            self.ok_input(image.pixels@, options),
        ensures
            exists|loss: u64| self.convert_ok(image.pixels@, options, r@, loss),
    {
        let (pixels, loss) = self.convert_image_with_loss(image, options);
        proof {
            assert(self.convert_ok(image.pixels@, options, pixels@, loss));
        }
        pixels
    }

    /// Estimate the loss obtained from converting an image. Greater
    /// discrepancies give higher loss values.
    fn loss(&self, image: &PixelBuffer, options: ColorOptions) -> (l: u64)
        requires
            image.wf(),
            image.pixels@.len() * MAX_COLOR_DIFF <= u64::MAX,
            self.ok_input(image.pixels@, options),
        ensures
            exists|out: Seq<Color>| self.convert_ok(image.pixels@, options, out, l),
    {
        let (pixels, loss) = self.convert_image_with_loss(image, options);
        proof {
            assert(self.convert_ok(image.pixels@, options, pixels@, loss));
        }
        loss
    }
}

/// An exact copy of a pixel vector.
fn copy_pixels(v: &Vec<Color>) -> (r: Vec<Color>)
    ensures
        r@ == v@,
{
    let mut out: Vec<Color> = Vec::new();
    let mut i: usize = 0;
    while i < v.len()
        invariant
            i <= v@.len(),
            out@ =~= v@.take(i as int),
        decreases v@.len() - i,
    {
        out.push(v[i]);
        proof {
            assert(out@ =~= v@.take(i + 1));
        }
        i = i + 1;
    }
    proof {
        assert(v@.take(v@.len() as int) =~= v@);
    }
    out
}

/// What a conversion against a fixed palette `pal` guarantees: without
/// a color cap every pixel snaps to its nearest entry; with a cap of
/// `n`, the output draws from a working palette of `n` colors, each of
/// which is a snapped color. The loss is always the image distance
/// between input and output under the selected metric.
pub open spec fn fixed_convert_ok(
    pal: Seq<Color>,
    pixels: Seq<Color>,
    options: ColorOptions,
    out: Seq<Color>,
    loss: u64,
) -> bool {
    &&& out.len() == pixels.len()
    &&& loss as int == image_diff_spec(options.loss, pixels, out)
    &&& match options.num_colors {
        None => forall|i: int| 0 <= i < pixels.len() ==> out[i] == snap_spec(pal, pixels[i]),
        Some(n) => exists|work: Seq<Color>|
            {
                &&& work.len() == n
                &&& (forall|j: int|
                    #![trigger work[j]]
                    0 <= j < work.len() ==> exists|c: Color| work[j] == #[trigger] snap_spec(
                        pal,
                        c,
                    ))
                &&& (forall|i: int| 0 <= i < out.len() ==> work.contains(out[i]))
            },
    }
}

/// Which inputs a fixed-palette conversion accepts: a non-empty palette
/// and, when a cap is given, one that dithering supports.
pub open spec fn fixed_ok_input(pal: Seq<Color>, options: ColorOptions) -> bool {
    pal.len() > 0 && cap_ok(options)
}

/// Convert an image against a fixed palette: with a color cap, build a
/// working palette from the image, snap its entries into the fixed
/// palette and dither; without one, snap every pixel directly.
fn fixed_convert(palette: &Vec<Color>, image: &PixelBuffer, options: ColorOptions) -> (r: (
    Vec<Color>,
    u64,
))
    requires
        image.wf(),
        image.pixels@.len() * MAX_COLOR_DIFF <= u64::MAX,
        fixed_ok_input(palette@, options),
    ensures
        fixed_convert_ok(palette@, image.pixels@, options, r.0@, r.1),
{
    let converted: Vec<Color> = match options.num_colors {
        Some(n) => {
            let built = build_palette(&image.pixels, n);
            let mut snapped: Vec<Color> = Vec::new();
            let mut j: usize = 0;
            while j < built.len()
                invariant
                    j <= built@.len(),
                    palette@.len() > 0,
                    snapped@.len() == j,
                    forall|t: int| 0 <= t < j ==> snapped@[t] == snap_spec(palette@, built@[t]),
                decreases built@.len() - j,
            {
                let s = nearest_in_palette(palette, built[j]);
                snapped.push(s);
                j = j + 1;
            }
            proof {
                if image.pixels@.len() > 0 {
                    assert(image.width as int * image.height as int > 0);
                    assert(image.width >= 1) by (nonlinear_arith)
                        requires
                            image.width as int * image.height as int > 0,
                    ;
                }
            }
            let idx = dither_remap(&snapped, &image.pixels, image.width as usize);
            let mut out: Vec<Color> = Vec::new();
            let mut i: usize = 0;
            while i < idx.len()
                invariant
                    i <= idx@.len(),
                    out@.len() == i,
                    snapped@.len() == n,
                    forall|t: int| 0 <= t < idx@.len() ==> idx@[t] < snapped@.len(),
                    forall|t: int|
                        0 <= t < i ==> out@[t] == snapped@[idx@[t] as int],
                decreases idx@.len() - i,
            {
                out.push(snapped[idx[i]]);
                i = i + 1;
            }
            proof {
                assert(forall|t: int|
                    0 <= t < out@.len() ==> #[trigger] snapped@.contains(out@[t])) by {
                    assert forall|t: int| 0 <= t < out@.len() implies #[trigger] snapped@.contains(
                        out@[t],
                    ) by {
                        assert(snapped@[idx@[t] as int] == out@[t]);
                    }
                }
            }
            out
        },
        None => {
            let mut out: Vec<Color> = Vec::new();
            let mut i: usize = 0;
            while i < image.pixels.len()
                invariant
                    i <= image.pixels@.len(),
                    palette@.len() > 0,
                    out@.len() == i,
                    forall|t: int|
                        0 <= t < i ==> out@[t] == snap_spec(palette@, image.pixels@[t]),
                decreases image.pixels@.len() - i,
            {
                let s = nearest_in_palette(palette, image.pixels[i]);
                out.push(s);
                i = i + 1;
            }
            out
        },
    };
    let loss = options.loss.image_diff(&image.pixels, &converted);
    (converted, loss)
}

/// Every pixel that a fixed-palette conversion produces is exactly one
/// entry of the palette, with or without a color cap, provided the
/// palette's entries are opaque.
pub proof fn lemma_fixed_palette_output_in_palette(
    pal: Seq<Color>,
    pixels: Seq<Color>,
    options: ColorOptions,
    out: Seq<Color>,
    loss: u64,
)
    requires
        fixed_convert_ok(pal, pixels, options, out, loss),
        pal.len() > 0,
        forall|j: int| 0 <= j < pal.len() ==> pal[j].a == 255,
    ensures
        forall|i: int| 0 <= i < out.len() ==> pal.contains(out[i]),
{
    assert forall|i: int| 0 <= i < out.len() implies pal.contains(out[i]) by {
        match options.num_colors {
            None => {
                assert(out[i] == snap_spec(pal, pixels[i]));
                lemma_nearest_index(pal, pixels[i]);
                let n = nearest_index(pal, pixels[i]);
                assert(pal[n] == out[i]);
            },
            Some(_n) => {
                let work = choose|work: Seq<Color>|
                    {
                        &&& work.len() == options.num_colors->0
                        &&& (forall|j: int|
                            #![trigger work[j]]
                            0 <= j < work.len() ==> exists|c: Color| work[j]
                                == #[trigger] snap_spec(pal, c))
                        &&& (forall|t: int| 0 <= t < out.len() ==> work.contains(out[t]))
                    };
                assert(work.contains(out[i]));
                let j = choose|j: int| 0 <= j < work.len() && work[j] == out[i];
                let c = choose|c: Color| work[j] == snap_spec(pal, c);
                lemma_nearest_index(pal, c);
                let n = nearest_index(pal, c);
                assert(pal[n] == out[i]);
            },
        }
    }
}

/// An opaque color whose RGB channels already occur in the palette
/// snaps to itself.
pub proof fn lemma_snap_fixpoint(palette: Seq<Color>, c: Color)
    requires
        palette.len() > 0,
        c.a == 255,
        exists|j: int|
            0 <= j < palette.len() && palette[j].r == c.r && palette[j].g == c.g && palette[j].b
                == c.b,
    ensures
        snap_spec(palette, c) == c,
{
    let j = choose|j: int|
        0 <= j < palette.len() && palette[j].r == c.r && palette[j].g == c.g && palette[j].b
            == c.b;
    lemma_l2_sq_zero(palette[j], c);
    lemma_nearest_index(palette, c);
    let n = nearest_index(palette, c);
    lemma_l2_sq_nonneg(palette[n], c);
    assert(l2_sq(palette[n], c) == 0);
    lemma_l2_sq_zero(palette[n], c);
}

/// Converting an image whose pixels all occur in the palette, without
/// a color cap, reproduces the image exactly with zero loss.
pub proof fn lemma_fixed_palette_fixpoint(
    pal: Seq<Color>,
    pixels: Seq<Color>,
    options: ColorOptions,
    out: Seq<Color>,
    loss: u64,
)
    requires
        fixed_convert_ok(pal, pixels, options, out, loss),
        options.num_colors is None,
        pal.len() > 0,
        forall|i: int|
            #![trigger pixels[i]]
            0 <= i < pixels.len() ==> pixels[i].a == 255 && pal.contains(pixels[i]),
    ensures
        out =~= pixels,
        loss == 0,
{
    assert forall|i: int| 0 <= i < pixels.len() implies out[i] == pixels[i] by {
        let j = choose|j: int| 0 <= j < pal.len() && pal[j] == pixels[i];
        lemma_snap_fixpoint(pal, pixels[i]);
    }
    assert(out =~= pixels);
    lemma_image_diff_self(options.loss, pixels);
}


/// What a conversion through a per-pixel mapper guarantees: without a
/// color cap every pixel is mapped; with a cap of `n`, the output draws
/// from a working palette of `n` colors, each in the mapper's range.
/// The loss is always the image distance between input and output under
/// the selected metric.
pub open spec fn mapping_convert_ok<M: ColorMapper>(
    mapper: M,
    pixels: Seq<Color>,
    options: ColorOptions,
    out: Seq<Color>,
    loss: u64,
) -> bool {
    &&& out.len() == pixels.len()
    &&& loss as int == image_diff_spec(options.loss, pixels, out)
    &&& match options.num_colors {
        None => forall|i: int| 0 <= i < pixels.len() ==> out[i] == mapper.map_spec(pixels[i]),
        Some(n) => exists|work: Seq<Color>|
            {
                &&& work.len() == n
                &&& (forall|j: int|
                    #![trigger work[j]]
                    0 <= j < work.len() ==> exists|c: Color| work[j] == #[trigger] mapper.map_spec(
                        c,
                    ))
                &&& (forall|i: int| 0 <= i < out.len() ==> work.contains(out[i]))
            },
    }
}

/// Convert an image through a per-pixel mapper: map every pixel, and
/// with a color cap additionally quantize the mapped image to a built
/// palette (itself mapped) and dither against it.
fn mapping_convert<M: ColorMapper>(mapper: &M, image: &PixelBuffer, options: ColorOptions) -> (r:
    (Vec<Color>, u64))
    requires
        image.wf(),
        image.pixels@.len() * MAX_COLOR_DIFF <= u64::MAX,
        cap_ok(options),
    ensures
        mapping_convert_ok(*mapper, image.pixels@, options, r.0@, r.1),
{
    let mut mapped: Vec<Color> = Vec::new();
    let mut i: usize = 0;
    while i < image.pixels.len()
        invariant
            i <= image.pixels@.len(),
            mapped@.len() == i,
            forall|t: int| 0 <= t < i ==> mapped@[t] == mapper.map_spec(image.pixels@[t]),
        decreases image.pixels@.len() - i,
    {
        let c = mapper.convert_color(image.pixels[i]);
        mapped.push(c);
        i = i + 1;
    }
    let converted: Vec<Color> = match options.num_colors {
        Some(n) => {
            let built = build_palette(&mapped, n);
            let mut snapped: Vec<Color> = Vec::new();
            let mut j: usize = 0;
            while j < built.len()
                invariant
                    j <= built@.len(),
                    snapped@.len() == j,
                    forall|t: int|
                        0 <= t < j ==> snapped@[t] == mapper.map_spec(built@[t]),
                decreases built@.len() - j,
            {
                let s = mapper.convert_color(built[j]);
                snapped.push(s);
                j = j + 1;
            }
            proof {
                if mapped@.len() > 0 {
                    assert(image.width as int * image.height as int > 0);
                    assert(image.width >= 1) by (nonlinear_arith)
                        requires
                            image.width as int * image.height as int > 0,
                    ;
                }
            }
            let idx = dither_remap(&snapped, &mapped, image.width as usize);
            let mut out: Vec<Color> = Vec::new();
            let mut k: usize = 0;
            while k < idx.len()
                invariant
                    k <= idx@.len(),
                    out@.len() == k,
                    snapped@.len() == n,
                    forall|t: int| 0 <= t < idx@.len() ==> idx@[t] < snapped@.len(),
                    forall|t: int|
                        0 <= t < k ==> out@[t] == snapped@[idx@[t] as int],
                decreases idx@.len() - k,
            {
                out.push(snapped[idx[k]]);
                k = k + 1;
            }
            proof {
                assert forall|t: int| 0 <= t < out@.len() implies #[trigger] snapped@.contains(
                    out@[t],
                ) by {
                    assert(snapped@[idx@[t] as int] == out@[t]);
                }
            }
            out
        },
        None => mapped,
    };
    let loss = options.loss.image_diff(&image.pixels, &converted);
    (converted, loss)
}

/// The 18-bit VGA channel mapping: keep the 6 high bits and replicate
/// the top 2 bits into the cleared low bits.
pub open spec fn vga18_channel(x: u8) -> u8 {
    (x & 0xFC) | (x >> 6)
}

/// The 5-bit channel mapping of 16-bit high color: keep the 5 high bits
/// and replicate the top 3 bits into the cleared low bits.
pub open spec fn vga16_channel5(x: u8) -> u8 {
    (x & 0xF8) | (x >> 5)
}

/// True 24-bit color, 8 bits per channel, virtually no limit in color
/// depth: the identity mapping.
#[derive(Debug, Default, Copy, Clone)]
pub struct TrueColor24BitMapper;

impl ColorMapper for TrueColor24BitMapper {
    open spec fn map_spec(&self, c: Color) -> Color {
        c
    }

    fn convert_color(&self, c: Color) -> (r: Color) {
        c
    }
}

/// The per-pixel mapping of VGA 18-bit color: 6 bits per channel.
#[derive(Debug, Default, Copy, Clone)]
pub struct Vga18BitMapper;

impl ColorMapper for Vga18BitMapper {
    open spec fn map_spec(&self, c: Color) -> Color {
        Color { r: vga18_channel(c.r), g: vga18_channel(c.g), b: vga18_channel(c.b), a: c.a }
    }

    fn convert_color(&self, c: Color) -> (r: Color) {
        Color { r: (c.r & 0xFC) | (c.r >> 6), g: (c.g & 0xFC) | (c.g >> 6), b: (c.b & 0xFC) | (
        c.b >> 6), a: c.a }
    }
}

/// The per-pixel mapping of VGA 16-bit high color: 5 bits for red and
/// blue, 6 bits for green.
#[derive(Debug, Default, Copy, Clone)]
pub struct Vga16BitMapper;

impl ColorMapper for Vga16BitMapper {
    open spec fn map_spec(&self, c: Color) -> Color {
        Color { r: vga16_channel5(c.r), g: vga18_channel(c.g), b: vga16_channel5(c.b), a: c.a }
    }

    fn convert_color(&self, c: Color) -> (r: Color) {
        Color { r: (c.r & 0xF8) | (c.r >> 5), g: (c.g & 0xFC) | (c.g >> 6), b: (c.b & 0xF8) | (
        c.b >> 5), a: c.a }
    }
}

/// A color depth implementation defined by a per-pixel color mapping.
#[derive(Debug, Default, Copy, Clone)]
pub struct MappingColorDepth<M>(pub M);

impl<M: ColorMapper> ColorMapper for MappingColorDepth<M> {
    open spec fn map_spec(&self, c: Color) -> Color {
        self.0.map_spec(c)
    }

    fn convert_color(&self, c: Color) -> (r: Color) {
        self.0.convert_color(c)
    }
}

/// True 24-bit color: the identity conversion.
pub type TrueColor24Bit = MappingColorDepth<TrueColor24BitMapper>;

impl TrueColor24Bit {
    /// The true-color strategy.
    pub fn new() -> (r: Self) {
        MappingColorDepth(TrueColor24BitMapper)
    }
}

/// VGA 18-bit color (64 levels per channel).
pub type Vga18Bit = MappingColorDepth<Vga18BitMapper>;

impl Vga18Bit {
    /// The VGA 18-bit strategy.
    pub fn new() -> (r: Self) {
        MappingColorDepth(Vga18BitMapper)
    }
}

/// VGA 16-bit color, also called High color mode in legacy systems
/// (5 bits for red and blue channels, 6 bits for green).
pub type Vga16Bit = MappingColorDepth<Vga16BitMapper>;

impl Vga16Bit {
    /// The VGA 16-bit strategy.
    pub fn new() -> (r: Self) {
        MappingColorDepth(Vga16BitMapper)
    }
}

impl ColorDepth for MappingColorDepth<TrueColor24BitMapper> {
    /// True color accepts every image and option set.
    open spec fn ok_input(&self, pixels: Seq<Color>, options: ColorOptions) -> bool {
        true
    }

    /// True color returns the input unchanged with loss zero, whatever
    /// the color cap.
    open spec fn convert_ok(
        &self,
        pixels: Seq<Color>,
        options: ColorOptions,
        out: Seq<Color>,
        loss: u64,
    ) -> bool {
        out == pixels && loss == 0
    }

    proof fn lemma_convert_ok(
        &self,
        pixels: Seq<Color>,
        options: ColorOptions,
        out: Seq<Color>,
        loss: u64,
    ) {
        lemma_image_diff_self(options.loss, pixels);
    }

    fn convert_image_with_loss(&self, image: &PixelBuffer, options: ColorOptions) -> (r: (
        Vec<Color>,
        u64,
    )) {
        (copy_pixels(&image.pixels), 0)
    }
}

impl ColorDepth for MappingColorDepth<Vga18BitMapper> {
    open spec fn ok_input(&self, pixels: Seq<Color>, options: ColorOptions) -> bool {
        cap_ok(options)
    }

    open spec fn convert_ok(
        &self,
        pixels: Seq<Color>,
        options: ColorOptions,
        out: Seq<Color>,
        loss: u64,
    ) -> bool {
        mapping_convert_ok(self.0, pixels, options, out, loss)
    }

    proof fn lemma_convert_ok(
        &self,
        pixels: Seq<Color>,
        options: ColorOptions,
        out: Seq<Color>,
        loss: u64,
    ) {
    }

    fn convert_image_with_loss(&self, image: &PixelBuffer, options: ColorOptions) -> (r: (
        Vec<Color>,
        u64,
    )) {
        mapping_convert(&self.0, image, options)
    }
}

impl ColorDepth for MappingColorDepth<Vga16BitMapper> {
    open spec fn ok_input(&self, pixels: Seq<Color>, options: ColorOptions) -> bool {
        cap_ok(options)
    }

    open spec fn convert_ok(
        &self,
        pixels: Seq<Color>,
        options: ColorOptions,
        out: Seq<Color>,
        loss: u64,
    ) -> bool {
        mapping_convert_ok(self.0, pixels, options, out, loss)
    }

    proof fn lemma_convert_ok(
        &self,
        pixels: Seq<Color>,
        options: ColorOptions,
        out: Seq<Color>,
        loss: u64,
    ) {
    }

    fn convert_image_with_loss(&self, image: &PixelBuffer, options: ColorOptions) -> (r: (
        Vec<Color>,
        u64,
    )) {
        mapping_convert(&self.0, image, options)
    }
}

/// Color depth defined by a hardware-level palette of colors.
#[derive(Debug, Clone)]
pub struct FixedPalette(pub Vec<Color>);

impl FixedPalette {
    /// The nearest entry of the palette to the given pixel, as an
    /// opaque color; ties go to the earliest entry.
    pub fn convert_color(&self, pixel: Color) -> (r: Color)
        requires
            self.0@.len() > 0,
        ensures
            r == snap_spec(self.0@, pixel),
    {
        nearest_in_palette(&self.0, pixel)
    }
}

impl ColorDepth for FixedPalette {
    /// The palette must be non-empty, and a cap must be ditherable.
    open spec fn ok_input(&self, pixels: Seq<Color>, options: ColorOptions) -> bool {
        fixed_ok_input(self.0@, options)
    }

    open spec fn convert_ok(
        &self,
        pixels: Seq<Color>,
        options: ColorOptions,
        out: Seq<Color>,
        loss: u64,
    ) -> bool {
        fixed_convert_ok(self.0@, pixels, options, out, loss)
    }

    proof fn lemma_convert_ok(
        &self,
        pixels: Seq<Color>,
        options: ColorOptions,
        out: Seq<Color>,
        loss: u64,
    ) {
    }

    fn convert_image_with_loss(&self, image: &PixelBuffer, options: ColorOptions) -> (r: (
        Vec<Color>,
        u64,
    )) {
        fixed_convert(&self.0, image, options)
    }
}

/// Color depth emulating a combination of one freely selectable
/// background color (drawn from the first palette) with a small set of
/// fixed foreground colors (the second palette).
#[derive(Debug, Clone)]
pub struct BackForePalette(pub Vec<Color>, pub Vec<Color>);

impl BackForePalette {
    /// The palette this strategy effectively converts against: the
    /// foreground colors plus the image's median color snapped into the
    /// background palette.
    pub open spec fn augmented_spec(&self, pixels: Seq<Color>) -> Seq<Color> {
        self.1@.push(snap_spec(self.0@, median_color(pixels)))
    }
}

impl ColorDepth for BackForePalette {
    /// The image must be non-empty (a background color is derived from
    /// it), the background palette non-empty, and a cap ditherable.
    open spec fn ok_input(&self, pixels: Seq<Color>, options: ColorOptions) -> bool {
        pixels.len() > 0 && self.0@.len() > 0 && cap_ok(options)
    }

    /// The conversion behaves exactly like a `FixedPalette` over the
    /// augmented palette.
    open spec fn convert_ok(
        &self,
        pixels: Seq<Color>,
        options: ColorOptions,
        out: Seq<Color>,
        loss: u64,
    ) -> bool {
        fixed_convert_ok(self.augmented_spec(pixels), pixels, options, out, loss)
    }

    proof fn lemma_convert_ok(
        &self,
        pixels: Seq<Color>,
        options: ColorOptions,
        out: Seq<Color>,
        loss: u64,
    ) {
    }

    fn convert_image_with_loss(&self, image: &PixelBuffer, options: ColorOptions) -> (r: (
        Vec<Color>,
        u64,
    )) {
        // identify the background color: the median color of the image,
        // snapped into the background palette
        let bkg = color_median(&image.pixels);
        let bkg = nearest_in_palette(&self.0, bkg);
        // then convert against the foreground palette plus that color
        let mut augmented = copy_pixels(&self.1);
        augmented.push(bkg);
        fixed_convert(&augmented, image, options)
    }
}

/// What holds of a best-of-N selection: `results` collects one
/// acceptable result per candidate, and the returned pair is the first
/// result with the numerically smallest loss.
pub open spec fn best_choice<P: ColorDepth>(
    candidates: Seq<P>,
    pixels: Seq<Color>,
    options: ColorOptions,
    results: Seq<(Seq<Color>, u64)>,
    k: int,
    out: Seq<Color>,
    loss: u64,
) -> bool {
    &&& results.len() == candidates.len()
    &&& (forall|j: int|
        #![trigger results[j]]
        0 <= j < results.len() ==> candidates[j].convert_ok(
            pixels,
            options,
            results[j].0,
            results[j].1,
        ))
    &&& 0 <= k < results.len()
    &&& out == results[k].0
    &&& loss == results[k].1
    &&& (forall|j: int| #![trigger results[j]] 0 <= j < results.len() ==> loss <= results[j].1)
    &&& (forall|j: int| #![trigger results[j]] 0 <= j < k ==> loss < results[j].1)
}

/// A collection of palettes; the one yielding the lowest loss is used,
/// ties broken by first-encountered order.
#[derive(Debug, Clone)]
pub struct BestPalette<P>(pub Vec<P>);

impl<P: ColorDepth> ColorDepth for BestPalette<P> {
    /// There must be at least one candidate, and every candidate must
    /// accept the input.
    open spec fn ok_input(&self, pixels: Seq<Color>, options: ColorOptions) -> bool {
        &&& self.0@.len() > 0
        &&& forall|k: int|
            0 <= k < self.0@.len() ==> #[trigger] self.0@[k].ok_input(pixels, options)
    }

    /// The result is one candidate's acceptable result, and its loss is
    /// the minimum over one acceptable result per candidate.
    open spec fn convert_ok(
        &self,
        pixels: Seq<Color>,
        options: ColorOptions,
        out: Seq<Color>,
        loss: u64,
    ) -> bool {
        exists|results: Seq<(Seq<Color>, u64)>, k: int|
            best_choice(self.0@, pixels, options, results, k, out, loss)
    }

    proof fn lemma_convert_ok(
        &self,
        pixels: Seq<Color>,
        options: ColorOptions,
        out: Seq<Color>,
        loss: u64,
    ) {
        let (results, k): (Seq<(Seq<Color>, u64)>, int) = choose|
            results: Seq<(Seq<Color>, u64)>,
            k: int,
        | best_choice(self.0@, pixels, options, results, k, out, loss);
        self.0@[k].lemma_convert_ok(pixels, options, results[k].0, results[k].1);
    }

    fn convert_image_with_loss(&self, image: &PixelBuffer, options: ColorOptions) -> (r: (
        Vec<Color>,
        u64,
    )) {
        let ghost pixels = image.pixels@;
        let first = self.0[0].convert_image_with_loss(image, options);
        let mut best_out = first.0;
        let mut best_loss = first.1;
        let ghost mut results: Seq<(Seq<Color>, u64)> = seq![(best_out@, best_loss)];
        let ghost mut best_k: int = 0;
        let mut i: usize = 1;
        while i < self.0.len()
            invariant
                image.wf(),
                pixels == image.pixels@,
                image.pixels@.len() * MAX_COLOR_DIFF <= u64::MAX,
                self.0@.len() > 0,
                forall|k: int|
                    0 <= k < self.0@.len() ==> #[trigger] self.0@[k].ok_input(pixels, options),
                1 <= i <= self.0@.len(),
                results.len() == i,
                forall|j: int|
                    #![trigger results[j]]
                    0 <= j < i ==> self.0@[j].convert_ok(
                        pixels,
                        options,
                        results[j].0,
                        results[j].1,
                    ),
                0 <= best_k < i,
                best_out@ == results[best_k].0,
                best_loss == results[best_k].1,
                forall|j: int| #![trigger results[j]] 0 <= j < i ==> best_loss <= results[j].1,
                forall|j: int| #![trigger results[j]] 0 <= j < best_k ==> best_loss < results[j].1,
            decreases self.0@.len() - i,
        {
            let r = self.0[i].convert_image_with_loss(image, options);
            proof {
                results = results.push((r.0@, r.1));
            }
            if r.1 < best_loss {
                best_out = r.0;
                best_loss = r.1;
                proof {
                    best_k = i as int;
                }
            }
            i = i + 1;
        }
        proof {
            assert(best_choice(self.0@, pixels, options, results, best_k, best_out@, best_loss));
        }
        (best_out, best_loss)
    }
}

} // verus!
