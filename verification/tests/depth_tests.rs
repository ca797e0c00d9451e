use retroimg::color::cga::{
    cga_4bit, cga_mode4_1_high, palette_cga_4bit, palette_cga_mode4, palette_cga_mode4_0_high,
    palette_cga_mode4_0_low, palette_cga_mode4_1_high, palette_cga_mode4_1_low,
};
use retroimg::color::ega::ega_6bit;
use retroimg::color::{
    build_palette, palette_bw_1bit, BackForePalette, BestPalette, Color, ColorDepth, ColorOptions,
    FixedPalette, LossAlgorithm, PixelBuffer, TrueColor24Bit, Vga16Bit, Vga18Bit,
};

fn c(r: u8, g: u8, b: u8) -> Color {
    Color::opaque(r, g, b)
}

fn image(width: u32, height: u32, pixels: Vec<Color>) -> PixelBuffer {
    PixelBuffer::new(width, height, pixels).unwrap()
}

fn no_cap() -> ColorOptions {
    ColorOptions { num_colors: None, loss: LossAlgorithm::L2 }
}

fn cap(n: u32) -> ColorOptions {
    ColorOptions { num_colors: Some(n), loss: LossAlgorithm::L2 }
}

#[test]
fn true_color_is_identity_with_zero_loss() {
    // a 2x2 image of pure red pixels
    let red = c(255, 0, 0);
    let img = image(2, 2, vec![red; 4]);
    let (pixels, loss) = TrueColor24Bit::new().convert_image_with_loss(&img, no_cap());
    assert_eq!(pixels, vec![red; 4]);
    assert_eq!(loss, 0);
    // true color ignores the color cap entirely
    let mixed = image(2, 2, vec![c(1, 2, 3), c(4, 5, 6), c(7, 8, 9), c(10, 11, 12)]);
    let (pixels, loss) = TrueColor24Bit::new().convert_image_with_loss(&mixed, cap(2));
    assert_eq!(pixels, mixed.pixels);
    assert_eq!(loss, 0);
}

#[test]
fn bw_palette_maps_bw_image_to_itself() {
    let black = c(0, 0, 0);
    let white = c(255, 255, 255);
    let img = image(3, 2, vec![black, white, white, black, black, white]);
    let (pixels, loss) = palette_bw_1bit().convert_image_with_loss(&img, no_cap());
    assert_eq!(pixels, img.pixels);
    assert_eq!(loss, 0);
}

#[test]
fn vga16_masks_mid_gray_uniformly() {
    let img = image(2, 2, vec![c(128, 128, 128); 4]);
    let (pixels, loss) = Vga16Bit::new().convert_image_with_loss(&img, no_cap());
    // 0x80 -> 0x84 on 5-bit channels, 0x80 -> 0x82 on the 6-bit green
    let expected = c(0x84, 0x82, 0x84);
    assert_eq!(pixels, vec![expected; 4]);
    // deterministic per-pixel mapping: the loss is 4 equal per-pixel distances
    let per_pixel = LossAlgorithm::L2.color_diff(c(128, 128, 128), expected);
    assert_eq!(loss, 4 * per_pixel);
}

#[test]
fn vga18_masks_channels() {
    let img = image(1, 1, vec![c(255, 128, 3)]);
    let (pixels, _) = Vga18Bit::new().convert_image_with_loss(&img, no_cap());
    assert_eq!(pixels, vec![c(0xFF, 0x82, 0x00)]);
}

#[test]
fn fixed_palette_output_is_always_palette_entries() {
    let palette = palette_cga_4bit();
    let entries = cga_4bit();
    let img = image(
        2,
        3,
        vec![c(13, 200, 77), c(255, 1, 128), c(90, 90, 90), c(0, 0, 0), c(250, 250, 250), c(
            30, 64, 99,
        )],
    );
    let (pixels, loss) = palette.convert_image_with_loss(&img, no_cap());
    assert_eq!(pixels.len(), img.pixels.len());
    for p in &pixels {
        assert!(entries.contains(p), "{:?} is not a CGA entry", p);
    }
    // the reported loss is the image distance between input and output
    assert_eq!(loss, LossAlgorithm::L2.image_diff(&img.pixels, &pixels));
}

#[test]
fn fixed_palette_dithered_output_stays_in_palette() {
    let palette = palette_bw_1bit();
    let black = c(0, 0, 0);
    let white = c(255, 255, 255);
    let img = image(2, 2, vec![black, white, white, black]);
    let (pixels, loss) = palette.convert_image_with_loss(&img, cap(2));
    assert_eq!(pixels.len(), 4);
    for p in &pixels {
        assert!(*p == black || *p == white);
    }
    assert_eq!(loss, LossAlgorithm::L2.image_diff(&img.pixels, &pixels));
    // the two built palette colors snap onto black and white exactly, so
    // dithering reproduces the image with no loss
    assert_eq!(pixels, img.pixels);
    assert_eq!(loss, 0);
}

#[test]
fn convert_color_snaps_to_nearest_and_is_idempotent() {
    let palette = FixedPalette(vec![c(0, 0, 0), c(100, 100, 100), c(255, 255, 255)]);
    assert_eq!(palette.convert_color(c(10, 10, 10)), c(0, 0, 0));
    assert_eq!(palette.convert_color(c(90, 80, 110)), c(100, 100, 100));
    assert_eq!(palette.convert_color(c(200, 220, 210)), c(255, 255, 255));
    let samples = [c(0, 0, 0), c(51, 77, 99), c(128, 128, 128), c(254, 1, 130)];
    for &s in samples.iter() {
        let once = palette.convert_color(s);
        assert_eq!(palette.convert_color(once), once);
    }
    // ties go to the first entry in palette order
    let tie = FixedPalette(vec![c(0, 0, 0), c(2, 0, 0)]);
    assert_eq!(tie.convert_color(c(1, 0, 0)), c(0, 0, 0));
}

#[test]
fn build_palette_respects_color_count() {
    let pixels = vec![
        c(0, 0, 0),
        c(255, 0, 0),
        c(0, 255, 0),
        c(0, 0, 255),
        c(255, 255, 0),
        c(0, 255, 255),
        c(255, 0, 255),
        c(255, 255, 255),
    ];
    for n in [1u32, 2, 4, 7, 16] {
        let palette = build_palette(&pixels, n);
        assert!(palette.len() <= n as usize);
        assert_eq!(palette.len(), n as usize);
    }
}

#[test]
fn build_palette_duplicates_single_color() {
    // an image of one repeated color still yields the requested count
    let pixels = vec![c(200, 10, 10); 6];
    let palette = build_palette(&pixels, 4);
    assert_eq!(palette.len(), 4);
}

#[test]
fn empty_image_converts_to_empty() {
    let img = image(0, 0, vec![]);
    let (pixels, loss) = TrueColor24Bit::new().convert_image_with_loss(&img, no_cap());
    assert!(pixels.is_empty());
    assert_eq!(loss, 0);
    let (pixels, loss) = palette_cga_4bit().convert_image_with_loss(&img, cap(4));
    assert!(pixels.is_empty());
    assert_eq!(loss, 0);
    let (pixels, loss) = Vga18Bit::new().convert_image_with_loss(&img, cap(16));
    assert!(pixels.is_empty());
    assert_eq!(loss, 0);
}

#[test]
fn best_palette_picks_minimum_loss() {
    // deterministic candidates: fixed palettes without a color cap
    let img = image(2, 2, vec![c(250, 5, 5), c(250, 0, 0), c(255, 10, 0), c(240, 0, 10)]);
    let candidates = vec![
        FixedPalette(vec![c(0, 0, 255)]),
        FixedPalette(vec![c(255, 0, 0)]),
        FixedPalette(vec![c(0, 255, 0)]),
        FixedPalette(vec![c(254, 0, 0)]),
    ];
    let mut losses = Vec::new();
    for candidate in &candidates {
        losses.push(candidate.loss(&img, no_cap()));
    }
    let best = BestPalette(candidates);
    let (_, loss) = best.convert_image_with_loss(&img, no_cap());
    assert_eq!(loss, *losses.iter().min().unwrap());
}

#[test]
fn best_palette_breaks_ties_by_order() {
    let img = image(1, 1, vec![c(0, 0, 0)]);
    // both candidates convert the pixel identically; the first must win
    let first = FixedPalette(vec![c(10, 0, 0)]);
    let second = FixedPalette(vec![c(0, 10, 0)]);
    let best = BestPalette(vec![first, second]);
    let (pixels, _) = best.convert_image_with_loss(&img, no_cap());
    assert_eq!(pixels, vec![c(10, 0, 0)]);
}

#[test]
fn back_fore_palette_keeps_uniform_background() {
    // a uniform image of the exact CGA blue: the median is that blue,
    // which snaps to itself in the background palette and extends the
    // foreground colors, so conversion is the identity
    let blue = c(0, 0, 0xAA);
    let img = image(2, 2, vec![blue; 4]);
    let strategy = palette_cga_mode4_1_high();
    let (pixels, loss) = strategy.convert_image_with_loss(&img, no_cap());
    assert_eq!(pixels, vec![blue; 4]);
    assert_eq!(loss, 0);
}

#[test]
fn back_fore_palette_output_in_augmented_palette() {
    let img = image(2, 2, vec![c(17, 99, 203), c(40, 41, 42), c(200, 13, 150), c(90, 250, 3)]);
    let strategy = BackForePalette(cga_4bit(), cga_mode4_1_high());
    let (pixels, _) = strategy.convert_image_with_loss(&img, no_cap());
    // every output is a foreground color or a CGA background color
    let fore = cga_mode4_1_high();
    let back = cga_4bit();
    for p in &pixels {
        assert!(fore.contains(p) || back.contains(p));
    }
}

#[test]
fn cga_mode4_best_of_four_matches_candidates() {
    let img = image(2, 2, vec![c(0, 200, 0), c(10, 180, 30), c(200, 30, 10), c(90, 90, 90)]);
    let candidate_losses = vec![
        palette_cga_mode4_0_low().loss(&img, no_cap()),
        palette_cga_mode4_0_high().loss(&img, no_cap()),
        palette_cga_mode4_1_low().loss(&img, no_cap()),
        palette_cga_mode4_1_high().loss(&img, no_cap()),
    ];
    let (_, loss) = palette_cga_mode4().convert_image_with_loss(&img, no_cap());
    assert_eq!(loss, *candidate_losses.iter().min().unwrap());
}

#[test]
fn ega_palette_shape() {
    let palette = ega_6bit();
    assert_eq!(palette.len(), 64);
    assert_eq!(palette[0], c(0x00, 0x00, 0x00));
    assert_eq!(palette[63], c(0xFF, 0xFF, 0xFF));
    assert_eq!(palette[16], c(0x55, 0x00, 0x00));
    assert_eq!(palette[5], c(0x00, 0x55, 0x55));
    // all 64 entries are distinct
    for i in 0..64 {
        for j in (i + 1)..64 {
            assert_ne!(palette[i], palette[j]);
        }
    }
}

#[test]
fn conversion_works_with_color_cap_and_many_colors() {
    // a 4x4 image with 16 distinct colors, capped to 4
    let mut pixels = Vec::new();
    for i in 0..16u32 {
        pixels.push(c((i * 16) as u8, (255 - i * 10) as u8, (i * 3) as u8));
    }
    let img = image(4, 4, pixels);
    let (converted, loss) = Vga18Bit::new().convert_image_with_loss(&img, cap(4));
    assert_eq!(converted.len(), 16);
    // at most 4 distinct colors survive
    let mut distinct = Vec::new();
    for p in &converted {
        if !distinct.contains(p) {
            distinct.push(*p);
        }
    }
    assert!(distinct.len() <= 4);
    assert_eq!(loss, LossAlgorithm::L2.image_diff(&img.pixels, &converted));
}
