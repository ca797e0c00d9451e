use retroimg::color::{color_median, Color, ColorOptions, LossAlgorithm, PixelBuffer};

fn c(r: u8, g: u8, b: u8) -> Color {
    Color::opaque(r, g, b)
}

#[test]
fn color_diff_zero_on_self() {
    let samples = [c(0, 0, 0), c(255, 255, 255), c(12, 200, 7), c(128, 128, 128)];
    for &color in samples.iter() {
        assert_eq!(LossAlgorithm::L1.color_diff(color, color), 0);
        assert_eq!(LossAlgorithm::L2.color_diff(color, color), 0);
    }
}

#[test]
fn color_diff_symmetric() {
    let pairs = [
        (c(0, 0, 0), c(255, 255, 255)),
        (c(10, 20, 30), c(30, 20, 10)),
        (c(1, 0, 0), c(0, 0, 1)),
        (c(200, 100, 50), c(50, 100, 200)),
    ];
    for &(a, b) in pairs.iter() {
        assert_eq!(
            LossAlgorithm::L1.color_diff(a, b),
            LossAlgorithm::L1.color_diff(b, a)
        );
        assert_eq!(
            LossAlgorithm::L2.color_diff(a, b),
            LossAlgorithm::L2.color_diff(b, a)
        );
    }
}

#[test]
fn color_diff_exact_values() {
    // a 3-4-0 difference: L1 = 7, L2 = sqrt(25) = 5
    assert_eq!(LossAlgorithm::L1.color_diff(c(0, 0, 0), c(3, 4, 0)), 7);
    assert_eq!(LossAlgorithm::L2.color_diff(c(0, 0, 0), c(3, 4, 0)), 5);
    // the largest possible difference: L1 = 765, L2 = floor(sqrt(195075)) = 441
    assert_eq!(LossAlgorithm::L1.color_diff(c(0, 0, 0), c(255, 255, 255)), 765);
    assert_eq!(LossAlgorithm::L2.color_diff(c(0, 0, 0), c(255, 255, 255)), 441);
    // alpha is ignored
    let opaque = Color::new(5, 5, 5, 255);
    let clear = Color::new(5, 5, 5, 0);
    assert_eq!(LossAlgorithm::L1.color_diff(opaque, clear), 0);
    assert_eq!(LossAlgorithm::L2.color_diff(opaque, clear), 0);
}

#[test]
fn image_diff_sums_pixel_diffs() {
    let a = vec![c(0, 0, 0), c(10, 0, 0)];
    let b = vec![c(0, 0, 5), c(10, 20, 0)];
    assert_eq!(LossAlgorithm::L1.image_diff(&a, &b), 5 + 20);
    assert_eq!(LossAlgorithm::L2.image_diff(&a, &b), 5 + 20);
    assert_eq!(LossAlgorithm::L1.image_diff(&a, &a), 0);
}

#[test]
fn loss_algorithm_from_str() {
    assert_eq!(LossAlgorithm::from_str("L1"), Ok(LossAlgorithm::L1));
    assert_eq!(LossAlgorithm::from_str("l1"), Ok(LossAlgorithm::L1));
    assert_eq!(LossAlgorithm::from_str("L2"), Ok(LossAlgorithm::L2));
    assert_eq!(LossAlgorithm::from_str("l2"), Ok(LossAlgorithm::L2));
    assert!(LossAlgorithm::from_str("L3").is_err());
    assert!(LossAlgorithm::from_str("").is_err());
    assert!(LossAlgorithm::from_str("euclidean").is_err());
    assert_eq!(LossAlgorithm::L1.as_str(), "L1");
    assert_eq!(LossAlgorithm::L2.as_str(), "L2");
    let err = LossAlgorithm::from_str("L3").unwrap_err();
    assert_eq!(
        err.message(),
        "invalid distance/loss algorithm, should be \"L1\" or \"L2\""
    );
}

#[test]
fn default_options_are_unlimited_l2() {
    let options = ColorOptions::default();
    assert_eq!(options.num_colors, None);
    assert_eq!(options.loss, LossAlgorithm::default());
    assert_eq!(options.loss, LossAlgorithm::L2);
}

#[test]
fn pixel_buffer_checks_dimensions() {
    assert!(PixelBuffer::new(2, 2, vec![c(0, 0, 0); 4]).is_some());
    assert!(PixelBuffer::new(2, 2, vec![c(0, 0, 0); 3]).is_none());
    assert!(PixelBuffer::new(0, 5, vec![]).is_some());
    let buffer = PixelBuffer::new(1, 1, vec![Color::new(1, 2, 3, 0)]).unwrap();
    // alpha is normalized on ingestion
    assert_eq!(buffer.pixels[0], Color::new(1, 2, 3, 255));
}

#[test]
fn pixel_buffer_rgb_byte_round_trip() {
    let bytes = vec![1u8, 2, 3, 4, 5, 6];
    let buffer = PixelBuffer::from_rgb_bytes(2, 1, &bytes).unwrap();
    assert_eq!(buffer.pixels, vec![c(1, 2, 3), c(4, 5, 6)]);
    assert_eq!(buffer.to_rgb_bytes(), bytes);
    assert!(PixelBuffer::from_rgb_bytes(2, 1, &vec![1u8, 2, 3]).is_none());
}

#[test]
fn median_is_per_channel() {
    let colors = vec![c(1, 10, 100), c(2, 30, 200), c(3, 20, 50)];
    assert_eq!(color_median(&colors), c(2, 20, 100));
    // even lengths pick the upper middle of the sorted channel values
    let colors = vec![c(1, 1, 1), c(2, 2, 2), c(3, 3, 3), c(4, 4, 4)];
    assert_eq!(color_median(&colors), c(3, 3, 3));
    // the median can be a synthetic color present in no pixel
    let colors = vec![c(0, 9, 0), c(9, 0, 9), c(5, 5, 5)];
    assert_eq!(color_median(&colors), c(5, 5, 5));
    let single = vec![c(7, 8, 9)];
    assert_eq!(color_median(&single), c(7, 8, 9));
}
