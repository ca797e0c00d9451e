use retroimg::parse::{parse_ratio, parse_rect, parse_resolution, ColorStandard, ParseError};
use retroimg::{resolution_inputs_ok, resolve_output_resolution, AspectRatio, ResolutionError};

#[test]
fn resolution_parses_two_components() {
    assert_eq!(parse_resolution("427x200"), Ok((427, 200)));
    assert_eq!(parse_resolution("1x1"), Ok((1, 1)));
    assert_eq!(parse_resolution("+12x007"), Ok((12, 7)));
    assert_eq!(parse_resolution("427"), Err(ParseError::WrongCount));
    assert_eq!(parse_resolution("1x2x3"), Err(ParseError::WrongCount));
    assert_eq!(parse_resolution("ax2"), Err(ParseError::BadNumber));
    assert_eq!(parse_resolution("x2"), Err(ParseError::BadNumber));
    assert_eq!(parse_resolution("4294967295x1"), Ok((4294967295, 1)));
    assert_eq!(parse_resolution("4294967296x1"), Err(ParseError::BadNumber));
}

#[test]
fn rect_parses_four_components() {
    assert_eq!(parse_rect("20,50,80,50"), Ok((20, 50, 80, 50)));
    assert_eq!(parse_rect("0,0,1,1"), Ok((0, 0, 1, 1)));
    assert_eq!(parse_rect("20,50,80"), Err(ParseError::WrongCount));
    assert_eq!(parse_rect("20,50,80,50,1"), Err(ParseError::WrongCount));
    assert_eq!(parse_rect("20,50,80,-1"), Err(ParseError::BadNumber));
    assert_eq!(parse_rect("20,50,80,"), Err(ParseError::BadNumber));
}

#[test]
fn ratio_parses_and_rejects_zero_height() {
    assert_eq!(parse_ratio("4:3"), Ok(AspectRatio { numer: 4, denom: 3 }));
    assert_eq!(parse_ratio("10:11"), Ok(AspectRatio { numer: 10, denom: 11 }));
    assert_eq!(parse_ratio("4:0"), Err(ParseError::BadNumber));
    assert_eq!(parse_ratio("4"), Err(ParseError::WrongCount));
    assert_eq!(parse_ratio("4:3:2"), Err(ParseError::WrongCount));
    assert_eq!(parse_ratio("a:b"), Err(ParseError::BadNumber));
}

#[test]
fn color_standard_names_are_case_insensitive() {
    assert_eq!(ColorStandard::from_str("true"), Ok(ColorStandard::True24Bit));
    assert_eq!(ColorStandard::from_str("24bit"), Ok(ColorStandard::True24Bit));
    assert_eq!(ColorStandard::from_str("vga"), Ok(ColorStandard::Vga18Bit));
    assert_eq!(ColorStandard::from_str("VGA"), Ok(ColorStandard::Vga18Bit));
    assert_eq!(ColorStandard::from_str("18bit"), Ok(ColorStandard::Vga18Bit));
    assert_eq!(ColorStandard::from_str("high"), Ok(ColorStandard::Vga16Bit));
    assert_eq!(ColorStandard::from_str("16bit"), Ok(ColorStandard::Vga16Bit));
    assert_eq!(ColorStandard::from_str("cga"), Ok(ColorStandard::CgaMode4));
    assert_eq!(ColorStandard::from_str("CgaMode4"), Ok(ColorStandard::CgaMode4));
    assert_eq!(
        ColorStandard::from_str("cgamode4high1"),
        Ok(ColorStandard::CgaMode4High1)
    );
    assert_eq!(ColorStandard::from_str("fullcga"), Ok(ColorStandard::FullCga));
    assert_eq!(ColorStandard::from_str("ega"), Ok(ColorStandard::FullEga));
    assert_eq!(ColorStandard::from_str("EGA"), Ok(ColorStandard::FullEga));
    assert_eq!(ColorStandard::from_str("bw"), Ok(ColorStandard::BlackWhite));
    assert!(ColorStandard::from_str("sega").is_err());
    assert!(ColorStandard::from_str("").is_err());
}

#[test]
fn resolution_resolves_by_rule_of_proportions() {
    // both sides given: passthrough
    assert_eq!(
        resolve_output_resolution(427, 200, Some(1920), Some(1080), None),
        Ok((1920, 1080))
    );
    // height given: width follows the input aspect ratio
    assert_eq!(
        resolve_output_resolution(400, 200, None, Some(300), None),
        Ok((600, 300))
    );
    // width given: height follows the input aspect ratio
    assert_eq!(
        resolve_output_resolution(400, 200, Some(600), None, None),
        Ok((600, 300))
    );
    // a pixel ratio scales the proportion
    let half = AspectRatio { numer: 1, denom: 2 };
    assert_eq!(
        resolve_output_resolution(400, 200, None, Some(300), Some(half)),
        Ok((300, 300))
    );
    assert_eq!(
        resolve_output_resolution(400, 200, Some(300), None, Some(half)),
        Ok((300, 300))
    );
    // rounding is to the nearest integer, half away from zero
    assert_eq!(
        resolve_output_resolution(3, 2, None, Some(1), None),
        Ok((2, 1))
    );
}

#[test]
fn resolution_error_cases() {
    assert_eq!(
        resolve_output_resolution(427, 200, None, None, None),
        Err(ResolutionError::Non)
    );
    let q = AspectRatio { numer: 1, denom: 1 };
    assert_eq!(
        resolve_output_resolution(427, 200, None, None, Some(q)),
        Err(ResolutionError::RatioWithoutSide)
    );
    assert_eq!(
        resolve_output_resolution(427, 200, Some(1), Some(2), Some(q)),
        Err(ResolutionError::TooMany)
    );
    assert_eq!(
        ResolutionError::Non.message(),
        "not enough components to resolve output resolution"
    );
}

#[test]
fn resolution_input_checker() {
    assert!(resolution_inputs_ok(427, 200, Some(1920), Some(1080), None));
    assert!(!resolution_inputs_ok(0, 200, Some(1920), Some(1080), None));
    assert!(!resolution_inputs_ok(427, 0, Some(1920), Some(1080), None));
    let zero = AspectRatio { numer: 0, denom: 1 };
    assert!(!resolution_inputs_ok(427, 200, None, Some(100), Some(zero)));
    // an output width that cannot fit u32 is rejected
    assert!(!resolution_inputs_ok(
        4294967295,
        1,
        None,
        Some(4294967295),
        None
    ));
}
