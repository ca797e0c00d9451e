//! The CGA palette catalog: the full 16-color palette and the mode-4
//! sub-palettes with their background/foreground and best-of-four
//! strategies.
use vstd::prelude::*;

use crate::color::depth::{BackForePalette, BestPalette, FixedPalette};
use crate::color::Color;

verus! {

/// The 16 colors established by the full-color CGA standard.
pub open spec fn cga_4bit_spec() -> Seq<Color> {
    seq![
        (Color { r: 0x00, g: 0x00, b: 0x00, a: 255 }),
        (Color { r: 0x00, g: 0x00, b: 0xAA, a: 255 }),
        (Color { r: 0x00, g: 0xAA, b: 0x00, a: 255 }),
        (Color { r: 0x00, g: 0xAA, b: 0xAA, a: 255 }),
        (Color { r: 0xAA, g: 0x00, b: 0x00, a: 255 }),
        (Color { r: 0xAA, g: 0x00, b: 0xAA, a: 255 }),
        (Color { r: 0xAA, g: 0x55, b: 0x00, a: 255 }),
        (Color { r: 0xAA, g: 0xAA, b: 0xAA, a: 255 }),
        (Color { r: 0x55, g: 0x55, b: 0x55, a: 255 }),
        (Color { r: 0x55, g: 0x55, b: 0xFF, a: 255 }),
        (Color { r: 0x55, g: 0xFF, b: 0x55, a: 255 }),
        (Color { r: 0x55, g: 0xFF, b: 0xFF, a: 255 }),
        (Color { r: 0xFF, g: 0x55, b: 0x55, a: 255 }),
        (Color { r: 0xFF, g: 0x55, b: 0xFF, a: 255 }),
        (Color { r: 0xFF, g: 0xFF, b: 0x55, a: 255 }),
        (Color { r: 0xFF, g: 0xFF, b: 0xFF, a: 255 }),
    ]
}

/// CGA mode 4, palette 0 in low intensity: green, red, brown.
pub open spec fn cga_mode4_0_low_spec() -> Seq<Color> {
    seq![
        (Color { r: 0x00, g: 0xAA, b: 0x00, a: 255 }),
        (Color { r: 0xAA, g: 0x00, b: 0x00, a: 255 }),
        (Color { r: 0xAA, g: 0x55, b: 0x00, a: 255 }),
    ]
}

/// CGA mode 4, palette 0 in high intensity: green, red, yellow.
pub open spec fn cga_mode4_0_high_spec() -> Seq<Color> {
    seq![
        (Color { r: 0x55, g: 0xFF, b: 0x55, a: 255 }),
        (Color { r: 0xFF, g: 0x55, b: 0x55, a: 255 }),
        (Color { r: 0xFF, g: 0xFF, b: 0x55, a: 255 }),
    ]
}

/// CGA mode 4, palette 1 in low intensity: cyan, magenta, gray.
pub open spec fn cga_mode4_1_low_spec() -> Seq<Color> {
    seq![
        (Color { r: 0x55, g: 0xFF, b: 0xFF, a: 255 }),
        (Color { r: 0xFF, g: 0x55, b: 0xFF, a: 255 }),
        (Color { r: 0xFF, g: 0xFF, b: 0xFF, a: 255 }),
    ]
}

/// CGA mode 4, palette 1 in high intensity: cyan, magenta, white.
pub open spec fn cga_mode4_1_high_spec() -> Seq<Color> {
    seq![
        (Color { r: 0x55, g: 0xFF, b: 0xFF, a: 255 }),
        (Color { r: 0xFF, g: 0x55, b: 0xFF, a: 255 }),
        (Color { r: 0xFF, g: 0xFF, b: 0xFF, a: 255 }),
    ]
}

/// The 16 colors established by the full-color CGA standard.
pub fn cga_4bit() -> (r: Vec<Color>)
    ensures
        r@ == cga_4bit_spec(),
{
    let mut v: Vec<Color> = Vec::new();
    v.push(Color { r: 0x00, g: 0x00, b: 0x00, a: 255 });
    v.push(Color { r: 0x00, g: 0x00, b: 0xAA, a: 255 });
    v.push(Color { r: 0x00, g: 0xAA, b: 0x00, a: 255 });
    v.push(Color { r: 0x00, g: 0xAA, b: 0xAA, a: 255 });
    v.push(Color { r: 0xAA, g: 0x00, b: 0x00, a: 255 });
    v.push(Color { r: 0xAA, g: 0x00, b: 0xAA, a: 255 });
    v.push(Color { r: 0xAA, g: 0x55, b: 0x00, a: 255 });
    v.push(Color { r: 0xAA, g: 0xAA, b: 0xAA, a: 255 });
    v.push(Color { r: 0x55, g: 0x55, b: 0x55, a: 255 });
    v.push(Color { r: 0x55, g: 0x55, b: 0xFF, a: 255 });
    v.push(Color { r: 0x55, g: 0xFF, b: 0x55, a: 255 });
    v.push(Color { r: 0x55, g: 0xFF, b: 0xFF, a: 255 });
    v.push(Color { r: 0xFF, g: 0x55, b: 0x55, a: 255 });
    v.push(Color { r: 0xFF, g: 0x55, b: 0xFF, a: 255 });
    v.push(Color { r: 0xFF, g: 0xFF, b: 0x55, a: 255 });
    v.push(Color { r: 0xFF, g: 0xFF, b: 0xFF, a: 255 });
    proof {
        assert(v@ =~= cga_4bit_spec());
    }
    v
}

/// The full 16-color CGA palette as a conversion strategy, often seen
/// in EGA mode as the default palette.
///
/// Note 1: in practice, CGA would not let a program use all 16 colors
/// simultaneously except in very low resolutions; see the mode-4
/// sub-palette strategies for a more realistic simulation.
///
/// Note 2: this does not attempt to reproduce CGA's composite output.
pub fn palette_cga_4bit() -> (r: FixedPalette)
    ensures
        r.0@ == cga_4bit_spec(),
{
    FixedPalette(cga_4bit())
}

/// A CGA mode-4 sub-palette: one free background color from the full
/// CGA palette plus three fixed foreground colors.
pub type CgaMod4Subpalette = BackForePalette;

/// CGA mode 4, palette 0 in low intensity.
pub fn cga_mode4_0_low() -> (r: Vec<Color>)
    ensures
        r@ == cga_mode4_0_low_spec(),
{
    let mut v: Vec<Color> = Vec::new();
    v.push(Color { r: 0x00, g: 0xAA, b: 0x00, a: 255 });
    v.push(Color { r: 0xAA, g: 0x00, b: 0x00, a: 255 });
    v.push(Color { r: 0xAA, g: 0x55, b: 0x00, a: 255 });
    proof {
        assert(v@ =~= cga_mode4_0_low_spec());
    }
    v
}

/// CGA mode 4, palette 0 in high intensity.
pub fn cga_mode4_0_high() -> (r: Vec<Color>)
    ensures
        r@ == cga_mode4_0_high_spec(),
{
    let mut v: Vec<Color> = Vec::new();
    v.push(Color { r: 0x55, g: 0xFF, b: 0x55, a: 255 });
    v.push(Color { r: 0xFF, g: 0x55, b: 0x55, a: 255 });
    v.push(Color { r: 0xFF, g: 0xFF, b: 0x55, a: 255 });
    proof {
        assert(v@ =~= cga_mode4_0_high_spec());
    }
    v
}

/// CGA mode 4, palette 1 in low intensity.
pub fn cga_mode4_1_low() -> (r: Vec<Color>)
    ensures
        r@ == cga_mode4_1_low_spec(),
{
    let mut v: Vec<Color> = Vec::new();
    v.push(Color { r: 0x55, g: 0xFF, b: 0xFF, a: 255 });
    v.push(Color { r: 0xFF, g: 0x55, b: 0xFF, a: 255 });
    v.push(Color { r: 0xFF, g: 0xFF, b: 0xFF, a: 255 });
    proof {
        assert(v@ =~= cga_mode4_1_low_spec());
    }
    v
}

/// CGA mode 4, palette 1 in high intensity.
pub fn cga_mode4_1_high() -> (r: Vec<Color>)
    ensures
        r@ == cga_mode4_1_high_spec(),
{
    let mut v: Vec<Color> = Vec::new();
    v.push(Color { r: 0x55, g: 0xFF, b: 0xFF, a: 255 });
    v.push(Color { r: 0xFF, g: 0x55, b: 0xFF, a: 255 });
    v.push(Color { r: 0xFF, g: 0xFF, b: 0xFF, a: 255 });
    proof {
        assert(v@ =~= cga_mode4_1_high_spec());
    }
    v
}

/// The mode-4 strategy for palette 0, low intensity.
pub fn palette_cga_mode4_0_low() -> (r: CgaMod4Subpalette)
    ensures
        r.0@ == cga_4bit_spec(),
        r.1@ == cga_mode4_0_low_spec(),
{
    BackForePalette(cga_4bit(), cga_mode4_0_low())
}

/// The mode-4 strategy for palette 0, high intensity.
pub fn palette_cga_mode4_0_high() -> (r: CgaMod4Subpalette)
    ensures
        r.0@ == cga_4bit_spec(),
        r.1@ == cga_mode4_0_high_spec(),
{
    BackForePalette(cga_4bit(), cga_mode4_0_high())
}

/// The mode-4 strategy for palette 1, low intensity.
pub fn palette_cga_mode4_1_low() -> (r: CgaMod4Subpalette)
    ensures
        r.0@ == cga_4bit_spec(),
        r.1@ == cga_mode4_1_low_spec(),
{
    BackForePalette(cga_4bit(), cga_mode4_1_low())
}

/// The mode-4 strategy for palette 1, high intensity.
pub fn palette_cga_mode4_1_high() -> (r: CgaMod4Subpalette)
    ensures
        r.0@ == cga_4bit_spec(),
        r.1@ == cga_mode4_1_high_spec(),
{
    BackForePalette(cga_4bit(), cga_mode4_1_high())
}

/// CGA mode 4 with the best sub-palette discovered automatically: the
/// four base/intensity variants are tried and the one with the lowest
/// loss wins.
pub fn palette_cga_mode4() -> (r: BestPalette<CgaMod4Subpalette>)
    ensures
        r.0@.len() == 4,
        r.0@[0].0@ == cga_4bit_spec() && r.0@[0].1@ == cga_mode4_0_low_spec(),
        r.0@[1].0@ == cga_4bit_spec() && r.0@[1].1@ == cga_mode4_0_high_spec(),
        r.0@[2].0@ == cga_4bit_spec() && r.0@[2].1@ == cga_mode4_1_low_spec(),
        r.0@[3].0@ == cga_4bit_spec() && r.0@[3].1@ == cga_mode4_1_high_spec(),
{
    let mut candidates: Vec<CgaMod4Subpalette> = Vec::new();
    candidates.push(palette_cga_mode4_0_low());
    candidates.push(palette_cga_mode4_0_high());
    candidates.push(palette_cga_mode4_1_low());
    candidates.push(palette_cga_mode4_1_high());
    BestPalette(candidates)
}

} // verus!
