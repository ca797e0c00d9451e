//! The 64-color palette established by the full-color EGA standard:
//! every combination of four levels per RGB channel.
use vstd::prelude::*;

use crate::color::depth::FixedPalette;
use crate::color::Color;

verus! {

/// One of the four EGA channel levels: 0x00, 0x55, 0xAA, 0xFF.
pub open spec fn ega_level(v: int) -> u8
    recommends
        0 <= v < 4,
{
    (0x55 * v) as u8
}

/// The 64 colors of the full-color EGA standard, ordered red-major:
/// color `i` has the red level `i / 16`, the green level `(i / 4) % 4`
/// and the blue level `i % 4`.
pub open spec fn ega_6bit_spec() -> Seq<Color> {
    Seq::new(
        64,
        |i: int| Color {
            r: ega_level(i / 16),
            g: ega_level((i / 4) % 4),
            b: ega_level(i % 4),
            a: 255,
        },
    )
}

/// The 64 colors of the full-color EGA standard.
pub fn ega_6bit() -> (r: Vec<Color>)
    ensures
        r@ == ega_6bit_spec(),
{
    let mut v: Vec<Color> = Vec::new();
    let mut i: usize = 0;
    while i < 64
        invariant
            i <= 64,
            v@.len() == i,
            forall|j: int| 0 <= j < i ==> v@[j] == ega_6bit_spec()[j],
        decreases 64 - i,
    {
        let c = Color {
            r: 0x55 * ((i / 16) as u8),
            g: 0x55 * (((i / 4) % 4) as u8),
            b: 0x55 * ((i % 4) as u8),
            a: 255,
        };
        v.push(c);
        i = i + 1;
    }
    proof {
        assert(v@ =~= ega_6bit_spec());
    }
    v
}

/// The full 64-color EGA palette as a conversion strategy.
pub fn palette_ega_6bit() -> (r: FixedPalette)
    ensures
        r.0@ == ega_6bit_spec(),
{
    FixedPalette(ega_6bit())
}

} // verus!
