//! The per-channel median color of a pixel buffer, used to pick the
//! background color of back/fore palettes.
use vstd::prelude::*;

use vstd::seq_lib::lemma_sorted_unique;
use vstd::relations::sorted_by;
use vstd::seq_lib::to_multiset_insert;

use crate::color::Color;

verus! {

/// The ordering by which channel values are sorted.
pub open spec fn channel_leq() -> spec_fn(u8, u8) -> bool {
    |a: u8, b: u8| a <= b
}

/// The median of a non-empty sequence of channel values: the middle
/// element (upper middle for even lengths) of the sorted sequence.
pub open spec fn median_of(s: Seq<u8>) -> u8
    recommends
        s.len() > 0,
{
    s.sort_by(channel_leq())[s.len() as int / 2]
}

/// The per-channel median color of a pixel sequence: each RGB channel
/// is the median of that channel over all pixels, independently; the
/// result is opaque. Note that this can be a synthetic color that
/// occurs nowhere in the input.
pub open spec fn median_color(pixels: Seq<Color>) -> Color
    recommends
        pixels.len() > 0,
{
    Color {
        r: median_of(pixels.map_values(|c: Color| c.r)),
        g: median_of(pixels.map_values(|c: Color| c.g)),
        b: median_of(pixels.map_values(|c: Color| c.b)),
        a: 255,
    }
}

/// Sort channel values ascending by insertion sort.
fn sort_channel(values: &Vec<u8>) -> (out: Vec<u8>)
    ensures
        out@ == values@.sort_by(channel_leq()),
        out@.len() == values@.len(),
{
    broadcast use vstd::seq_lib::group_to_multiset_ensures;

    let ghost leq = channel_leq();
    let mut out: Vec<u8> = Vec::new();
    let mut i: usize = 0;
    proof {
        assert(out@.to_multiset() =~= values@.take(0int).to_multiset());
    }
    while i < values.len()
        invariant
            leq == channel_leq(),
            i <= values@.len(),
            sorted_by(out@, leq),
            out@.to_multiset() == values@.take(i as int).to_multiset(),
            out@.len() == i,
        decreases values@.len() - i,
    {
        let x = values[i];
        let mut p: usize = 0;
        while p < out.len() && out[p] <= x
            invariant
                p <= out@.len(),
                forall|j: int| 0 <= j < p ==> out@[j] <= x,
            decreases out@.len() - p,
        {
            p = p + 1;
        }
        let ghost old_out = out@;
        out.insert(p, x);
        proof {
            assert(out@ == old_out.insert(p as int, x));
            assert(forall|a: u8, b: u8| #[trigger] leq(a, b) <==> a <= b);
            assert forall|m: int, n: int| 0 <= m < n < out@.len() implies leq(
                out@[m],
                out@[n],
            ) by {
                if n < p {
                    assert(out@[m] == old_out[m] && out@[n] == old_out[n]);
                    assert(leq(out@[m], out@[n]));
                } else if n == p {
                    assert(out@[m] == old_out[m] && out@[n] == x);
                    assert(old_out[m] <= x);
                    assert(leq(out@[m], out@[n]));
                } else if m < p {
                    assert(out@[m] == old_out[m] && out@[n] == old_out[n - 1]);
                    assert(m < n - 1);
                    assert(leq(out@[m], out@[n]));
                } else if m == p {
                    assert(out@[m] == x && out@[n] == old_out[n - 1]);
                    assert(!(old_out[p as int] <= x));
                    if p < n - 1 {
                        assert(leq(old_out[p as int], old_out[n - 1]));
                    }
                    assert(x <= old_out[n - 1]);
                    assert(leq(out@[m], out@[n]));
                } else {
                    assert(out@[m] == old_out[m - 1] && out@[n] == old_out[n - 1]);
                    assert(leq(out@[m], out@[n]));
                }
            }
            assert(sorted_by(out@, leq));
            to_multiset_insert(old_out, p as int, x);
            assert(values@.take(i + 1) == values@.take(i as int).push(values@[i as int]));
            vstd::seq_lib::to_multiset_build(values@.take(i as int), values@[i as int]);
        }
        i = i + 1;
    }
    proof {
        assert(values@.take(values@.len() as int) == values@);
        values@.lemma_sort_by_ensures(leq);
        lemma_sorted_unique(out@, values@.sort_by(leq), leq);
    }
    out
}

/// The median of a non-empty vector of channel values.
fn channel_median(values: &Vec<u8>) -> (m: u8)
    requires
        values@.len() > 0,
    ensures
        m == median_of(values@),
{
    let sorted = sort_channel(values);
    proof {
        values@.lemma_sort_by_ensures(channel_leq());
    }
    sorted[values.len() / 2]
}

/// Calculate the per-channel median RGB color of the given buffer.
pub fn color_median(colors: &Vec<Color>) -> (m: Color)
    requires
        colors@.len() > 0,
    ensures
        m == median_color(colors@),
{
    let mut rs: Vec<u8> = Vec::new();
    let mut gs: Vec<u8> = Vec::new();
    let mut bs: Vec<u8> = Vec::new();
    let mut i: usize = 0;
    while i < colors.len()
        invariant
            i <= colors@.len(),
            rs@ =~= colors@.take(i as int).map_values(|c: Color| c.r),
            gs@ =~= colors@.take(i as int).map_values(|c: Color| c.g),
            bs@ =~= colors@.take(i as int).map_values(|c: Color| c.b),
        decreases colors@.len() - i,
    {
        let c = colors[i];
        rs.push(c.r);
        gs.push(c.g);
        bs.push(c.b);
        proof {
            assert(rs@ =~= colors@.take(i + 1).map_values(|c: Color| c.r));
            assert(gs@ =~= colors@.take(i + 1).map_values(|c: Color| c.g));
            assert(bs@ =~= colors@.take(i + 1).map_values(|c: Color| c.b));
        }
        i = i + 1;
    }
    proof {
        assert(colors@.take(colors@.len() as int) == colors@);
    }
    let r = channel_median(&rs);
    let g = channel_median(&gs);
    let b = channel_median(&bs);
    Color { r, g, b, a: 255 }
}

} // verus!
