//! Properties of the repair pass, proved over its model.

use vstd::prelude::*;
use crate::grid::{GridView, lemma_index_in_bounds};
use crate::extract::{edge_samples, neighbor_samples, offset, samples_at, samples_upto};
use crate::fill::{fill_color, fixed, has_clear, repaired};
use crate::nearest::{lemma_nearest_index, nearest_index};

verus! {

/// Two grids of one shape that agree on which pixels are clear and on every
/// opaque pixel.
pub open spec fn same_opaque(g1: GridView, g2: GridView) -> bool {
    &&& g1.width == g2.width
    &&& g1.height == g2.height
    &&& g1.pixels.len() == g2.pixels.len()
    &&& forall|i: int|
        0 <= i < g1.pixels.len() ==> (#[trigger] g1.pixels[i]).is_clear() == g2.pixels[i].is_clear()
    &&& forall|i: int|
        0 <= i < g1.pixels.len() && !(#[trigger] g1.pixels[i]).is_clear() ==> g1.pixels[i]
            == g2.pixels[i]
}

proof fn lemma_neighbor_samples_agree(g1: GridView, g2: GridView, x: int, y: int, d: nat)
    requires
        g1.wf(),
        same_opaque(g1, g2),
    ensures
        neighbor_samples(g1, x, y, d) == neighbor_samples(g2, x, y, d),
    decreases d,
{
    if d > 0 {
        lemma_neighbor_samples_agree(g1, g2, x, y, (d - 1) as nat);
        let nx = x + offset(d - 1).0;
        let ny = y + offset(d - 1).1;
        if g1.in_bounds(nx, ny) {
            lemma_index_in_bounds(nx, ny, g1.width as int, g1.height as int);
        }
    }
}

proof fn lemma_samples_upto_agree(g1: GridView, g2: GridView, n: nat)
    requires
        g1.wf(),
        same_opaque(g1, g2),
        n <= g1.pixels.len(),
    ensures
        samples_upto(g1, n) == samples_upto(g2, n),
    decreases n,
{
    if n > 0 {
        lemma_samples_upto_agree(g1, g2, (n - 1) as nat);
        let i = n - 1;
        lemma_neighbor_samples_agree(g1, g2, i % g1.width as int, i / g1.width as int, 8);
        assert(samples_at(g1, i) == samples_at(g2, i));
    }
}

/// Grids that agree on their clear pixels and on every opaque pixel have the
/// same edge samples: the colours held by clear pixels play no part.
pub proof fn lemma_edge_samples_agree(g1: GridView, g2: GridView)
    requires
        g1.wf(),
        same_opaque(g1, g2),
    ensures
        edge_samples(g1) == edge_samples(g2),
{
    lemma_samples_upto_agree(g1, g2, g1.pixels.len());
}

/// Repairing a grid a second time changes nothing.
pub proof fn law_repair_idempotent(g: GridView, debug: bool)
    requires
        g.wf(),
    ensures
        fixed(fixed(g, debug), debug) == fixed(g, debug),
{
    let s = edge_samples(g);
    let f = fixed(g, debug);
    if s.len() == 0 {
        assert(f.pixels =~= g.pixels);
        assert(f == g);
    } else if debug {
        assert(!has_clear(f));
        assert(fixed(f, debug).pixels =~= f.pixels);
    } else {
        assert(same_opaque(g, f));
        lemma_edge_samples_agree(g, f);
        assert(fixed(f, debug).pixels =~= f.pixels);
    }
}

/// A grid without a clear pixel comes out of a repair exactly as it went in.
pub proof fn law_opaque_grid_unchanged(g: GridView, debug: bool)
    requires
        g.wf(),
        !has_clear(g),
    ensures
        fixed(g, debug) == g,
{
    assert(fixed(g, debug).pixels =~= g.pixels);
}

/// Every repaired pixel takes its red, green and blue from one of the grid's
/// edge samples; no other colour is made up.
pub proof fn law_colors_come_from_samples(g: GridView, debug: bool)
    requires
        g.wf(),
    ensures
        forall|i: int|
            0 <= i < g.pixels.len() && (#[trigger] g.pixels[i]).is_clear() && edge_samples(g).len()
                > 0 ==> exists|k: int|
                0 <= k < edge_samples(g).len() && fixed(g, debug).pixels[i].r == edge_samples(
                    g,
                )[k].r && fixed(g, debug).pixels[i].g == edge_samples(g)[k].g && fixed(
                    g,
                    debug,
                ).pixels[i].b == edge_samples(g)[k].b,
{
    let s = edge_samples(g);
    assert forall|i: int|
        0 <= i < g.pixels.len() && (#[trigger] g.pixels[i]).is_clear() && s.len() > 0 implies exists|
        k: int,
    |
        0 <= k < s.len() && fixed(g, debug).pixels[i].r == s[k].r && fixed(g, debug).pixels[i].g
            == s[k].g && fixed(g, debug).pixels[i].b == s[k].b by {
        let x = i % g.width as int;
        let y = i / g.width as int;
        lemma_nearest_index(s, x, y);
        let k = nearest_index(s, x, y) as int;
        assert(fixed(g, debug).pixels[i] == fill_color(s, x, y, debug));
        assert(0 <= k < s.len());
    }
}

/// A repaired pixel keeps alpha zero, or gets full alpha when `debug` is set;
/// a pixel that was not clear keeps its value.
pub proof fn law_alpha_policy(g: GridView, debug: bool)
    requires
        g.wf(),
    ensures
        forall|i: int|
            0 <= i < g.pixels.len() && (#[trigger] g.pixels[i]).is_clear() && edge_samples(g).len()
                > 0 ==> fixed(g, debug).pixels[i].a == if debug {
                255u8
            } else {
                0u8
            },
        forall|i: int|
            0 <= i < g.pixels.len() && !(#[trigger] g.pixels[i]).is_clear() ==> fixed(g, debug).pixels[i]
                == g.pixels[i],
{
}

/// With a single edge sample, every clear pixel takes that sample's colour.
pub proof fn law_single_sample(g: GridView, debug: bool)
    requires
        g.wf(),
        edge_samples(g).len() == 1,
    ensures
        forall|i: int|
            0 <= i < g.pixels.len() && (#[trigger] g.pixels[i]).is_clear() ==> fixed(g, debug).pixels[i]
                == repaired(edge_samples(g)[0], debug),
{
}

} // verus!
