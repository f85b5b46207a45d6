//! The fill engine and the per-image pass that ties extraction, nearest-sample
//! queries and filling together.

use vstd::prelude::*;
use vstd::arithmetic::div_mod::{lemma_fundamental_div_mod, lemma_mod_pos_bound};
use crate::grid::{GridView, Pixel, PixelGrid};
use crate::extract::{Sample, clear_upto, edge_samples, extract_edges};
use crate::nearest::{nearest_index, nearest_sample};

verus! {

/// The pixel written in place of a clear one: the sample's colour, alpha left
/// at zero or, for inspection, raised to full.
pub open spec fn repaired(c: Sample, debug: bool) -> Pixel {
    Pixel { r: c.r, g: c.g, b: c.b, a: if debug { 255 } else { 0 } }
}

/// The fill pixel for `(x, y)`: that of the nearest sample.
pub open spec fn fill_color(s: Seq<Sample>, x: int, y: int, debug: bool) -> Pixel {
    repaired(s[nearest_index(s, x, y) as int], debug)
}

/// The pixels after each coordinate of `coords` that lies in the grid, in turn,
/// has received its fill pixel; with no sample nothing is written.
pub open spec fn fill_listed(g: GridView, coords: Seq<(u32, u32)>, s: Seq<Sample>, debug: bool) -> Seq<Pixel>
    decreases coords.len(),
{
    if coords.len() == 0 {
        g.pixels
    } else {
        let prev = fill_listed(g, coords.drop_last(), s, debug);
        let c = coords.last();
        if g.in_bounds(c.0 as int, c.1 as int) && s.len() > 0 {
            prev.update(g.index_of(c.0 as int, c.1 as int), fill_color(s, c.0 as int, c.1 as int, debug))
        } else {
            prev
        }
    }
}

/// Overwrites the pixel at every listed coordinate with the colour of the
/// sample nearest to it. Coordinates outside the grid are passed over, and so
/// is everything when there is no sample.
pub fn fill_clear(grid: &mut PixelGrid, coords: &Vec<(u32, u32)>, samples: &Vec<Sample>, debug: bool)
    requires
        old(grid).wf(),
    ensures
        final(grid).wf(),
        final(grid).width == old(grid).width,
        final(grid).height == old(grid).height,
        final(grid)@.pixels == fill_listed(old(grid)@, coords@, samples@, debug),
{
    let ghost g0 = grid@;
    let n: usize = coords.len();
    let mut j: usize = 0;
    while j < n
        invariant
            n == coords@.len(),
            j <= n,
            grid.wf(),
            grid.width == g0.width,
            grid.height == g0.height,
            grid@.pixels == fill_listed(g0, coords@.take(j as int), samples@, debug),
        decreases n - j,
    {
        let (x, y) = coords[j];
        match nearest_sample(samples, x, y) {
            Some(k) => {
                let c: Sample = samples[k];
                let a: u8 = if debug { 255 } else { 0 };
                grid.set(x, y, Pixel { r: c.r, g: c.g, b: c.b, a });
            },
            None => {},
        }
        proof {
            assert(coords@.take(j + 1).drop_last() =~= coords@.take(j as int));
        }
        j += 1;
    }
    proof {
        assert(coords@.take(n as int) =~= coords@);
    }
}

/// The pixel at position `i` after one repair pass with samples `s`.
pub open spec fn fixed_pixel(g: GridView, s: Seq<Sample>, debug: bool, i: int) -> Pixel {
    if g.pixels[i].is_clear() && s.len() > 0 {
        fill_color(s, i % g.width as int, i / g.width as int, debug)
    } else {
        g.pixels[i]
    }
}

/// The grid after one repair pass: every clear pixel takes the colour of the
/// nearest edge sample; with no sample the grid stays as it was.
pub open spec fn fixed(g: GridView, debug: bool) -> GridView {
    GridView {
        width: g.width,
        height: g.height,
        pixels: Seq::new(g.pixels.len(), |i: int| fixed_pixel(g, edge_samples(g), debug, i)),
    }
}

pub open spec fn has_clear(g: GridView) -> bool {
    exists|i: int| 0 <= i < g.pixels.len() && (#[trigger] g.pixels[i]).is_clear()
}

/// How one repair pass ended.
#[derive(Clone, Copy, Debug, PartialEq, Eq, Structural)]
pub enum FixOutcome {
    /// The grid has no clear pixel; it was left as it was.
    NoTransparency,
    /// Clear pixels exist but none touches an opaque one; the grid was left as it was.
    NoSamples,
    /// Every clear pixel was recoloured.
    Filled,
}

/// The row-major position `i` of a grid is the coordinate `(i % width, i / width)`.
pub proof fn lemma_coords_of(g: GridView, i: int)
    requires
        g.wf(),
        0 <= i < g.pixels.len(),
    ensures
        g.in_bounds(i % g.width as int, i / g.width as int),
        g.index_of(i % g.width as int, i / g.width as int) == i,
{
    let w = g.width as int;
    let h = g.height as int;
    assert(w > 0) by (nonlinear_arith)
        requires
            0 <= i < w * h,
            h >= 0,
    ;
    lemma_fundamental_div_mod(i, w);
    lemma_mod_pos_bound(i, w);
    let q = i / w;
    let r = i % w;
    assert(0 <= q < h) by (nonlinear_arith)
        requires
            i == w * q + r,
            0 <= r < w,
            0 <= i < w * h,
    ;
    assert(q * w + r == i) by (nonlinear_arith)
        requires
            i == w * q + r,
    ;
}

/// The clear coordinates of the first `n` pixels are empty exactly when none of
/// those pixels is clear.
proof fn lemma_clear_upto_empty(g: GridView, n: nat)
    requires
        n <= g.pixels.len(),
    ensures
        clear_upto(g, n).len() == 0 <==> forall|i: int| 0 <= i < n ==> !(#[trigger] g.pixels[i]).is_clear(),
    decreases n,
{
    if n > 0 {
        lemma_clear_upto_empty(g, (n - 1) as nat);
    }
}

/// Filling at the clear coordinates of the first `n` pixels repairs those and
/// leaves the rest alone.
proof fn lemma_fill_clear_upto(g: GridView, s: Seq<Sample>, debug: bool, n: nat)
    requires
        g.wf(),
        n <= g.pixels.len(),
    ensures
        fill_listed(g, clear_upto(g, n), s, debug) == Seq::new(
            g.pixels.len(),
            |i: int|
                if i < n {
                    fixed_pixel(g, s, debug, i)
                } else {
                    g.pixels[i]
                },
        ),
    decreases n,
{
    let target = Seq::new(
        g.pixels.len(),
        |i: int|
            if i < n {
                fixed_pixel(g, s, debug, i)
            } else {
                g.pixels[i]
            },
    );
    if n == 0 {
        assert(fill_listed(g, clear_upto(g, 0), s, debug) =~= target);
    } else {
        let m = (n - 1) as nat;
        lemma_fill_clear_upto(g, s, debug, m);
        lemma_coords_of(g, m as int);
        let prev = clear_upto(g, m);
        let mi = m as int;
        if g.pixels[m as int].is_clear() {
            let c = (((m as int) % g.width as int) as u32, ((m as int) / g.width as int) as u32);
            assert(c.0 as int == mi % g.width as int);
            assert(c.1 as int == mi / g.width as int);
            assert(clear_upto(g, n) == prev.push(c));
            assert(prev.push(c).drop_last() =~= prev);
            assert(prev.push(c).last() == c);
        }
        assert(fill_listed(g, clear_upto(g, n), s, debug) =~= target);
    }
}

/// Repairs one image in place: extracts the edge samples, then gives every
/// clear pixel the colour of the sample nearest to it.
pub fn fix_transparent(grid: &mut PixelGrid, debug: bool) -> (r: FixOutcome)
    requires
        old(grid).wf(),
    ensures
        final(grid).wf(),
        final(grid)@ == fixed(old(grid)@, debug),
        (r == FixOutcome::NoTransparency) <==> !has_clear(old(grid)@),
        (r == FixOutcome::NoSamples) <==> has_clear(old(grid)@) && edge_samples(old(grid)@).len() == 0,
        (r == FixOutcome::Filled) <==> has_clear(old(grid)@) && edge_samples(old(grid)@).len() > 0,
{
    let ghost g0 = grid@;
    let (samples, clear) = extract_edges(grid);
    proof {
        lemma_clear_upto_empty(g0, g0.pixels.len());
        lemma_fill_clear_upto(g0, samples@, debug, g0.pixels.len());
        assert(fixed(g0, debug).pixels =~= fill_listed(g0, clear@, samples@, debug));
    }
    if clear.len() == 0 {
        proof {
            assert(grid@ =~= fixed(g0, debug));
        }
        return FixOutcome::NoTransparency;
    }
    if samples.len() == 0 {
        proof {
            assert(grid@.pixels =~= fixed(g0, debug).pixels);
            assert(grid@ =~= fixed(g0, debug));
        }
        return FixOutcome::NoSamples;
    }
    fill_clear(grid, &clear, &samples, debug);
    proof {
        assert(grid@.pixels == fill_listed(g0, clear@, samples@, debug));
        assert(grid@.pixels =~= fixed(g0, debug).pixels);
        assert(grid@ =~= fixed(g0, debug));
    }
    FixOutcome::Filled
}

} // verus!
