//! Edge extraction: one pass over the grid that records every clear pixel and,
//! for each opaque 8-neighbour of a clear pixel, a sample at the clear pixel
//! carrying that neighbour's colour.

use vstd::prelude::*;
use vstd::arithmetic::div_mod::lemma_fundamental_div_mod_converse;
use crate::grid::{GridView, Pixel, PixelGrid, lemma_index_in_bounds};

verus! {

/// A sample point: a clear pixel's coordinate tagged with the colour of one of
/// its opaque neighbours.
#[derive(Clone, Copy, Debug, PartialEq, Eq, Structural)]
pub struct Sample {
    pub x: u32,
    pub y: u32,
    pub r: u8,
    pub g: u8,
    pub b: u8,
}

/// The eight neighbour directions in scan order: NW, N, NE, E, SE, S, SW, W.
pub open spec fn offset(d: int) -> (int, int) {
    if d == 0 {
        (-1, -1)
    } else if d == 1 {
        (0, -1)
    } else if d == 2 {
        (1, -1)
    } else if d == 3 {
        (1, 0)
    } else if d == 4 {
        (1, 1)
    } else if d == 5 {
        (0, 1)
    } else if d == 6 {
        (-1, 1)
    } else {
        (-1, 0)
    }
}

pub open spec fn sample_from(x: int, y: int, p: Pixel) -> Sample {
    Sample { x: x as u32, y: y as u32, r: p.r, g: p.g, b: p.b }
}

/// Samples that the first `d` directions give for the clear pixel `(x, y)`.
pub open spec fn neighbor_samples(g: GridView, x: int, y: int, d: nat) -> Seq<Sample>
    decreases d,
{
    if d == 0 {
        seq![]
    } else {
        let prev = neighbor_samples(g, x, y, (d - 1) as nat);
        let nx = x + offset(d - 1).0;
        let ny = y + offset(d - 1).1;
        if g.in_bounds(nx, ny) && !g.at(nx, ny).is_clear() {
            prev.push(sample_from(x, y, g.at(nx, ny)))
        } else {
            prev
        }
    }
}

/// Samples contributed by the pixel at row-major position `i`.
pub open spec fn samples_at(g: GridView, i: int) -> Seq<Sample> {
    if g.pixels[i].is_clear() {
        neighbor_samples(g, i % g.width as int, i / g.width as int, 8)
    } else {
        seq![]
    }
}

/// Samples of the first `n` pixels in row-major order.
pub open spec fn samples_upto(g: GridView, n: nat) -> Seq<Sample>
    decreases n,
{
    if n == 0 {
        seq![]
    } else {
        samples_upto(g, (n - 1) as nat) + samples_at(g, n - 1)
    }
}

/// The whole sample sequence of a grid.
pub open spec fn edge_samples(g: GridView) -> Seq<Sample> {
    samples_upto(g, g.pixels.len())
}

/// Coordinates of the clear pixels among the first `n`, in row-major order.
pub open spec fn clear_upto(g: GridView, n: nat) -> Seq<(u32, u32)>
    decreases n,
{
    if n == 0 {
        seq![]
    } else {
        let i = n - 1;
        let prev = clear_upto(g, (n - 1) as nat);
        if g.pixels[i].is_clear() {
            prev.push(((i % g.width as int) as u32, (i / g.width as int) as u32))
        } else {
            prev
        }
    }
}

/// Coordinates of every clear pixel of a grid, in row-major order.
pub open spec fn clear_coords(g: GridView) -> Seq<(u32, u32)> {
    clear_upto(g, g.pixels.len())
}

fn direction(d: usize) -> (r: (i64, i64))
    requires
        d < 8,
    ensures
        r.0 == offset(d as int).0,
        r.1 == offset(d as int).1,
{
    if d == 0 {
        (-1, -1)
    } else if d == 1 {
        (0, -1)
    } else if d == 2 {
        (1, -1)
    } else if d == 3 {
        (1, 0)
    } else if d == 4 {
        (1, 1)
    } else if d == 5 {
        (0, 1)
    } else if d == 6 {
        (-1, 1)
    } else {
        (-1, 0)
    }
}

/// Scans the grid once and returns its sample sequence and the coordinates of
/// all its clear pixels, both in row-major order.
pub fn extract_edges(grid: &PixelGrid) -> (r: (Vec<Sample>, Vec<(u32, u32)>))
    requires
        grid.wf(),
    ensures
        r.0@ == edge_samples(grid@),
        r.1@ == clear_coords(grid@),
{
    let ghost g = grid@;
    let w: u32 = grid.width;
    let h: u32 = grid.height;
    let n: usize = grid.pixels.len();
    let mut samples: Vec<Sample> = Vec::new();
    let mut clear: Vec<(u32, u32)> = Vec::new();
    let mut i: usize = 0;
    let mut x: u32 = 0;
    let mut y: u32 = 0;
    proof {
        assert(w == 0 ==> n == 0) by (nonlinear_arith)
            requires
                n == w * h,
        ;
    }
    while i < n
        invariant
            g == grid@,
            g.wf(),
            n == g.pixels.len(),
            w == g.width,
            h == g.height,
            w == 0 ==> n == 0,
            i <= n,
            i < n ==> x < w,
            i == y * w + x,
            samples@ == samples_upto(g, i as nat),
            clear@ == clear_upto(g, i as nat),
        decreases n - i,
    {
        proof {
            lemma_fundamental_div_mod_converse(i as int, w as int, y as int, x as int);
            assert(y < h) by (nonlinear_arith)
                requires
                    i == y * w + x,
                    i < n,
                    n == w * h,
                    0 <= x,
            ;
        }
        let p: Pixel = grid.pixels[i];
        if p.a == 0 {
            clear.push((x, y));
            let ghost base = samples@;
            let mut d: usize = 0;
            while d < 8
                invariant
                    g == grid@,
                    g.wf(),
                    n == g.pixels.len(),
                    w == g.width,
                    h == g.height,
                    x < w,
                    y < h,
                    d <= 8,
                    samples@ == base + neighbor_samples(g, x as int, y as int, d as nat),
                decreases 8 - d,
            {
                let (dx, dy) = direction(d);
                let nx: i64 = x as i64 + dx;
                let ny: i64 = y as i64 + dy;
                if 0 <= nx && nx < w as i64 && 0 <= ny && ny < h as i64 {
                    proof {
                        lemma_index_in_bounds(nx as int, ny as int, w as int, h as int);
                    }
                    let j: usize = ny as usize * w as usize + nx as usize;
                    let q: Pixel = grid.pixels[j];
                    if q.a != 0 {
                        samples.push(Sample { x, y, r: q.r, g: q.g, b: q.b });
                    }
                }
                d += 1;
                proof {
                    assert(samples@ == base + neighbor_samples(g, x as int, y as int, d as nat));
                }
            }
        }
        proof {
            assert(samples_upto(g, (i + 1) as nat) == samples_upto(g, i as nat) + samples_at(g, i as int));
        }
        i += 1;
        x += 1;
        if x == w {
            proof {
                assert((y + 1) * w == y * w + w) by (nonlinear_arith);
            }
            x = 0;
            y += 1;
        }
    }
    (samples, clear)
}

} // verus!
