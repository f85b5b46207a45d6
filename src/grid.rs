//! The RGBA pixel grid that every stage reads and writes.

use vstd::prelude::*;

verus! {

/// One pixel: red, green, blue and alpha, eight bits each.
#[derive(Clone, Copy, Debug, PartialEq, Eq, Structural)]
pub struct Pixel {
    pub r: u8,
    pub g: u8,
    pub b: u8,
    pub a: u8,
}

impl Pixel {
    /// A pixel is clear (fully transparent) exactly when its alpha is zero.
    pub open spec fn is_clear(self) -> bool {
        self.a == 0
    }
}

/// The mathematical picture of a grid: dimensions and the pixels in row-major order.
pub struct GridView {
    pub width: nat,
    pub height: nat,
    pub pixels: Seq<Pixel>,
}

impl GridView {
    pub open spec fn wf(self) -> bool {
        &&& self.pixels.len() == self.width * self.height
        &&& self.width <= u32::MAX
        &&& self.height <= u32::MAX
    }

    pub open spec fn in_bounds(self, x: int, y: int) -> bool {
        0 <= x < self.width && 0 <= y < self.height
    }

    /// Row-major position of the coordinate `(x, y)`.
    pub open spec fn index_of(self, x: int, y: int) -> int {
        y * self.width + x
    }

    pub open spec fn at(self, x: int, y: int) -> Pixel {
        self.pixels[self.index_of(x, y)]
    }
}

/// A dense RGBA raster of `width * height` pixels stored row by row.
#[derive(Clone, Debug)]
pub struct PixelGrid {
    pub width: u32,
    pub height: u32,
    pub pixels: Vec<Pixel>,
}

impl View for PixelGrid {
    type V = GridView;

    open spec fn view(&self) -> GridView {
        GridView { width: self.width as nat, height: self.height as nat, pixels: self.pixels@ }
    }
}

/// A coordinate inside the grid has a row-major position inside the pixel sequence.
pub proof fn lemma_index_in_bounds(x: int, y: int, w: int, h: int)
    requires
        0 <= x < w,
        0 <= y < h,
    ensures
        0 <= y * w + x < w * h,
        y * w + x < (y + 1) * w,
{
    assert(0 <= y * w + x < w * h) by (nonlinear_arith)
        requires
            0 <= x < w,
            0 <= y < h,
    ;
    assert(y * w + x < (y + 1) * w) by (nonlinear_arith)
        requires
            0 <= x < w,
    ;
}

impl PixelGrid {
    pub open spec fn wf(&self) -> bool {
        self@.wf()
    }

    /// Wraps `pixels` as a `width` by `height` grid; `None` when the length does not match.
    pub fn from_pixels(width: u32, height: u32, pixels: Vec<Pixel>) -> (r: Option<PixelGrid>)
        ensures
            r is Some <==> pixels@.len() == width as int * height as int,
            r is Some ==> r->0.wf() && r->0@ == (GridView {
                width: width as nat,
                height: height as nat,
                pixels: pixels@,
            }),
    {
        let w: u64 = width as u64;
        let h: u64 = height as u64;
        assert(w * h <= u32::MAX as int * u32::MAX as int) by (nonlinear_arith)
            requires
                w <= u32::MAX,
                h <= u32::MAX,
        ;
        let n: u64 = w * h;
        if pixels.len() as u64 == n {
            Some(PixelGrid { width, height, pixels })
        } else {
            None
        }
    }

    /// A `width` by `height` grid with every pixel set to `fill`; `None` when it
    /// cannot be held in memory.
    pub fn filled(width: u32, height: u32, fill: Pixel) -> (r: Option<PixelGrid>)
        ensures
            r is Some <==> width as int * height as int <= usize::MAX,
            r is Some ==> r->0.wf() && r->0.width == width && r->0.height == height
                && forall|i: int| 0 <= i < r->0.pixels@.len() ==> r->0.pixels@[i] == fill,
    {
        let w: u64 = width as u64;
        let h: u64 = height as u64;
        assert(w * h <= u32::MAX as int * u32::MAX as int) by (nonlinear_arith)
            requires
                w <= u32::MAX,
                h <= u32::MAX,
        ;
        let n: u64 = w * h;
        if n > usize::MAX as u64 {
            return None;
        }
        let n: usize = n as usize;
        let mut pixels: Vec<Pixel> = Vec::new();
        while pixels.len() < n
            invariant
                pixels@.len() <= n,
                forall|i: int| 0 <= i < pixels@.len() ==> pixels@[i] == fill,
            decreases n - pixels@.len(),
        {
            pixels.push(fill);
        }
        Some(PixelGrid { width, height, pixels })
    }

    pub fn width(&self) -> (r: u32)
        ensures
            r == self.width,
    {
        self.width
    }

    pub fn height(&self) -> (r: u32)
        ensures
            r == self.height,
    {
        self.height
    }

    /// The pixel at `(x, y)`, or `None` outside the grid.
    pub fn get(&self, x: u32, y: u32) -> (r: Option<Pixel>)
        requires
            self.wf(),
        ensures
            r == if self@.in_bounds(x as int, y as int) {
                Some(self@.at(x as int, y as int))
            } else {
                None::<Pixel>
            },
    {
        let n: usize = self.pixels.len();
        if x < self.width && y < self.height {
            proof {
                lemma_index_in_bounds(x as int, y as int, self.width as int, self.height as int);
            }
            let i: usize = y as usize * self.width as usize + x as usize;
            Some(self.pixels[i])
        } else {
            None
        }
    }

    /// Writes `p` at `(x, y)` and returns `true`; outside the grid nothing changes
    /// and the result is `false`.
    pub fn set(&mut self, x: u32, y: u32, p: Pixel) -> (r: bool)
        requires
            old(self).wf(),
        ensures
            final(self).wf(),
            r == old(self)@.in_bounds(x as int, y as int),
            final(self).width == old(self).width,
            final(self).height == old(self).height,
            final(self)@.pixels == if r {
                old(self)@.pixels.update(old(self)@.index_of(x as int, y as int), p)
            } else {
                old(self)@.pixels
            },
    {
        let n: usize = self.pixels.len();
        if x < self.width && y < self.height {
            proof {
                lemma_index_in_bounds(x as int, y as int, self.width as int, self.height as int);
            }
            let i: usize = y as usize * self.width as usize + x as usize;
            self.pixels.set(i, p);
            true
        } else {
            false
        }
    }
}

} // verus!
