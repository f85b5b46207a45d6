//! Repairs fully transparent pixels of an RGBA raster by copying the colour of
//! the nearest edge sample, so that filtering which ignores alpha no longer
//! bleeds dark fringes into opaque regions.

pub mod grid;
pub mod extract;
pub mod nearest;
pub mod fill;
pub mod laws;
pub mod formats;
