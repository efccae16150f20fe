//! A plotting surface whose viewport engine is verified: per-axis ranges with
//! pan and anchor-preserving zoom, the pixel <-> data transform, "nice" tick
//! spacing, the per-frame interaction step and the paint lists of plot items.
//!
//! Data coordinates are fixed-point integers: one data unit is
//! `UNITS_PER_ONE` steps. Layout rectangles and pointer positions are whole
//! pixels; painted positions are fixed-point too, `SUBPIXELS` steps to a
//! pixel.
//!
//! Not here: logarithmic axis scaling, which needs floating-point
//! logarithms; the marker outlines, drawn in floating point by the host; and
//! the older `Graph` / `Drawable` interface, which `Plot` and `PlotItem`
//! replace.
mod arith;
pub mod axis;
pub mod ticks;
pub mod transform;
pub mod plot;
pub mod shapes;
pub mod items;
pub mod labels;
