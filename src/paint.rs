//! Paint attributes of a path element and how they are applied.
use vstd::prelude::*;
use crate::raster::{blended, Color, Raster, Rgba};

verus! {

/// Which enclosed regions of a path count as inside.
#[derive(Clone, Copy, Debug, PartialEq, Eq, Structural)]
pub enum FillRule {
    NonZero,
    EvenOdd,
}

/// How stroke segments are joined. A miter carries its limit (the ratio of
/// miter length to stroke width) in the fixed-point scale of the coordinates.
#[derive(Clone, Copy, Debug, PartialEq, Eq, Structural)]
pub enum LineJoin {
    Miter(i64),
    Bevel,
    Round,
}

/// Where a paint's color comes from. A paint server (a gradient or a
/// pattern) is not resolved: it paints black.
#[derive(Clone, Copy, Debug, PartialEq, Eq, Structural)]
pub enum PaintSource {
    Solid(Color),
    Server,
}

/// How the inside of a path is painted. `opacity` runs from 0 to 255.
#[derive(Clone, Copy, Debug, PartialEq, Eq, Structural)]
pub struct Fill {
    pub paint: PaintSource,
    pub opacity: u8,
    pub rule: FillRule,
}

/// How the outline of a path is painted. `width` is in the same units as
/// the path's coordinates.
#[derive(Clone, Copy, Debug, PartialEq, Eq, Structural)]
pub struct Stroke {
    pub paint: PaintSource,
    pub opacity: u8,
    pub width: i64,
    pub join: LineJoin,
}

pub open spec fn black() -> Color {
    Color { red: 0, green: 0, blue: 0 }
}

pub open spec fn color_of(paint: PaintSource) -> Color {
    match paint {
        PaintSource::Solid(c) => c,
        PaintSource::Server => black(),
    }
}

/// The color that a paint source paints with.
pub fn paint_color(paint: PaintSource) -> (r: Color)
    ensures
        r == color_of(paint),
{
    match paint {
        PaintSource::Solid(c) => c,
        PaintSource::Server => Color { red: 0, green: 0, blue: 0 },
    }
}

/// The pixels after a fill, if there is one, through its coverage mask.
pub open spec fn fill_layer(pixels: Seq<Rgba>, fill: Option<Fill>, mask: Seq<u8>) -> Seq<Rgba> {
    match fill {
        Some(f) => blended(pixels, mask, color_of(f.paint), f.opacity as int),
        None => pixels,
    }
}

/// The pixels after a stroke, if there is one, through its coverage mask.
pub open spec fn stroke_layer(pixels: Seq<Rgba>, stroke: Option<Stroke>, mask: Seq<u8>) -> Seq<Rgba> {
    match stroke {
        Some(s) => blended(pixels, mask, color_of(s.paint), s.opacity as int),
        None => pixels,
    }
}

/// Paints one element's fill and then its stroke, each through its own
/// coverage mask, so that the stroke lies on top of the fill.
pub fn composite(
    raster: &mut Raster,
    fill: &Option<Fill>,
    fill_mask: &Vec<u8>,
    stroke: &Option<Stroke>,
    stroke_mask: &Vec<u8>,
)
    requires
        old(raster).wf(),
    ensures
        final(raster).wf(),
        final(raster)@.width == old(raster)@.width,
        final(raster)@.height == old(raster)@.height,
        final(raster)@.pixels == stroke_layer(
            fill_layer(old(raster)@.pixels, *fill, fill_mask@),
            *stroke,
            stroke_mask@,
        ),
{
    match fill {
        Some(f) => raster.blend_mask(fill_mask, paint_color(f.paint), f.opacity),
        None => {},
    }
    match stroke {
        Some(s) => raster.blend_mask(stroke_mask, paint_color(s.paint), s.opacity),
        None => {},
    }
}

} // verus!
