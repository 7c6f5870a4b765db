//! The pixel buffer and source-over compositing of coverage onto it.
use vstd::prelude::*;

verus! {

/// A solid color with straight (not premultiplied) channels.
#[derive(Clone, Copy, Debug, PartialEq, Eq, Structural)]
pub struct Color {
    pub red: u8,
    pub green: u8,
    pub blue: u8,
}

/// A pixel with premultiplied channels: each color channel is at most alpha.
#[derive(Clone, Copy, Debug, PartialEq, Eq, Structural)]
pub struct Rgba {
    pub red: u8,
    pub green: u8,
    pub blue: u8,
    pub alpha: u8,
}

impl Rgba {
    pub open spec fn premultiplied(self) -> bool {
        self.red <= self.alpha && self.green <= self.alpha && self.blue <= self.alpha
    }
}

/// `a * b / 255`, rounded to the nearest integer.
pub open spec fn mul255(a: int, b: int) -> int {
    (a * b + 127) / 255
}

/// The premultiplied pixel that a color at an opacity paints where the
/// coverage is `coverage` (both on the scale 0 to 255).
pub open spec fn source_pixel(color: Color, opacity: int, coverage: int) -> Rgba {
    let a = mul255(opacity, coverage);
    Rgba {
        red: mul255(color.red as int, a) as u8,
        green: mul255(color.green as int, a) as u8,
        blue: mul255(color.blue as int, a) as u8,
        alpha: a as u8,
    }
}

/// Source-over: `src + dst * (1 - src alpha)` on each channel.
pub open spec fn over(src: Rgba, dst: Rgba) -> Rgba {
    let keep = 255 - src.alpha;
    Rgba {
        red: (src.red + mul255(dst.red as int, keep)) as u8,
        green: (src.green + mul255(dst.green as int, keep)) as u8,
        blue: (src.blue + mul255(dst.blue as int, keep)) as u8,
        alpha: (src.alpha + mul255(dst.alpha as int, keep)) as u8,
    }
}

proof fn lemma_mul255_bounds(a: int, b: int)
    requires
        0 <= a <= 255,
        0 <= b <= 255,
    ensures
        0 <= mul255(a, b) <= b,
        0 <= mul255(a, b) <= a,
{
    assert(0 <= a * b <= 255 * b) by (nonlinear_arith)
        requires
            0 <= a <= 255,
            0 <= b <= 255,
    ;
    assert(a * b <= a * 255) by (nonlinear_arith)
        requires
            0 <= a,
            b <= 255,
    ;
}

proof fn lemma_mul255_mono(a: int, b: int, c: int)
    requires
        0 <= a <= b,
        0 <= c,
    ensures
        mul255(a, c) <= mul255(b, c),
{
    assert(a * c <= b * c) by (nonlinear_arith)
        requires
            0 <= a <= b,
            0 <= c,
    ;
}

/// `a * b / 255`, rounded.
pub fn mul_255(a: u8, b: u8) -> (r: u8)
    ensures
        r as int == mul255(a as int, b as int),
        r <= a,
        r <= b,
{
    proof {
        lemma_mul255_bounds(a as int, b as int);
    }
    let p: u32 = (a as u32) * (b as u32) + 127;
    (p / 255) as u8
}

/// The premultiplied pixel that `color` at `opacity` paints under `coverage`.
pub fn source_color(color: Color, opacity: u8, coverage: u8) -> (r: Rgba)
    ensures
        r == source_pixel(color, opacity as int, coverage as int),
        r.premultiplied(),
{
    let a = mul_255(opacity, coverage);
    Rgba {
        red: mul_255(color.red, a),
        green: mul_255(color.green, a),
        blue: mul_255(color.blue, a),
        alpha: a,
    }
}

/// Composites `src` over `dst`.
pub fn source_over(src: Rgba, dst: Rgba) -> (r: Rgba)
    requires
        src.premultiplied(),
    ensures
        r == over(src, dst),
{
    let keep: u8 = 255 - src.alpha;
    proof {
        lemma_mul255_bounds(dst.red as int, keep as int);
        lemma_mul255_bounds(dst.green as int, keep as int);
        lemma_mul255_bounds(dst.blue as int, keep as int);
        lemma_mul255_bounds(dst.alpha as int, keep as int);
    }
    Rgba {
        red: src.red + mul_255(dst.red, keep),
        green: src.green + mul_255(dst.green, keep),
        blue: src.blue + mul_255(dst.blue, keep),
        alpha: src.alpha + mul_255(dst.alpha, keep),
    }
}

/// The mathematical content of a raster: its size and its pixels, row by row.
pub struct RasterModel {
    pub width: nat,
    pub height: nat,
    pub pixels: Seq<Rgba>,
}

/// A row-major RGBA pixel buffer with premultiplied channels.
#[derive(Clone, Debug)]
pub struct Raster {
    width: u32,
    height: u32,
    pixels: Vec<Rgba>,
}

/// The fully transparent pixel that a new raster is cleared to.
pub open spec fn cleared() -> Rgba {
    Rgba { red: 0, green: 0, blue: 0, alpha: 0 }
}

impl View for Raster {
    type V = RasterModel;

    closed spec fn view(&self) -> RasterModel {
        RasterModel { width: self.width as nat, height: self.height as nat, pixels: self.pixels@ }
    }
}

impl Raster {
    /// One pixel per position, every color channel at most alpha.
    pub open spec fn wf(&self) -> bool {
        &&& self@.pixels.len() == self@.width * self@.height
        &&& forall|i: int| 0 <= i < self@.pixels.len() ==> (#[trigger] self@.pixels[i]).premultiplied()
    }

    /// A raster of the given size, every pixel transparent. `None` when the
    /// pixel count does not fit in memory addressing.
    pub fn with_clear(width: u32, height: u32) -> (r: Option<Raster>)
        ensures
            r is Some <==> width as int * height as int <= usize::MAX,
            r matches Some(ras) ==> {
                &&& ras.wf()
                &&& ras@.width == width
                &&& ras@.height == height
                &&& ras@.pixels == Seq::new(width as nat * height as nat, |i: int| cleared())
            },
    {
        let n = match (width as usize).checked_mul(height as usize) {
            Some(n) => n,
            None => {
                return None;
            },
        };
        let mut pixels: Vec<Rgba> = Vec::new();
        let mut i: usize = 0;
        while i < n
            invariant
                0 <= i <= n,
                pixels@ == Seq::new(i as nat, |k: int| cleared()),
            decreases n - i,
        {
            pixels.push(Rgba { red: 0, green: 0, blue: 0, alpha: 0 });
            i = i + 1;
            assert(pixels@ =~= Seq::new(i as nat, |k: int| cleared()));
        }
        let r = Raster { width, height, pixels };
        assert(r@.pixels =~= Seq::new(width as nat * height as nat, |i: int| cleared()));
        Some(r)
    }

    pub fn width(&self) -> (r: u32)
        ensures
            r == self@.width,
    {
        self.width
    }

    pub fn height(&self) -> (r: u32)
        ensures
            r == self@.height,
    {
        self.height
    }

    /// The pixels, row by row.
    pub fn pixels(&self) -> (r: &Vec<Rgba>)
        ensures
            r@ == self@.pixels,
    {
        &self.pixels
    }

    /// The pixel at column `x` of row `y`.
    pub fn pixel(&self, x: u32, y: u32) -> (r: Rgba)
        requires
            self.wf(),
            x < self@.width,
            y < self@.height,
        ensures
            r == self@.pixels[y * self@.width + x],
    {
        proof {
            assert(y * self@.width + x < self@.width * self@.height) by (nonlinear_arith)
                requires
                    x < self@.width,
                    y < self@.height,
            ;
            assert(y * self@.width <= y * self@.width + x);
        }
        assert(self.pixels@.len() == self.pixels.len());
        self.pixels[y as usize * self.width as usize + x as usize]
    }

    /// Paints `color` at `opacity` source-over onto every pixel, in the
    /// proportion that `mask` gives for it. A pixel past the end of the
    /// mask is left as it is.
    pub fn blend_mask(&mut self, mask: &Vec<u8>, color: Color, opacity: u8)
        requires
            old(self).wf(),
        ensures
            final(self).wf(),
            final(self)@.width == old(self)@.width,
            final(self)@.height == old(self)@.height,
            final(self)@.pixels == blended(old(self)@.pixels, mask@, color, opacity as int),
    {
        let n = self.pixels.len();
        let mut i: usize = 0;
        while i < n
            invariant
                0 <= i <= n,
                n == old(self)@.pixels.len(),
                self.width == old(self).width,
                self.height == old(self).height,
                self@.pixels.len() == n,
                old(self).wf(),
                forall|k: int| 0 <= k < n ==> (#[trigger] self@.pixels[k]).premultiplied(),
                forall|k: int|
                    0 <= k < n ==> #[trigger] self@.pixels[k] == if k < i {
                        blended(old(self)@.pixels, mask@, color, opacity as int)[k]
                    } else {
                        old(self)@.pixels[k]
                    },
            decreases n - i,
        {
            if i < mask.len() {
                let src = source_color(color, opacity, mask[i]);
                let dst = self.pixels[i];
                let p = source_over(src, dst);
                proof {
                    lemma_over_premultiplied(src, dst);
                }
                self.pixels.set(i, p);
            }
            i = i + 1;
        }
        assert(self@.pixels =~= blended(old(self)@.pixels, mask@, color, opacity as int));
    }
}

/// The pixels after painting `color` at `opacity` through `mask`.
pub open spec fn blended(pixels: Seq<Rgba>, mask: Seq<u8>, color: Color, opacity: int) -> Seq<Rgba> {
    Seq::new(
        pixels.len(),
        |i: int|
            if i < mask.len() {
                over(source_pixel(color, opacity, mask[i] as int), pixels[i])
            } else {
                pixels[i]
            },
    )
}

proof fn lemma_over_premultiplied(src: Rgba, dst: Rgba)
    requires
        src.premultiplied(),
        dst.premultiplied(),
    ensures
        over(src, dst).premultiplied(),
{
    let keep = 255 - src.alpha;
    lemma_mul255_mono(dst.red as int, dst.alpha as int, keep);
    lemma_mul255_mono(dst.green as int, dst.alpha as int, keep);
    lemma_mul255_mono(dst.blue as int, dst.alpha as int, keep);
    lemma_mul255_bounds(dst.alpha as int, keep);
}

/// A fully opaque color painted with full coverage replaces whatever lay
/// beneath it: the later of two overlapping opaque shapes shows.
pub proof fn lemma_opaque_cover_wins(color: Color, dst: Rgba)
    ensures
        over(source_pixel(color, 255, 255), dst) == (Rgba {
            red: color.red,
            green: color.green,
            blue: color.blue,
            alpha: 255,
        }),
{
    assert(mul255(255, 255) == 255);
    assert(mul255(color.red as int, 255) == color.red) by {
        lemma_mul255_full(color.red as int);
    }
    assert(mul255(color.green as int, 255) == color.green) by {
        lemma_mul255_full(color.green as int);
    }
    assert(mul255(color.blue as int, 255) == color.blue) by {
        lemma_mul255_full(color.blue as int);
    }
    assert(mul255(dst.red as int, 0) == 0);
    assert(mul255(dst.green as int, 0) == 0);
    assert(mul255(dst.blue as int, 0) == 0);
    assert(mul255(dst.alpha as int, 0) == 0);
}

proof fn lemma_mul255_full(a: int)
    requires
        0 <= a <= 255,
    ensures
        mul255(a, 255) == a,
{
    assert((a * 255 + 127) / 255 == a) by (nonlinear_arith)
        requires
            0 <= a <= 255,
    ;
}

} // verus!
