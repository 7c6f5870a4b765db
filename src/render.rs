//! Walking a document in order: reading the canvas size, interpreting each
//! path element, and compositing its coverage onto a shared raster.
use vstd::prelude::*;
use crate::paint::{composite, fill_layer, stroke_layer, Fill, FillRule, LineJoin, PaintSource, Stroke};
use crate::path::{fits, interpret, models, ops_of, skipped_of, CanonicalOp, PathCommand};
use crate::raster::{cleared, lemma_opaque_cover_wins, Color, Raster, Rgba};

verus! {

/// An element that draws a path, with its optional fill and stroke.
#[derive(Clone, Debug)]
pub struct PathElement {
    pub commands: Vec<PathCommand>,
    pub fill: Option<Fill>,
    pub stroke: Option<Stroke>,
}

/// One node of a document, in document order.
#[derive(Clone, Debug)]
pub enum Element {
    Path(PathElement),
    /// An element of a kind that is not drawn.
    Unknown,
}

/// A normalized document: the size its root declares, if any, and the
/// elements below the root in document order.
#[derive(Clone, Debug)]
pub struct Document {
    pub size: Option<(u32, u32)>,
    pub elements: Vec<Element>,
}

/// The failures that end a render.
#[derive(Clone, Copy, Debug, PartialEq, Eq, Structural)]
pub enum DocumentError {
    /// The root declares no width and height.
    MissingDimensions,
    /// The declared canvas has more pixels than memory can address.
    CanvasTooLarge,
    /// A path element's coordinates leave the coordinate type once resolved.
    CoordinateOverflow { element: usize },
}

/// A condition that does not end the render, reported alongside the result.
#[derive(Clone, Copy, Debug, PartialEq, Eq, Structural)]
pub enum Diagnostic {
    /// An element of a kind that is not drawn was skipped.
    UnsupportedElement { element: usize },
    /// A command of a kind that is not drawn was skipped.
    UnsupportedSegment { element: usize, command: usize },
    /// A paint server was painted as black.
    PaintFallback { element: usize },
}

/// Turns canonical operations into coverage masks: one value from 0 to 255
/// per pixel of a `width` by `height` raster, row by row.
pub trait Rasterizer {
    /// The coverage of the area that `ops` enclose under `rule`.
    fn fill(&mut self, width: u32, height: u32, ops: &Vec<CanonicalOp>, rule: FillRule) -> Vec<u8>;

    /// The coverage of the outline of `ops` drawn `stroke_width` wide.
    fn stroke(
        &mut self,
        width: u32,
        height: u32,
        ops: &Vec<CanonicalOp>,
        stroke_width: i64,
        join: LineJoin,
    ) -> Vec<u8>;
}

/// What a successful render hands back.
#[derive(Clone, Debug)]
pub struct Rendered {
    pub raster: Raster,
    pub diagnostics: Vec<Diagnostic>,
}

/// The content of the coverage masks that one element is painted through.
pub struct Coverage {
    pub fill: Seq<u8>,
    pub stroke: Seq<u8>,
}

pub open spec fn element_fits(el: Element) -> bool {
    match el {
        Element::Path(p) => fits(p.commands@),
        Element::Unknown => true,
    }
}

pub open spec fn canvas_fits(w: u32, h: u32) -> bool {
    w as int * h as int <= usize::MAX
}

pub open spec fn fallback_of(i: int, paint: Option<PaintSource>) -> Seq<Diagnostic> {
    if paint == Some(PaintSource::Server) {
        seq![Diagnostic::PaintFallback { element: i as usize }]
    } else {
        seq![]
    }
}

pub open spec fn segment_diagnostics(i: int, skipped: Seq<int>) -> Seq<Diagnostic> {
    skipped.map_values(|k: int| Diagnostic::UnsupportedSegment { element: i as usize, command: k as usize })
}

/// The diagnostics of the element at position `i`.
pub open spec fn element_diagnostics(i: int, el: Element) -> Seq<Diagnostic> {
    match el {
        Element::Unknown => seq![Diagnostic::UnsupportedElement { element: i as usize }],
        Element::Path(p) => segment_diagnostics(i, skipped_of(p.commands@)) + fallback_of(
            i,
            match p.fill {
                Some(f) => Some(f.paint),
                None => None,
            },
        ) + fallback_of(
            i,
            match p.stroke {
                Some(s) => Some(s.paint),
                None => None,
            },
        ),
    }
}

/// The diagnostics of a sequence of elements, in document order.
pub open spec fn diagnostics_of(els: Seq<Element>) -> Seq<Diagnostic>
    decreases els.len(),
{
    if els.len() == 0 {
        seq![]
    } else {
        diagnostics_of(els.drop_last()) + element_diagnostics(els.len() - 1, els.last())
    }
}

/// The pixels after one element is painted through the given coverage.
pub open spec fn paint_element(pixels: Seq<Rgba>, el: Element, cov: Coverage) -> Seq<Rgba> {
    match el {
        Element::Path(p) => stroke_layer(fill_layer(pixels, p.fill, cov.fill), p.stroke, cov.stroke),
        Element::Unknown => pixels,
    }
}

/// The pixels after every element is painted in order, each through its
/// own coverage.
pub open spec fn painted(pixels: Seq<Rgba>, els: Seq<Element>, covs: Seq<Coverage>) -> Seq<Rgba>
    decreases els.len(),
{
    if els.len() == 0 {
        pixels
    } else {
        paint_element(painted(pixels, els.drop_last(), covs), els.last(), covs[els.len() - 1])
    }
}

/// The pixels of a cleared canvas.
pub open spec fn blank(w: u32, h: u32) -> Seq<Rgba> {
    Seq::new(w as nat * h as nat, |i: int| cleared())
}

fn push_segment_diagnostics(diags: &mut Vec<Diagnostic>, element: usize, skipped: &Vec<usize>)
    ensures
        final(diags)@ == old(diags)@ + skipped@.map_values(
            |k: usize| Diagnostic::UnsupportedSegment { element, command: k },
        ),
{
    let mut k: usize = 0;
    while k < skipped.len()
        invariant
            0 <= k <= skipped.len(),
            diags@ == old(diags)@ + skipped@.take(k as int).map_values(
                |k: usize| Diagnostic::UnsupportedSegment { element, command: k },
            ),
        decreases skipped.len() - k,
    {
        diags.push(Diagnostic::UnsupportedSegment { element, command: skipped[k] });
        k = k + 1;
        assert(skipped@.take(k as int).map_values(
            |k: usize| Diagnostic::UnsupportedSegment { element, command: k },
        ) =~= skipped@.take(k - 1).map_values(
            |k: usize| Diagnostic::UnsupportedSegment { element, command: k },
        ).push(Diagnostic::UnsupportedSegment { element, command: skipped[k - 1] }));
    }
    assert(skipped@.take(k as int) =~= skipped@);
}

fn push_fallback(diags: &mut Vec<Diagnostic>, element: usize, paint: Option<PaintSource>)
    ensures
        final(diags)@ == old(diags)@ + fallback_of(element as int, paint),
{
    if paint == Some(PaintSource::Server) {
        diags.push(Diagnostic::PaintFallback { element });
    }
    assert(diags@ =~= old(diags)@ + fallback_of(element as int, paint));
}

/// The outcome of reading a document's root and interpreting its paths:
/// the canvas size, the operations of each element (`None` for an element
/// that is not drawn), and the diagnostics so far.
#[derive(Clone, Debug)]
pub struct Plan {
    pub width: u32,
    pub height: u32,
    pub ops: Vec<Option<Vec<CanonicalOp>>>,
    pub diagnostics: Vec<Diagnostic>,
}

/// The coverage masks that one element is painted through.
#[derive(Clone, Debug)]
pub struct ElementCoverage {
    pub fill: Vec<u8>,
    pub stroke: Vec<u8>,
}

impl ElementCoverage {
    pub open spec fn model(self) -> Coverage {
        Coverage { fill: self.fill@, stroke: self.stroke@ }
    }
}

pub open spec fn coverage_models(covs: Seq<ElementCoverage>) -> Seq<Coverage> {
    covs.map_values(|c: ElementCoverage| c.model())
}

/// The document can be rendered: it declares a size that memory can hold
/// and every path resolves within the coordinate type.
pub open spec fn renders(doc: Document) -> bool {
    &&& doc.size matches Some((w, h))
    &&& canvas_fits(w, h)
    &&& forall|k: int| 0 <= k < doc.elements@.len() ==> #[trigger] element_fits(doc.elements@[k])
}

/// The error that a document which does not render fails with.
pub open spec fn error_fits(doc: Document, e: DocumentError) -> bool {
    match e {
        DocumentError::MissingDimensions => doc.size is None,
        DocumentError::CanvasTooLarge => doc.size matches Some((w, h)) && !canvas_fits(w, h),
        DocumentError::CoordinateOverflow { element } => {
            &&& doc.size matches Some((w, h))
            &&& canvas_fits(w, h)
            &&& element < doc.elements@.len()
            &&& !element_fits(doc.elements@[element as int])
            &&& forall|k: int| 0 <= k < element ==> #[trigger] element_fits(doc.elements@[k])
        },
    }
}

/// The operations planned for one element.
pub open spec fn planned(el: Element, ops: Option<Vec<CanonicalOp>>) -> bool {
    match el {
        Element::Path(p) => ops matches Some(o) && models(o@) == ops_of(p.commands@),
        Element::Unknown => ops is None,
    }
}

/// Reads the canvas size from the root and interprets every path element
/// in document order. Fails on the first fatal condition met.
pub fn plan(doc: &Document) -> (r: Result<Plan, DocumentError>)
    ensures
        r is Ok <==> renders(*doc),
        r matches Err(e) ==> error_fits(*doc, e),
        r matches Ok(p) ==> {
            &&& doc.size == Some((p.width, p.height))
            &&& p.ops@.len() == doc.elements@.len()
            &&& forall|k: int| 0 <= k < p.ops@.len() ==> #[trigger] planned(doc.elements@[k], p.ops@[k])
            &&& p.diagnostics@ == diagnostics_of(doc.elements@)
        },
{
    let (w, h) = match doc.size {
        Some(s) => s,
        None => {
            return Err(DocumentError::MissingDimensions);
        },
    };
    if (w as usize).checked_mul(h as usize).is_none() {
        return Err(DocumentError::CanvasTooLarge);
    }
    let mut diagnostics: Vec<Diagnostic> = Vec::new();
    let mut planned_ops: Vec<Option<Vec<CanonicalOp>>> = Vec::new();
    let els = &doc.elements;
    let mut i: usize = 0;
    assert(els@.take(0) =~= seq![]);
    while i < els.len()
        invariant
            0 <= i <= els.len(),
            els == &doc.elements,
            doc.size == Some((w, h)),
            canvas_fits(w, h),
            diagnostics@ == diagnostics_of(els@.take(i as int)),
            planned_ops@.len() == i,
            forall|k: int| 0 <= k < i ==> #[trigger] planned(els@[k], planned_ops@[k]),
            forall|k: int| 0 <= k < i ==> #[trigger] element_fits(els@[k]),
        decreases els.len() - i,
    {
        let ghost prev = els@.take(i as int);
        let ghost next = els@.take(i + 1);
        let ghost diags0 = diagnostics@;
        assert(next.drop_last() =~= prev);
        assert(next.last() == els@[i as int]);
        match &els[i] {
            Element::Unknown => {
                diagnostics.push(Diagnostic::UnsupportedElement { element: i });
                planned_ops.push(None);
                assert(diagnostics@ =~= diags0 + element_diagnostics(i as int, els@[i as int]));
            },
            Element::Path(p) => {
                let interp = match interpret(&p.commands) {
                    Ok(x) => x,
                    Err(_) => {
                        assert(!element_fits(els@[i as int]));
                        return Err(DocumentError::CoordinateOverflow { element: i });
                    },
                };
                push_segment_diagnostics(&mut diagnostics, i, &interp.skipped);
                assert(interp.skipped@.map_values(
                    |k: usize| Diagnostic::UnsupportedSegment { element: i, command: k },
                ) =~= segment_diagnostics(i as int, skipped_of(p.commands@))) by {
                    assert forall|j: int| 0 <= j < interp.skipped@.len() implies interp.skipped@[j]
                        as int == skipped_of(p.commands@)[j] by {
                        assert(interp.skipped@.map_values(|k: usize| k as int)[j] == skipped_of(
                            p.commands@,
                        )[j]);
                    }
                }
                push_fallback(
                    &mut diagnostics,
                    i,
                    match p.fill {
                        Some(f) => Some(f.paint),
                        None => None,
                    },
                );
                push_fallback(
                    &mut diagnostics,
                    i,
                    match p.stroke {
                        Some(s) => Some(s.paint),
                        None => None,
                    },
                );
                assert(diagnostics@ =~= diags0 + element_diagnostics(i as int, els@[i as int]));
                planned_ops.push(Some(interp.ops));
            },
        }
        i = i + 1;
    }
    assert(els@.take(els.len() as int) =~= els@);
    Ok(Plan { width: w, height: h, ops: planned_ops, diagnostics })
}

/// Paints the elements in document order, each through its own coverage:
/// a path's fill and then its stroke; an element that is not a path
/// paints nothing.
pub fn paint_elements(raster: &mut Raster, elements: &Vec<Element>, coverage: &Vec<ElementCoverage>)
    requires
        old(raster).wf(),
        coverage@.len() == elements@.len(),
    ensures
        final(raster).wf(),
        final(raster)@.width == old(raster)@.width,
        final(raster)@.height == old(raster)@.height,
        final(raster)@.pixels == painted(old(raster)@.pixels, elements@, coverage_models(coverage@)),
{
    let ghost start = raster@.pixels;
    let ghost covs = coverage_models(coverage@);
    let mut i: usize = 0;
    assert(elements@.take(0) =~= seq![]);
    while i < elements.len()
        invariant
            0 <= i <= elements.len(),
            coverage@.len() == elements@.len(),
            covs == coverage_models(coverage@),
            raster.wf(),
            raster@.width == old(raster)@.width,
            raster@.height == old(raster)@.height,
            start == old(raster)@.pixels,
            raster@.pixels == painted(start, elements@.take(i as int), covs),
        decreases elements.len() - i,
    {
        let ghost prev = elements@.take(i as int);
        let ghost next = elements@.take(i + 1);
        let ghost before = raster@.pixels;
        assert(next.drop_last() =~= prev);
        assert(next.last() == elements@[i as int]);
        match &elements[i] {
            Element::Unknown => {},
            Element::Path(p) => {
                composite(raster, &p.fill, &coverage[i].fill, &p.stroke, &coverage[i].stroke);
            },
        }
        assert(covs[i as int] == coverage@[i as int].model());
        assert(raster@.pixels == paint_element(before, elements@[i as int], covs[i as int]));
        i = i + 1;
    }
    assert(elements@.take(elements.len() as int) =~= elements@);
}

/// Renders a document: allocates the canvas its root declares, cleared, and
/// paints each path element on it in document order, fill before stroke,
/// through the coverage that `rasterizer` computes for its operations.
/// Elements and commands of other kinds are skipped and reported.
pub fn render<R: Rasterizer>(doc: &Document, rasterizer: &mut R) -> (r: Result<Rendered, DocumentError>)
    ensures
        r is Ok <==> renders(*doc),
        r matches Err(e) ==> error_fits(*doc, e),
        r matches Ok(out) ==> {
            &&& doc.size matches Some((w, h))
            &&& out.raster.wf()
            &&& out.raster@.width == w
            &&& out.raster@.height == h
            &&& out.diagnostics@ == diagnostics_of(doc.elements@)
            &&& exists|covs: Seq<Coverage>|
                covs.len() == doc.elements@.len() && out.raster@.pixels == #[trigger] painted(
                    blank(w, h),
                    doc.elements@,
                    covs,
                )
        },
{
    let p = match plan(doc) {
        Ok(p) => p,
        Err(e) => {
            return Err(e);
        },
    };
    let mut raster = match Raster::with_clear(p.width, p.height) {
        Some(ras) => ras,
        None => {
            return Err(DocumentError::CanvasTooLarge);
        },
    };
    let mut coverage: Vec<ElementCoverage> = Vec::new();
    let mut i: usize = 0;
    while i < p.ops.len()
        invariant
            0 <= i <= p.ops.len(),
            p.ops@.len() == doc.elements@.len(),
            coverage@.len() == i,
        decreases p.ops.len() - i,
    {
        let mut fill: Vec<u8> = Vec::new();
        let mut stroke: Vec<u8> = Vec::new();
        match (&doc.elements[i], &p.ops[i]) {
            (Element::Path(e), Some(ops)) => {
                match e.fill {
                    Some(f) => {
                        fill = rasterizer.fill(p.width, p.height, ops, f.rule);
                    },
                    None => {},
                }
                match e.stroke {
                    Some(s) => {
                        stroke = rasterizer.stroke(p.width, p.height, ops, s.width, s.join);
                    },
                    None => {},
                }
            },
            _ => {},
        }
        coverage.push(ElementCoverage { fill, stroke });
        i = i + 1;
    }
    paint_elements(&mut raster, &doc.elements, &coverage);
    assert(raster@.pixels == painted(
        blank(p.width, p.height),
        doc.elements@,
        coverage_models(coverage@),
    ));
    Ok(Rendered { raster, diagnostics: p.diagnostics })
}

/// Coverage past the painted elements plays no part.
proof fn lemma_painted_extra_coverage(
    pixels: Seq<Rgba>,
    els: Seq<Element>,
    covs: Seq<Coverage>,
    more: Seq<Coverage>,
)
    requires
        covs.len() >= els.len(),
        more.len() >= covs.len(),
        forall|k: int| 0 <= k < covs.len() ==> more[k] == covs[k],
    ensures
        painted(pixels, els, covs) == painted(pixels, els, more),
    decreases els.len(),
{
    if els.len() > 0 {
        lemma_painted_extra_coverage(pixels, els.drop_last(), covs, more);
    }
}

/// An element of unknown kind, wherever it stands among the others, never
/// stops a render and does not change what the elements around it paint.
pub proof fn lemma_unknown_element_is_transparent(
    pixels: Seq<Rgba>,
    before: Seq<Element>,
    after: Seq<Element>,
    before_covs: Seq<Coverage>,
    own: Coverage,
    after_covs: Seq<Coverage>,
)
    requires
        before_covs.len() == before.len(),
        after_covs.len() == after.len(),
    ensures
        element_fits(Element::Unknown),
        painted(
            pixels,
            before.push(Element::Unknown) + after,
            before_covs.push(own) + after_covs,
        ) == painted(pixels, before + after, before_covs + after_covs),
    decreases after.len(),
{
    let els = before.push(Element::Unknown) + after;
    let covs = before_covs.push(own) + after_covs;
    if after.len() == 0 {
        assert(els =~= before.push(Element::Unknown));
        assert(covs =~= before_covs.push(own));
        assert(before + after =~= before);
        assert(before_covs + after_covs =~= before_covs);
        assert(els.drop_last() =~= before);
        lemma_painted_extra_coverage(pixels, before, before_covs, covs);
    } else {
        let a2 = after.drop_last();
        let c2 = after_covs.drop_last();
        lemma_unknown_element_is_transparent(pixels, before, a2, before_covs, own, c2);
        assert(els.drop_last() =~= before.push(Element::Unknown) + a2);
        assert((before + after).drop_last() =~= before + a2);
        lemma_painted_extra_coverage(pixels, els.drop_last(), before_covs.push(own) + c2, covs);
        lemma_painted_extra_coverage(
            pixels,
            before + a2,
            before_covs + c2,
            before_covs + after_covs,
        );
    }
}

/// Where a later path element is filled opaquely with full coverage and has
/// no stroke, its color shows, whatever an earlier element painted there.
pub proof fn lemma_later_opaque_fill_wins(
    pixels: Seq<Rgba>,
    first: Element,
    second: PathElement,
    color: Color,
    rule: FillRule,
    first_cov: Coverage,
    second_cov: Coverage,
    k: int,
)
    requires
        second.fill == Some(Fill { paint: PaintSource::Solid(color), opacity: 255, rule }),
        second.stroke is None,
        0 <= k < pixels.len(),
        k < second_cov.fill.len(),
        second_cov.fill[k] == 255,
    ensures
        painted(pixels, seq![first, Element::Path(second)], seq![first_cov, second_cov])[k] == (Rgba {
            red: color.red,
            green: color.green,
            blue: color.blue,
            alpha: 255,
        }),
{
    let els = seq![first, Element::Path(second)];
    let covs = seq![first_cov, second_cov];
    assert(els.drop_last() =~= seq![first]);
    assert(seq![first].drop_last() =~= Seq::<Element>::empty());
    let under = paint_element(pixels, first, first_cov);
    assert(under.len() == pixels.len());
    assert(painted(pixels, Seq::<Element>::empty(), covs) == pixels);
    assert(covs[0] == first_cov);
    assert(painted(pixels, seq![first], covs) == under);
    lemma_opaque_cover_wins(color, under[k]);
}

} // verus!
