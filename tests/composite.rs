use foosvg::paint::{composite, paint_color, Fill, FillRule, LineJoin, PaintSource, Stroke};
use foosvg::path::{CanonicalOp, PathCommand, Point};
use foosvg::raster::{mul_255, source_color, source_over, Color, Raster, Rgba};
use foosvg::render::{
    paint_elements, plan, render, Diagnostic, Document, DocumentError, Element, ElementCoverage, PathElement, Rasterizer,
};
use footile::{JoinStyle, PathOp, Plotter};
use pix::el::Pixel;
use pix::matte::Matte8;
use pointy::Pt;

/// Coverage from footile, drawn into an alpha-only raster.
struct FootileCoverage;

fn pt(p: Point) -> Pt<f32> {
    Pt::new(p.x as f32, p.y as f32)
}

fn path_ops(ops: &[CanonicalOp]) -> Vec<PathOp> {
    ops.iter()
        .map(|op| match *op {
            CanonicalOp::MoveTo(p) => PathOp::Move(pt(p)),
            CanonicalOp::LineTo(p) => PathOp::Line(pt(p)),
            CanonicalOp::QuadTo(c, p) => PathOp::Quad(pt(c), pt(p)),
            CanonicalOp::CubicTo(c1, c2, p) => PathOp::Cubic(pt(c1), pt(c2), pt(p)),
            CanonicalOp::Close => PathOp::Close(),
        })
        .collect()
}

fn coverage(plotter: &Plotter<Matte8>) -> Vec<u8> {
    plotter.raster().pixels().iter().map(|m| u8::from(m.alpha())).collect()
}

impl Rasterizer for FootileCoverage {
    fn fill(&mut self, width: u32, height: u32, ops: &Vec<CanonicalOp>, rule: FillRule) -> Vec<u8> {
        let mut p = Plotter::new(pix::Raster::<Matte8>::with_clear(width, height));
        let rule = match rule {
            FillRule::NonZero => footile::FillRule::NonZero,
            FillRule::EvenOdd => footile::FillRule::EvenOdd,
        };
        p.fill(rule, path_ops(ops).iter(), Matte8::new(255u8));
        coverage(&p)
    }

    fn stroke(
        &mut self,
        width: u32,
        height: u32,
        ops: &Vec<CanonicalOp>,
        stroke_width: i64,
        join: LineJoin,
    ) -> Vec<u8> {
        let mut p = Plotter::new(pix::Raster::<Matte8>::with_clear(width, height));
        p.set_join(match join {
            LineJoin::Miter(limit) => JoinStyle::Miter(limit as f32),
            LineJoin::Bevel => JoinStyle::Bevel,
            LineJoin::Round => JoinStyle::Round,
        });
        let mut path = vec![PathOp::PenWidth(stroke_width as f32)];
        path.extend(path_ops(ops));
        p.stroke(path.iter(), Matte8::new(255u8));
        coverage(&p)
    }
}

fn square(x0: i64, y0: i64, x1: i64, y1: i64) -> Vec<PathCommand> {
    vec![
        PathCommand::Move { relative: false, to: Point { x: x0, y: y0 } },
        PathCommand::Line { relative: false, to: Point { x: x1, y: y0 } },
        PathCommand::Line { relative: false, to: Point { x: x1, y: y1 } },
        PathCommand::Line { relative: false, to: Point { x: x0, y: y1 } },
        PathCommand::Close { relative: false },
    ]
}

fn filled(commands: Vec<PathCommand>, color: Color) -> Element {
    Element::Path(PathElement {
        commands,
        fill: Some(Fill { paint: PaintSource::Solid(color), opacity: 255, rule: FillRule::NonZero }),
        stroke: None,
    })
}

const RED: Color = Color { red: 255, green: 0, blue: 0 };
const BLUE: Color = Color { red: 0, green: 0, blue: 255 };
const CLEAR: Rgba = Rgba { red: 0, green: 0, blue: 0, alpha: 0 };
const OPAQUE_RED: Rgba = Rgba { red: 255, green: 0, blue: 0, alpha: 255 };
const OPAQUE_BLUE: Rgba = Rgba { red: 0, green: 0, blue: 255, alpha: 255 };

#[test]
fn filled_square_is_painted_inside_only() {
    let doc = Document { size: Some((100, 100)), elements: vec![filled(square(10, 10, 90, 10 + 80), RED)] };
    let out = render(&doc, &mut FootileCoverage).unwrap();
    assert_eq!(out.raster.width(), 100);
    assert_eq!(out.raster.height(), 100);
    assert_eq!(out.raster.pixel(50, 50), OPAQUE_RED);
    assert_eq!(out.raster.pixel(5, 5), CLEAR);
    assert!(out.diagnostics.is_empty());
}

#[test]
fn later_element_wins_where_shapes_overlap() {
    let doc = Document {
        size: Some((100, 100)),
        elements: vec![filled(square(10, 10, 60, 60), BLUE), filled(square(40, 40, 90, 90), RED)],
    };
    let out = render(&doc, &mut FootileCoverage).unwrap();
    assert_eq!(out.raster.pixel(50, 50), OPAQUE_RED);
    assert_eq!(out.raster.pixel(20, 20), OPAQUE_BLUE);
    assert_eq!(out.raster.pixel(80, 80), OPAQUE_RED);
    assert_eq!(out.raster.pixel(95, 5), CLEAR);
}

#[test]
fn unknown_element_between_paths_is_skipped() {
    let doc = Document {
        size: Some((100, 100)),
        elements: vec![filled(square(0, 0, 30, 30), BLUE), Element::Unknown, filled(square(60, 60, 90, 90), RED)],
    };
    let out = render(&doc, &mut FootileCoverage).unwrap();
    assert_eq!(out.raster.pixel(15, 15), OPAQUE_BLUE);
    assert_eq!(out.raster.pixel(75, 75), OPAQUE_RED);
    assert_eq!(out.raster.pixel(45, 45), CLEAR);
    assert_eq!(out.diagnostics, vec![Diagnostic::UnsupportedElement { element: 1 }]);
}

#[test]
fn stroke_lies_over_fill() {
    let doc = Document {
        size: Some((100, 100)),
        elements: vec![Element::Path(PathElement {
            commands: square(20, 20, 80, 80),
            fill: Some(Fill { paint: PaintSource::Solid(BLUE), opacity: 255, rule: FillRule::EvenOdd }),
            stroke: Some(Stroke { paint: PaintSource::Solid(RED), opacity: 255, width: 10, join: LineJoin::Miter(4) }),
        })],
    };
    let out = render(&doc, &mut FootileCoverage).unwrap();
    assert_eq!(out.raster.pixel(50, 20), OPAQUE_RED);
    assert_eq!(out.raster.pixel(50, 50), OPAQUE_BLUE);
    assert_eq!(out.raster.pixel(5, 5), CLEAR);
}

#[test]
fn paint_server_falls_back_to_black_and_is_reported() {
    let doc = Document {
        size: Some((20, 20)),
        elements: vec![Element::Path(PathElement {
            commands: vec![
                PathCommand::Move { relative: false, to: Point { x: 0, y: 0 } },
                PathCommand::Unsupported,
                PathCommand::HorizontalLine { relative: false, x: 20 },
                PathCommand::VerticalLine { relative: false, y: 20 },
                PathCommand::HorizontalLine { relative: false, x: 0 },
                PathCommand::Close { relative: false },
            ],
            fill: Some(Fill { paint: PaintSource::Server, opacity: 255, rule: FillRule::NonZero }),
            stroke: None,
        })],
    };
    let out = render(&doc, &mut FootileCoverage).unwrap();
    assert_eq!(out.raster.pixel(10, 10), Rgba { red: 0, green: 0, blue: 0, alpha: 255 });
    assert_eq!(
        out.diagnostics,
        vec![
            Diagnostic::UnsupportedSegment { element: 0, command: 1 },
            Diagnostic::PaintFallback { element: 0 }
        ]
    );
}

#[test]
fn missing_dimensions_is_an_error() {
    let doc = Document { size: None, elements: vec![filled(square(0, 0, 1, 1), RED)] };
    assert_eq!(render(&doc, &mut FootileCoverage).unwrap_err(), DocumentError::MissingDimensions);
}

#[test]
fn overflow_names_the_first_failing_element() {
    let bad = vec![
        PathCommand::Move { relative: false, to: Point { x: i64::MAX, y: 0 } },
        PathCommand::Line { relative: true, to: Point { x: 1, y: 0 } },
    ];
    let doc = Document {
        size: Some((100, 100)),
        elements: vec![filled(square(0, 0, 5, 5), RED), Element::Unknown, filled(bad.clone(), RED), filled(bad, BLUE)],
    };
    assert_eq!(
        render(&doc, &mut FootileCoverage).unwrap_err(),
        DocumentError::CoordinateOverflow { element: 2 }
    );
}

#[test]
fn empty_document_is_a_cleared_canvas() {
    let doc = Document { size: Some((3, 2)), elements: vec![] };
    let out = render(&doc, &mut FootileCoverage).unwrap();
    assert_eq!(out.raster.pixels().len(), 6);
    assert!(out.raster.pixels().iter().all(|p| *p == CLEAR));
}

#[test]
fn blending_formulas() {
    assert_eq!(mul_255(255, 128), 128);
    assert_eq!(mul_255(0, 200), 0);
    assert_eq!(mul_255(255, 255), 255);
    let src = source_color(Color { red: 200, green: 100, blue: 50 }, 128, 255);
    assert_eq!(src, Rgba { red: 100, green: 50, blue: 25, alpha: 128 });
    assert_eq!(
        source_over(src, OPAQUE_BLUE),
        Rgba { red: 100, green: 50, blue: 152, alpha: 255 }
    );
    assert_eq!(source_over(source_color(RED, 255, 255), OPAQUE_BLUE), OPAQUE_RED);
    assert_eq!(source_color(RED, 255, 0), CLEAR);
}

#[test]
fn blend_mask_covers_only_the_mask() {
    let mut r = Raster::with_clear(2, 2).unwrap();
    r.blend_mask(&vec![255, 0, 128], RED, 255);
    assert_eq!(r.pixel(0, 0), OPAQUE_RED);
    assert_eq!(r.pixel(1, 0), CLEAR);
    assert_eq!(r.pixel(0, 1), Rgba { red: 128, green: 0, blue: 0, alpha: 128 });
    assert_eq!(r.pixel(1, 1), CLEAR);
}

#[test]
fn composite_applies_fill_then_stroke() {
    let mut r = Raster::with_clear(2, 1).unwrap();
    let fill = Some(Fill { paint: PaintSource::Solid(BLUE), opacity: 255, rule: FillRule::NonZero });
    let stroke = Some(Stroke { paint: PaintSource::Solid(RED), opacity: 255, width: 1, join: LineJoin::Round });
    composite(&mut r, &fill, &vec![255, 255], &stroke, &vec![0, 255]);
    assert_eq!(r.pixel(0, 0), OPAQUE_BLUE);
    assert_eq!(r.pixel(1, 0), OPAQUE_RED);
}

#[test]
fn paint_colors() {
    assert_eq!(paint_color(PaintSource::Solid(RED)), RED);
    assert_eq!(paint_color(PaintSource::Server), Color { red: 0, green: 0, blue: 0 });
}

#[test]
fn plan_interprets_each_path_and_skips_the_rest() {
    let doc = Document {
        size: Some((40, 30)),
        elements: vec![
            filled(
                vec![
                    PathCommand::Move { relative: true, to: Point { x: 2, y: 3 } },
                    PathCommand::Line { relative: true, to: Point { x: 4, y: 0 } },
                ],
                RED,
            ),
            Element::Unknown,
        ],
    };
    let p = plan(&doc).unwrap();
    assert_eq!((p.width, p.height), (40, 30));
    assert_eq!(
        p.ops,
        vec![
            Some(vec![
                CanonicalOp::MoveTo(Point { x: 2, y: 3 }),
                CanonicalOp::LineTo(Point { x: 6, y: 3 })
            ]),
            None
        ]
    );
    assert_eq!(p.diagnostics, vec![Diagnostic::UnsupportedElement { element: 1 }]);
    assert_eq!(plan(&Document { size: None, elements: vec![] }).unwrap_err(), DocumentError::MissingDimensions);
}

#[test]
fn paint_elements_uses_each_elements_own_coverage() {
    let mut r = Raster::with_clear(3, 1).unwrap();
    let elements = vec![filled(vec![], BLUE), Element::Unknown, filled(vec![], RED)];
    let coverage = vec![
        ElementCoverage { fill: vec![255, 255, 0], stroke: vec![] },
        ElementCoverage { fill: vec![255, 255, 255], stroke: vec![255, 255, 255] },
        ElementCoverage { fill: vec![0, 255], stroke: vec![] },
    ];
    paint_elements(&mut r, &elements, &coverage);
    assert_eq!(r.pixel(0, 0), OPAQUE_BLUE);
    assert_eq!(r.pixel(1, 0), OPAQUE_RED);
    assert_eq!(r.pixel(2, 0), CLEAR);
}
