//! Properties of path interpretation that relate several commands or
//! several sequences of commands.
use vstd::prelude::*;
use crate::path::{
    emitted, fits, in_i64, next_pen, ops_of, pen_after, resolve, skipped_of, step_fits, ModelOp,
    Pen, PathCommand, Point,
};

verus! {

/// Appending a command that resolves within `i64` keeps a sequence within `i64`.
pub proof fn lemma_fits_push(prev: Seq<PathCommand>, c: PathCommand)
    requires
        fits(prev),
        step_fits(pen_after(prev), c),
    ensures
        fits(prev.push(c)),
{
    let s = prev.push(c);
    assert(s.drop_last() =~= prev);
    assert forall|k: int| 0 <= k < s.len() implies #[trigger] step_fits(pen_after(s.take(k)), s[k]) by {
        if k < prev.len() {
            assert(s.take(k) =~= prev.take(k));
        } else {
            assert(s.take(k) =~= prev);
        }
    }
}

/// A prefix of a sequence within `i64` is within `i64`.
pub proof fn lemma_fits_prefix(cmds: Seq<PathCommand>)
    requires
        cmds.len() > 0,
        fits(cmds),
    ensures
        fits(cmds.drop_last()),
        step_fits(pen_after(cmds.drop_last()), cmds.last()),
{
    let prev = cmds.drop_last();
    assert forall|k: int| 0 <= k < prev.len() implies #[trigger] step_fits(pen_after(prev.take(k)), prev[k]) by {
        assert(prev.take(k) =~= cmds.take(k));
        assert(step_fits(pen_after(cmds.take(k)), cmds[k]));
    }
    assert(cmds.take(prev.len() as int) =~= prev);
    assert(step_fits(pen_after(cmds.take(prev.len() as int)), cmds[prev.len() as int]));
}

/// An absolute move, line or curve, or a close.
pub open spec fn is_direct(c: PathCommand) -> bool {
    match c {
        PathCommand::Move { relative, .. } => !relative,
        PathCommand::Line { relative, .. } => !relative,
        PathCommand::Quadratic { relative, .. } => !relative,
        PathCommand::Cubic { relative, .. } => !relative,
        PathCommand::Close { .. } => true,
        _ => false,
    }
}

/// The operation that a direct command names, with its own coordinates.
pub open spec fn direct_op(c: PathCommand) -> ModelOp {
    match c {
        PathCommand::Move { to, .. } => ModelOp::MoveTo(to.x as int, to.y as int),
        PathCommand::Line { to, .. } => ModelOp::LineTo(to.x as int, to.y as int),
        PathCommand::Quadratic { ctrl, to, .. } => ModelOp::QuadTo(
            ctrl.x as int,
            ctrl.y as int,
            to.x as int,
            to.y as int,
        ),
        PathCommand::Cubic { ctrl1, ctrl2, to, .. } => ModelOp::CubicTo(
            ctrl1.x as int,
            ctrl1.y as int,
            ctrl2.x as int,
            ctrl2.y as int,
            to.x as int,
            to.y as int,
        ),
        _ => ModelOp::Close,
    }
}

pub open spec fn pen_in_i64(p: Pen) -> bool {
    in_i64(p.x) && in_i64(p.y) && in_i64(p.start_x) && in_i64(p.start_y)
}

/// Absolute moves, lines and curves, and closes, are drawn with exactly the
/// coordinates they give, and never overflow.
pub proof fn lemma_absolute_identity(cmds: Seq<PathCommand>)
    requires
        forall|k: int| 0 <= k < cmds.len() ==> is_direct(#[trigger] cmds[k]),
    ensures
        fits(cmds),
        ops_of(cmds) == cmds.map_values(|c: PathCommand| direct_op(c)),
        pen_in_i64(pen_after(cmds)),
    decreases cmds.len(),
{
    if cmds.len() > 0 {
        let prev = cmds.drop_last();
        assert forall|k: int| 0 <= k < prev.len() implies is_direct(#[trigger] prev[k]) by {
            assert(prev[k] == cmds[k]);
        }
        lemma_absolute_identity(prev);
        assert(is_direct(cmds[cmds.len() - 1]));
        lemma_fits_push(prev, cmds.last());
        assert(prev.push(cmds.last()) =~= cmds);
        assert(cmds.map_values(|c: PathCommand| direct_op(c)) =~= prev.map_values(
            |c: PathCommand| direct_op(c),
        ).push(direct_op(cmds.last())));
    } else {
        assert(cmds.map_values(|c: PathCommand| direct_op(c)) =~= seq![]);
        assert forall|k: int| 0 <= k < cmds.len() implies #[trigger] step_fits(pen_after(cmds.take(k)), cmds[k]) by {}
    }
}

/// The command that resolves to the same coordinates from the given cursor
/// without being relative. Needs the resolved values to fit in `i64`.
pub open spec fn absolute_form(pen: Pen, c: PathCommand) -> PathCommand {
    match c {
        PathCommand::Move { relative, to } => PathCommand::Move {
            relative: false,
            to: Point { x: resolve(relative, pen.x, to.x) as i64, y: resolve(relative, pen.y, to.y) as i64 },
        },
        PathCommand::Line { relative, to } => PathCommand::Line {
            relative: false,
            to: Point { x: resolve(relative, pen.x, to.x) as i64, y: resolve(relative, pen.y, to.y) as i64 },
        },
        PathCommand::HorizontalLine { relative, x } => PathCommand::HorizontalLine {
            relative: false,
            x: resolve(relative, pen.x, x) as i64,
        },
        PathCommand::VerticalLine { relative, y } => PathCommand::VerticalLine {
            relative: false,
            y: resolve(relative, pen.y, y) as i64,
        },
        PathCommand::Quadratic { relative, ctrl, to } => PathCommand::Quadratic {
            relative: false,
            ctrl: Point {
                x: resolve(relative, pen.x, ctrl.x) as i64,
                y: resolve(relative, pen.y, ctrl.y) as i64,
            },
            to: Point { x: resolve(relative, pen.x, to.x) as i64, y: resolve(relative, pen.y, to.y) as i64 },
        },
        PathCommand::Cubic { relative, ctrl1, ctrl2, to } => PathCommand::Cubic {
            relative: false,
            ctrl1: Point {
                x: resolve(relative, pen.x, ctrl1.x) as i64,
                y: resolve(relative, pen.y, ctrl1.y) as i64,
            },
            ctrl2: Point {
                x: resolve(relative, pen.x, ctrl2.x) as i64,
                y: resolve(relative, pen.y, ctrl2.y) as i64,
            },
            to: Point { x: resolve(relative, pen.x, to.x) as i64, y: resolve(relative, pen.y, to.y) as i64 },
        },
        PathCommand::Close { .. } => PathCommand::Close { relative: false },
        PathCommand::Unsupported => PathCommand::Unsupported,
    }
}

/// Each command replaced by its absolute form against the running cursor.
pub open spec fn absolutized(cmds: Seq<PathCommand>) -> Seq<PathCommand> {
    Seq::new(cmds.len(), |k: int| absolute_form(pen_after(cmds.take(k)), cmds[k]))
}

proof fn lemma_absolute_form_step(pen: Pen, c: PathCommand)
    requires
        step_fits(pen, c),
    ensures
        step_fits(pen, absolute_form(pen, c)),
        next_pen(pen, absolute_form(pen, c)) == next_pen(pen, c),
        emitted(pen, absolute_form(pen, c)) == emitted(pen, c),
{
}

/// Replacing every relative command by the absolute command that resolves to
/// the same coordinates leaves the drawn operations, the skipped commands and
/// the cursor unchanged.
pub proof fn lemma_relative_absolute_equivalence(cmds: Seq<PathCommand>)
    requires
        fits(cmds),
    ensures
        fits(absolutized(cmds)),
        ops_of(absolutized(cmds)) == ops_of(cmds),
        skipped_of(absolutized(cmds)) == skipped_of(cmds),
        pen_after(absolutized(cmds)) == pen_after(cmds),
    decreases cmds.len(),
{
    let a = absolutized(cmds);
    if cmds.len() == 0 {
        assert(a =~= seq![]);
        assert forall|k: int| 0 <= k < a.len() implies #[trigger] step_fits(pen_after(a.take(k)), a[k]) by {}
    } else {
        let prev = cmds.drop_last();
        lemma_fits_prefix(cmds);
        lemma_relative_absolute_equivalence(prev);
        assert(a.drop_last() =~= absolutized(prev)) by {
            assert forall|k: int| 0 <= k < prev.len() implies prev.take(k) == cmds.take(k) by {
                assert(prev.take(k) =~= cmds.take(k));
            }
        }
        assert(cmds.take(prev.len() as int) =~= prev);
        let pen = pen_after(prev);
        lemma_absolute_form_step(pen, cmds.last());
        assert(a.last() == absolute_form(pen, cmds.last()));
        lemma_fits_push(a.drop_last(), a.last());
        assert(a.drop_last().push(a.last()) =~= a);
    }
}

/// A horizontal line keeps the cursor's y and sets or offsets its x; a
/// vertical line does the same on the other axis.
pub proof fn lemma_axis_lines(prefix: Seq<PathCommand>, v: i64)
    ensures
        ops_of(prefix.push(PathCommand::HorizontalLine { relative: false, x: v })) == ops_of(
            prefix,
        ).push(ModelOp::LineTo(v as int, pen_after(prefix).y)),
        ops_of(prefix.push(PathCommand::HorizontalLine { relative: true, x: v })) == ops_of(
            prefix,
        ).push(ModelOp::LineTo(pen_after(prefix).x + v, pen_after(prefix).y)),
        ops_of(prefix.push(PathCommand::VerticalLine { relative: false, y: v })) == ops_of(
            prefix,
        ).push(ModelOp::LineTo(pen_after(prefix).x, v as int)),
        ops_of(prefix.push(PathCommand::VerticalLine { relative: true, y: v })) == ops_of(
            prefix,
        ).push(ModelOp::LineTo(pen_after(prefix).x, pen_after(prefix).y + v)),
{
    assert(prefix.push(PathCommand::HorizontalLine { relative: false, x: v }).drop_last() =~= prefix);
    assert(prefix.push(PathCommand::HorizontalLine { relative: true, x: v }).drop_last() =~= prefix);
    assert(prefix.push(PathCommand::VerticalLine { relative: false, y: v }).drop_last() =~= prefix);
    assert(prefix.push(PathCommand::VerticalLine { relative: true, y: v }).drop_last() =~= prefix);
}

/// After a quadratic or cubic curve the cursor stands at the curve's
/// endpoint, whatever its control points, so a relative line that follows is
/// drawn from the endpoint.
pub proof fn lemma_curve_moves_cursor_to_endpoint(
    prefix: Seq<PathCommand>,
    relative: bool,
    ctrl1: Point,
    ctrl2: Point,
    to: Point,
    d: Point,
)
    ensures
        ({
            let p = pen_after(prefix);
            let ex = resolve(relative, p.x, to.x);
            let ey = resolve(relative, p.y, to.y);
            let q = prefix.push(PathCommand::Quadratic { relative, ctrl: ctrl1, to });
            let c = prefix.push(PathCommand::Cubic { relative, ctrl1, ctrl2, to });
            let line = PathCommand::Line { relative: true, to: d };
            &&& pen_after(q) == Pen { x: ex, y: ey, ..p }
            &&& pen_after(c) == Pen { x: ex, y: ey, ..p }
            &&& ops_of(q.push(line)).last() == ModelOp::LineTo(ex + d.x, ey + d.y)
            &&& ops_of(c.push(line)).last() == ModelOp::LineTo(ex + d.x, ey + d.y)
        }),
{
    let q = prefix.push(PathCommand::Quadratic { relative, ctrl: ctrl1, to });
    let c = prefix.push(PathCommand::Cubic { relative, ctrl1, ctrl2, to });
    let line = PathCommand::Line { relative: true, to: d };
    assert(q.drop_last() =~= prefix);
    assert(c.drop_last() =~= prefix);
    assert(q.push(line).drop_last() =~= q);
    assert(c.push(line).drop_last() =~= c);
}

} // verus!
