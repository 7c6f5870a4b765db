//! Resolution of relative and absolute path commands into canonical,
//! absolute drawing operations.
use vstd::prelude::*;

verus! {

/// A position in document units. Coordinates are fixed-point integers; the
/// scale is chosen by whoever builds the commands.
#[derive(Clone, Copy, Debug, PartialEq, Eq, Structural)]
pub struct Point {
    pub x: i64,
    pub y: i64,
}

/// One drawing command as the document states it. `relative` commands give
/// their operands as offsets from the cursor.
#[derive(Clone, Copy, Debug, PartialEq, Eq, Structural)]
pub enum PathCommand {
    Move { relative: bool, to: Point },
    Line { relative: bool, to: Point },
    HorizontalLine { relative: bool, x: i64 },
    VerticalLine { relative: bool, y: i64 },
    Quadratic { relative: bool, ctrl: Point, to: Point },
    Cubic { relative: bool, ctrl1: Point, ctrl2: Point, to: Point },
    /// Closes the subpath. The flag does not change the outcome: the cursor
    /// always returns to the start of the current subpath.
    Close { relative: bool },
    /// A command kind that this interpreter does not draw.
    Unsupported,
}

/// A drawing operation with absolute coordinates.
#[derive(Clone, Copy, Debug, PartialEq, Eq, Structural)]
pub enum CanonicalOp {
    MoveTo(Point),
    LineTo(Point),
    QuadTo(Point, Point),
    CubicTo(Point, Point, Point),
    Close,
}

/// A canonical operation over mathematical integers.
pub enum ModelOp {
    MoveTo(int, int),
    LineTo(int, int),
    QuadTo(int, int, int, int),
    CubicTo(int, int, int, int, int, int),
    Close,
}

impl CanonicalOp {
    pub open spec fn model(self) -> ModelOp {
        match self {
            CanonicalOp::MoveTo(p) => ModelOp::MoveTo(p.x as int, p.y as int),
            CanonicalOp::LineTo(p) => ModelOp::LineTo(p.x as int, p.y as int),
            CanonicalOp::QuadTo(c, p) => ModelOp::QuadTo(c.x as int, c.y as int, p.x as int, p.y as int),
            CanonicalOp::CubicTo(c1, c2, p) => ModelOp::CubicTo(
                c1.x as int,
                c1.y as int,
                c2.x as int,
                c2.y as int,
                p.x as int,
                p.y as int,
            ),
            CanonicalOp::Close => ModelOp::Close,
        }
    }
}

/// The models of a sequence of operations.
pub open spec fn models(ops: Seq<CanonicalOp>) -> Seq<ModelOp> {
    ops.map_values(|op: CanonicalOp| op.model())
}

/// The cursor over mathematical integers: the current position and the
/// start of the current subpath.
pub struct Pen {
    pub x: int,
    pub y: int,
    pub start_x: int,
    pub start_y: int,
}

pub open spec fn origin() -> Pen {
    Pen { x: 0, y: 0, start_x: 0, start_y: 0 }
}

/// One operand resolved against the cursor's value on the same axis.
pub open spec fn resolve(relative: bool, base: int, v: i64) -> int {
    if relative {
        base + v
    } else {
        v as int
    }
}

pub open spec fn in_i64(v: int) -> bool {
    i64::MIN <= v <= i64::MAX
}

/// The cursor after one command.
pub open spec fn next_pen(pen: Pen, c: PathCommand) -> Pen {
    match c {
        PathCommand::Move { relative, to } => {
            let x = resolve(relative, pen.x, to.x);
            let y = resolve(relative, pen.y, to.y);
            Pen { x, y, start_x: x, start_y: y }
        },
        PathCommand::Line { relative, to } => Pen {
            x: resolve(relative, pen.x, to.x),
            y: resolve(relative, pen.y, to.y),
            ..pen
        },
        PathCommand::HorizontalLine { relative, x } => Pen { x: resolve(relative, pen.x, x), ..pen },
        PathCommand::VerticalLine { relative, y } => Pen { y: resolve(relative, pen.y, y), ..pen },
        PathCommand::Quadratic { relative, ctrl, to } => Pen {
            x: resolve(relative, pen.x, to.x),
            y: resolve(relative, pen.y, to.y),
            ..pen
        },
        PathCommand::Cubic { relative, ctrl1, ctrl2, to } => Pen {
            x: resolve(relative, pen.x, to.x),
            y: resolve(relative, pen.y, to.y),
            ..pen
        },
        PathCommand::Close { relative } => Pen { x: pen.start_x, y: pen.start_y, ..pen },
        PathCommand::Unsupported => pen,
    }
}

/// The operation that one command emits from a given cursor, if any.
pub open spec fn emitted(pen: Pen, c: PathCommand) -> Option<ModelOp> {
    let n = next_pen(pen, c);
    match c {
        PathCommand::Move { .. } => Some(ModelOp::MoveTo(n.x, n.y)),
        PathCommand::Line { .. } => Some(ModelOp::LineTo(n.x, n.y)),
        PathCommand::HorizontalLine { .. } => Some(ModelOp::LineTo(n.x, n.y)),
        PathCommand::VerticalLine { .. } => Some(ModelOp::LineTo(n.x, n.y)),
        PathCommand::Quadratic { relative, ctrl, to } => Some(
            ModelOp::QuadTo(resolve(relative, pen.x, ctrl.x), resolve(relative, pen.y, ctrl.y), n.x, n.y),
        ),
        PathCommand::Cubic { relative, ctrl1, ctrl2, to } => Some(
            ModelOp::CubicTo(
                resolve(relative, pen.x, ctrl1.x),
                resolve(relative, pen.y, ctrl1.y),
                resolve(relative, pen.x, ctrl2.x),
                resolve(relative, pen.y, ctrl2.y),
                n.x,
                n.y,
            ),
        ),
        PathCommand::Close { .. } => Some(ModelOp::Close),
        PathCommand::Unsupported => None,
    }
}

/// Every coordinate that one command resolves fits in an `i64`.
pub open spec fn step_fits(pen: Pen, c: PathCommand) -> bool {
    let n = next_pen(pen, c);
    &&& in_i64(n.x)
    &&& in_i64(n.y)
    &&& match c {
        PathCommand::Quadratic { relative, ctrl, to } => in_i64(resolve(relative, pen.x, ctrl.x))
            && in_i64(resolve(relative, pen.y, ctrl.y)),
        PathCommand::Cubic { relative, ctrl1, ctrl2, to } => in_i64(resolve(relative, pen.x, ctrl1.x))
            && in_i64(resolve(relative, pen.y, ctrl1.y)) && in_i64(resolve(relative, pen.x, ctrl2.x))
            && in_i64(resolve(relative, pen.y, ctrl2.y)),
        _ => true,
    }
}

/// The cursor after a sequence of commands, starting at the origin.
pub open spec fn pen_after(cmds: Seq<PathCommand>) -> Pen
    decreases cmds.len(),
{
    if cmds.len() == 0 {
        origin()
    } else {
        next_pen(pen_after(cmds.drop_last()), cmds.last())
    }
}

/// The canonical operations of a sequence of commands.
pub open spec fn ops_of(cmds: Seq<PathCommand>) -> Seq<ModelOp>
    decreases cmds.len(),
{
    if cmds.len() == 0 {
        seq![]
    } else {
        let prev = cmds.drop_last();
        match emitted(pen_after(prev), cmds.last()) {
            Some(op) => ops_of(prev).push(op),
            None => ops_of(prev),
        }
    }
}

/// The positions of the commands that are skipped.
pub open spec fn skipped_of(cmds: Seq<PathCommand>) -> Seq<int>
    decreases cmds.len(),
{
    if cmds.len() == 0 {
        seq![]
    } else {
        let prev = skipped_of(cmds.drop_last());
        if cmds.last() is Unsupported {
            prev.push(cmds.len() - 1)
        } else {
            prev
        }
    }
}

/// Every command of the sequence resolves within `i64`.
pub open spec fn fits(cmds: Seq<PathCommand>) -> bool {
    forall|k: int| 0 <= k < cmds.len() ==> #[trigger] step_fits(pen_after(cmds.take(k)), cmds[k])
}

/// A command's operands do not fit the coordinate type once resolved.
#[derive(Clone, Copy, Debug, PartialEq, Eq, Structural)]
pub struct CoordinateOverflow;

/// The executable cursor: the current position and the start of the
/// current subpath.
#[derive(Clone, Copy, Debug, PartialEq, Eq, Structural)]
pub struct Cursor {
    pub pos: Point,
    pub start: Point,
}

impl Cursor {
    pub open spec fn pen(self) -> Pen {
        Pen {
            x: self.pos.x as int,
            y: self.pos.y as int,
            start_x: self.start.x as int,
            start_y: self.start.y as int,
        }
    }

    /// The cursor at the origin, as it stands before a path's first command.
    pub fn new() -> (r: Cursor)
        ensures
            r.pen() == origin(),
    {
        Cursor { pos: Point { x: 0, y: 0 }, start: Point { x: 0, y: 0 } }
    }

    /// Resolves one command, moves the cursor to its endpoint and returns
    /// the operation it draws (`None` for a skipped command).
    pub fn apply(&mut self, c: &PathCommand) -> (r: Result<Option<CanonicalOp>, CoordinateOverflow>)
        ensures
            r is Ok <==> step_fits(old(self).pen(), *c),
            r matches Ok(op) ==> {
                &&& final(self).pen() == next_pen(old(self).pen(), *c)
                &&& match op {
                    Some(o) => emitted(old(self).pen(), *c) == Some(o.model()),
                    None => emitted(old(self).pen(), *c) is None,
                }
            },
            r is Err ==> *final(self) == *old(self),
    {
        match *c {
            PathCommand::Move { relative, to } => {
                let p = resolve_point(relative, self.pos, to)?;
                self.pos = p;
                self.start = p;
                Ok(Some(CanonicalOp::MoveTo(p)))
            },
            PathCommand::Line { relative, to } => {
                let p = resolve_point(relative, self.pos, to)?;
                self.pos = p;
                Ok(Some(CanonicalOp::LineTo(p)))
            },
            PathCommand::HorizontalLine { relative, x } => {
                let nx = resolve_axis(relative, self.pos.x, x)?;
                self.pos = Point { x: nx, y: self.pos.y };
                Ok(Some(CanonicalOp::LineTo(self.pos)))
            },
            PathCommand::VerticalLine { relative, y } => {
                let ny = resolve_axis(relative, self.pos.y, y)?;
                self.pos = Point { x: self.pos.x, y: ny };
                Ok(Some(CanonicalOp::LineTo(self.pos)))
            },
            PathCommand::Quadratic { relative, ctrl, to } => {
                let c1 = resolve_point(relative, self.pos, ctrl)?;
                let p = resolve_point(relative, self.pos, to)?;
                self.pos = p;
                Ok(Some(CanonicalOp::QuadTo(c1, p)))
            },
            PathCommand::Cubic { relative, ctrl1, ctrl2, to } => {
                let c1 = resolve_point(relative, self.pos, ctrl1)?;
                let c2 = resolve_point(relative, self.pos, ctrl2)?;
                let p = resolve_point(relative, self.pos, to)?;
                self.pos = p;
                Ok(Some(CanonicalOp::CubicTo(c1, c2, p)))
            },
            PathCommand::Close { .. } => {
                self.pos = self.start;
                Ok(Some(CanonicalOp::Close))
            },
            PathCommand::Unsupported => Ok(None),
        }
    }
}

/// One operand resolved against the cursor's coordinate on its axis.
pub fn resolve_axis(relative: bool, base: i64, v: i64) -> (r: Result<i64, CoordinateOverflow>)
    ensures
        r is Ok <==> in_i64(resolve(relative, base as int, v)),
        r matches Ok(n) ==> n as int == resolve(relative, base as int, v),
{
    if relative {
        match base.checked_add(v) {
            Some(n) => Ok(n),
            None => Err(CoordinateOverflow),
        }
    } else {
        Ok(v)
    }
}

/// A point operand resolved against the cursor's position.
pub fn resolve_point(relative: bool, base: Point, p: Point) -> (r: Result<Point, CoordinateOverflow>)
    ensures
        r is Ok <==> in_i64(resolve(relative, base.x as int, p.x)) && in_i64(
            resolve(relative, base.y as int, p.y),
        ),
        r matches Ok(n) ==> n.x as int == resolve(relative, base.x as int, p.x) && n.y as int
            == resolve(relative, base.y as int, p.y),
{
    let x = resolve_axis(relative, base.x, p.x)?;
    let y = resolve_axis(relative, base.y, p.y)?;
    Ok(Point { x, y })
}

/// The canonical operations of one path, with the positions of the commands
/// that were skipped because their kind is not drawn.
#[derive(Clone, Debug)]
pub struct Interpretation {
    pub ops: Vec<CanonicalOp>,
    pub skipped: Vec<usize>,
}

/// Resolves a path's commands in order, with the cursor starting at the
/// origin. Fails exactly when some resolved coordinate leaves `i64`.
pub fn interpret(cmds: &Vec<PathCommand>) -> (r: Result<Interpretation, CoordinateOverflow>)
    ensures
        r is Ok <==> fits(cmds@),
        r matches Ok(res) ==> models(res.ops@) == ops_of(cmds@) && res.skipped@.map_values(
            |i: usize| i as int,
        ) == skipped_of(cmds@),
        r matches Ok(res) ==> res.ops@.len() + res.skipped@.len() == cmds@.len(),
{
    let mut cursor = Cursor::new();
    let mut ops: Vec<CanonicalOp> = Vec::new();
    let mut skipped: Vec<usize> = Vec::new();
    let mut i: usize = 0;
    while i < cmds.len()
        invariant
            0 <= i <= cmds.len(),
            cursor.pen() == pen_after(cmds@.take(i as int)),
            models(ops@) == ops_of(cmds@.take(i as int)),
            skipped@.map_values(|i: usize| i as int) == skipped_of(cmds@.take(i as int)),
            fits(cmds@.take(i as int)),
            ops@.len() + skipped@.len() == i,
        decreases cmds.len() - i,
    {
        let ghost prev = cmds@.take(i as int);
        let ghost next = cmds@.take(i + 1);
        let ghost ops0 = ops@;
        let ghost skipped0 = skipped@;
        assert(next.drop_last() =~= prev);
        assert(next.last() == cmds@[i as int]);
        match cursor.apply(&cmds[i]) {
            Ok(op) => {
                match op {
                    Some(o) => {
                        ops.push(o);
                        assert(models(ops@) =~= models(ops0).push(o.model()));
                    },
                    None => {},
                }
                if matches!(cmds[i], PathCommand::Unsupported) {
                    skipped.push(i);
                    assert(skipped@.map_values(|j: usize| j as int) =~= skipped0.map_values(
                        |j: usize| j as int,
                    ).push(i as int));
                }
                assert forall|k: int| 0 <= k < next.len() implies #[trigger] step_fits(
                    pen_after(next.take(k)),
                    next[k],
                ) by {
                    if k < i {
                        assert(next.take(k) =~= prev.take(k));
                        assert(prev[k] == next[k]);
                    } else {
                        assert(next.take(k) =~= prev);
                    }
                }
            },
            Err(e) => {
                assert(!step_fits(pen_after(cmds@.take(i as int)), cmds@[i as int]));
                return Err(e);
            },
        }
        i = i + 1;
    }
    assert(cmds@.take(cmds.len() as int) =~= cmds@);
    Ok(Interpretation { ops, skipped })
}

} // verus!
