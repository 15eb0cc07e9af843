//! Faces: what a figure looks like.
//!
//! A face is data. Coordinates are ratios of the body's rectangle, with the origin at the lower
//! left and the second coordinate pointing up. What a face cannot choose is colour, animation
//! and sign: the states must stay recognisable.

use vstd::prelude::*;

use crate::num::Point;

pub use registry::{builtin_ids, Registry, DEFAULT_FACE_ID};
pub use spec::{
    state_index, BodySize, BySize, CornerSpec, DetailSpec, EyeColor, EyeOverride, EyeShape,
    EyesSpec, FaceSpec, OutlineSpec, Problem, Source,
};

pub mod builder;
pub mod palette;
pub mod parse;
pub mod registry;
pub mod spec;
pub mod svg;
pub mod validate;

verus! {

/// Where a figure stands; each place has its own dimensions.
#[derive(Debug, Clone, Copy, PartialEq, Eq, Structural)]
pub enum Size {
    /// The menu bar: small.
    Bar,
    /// The panel at the bottom of the screen: large.
    Dock,
}

impl Size {
    /// Whether this is the menu bar.
    pub fn is_bar(self) -> (r: bool)
        ensures
            r == (self == Size::Bar),
    {
        matches!(self, Size::Bar)
    }
}

/// One step along an outline.
#[derive(Debug, Clone, Copy, PartialEq, Eq, Structural)]
pub enum Seg {
    /// A straight line to a point.
    Line { to: Point },
    /// A cubic Bézier curve to a point.
    Cubic { c1: Point, c2: Point, to: Point },
}

/// The end of a step, which is the start of the next.
pub open spec fn end_of(s: Seg) -> Point {
    match s {
        Seg::Line { to } => to,
        Seg::Cubic { c1, c2, to } => to,
    }
}

/// The end of a step, which is the start of the next.
pub fn seg_to(s: Seg) -> (r: Point)
    ensures
        r == end_of(s),
{
    match s {
        Seg::Line { to } => to,
        Seg::Cubic { to, .. } => to,
    }
}

/// A closed outline: its steps, from the start, go round once.
#[derive(Debug, Clone, PartialEq, Eq)]
pub struct Outline {
    pub start: Point,
    pub segs: Vec<Seg>,
}

/// The points of a step, those that control it among them.
pub open spec fn step_points(s: Seg) -> Seq<Point> {
    match s {
        Seg::Line { to } => seq![to],
        Seg::Cubic { c1, c2, to } => seq![c1, c2, to],
    }
}

/// The points of a path.
pub open spec fn path_points(start: Point, segs: Seq<Seg>) -> Seq<Point>
    decreases segs.len(),
{
    if segs.len() == 0 {
        seq![start]
    } else {
        path_points(start, segs.drop_last()) + step_points(segs.last())
    }
}

/// All points of an outline, those that control its curves among them.
pub fn outline_points(o: &Outline) -> (r: Vec<Point>)
    ensures
        r@ == path_points(o.start, o.segs@),
{
    let mut out: Vec<Point> = Vec::new();
    out.push(o.start);
    let mut i: usize = 0;
    assert(out@ =~= path_points(o.start, o.segs@.take(0)));
    while i < o.segs.len()
        invariant
            i <= o.segs@.len(),
            out@ == path_points(o.start, o.segs@.take(i as int)),
        decreases o.segs@.len() - i,
    {
        let ghost so_far = o.segs@.take(i + 1);
        assert(so_far.drop_last() =~= o.segs@.take(i as int));
        match o.segs[i] {
            Seg::Line { to } => {
                out.push(to);
            },
            Seg::Cubic { c1, c2, to } => {
                out.push(c1);
                out.push(c2);
                out.push(to);
            },
        }
        assert(out@ =~= path_points(o.start, so_far));
        i += 1;
    }
    assert(o.segs@.take(o.segs@.len() as int) =~= o.segs@);
    out
}

/// The points of an outline begin with its start; then come those of its steps, one after the
/// other, the end of each last.
pub proof fn law_the_points_of_an_outline(start: Point, segs: Seq<Seg>, s: Seg)
    ensures
        path_points(start, Seq::empty()) == seq![start],
        path_points(start, segs.push(s)) == path_points(start, segs) + match s {
            Seg::Line { to } => seq![to],
            Seg::Cubic { c1, c2, to } => seq![c1, c2, to],
        },
        path_points(start, segs.push(s)).last() == end_of(s),
        path_points(start, segs)[0] == start,
    decreases segs.len(),
{
    assert(segs.push(s).drop_last() =~= segs);
    if segs.len() > 0 {
        law_the_points_of_an_outline(start, segs.drop_last(), segs.last());
        assert(segs.drop_last().push(segs.last()) =~= segs);
    }
    lemma_starts_with_its_start(start, segs);
}

proof fn lemma_starts_with_its_start(start: Point, segs: Seq<Seg>)
    ensures
        path_points(start, segs).len() > 0,
        path_points(start, segs)[0] == start,
    decreases segs.len(),
{
    if segs.len() > 0 {
        lemma_starts_with_its_start(start, segs.drop_last());
    }
}

} // verus!
