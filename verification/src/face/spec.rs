//! The data of one face, and the rules that resolve it.

use vstd::prelude::*;

use super::palette::{
    accent, accent_of, closed_eye, error_eye, face_fill, fill_of, open_eye, Hex, Paint, Rgb,
};
use super::{end_of, seg_to, Seg, Size};
use crate::num::{Num, Point, ONE_BITS};
use crate::session::SessionState;
use crate::text::{same, to_chars, white};

verus! {

// ---- values by place ------------------------------------------------------------------------

/// A value for the menu bar and one for the dock.
#[derive(Debug, Clone, Copy, PartialEq, Eq)]
pub struct BySize<T> {
    pub bar: T,
    pub dock: T,
}

impl<T: Copy> BySize<T> {
    /// The value for a place.
    pub fn get(&self, size: Size) -> (r: T)
        ensures
            r == match size {
                Size::Bar => self.bar,
                Size::Dock => self.dock,
            },
    {
        if size.is_bar() {
            self.bar
        } else {
            self.dock
        }
    }
}

// ---- problems -------------------------------------------------------------------------------

/// The kinds of problem that a face can have.
#[derive(Debug, Clone, Copy, PartialEq, Eq, Structural)]
pub enum ProblemCode {
    /// The outline is not closed, or leaves the body's rectangle.
    Outline,
    /// An outline given by its right half is not symmetric.
    Symmetry,
    /// A dimension of the body is not usable.
    BodySize,
    /// Both eyes and the gap between them are wider than the body.
    EyesTooWide,
    /// An eye leaves the outline.
    EyesOutsideBody,
    /// The eyes do not tell a state from another.
    StatesLookAlike,
    /// A panel line leaves the outline.
    DetailOutsideBody,
    /// The menu bar has more panel lines than the dock.
    BarDetailsNotThinned,
    /// The id does not follow the rules, or belongs to another face.
    Id,
    /// A warning: six figures side by side do not fit to the right of the notch.
    NotchWidth,
    /// The text is not TOML, or not a face.
    Parse,
}

/// The name of a kind of problem.
pub open spec fn code_name(c: ProblemCode) -> Seq<char> {
    match c {
        ProblemCode::Outline => "outline"@,
        ProblemCode::Symmetry => "symmetry"@,
        ProblemCode::BodySize => "body-size"@,
        ProblemCode::EyesTooWide => "eyes-too-wide"@,
        ProblemCode::EyesOutsideBody => "eyes-outside-body"@,
        ProblemCode::StatesLookAlike => "states-look-alike"@,
        ProblemCode::DetailOutsideBody => "detail-outside-body"@,
        ProblemCode::BarDetailsNotThinned => "bar-details-not-thinned"@,
        ProblemCode::Id => "id"@,
        ProblemCode::NotchWidth => "notch-width"@,
        ProblemCode::Parse => "parse"@,
    }
}

impl ProblemCode {
    /// The name shown to the user.
    pub fn as_str(self) -> (r: &'static str)
        ensures
            r@ == code_name(self),
    {
        match self {
            ProblemCode::Outline => "outline",
            ProblemCode::Symmetry => "symmetry",
            ProblemCode::BodySize => "body-size",
            ProblemCode::EyesTooWide => "eyes-too-wide",
            ProblemCode::EyesOutsideBody => "eyes-outside-body",
            ProblemCode::StatesLookAlike => "states-look-alike",
            ProblemCode::DetailOutsideBody => "detail-outside-body",
            ProblemCode::BarDetailsNotThinned => "bar-details-not-thinned",
            ProblemCode::Id => "id",
            ProblemCode::NotchWidth => "notch-width",
            ProblemCode::Parse => "parse",
        }
    }
}

/// One problem of a face. All problems are collected, so that they can be mended at once.
#[derive(Debug, Clone, PartialEq, Eq)]
pub struct Problem {
    pub code: ProblemCode,
    pub message: String,
}

/// What a `Problem` holds.
#[verifier::ext_equal]
pub struct ProblemView {
    pub code: ProblemCode,
    pub message: Seq<char>,
}

impl View for Problem {
    type V = ProblemView;

    open spec fn view(&self) -> ProblemView {
        ProblemView { code: self.code, message: self.message@ }
    }
}

/// What the problems of a list hold.
pub open spec fn problem_views(v: Seq<Problem>) -> Seq<ProblemView> {
    Seq::new(v.len(), |i: int| v[i]@)
}

/// A problem in one line: the kind in brackets, then the message.
pub open spec fn problem_text(p: ProblemView) -> Seq<char> {
    "["@ + code_name(p.code) + "] "@ + p.message
}

/// A problem with the text of a face.
pub open spec fn parse_problem(message: Seq<char>) -> ProblemView {
    ProblemView { code: ProblemCode::Parse, message }
}

impl Problem {
    /// A problem with a message.
    pub fn new(code: ProblemCode, message: String) -> (r: Self)
        ensures
            r.code == code,
            r.message == message,
    {
        Problem { code, message }
    }

    /// The problem in one line: the kind in brackets, then the message.
    pub fn text(&self) -> (r: String)
        ensures
            r@ == problem_text(self@),
    {
        let mut out = "[".to_owned();
        out.append(self.code.as_str());
        out.append("] ");
        out.append(self.message.as_str());
        out
    }
}

/// Adds a problem to a list.
pub fn report(problems: &mut Vec<Problem>, code: ProblemCode, message: String)
    ensures
        problem_views(final(problems)@) == problem_views(old(problems)@).push(
            (ProblemView { code, message: message@ }),
        ),
{
    let ghost before = problems@;
    let ghost added = ProblemView { code, message: message@ };
    problems.push(Problem { code, message });
    assert(problem_views(problems@) =~= problem_views(before).push(added));
}

/// Where a face comes from.
#[derive(Debug, Clone, PartialEq, Eq)]
pub enum Source {
    /// It is part of the program.
    Builtin,
    /// The user's file with this path.
    User(String),
}

impl Source {
    /// Whether the face is part of the program.
    pub fn is_builtin(&self) -> (r: bool)
        ensures
            r == (self is Builtin),
    {
        matches!(self, Source::Builtin)
    }
}

// ---- the parts of a face --------------------------------------------------------------------

/// The body's rectangle, in points.
#[derive(Debug, Clone, Copy, PartialEq, Eq, Structural)]
pub struct BodySize {
    pub w: Num,
    pub h: Num,
}

/// An outline.
#[derive(Debug, Clone, PartialEq, Eq)]
pub enum OutlineSpec {
    /// A rectangle with round corners.
    Corners(CornerSpec),
    /// A path. With `half` it is the right half, and the left half mirrors it.
    Path { half: bool, start: Point, segs: Vec<Seg> },
}

/// Round corners.
#[derive(Debug, Clone, Copy, PartialEq, Eq)]
pub enum CornerSpec {
    /// Ratios of the body, horizontal and vertical: upper left, upper right, lower right, lower
    /// left.
    Ratio([[Num; 2]; 4]),
    /// A radius in points, cut to half the body.
    Pt(BySize<Num>),
    /// Half the height, everywhere.
    Capsule,
}

/// How eyes are drawn.
#[derive(Debug, Clone, Copy, PartialEq, Eq, Structural)]
pub enum EyeShape {
    /// As a rectangle with round corners.
    Rounded,
    /// As a polygon.
    Polygon,
}

/// The colours that an eye can have.
#[derive(Debug, Clone, Copy, PartialEq, Eq, Structural)]
pub enum EyeColor {
    Eye,
    EyeClosed,
    EyeError,
    White,
}

/// The name of a colour.
pub open spec fn color_name(c: EyeColor) -> Seq<char> {
    match c {
        EyeColor::Eye => "eye"@,
        EyeColor::EyeClosed => "eye_closed"@,
        EyeColor::EyeError => "eye_error"@,
        EyeColor::White => "white"@,
    }
}

/// The colour in the default palette.
pub open spec fn color_rgb(c: EyeColor) -> Rgb {
    match c {
        EyeColor::Eye => open_eye(),
        EyeColor::EyeClosed => closed_eye(),
        EyeColor::EyeError => error_eye(),
        EyeColor::White => Rgb { r: 10000, g: 10000, b: 10000 },
    }
}

/// The colour with this name, if there is one.
pub open spec fn color_named(name: Seq<char>) -> Option<EyeColor> {
    if name == "eye"@ {
        Some(EyeColor::Eye)
    } else if name == "eye_closed"@ {
        Some(EyeColor::EyeClosed)
    } else if name == "eye_error"@ {
        Some(EyeColor::EyeError)
    } else if name == "white"@ {
        Some(EyeColor::White)
    } else {
        None
    }
}

impl EyeColor {
    /// The colour in the default palette.
    pub fn rgb(self) -> (r: Rgb)
        ensures
            r == color_rgb(self),
    {
        match self {
            EyeColor::Eye => Rgb { r: 9333, g: 9490, b: 10000 },
            EyeColor::EyeClosed => Rgb { r: 7765, g: 8000, b: 8588 },
            EyeColor::EyeError => Rgb { r: 10000, g: 6335, b: 6006 },
            EyeColor::White => Rgb { r: 10000, g: 10000, b: 10000 },
        }
    }

    /// The name in a face's text.
    pub fn as_str(self) -> (r: &'static str)
        ensures
            r@ == color_name(self),
    {
        match self {
            EyeColor::Eye => "eye",
            EyeColor::EyeClosed => "eye_closed",
            EyeColor::EyeError => "eye_error",
            EyeColor::White => "white",
        }
    }

    /// The colour with this name.
    pub fn parse(s: &str) -> (r: Option<Self>)
        ensures
            r == color_named(s@),
    {
        if same(s, "eye") {
            Some(EyeColor::Eye)
        } else if same(s, "eye_closed") {
            Some(EyeColor::EyeClosed)
        } else if same(s, "eye_error") {
            Some(EyeColor::EyeError)
        } else if same(s, "white") {
            Some(EyeColor::White)
        } else {
            None
        }
    }
}

/// What a face says about its eyes in one state. It replaces the rule for that state.
#[derive(Debug, Clone, Copy, PartialEq, Eq, Structural)]
pub struct EyeOverride {
    pub w_scale: Num,
    pub h_scale: Num,
    pub dx: Num,
    pub color: EyeColor,
    pub glow: Num,
    pub blink: bool,
}

/// What a face says about a state of which it says nothing in particular.
pub open spec fn plain_override() -> EyeOverride {
    EyeOverride {
        w_scale: Num { bits: ONE_BITS },
        h_scale: Num { bits: ONE_BITS },
        dx: Num { bits: 0 },
        color: EyeColor::Eye,
        glow: Num { bits: 0 },
        blink: false,
    }
}

impl Default for EyeOverride {
    /// Eyes of their own size and colour that do nothing.
    fn default() -> (r: Self)
        ensures
            r == plain_override(),
    {
        EyeOverride {
            w_scale: Num::new(ONE_BITS),
            h_scale: Num::new(ONE_BITS),
            dx: Num::new(0),
            color: EyeColor::Eye,
            glow: Num::new(0),
            blink: false,
        }
    }
}

/// The eyes of a face.
#[derive(Debug, Clone, PartialEq, Eq)]
pub struct EyesSpec {
    pub shape: EyeShape,
    /// The height at which they stand, as a ratio of the body's height.
    pub v: Num,
    /// The gap between them, in points.
    pub gap: BySize<Num>,
    /// Width and height, in points.
    pub size: BySize<[Num; 2]>,
    /// The radius of the corners of rounded eyes, in points.
    pub radius: Num,
    /// The right eye as a polygon, in ratios of its rectangle. The left eye mirrors it.
    pub polygon: Option<Vec<[Num; 2]>>,
    /// What the face says about each state, in the order of `SessionState::ORDER`.
    pub states: [Option<EyeOverride>; 6],
}

/// The colours that a face gives a state. Without one the default palette applies.
#[derive(Debug, Clone, Copy, PartialEq, Eq, Structural)]
pub struct StateColors {
    pub accent: Option<Hex>,
    pub fill: Option<Hex>,
    pub eye: Option<Hex>,
}

/// A panel line.
#[derive(Debug, Clone, PartialEq, Eq)]
pub struct DetailSpec {
    pub name: String,
    /// The places where it is drawn.
    pub sizes: Vec<Size>,
    pub points: Vec<[Num; 2]>,
}

/// One face.
#[derive(Debug, Clone, PartialEq, Eq)]
pub struct FaceSpec {
    pub id: String,
    pub label: String,
    pub label_en: Option<String>,
    pub author: Option<String>,
    pub size: BySize<BodySize>,
    pub outline: OutlineSpec,
    pub eyes: EyesSpec,
    pub details: Vec<DetailSpec>,
    /// The colours of each state, in the order of `SessionState::ORDER`.
    pub colors: [StateColors; 6],
    pub source: Source,
}

// ---- ids and states -------------------------------------------------------------------------

/// Whether a character may stand in the id of a face, besides the hyphen.
pub open spec fn plain_id_char(c: char) -> bool {
    'a' <= c <= 'z' || '0' <= c <= '9'
}

/// Whether a text can be the id of a face: lower-case letters, digits and hyphens, the first
/// one not a hyphen, at most thirty-two of them.
pub open spec fn valid_id(id: Seq<char>) -> bool {
    &&& 1 <= id.len() <= 32
    &&& plain_id_char(id[0])
    &&& forall|i: int| 0 <= i < id.len() ==> plain_id_char(#[trigger] id[i]) || id[i] == '-'
}

/// Whether a text can be the id of a face. Whether there is such a face is another question.
pub fn is_valid_id(id: &str) -> (r: bool)
    ensures
        r == valid_id(id@),
{
    let v = to_chars(id);
    if v.len() == 0 || v.len() > 32 {
        return false;
    }
    let mut i: usize = 0;
    while i < v.len()
        invariant
            i <= v@.len(),
            v@ == id@,
            1 <= v@.len() <= 32,
            forall|k: int| 0 <= k < i ==> plain_id_char(#[trigger] v@[k]) || v@[k] == '-',
            i > 0 ==> plain_id_char(v@[0]),
        decreases v@.len() - i,
    {
        let c = v[i];
        let plain = ('a' <= c && c <= 'z') || ('0' <= c && c <= '9');
        if !plain && (i == 0 || c != '-') {
            assert(!plain_id_char(id@[i as int]));
            return false;
        }
        i += 1;
    }
    true
}

/// The place of a state in `SessionState::ORDER`.
pub open spec fn index_of_state(s: SessionState) -> int {
    match s {
        SessionState::Working => 0,
        SessionState::WaitUser => 1,
        SessionState::WaitAgent => 2,
        SessionState::Idle => 3,
        SessionState::Done => 4,
        SessionState::Error => 5,
    }
}

/// The place of a state in `SessionState::ORDER`.
pub fn state_index(s: SessionState) -> (r: usize)
    ensures
        r == index_of_state(s),
        r < 6,
        SessionState::ORDER@[r as int] == s,
{
    match s {
        SessionState::Working => 0,
        SessionState::WaitUser => 1,
        SessionState::WaitAgent => 2,
        SessionState::Idle => 3,
        SessionState::Done => 4,
        SessionState::Error => 5,
    }
}

// ---- paths ----------------------------------------------------------------------------------

/// A point of an outline, still in ratios. A mirrored point has its first ratio counted from
/// the right.
#[derive(Debug, Clone, Copy, PartialEq, Eq, Structural)]
pub struct UnitPoint {
    pub at: Point,
    pub mirrored: bool,
}

/// One step along an outline, still in ratios.
#[derive(Debug, Clone, Copy, PartialEq, Eq, Structural)]
pub enum UnitSeg {
    Line { to: UnitPoint },
    Cubic { c1: UnitPoint, c2: UnitPoint, to: UnitPoint },
}

/// A point as it is.
pub open spec fn plain_point(p: Point) -> UnitPoint {
    UnitPoint { at: p, mirrored: false }
}

/// A point mirrored.
pub open spec fn mirror_point(p: Point) -> UnitPoint {
    UnitPoint { at: p, mirrored: true }
}

/// A step as it is.
pub open spec fn plain_seg(s: Seg) -> UnitSeg {
    match s {
        Seg::Line { to } => UnitSeg::Line { to: plain_point(to) },
        Seg::Cubic { c1, c2, to } => UnitSeg::Cubic {
            c1: plain_point(c1),
            c2: plain_point(c2),
            to: plain_point(to),
        },
    }
}

/// A step mirrored and walked backwards, to where it started.
pub open spec fn mirror_seg(s: Seg, from: Point) -> UnitSeg {
    match s {
        Seg::Line { to } => UnitSeg::Line { to: mirror_point(from) },
        Seg::Cubic { c1, c2, to } => UnitSeg::Cubic {
            c1: mirror_point(c2),
            c2: mirror_point(c1),
            to: mirror_point(from),
        },
    }
}

/// The point where a step starts.
pub open spec fn start_of(start: Point, segs: Seq<Seg>, i: int) -> Point {
    if i == 0 {
        start
    } else {
        end_of(segs[i - 1])
    }
}

/// The steps of an outline given by a path. A half is followed by its mirror image, walked
/// backwards.
pub open spec fn whole_path(half: bool, start: Point, segs: Seq<Seg>) -> Seq<UnitSeg> {
    let right = Seq::new(segs.len(), |i: int| plain_seg(segs[i]));
    if half {
        right + Seq::new(
            segs.len(),
            |i: int|
                mirror_seg(
                    segs[segs.len() - 1 - i],
                    start_of(start, segs, segs.len() - 1 - i),
                ),
        )
    } else {
        right
    }
}

fn unit(at: Point, mirrored: bool) -> (r: UnitPoint)
    ensures
        r == (UnitPoint { at, mirrored }),
{
    UnitPoint { at, mirrored }
}

/// The steps of an outline given by a path, still in ratios. The outline starts at `start`.
pub fn path_outline(half: bool, start: Point, raw: &Vec<Seg>) -> (r: Vec<UnitSeg>)
    ensures
        r@ == whole_path(half, start, raw@),
{
    let n: usize = raw.len();
    let mut out: Vec<UnitSeg> = Vec::new();
    let mut i: usize = 0;
    while i < n
        invariant
            i <= n == raw@.len(),
            out@.len() == i,
            forall|k: int| 0 <= k < i ==> #[trigger] out@[k] == plain_seg(raw@[k]),
        decreases n - i,
    {
        let seg = match raw[i] {
            Seg::Line { to } => UnitSeg::Line { to: unit(to, false) },
            Seg::Cubic { c1, c2, to } => UnitSeg::Cubic {
                c1: unit(c1, false),
                c2: unit(c2, false),
                to: unit(to, false),
            },
        };
        out.push(seg);
        i += 1;
    }
    if half {
        let mut j: usize = n;
        while j > 0
            invariant
                j <= n == raw@.len(),
                out@.len() == n + (n - j),
                forall|k: int| 0 <= k < n ==> #[trigger] out@[k] == plain_seg(raw@[k]),
                forall|k: int|
                    n <= k < n + (n - j) ==> #[trigger] out@[k] == mirror_seg(
                        raw@[n - 1 - (k - n)],
                        start_of(start, raw@, n - 1 - (k - n)),
                    ),
            decreases j,
        {
            j -= 1;
            let from = if j == 0 {
                start
            } else {
                seg_to(raw[j - 1])
            };
            let seg = match raw[j] {
                Seg::Line { to: _ } => UnitSeg::Line { to: unit(from, true) },
                Seg::Cubic { c1, c2, to: _ } => UnitSeg::Cubic {
                    c1: unit(c2, true),
                    c2: unit(c1, true),
                    to: unit(from, true),
                },
            };
            out.push(seg);
        }
    }
    assert(out@ =~= whole_path(half, start, raw@));
    out
}

// ---- eyes by rule ---------------------------------------------------------------------------

/// The size of an eye, relative to the face's own.
#[derive(Debug, Clone, Copy, PartialEq, Eq, Structural)]
pub enum EyeSizing {
    /// The face's own size and radius.
    Own,
    /// A circle one point wider than the face's own width.
    Circle,
    /// A line two points high, one point wider than the face's own width.
    Line,
    /// The face's own width, and this many hundredths of its own height.
    Height { hundredths: u32 },
    /// The face's own size, scaled.
    Scaled { w: Num, h: Num },
}

/// A length in tenths of a point, or as a face gives it.
#[derive(Debug, Clone, Copy, PartialEq, Eq, Structural)]
pub enum Length {
    Tenths(u32),
    Given(Num),
}

/// What an eye looks like in a state, still without the face's own size.
#[derive(Debug, Clone, Copy, PartialEq, Eq, Structural)]
pub struct EyeRule {
    pub sizing: EyeSizing,
    pub color: EyeColor,
    /// The white halo.
    pub glow: Length,
    /// The shift to the right.
    pub dx: Length,
    pub blink: bool,
}

/// Eyes as a face has them when nothing is the matter.
pub open spec fn calm_eye() -> EyeRule {
    EyeRule {
        sizing: EyeSizing::Own,
        color: EyeColor::Eye,
        glow: Length::Tenths(0),
        dx: Length::Tenths(0),
        blink: false,
    }
}

/// The rule for a state that a face says nothing about. It makes every state recognisable in
/// every face.
pub open spec fn eye_rule(shape: EyeShape, state: SessionState) -> EyeRule {
    match state {
        SessionState::Working => EyeRule { blink: true, ..calm_eye() },
        SessionState::WaitAgent => EyeRule { dx: Length::Tenths(15), ..calm_eye() },
        SessionState::Done => calm_eye(),
        SessionState::Error => EyeRule { color: EyeColor::EyeError, ..calm_eye() },
        SessionState::WaitUser => EyeRule {
            sizing: match shape {
                EyeShape::Rounded => EyeSizing::Circle,
                EyeShape::Polygon => EyeSizing::Height { hundredths: 145 },
            },
            color: EyeColor::White,
            glow: Length::Tenths(40),
            ..calm_eye()
        },
        SessionState::Idle => EyeRule {
            sizing: match shape {
                EyeShape::Rounded => EyeSizing::Line,
                EyeShape::Polygon => EyeSizing::Height { hundredths: 40 },
            },
            color: EyeColor::EyeClosed,
            ..calm_eye()
        },
    }
}

/// What an eye looks like where the face says so itself.
pub open spec fn override_rule(o: EyeOverride) -> EyeRule {
    EyeRule {
        sizing: EyeSizing::Scaled { w: o.w_scale, h: o.h_scale },
        color: o.color,
        glow: Length::Given(o.glow),
        dx: Length::Given(o.dx),
        blink: o.blink,
    }
}

/// The rule for a state that a face says nothing about.
pub fn default_eye(shape: EyeShape, state: SessionState) -> (r: EyeRule)
    ensures
        r == eye_rule(shape, state),
{
    let base = EyeRule {
        sizing: EyeSizing::Own,
        color: EyeColor::Eye,
        glow: Length::Tenths(0),
        dx: Length::Tenths(0),
        blink: false,
    };
    match (shape, state) {
        (_, SessionState::Working) => EyeRule { blink: true, ..base },
        (_, SessionState::WaitAgent) => EyeRule { dx: Length::Tenths(15), ..base },
        (_, SessionState::Done) => base,
        (_, SessionState::Error) => EyeRule { color: EyeColor::EyeError, ..base },
        (EyeShape::Rounded, SessionState::WaitUser) => EyeRule {
            sizing: EyeSizing::Circle,
            color: EyeColor::White,
            glow: Length::Tenths(40),
            ..base
        },
        (EyeShape::Rounded, SessionState::Idle) => EyeRule {
            sizing: EyeSizing::Line,
            color: EyeColor::EyeClosed,
            ..base
        },
        (EyeShape::Polygon, SessionState::WaitUser) => EyeRule {
            sizing: EyeSizing::Height { hundredths: 145 },
            color: EyeColor::White,
            glow: Length::Tenths(40),
            ..base
        },
        (EyeShape::Polygon, SessionState::Idle) => EyeRule {
            sizing: EyeSizing::Height { hundredths: 40 },
            color: EyeColor::EyeClosed,
            ..base
        },
    }
}

impl FaceSpec {
    /// The body's rectangle, in points.
    pub fn body_size(&self, size: Size) -> (r: BodySize)
        ensures
            r == match size {
                Size::Bar => self.size.bar,
                Size::Dock => self.size.dock,
            },
    {
        self.size.get(size)
    }

    /// The gap between the eyes, in points.
    pub fn eye_gap(&self, size: Size) -> (r: Num)
        ensures
            r == match size {
                Size::Bar => self.eyes.gap.bar,
                Size::Dock => self.eyes.gap.dock,
            },
    {
        self.eyes.gap.get(size)
    }

    /// What an eye looks like in a state.
    pub open spec fn eye_in(&self, state: SessionState) -> EyeRule {
        match self.eyes.states@[index_of_state(state)] {
            Some(o) => override_rule(o),
            None => eye_rule(self.eyes.shape, state),
        }
    }

    /// What an eye looks like in a state: what the face says about the state, and otherwise
    /// what the rule for the state says.
    pub fn eye(&self, state: SessionState) -> (r: EyeRule)
        ensures
            r == self.eye_in(state),
    {
        match self.eyes.states[state_index(state)] {
            Some(o) => EyeRule {
                sizing: EyeSizing::Scaled { w: o.w_scale, h: o.h_scale },
                color: o.color,
                glow: Length::Given(o.glow),
                dx: Length::Given(o.dx),
                blink: o.blink,
            },
            None => default_eye(self.eyes.shape, state),
        }
    }

    /// The colour of the border, the panel lines and the sign in a state.
    pub open spec fn accent_in(&self, state: SessionState) -> Paint {
        painted(self.colors@[index_of_state(state)].accent, accent_of(state))
    }

    /// The colour of the body in a state.
    pub open spec fn fill_in(&self, state: SessionState) -> Paint {
        painted(self.colors@[index_of_state(state)].fill, fill_of(state))
    }

    /// The colour of the eyes in a state.
    pub open spec fn eye_color_in(&self, state: SessionState) -> Paint {
        painted(
            self.colors@[index_of_state(state)].eye,
            color_rgb(
                match self.eyes.states@[index_of_state(state)] {
                    Some(o) => o.color,
                    None => eye_rule(self.eyes.shape, state).color,
                },
            ),
        )
    }

    /// The colour of the border, the panel lines and the sign in a state.
    pub fn accent(&self, state: SessionState) -> (r: Paint)
        ensures
            r == self.accent_in(state),
    {
        paint(self.colors[state_index(state)].accent, accent(state))
    }

    /// The colour of the body in a state.
    pub fn fill(&self, state: SessionState) -> (r: Paint)
        ensures
            r == self.fill_in(state),
    {
        paint(self.colors[state_index(state)].fill, face_fill(state))
    }

    /// The colour of the eyes in a state.
    pub fn eye_color(&self, state: SessionState) -> (r: Paint)
        ensures
            r == self.eye_color_in(state),
    {
        paint(self.colors[state_index(state)].eye, self.eye(state).color.rgb())
    }

    /// The panel lines drawn in a place, by their index in `details`.
    pub fn face_details(&self, size: Size) -> (r: Vec<usize>)
        ensures
            r@ == drawn_in(self.details@, size),
    {
        let mut out: Vec<usize> = Vec::new();
        let mut i: usize = 0;
        assert(out@ =~= drawn_in(self.details@.take(0), size));
        while i < self.details.len()
            invariant
                i <= self.details@.len(),
                out@ == drawn_in(self.details@.take(i as int), size),
            decreases self.details@.len() - i,
        {
            assert(self.details@.take(i + 1).drop_last() =~= self.details@.take(i as int));
            if has_size(&self.details[i].sizes, size) {
                out.push(i);
            }
            i += 1;
        }
        assert(self.details@.take(self.details@.len() as int) =~= self.details@);
        out
    }

    /// The name shown in menus.
    pub fn display_label(&self) -> (r: &str)
        ensures
            r@ == self.label@,
    {
        self.label.as_str()
    }
}

/// A colour of its own, or the one of the default palette.
pub open spec fn painted(own: Option<Hex>, default: Rgb) -> Paint {
    match own {
        Some(c) => Paint::Own(c),
        None => Paint::Default(default),
    }
}

fn paint(own: Option<Hex>, default: Rgb) -> (r: Paint)
    ensures
        r == painted(own, default),
{
    match own {
        Some(c) => Paint::Own(c),
        None => Paint::Default(default),
    }
}

/// The indices of the panel lines drawn in a place, in order.
pub open spec fn drawn_in(details: Seq<DetailSpec>, size: Size) -> Seq<usize>
    decreases details.len(),
{
    if details.len() == 0 {
        Seq::empty()
    } else {
        let before = drawn_in(details.drop_last(), size);
        if details.last().sizes@.contains(size) {
            before.push((details.len() - 1) as usize)
        } else {
            before
        }
    }
}

/// Whether a list of places holds one.
pub fn has_size(sizes: &Vec<Size>, size: Size) -> (r: bool)
    ensures
        r == sizes@.contains(size),
{
    let mut i: usize = 0;
    while i < sizes.len()
        invariant
            i <= sizes@.len(),
            forall|k: int| 0 <= k < i ==> sizes@[k] != size,
        decreases sizes@.len() - i,
    {
        if sizes[i] == size {
            return true;
        }
        i += 1;
    }
    false
}

// ---- laws -----------------------------------------------------------------------------------

/// Every colour is read back from its own name, and no other name is read as a colour.
pub proof fn law_color_names_round_trip(c: EyeColor, name: Seq<char>)
    ensures
        color_named(color_name(c)) == Some(c),
        color_named(name) == Some(c) ==> name == color_name(c),
{
    reveal_strlit("eye");
    reveal_strlit("eye_closed");
    reveal_strlit("eye_error");
    reveal_strlit("white");
    assert("eye"@.len() == 3 && "eye_closed"@.len() == 10);
    assert("eye_error"@.len() == 9 && "white"@.len() == 5);
}

/// The rules tell every state from `Done`, whatever the shape of the eyes.
pub proof fn law_every_state_differs_from_done(shape: EyeShape, state: SessionState)
    requires
        state != SessionState::Done,
    ensures
        eye_rule(shape, state) != eye_rule(shape, SessionState::Done),
{
}

/// The rules tell any two states apart, whatever the shape of the eyes.
pub proof fn law_states_look_different(shape: EyeShape, one: SessionState, other: SessionState)
    requires
        one != other,
    ensures
        eye_rule(shape, one) != eye_rule(shape, other),
{
}

/// A valid id is safe as a file name and in quotes: it has no slash, dot, quote or white space.
pub proof fn law_a_valid_id_is_safe(id: Seq<char>, i: int)
    requires
        valid_id(id),
        0 <= i < id.len(),
    ensures
        id[i] != '/' && id[i] != '.' && id[i] != '"' && id[i] != '\\' && !white(id[i]),
{
    assert(plain_id_char(id[i]) || id[i] == '-');
}

/// An outline given by its half has as many mirrored steps as plain ones, and its last step
/// comes back to the mirror image of its start.
pub proof fn law_a_half_path_closes_on_the_mirror_of_its_start(start: Point, segs: Seq<Seg>)
    requires
        segs.len() > 0,
    ensures
        whole_path(true, start, segs).len() == 2 * segs.len(),
        match whole_path(true, start, segs).last() {
            UnitSeg::Line { to } => to == mirror_point(start),
            UnitSeg::Cubic { c1, c2, to } => to == mirror_point(start),
        },
{
}

/// The point where a step of an outline ends.
pub open spec fn unit_end(s: UnitSeg) -> UnitPoint {
    match s {
        UnitSeg::Line { to } => to,
        UnitSeg::Cubic { c1, c2, to } => to,
    }
}

/// An outline given by its half is symmetric: walking from its turning point, the points
/// reached on either side after the same number of steps mirror each other.
pub proof fn law_a_half_path_is_symmetric(start: Point, segs: Seq<Seg>, k: int)
    requires
        0 < k <= segs.len(),
    ensures
        ({
            let whole = whole_path(true, start, segs);
            let n = segs.len() as int;
            let left = unit_end(whole[n + k - 1]);
            let right = if k == n {
                plain_point(start)
            } else {
                unit_end(whole[n - k - 1])
            };
            left.mirrored && !right.mirrored && left.at == right.at
        }),
{
    let whole = whole_path(true, start, segs);
    let n = segs.len() as int;
    assert(whole[n + k - 1] == mirror_seg(segs[n - k], start_of(start, segs, n - k)));
    if k < n {
        assert(whole[n - k - 1] == plain_seg(segs[n - k - 1]));
    }
}

/// What the eyes do in each state of which a face says nothing: at work they blink, with agents
/// they look aside, after an error they are red, idle they are closed, and where the user is
/// needed they are wide, white and shine. A finished turn leaves them as they are.
pub proof fn law_what_the_eyes_do(shape: EyeShape)
    ensures
        ({
            let e = eye_rule(shape, SessionState::Working);
            e.blink && e.sizing == EyeSizing::Own && e.color == EyeColor::Eye && e.glow
                == Length::Tenths(0) && e.dx == Length::Tenths(0)
        }),
        ({
            let e = eye_rule(shape, SessionState::WaitUser);
            !e.blink && e.color == EyeColor::White && e.glow == Length::Tenths(40) && e.dx
                == Length::Tenths(0) && e.sizing == if shape == EyeShape::Rounded {
                EyeSizing::Circle
            } else {
                EyeSizing::Height { hundredths: 145 }
            }
        }),
        ({
            let e = eye_rule(shape, SessionState::WaitAgent);
            !e.blink && e.sizing == EyeSizing::Own && e.color == EyeColor::Eye && e.glow
                == Length::Tenths(0) && e.dx == Length::Tenths(15)
        }),
        ({
            let e = eye_rule(shape, SessionState::Idle);
            !e.blink && e.color == EyeColor::EyeClosed && e.glow == Length::Tenths(0) && e.dx
                == Length::Tenths(0) && e.sizing == if shape == EyeShape::Rounded {
                EyeSizing::Line
            } else {
                EyeSizing::Height { hundredths: 40 }
            }
        }),
        ({
            let e = eye_rule(shape, SessionState::Done);
            !e.blink && e.sizing == EyeSizing::Own && e.color == EyeColor::Eye && e.glow
                == Length::Tenths(0) && e.dx == Length::Tenths(0)
        }),
        ({
            let e = eye_rule(shape, SessionState::Error);
            !e.blink && e.sizing == EyeSizing::Own && e.color == EyeColor::EyeError && e.glow
                == Length::Tenths(0) && e.dx == Length::Tenths(0)
        }),
{
}

/// What a face says about a state replaces the rule for it, whole; of a state of which it says
/// nothing the rule holds. States stand in the order of the menus.
pub proof fn law_a_face_has_the_last_word(face: FaceSpec, i: int)
    requires
        0 <= i < 6,
    ensures
        face.eyes.states@[i] is None ==> face.eye_in(SessionState::ORDER@[i]) == eye_rule(
            face.eyes.shape,
            SessionState::ORDER@[i],
        ),
        face.eyes.states@[i] matches Some(o) ==> {
            let e = face.eye_in(SessionState::ORDER@[i]);
            &&& e.sizing == (EyeSizing::Scaled { w: o.w_scale, h: o.h_scale })
            &&& e.color == o.color
            &&& e.glow == Length::Given(o.glow)
            &&& e.dx == Length::Given(o.dx)
            &&& e.blink == o.blink
        },
{
}

/// The colours of a state are those that the face gives it, and otherwise those of the palette.
/// States stand in the order of the menus.
pub proof fn law_a_face_has_its_own_colors(face: FaceSpec, i: int)
    requires
        0 <= i < 6,
    ensures
        ({
            let state = SessionState::ORDER@[i];
            &&& face.colors@[i].accent matches Some(c) ==> face.accent_in(state) == Paint::Own(c)
            &&& face.colors@[i].accent is None ==> face.accent_in(state) == Paint::Default(
                accent_of(state),
            )
            &&& face.colors@[i].fill matches Some(c) ==> face.fill_in(state) == Paint::Own(c)
            &&& face.colors@[i].fill is None ==> face.fill_in(state) == Paint::Default(
                fill_of(state),
            )
            &&& face.colors@[i].eye matches Some(c) ==> face.eye_color_in(state) == Paint::Own(c)
            &&& face.colors@[i].eye is None ==> face.eye_color_in(state) == Paint::Default(
                color_rgb(face.eye_in(state).color),
            )
        }),
{
}

/// The order of the states in the menus.
pub proof fn law_the_order_of_the_states()
    ensures
        SessionState::ORDER@ == seq![
            SessionState::Working,
            SessionState::WaitUser,
            SessionState::WaitAgent,
            SessionState::Idle,
            SessionState::Done,
            SessionState::Error,
        ],
{
    assert(SessionState::ORDER@ =~= seq![
        SessionState::Working,
        SessionState::WaitUser,
        SessionState::WaitAgent,
        SessionState::Idle,
        SessionState::Done,
        SessionState::Error,
    ]);
}

/// The colours that eyes can have, by name: as they are, closed, after an error, and white.
pub proof fn law_the_colors_for_eyes()
    ensures
        color_name(EyeColor::Eye) == "eye"@,
        color_name(EyeColor::EyeClosed) == "eye_closed"@,
        color_name(EyeColor::EyeError) == "eye_error"@,
        color_name(EyeColor::White) == "white"@,
        color_rgb(EyeColor::Eye) == open_eye(),
        color_rgb(EyeColor::EyeClosed) == closed_eye(),
        color_rgb(EyeColor::EyeError) == error_eye(),
        color_rgb(EyeColor::White) == (Rgb { r: 10000, g: 10000, b: 10000 }),
{
}

/// Which ids a face can have: up to thirty-two small letters, digits and hyphens, the first one
/// no hyphen.
pub proof fn law_which_ids_are_valid(id: Seq<char>)
    ensures
        valid_id(id) <==> 0 < id.len() && id.len() <= 32 && id[0] != '-' && forall|i: int|
            0 <= i < id.len() ==> {
                ||| 'a' <= #[trigger] id[i] <= 'z'
                ||| '0' <= id[i] <= '9'
                ||| id[i] == '-'
            },
{
    if valid_id(id) {
        assert forall|i: int| 0 <= i < id.len() implies {
            ||| 'a' <= #[trigger] id[i] <= 'z'
            ||| '0' <= id[i] <= '9'
            ||| id[i] == '-'
        } by {
            assert(plain_id_char(id[i]) || id[i] == '-');
        }
    } else if 0 < id.len() <= 32 && id[0] != '-' && forall|i: int|
        0 <= i < id.len() ==> {
            ||| 'a' <= #[trigger] id[i] <= 'z'
            ||| '0' <= id[i] <= '9'
            ||| id[i] == '-'
        } {
        assert(id[0] == id[0]);
        assert forall|i: int| 0 <= i < id.len() implies plain_id_char(#[trigger] id[i]) || id[i]
            == '-' by {}
        assert(false);
    }
}

/// The panel lines that are drawn in a place are those that name it, in their order.
pub proof fn law_lines_are_drawn_where_they_say(details: Seq<DetailSpec>, size: Size, i: int)
    requires
        0 <= i < details.len() <= usize::MAX,
    ensures
        drawn_in(details, size).contains(i as usize) <==> details[i].sizes@.contains(size),
        forall|a: int, b: int|
            0 <= a < b < drawn_in(details, size).len() ==> (#[trigger] drawn_in(details, size)[a])
                < (#[trigger] drawn_in(details, size)[b]),
{
    lemma_drawn_in(details, size, i);
}

proof fn lemma_drawn_in(details: Seq<DetailSpec>, size: Size, i: int)
    requires
        details.len() <= usize::MAX,
    ensures
        0 <= i < details.len() ==> (drawn_in(details, size).contains(i as usize)
            <==> details[i].sizes@.contains(size)),
        forall|a: int|
            0 <= a < drawn_in(details, size).len() ==> (#[trigger] drawn_in(details, size)[a])
                < details.len(),
        forall|a: int, b: int|
            0 <= a < b < drawn_in(details, size).len() ==> (#[trigger] drawn_in(details, size)[a])
                < (#[trigger] drawn_in(details, size)[b]),
    decreases details.len(),
{
    if details.len() > 0 {
        let shorter = details.drop_last();
        let before = drawn_in(shorter, size);
        let all = drawn_in(details, size);
        let last = (details.len() - 1) as usize;
        lemma_drawn_in(shorter, size, i);
        if 0 <= i < shorter.len() {
            assert(shorter[i] == details[i]);
            if before.contains(i as usize) {
                let k = choose|k: int| 0 <= k < before.len() && before[k] == i as usize;
                assert(all[k] == before[k]);
            }
            if all.contains(i as usize) {
                let k = choose|k: int| 0 <= k < all.len() && all[k] == i as usize;
                if k < before.len() {
                    assert(before[k] == all[k]);
                }
            }
        } else if i == shorter.len() {
            if details[i].sizes@.contains(size) {
                assert(all[before.len() as int] == last);
            } else if all.contains(i as usize) {
                let k = choose|k: int| 0 <= k < all.len() && all[k] == i as usize;
                assert(before[k] < shorter.len());
            }
        }
    }
}

} // verus!
