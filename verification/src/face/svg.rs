//! Faces as SVG.
//!
//! The numbers of a figure come in as text, already turned to SVG's axes, whose y points down.

use std::sync::Arc;

use vstd::prelude::*;

use super::builder::emit::{spaced, spaced_pair, Pair, PairView, StepDraft};
use super::palette::{hex_text, ink, ink_color, paint_hex, to_hex, Paint};
use super::spec::FaceSpec;
use super::validate::{size_name, tag};
use super::Size;
use crate::session::{state_glyph, state_name, SessionState};
use crate::text::{
    has_prefix, has_suffix, has_text, join2, join3, lemma_occurs_within, occurs_at, opt_text,
};

verus! {

// ---- escaping -------------------------------------------------------------------------------

/// A character as it stands in XML.
pub open spec fn escaped_char(c: char) -> Seq<char> {
    if c == '&' {
        "&amp;"@
    } else if c == '<' {
        "&lt;"@
    } else if c == '>' {
        "&gt;"@
    } else if c == '"' {
        "&quot;"@
    } else {
        seq![c]
    }
}

/// A text as it stands in XML.
pub open spec fn escaped(s: Seq<char>) -> Seq<char>
    decreases s.len(),
{
    if s.len() == 0 {
        Seq::empty()
    } else {
        escaped(s.drop_last()) + escaped_char(s.last())
    }
}

/// A text as it stands in XML. Ids and labels come from the user.
pub fn esc(s: &str) -> (r: String)
    ensures
        r@ == escaped(s@),
{
    let mut out = String::new();
    let ghost all = s@;
    assert(all.take(0) =~= Seq::<char>::empty());
    for c in it: s.chars()
        invariant
            all == s@,
            it.seq() == s@,
            out@ == escaped(all.take(it.index() as int)),
    {
        let ghost k = it.index() as int;
        assert(all.take(k + 1).drop_last() =~= all.take(k));
        if c == '&' {
            out.append("&amp;");
        } else if c == '<' {
            out.append("&lt;");
        } else if c == '>' {
            out.append("&gt;");
        } else if c == '"' {
            out.append("&quot;");
        } else {
            out.push(c);
        }
        assert(out@ =~= escaped(all.take(k + 1)));
    }
    assert(all.take(all.len() as int) =~= all);
    out
}

// ---- the parts of a figure ------------------------------------------------------------------

/// One eye of a figure.
#[derive(Debug, Clone, PartialEq, Eq)]
pub enum EyeFigure {
    Polygon(Vec<Pair>),
    Rect { x: String, y: String, w: String, h: String, radius: String },
}

/// The numbers of a figure.
#[derive(Debug, Clone, PartialEq, Eq)]
pub struct Figure {
    /// The size of the whole picture.
    pub w: String,
    pub h: String,
    /// The outline of the body.
    pub start: Pair,
    pub steps: Vec<StepDraft>,
    /// The panel lines.
    pub lines: Vec<Vec<Pair>>,
    pub left_eye: EyeFigure,
    pub right_eye: EyeFigure,
    /// Where the sign of the state stands, from the left.
    pub glyph_x: String,
}

/// What differs between a picture and a chip.
#[derive(Debug, Clone, PartialEq, Eq)]
pub struct Frame {
    /// The space around the body.
    pub pad: String,
    /// The radius of the ground's corners. Without one the corners are square.
    pub corner: Option<String>,
    /// Whether the sign of the state is drawn. It stands beside the body, so it needs space.
    pub glyph: bool,
}

/// What a `Frame` holds.
#[verifier::ext_equal]
pub struct FrameView {
    pub pad: Seq<char>,
    pub corner: Option<Seq<char>>,
    pub glyph: bool,
}

impl View for Frame {
    type V = FrameView;

    open spec fn view(&self) -> FrameView {
        FrameView { pad: self.pad@, corner: opt_text(self.corner), glyph: self.glyph }
    }
}

/// One step of an outline.
pub open spec fn segment_text(s: StepDraft) -> Seq<char> {
    match s {
        StepDraft::Line { to } => " L "@ + spaced_pair(to@),
        StepDraft::Cubic { c1, c2, to } => " C "@ + spaced_pair(c1@) + " "@ + spaced_pair(c2@)
            + " "@ + spaced_pair(to@),
    }
}

/// The steps of an outline.
pub open spec fn segments_text(steps: Seq<StepDraft>) -> Seq<char>
    decreases steps.len(),
{
    if steps.len() == 0 {
        Seq::empty()
    } else {
        segments_text(steps.drop_last()) + segment_text(steps.last())
    }
}

/// An outline as a path that is closed.
pub open spec fn closed_path(start: PairView, steps: Seq<StepDraft>) -> Seq<char> {
    "M "@ + spaced_pair(start) + segments_text(steps) + " Z"@
}

fn segment(s: &StepDraft) -> (r: String)
    ensures
        r@ == segment_text(*s),
{
    match s {
        StepDraft::Line { to } => join2(" L ", spaced(to).as_str()),
        StepDraft::Cubic { c1, c2, to } => {
            let mut out = join3(" C ", spaced(c1).as_str(), " ");
            out.append(spaced(c2).as_str());
            out.append(" ");
            out.append(spaced(to).as_str());
            out
        },
    }
}

/// An outline as the `d` of a path.
pub fn path_d(start: &Pair, steps: &Vec<StepDraft>) -> (r: String)
    ensures
        r@ == closed_path(start@, steps@),
{
    let mut out = join2("M ", spaced(start).as_str());
    let ghost before = out@;
    let mut i: usize = 0;
    assert(out@ =~= before + segments_text(steps@.take(0)));
    while i < steps.len()
        invariant
            i <= steps@.len(),
            out@ == before + segments_text(steps@.take(i as int)),
        decreases steps@.len() - i,
    {
        assert(steps@.take(i + 1).drop_last() =~= steps@.take(i as int));
        out.append(segment(&steps[i]).as_str());
        assert(out@ =~= before + segments_text(steps@.take(i + 1)));
        i += 1;
    }
    assert(steps@.take(steps@.len() as int) =~= steps@);
    out.append(" Z");
    out
}

/// Points with a comma inside and a space between.
pub open spec fn points_text(points: Seq<Pair>) -> Seq<char>
    decreases points.len(),
{
    if points.len() == 0 {
        Seq::empty()
    } else if points.len() == 1 {
        points[0]@.x + ","@ + points[0]@.y
    } else {
        points_text(points.drop_last()) + " "@ + points.last()@.x + ","@ + points.last()@.y
    }
}

fn points(v: &Vec<Pair>) -> (r: String)
    ensures
        r@ == points_text(v@),
{
    let mut out = String::new();
    let mut i: usize = 0;
    while i < v.len()
        invariant
            i <= v@.len(),
            out@ == points_text(v@.take(i as int)),
        decreases v@.len() - i,
    {
        let ghost so_far = v@.take(i + 1);
        assert(so_far.drop_last() =~= v@.take(i as int));
        assert(so_far.last() == v@[i as int]);
        if i > 0 {
            out.append(" ");
        } else {
            assert(so_far[0] == v@[0]);
        }
        out.append(v[i].x.as_str());
        out.append(",");
        out.append(v[i].y.as_str());
        assert(out@ =~= points_text(so_far));
        i += 1;
    }
    assert(v@.take(v@.len() as int) =~= v@);
    out
}

/// The width of a panel line.
pub open spec fn line_width(size: Size) -> Seq<char> {
    match size {
        Size::Bar => "0.8"@,
        Size::Dock => "1"@,
    }
}

/// The width of a panel line: finer than the border of the body.
pub fn detail_line_w(size: Size) -> (r: &'static str)
    ensures
        r@ == line_width(size),
{
    if size.is_bar() {
        "0.8"
    } else {
        "1"
    }
}

/// How opaque a figure is.
pub open spec fn opacity(state: SessionState) -> Seq<char> {
    match state {
        SessionState::Idle => "0.55"@,
        SessionState::Done => "0.9"@,
        _ => "1"@,
    }
}

/// The size of a sign.
pub open spec fn font_size(size: Size) -> Seq<char> {
    match size {
        Size::Bar => "10"@,
        Size::Dock => "11"@,
    }
}

/// The panel lines.
pub open spec fn lines_text(lines: Seq<Vec<Pair>>, accent: Seq<char>, size: Size) -> Seq<char>
    decreases lines.len(),
{
    if lines.len() == 0 {
        Seq::empty()
    } else {
        lines_text(lines.drop_last(), accent, size) + "  <polyline points=\""@ + points_text(
            lines.last()@,
        ) + "\" fill=\"none\" stroke=\""@ + accent
            + "\" stroke-opacity=\"0.62\" stroke-width=\""@ + line_width(size)
            + "\" stroke-linecap=\"round\"/>\n"@
    }
}

fn panel_lines(lines: &Vec<Vec<Pair>>, accent: &str, size: Size) -> (r: String)
    ensures
        r@ == lines_text(lines@, accent@, size),
{
    let mut out = String::new();
    let mut i: usize = 0;
    while i < lines.len()
        invariant
            i <= lines@.len(),
            out@ == lines_text(lines@.take(i as int), accent@, size),
        decreases lines@.len() - i,
    {
        assert(lines@.take(i + 1).drop_last() =~= lines@.take(i as int));
        out.append("  <polyline points=\"");
        out.append(points(&lines[i]).as_str());
        out.append("\" fill=\"none\" stroke=\"");
        out.append(accent);
        out.append("\" stroke-opacity=\"0.62\" stroke-width=\"");
        out.append(detail_line_w(size));
        out.append("\" stroke-linecap=\"round\"/>\n");
        i += 1;
    }
    assert(lines@.take(lines@.len() as int) =~= lines@);
    out
}

/// One eye.
pub open spec fn eye_text(eye: EyeFigure, color: Seq<char>) -> Seq<char> {
    match eye {
        EyeFigure::Polygon(v) => "  <polygon points=\""@ + points_text(v@) + "\" fill=\""@ + color
            + "\"/>\n"@,
        EyeFigure::Rect { x, y, w, h, radius } => "  <rect x=\""@ + x@ + "\" y=\""@ + y@
            + "\" width=\""@ + w@ + "\" height=\""@ + h@ + "\" rx=\""@ + radius@ + "\" fill=\""@
            + color + "\"/>\n"@,
    }
}

fn eye(e: &EyeFigure, color: &str) -> (r: String)
    ensures
        r@ == eye_text(*e, color@),
{
    match e {
        EyeFigure::Polygon(v) => {
            let mut out = join3("  <polygon points=\"", points(v).as_str(), "\" fill=\"");
            out.append(color);
            out.append("\"/>\n");
            out
        },
        EyeFigure::Rect { x, y, w, h, radius } => {
            let mut out = join3("  <rect x=\"", x.as_str(), "\" y=\"");
            out.append(y.as_str());
            out.append("\" width=\"");
            out.append(w.as_str());
            out.append("\" height=\"");
            out.append(h.as_str());
            out.append("\" rx=\"");
            out.append(radius.as_str());
            out.append("\" fill=\"");
            out.append(color);
            out.append("\"/>\n");
            out
        },
    }
}

/// A colour as text.
pub open spec fn paint_text(p: Paint) -> Seq<char> {
    hex_text(paint_hex(p))
}

/// The beginning of a picture: its title and its ground.
#[verifier::opaque]
pub open spec fn head_text(
    id: Seq<char>,
    state: SessionState,
    size: Size,
    frame: FrameView,
    figure: Figure,
) -> Seq<char> {
    let label = escaped(id);
    let st = state_name(state);
    "<svg xmlns=\"http://www.w3.org/2000/svg\" width=\""@ + figure.w@ + "\" height=\""@ + figure.h@
        + "\" viewBox=\"0 0 "@ + figure.w@ + " "@ + figure.h@ + "\" role=\"img\" aria-label=\""@
        + label + " / "@ + st + "\">\n<title>"@ + label + " — "@ + st + " / "@ + size_name(size)
        + "</title>\n<rect width=\""@ + figure.w@ + "\" height=\""@ + figure.h@ + "\""@ + (
    match frame.corner {
        Some(r) => " rx=\""@ + r + "\""@,
        None => Seq::empty(),
    }) + " fill=\""@ + paint_text(Paint::Default(ink_color())) + "\"/>\n<g opacity=\""@ + opacity(
        state,
    ) + "\" transform=\"translate("@ + frame.pad + ","@ + frame.pad + ")\">\n"@
}

/// The body. Its outline is drawn half a border inside, so that the border stays within.
#[verifier::opaque]
pub open spec fn body_text(face: FaceSpec, state: SessionState, figure: Figure) -> Seq<char> {
    "  <path d=\""@ + closed_path(figure.start@, figure.steps@)
        + "\" transform=\"translate(0.75,0.75)\" fill=\""@ + paint_text(face.fill_in(state))
        + "\" stroke=\""@ + paint_text(face.accent_in(state)) + "\" stroke-width=\"1.5\"/>\n"@
}

/// The sign of a state.
#[verifier::opaque]
pub open spec fn glyph_text(face: FaceSpec, state: SessionState, size: Size, x: Seq<char>) -> Seq<
    char,
> {
    "  <text x=\""@ + x
        + "\" y=\"-2.000\" font-family=\"ui-monospace,SFMono-Regular,Menlo,monospace\" font-size=\""@
        + font_size(size) + "\" font-weight=\"700\" fill=\""@ + paint_text(face.accent_in(state))
        + "\" text-anchor=\"middle\">"@ + escaped(state_glyph(state)) + "</text>\n"@
}

/// A face as SVG.
#[verifier::opaque]
pub open spec fn svg_text(
    face: FaceSpec,
    state: SessionState,
    size: Size,
    frame: FrameView,
    figure: Figure,
) -> Seq<char> {
    let eyes = paint_text(face.eye_color_in(state));
    head_text(face.id@, state, size, frame, figure) + body_text(face, state, figure) + lines_text(
        figure.lines@,
        paint_text(face.accent_in(state)),
        size,
    ) + eye_text(figure.left_eye, eyes) + eye_text(figure.right_eye, eyes) + (if frame.glyph {
        glyph_text(face, state, size, figure.glyph_x@)
    } else {
        Seq::empty()
    }) + "</g>\n</svg>\n"@
}

fn paint(p: Paint) -> (r: String)
    ensures
        r@ == paint_text(p),
{
    to_hex(p.hex())
}

fn opacity_text(state: SessionState) -> (r: &'static str)
    ensures
        r@ == opacity(state),
{
    match state {
        SessionState::Idle => "0.55",
        SessionState::Done => "0.9",
        _ => "1",
    }
}

fn head(id: &str, state: SessionState, size: Size, frame: &Frame, figure: &Figure) -> (r: String)
    ensures
        r@ == head_text(id@, state, size, frame@, *figure),
{
    proof {
        reveal(head_text);
    }
    let label = esc(id);
    let mut out = "<svg xmlns=\"http://www.w3.org/2000/svg\" width=\"".to_owned();
    out.append(figure.w.as_str());
    out.append("\" height=\"");
    out.append(figure.h.as_str());
    out.append("\" viewBox=\"0 0 ");
    out.append(figure.w.as_str());
    out.append(" ");
    out.append(figure.h.as_str());
    out.append("\" role=\"img\" aria-label=\"");
    out.append(label.as_str());
    out.append(" / ");
    out.append(state.as_str());
    out.append("\">\n<title>");
    out.append(label.as_str());
    out.append(" — ");
    out.append(state.as_str());
    out.append(" / ");
    out.append(tag(size));
    out.append("</title>\n<rect width=\"");
    out.append(figure.w.as_str());
    out.append("\" height=\"");
    out.append(figure.h.as_str());
    out.append("\"");
    let ghost so_far = out@;
    match &frame.corner {
        Some(r) => {
            out.append(" rx=\"");
            out.append(r.as_str());
            out.append("\"");
            assert(out@ =~= so_far + (" rx=\""@ + r@ + "\""@));
        },
        None => {
            assert(out@ =~= so_far + Seq::<char>::empty());
        },
    }
    out.append(" fill=\"");
    out.append(paint(Paint::Default(ink())).as_str());
    out.append("\"/>\n<g opacity=\"");
    out.append(opacity_text(state));
    out.append("\" transform=\"translate(");
    out.append(frame.pad.as_str());
    out.append(",");
    out.append(frame.pad.as_str());
    out.append(")\">\n");
    out
}

fn body(face: &FaceSpec, state: SessionState, figure: &Figure) -> (r: String)
    ensures
        r@ == body_text(*face, state, *figure),
{
    proof {
        reveal(body_text);
    }
    let mut out = "  <path d=\"".to_owned();
    out.append(path_d(&figure.start, &figure.steps).as_str());
    out.append("\" transform=\"translate(0.75,0.75)\" fill=\"");
    out.append(paint(face.fill(state)).as_str());
    out.append("\" stroke=\"");
    out.append(paint(face.accent(state)).as_str());
    out.append("\" stroke-width=\"1.5\"/>\n");
    out
}

fn glyph(face: &FaceSpec, state: SessionState, size: Size, x: &str) -> (r: String)
    ensures
        r@ == glyph_text(*face, state, size, x@),
{
    proof {
        reveal(glyph_text);
    }
    let mut out = "  <text x=\"".to_owned();
    out.append(x);
    out.append(
        "\" y=\"-2.000\" font-family=\"ui-monospace,SFMono-Regular,Menlo,monospace\" font-size=\"",
    );
    if size.is_bar() {
        out.append("10");
    } else {
        out.append("11");
    }
    out.append("\" font-weight=\"700\" fill=\"");
    out.append(paint(face.accent(state)).as_str());
    out.append("\" text-anchor=\"middle\">");
    out.append(esc(state.glyph()).as_str());
    out.append("</text>\n");
    out
}

/// A face as SVG, in a frame. The colours are those of the face.
pub fn render_with(
    face: &FaceSpec,
    state: SessionState,
    size: Size,
    frame: &Frame,
    figure: &Figure,
) -> (r: String)
    ensures
        r@ == svg_text(*face, state, size, frame@, *figure),
{
    proof {
        reveal(svg_text);
    }
    let accent = paint(face.accent(state));
    let eyes = paint(face.eye_color(state));
    let mut out = head(face.id.as_str(), state, size, frame, figure);
    out.append(body(face, state, figure).as_str());
    out.append(panel_lines(&figure.lines, accent.as_str(), size).as_str());
    out.append(eye(&figure.left_eye, eyes.as_str()).as_str());
    out.append(eye(&figure.right_eye, eyes.as_str()).as_str());
    let ghost so_far = out@;
    if frame.glyph {
        out.append(glyph(face, state, size, figure.glyph_x.as_str()).as_str());
    } else {
        assert(so_far =~= so_far + Seq::<char>::empty());
    }
    out.append("</g>\n</svg>\n");
    out
}

/// The frame of a picture.
pub open spec fn picture_frame() -> FrameView {
    FrameView { pad: "8"@, corner: None, glyph: true }
}

/// The frame of a chip.
pub open spec fn chip_frame(corner: Option<Seq<char>>) -> FrameView {
    FrameView { pad: "3"@, corner, glyph: false }
}

/// A face as one picture, with space around it for glow and sign.
pub fn render(face: &FaceSpec, state: SessionState, size: Size, figure: &Figure) -> (r: String)
    ensures
        r@ == svg_text(*face, state, size, picture_frame(), *figure),
{
    let frame = Frame { pad: "8".to_owned(), corner: None, glyph: true };
    assert(frame@ == picture_frame());
    render_with(face, state, size, &frame, figure)
}

/// A face as a chip, for choosing one: narrow, with round corners, and without a sign. A chip
/// shows a shape, not a state.
pub fn render_chip(
    face: &FaceSpec,
    state: SessionState,
    size: Size,
    figure: &Figure,
    corner: Option<String>,
) -> (r: String)
    ensures
        r@ == svg_text(*face, state, size, chip_frame(opt_text(corner)), *figure),
{
    let ghost c = opt_text(corner);
    let frame = Frame { pad: "3".to_owned(), corner, glyph: false };
    assert(frame@ == chip_frame(c));
    render_with(face, state, size, &frame, figure)
}

// ---- all faces ------------------------------------------------------------------------------

/// A face with its figures, in the order of `SessionState::ORDER`.
#[derive(Debug)]
pub struct GalleryEntry {
    pub face: Arc<FaceSpec>,
    pub bar: [Figure; 6],
    pub dock: [Figure; 6],
}

/// The beginning of a gallery.
pub open spec fn gallery_head() -> Seq<char> {
    "<!doctype html>\n<meta charset=\"utf-8\">\n<title>ccsessions — 顔のギャラリー</title>\n<style>\n body { background:#0b0912; color:#e6e9f0; font-family:system-ui,sans-serif; margin:24px; }\n h1 { font-size:18px; } h2 { font-size:15px; margin-top:28px; }\n .row { display:flex; flex-wrap:wrap; gap:14px; align-items:flex-end; }\n .cell { text-align:center; }\n .cell figcaption { font-size:10px; color:#8b93a7; margin-top:4px; }\n .meta { font-size:12px; color:#8b93a7; }\n svg { display:block; }\n</style>\n<h1>ccsessions — 顔のギャラリー</h1>\n<p class=\"meta\">グローとアニメは SVG では静的な近似。輪郭・目・線画は CALayer と同じデータ由来。</p>\n"@
}

/// The pictures of a face in the first `n` states.
pub open spec fn cells_text(face: FaceSpec, size: Size, figures: Seq<Figure>, n: nat) -> Seq<char>
    decreases n,
{
    if n == 0 {
        Seq::empty()
    } else {
        let i = (n - 1) as nat;
        let state = SessionState::ORDER@[i as int];
        cells_text(face, size, figures, i) + "<figure class=\"cell\">"@ + svg_text(
            face,
            state,
            size,
            picture_frame(),
            figures[i as int],
        ) + "<figcaption>"@ + state_name(state) + "</figcaption></figure>\n"@
    }
}

/// The pictures of a face in one place.
#[verifier::opaque]
pub open spec fn row_text(face: FaceSpec, size: Size, figures: Seq<Figure>) -> Seq<char> {
    "<p class=\"meta\">"@ + size_name(size) + "</p>\n<div class=\"row\">\n"@ + cells_text(
        face,
        size,
        figures,
        6,
    ) + "</div>\n"@
}

/// What a gallery says of a face.
#[verifier::opaque]
pub open spec fn entry_text(e: GalleryEntry) -> Seq<char> {
    "<h2>"@ + escaped(e.face.label@) + " <span class=\"meta\">"@ + escaped(e.face.id@) + (
    match opt_text(e.face.author) {
        Some(a) => " — "@ + escaped(a),
        None => Seq::empty(),
    }) + "</span></h2>\n"@ + row_text(*e.face, Size::Bar, e.bar@) + row_text(
        *e.face,
        Size::Dock,
        e.dock@,
    )
}

/// A page with all faces.
pub open spec fn gallery_text(entries: Seq<GalleryEntry>) -> Seq<char>
    decreases entries.len(),
{
    if entries.len() == 0 {
        gallery_head()
    } else {
        gallery_text(entries.drop_last()) + entry_text(entries.last())
    }
}

fn row(face: &FaceSpec, size: Size, figures: &[Figure; 6]) -> (r: String)
    ensures
        r@ == row_text(*face, size, figures@),
{
    proof {
        reveal(row_text);
    }
    let mut out = join3("<p class=\"meta\">", tag(size), "</p>\n<div class=\"row\">\n");
    let ghost before = out@;
    let mut i: usize = 0;
    assert(out@ =~= before + cells_text(*face, size, figures@, 0));
    while i < 6
        invariant
            i <= 6,
            out@ == before + cells_text(*face, size, figures@, i as nat),
        decreases 6 - i,
    {
        let state = SessionState::ORDER[i];
        out.append("<figure class=\"cell\">");
        out.append(render(face, state, size, &figures[i]).as_str());
        out.append("<figcaption>");
        out.append(state.as_str());
        out.append("</figcaption></figure>\n");
        i += 1;
        assert(out@ =~= before + cells_text(*face, size, figures@, i as nat));
    }
    out.append("</div>\n");
    out
}

fn entry(e: &GalleryEntry) -> (r: String)
    ensures
        r@ == entry_text(*e),
{
    proof {
        reveal(entry_text);
    }
    let mut out = join3("<h2>", esc(e.face.label.as_str()).as_str(), " <span class=\"meta\">");
    out.append(esc(e.face.id.as_str()).as_str());
    let ghost so_far = out@;
    match &e.face.author {
        Some(a) => {
            out.append(" — ");
            out.append(esc(a.as_str()).as_str());
            assert(out@ =~= so_far + (" — "@ + escaped(a@)));
        },
        None => {
            assert(out@ =~= so_far + Seq::<char>::empty());
        },
    }
    out.append("</span></h2>\n");
    out.append(row(&e.face, Size::Bar, &e.bar).as_str());
    out.append(row(&e.face, Size::Dock, &e.dock).as_str());
    out
}

/// A page with all faces, in all states and places.
pub fn gallery(faces: &Vec<GalleryEntry>) -> (r: String)
    ensures
        r@ == gallery_text(faces@),
{
    let mut out =
        "<!doctype html>\n<meta charset=\"utf-8\">\n<title>ccsessions — 顔のギャラリー</title>\n<style>\n body { background:#0b0912; color:#e6e9f0; font-family:system-ui,sans-serif; margin:24px; }\n h1 { font-size:18px; } h2 { font-size:15px; margin-top:28px; }\n .row { display:flex; flex-wrap:wrap; gap:14px; align-items:flex-end; }\n .cell { text-align:center; }\n .cell figcaption { font-size:10px; color:#8b93a7; margin-top:4px; }\n .meta { font-size:12px; color:#8b93a7; }\n svg { display:block; }\n</style>\n<h1>ccsessions — 顔のギャラリー</h1>\n<p class=\"meta\">グローとアニメは SVG では静的な近似。輪郭・目・線画は CALayer と同じデータ由来。</p>\n".to_owned();
    let mut i: usize = 0;
    assert(faces@.take(0) =~= Seq::<GalleryEntry>::empty());
    while i < faces.len()
        invariant
            i <= faces@.len(),
            out@ == gallery_text(faces@.take(i as int)),
        decreases faces@.len() - i,
    {
        assert(faces@.take(i + 1).drop_last() =~= faces@.take(i as int));
        out.append(entry(&faces[i]).as_str());
        i += 1;
    }
    assert(faces@.take(faces@.len() as int) =~= faces@);
    out
}

// ---- laws -----------------------------------------------------------------------------------

/// A text that was made ready for XML holds no character that opens or closes a tag or ends an
/// attribute.
pub proof fn law_escaped_text_is_harmless(s: Seq<char>)
    ensures
        !escaped(s).contains('<'),
        !escaped(s).contains('>'),
        !escaped(s).contains('"'),
    decreases s.len(),
{
    if s.len() > 0 {
        law_escaped_text_is_harmless(s.drop_last());
        let a = escaped(s.drop_last());
        let b = escaped_char(s.last());
        reveal_strlit("&amp;");
        reveal_strlit("&lt;");
        reveal_strlit("&gt;");
        reveal_strlit("&quot;");
        assert forall|i: int| 0 <= i < (a + b).len() implies (#[trigger] (a + b)[i]) != '<' && (a
            + b)[i] != '>' && (a + b)[i] != '"' by {
            if i < a.len() {
                assert(a.contains(a[i]));
                assert((a + b)[i] == a[i]);
            } else {
                assert((a + b)[i] == b[i - a.len()]);
            }
        }
    }
}

/// A text without special characters stays as it is.
pub proof fn law_plain_text_is_kept(s: Seq<char>)
    requires
        !s.contains('&'),
        !s.contains('<'),
        !s.contains('>'),
        !s.contains('"'),
    ensures
        escaped(s) == s,
    decreases s.len(),
{
    if s.len() > 0 {
        let shorter = s.drop_last();
        assert forall|c: char| #[trigger] shorter.contains(c) implies s.contains(c) by {
            let i = choose|i: int| 0 <= i < shorter.len() && shorter[i] == c;
            assert(s[i] == c);
        }
        law_plain_text_is_kept(shorter);
        assert(s.contains(s[s.len() - 1]));
        assert(shorter + seq![s.last()] =~= s);
    }
}

/// A chip draws the same body as a picture of the same figure does.
pub proof fn law_a_chip_draws_the_same_body(
    face: FaceSpec,
    state: SessionState,
    size: Size,
    figure: Figure,
    corner: Option<Seq<char>>,
)
    ensures
        has_text(
            svg_text(face, state, size, picture_frame(), figure),
            body_text(face, state, figure),
        ),
        has_text(
            svg_text(face, state, size, chip_frame(corner), figure),
            body_text(face, state, figure),
        ),
{
    lemma_body_is_drawn(face, state, size, picture_frame(), figure);
    lemma_body_is_drawn(face, state, size, chip_frame(corner), figure);
}

proof fn lemma_body_is_drawn(
    face: FaceSpec,
    state: SessionState,
    size: Size,
    frame: FrameView,
    figure: Figure,
)
    ensures
        has_text(svg_text(face, state, size, frame, figure), body_text(face, state, figure)),
{
    reveal(svg_text);
    let head = head_text(face.id@, state, size, frame, figure);
    let part = body_text(face, state, figure);
    let all = svg_text(face, state, size, frame, figure);
    let rest = all.skip((head + part).len() as int);
    assert(all =~= head + part + rest);
    lemma_text_follows(head, part, rest);
}

#[verifier::spinoff_prover]
proof fn lemma_head_begins(
    id: Seq<char>,
    state: SessionState,
    size: Size,
    frame: FrameView,
    figure: Figure,
)
    ensures
        has_prefix(head_text(id, state, size, frame, figure), "<svg "@),
{
    let first = "<svg xmlns=\"http://www.w3.org/2000/svg\" width=\""@;
    let head = head_text(id, state, size, frame, figure);
    assert(has_prefix(first, "<svg "@)) by {
        reveal_strlit("<svg xmlns=\"http://www.w3.org/2000/svg\" width=\"");
        reveal_strlit("<svg ");
        assert(first.take(5) =~= "<svg "@);
    }
    let rest = head.skip(first.len() as int);
    assert(head =~= first + rest) by {
        reveal(head_text);
    }
    lemma_ends_are_kept(first, rest, "<svg "@);
}

#[verifier::spinoff_prover]
proof fn lemma_picture_ends(
    face: FaceSpec,
    state: SessionState,
    size: Size,
    frame: FrameView,
    figure: Figure,
)
    ensures
        has_suffix(svg_text(face, state, size, frame, figure), "</svg>\n"@),
{
    let all = svg_text(face, state, size, frame, figure);
    let last = "</g>\n</svg>\n"@;
    assert(has_suffix(last, "</svg>\n"@)) by {
        reveal_strlit("</g>\n</svg>\n");
        reveal_strlit("</svg>\n");
        assert(last.skip(5) =~= "</svg>\n"@);
    }
    let front = all.take(all.len() - last.len());
    assert(all =~= front + last) by {
        reveal(svg_text);
    }
    lemma_ends_are_kept(last, front, "</svg>\n"@);
}

/// The picture of a face begins and ends as an SVG document.
pub proof fn law_a_picture_is_a_document(
    face: FaceSpec,
    state: SessionState,
    size: Size,
    frame: FrameView,
    figure: Figure,
)
    ensures
        has_prefix(svg_text(face, state, size, frame, figure), "<svg "@),
        has_suffix(svg_text(face, state, size, frame, figure), "</svg>\n"@),
{
    let all = svg_text(face, state, size, frame, figure);
    let head = head_text(face.id@, state, size, frame, figure);
    let rest = all.skip(head.len() as int);
    assert(all =~= head + rest) by {
        reveal(svg_text);
    }
    lemma_head_begins(face.id@, state, size, frame, figure);
    lemma_ends_are_kept(head, rest, "<svg "@);
    lemma_picture_ends(face, state, size, frame, figure);
}

/// A gallery says of every face what there is to say.
pub proof fn law_a_gallery_lists_every_face(entries: Seq<GalleryEntry>, i: int)
    requires
        0 <= i < entries.len(),
    ensures
        has_text(gallery_text(entries), entry_text(entries[i])),
        has_text(gallery_text(entries), escaped(entries[i].face.label@)),
    decreases entries.len(),
{
    let before = gallery_text(entries.drop_last());
    let part = entry_text(entries.last());
    if i < entries.len() - 1 {
        law_a_gallery_lists_every_face(entries.drop_last(), i);
        lemma_text_stays(before, part, entry_text(entries[i]));
        lemma_text_stays(before, part, escaped(entries[i].face.label@));
    } else {
        let label = escaped(entries[i].face.label@);
        lemma_text_follows(before, part, Seq::empty());
        assert(before + part + Seq::<char>::empty() =~= before + part);
        let rest = part.skip(("<h2>"@ + label).len() as int);
        assert(part =~= "<h2>"@ + label + rest) by {
            reveal(entry_text);
        }
        lemma_text_follows(before + "<h2>"@, label, rest);
        assert(before + "<h2>"@ + label + rest =~= before + part);
    }
}

proof fn lemma_text_follows(a: Seq<char>, p: Seq<char>, b: Seq<char>)
    ensures
        has_text(a + p + b, p),
{
    let at = a.len() as int;
    assert((a + p + b).subrange(at, at + p.len()) =~= p);
    assert(occurs_at(a + p + b, p, at));
}

proof fn lemma_ends_are_kept(a: Seq<char>, b: Seq<char>, p: Seq<char>)
    ensures
        has_prefix(a, p) ==> has_prefix(a + b, p),
        has_suffix(a, p) ==> has_suffix(b + a, p),
{
    if has_prefix(a, p) {
        assert((a + b).take(p.len() as int) =~= a.take(p.len() as int));
    }
    if has_suffix(a, p) {
        assert((b + a).skip((b + a).len() - p.len()) =~= a.skip(a.len() - p.len()));
    }
}

proof fn lemma_text_stays(a: Seq<char>, b: Seq<char>, p: Seq<char>)
    requires
        has_text(a, p),
    ensures
        has_text(a + b, p),
{
    let i = choose|i: int| occurs_at(a, p, i);
    assert((a + b).subrange(i, i + p.len()) =~= a.subrange(i, i + p.len()));
    assert(occurs_at(a + b, p, i));
}

// ---- what a picture shows -------------------------------------------------------------------

#[verifier::spinoff_prover]
proof fn lemma_parts_of_a_picture(
    face: FaceSpec,
    state: SessionState,
    size: Size,
    frame: FrameView,
    figure: Figure,
)
    ensures
        ({
            let all = svg_text(face, state, size, frame, figure);
            let eyes = paint_text(face.eye_color_in(state));
            &&& has_text(all, head_text(face.id@, state, size, frame, figure))
            &&& has_text(all, body_text(face, state, figure))
            &&& has_text(all, lines_text(figure.lines@, paint_text(face.accent_in(state)), size))
            &&& has_text(
                all,
                eye_text(figure.left_eye, eyes) + eye_text(figure.right_eye, eyes),
            )
            &&& frame.glyph ==> has_text(all, glyph_text(face, state, size, figure.glyph_x@))
        }),
{
    let all = svg_text(face, state, size, frame, figure);
    let eyes = paint_text(face.eye_color_in(state));
    let a = head_text(face.id@, state, size, frame, figure);
    let b = body_text(face, state, figure);
    let c = lines_text(figure.lines@, paint_text(face.accent_in(state)), size);
    let d = eye_text(figure.left_eye, eyes) + eye_text(figure.right_eye, eyes);
    let e = if frame.glyph {
        glyph_text(face, state, size, figure.glyph_x@)
    } else {
        Seq::empty()
    };
    let f = "</g>\n</svg>\n"@;
    assert(all =~= a + b + c + d + e + f) by {
        reveal(svg_text);
    }
    lemma_text_follows(Seq::empty(), a, b + c + d + e + f);
    assert(Seq::<char>::empty() + a + (b + c + d + e + f) =~= all);
    lemma_text_follows(a, b, c + d + e + f);
    assert(a + b + (c + d + e + f) =~= all);
    lemma_text_follows(a + b, c, d + e + f);
    assert(a + b + c + (d + e + f) =~= all);
    lemma_text_follows(a + b + c, d, e + f);
    assert(a + b + c + d + (e + f) =~= all);
    lemma_text_follows(a + b + c + d, e, f);
}

/// The border of the body has the colour of the state, and the body its own.
pub proof fn law_the_border_has_the_color_of_the_state(
    face: FaceSpec,
    state: SessionState,
    size: Size,
    frame: FrameView,
    figure: Figure,
)
    ensures
        has_text(
            svg_text(face, state, size, frame, figure),
            " fill=\""@ + paint_text(face.fill_in(state)) + "\" stroke=\""@ + paint_text(
                face.accent_in(state),
            ) + "\" stroke-width=\"1.5\"/>\n"@,
        ),
        has_text(
            svg_text(face, state, size, frame, figure),
            "  <path d=\""@ + closed_path(figure.start@, figure.steps@) + "\""@,
        ),
{
    lemma_parts_of_a_picture(face, state, size, frame, figure);
    let all = svg_text(face, state, size, frame, figure);
    let body = body_text(face, state, figure);
    let path = "  <path d=\""@ + closed_path(figure.start@, figure.steps@);
    let p = " fill=\""@ + paint_text(face.fill_in(state)) + "\" stroke=\""@ + paint_text(
        face.accent_in(state),
    ) + "\" stroke-width=\"1.5\"/>\n"@;
    let shift = "\" transform=\"translate(0.75,0.75)\" fill=\""@;
    let before_fill = "\" transform=\"translate(0.75,0.75)\""@;
    assert(shift =~= before_fill + " fill=\""@) by {
        reveal_strlit("\" transform=\"translate(0.75,0.75)\" fill=\"");
        reveal_strlit("\" transform=\"translate(0.75,0.75)\"");
        reveal_strlit(" fill=\"");
    }
    assert(body =~= path + before_fill + p) by {
        reveal(body_text);
    }
    lemma_text_follows(path + before_fill, p, Seq::empty());
    assert(path + before_fill + p + Seq::<char>::empty() =~= body);
    lemma_occurs_within(all, body, p);
    let q = path + "\""@;
    let rest = body.skip(q.len() as int);
    assert(before_fill =~= "\""@ + before_fill.skip(1)) by {
        reveal_strlit("\"");
        reveal_strlit("\" transform=\"translate(0.75,0.75)\"");
    }
    assert(body =~= Seq::<char>::empty() + q + rest);
    lemma_text_follows(Seq::empty(), q, rest);
    lemma_occurs_within(all, body, q);
}

/// The sign of the state stands in a picture, in the colour of the state; in a chip it does not,
/// and nothing else differs.
pub proof fn law_the_sign_of_the_state_is_drawn(
    face: FaceSpec,
    state: SessionState,
    size: Size,
    frame: FrameView,
    figure: Figure,
)
    requires
        frame.glyph,
    ensures
        has_text(
            svg_text(face, state, size, frame, figure),
            paint_text(face.accent_in(state)) + "\" text-anchor=\"middle\">"@ + escaped(
                state_glyph(state),
            ) + "</text>\n"@,
        ),
        exists|front: Seq<char>|
            {
                &&& svg_text(face, state, size, frame, figure) == #[trigger] (front + glyph_text(
                    face,
                    state,
                    size,
                    figure.glyph_x@,
                )) + "</g>\n</svg>\n"@
                &&& svg_text(
                    face,
                    state,
                    size,
                    FrameView { glyph: false, ..frame },
                    figure,
                ) == front + "</g>\n</svg>\n"@
            },
{
    lemma_parts_of_a_picture(face, state, size, frame, figure);
    let all = svg_text(face, state, size, frame, figure);
    let bare = FrameView { glyph: false, ..frame };
    let sign = glyph_text(face, state, size, figure.glyph_x@);
    let p = paint_text(face.accent_in(state)) + "\" text-anchor=\"middle\">"@ + escaped(
        state_glyph(state),
    ) + "</text>\n"@;
    let front = sign.take(sign.len() - p.len());
    assert(sign =~= front + p + Seq::<char>::empty()) by {
        reveal(glyph_text);
    }
    lemma_text_follows(front, p, Seq::empty());
    lemma_occurs_within(all, sign, p);
    let eyes = paint_text(face.eye_color_in(state));
    let before = head_text(face.id@, state, size, frame, figure) + body_text(face, state, figure)
        + lines_text(figure.lines@, paint_text(face.accent_in(state)), size) + eye_text(
        figure.left_eye,
        eyes,
    ) + eye_text(figure.right_eye, eyes);
    assert(head_text(face.id@, state, size, bare, figure) == head_text(
        face.id@,
        state,
        size,
        frame,
        figure,
    )) by {
        reveal(head_text);
    }
    assert(svg_text(face, state, size, bare, figure) =~= before + "</g>\n</svg>\n"@) by {
        reveal(svg_text);
    }
    assert(all =~= (before + sign) + "</g>\n</svg>\n"@) by {
        reveal(svg_text);
    }
}

/// Both eyes are drawn, in the colour of the eyes, the left one first.
pub proof fn law_both_eyes_are_drawn(
    face: FaceSpec,
    state: SessionState,
    size: Size,
    frame: FrameView,
    figure: Figure,
)
    ensures
        has_text(
            svg_text(face, state, size, frame, figure),
            eye_text(figure.left_eye, paint_text(face.eye_color_in(state))) + eye_text(
                figure.right_eye,
                paint_text(face.eye_color_in(state)),
            ),
        ),
{
    lemma_parts_of_a_picture(face, state, size, frame, figure);
}

/// An eye is a polygon through its points or a rectangle with round corners, filled with its
/// colour.
pub proof fn law_an_eye_is_filled(eye: EyeFigure, color: Seq<char>)
    ensures
        has_suffix(eye_text(eye, color), "\" fill=\""@ + color + "\"/>\n"@),
        eye matches EyeFigure::Polygon(v) ==> has_prefix(
            eye_text(eye, color),
            "  <polygon points=\""@ + points_text(v@),
        ),
        eye matches EyeFigure::Rect { x, y, w, h, radius } ==> has_prefix(
            eye_text(eye, color),
            "  <rect x=\""@ + x@ + "\" y=\""@ + y@ + "\" width=\""@ + w@ + "\" height=\""@ + h@
                + "\" rx=\""@ + radius@,
        ),
{
    let t = eye_text(eye, color);
    let end = "\" fill=\""@ + color + "\"/>\n"@;
    match eye {
        EyeFigure::Polygon(v) => {
            let front = "  <polygon points=\""@ + points_text(v@);
            assert(t =~= front + end);
            assert(t.take(front.len() as int) =~= front);
            assert(t.skip(t.len() - end.len()) =~= end);
        },
        EyeFigure::Rect { x, y, w, h, radius } => {
            let front = "  <rect x=\""@ + x@ + "\" y=\""@ + y@ + "\" width=\""@ + w@
                + "\" height=\""@ + h@ + "\" rx=\""@ + radius@;
            assert(t =~= front + end);
            assert(t.take(front.len() as int) =~= front);
            assert(t.skip(t.len() - end.len()) =~= end);
        },
    }
}

/// Every panel line is drawn, in the colour of the state and in the width for the place.
pub proof fn law_every_panel_line_is_drawn(
    face: FaceSpec,
    state: SessionState,
    size: Size,
    frame: FrameView,
    figure: Figure,
    i: int,
)
    requires
        0 <= i < figure.lines@.len(),
    ensures
        has_text(
            svg_text(face, state, size, frame, figure),
            "  <polyline points=\""@ + points_text(figure.lines@[i]@)
                + "\" fill=\"none\" stroke=\""@ + paint_text(face.accent_in(state))
                + "\" stroke-opacity=\"0.62\" stroke-width=\""@ + (if size == Size::Bar {
                "0.8"@
            } else {
                "1"@
            }) + "\" stroke-linecap=\"round\"/>\n"@,
        ),
{
    lemma_parts_of_a_picture(face, state, size, frame, figure);
    let accent = paint_text(face.accent_in(state));
    lemma_line_is_drawn(figure.lines@, accent, size, i);
    lemma_occurs_within(
        svg_text(face, state, size, frame, figure),
        lines_text(figure.lines@, accent, size),
        line_text(figure.lines@[i], accent, size),
    );
}

spec fn line_text(line: Vec<Pair>, accent: Seq<char>, size: Size) -> Seq<char> {
    "  <polyline points=\""@ + points_text(line@) + "\" fill=\"none\" stroke=\""@ + accent
        + "\" stroke-opacity=\"0.62\" stroke-width=\""@ + (if size == Size::Bar {
        "0.8"@
    } else {
        "1"@
    }) + "\" stroke-linecap=\"round\"/>\n"@
}

proof fn lemma_line_is_drawn(lines: Seq<Vec<Pair>>, accent: Seq<char>, size: Size, i: int)
    requires
        0 <= i < lines.len(),
    ensures
        has_text(lines_text(lines, accent, size), line_text(lines[i], accent, size)),
    decreases lines.len(),
{
    let before = lines_text(lines.drop_last(), accent, size);
    let last = line_text(lines.last(), accent, size);
    assert(lines_text(lines, accent, size) =~= before + last);
    if i < lines.len() - 1 {
        lemma_line_is_drawn(lines.drop_last(), accent, size, i);
        lemma_text_stays(before, last, line_text(lines[i], accent, size));
    } else {
        lemma_text_follows(before, last, Seq::empty());
        assert(before + last + Seq::<char>::empty() =~= before + last);
    }
}

/// A picture has the size of its figure, is named after the face and the state, stands on the
/// dark ground, and is as faded as the state wants it.
#[verifier::spinoff_prover]
pub proof fn law_what_a_picture_says_of_itself(
    face: FaceSpec,
    state: SessionState,
    size: Size,
    frame: FrameView,
    figure: Figure,
)
    ensures
        has_text(
            svg_text(face, state, size, frame, figure),
            "<svg xmlns=\"http://www.w3.org/2000/svg\" width=\""@ + figure.w@ + "\" height=\""@
                + figure.h@ + "\" viewBox=\"0 0 "@ + figure.w@ + " "@ + figure.h@ + "\" role=\"img\" aria-label=\""@
                + escaped(face.id@) + " / "@ + state_name(state) + "\">\n<title>"@ + escaped(face.id@)
                + " — "@ + state_name(state) + " / "@ + size_name(size) + "</title>\n<rect width=\""@,
        ),
        has_text(
            svg_text(face, state, size, frame, figure),
            " fill=\""@ + paint_text(Paint::Default(ink_color())) + "\"/>\n<g opacity=\""@
                + (match state {
                SessionState::Idle => "0.55"@,
                SessionState::Done => "0.9"@,
                _ => "1"@,
            }) + "\" transform=\"translate("@ + frame.pad + ","@ + frame.pad + ")\">\n"@,
        ),
        frame.corner matches Some(r) ==> has_text(
            svg_text(face, state, size, frame, figure),
            " rx=\""@ + r + "\" fill=\""@ + paint_text(Paint::Default(ink_color())),
        ),
{
    lemma_parts_of_a_picture(face, state, size, frame, figure);
    let all = svg_text(face, state, size, frame, figure);
    let head = head_text(face.id@, state, size, frame, figure);
    let p = naming_text(face.id@, state, size, figure);
    let q = ground_text(state, frame);
    lemma_head_pieces(face.id@, state, size, frame, figure);
    let middle = figure.w@ + "\" height=\""@ + figure.h@ + "\""@;
    let corner = corner_text(frame);
    lemma_text_follows(Seq::empty(), p, middle + corner + q);
    assert(Seq::<char>::empty() + p + (middle + corner + q) =~= p + middle + corner + q);
    lemma_occurs_within(all, head, p);
    lemma_text_follows(p + middle + corner, q, Seq::empty());
    assert(p + middle + corner + q + Seq::<char>::empty() =~= p + middle + corner + q);
    lemma_occurs_within(all, head, q);
    if frame.corner is Some {
        lemma_corner_is_drawn(face.id@, state, size, frame, figure);
        lemma_occurs_within(
            all,
            head,
            " rx=\""@ + frame.corner->0 + "\" fill=\""@ + paint_text(Paint::Default(ink_color())),
        );
    }
}

spec fn naming_text(id: Seq<char>, state: SessionState, size: Size, figure: Figure) -> Seq<char> {
    "<svg xmlns=\"http://www.w3.org/2000/svg\" width=\""@ + figure.w@ + "\" height=\""@ + figure.h@
        + "\" viewBox=\"0 0 "@ + figure.w@ + " "@ + figure.h@ + "\" role=\"img\" aria-label=\""@
        + escaped(id) + " / "@ + state_name(state) + "\">\n<title>"@ + escaped(id) + " — "@
        + state_name(state) + " / "@ + size_name(size) + "</title>\n<rect width=\""@
}

spec fn corner_text(frame: FrameView) -> Seq<char> {
    match frame.corner {
        Some(r) => " rx=\""@ + r + "\""@,
        None => Seq::empty(),
    }
}

spec fn ground_text(state: SessionState, frame: FrameView) -> Seq<char> {
    " fill=\""@ + paint_text(Paint::Default(ink_color())) + "\"/>\n<g opacity=\""@ + (match state {
        SessionState::Idle => "0.55"@,
        SessionState::Done => "0.9"@,
        _ => "1"@,
    }) + "\" transform=\"translate("@ + frame.pad + ","@ + frame.pad + ")\">\n"@
}

proof fn lemma_regroup(
    x: Seq<char>,
    a: Seq<char>,
    b: Seq<char>,
    c: Seq<char>,
    d: Seq<char>,
    e: Seq<char>,
    f: Seq<char>,
    g: Seq<char>,
    h: Seq<char>,
    i: Seq<char>,
)
    ensures
        x + a + b + c + d + e + f + g + h + i == x + (a + b + c + d + e + f + g + h + i),
{
    assert(x + a + b + c + d == x + (a + b + c + d));
    let y = a + b + c + d;
    assert(x + y + e + f + g == x + (y + e + f + g));
    let z = y + e + f + g;
    assert(x + z + h + i == x + (z + h + i));
}

#[verifier::spinoff_prover]
proof fn lemma_head_pieces(
    id: Seq<char>,
    state: SessionState,
    size: Size,
    frame: FrameView,
    figure: Figure,
)
    ensures
        head_text(id, state, size, frame, figure) == naming_text(id, state, size, figure) + (
        figure.w@ + "\" height=\""@ + figure.h@ + "\""@) + corner_text(frame) + ground_text(
            state,
            frame,
        ),
{
    reveal(head_text);
    let p = naming_text(id, state, size, figure);
    let none = Seq::<char>::empty();
    lemma_regroup(
        p,
        figure.w@,
        "\" height=\""@,
        figure.h@,
        "\""@,
        none,
        none,
        none,
        none,
        none,
    );
    let middle = figure.w@ + "\" height=\""@ + figure.h@ + "\""@;
    assert(p + figure.w@ + "\" height=\""@ + figure.h@ + "\""@ + none + none + none + none + none
        == p + figure.w@ + "\" height=\""@ + figure.h@ + "\""@) by {
        lemma_nothing_added(p + figure.w@ + "\" height=\""@ + figure.h@ + "\""@);
    }
    lemma_nothing_added(middle);
    lemma_regroup(
        p + middle + corner_text(frame),
        " fill=\""@,
        paint_text(Paint::Default(ink_color())),
        "\"/>\n<g opacity=\""@,
        opacity(state),
        "\" transform=\"translate("@,
        frame.pad,
        ","@,
        frame.pad,
        ")\">\n"@,
    );
}

proof fn lemma_nothing_added(s: Seq<char>)
    ensures
        s + Seq::<char>::empty() + Seq::<char>::empty() + Seq::<char>::empty()
            + Seq::<char>::empty() + Seq::<char>::empty() == s,
{
    assert(s + Seq::<char>::empty() == s);
}

#[verifier::spinoff_prover]
proof fn lemma_corner_is_drawn(
    id: Seq<char>,
    state: SessionState,
    size: Size,
    frame: FrameView,
    figure: Figure,
)
    requires
        frame.corner is Some,
    ensures
        has_text(
            head_text(id, state, size, frame, figure),
            " rx=\""@ + frame.corner->0 + "\" fill=\""@ + paint_text(Paint::Default(ink_color())),
        ),
{
    lemma_head_pieces(id, state, size, frame, figure);
    let r = frame.corner->0;
    let ground = paint_text(Paint::Default(ink_color()));
    let q = ground_text(state, frame);
    let front = naming_text(id, state, size, figure) + (figure.w@ + "\" height=\""@ + figure.h@
        + "\""@);
    assert("\" fill=\""@ == "\""@ + " fill=\""@) by {
        reveal_strlit("\" fill=\"");
        reveal_strlit("\"");
        reveal_strlit(" fill=\"");
        assert("\" fill=\""@ =~= "\""@ + " fill=\""@);
    }
    let c = " rx=\""@ + r + "\" fill=\""@ + ground;
    let rest = q.skip((" fill=\""@ + ground).len() as int);
    assert(q =~= " fill=\""@ + ground + rest);
    lemma_text_follows(front, c, rest);
    assert(front + c + rest =~= front + corner_text(frame) + q);
}

/// The width of a panel line, the size of a sign and how opaque a figure is, in a picture.
pub proof fn law_the_measures_of_a_picture(state: SessionState)
    ensures
        line_width(Size::Bar) == "0.8"@,
        line_width(Size::Dock) == "1"@,
        font_size(Size::Bar) == "10"@,
        font_size(Size::Dock) == "11"@,
        opacity(SessionState::Idle) == "0.55"@,
        opacity(SessionState::Done) == "0.9"@,
        state != SessionState::Idle && state != SessionState::Done ==> opacity(state) == "1"@,
        picture_frame().pad == "8"@ && picture_frame().glyph && picture_frame().corner is None,
{
}

/// A chip is narrow, has the corners that it is given, and shows no sign.
pub proof fn law_the_frame_of_a_chip(corner: Option<Seq<char>>)
    ensures
        chip_frame(corner).pad == "3"@,
        chip_frame(corner).corner == corner,
        !chip_frame(corner).glyph,
{
}

/// Texts are made ready for XML character by character.
pub proof fn law_escaping_goes_character_by_character(a: Seq<char>, b: Seq<char>, c: char)
    ensures
        escaped(a + b) == escaped(a) + escaped(b),
        escaped(seq!['&']) == "&amp;"@,
        escaped(seq!['<']) == "&lt;"@,
        escaped(seq!['>']) == "&gt;"@,
        escaped(seq!['"']) == "&quot;"@,
        c != '&' && c != '<' && c != '>' && c != '"' ==> escaped(seq![c]) == seq![c],
    decreases b.len(),
{
    if b.len() == 0 {
        assert(a + b =~= a);
        assert(escaped(a) + escaped(b) =~= escaped(a));
    } else {
        law_escaping_goes_character_by_character(a, b.drop_last(), c);
        assert((a + b).drop_last() =~= a + b.drop_last());
        assert(escaped(a + b) =~= escaped(a) + escaped(b));
    }
    lemma_escaped_one('&');
    lemma_escaped_one('<');
    lemma_escaped_one('>');
    lemma_escaped_one('"');
    lemma_escaped_one(c);
}

proof fn lemma_escaped_one(c: char)
    ensures
        escaped(seq![c]) == escaped_char(c),
{
    assert(seq![c].drop_last() =~= Seq::<char>::empty());
    assert(escaped(seq![c].drop_last()) =~= Seq::<char>::empty());
    assert(Seq::<char>::empty() + escaped_char(c) =~= escaped_char(c));
}

/// Points are written one after the other, each with a comma inside.
pub proof fn law_points_are_written_in_order(a: Seq<Pair>, b: Seq<Pair>)
    requires
        a.len() > 0,
        b.len() > 0,
    ensures
        points_text(a + b) == points_text(a) + " "@ + points_text(b),
        points_text(seq![a[0]]) == a[0].x@ + ","@ + a[0].y@,
    decreases b.len(),
{
    assert((a + b).drop_last() =~= a + b.drop_last());
    assert((a + b).last() == b.last());
    if b.len() == 1 {
        assert(a + b.drop_last() =~= a);
        assert(points_text(a + b) =~= points_text(a) + " "@ + points_text(b));
    } else {
        law_points_are_written_in_order(a, b.drop_last());
        assert(points_text(a + b) =~= points_text(a) + " "@ + points_text(b));
    }
}

/// The steps of an outline are written one after the other, a line with its end and a curve with
/// its two handles and its end; the outline begins with its start and is closed.
pub proof fn law_an_outline_is_written_step_by_step(
    start: PairView,
    a: Seq<StepDraft>,
    b: Seq<StepDraft>,
    s: StepDraft,
)
    ensures
        segments_text(a + b) == segments_text(a) + segments_text(b),
        segments_text(seq![s]) == match s {
            StepDraft::Line { to } => " L "@ + to.x@ + " "@ + to.y@,
            StepDraft::Cubic { c1, c2, to } => " C "@ + c1.x@ + " "@ + c1.y@ + " "@ + c2.x@ + " "@
                + c2.y@ + " "@ + to.x@ + " "@ + to.y@,
        },
        closed_path(start, a) == "M "@ + start.x + " "@ + start.y + segments_text(a) + " Z"@,
    decreases b.len(),
{
    if b.len() == 0 {
        assert(a + b =~= a);
        assert(segments_text(a) + segments_text(b) =~= segments_text(a));
    } else {
        law_an_outline_is_written_step_by_step(start, a, b.drop_last(), s);
        assert((a + b).drop_last() =~= a + b.drop_last());
        assert(segments_text(a + b) =~= segments_text(a) + segments_text(b));
    }
    assert(seq![s].drop_last() =~= Seq::<StepDraft>::empty());
    assert(segments_text(seq![s].drop_last()) =~= Seq::<char>::empty());
    match s {
        StepDraft::Line { to } => {
            assert(segments_text(seq![s]) =~= " L "@ + to.x@ + " "@ + to.y@);
        },
        StepDraft::Cubic { c1, c2, to } => {
            assert(segments_text(seq![s]) =~= " C "@ + c1.x@ + " "@ + c1.y@ + " "@ + c2.x@ + " "@
                + c2.y@ + " "@ + to.x@ + " "@ + to.y@);
        },
    }
    assert(closed_path(start, a) =~= "M "@ + start.x + " "@ + start.y + segments_text(a) + " Z"@);
}

/// A gallery shows every face in every state, in the menu bar and in the dock, with the name of
/// the state below.
pub proof fn law_a_gallery_shows_every_state(entries: Seq<GalleryEntry>, i: int, k: int)
    requires
        0 <= i < entries.len(),
        0 <= k < 6,
    ensures
        has_text(
            gallery_text(entries),
            svg_text(
                *entries[i].face,
                SessionState::ORDER@[k],
                Size::Bar,
                picture_frame(),
                entries[i].bar@[k],
            ) + "<figcaption>"@ + state_name(SessionState::ORDER@[k]) + "</figcaption></figure>\n"@,
        ),
        has_text(
            gallery_text(entries),
            svg_text(
                *entries[i].face,
                SessionState::ORDER@[k],
                Size::Dock,
                picture_frame(),
                entries[i].dock@[k],
            ) + "<figcaption>"@ + state_name(SessionState::ORDER@[k]) + "</figcaption></figure>\n"@,
        ),
{
    let e = entries[i];
    law_a_gallery_lists_every_face(entries, i);
    let bar = row_of(e, Size::Bar);
    let dock = row_of(e, Size::Dock);
    let all = entry_text(e);
    let front = all.take(all.len() - bar.len() - dock.len());
    assert(all =~= front + bar + dock) by {
        reveal(entry_text);
    }
    lemma_text_follows(front, bar, dock);
    lemma_text_follows(front + bar, dock, Seq::empty());
    assert(front + bar + dock + Seq::<char>::empty() =~= all);
    lemma_cell_is_shown(e, Size::Bar, k);
    lemma_cell_is_shown(e, Size::Dock, k);
    lemma_occurs_within(gallery_text(entries), all, bar);
    lemma_occurs_within(gallery_text(entries), all, dock);
    lemma_occurs_within(gallery_text(entries), bar, cell_of(e, Size::Bar, k));
    lemma_occurs_within(gallery_text(entries), dock, cell_of(e, Size::Dock, k));
}

spec fn figures_in(e: GalleryEntry, size: Size) -> Seq<Figure> {
    if size == Size::Bar {
        e.bar@
    } else {
        e.dock@
    }
}

spec fn row_of(e: GalleryEntry, size: Size) -> Seq<char> {
    row_text(*e.face, size, figures_in(e, size))
}

spec fn cells_of(e: GalleryEntry, size: Size, n: nat) -> Seq<char> {
    cells_text(*e.face, size, figures_in(e, size), n)
}

spec fn cell_of(e: GalleryEntry, size: Size, k: int) -> Seq<char> {
    svg_text(
        *e.face,
        SessionState::ORDER@[k],
        size,
        picture_frame(),
        figures_in(e, size)[k],
    ) + "<figcaption>"@ + state_name(SessionState::ORDER@[k]) + "</figcaption></figure>\n"@
}

proof fn lemma_cell_is_shown(e: GalleryEntry, size: Size, k: int)
    requires
        0 <= k < 6,
    ensures
        has_text(row_of(e, size), cell_of(e, size, k)),
{
    let cells = cells_of(e, size, 6);
    let row = row_of(e, size);
    let front = "<p class=\"meta\">"@ + size_name(size) + "</p>\n<div class=\"row\">\n"@;
    assert(row =~= front + cells + "</div>\n"@) by {
        reveal(row_text);
    }
    lemma_text_follows(front, cells, "</div>\n"@);
    lemma_cell_among(e, size, 6, k);
    lemma_occurs_within(row, cells, cell_of(e, size, k));
}

proof fn lemma_cell_among(e: GalleryEntry, size: Size, n: nat, k: int)
    requires
        0 <= k < n,
    ensures
        has_text(cells_of(e, size, n), cell_of(e, size, k)),
    decreases n,
{
    let i = (n - 1) as nat;
    let before = cells_of(e, size, i);
    let cell = cell_of(e, size, i as int);
    let opening = "<figure class=\"cell\">"@;
    assert(cells_of(e, size, n) =~= before + opening + cell);
    if k == i {
        lemma_text_follows(before + opening, cell, Seq::empty());
        assert(before + opening + cell + Seq::<char>::empty() =~= before + opening + cell);
    } else {
        lemma_cell_among(e, size, i, k);
        lemma_text_stays(before, opening + cell, cell_of(e, size, k));
        assert(before + (opening + cell) =~= before + opening + cell);
    }
}

} // verus!
