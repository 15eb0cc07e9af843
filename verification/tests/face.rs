//! Faces: reading, checking and drawing them.

#![allow(dead_code)]

use std::sync::Arc;

use ccsessions_core::face::builder::emit::{Pair, StepDraft};
use ccsessions_core::face::palette::{self, Hex, Paint};
use ccsessions_core::face::parse::{
    build, parse_path, path_tokens, RawColors, RawDetail, RawEyeState, RawEyes, RawFace, RawOutline,
};
use ccsessions_core::face::registry::{builtin_ids, holds_face, ReadFace, Registry, DEFAULT_FACE_ID};
use ccsessions_core::face::spec::{
    is_valid_id, path_outline, state_index, BodySize, BySize, CornerSpec, DetailSpec, EyeColor,
    EyeOverride, EyeShape, EyeSizing, FaceSpec, Length, OutlineSpec, Problem, ProblemCode, Source,
    UnitPoint, UnitSeg,
};
use ccsessions_core::face::svg::{self, EyeFigure, Figure, GalleryEntry};
use ccsessions_core::face::validate::{
    self, shape_matches_polygon, EyeFinding, OutlineFinding, PlaceSurvey, SizeText, Survey,
    SymmetryFinding, WideEyes,
};
use ccsessions_core::face::{outline_points, seg_to, Outline, Seg, Size};
use ccsessions_core::num::{Num, Point};
use ccsessions_core::session::SessionState;
use toml::{Table, Value};

/// A number for the library.
fn num(x: f64) -> Num {
    Num::new(x.to_bits())
}

/// A number of the library.
fn float(n: Num) -> f64 {
    f64::from_bits(n.bits)
}

/// A point for the library.
fn point((x, y): (f64, f64)) -> Point {
    Point {
        x: num(x),
        y: num(y),
    }
}

/// A point of the library.
fn pair(p: Point) -> (f64, f64) {
    (float(p.x), float(p.y))
}

fn float_of(v: &Value) -> f64 {
    v.as_float().unwrap_or_else(|| v.as_integer().unwrap() as f64)
}

fn number_in(t: &Table, key: &str) -> Option<Num> {
    t.get(key).map(|v| num(float_of(v)))
}

fn text_in(t: &Table, key: &str) -> Option<String> {
    t.get(key).map(|v| v.as_str().unwrap().to_string())
}

fn two(v: &Value) -> [Num; 2] {
    let a = v.as_array().unwrap();
    [num(float_of(&a[0])), num(float_of(&a[1]))]
}

fn twos(v: &Value) -> Vec<[Num; 2]> {
    v.as_array().unwrap().iter().map(two).collect()
}

fn bar_dock<T>(v: &Value, read: impl Fn(&Value) -> T) -> BySize<T> {
    BySize {
        bar: read(&v["bar"]),
        dock: read(&v["dock"]),
    }
}

fn tables(t: &Table, key: &str) -> Vec<(String, Table)> {
    let Some(v) = t.get(key) else {
        return Vec::new();
    };
    let rows = v.as_table().unwrap().iter();
    rows.map(|(k, v)| (k.clone(), v.as_table().unwrap().clone()))
        .collect()
}

fn raw_outline(t: &Table) -> RawOutline {
    let read = |word: &String| word.parse::<f64>().ok().map(num);
    RawOutline {
        kind: text_in(t, "kind").unwrap(),
        corners: t.get("corners").map(|v| {
            let c = twos(v);
            [c[0], c[1], c[2], c[3]]
        }),
        corners_pt: t
            .get("corners_pt")
            .map(|v| bar_dock(v, |x| num(float_of(x)))),
        half: t.get("half").is_some_and(|v| v.as_bool().unwrap()),
        d: text_in(t, "d").map(|d| path_tokens(&d, read)),
    }
}

fn raw_eyes(t: &Table) -> RawEyes {
    let state = |(name, s): (String, Table)| {
        let raw = RawEyeState {
            w_scale: number_in(&s, "w_scale"),
            h_scale: number_in(&s, "h_scale"),
            dx: number_in(&s, "dx"),
            color: text_in(&s, "color"),
            glow: number_in(&s, "glow"),
            blink: s.get("blink").map(|v| v.as_bool().unwrap()),
        };
        (name, raw)
    };
    RawEyes {
        shape: text_in(t, "shape").unwrap(),
        v: number_in(t, "v"),
        gap: bar_dock(&t["gap"], |x| num(float_of(x))),
        size: bar_dock(&t["size"], two),
        radius: number_in(t, "radius"),
        polygon: t.get("polygon").map(twos),
        states: tables(t, "states").into_iter().map(state).collect(),
    }
}

fn raw_detail(v: &Value) -> RawDetail {
    let t = v.as_table().unwrap();
    RawDetail {
        name: text_in(t, "name").unwrap(),
        sizes: t.get("sizes").map(|v| {
            let names = v.as_array().unwrap().iter();
            names.map(|s| s.as_str().unwrap().to_string()).collect()
        }),
        points: twos(&t["points"]),
    }
}

fn raw_face(t: &Table) -> RawFace {
    let colors = |(name, c): (String, Table)| {
        let raw = RawColors {
            accent: text_in(&c, "accent"),
            fill: text_in(&c, "fill"),
            eye: text_in(&c, "eye"),
        };
        (name, raw)
    };
    RawFace {
        id: text_in(t, "id").unwrap(),
        label: text_in(t, "label").unwrap(),
        label_en: text_in(t, "label_en"),
        author: text_in(t, "author"),
        size: bar_dock(&t["size"], |v| BodySize {
            w: num(float_of(&v["w"])),
            h: num(float_of(&v["h"])),
        }),
        outline: raw_outline(t["outline"].as_table().unwrap()),
        eyes: raw_eyes(t["eyes"].as_table().unwrap()),
        details: match t.get("details") {
            Some(v) => v.as_array().unwrap().iter().map(raw_detail).collect(),
            None => Vec::new(),
        },
        colors: tables(t, "colors").into_iter().map(colors).collect(),
    }
}

fn parse(text: &str, source: Source) -> Result<FaceSpec, Vec<Problem>> {
    match toml::from_str::<Table>(text) {
        Ok(t) => build(raw_face(&t), source),
        Err(e) => Err(vec![Problem::new(
            ProblemCode::Parse,
            format!("TOML を読めません: {e}"),
        )]),
    }
}

/// The radii of four corners: upper left, upper right, lower right, lower left.
type Corners = [(f64, f64); 4];

/// An eye in points.
#[derive(Debug, Clone, Copy, PartialEq)]
struct EyeSpec {
    w: f64,
    h: f64,
    radius: f64,
    color: Paint,
    glow: f64,
    dx: f64,
    dy: f64,
    blink: bool,
}

/// Width and height of a body.
fn body_size(face: &FaceSpec, size: Size) -> (f64, f64) {
    let s = face.body_size(size);
    (float(s.w), float(s.h))
}

/// The corners of a body.
fn corners(face: &FaceSpec, w: f64, h: f64, size: Size) -> Corners {
    match &face.outline {
        OutlineSpec::Corners(CornerSpec::Ratio(c)) => {
            c.map(|[x, y]| (float(x) * w, float(y) * h))
        }
        OutlineSpec::Corners(CornerSpec::Pt(pt)) => {
            let r = float(pt.get(size));
            [(r.min(w * 0.5), r.min(h * 0.5)); 4]
        }
        OutlineSpec::Corners(CornerSpec::Capsule) => [(h * 0.5, h * 0.5); 4],
        OutlineSpec::Path { .. } => {
            let r: f64 = if size.is_bar() { 7.0 } else { 10.0 };
            [(r.min(w * 0.5), r.min(h * 0.5)); 4]
        }
    }
}

/// A rectangle with round corners.
fn outline(w: f64, h: f64, c: Corners) -> Outline {
    const K: f64 = 0.552_284_749_8;

    let sides = [
        (c[3].0 + c[2].0, w),
        (c[0].0 + c[1].0, w),
        (c[0].1 + c[3].1, h),
        (c[1].1 + c[2].1, h),
    ];
    let mut f: f64 = 1.0;
    for (sum, len) in sides {
        if sum > 0.0 {
            f = f.min(len / sum);
        }
    }
    let f = f.min(1.0);
    let s = |(x, y): (f64, f64)| (x * f, y * f);
    let (tl, tr, br, bl) = (s(c[0]), s(c[1]), s(c[2]), s(c[3]));

    let line = |to| Seg::Line { to: point(to) };
    let cubic = |c1, c2, to| Seg::Cubic {
        c1: point(c1),
        c2: point(c2),
        to: point(to),
    };
    Outline {
        start: point((bl.0, 0.0)),
        segs: vec![
            line((w - br.0, 0.0)),
            cubic(
                (w - br.0 + br.0 * K, 0.0),
                (w, br.1 - br.1 * K),
                (w, br.1),
            ),
            line((w, h - tr.1)),
            cubic(
                (w, h - tr.1 + tr.1 * K),
                (w - tr.0 + tr.0 * K, h),
                (w - tr.0, h),
            ),
            line((tl.0, h)),
            cubic(
                (tl.0 - tl.0 * K, h),
                (0.0, h - tl.1 + tl.1 * K),
                (0.0, h - tl.1),
            ),
            line((0.0, bl.1)),
            cubic(
                (0.0, bl.1 - bl.1 * K),
                (bl.0 - bl.0 * K, 0.0),
                (bl.0, 0.0),
            ),
        ],
    }
}

/// The outline of a face in a rectangle.
fn outline_of(face: &FaceSpec, w: f64, h: f64, size: Size) -> Outline {
    let OutlineSpec::Path { half, start, segs } = &face.outline else {
        return outline(w, h, corners(face, w, h, size));
    };
    let scale = |p: UnitPoint| {
        let (u, v) = pair(p.at);
        let u = if p.mirrored { 1.0 - u } else { u };
        point((u * w, v * h))
    };
    let (u, v) = pair(*start);
    Outline {
        start: point((u * w, v * h)),
        segs: path_outline(*half, *start, segs)
            .into_iter()
            .map(|seg| match seg {
                UnitSeg::Line { to } => Seg::Line { to: scale(to) },
                UnitSeg::Cubic { c1, c2, to } => Seg::Cubic {
                    c1: scale(c1),
                    c2: scale(c2),
                    to: scale(to),
                },
            })
            .collect(),
    }
}

/// The outline of a face in its own rectangle.
fn body_outline(face: &FaceSpec, size: Size) -> Outline {
    let (w, h) = body_size(face, size);
    outline_of(face, w, h, size)
}

/// The gap between the eyes.
fn eye_gap(face: &FaceSpec, size: Size) -> f64 {
    float(face.eye_gap(size))
}

fn length(l: Length) -> f64 {
    match l {
        Length::Tenths(n) => f64::from(n) / 10.0,
        Length::Given(n) => float(n),
    }
}

/// The eyes in a state, in points.
fn eye(face: &FaceSpec, state: SessionState, size: Size) -> EyeSpec {
    let (_, bh) = body_size(face, size);
    let [w0, h0] = face.eyes.size.get(size).map(float);
    let r0 = match face.eyes.shape {
        EyeShape::Rounded => float(face.eyes.radius),
        EyeShape::Polygon => 0.0,
    };
    let rule = face.eye(state);
    let (w, h, radius) = match rule.sizing {
        EyeSizing::Own => (w0, h0, r0),
        EyeSizing::Circle => (w0 + 1.0, w0 + 1.0, (w0 + 1.0) / 2.0),
        EyeSizing::Line => (w0 + 1.0, 2.0, 1.0),
        EyeSizing::Height { hundredths } => (w0, h0 * (f64::from(hundredths) / 100.0), r0),
        EyeSizing::Scaled { w, h } => (w0 * float(w), h0 * float(h), r0),
    };
    EyeSpec {
        w,
        h,
        radius,
        color: face.eye_color(state),
        glow: length(rule.glow),
        dx: length(rule.dx),
        dy: (float(face.eyes.v) - 0.5) * bh,
        blink: rule.blink,
    }
}

/// An eye as a polygon in a rectangle, if it is one.
fn eye_shape(face: &FaceSpec, w: f64, h: f64, mirrored: bool) -> Option<Vec<(f64, f64)>> {
    let polygon = face.eyes.polygon.as_ref()?;
    let scale = |p: &[Num; 2]| {
        let (u, v) = (float(p[0]), float(p[1]));
        ((if mirrored { 1.0 - u } else { u }) * w, v * h)
    };
    Some(polygon.iter().map(scale).collect())
}

/// The panel lines drawn in a place, in a rectangle.
fn face_details(face: &FaceSpec, w: f64, h: f64, size: Size) -> Vec<Vec<(f64, f64)>> {
    face.face_details(size)
        .into_iter()
        .map(|i| {
            let points = face.details[i].points.iter();
            points.map(|p| (float(p[0]) * w, float(p[1]) * h)).collect()
        })
        .collect()
}

/// An outline as a polygon; each curve becomes so many steps. It is floating-point arithmetic
/// throughout.
fn flatten(o: &Outline, steps: usize) -> Vec<(f64, f64)> {
    let mut poly = vec![pair(o.start)];
    for seg in &o.segs {
        match *seg {
            Seg::Line { to } => poly.push(pair(to)),
            Seg::Cubic { c1, c2, to } => {
                let p0 = poly[poly.len() - 1];
                let (c1, c2, to) = (pair(c1), pair(c2), pair(to));
                for i in 1..=steps {
                    let t = i as f64 / steps as f64;
                    let u = 1.0 - t;
                    let b = |a: f64, b: f64, c: f64, d: f64| {
                        u * u * u * a + 3.0 * u * u * t * b + 3.0 * u * t * t * c + t * t * t * d
                    };
                    poly.push((b(p0.0, c1.0, c2.0, to.0), b(p0.1, c1.1, c2.1, to.1)));
                }
            }
        }
    }
    poly
}

/// Whether a point is inside a polygon.
fn contains(poly: &[(f64, f64)], (x, y): (f64, f64)) -> bool {
    let mut inside = false;
    for i in 0..poly.len() {
        let (x1, y1) = poly[i];
        let (x2, y2) = poly[(i + 1) % poly.len()];
        if (y1 > y) != (y2 > y) && x < (x2 - x1) * (y - y1) / (y2 - y1) + x1 {
            inside = !inside;
        }
    }
    inside
}

const FLATTEN_STEPS: usize = 24;

const EPS: f64 = 0.001;

/// The steps that a curve becomes where it is asked whether a point is inside.
fn flatten_steps() -> usize {
    FLATTEN_STEPS
}

/// Checks a face.
fn check(face: &FaceSpec) -> Result<(), Vec<Problem>> {
    validate::validate(face, &survey(face))
}

/// A warning that six figures are wider than the space beside the notch.
fn notch_width_warning(face: &FaceSpec) -> Option<Problem> {
    let (bw, _) = body_size(face, Size::Bar);
    let w = 9.0 * 2.0 + bw * 6.0 + 9.0 * 5.0;
    validate::notch_width_warning(num(w), &format!("{w:.1}"))
}

fn survey(face: &FaceSpec) -> Survey {
    Survey {
        bar: place_survey(face, Size::Bar),
        dock: place_survey(face, Size::Dock),
        symmetry: symmetry(face),
    }
}

fn place_survey(face: &FaceSpec, size: Size) -> PlaceSurvey {
    let (w, h) = body_size(face, size);
    PlaceSurvey {
        body: SizeText {
            w: format!("{w}"),
            h: format!("{h}"),
        },
        outline: outline_found(face, size),
        eyes: SessionState::ORDER.map(|state| eyes_found(face, state, size)),
        details: details_found(face, size),
    }
}

fn words(x: String, y: String) -> Pair {
    Pair { x, y }
}

/// The outline in one place.
fn outline_found(face: &FaceSpec, size: Size) -> OutlineFinding {
    let (w, h) = body_size(face, size);
    let o = body_outline(face, size);
    let Some(last) = o.segs.last().map(|s| pair(seg_to(*s))) else {
        return OutlineFinding::Empty;
    };
    let start = pair(o.start);
    let open = (last.0 - start.0).abs() > EPS || (last.1 - start.1).abs() > EPS;
    let outside = outline_points(&o).into_iter().map(pair).find(|(x, y)| {
        !(-EPS..=w + EPS).contains(x) || !(-EPS..=h + EPS).contains(y)
    });
    OutlineFinding::Drawn {
        gap: open.then(|| (format!("{start:?}"), format!("{last:?}"))),
        outside: outside.map(|(x, y)| words(format!("{x:.3}"), format!("{y:.3}"))),
    }
}

/// The symmetry of an outline.
fn symmetry(face: &FaceSpec) -> SymmetryFinding {
    let (w, _) = body_size(face, Size::Dock);
    let pts: Vec<(f64, f64)> = outline_points(&body_outline(face, Size::Dock))
        .into_iter()
        .map(pair)
        .collect();
    if pts.len() % 2 != 1 {
        return SymmetryFinding::Even {
            points: pts.len() as u64,
        };
    }
    let mid = pts.len() / 2;
    let turn = ((pts[mid].0 - w / 2.0).abs() > EPS)
        .then(|| (format!("{:.3}", pts[mid].0), format!("{:.3}", w / 2.0)));
    let uneven = (1..=mid).map(|k| (pts[mid - k], pts[mid + k])).find(|(r, l)| {
        (r.0 - (w - l.0)).abs() > EPS || (r.1 - l.1).abs() > EPS
    });
    SymmetryFinding::Odd {
        turn,
        uneven: uneven.map(|(r, l)| (format!("{:.3}", r.0), format!("{:.3}", l.0))),
    }
}

/// The eyes in one place and state.
fn eyes_found(face: &FaceSpec, state: SessionState, size: Size) -> EyeFinding {
    let (bw, bh) = body_size(face, size);
    let poly = flatten(&body_outline(face, size), FLATTEN_STEPS);
    let gap = eye_gap(face, size);
    let e = eye(face, state, size);
    let total = e.w * 2.0 + gap;
    let wide = (total > bw + EPS).then(|| WideEyes {
        eye: format!("{:.2}", e.w),
        gap: format!("{gap}"),
        total: format!("{total:.2}"),
        body: format!("{bw}"),
    });
    let left = (bw - total) / 2.0 + e.dx;
    let bottom = (bh - e.h) / 2.0 + e.dy;
    let outside = |i: usize| {
        let pts = eye_shape(face, e.w, e.h, i == 0)
            .unwrap_or_else(|| vec![(0.0, 0.0), (e.w, 0.0), (e.w, e.h), (0.0, e.h)]);
        pts.into_iter()
            .map(|(px, py)| (left + (e.w + gap) * i as f64 + px, bottom + py))
            .find(|pt| !contains(&poly, *pt))
            .map(|(x, y)| words(format!("{x:.2}"), format!("{y:.2}")))
    };
    EyeFinding {
        wide,
        left: outside(0),
        right: outside(1),
        like_done: !differ(&e, &eye(face, SessionState::Done, size)),
    }
}

fn differ(a: &EyeSpec, done: &EyeSpec) -> bool {
    (a.w - done.w).abs() > EPS
        || (a.h - done.h).abs() > EPS
        || a.color != done.color
        || (a.dx - done.dx).abs() > EPS
        || a.glow != done.glow
        || a.blink != done.blink
}

/// For each panel line a point outside the body.
fn details_found(face: &FaceSpec, size: Size) -> Vec<Option<Pair>> {
    let (w, h) = body_size(face, size);
    let poly = flatten(&body_outline(face, size), FLATTEN_STEPS);
    face.details
        .iter()
        .map(|d| {
            d.points
                .iter()
                .map(|p| (float(p[0]) * w, float(p[1]) * h))
                .find(|pt| !contains(&poly, *pt))
                .map(|(x, y)| words(format!("{x:.2}"), format!("{y:.2}")))
        })
        .collect()
}

const PAD: f64 = 8.0;

const CHIP_PAD: f64 = 3.0;

const CHIP_RADIUS_RATIO: f64 = 0.16;

const CHIP_RADIUS_MAX: f64 = 10.0;

const BORDER_W: f64 = 1.5;

/// A face as one picture.
fn render(face: &FaceSpec, state: SessionState, size: Size) -> String {
    svg::render(face, state, size, &figure(face, state, size, PAD))
}

/// A face as a chip.
fn render_chip(face: &FaceSpec, state: SessionState, size: Size) -> String {
    let (_, bh) = body_size(face, size);
    let corner = ((bh + CHIP_PAD * 2.0) * CHIP_RADIUS_RATIO).min(CHIP_RADIUS_MAX);
    let corner = (corner > 0.0).then(|| format!("{corner:.3}"));
    svg::render_chip(face, state, size, &figure(face, state, size, CHIP_PAD), corner)
}

/// A page with all faces.
fn gallery(faces: &[Arc<FaceSpec>]) -> String {
    let entries = faces
        .iter()
        .map(|face| GalleryEntry {
            face: Arc::clone(face),
            bar: SessionState::ORDER.map(|state| figure(face, state, Size::Bar, PAD)),
            dock: SessionState::ORDER.map(|state| figure(face, state, Size::Dock, PAD)),
        })
        .collect();
    svg::gallery(&entries)
}

fn fixed(x: f64, y: f64) -> Pair {
    Pair {
        x: format!("{x:.3}"),
        y: format!("{y:.3}"),
    }
}

/// The numbers of a figure.
fn figure(face: &FaceSpec, state: SessionState, size: Size, pad: f64) -> Figure {
    let (bw, bh) = body_size(face, size);
    let inset = BORDER_W / 2.0;
    let flip_h = bh - inset * 2.0;
    let o = outline_of(face, bw - inset * 2.0, flip_h, size);
    let at = |p| {
        let (x, y) = pair(p);
        fixed(x, flip_h - y)
    };
    let e = eye(face, state, size);
    Figure {
        w: format!("{}", bw + pad * 2.0),
        h: format!("{}", bh + pad * 2.0),
        start: at(o.start),
        steps: o
            .segs
            .iter()
            .map(|seg| match *seg {
                Seg::Line { to } => StepDraft::Line { to: at(to) },
                Seg::Cubic { c1, c2, to } => StepDraft::Cubic {
                    c1: at(c1),
                    c2: at(c2),
                    to: at(to),
                },
            })
            .collect(),
        lines: face_details(face, bw, bh, size)
            .into_iter()
            .map(|line| line.into_iter().map(|(x, y)| fixed(x, bh - y)).collect())
            .collect(),
        left_eye: eye_figure(face, &e, size, 0),
        right_eye: eye_figure(face, &e, size, 1),
        glyph_x: format!("{:.3}", bw + 2.0),
    }
}

/// The numbers of an eye.
fn eye_figure(face: &FaceSpec, e: &EyeSpec, size: Size, i: usize) -> EyeFigure {
    let (bw, bh) = body_size(face, size);
    let gap = eye_gap(face, size);
    let left = (bw - (e.w * 2.0 + gap)) / 2.0 + e.dx;
    let bottom = (bh - e.h) / 2.0 + e.dy;
    let x = left + (e.w + gap) * i as f64;
    match eye_shape(face, e.w, e.h, i == 0) {
        Some(polygon) => EyeFigure::Polygon(
            polygon
                .into_iter()
                .map(|(px, py)| fixed(x + px, bh - (bottom + py)))
                .collect(),
        ),
        None => EyeFigure::Rect {
            x: format!("{x:.3}"),
            y: format!("{:.3}", bh - (bottom + e.h)),
            w: format!("{:.3}", e.w),
            h: format!("{:.3}", e.h),
            radius: format!("{:.3}", e.radius),
        },
    }
}

/// A face with round eyes, as the program's own have them.
fn plain_face(id: &str, bar_w: f64, bar_h: f64, dock_w: f64, dock_h: f64, outline: &str) -> String {
    format!(
        r#"
id = "{id}"
label = "{id}"
[size]
bar  = {{ w = {bar_w}, h = {bar_h} }}
dock = {{ w = {dock_w}, h = {dock_h} }}
[outline]
{outline}
[eyes]
shape = "rounded"
gap  = {{ bar = 3.0, dock = 5.0 }}
size = {{ bar = [3.0, 4.0], dock = [4.0, 6.0] }}
"#
    )
}

fn builtin_text(id: &str) -> String {
    let corners = "kind = \"corners\"\ncorners = ";
    match id {
        "egg" => {
            let c = format!("{corners}[[0.50,0.58],[0.50,0.58],[0.48,0.42],[0.48,0.42]]");
            plain_face(id, 22.0, 20.0, 36.0, 34.0, &c)
        }
        "round" => {
            let c = format!("{corners}[[0.5,0.5],[0.5,0.5],[0.5,0.5],[0.5,0.5]]");
            plain_face(id, 20.0, 20.0, 32.0, 32.0, &c)
        }
        "squircle" => {
            let c = "kind = \"corners\"\ncorners_pt = { bar = 7.0, dock = 10.0 }";
            plain_face(id, 22.0, 20.0, 36.0, 34.0, c)
        }
        _ => plain_face(id, 28.0, 20.0, 44.0, 34.0, "kind = \"capsule\""),
    }
}

fn builtin() -> Registry {
    let read = builtin_ids()
        .into_iter()
        .map(|id| ReadFace {
            label: id.to_string(),
            face: parse(&builtin_text(id), Source::Builtin),
        })
        .collect();
    Registry::builtin(read)
}

fn path(d: &str) -> Result<((f64, f64), Vec<Seg>), Problem> {
    let read = |word: &String| word.parse::<f64>().ok().map(num);
    parse_path(&path_tokens(d, read)).map(|(start, segs)| (pair(start), segs))
}

#[test]
fn parses_move_line_cubic_and_close() {
    let (start, segs) = path("M 0.5 0 L 0.6 0 C 0.7 0.1 0.8 0.2 0.9 0.3 Z").unwrap();
    assert_eq!(start, (0.5, 0.0));
    assert_eq!(segs.len(), 2, "Z は手を増やさない");
    assert_eq!(segs[0], Seg::Line {
            to: point((0.6, 0.0))
        });
    assert_eq!(
        segs[1],
        Seg::Cubic {
            c1: point((0.7, 0.1)),
            c2: point((0.8, 0.2)),
            to: point((0.9, 0.3)),
        }
    );
}

#[test]
fn accepts_commas_and_newlines_as_separators() {
    let (_, segs) = path("M 0,0\nL 1,0\nL 1,1").unwrap();
    assert_eq!(segs.len(), 2);
}

#[test]
fn rejects_relative_commands() {
    let e = path("M 0 0 l 1 0").unwrap_err();
    assert!(e.message.contains("相対座標"), "{}", e.message);
}

#[test]
fn rejects_unsupported_commands() {
    let e = path("M 0 0 A 1 1 0 0 1 1 1").unwrap_err();
    assert!(e.message.contains("未対応"), "{}", e.message);
}

#[test]
fn rejects_a_second_move() {
    let e = path("M 0 0 L 1 0 M 2 2").unwrap_err();
    assert!(e.message.contains("M が 2 回"), "{}", e.message);
}

#[test]
fn rejects_missing_numbers() {
    let e = path("M 0 0 C 1 1 2 2 3").unwrap_err();
    assert!(e.message.contains("数値が足りません"), "{}", e.message);
}

#[test]
fn rejects_implicit_command_repetition() {
    let e = path("M 0 0 L 1 0 2 0").unwrap_err();
    assert!(e.message.contains("省略"), "{}", e.message);
}

#[test]
fn rejects_non_finite_numbers() {
    let e = path("M 0 0 L inf 0").unwrap_err();
    assert!(e.message.contains("有限"), "{}", e.message);
}

#[test]
fn rejects_an_empty_path() {
    assert!(path("   ").is_err());
    assert!(path("M 0 0").is_err(), "手が無い");
}

const MINIMAL: &str = r#"
id = "test"
label = "テスト"
[size]
bar  = { w = 22, h = 20 }
dock = { w = 36, h = 34 }
[outline]
kind = "corners"
corners = [[0.5,0.5],[0.5,0.5],[0.5,0.5],[0.5,0.5]]
[eyes]
shape = "rounded"
gap  = { bar = 3.0, dock = 5.0 }
size = { bar = [3.0, 4.0], dock = [4.0, 6.0] }
"#;

#[test]
fn parses_a_minimal_face() {
    let f = parse(MINIMAL, Source::Builtin).unwrap();
    assert_eq!(f.id, "test");
    assert_eq!(f.label, "テスト");
    assert_eq!(body_size(&f, Size::Bar), (22.0, 20.0));
    assert_eq!(float(f.eyes.v), 0.5, "v の既定は中央");
    assert_eq!(float(f.eyes.radius), 2.0, "radius の既定");
    assert!(f.details.is_empty());
    assert!(
        f.eyes.states.iter().all(|s| s.is_none()),
        "states を書かなければ全部既定ルール"
    );
}

#[test]
fn integers_are_accepted_where_floats_are_expected() {
    let f = parse(MINIMAL, Source::Builtin).unwrap();
    assert_eq!(body_size(&f, Size::Dock), (36.0, 34.0));
}

#[test]
fn parses_a_path_outline_with_states_and_details() {
    let text = r#"
id = "plated"
label = "かぶと"
author = "tester"
[size]
bar  = { w = 18, h = 20 }
dock = { w = 30, h = 34 }
[outline]
kind = "path"
half = true
d = """
M 0.500 0.000
L 0.615 0.000
C 0.700 0.020 0.770 0.075 0.815 0.170
"""
[eyes]
shape = "polygon"
v = 0.58
gap  = { bar = 2.5, dock = 4.0 }
size = { bar = [5.5, 3.0], dock = [9.0, 4.6] }
polygon = [[0.00,0.00],[0.00,0.62],[1.00,1.00],[0.94,0.38]]
[eyes.states.idle]
h_scale = 0.55
color = "eye_closed"
[[details]]
name = "brow"
sizes = ["bar", "dock"]
points = [[0.19,0.725],[0.50,0.775],[0.81,0.725]]
[[details]]
name = "forehead"
sizes = ["dock"]
points = [[0.425,0.78],[0.425,0.945]]
"#;
    let f = parse(text, Source::Builtin).unwrap();
    assert_eq!(f.author.as_deref(), Some("tester"));
    assert_eq!(float(f.eyes.v), 0.58);
    assert_eq!(f.eyes.shape, EyeShape::Polygon);
    match &f.outline {
        OutlineSpec::Path { half, segs, .. } => {
            assert!(half);
            assert_eq!(segs.len(), 2);
        }
        other => panic!("path のはず: {other:?}"),
    }
    let idle = state_index(SessionState::Idle);
    assert!(f.eyes.states[idle].is_some());
    assert_eq!(float(f.eyes.states[idle].unwrap().h_scale), 0.55);
    assert!(f.eyes.states[state_index(SessionState::Done)].is_none());
    assert_eq!(face_details(&f, 18.0, 20.0, Size::Bar).len(), 1);
    assert_eq!(face_details(&f, 30.0, 34.0, Size::Dock).len(), 2);
}

fn err_of(text: &str) -> Vec<Problem> {
    parse(text, Source::Builtin).unwrap_err()
}

#[test]
fn rejects_a_bad_id() {
    let text = MINIMAL.replace("id = \"test\"", "id = \"My Face\"");
    let e = err_of(&text);
    assert!(e.iter().any(|p| p.code == ProblemCode::Id), "{e:?}");
}

#[test]
fn rejects_both_corner_forms() {
    let text = MINIMAL.replace(
        "corners = [[0.5,0.5],[0.5,0.5],[0.5,0.5],[0.5,0.5]]",
        "corners = [[0.5,0.5],[0.5,0.5],[0.5,0.5],[0.5,0.5]]\n\
         corners_pt = { bar = 7.0, dock = 10.0 }",
    );
    let e = err_of(&text);
    assert!(
        e.iter().any(|p| p.message.contains("同時に書けません")),
        "{e:?}"
    );
}

#[test]
fn rejects_neither_corner_form() {
    let text = MINIMAL.replace("corners = [[0.5,0.5],[0.5,0.5],[0.5,0.5],[0.5,0.5]]", "");
    let e = err_of(&text);
    assert!(
        e.iter().any(|p| p.message.contains("どちらかが要ります")),
        "{e:?}"
    );
}

#[test]
fn rejects_polygon_shape_without_a_polygon() {
    let text = MINIMAL.replace("shape = \"rounded\"", "shape = \"polygon\"");
    let e = err_of(&text);
    assert!(
        e.iter().any(|p| p.message.contains("polygon が要ります")),
        "{e:?}"
    );
}

#[test]
fn rejects_an_unknown_state_key() {
    let text = format!("{MINIMAL}\n[eyes.states.sleeping]\nh_scale = 0.5\n");
    let e = err_of(&text);
    assert!(e.iter().any(|p| p.message.contains("未知の状態")), "{e:?}");
}

#[test]
fn rejects_an_unknown_eye_color() {
    let text = format!("{MINIMAL}\n[eyes.states.idle]\ncolor = \"purple\"\n");
    let e = err_of(&text);
    assert!(e.iter().any(|p| p.message.contains("color")), "{e:?}");
}

#[test]
fn collects_several_problems_at_once() {
    let text = r#"
id = "Bad Id"
label = ""
[size]
bar  = { w = 22, h = 20 }
dock = { w = 36, h = 34 }
[outline]
kind = "corners"
[eyes]
shape = "rounded"
gap  = { bar = 3.0, dock = 5.0 }
size = { bar = [3.0, 4.0], dock = [4.0, 6.0] }
"#;
    let e = err_of(text);
    assert!(e.len() >= 3, "問題をまとめて返していない: {e:?}");
}

#[test]
fn half_path_mirrors_into_a_closed_symmetric_outline() {
    let start = point((0.5, 0.0));
    let raw = vec![
        Seg::Line { to: point((0.8, 0.0)) },
        Seg::Cubic {
            c1: point((0.9, 0.2)),
            c2: point((1.0, 0.6)),
            to: point((0.5, 1.0)),
        },
    ];
    let o = outline_of(&face_with_outline(OutlineSpec::Path { half: true, start, segs: raw }), 10.0, 20.0, Size::Bar);

    let near = |a: (f64, f64), b: (f64, f64), what: &str| {
        assert!(
            (a.0 - b.0).abs() < 1e-9 && (a.1 - b.1).abs() < 1e-9,
            "{what}: {a:?} != {b:?}"
        );
    };

    assert_eq!(pair(o.start), (5.0, 0.0));
    assert_eq!(o.segs.len(), 4, "右半分 2 手 + 左半分 2 手");
    near(pair(seg_to(*o.segs.last().unwrap())), (5.0, 0.0), "始点に戻る");
    match o.segs[2] {
        Seg::Cubic { c1, c2, to } => {
            near(pair(c1), (0.0, 12.0), "元の c2 が鏡像で c1 になる");
            near(pair(c2), (1.0, 4.0), "元の c1 が鏡像で c2 になる");
            near(pair(to), (2.0, 0.0), "元の手の始点の鏡像へ戻る");
        }
        other => panic!("3 手目は Cubic のはず: {other:?}"),
    }
}

#[test]
fn full_path_is_used_as_written() {
    let raw = vec![
        Seg::Line { to: point((1.0, 0.0)) },
        Seg::Line { to: point((1.0, 1.0)) },
        Seg::Line { to: point((0.0, 0.0)) },
    ];
    let o = outline_of(&face_with_outline(OutlineSpec::Path { half: false, start: point((0.0, 0.0)), segs: raw }), 10.0, 10.0, Size::Bar);
    assert_eq!(o.segs.len(), 3);
    assert_eq!(pair(seg_to(o.segs[1])), (10.0, 10.0));
}

#[test]
fn corners_pt_is_clamped_to_half_the_body() {
    let f = face_with_outline(OutlineSpec::Corners(CornerSpec::Pt(BySize {
        bar: num(10.0),
        dock: num(17.0),
    })));
    assert_eq!(corners(&f, 28.0, 20.0, Size::Bar), [(10.0, 10.0); 4]);
    assert_eq!(corners(&f, 12.0, 8.0, Size::Bar), [(6.0, 4.0); 4]);
}

#[test]
fn corners_ratio_scales_with_the_body() {
    let f = face_with_outline(OutlineSpec::Corners(CornerSpec::Ratio([
        [num(0.50), num(0.58)],
        [num(0.50), num(0.58)],
        [num(0.48), num(0.42)],
        [num(0.48), num(0.42)],
    ])));
    let c = corners(&f, 22.0, 20.0, Size::Bar);
    assert_eq!(c[0], (11.0, 11.6));
    assert_eq!(c[2], (22.0 * 0.48, 20.0 * 0.42));
}

#[test]
fn rounded_default_states_match_the_legacy_rules() {
    let f = face_with_eyes(EyeShape::Rounded, [3.0, 4.0], [4.0, 6.0], 2.0, None);

    let bar = Size::Bar;
    assert!(eye(&f, SessionState::Working, bar).blink);
    let wu = eye(&f, SessionState::WaitUser, bar);
    assert_eq!((wu.w, wu.h, wu.radius), (4.0, 4.0, 2.0), "正円化");
    assert_eq!(wu.glow, 4.0);
    assert_eq!(eye(&f, SessionState::WaitAgent, bar).dx, 1.5);
    let idle = eye(&f, SessionState::Idle, bar);
    assert_eq!((idle.w, idle.h, idle.radius), (4.0, 2.0, 1.0), "横線");
    assert_eq!(idle.color, Paint::Default(EyeColor::EyeClosed.rgb()));
    assert_eq!(eye(&f, SessionState::Error, bar).color, Paint::Default(EyeColor::EyeError.rgb()));

    let wu_d = eye(&f, SessionState::WaitUser, Size::Dock);
    assert_eq!((wu_d.w, wu_d.h, wu_d.radius), (5.0, 5.0, 2.5));
    let idle_d = eye(&f, SessionState::Idle, Size::Dock);
    assert_eq!((idle_d.w, idle_d.h, idle_d.radius), (5.0, 2.0, 1.0));
}

#[test]
fn polygon_default_states_open_and_squint_vertically() {
    let f = face_with_eyes(
        EyeShape::Polygon,
        [5.5, 3.0],
        [9.0, 4.6],
        2.0,
        Some(vec![[0.0, 0.0], [0.0, 0.62], [1.0, 1.0], [0.94, 0.38]]),
    );
    let bar = Size::Bar;
    let base = eye(&f, SessionState::Done, bar).h;
    assert!(
        eye(&f, SessionState::WaitUser, bar).h > base,
        "見開いていない"
    );
    assert!(eye(&f, SessionState::Idle, bar).h < base, "絞っていない");
    assert_eq!(eye(&f, SessionState::Done, bar).radius, 0.0);
}

#[test]
fn an_override_replaces_the_default_rule_entirely() {
    let mut f = face_with_eyes(EyeShape::Rounded, [3.0, 4.0], [4.0, 6.0], 2.0, None);
    f.eyes.states[state_index(SessionState::Idle)] = Some(EyeOverride {
        h_scale: num(0.5),
        color: EyeColor::EyeClosed,
        ..EyeOverride::default()
    });
    let e = eye(&f, SessionState::Idle, Size::Bar);
    assert_eq!(
        (e.w, e.h),
        (3.0, 2.0),
        "w は倍率 1.0 のまま、h は 4.0 * 0.5"
    );
    assert_eq!(e.color, Paint::Default(EyeColor::EyeClosed.rgb()));
}

#[test]
fn eye_v_becomes_a_vertical_offset() {
    let mut f = face_with_eyes(EyeShape::Rounded, [3.0, 4.0], [4.0, 6.0], 2.0, None);
    assert_eq!(eye(&f, SessionState::Done, Size::Bar).dy, 0.0, "既定は中央");
    f.eyes.v = num(0.58);
    assert!((eye(&f, SessionState::Done, Size::Bar).dy - 1.6).abs() < 1e-9);
}

#[test]
fn details_are_filtered_by_size() {
    let mut f = face_with_outline(OutlineSpec::Corners(CornerSpec::Ratio([[num(0.5), num(0.5)]; 4])));
    f.details = vec![
        DetailSpec {
            name: "brow".into(),
            sizes: vec![Size::Bar, Size::Dock],
            points: vec![[num(0.2), num(0.7)], [num(0.8), num(0.7)]],
        },
        DetailSpec {
            name: "forehead".into(),
            sizes: vec![Size::Dock],
            points: vec![[num(0.4), num(0.8)], [num(0.6), num(0.8)]],
        },
    ];
    assert_eq!(face_details(&f, 10.0, 10.0, Size::Bar).len(), 1);
    assert_eq!(face_details(&f, 10.0, 10.0, Size::Dock).len(), 2);
    assert_eq!(face_details(&f, 10.0, 10.0, Size::Bar)[0][0], (2.0, 7.0));
}

#[test]
fn eye_polygon_mirrors_for_the_left_eye() {
    let f = face_with_eyes(
        EyeShape::Polygon,
        [5.5, 3.0],
        [9.0, 4.6],
        2.0,
        Some(vec![[0.0, 0.0], [1.0, 1.0]]),
    );
    let r = eye_shape(&f, 10.0, 4.0, false).unwrap();
    let l = eye_shape(&f, 10.0, 4.0, true).unwrap();
    assert_eq!(r[0], (0.0, 0.0));
    assert_eq!(l[0], (10.0, 0.0));
    let rounded = face_with_eyes(EyeShape::Rounded, [3.0, 4.0], [4.0, 6.0], 2.0, None);
    assert!(eye_shape(&rounded, 10.0, 4.0, false).is_none());
}

fn face_with_outline(outline: OutlineSpec) -> FaceSpec {
    let mut f = parse(MINIMAL, Source::Builtin).unwrap();
    f.outline = outline;
    f
}

fn face_with_eyes(
    shape: EyeShape,
    bar: [f64; 2],
    dock: [f64; 2],
    radius: f64,
    polygon: Option<Vec<[f64; 2]>>,
) -> FaceSpec {
    let mut f = parse(MINIMAL, Source::Builtin).unwrap();
    f.eyes.shape = shape;
    f.eyes.size = BySize {
        bar: bar.map(num),
        dock: dock.map(num),
    };
    f.eyes.radius = num(radius);
    f.eyes.polygon = polygon.map(|all| all.into_iter().map(|p| p.map(num)).collect());
    f
}

type FourCorners = [(f64, f64); 4];

fn near(a: f64, b: f64) -> bool {
    (a - b).abs() < 1e-9
}

#[test]
fn body_sizes_are_unchanged() {
    let reg = builtin();
    let expected = [
        ("egg", (22.0, 20.0), (36.0, 34.0)),
        ("round", (20.0, 20.0), (32.0, 32.0)),
        ("squircle", (22.0, 20.0), (36.0, 34.0)),
        ("bean", (28.0, 20.0), (44.0, 34.0)),
    ];
    for (id, bar, dock) in expected {
        let f = reg.get(id).unwrap_or_else(|| panic!("{id} が無い"));
        assert_eq!(body_size(&f, Size::Bar), bar, "{id} の bar の体");
        assert_eq!(body_size(&f, Size::Dock), dock, "{id} の dock の体");
    }
}

#[test]
fn corner_radii_are_unchanged() {
    let reg = builtin();

    let cases: [(&str, Size, FourCorners, FourCorners); 8] = [
        (
            "egg",
            Size::Bar,
            [(11.0, 11.6), (11.0, 11.6), (10.56, 8.4), (10.56, 8.4)],
            [(10.25, 10.73), (10.25, 10.73), (9.84, 7.77), (9.84, 7.77)],
        ),
        (
            "egg",
            Size::Dock,
            [(18.0, 19.72), (18.0, 19.72), (17.28, 14.28), (17.28, 14.28)],
            [
                (17.25, 18.85),
                (17.25, 18.85),
                (16.56, 13.65),
                (16.56, 13.65),
            ],
        ),
        ("round", Size::Bar, [(10.0, 10.0); 4], [(9.25, 9.25); 4]),
        ("round", Size::Dock, [(16.0, 16.0); 4], [(15.25, 15.25); 4]),
        ("squircle", Size::Bar, [(7.0, 7.0); 4], [(7.0, 7.0); 4]),
        ("squircle", Size::Dock, [(10.0, 10.0); 4], [(10.0, 10.0); 4]),
        ("bean", Size::Bar, [(10.0, 10.0); 4], [(9.25, 9.25); 4]),
        ("bean", Size::Dock, [(17.0, 17.0); 4], [(16.25, 16.25); 4]),
    ];

    for (id, size, raw, inset) in cases {
        let f = reg.get(id).unwrap_or_else(|| panic!("{id} が無い"));
        let (w, h) = body_size(&f, size);

        for (label, (cw, ch), want) in [
            ("体の寸法", (w, h), raw),
            ("inset 後", (w - BORDER_W, h - BORDER_W), inset),
        ] {
            let got = corners(&f, cw, ch, size);
            for i in 0..4 {
                assert!(
                    near(got[i].0, want[i].0) && near(got[i].1, want[i].1),
                    "{id}/{size:?} の{label}の角 {i}: {:?} だが {:?} のはず",
                    got[i],
                    want[i]
                );
            }
        }
    }
}

#[test]
fn bean_stays_a_capsule_at_every_size() {
    let reg = builtin();
    let bean = reg.get("bean").expect("bean が無い");
    for size in [Size::Bar, Size::Dock] {
        let (w, h) = body_size(&bean, size);
        for (cw, ch) in [(w, h), (w - BORDER_W, h - BORDER_W)] {
            for (rx, ry) in corners(&bean, cw, ch, size) {
                assert!(
                    near(rx, ch / 2.0),
                    "水平半径が h/2 でない: {rx} vs {}",
                    ch / 2.0
                );
                assert!(
                    near(ry, ch / 2.0),
                    "垂直半径が h/2 でない: {ry} vs {}",
                    ch / 2.0
                );
            }
        }
    }
}

#[test]
fn eye_gaps_are_unchanged() {
    let reg = builtin();
    for id in ["egg", "round", "squircle", "bean"] {
        let f = reg.get(id).unwrap();
        assert_eq!(eye_gap(&f, Size::Bar), 3.0, "{id} の bar の目の間隔");
        assert_eq!(eye_gap(&f, Size::Dock), 5.0, "{id} の dock の目の間隔");
    }
}

#[test]
fn rounded_eye_specs_are_unchanged() {
    let reg = builtin();
    let cases = [
        (SessionState::Working, (3.0, 4.0, 2.0), (4.0, 6.0, 2.0)),
        (SessionState::WaitUser, (4.0, 4.0, 2.0), (5.0, 5.0, 2.5)),
        (SessionState::WaitAgent, (3.0, 4.0, 2.0), (4.0, 6.0, 2.0)),
        (SessionState::Idle, (4.0, 2.0, 1.0), (5.0, 2.0, 1.0)),
        (SessionState::Done, (3.0, 4.0, 2.0), (4.0, 6.0, 2.0)),
        (SessionState::Error, (3.0, 4.0, 2.0), (4.0, 6.0, 2.0)),
    ];
    for id in ["egg", "round", "squircle", "bean"] {
        let f = reg.get(id).unwrap();
        for (state, bar, dock) in cases {
            for (size, want) in [(Size::Bar, bar), (Size::Dock, dock)] {
                let e = eye(&f, state, size);
                assert!(
                    near(e.w, want.0) && near(e.h, want.1) && near(e.radius, want.2),
                    "{id}/{size:?}/{state:?}: ({}, {}, {}) だが {want:?} のはず",
                    e.w,
                    e.h,
                    e.radius
                );
                assert_eq!(e.dy, 0.0, "{id} の目は顔の中央にある");
            }
        }
    }
}

#[test]
fn rounded_eye_decorations_are_unchanged() {
    let f = builtin().get("egg").unwrap().clone();
    let bar = Size::Bar;

    assert!(eye(&f, SessionState::Working, bar).blink, "作業中は瞬きする");
    let wu = eye(&f, SessionState::WaitUser, bar);
    assert_eq!(wu.color, Paint::Default(EyeColor::White.rgb()), "判断待ちは白い目");
    assert_eq!(wu.glow, 4.0, "判断待ちは滲む");
    assert_eq!(eye(&f, SessionState::WaitAgent, bar).dx, 1.5, "横目");
    assert_eq!(eye(&f, SessionState::Idle, bar).color, Paint::Default(EyeColor::EyeClosed.rgb()));
    assert_eq!(eye(&f, SessionState::Error, bar).color, Paint::Default(EyeColor::EyeError.rgb()));
    assert_eq!(eye(&f, SessionState::Done, bar).color, Paint::Default(EyeColor::Eye.rgb()));
    assert_eq!(eye(&f, SessionState::Done, bar).glow, 0.0);
}

#[test]
fn every_builtin_face_draws_rounded_eyes_without_panel_lines() {
    for id in ["egg", "round", "squircle", "bean"] {
        let f = builtin().get(id).unwrap().clone();
        assert!(eye_shape(&f, 9.0, 5.0, false).is_none(), "{id} が多角形の目");
        assert!(face_details(&f, 22.0, 20.0, Size::Bar).is_empty(), "{id}");
        assert!(face_details(&f, 36.0, 34.0, Size::Dock).is_empty(), "{id}");
    }
}

fn load_from(dir: &[(&str, String)]) -> Registry {
    let mut files: Vec<&(&str, String)> = dir.iter().filter(|(name, _)| holds_face(name)).collect();
    files.sort();
    let read = files
        .into_iter()
        .map(|(name, text)| {
            let label = format!("/faces/{name}");
            ReadFace {
                face: parse(text, Source::User(label.clone())),
                label,
            }
        })
        .collect();
    Registry::load_in(builtin(), read)
}

#[test]
fn every_builtin_face_parses() {
    let r = builtin();
    assert!(
        r.problems().is_empty(),
        "組込み顔にパースエラーがある: {:?}",
        r.problems()
    );
    assert_eq!(
        r.ids(),
        vec!["egg", "round", "squircle", "bean"],
        "組込み顔の顔ぶれか並びが変わっている"
    );
}

#[test]
fn an_unknown_id_falls_back_to_egg() {
    let r = builtin();
    assert_eq!(r.resolve("no-such-face").id, DEFAULT_FACE_ID);
    assert_eq!(r.resolve("bean").id, "bean");
}

#[test]
fn user_faces_are_merged_after_the_builtins() {
    let mut dir: Vec<(&str, String)> = Vec::new();
    dir.push(("mine.toml", user_face("mine")));
    let r = load_from(&dir);
    assert!(r.problems().is_empty(), "{:?}", r.problems());
    assert_eq!(r.ids(), vec!["egg", "round", "squircle", "bean", "mine"]);
    assert_eq!(body_size(&r.resolve("mine"), Size::Bar), (20.0, 18.0));
}

#[test]
fn a_broken_user_face_is_skipped_without_killing_the_rest() {
    let mut dir: Vec<(&str, String)> = Vec::new();
    dir.push(("broken.toml", "this is not toml [[[".to_string()));
    dir.push(("good.toml", user_face("good")));
    let r = load_from(&dir);
    assert!(r.get("good").is_some(), "壊れていない顔まで落ちている");
    assert!(r.get("egg").is_some(), "組込みまで落ちている");
    assert_eq!(r.problems().len(), 1, "問題が記録されていない");
    assert!(r.problems()[0].0.contains("broken.toml"));
}

#[test]
fn a_user_face_cannot_shadow_a_builtin_id() {
    let mut dir: Vec<(&str, String)> = Vec::new();
    dir.push(("evil.toml", user_face("egg")));
    let r = load_from(&dir);
    assert_eq!(body_size(&r.resolve("egg"), Size::Bar), (22.0, 20.0));
    assert_eq!(r.problems().len(), 1);
    assert_eq!(r.problems()[0].1[0].code, ProblemCode::Id);
}

#[test]
fn template_files_are_skipped() {
    let mut dir: Vec<(&str, String)> = Vec::new();
    dir.push(("_template.toml", user_face("tmpl")));
    let r = load_from(&dir);
    assert!(r.get("tmpl").is_none());
    assert!(r.problems().is_empty());
}

#[test]
fn a_missing_user_dir_is_not_an_error() {
    let r = load_from(&[]);
    assert!(r.problems().is_empty());
    assert_eq!(r.ids(), builtin().ids());
}

fn user_face(id: &str) -> String {
    format!(
        r#"
id = "{id}"
label = "ユーザ顔"
[size]
bar  = {{ w = 20, h = 18 }}
dock = {{ w = 32, h = 30 }}
[outline]
kind = "corners"
corners = [[0.5,0.5],[0.5,0.5],[0.5,0.5],[0.5,0.5]]
[eyes]
shape = "rounded"
gap  = {{ bar = 3.0, dock = 5.0 }}
size = {{ bar = [3.0, 4.0], dock = [4.0, 6.0] }}
"#
    )
}

#[test]
fn every_builtin_face_passes_validation() {
    let reg = builtin();
    assert!(reg.problems().is_empty(), "{:?}", reg.problems());
    for face in reg.all() {
        if let Err(ps) = check(face) {
            panic!("組込み顔 {} が検証に落ちた: {ps:#?}", face.id);
        }
    }
    assert_eq!(reg.all().len(), 4, "組込み顔が 4 つない");
}

#[test]
fn every_builtin_face_has_a_consistent_eye_shape() {
    for face in builtin().all() {
        assert!(shape_matches_polygon(face), "{} の目の形が不整合", face.id);
    }
}

fn face(body: &str) -> FaceSpec {
    parse(body, Source::Builtin).unwrap_or_else(|e| panic!("パースできない: {e:?}"))
}

fn codes(spec: &FaceSpec) -> Vec<ProblemCode> {
    match check(spec) {
        Ok(()) => Vec::new(),
        Err(ps) => ps.iter().map(|p| p.code).collect(),
    }
}

fn ok_toml(bar_h: f64, eye_w: f64, gap: f64) -> String {
    format!(
        r#"
id = "probe"
label = "検査用"
[size]
bar  = {{ w = 22, h = {bar_h} }}
dock = {{ w = 36, h = 34 }}
[outline]
kind = "corners"
corners = [[0.5,0.5],[0.5,0.5],[0.5,0.5],[0.5,0.5]]
[eyes]
shape = "rounded"
gap  = {{ bar = {gap}, dock = 5.0 }}
size = {{ bar = [{eye_w}, 4.0], dock = [4.0, 6.0] }}
"#
    )
}

#[test]
fn the_probe_face_itself_passes() {
    assert_eq!(
        codes(&face(&ok_toml(20.0, 3.0, 3.0))),
        Vec::<ProblemCode>::new()
    );
}

#[test]
fn c5_rejects_a_too_tall_bar_body() {
    let c = codes(&face(&ok_toml(26.0, 3.0, 3.0)));
    assert!(c.contains(&ProblemCode::BodySize), "{c:?}");
    let e = check(&face(&ok_toml(26.0, 3.0, 3.0))).unwrap_err();
    assert!(
        e.iter().any(|p| p.message.contains("24pt")),
        "なぜ駄目かが書かれていない: {e:?}"
    );
}

#[test]
fn c7_rejects_overlapping_eyes() {
    let c = codes(&face(&ok_toml(20.0, 11.0, 3.0)));
    assert!(c.contains(&ProblemCode::EyesTooWide), "{c:?}");
}

#[test]
fn c3_rejects_eyes_poking_outside_the_outline() {
    let c = codes(&face(&ok_toml(20.0, 9.0, 3.0)));
    assert!(c.contains(&ProblemCode::EyesOutsideBody), "{c:?}");
}

#[test]
fn c6_rejects_a_face_whose_states_all_look_alike() {
    let mut t = ok_toml(20.0, 3.0, 3.0);
    for s in [
        "working",
        "wait_user",
        "wait_agent",
        "idle",
        "done",
        "error",
    ] {
        t.push_str(&format!("[eyes.states.{s}]\nw_scale = 1.0\n"));
    }
    let c = codes(&face(&t));
    assert!(c.contains(&ProblemCode::StatesLookAlike), "{c:?}");
}

#[test]
fn c4_rejects_details_outside_the_outline() {
    let t = format!(
        "{}\n[[details]]\nname = \"out\"\npoints = [[0.0,0.0],[1.0,1.0]]\n",
        ok_toml(20.0, 3.0, 3.0)
    );
    let c = codes(&face(&t));
    assert!(c.contains(&ProblemCode::DetailOutsideBody), "{c:?}");
}

#[test]
fn c9_rejects_a_face_that_does_not_thin_out_bar_lines() {
    let t = format!(
        "{}\n\
         [[details]]\nname = \"a\"\nsizes = [\"bar\"]\npoints = [[0.45,0.45],[0.55,0.55]]\n\
         [[details]]\nname = \"b\"\nsizes = [\"bar\"]\npoints = [[0.45,0.5],[0.55,0.5]]\n",
        ok_toml(20.0, 3.0, 3.0)
    );
    let c = codes(&face(&t));
    assert!(c.contains(&ProblemCode::BarDetailsNotThinned), "{c:?}");
}

#[test]
fn c2_rejects_a_half_path_that_does_not_end_at_the_centre() {
    let t = r#"
id = "lop"
label = "非対称"
[size]
bar  = { w = 22, h = 20 }
dock = { w = 36, h = 34 }
[outline]
kind = "path"
half = true
d = """
M 0.500 0.000
L 0.900 0.000
L 0.700 1.000
"""
[eyes]
shape = "rounded"
gap  = { bar = 3.0, dock = 5.0 }
size = { bar = [3.0, 4.0], dock = [4.0, 6.0] }
"#;
    let c = codes(&face(t));
    assert!(c.contains(&ProblemCode::Symmetry), "{c:?}");
}

#[test]
fn c1_rejects_an_unclosed_outline() {
    let t = r#"
id = "open"
label = "開いた輪郭"
[size]
bar  = { w = 22, h = 20 }
dock = { w = 36, h = 34 }
[outline]
kind = "path"
half = false
d = """
M 0.100 0.100
L 0.900 0.100
L 0.900 0.900
"""
[eyes]
shape = "rounded"
gap  = { bar = 3.0, dock = 5.0 }
size = { bar = [3.0, 4.0], dock = [4.0, 6.0] }
"#;
    let c = codes(&face(t));
    assert!(c.contains(&ProblemCode::Outline), "{c:?}");
}

#[test]
fn c1_rejects_an_outline_outside_the_body_rect() {
    let t = r#"
id = "big"
label = "はみ出し"
[size]
bar  = { w = 22, h = 20 }
dock = { w = 36, h = 34 }
[outline]
kind = "path"
half = false
d = """
M 0.000 0.000
L 1.500 0.000
L 1.500 1.000
L 0.000 1.000
L 0.000 0.000
"""
[eyes]
shape = "rounded"
gap  = { bar = 3.0, dock = 5.0 }
size = { bar = [3.0, 4.0], dock = [4.0, 6.0] }
"#;
    let c = codes(&face(t));
    assert!(c.contains(&ProblemCode::Outline), "{c:?}");
}

#[test]
fn c8_rejects_a_bad_id() {
    let mut f = face(&ok_toml(20.0, 3.0, 3.0));
    f.id = "Bad Id".into();
    assert!(codes(&f).contains(&ProblemCode::Id));
}

fn hex(p: Paint) -> String {
    palette::to_hex(p.hex())
}

#[test]
fn every_face_renders_to_well_formed_svg() {
    for face in builtin().all() {
        for size in [Size::Bar, Size::Dock] {
            for state in SessionState::ORDER {
                let s = render(face, state, size);
                assert!(s.starts_with("<svg "), "{} が svg で始まらない", face.id);
                assert!(
                    s.trim_end().ends_with("</svg>"),
                    "{} が閉じていない",
                    face.id
                );
                assert_eq!(
                    s.matches('<').count(),
                    s.matches('>').count(),
                    "{}/{state:?} の山かっこが釣り合わない",
                    face.id
                );
                assert!(!s.contains("NaN"), "{}/{state:?} に NaN がある", face.id);
            }
        }
    }
}

#[test]
fn the_chip_preview_rounds_its_backdrop_and_drops_the_glyph() {
    for face in builtin().all() {
        let s = render_chip(face, SessionState::Working, Size::Dock);
        assert!(s.starts_with("<svg "), "{} が svg で始まらない", face.id);
        assert!(
            s.trim_end().ends_with("</svg>"),
            "{} が閉じていない",
            face.id
        );
        let (bw, bh) = body_size(face, Size::Dock);
        let backdrop = format!(
            r#"<rect width="{}" height="{}" rx=""#,
            bw + CHIP_PAD * 2.0,
            bh + CHIP_PAD * 2.0
        );
        assert!(
            s.contains(&backdrop),
            "{} の背景チップが角丸でない（{backdrop:?} が無い）:\n{s}",
            face.id
        );
        assert!(
            !s.contains("<text"),
            "{} のプレビューに状態グリフが残っている",
            face.id
        );
        assert!(!s.contains("NaN"), "{} のチップに NaN がある", face.id);
    }
}

#[test]
fn the_chip_preview_draws_the_same_body_as_the_gallery() {
    for face in builtin().all() {
        let body = |s: &str| {
            s.lines()
                .find(|l| l.trim_start().starts_with("<path "))
                .map(str::to_string)
                .unwrap_or_else(|| panic!("{} に体の path が無い", face.id))
        };
        assert_eq!(
            body(&render(face, SessionState::Working, Size::Dock)),
            body(&render_chip(face, SessionState::Working, Size::Dock)),
            "{} の体がプレビューとギャラリーで食い違う",
            face.id
        );
    }
}

#[test]
fn the_chip_corner_never_outgrows_its_padding() {
    let bound = CHIP_PAD * (2.0 + 2.0_f64.sqrt());
    assert!(
        CHIP_RADIUS_MAX <= bound,
        "上限 {CHIP_RADIUS_MAX} が幾何的な限界 {bound} を超えている"
    );
    for face in builtin().all() {
        let (_, bh) = body_size(face, Size::Dock);
        let natural = (bh + CHIP_PAD * 2.0) * CHIP_RADIUS_RATIO;
        assert!(
            natural < CHIP_RADIUS_MAX,
            "{} が上限に当たっている（{natural}）。上限は病的な顔のための安全網で、\
             まともな顔の見た目を変えてはいけない",
            face.id
        );
    }
}

#[test]
fn the_gallery_renderer_keeps_its_square_backdrop() {
    let reg = builtin();
    let face = reg.get("egg").unwrap();
    let s = render(face, SessionState::Working, Size::Dock);
    let (bw, bh) = body_size(face, Size::Dock);
    assert!(
        s.contains(&format!(
            r#"<rect width="{}" height="{}" fill=""#,
            bw + PAD * 2.0,
            bh + PAD * 2.0
        )),
        "背景矩形に余計な属性が入っている:\n{s}"
    );
    assert!(s.contains("<text"), "ギャラリー側のグリフが消えている");
}

#[test]
fn the_colours_a_face_declares_reach_the_svg() {
    let face = coloured_face();
    let s = render(&face, SessionState::Working, Size::Dock);
    assert!(
        s.contains(r##"stroke="#7f3ac2""##),
        "枠が顔の色でない:\n{s}"
    );
    assert!(s.contains(r##"fill="#241038""##), "面が顔の色でない:\n{s}");
    assert!(s.contains(r##"fill="#00ff88""##), "目が顔の色でない:\n{s}");
    assert!(
        s.matches(r##""#7f3ac2""##).count() >= 2,
        "パネル線が顔の accent を使っていない:\n{s}"
    );
}

#[test]
fn a_state_without_colours_keeps_the_default_palette() {
    let face = coloured_face();
    for state in SessionState::ORDER {
        if state == SessionState::Working {
            continue;
        }
        let s = render(&face, state, Size::Dock);
        assert!(
            s.contains(&format!(r#"stroke="{}""#, hex(Paint::Default(palette::accent(state))))),
            "{} の枠が既定色から動いている",
            state.as_str()
        );
        assert!(
            s.contains(&format!(r#"fill="{}""#, hex(Paint::Default(palette::face_fill(state))))),
            "{} の面が既定色から動いている",
            state.as_str()
        );
    }
}

#[test]
fn a_face_without_colours_renders_exactly_what_the_state_palette_says() {
    let reg = builtin();
    let face = reg.get("egg").unwrap();
    for state in SessionState::ORDER {
        let s = render(face, state, Size::Dock);
        assert!(s.contains(&format!(r#"fill="{}""#, hex(Paint::Default(palette::face_fill(state))))));
        assert!(s.contains(&format!(r#"stroke="{}""#, hex(Paint::Default(palette::accent(state))))));
    }
}

#[test]
fn svg_coordinates_come_from_the_same_resolution_as_calayer() {
    let face = &lined_face();
    let size = Size::Dock;
    let (_, bh) = body_size(face, size);
    let svg = render(face, SessionState::Done, size);

    let line = &face_details(face, 30.0, bh, size)[0];
    let want = format!("{:.3},{:.3}", line[0].0, bh - line[0].1);
    assert!(svg.contains(&want), "パネル線の座標が一致しない: {want}");

    let inset = BORDER_W / 2.0;
    let o = outline_of(face, 30.0 - inset * 2.0, bh - inset * 2.0, size);
    let want = format!("M {:.3} {:.3}", float(o.start.x), (bh - inset * 2.0) - float(o.start.y));
    assert!(svg.contains(&want), "輪郭の始点が一致しない: {want}");
}

#[test]
fn each_state_renders_differently() {
    let reg = builtin();
    for face in reg.all() {
        let mut seen: Vec<String> = Vec::new();
        for state in SessionState::ORDER {
            let s = render(face, state, Size::Dock);
            assert!(!seen.contains(&s), "{} の状態が見分けられない", face.id);
            seen.push(s);
        }
    }
}

#[test]
fn the_gallery_lists_every_face() {
    let reg = builtin();
    let html = gallery(reg.all());
    for face in reg.all() {
        assert!(html.contains(&face.label), "{} が載っていない", face.id);
    }
    assert!(html.starts_with("<!doctype html>"));
}

#[test]
fn special_characters_are_escaped() {
    assert_eq!(svg::esc("a<b>&\"c\""), "a&lt;b&gt;&amp;&quot;c&quot;");
}

fn coloured_face() -> FaceSpec {
    parse(
        r##"
id = "coloured"
label = "色つき"
[size]
bar  = { w = 22, h = 20 }
dock = { w = 36, h = 34 }
[outline]
kind = "corners"
corners = [[0.5,0.5],[0.5,0.5],[0.5,0.5],[0.5,0.5]]
[eyes]
shape = "rounded"
gap  = { bar = 3.0, dock = 5.0 }
size = { bar = [3.0, 4.0], dock = [4.0, 6.0] }
[[details]]
name = "brow"
sizes = ["bar", "dock"]
points = [[0.19,0.725],[0.50,0.775],[0.81,0.725]]
[colors.working]
accent = "#7f3ac2"
fill   = "#241038"
eye    = "#00ff88"
"##,
        Source::Builtin,
    )
    .expect("フィクスチャがパースできない")
}

fn lined_face() -> FaceSpec {
    parse(
        r#"
id = "lined"
label = "線画つき"
[size]
bar  = { w = 18, h = 20 }
dock = { w = 30, h = 34 }
[outline]
kind = "path"
half = true
d = """
M 0.500 0.000
L 0.615 0.000
C 0.700 0.020 0.770 0.075 0.815 0.170
L 0.500 1.000
"""
[eyes]
shape = "rounded"
gap  = { bar = 3.0, dock = 5.0 }
size = { bar = [3.0, 4.0], dock = [4.0, 6.0] }
[[details]]
name = "brow"
sizes = ["bar", "dock"]
points = [[0.19,0.725],[0.50,0.775],[0.81,0.725]]
"#,
        Source::Builtin,
    )
    .expect("フィクスチャがパースできない")
}

#[test]
fn the_svg_of_a_face_is_exact() {
    let f = parse(&builtin_text("round"), Source::Builtin).unwrap();
    let svg = render(&f, SessionState::Idle, Size::Bar);
    assert!(
        svg.starts_with(
            "<svg xmlns=\"http://www.w3.org/2000/svg\" width=\"36\" height=\"36\" \
             viewBox=\"0 0 36 36\" role=\"img\" aria-label=\"round / idle\">\n\
             <title>round — idle / bar</title>\n\
             <rect width=\"36\" height=\"36\" fill=\"#0b0912\"/>\n\
             <g opacity=\"0.55\" transform=\"translate(8,8)\">\n\
             \x20 <path d=\"M 9.250 18.500 L 9.250 18.500 C "
        ),
        "{svg}"
    );
    assert!(
        svg.ends_with(
            "  <rect x=\"4.500\" y=\"9.000\" width=\"4.000\" height=\"2.000\" rx=\"1.000\" fill=\"#c6ccdb\"/>\n\
             \x20 <rect x=\"11.500\" y=\"9.000\" width=\"4.000\" height=\"2.000\" rx=\"1.000\" fill=\"#c6ccdb\"/>\n\
             \x20 <text x=\"22.000\" y=\"-2.000\" font-family=\"ui-monospace,SFMono-Regular,Menlo,monospace\" \
             font-size=\"10\" font-weight=\"700\" fill=\"#79818d\" text-anchor=\"middle\">z</text>\n\
             </g>\n</svg>\n"
        ),
        "{svg}"
    );
}

#[test]
fn panel_lines_are_drawn_with_their_own_width() {
    let svg = render(&coloured_face(), SessionState::Working, Size::Bar);
    assert!(
        svg.contains(
            "  <polyline points=\"4.180,5.500 11.000,4.500 17.820,5.500\" fill=\"none\" \
             stroke=\"#7f3ac2\" stroke-opacity=\"0.62\" stroke-width=\"0.8\" stroke-linecap=\"round\"/>\n"
        ),
        "{svg}"
    );
}

#[test]
fn an_author_is_named_in_the_gallery() {
    let mut f = parse(&builtin_text("egg"), Source::Builtin).unwrap();
    f.author = Some("A & B".into());
    f.label = "<x>".into();
    let html = gallery(&[Arc::new(f)]);
    assert!(html.contains("<h2>&lt;x&gt; <span class=\"meta\">egg — A &amp; B</span></h2>\n"));
    assert_eq!(html.matches("<figure class=\"cell\">").count(), 12);
}

#[test]
fn problems_are_reported_in_order() {
    let mut f = parse(&ok_toml(26.0, 11.0, 3.0), Source::Builtin).unwrap();
    f.id = "Bad Id".into();
    let c = codes(&f);
    assert_eq!(c[0], ProblemCode::Id);
    assert_eq!(c[1], ProblemCode::BodySize);
    assert_eq!(c[2], ProblemCode::EyesTooWide);
}

#[test]
fn dimensions_must_be_positive_and_finite() {
    for w in [0.0, -1.0, f64::NAN, f64::INFINITY] {
        let mut f = parse(&ok_toml(20.0, 3.0, 3.0), Source::Builtin).unwrap();
        f.size.dock.w = num(w);
        let e = check(&f).unwrap_err();
        let want = format!("dock の体の寸法 {w}x34 が不正です（正の有限値）");
        assert!(e.iter().any(|p| p.message == want), "{e:?}");
    }
}

#[test]
fn a_wide_flock_is_warned_about() {
    let bean = parse(&builtin_text("bean"), Source::Builtin).unwrap();
    let w = notch_width_warning(&bean).unwrap();
    assert_eq!(w.code, ProblemCode::NotchWidth);
    assert!(w.message.contains("幅 231.0pt"), "{}", w.message);
    let egg = parse(&builtin_text("egg"), Source::Builtin).unwrap();
    assert!(notch_width_warning(&egg).is_none());
}

#[test]
fn a_face_under_a_wrong_file_name_is_refused() {
    let r = Registry::builtin(vec![ReadFace {
        label: "egg".into(),
        face: parse(&builtin_text("round"), Source::Builtin),
    }]);
    assert!(r.is_empty());
    assert_eq!(r.problems()[0].0, "faces/egg.toml");
    assert_eq!(
        r.problems()[0].1[0].message,
        "ファイル名 egg.toml と id \"round\" が一致しません"
    );
}

#[test]
fn troubles_are_told_line_by_line() {
    let r = load_from(&[("evil.toml", user_face("egg"))]);
    assert_eq!(
        r.problem_report(),
        vec![
            "ccsessions: 顔 /faces/evil.toml を読み込めませんでした:".to_string(),
            "  [id] id \"egg\" は既にある顔と重複しています。別の id にしてください".to_string(),
        ]
    );
    assert!(builtin().problem_report().is_empty());
    assert_eq!(r.fallback_notice("egg"), None);
    assert_eq!(
        r.fallback_notice("x").as_deref(),
        Some(
            "ccsessions: 顔 \"x\" が見つかりません。egg を使います（使える顔: egg, round, squircle, bean）"
        )
    );
}

#[test]
fn without_the_default_the_first_face_is_used() {
    let r = Registry::builtin(vec![ReadFace {
        label: "bean".into(),
        face: parse(&builtin_text("bean"), Source::Builtin),
    }]);
    assert_eq!(r.resolve("x").id, "bean");
    assert!(Registry::default().is_empty());
}

#[test]
fn face_files_are_told_by_their_names() {
    for (name, yes) in [
        ("a.toml", true),
        ("..toml", true),
        (".toml", false),
        ("_a.toml", false),
        ("a.tom", false),
        ("toml", false),
    ] {
        assert_eq!(holds_face(name), yes, "{name}");
    }
}

#[test]
fn colours_of_states_are_read() {
    let f = coloured_face();
    assert_eq!(
        f.accent(SessionState::Working),
        Paint::Own(Hex {
            r: 0x7f,
            g: 0x3a,
            b: 0xc2
        })
    );
    let text = format!("{MINIMAL}\n[colors.working]\naccent = \"red\"\n");
    assert!(parse(&text, Source::Builtin).is_err());
    let text = format!("{MINIMAL}\n[colors.asleep]\naccent = \"#123456\"\n");
    assert!(parse(&text, Source::Builtin).is_err());
}

#[test]
fn ids_are_short_plain_words() {
    for (id, ok) in [
        ("a", true),
        ("0-x", true),
        ("-x", false),
        ("A", false),
        ("", false),
        ("a b", false),
        ("é", false),
    ] {
        assert_eq!(is_valid_id(id), ok, "{id:?}");
    }
    assert!(is_valid_id(&"a".repeat(32)));
    assert!(!is_valid_id(&"a".repeat(33)));
}

#[test]
fn every_kind_of_problem_has_its_name() {
    let p = Problem::new(ProblemCode::Id, "x".to_string());
    assert_eq!(p.text(), "[id] x");
}

#[test]
fn colour_names_of_eyes_round_trip() {
    for c in [
        EyeColor::Eye,
        EyeColor::EyeClosed,
        EyeColor::EyeError,
        EyeColor::White,
    ] {
        assert_eq!(EyeColor::parse(c.as_str()), Some(c));
    }
    assert_eq!(EyeColor::parse("purple"), None);
}

#[test]
fn a_mirrored_path_has_its_points_in_pairs() {
    let half = vec![
        Seg::Line {
            to: point((0.8, 0.0)),
        },
        Seg::Line {
            to: point((0.5, 1.0)),
        },
    ];
    let o = path_outline(true, point((0.5, 0.0)), &half);
    assert_eq!(o.len(), 4);
    assert_eq!(
        o[3],
        UnitSeg::Line {
            to: UnitPoint {
                at: point((0.5, 0.0)),
                mirrored: true
            }
        }
    );
    assert_eq!(path_outline(false, point((0.5, 0.0)), &half).len(), 2);
}

#[test]
fn the_points_of_an_outline_are_all_of_them() {
    let o = Outline {
        start: point((0.0, 0.0)),
        segs: vec![
            Seg::Line {
                to: point((1.0, 0.0)),
            },
            Seg::Cubic {
                c1: point((1.0, 1.0)),
                c2: point((0.0, 1.0)),
                to: point((0.0, 0.0)),
            },
        ],
    };
    let want = [(0.0, 0.0), (1.0, 0.0), (1.0, 1.0), (0.0, 1.0), (0.0, 0.0)];
    assert_eq!(outline_points(&o), want.map(point).to_vec());
}
