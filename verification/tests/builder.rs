//! Figures put together from parts.

#![allow(dead_code)]

use std::collections::BTreeSet;
use std::sync::Arc;

use ccsessions_core::face::builder::emit::{
    self, extract_config, quote, to_toml, DetailDraft, Draft, OutlineDraft, Pair, StepDraft,
};
use ccsessions_core::face::builder::parts::{
    self, category, eyes, line_part, silhouette_points, EyeForm, Form, BAR_H, DOCK_EYE_RATIO,
    DOCK_H,
};
use ccsessions_core::face::builder::shape::{curve_points, Curve, CurvePoint, Ratio};
use ccsessions_core::face::builder::tables::{all_eyes, faces, line_categories};
use ccsessions_core::face::builder::{
    draft_of, eyes_too_big, fit_eyes, is_saveable_id, line_details, notes_of, problems_of, random, safe_draft,
    CharacterConfig, LinePlan, Measures, Rng, Tweak, EYE_FIT_STEPS,
};
use ccsessions_core::face::palette::Paint;
use ccsessions_core::face::parse::{
    build, path_tokens, RawColors, RawDetail, RawEyeState, RawEyes, RawFace, RawOutline,
};
use ccsessions_core::face::registry::{builtin_ids, ReadFace, Registry};
use ccsessions_core::face::spec::{
    is_valid_id, path_outline, BodySize, BySize, CornerSpec, EyeColor, EyeShape, EyeSizing,
    FaceSpec, Length, OutlineSpec, Problem, ProblemCode, Source, UnitPoint, UnitSeg,
};
use ccsessions_core::face::svg::{self, EyeFigure, Figure, GalleryEntry};
use ccsessions_core::face::validate::{
    self, EyeFinding, OutlineFinding, PlaceSurvey, SizeText, Survey, SymmetryFinding, WideEyes,
};
use ccsessions_core::face::{outline_points, seg_to, Outline, Seg, Size};
use ccsessions_core::num::{Num, Point};
use ccsessions_core::session::SessionState;
use toml::{Table, Value};

/// A number for the library.
fn num(x: f64) -> Num {
    Num::new(x.to_bits())
}

/// A number of the library.
fn float(n: Num) -> f64 {
    f64::from_bits(n.bits)
}

/// A point for the library.
fn point((x, y): (f64, f64)) -> Point {
    Point {
        x: num(x),
        y: num(y),
    }
}

/// A point of the library.
fn pair(p: Point) -> (f64, f64) {
    (float(p.x), float(p.y))
}

fn float_of(v: &Value) -> f64 {
    v.as_float().unwrap_or_else(|| v.as_integer().unwrap() as f64)
}

fn number_in(t: &Table, key: &str) -> Option<Num> {
    t.get(key).map(|v| num(float_of(v)))
}

fn text_in(t: &Table, key: &str) -> Option<String> {
    t.get(key).map(|v| v.as_str().unwrap().to_string())
}

fn two(v: &Value) -> [Num; 2] {
    let a = v.as_array().unwrap();
    [num(float_of(&a[0])), num(float_of(&a[1]))]
}

fn twos(v: &Value) -> Vec<[Num; 2]> {
    v.as_array().unwrap().iter().map(two).collect()
}

fn bar_dock<T>(v: &Value, read: impl Fn(&Value) -> T) -> BySize<T> {
    BySize {
        bar: read(&v["bar"]),
        dock: read(&v["dock"]),
    }
}

fn tables(t: &Table, key: &str) -> Vec<(String, Table)> {
    let Some(v) = t.get(key) else {
        return Vec::new();
    };
    let rows = v.as_table().unwrap().iter();
    rows.map(|(k, v)| (k.clone(), v.as_table().unwrap().clone()))
        .collect()
}

fn raw_outline(t: &Table) -> RawOutline {
    let read = |word: &String| word.parse::<f64>().ok().map(num);
    RawOutline {
        kind: text_in(t, "kind").unwrap(),
        corners: t.get("corners").map(|v| {
            let c = twos(v);
            [c[0], c[1], c[2], c[3]]
        }),
        corners_pt: t
            .get("corners_pt")
            .map(|v| bar_dock(v, |x| num(float_of(x)))),
        half: t.get("half").is_some_and(|v| v.as_bool().unwrap()),
        d: text_in(t, "d").map(|d| path_tokens(&d, read)),
    }
}

fn raw_eyes(t: &Table) -> RawEyes {
    let state = |(name, s): (String, Table)| {
        let raw = RawEyeState {
            w_scale: number_in(&s, "w_scale"),
            h_scale: number_in(&s, "h_scale"),
            dx: number_in(&s, "dx"),
            color: text_in(&s, "color"),
            glow: number_in(&s, "glow"),
            blink: s.get("blink").map(|v| v.as_bool().unwrap()),
        };
        (name, raw)
    };
    RawEyes {
        shape: text_in(t, "shape").unwrap(),
        v: number_in(t, "v"),
        gap: bar_dock(&t["gap"], |x| num(float_of(x))),
        size: bar_dock(&t["size"], two),
        radius: number_in(t, "radius"),
        polygon: t.get("polygon").map(twos),
        states: tables(t, "states").into_iter().map(state).collect(),
    }
}

fn raw_detail(v: &Value) -> RawDetail {
    let t = v.as_table().unwrap();
    RawDetail {
        name: text_in(t, "name").unwrap(),
        sizes: t.get("sizes").map(|v| {
            let names = v.as_array().unwrap().iter();
            names.map(|s| s.as_str().unwrap().to_string()).collect()
        }),
        points: twos(&t["points"]),
    }
}

fn raw_face(t: &Table) -> RawFace {
    let colors = |(name, c): (String, Table)| {
        let raw = RawColors {
            accent: text_in(&c, "accent"),
            fill: text_in(&c, "fill"),
            eye: text_in(&c, "eye"),
        };
        (name, raw)
    };
    RawFace {
        id: text_in(t, "id").unwrap(),
        label: text_in(t, "label").unwrap(),
        label_en: text_in(t, "label_en"),
        author: text_in(t, "author"),
        size: bar_dock(&t["size"], |v| BodySize {
            w: num(float_of(&v["w"])),
            h: num(float_of(&v["h"])),
        }),
        outline: raw_outline(t["outline"].as_table().unwrap()),
        eyes: raw_eyes(t["eyes"].as_table().unwrap()),
        details: match t.get("details") {
            Some(v) => v.as_array().unwrap().iter().map(raw_detail).collect(),
            None => Vec::new(),
        },
        colors: tables(t, "colors").into_iter().map(colors).collect(),
    }
}

fn parse(text: &str, source: Source) -> Result<FaceSpec, Vec<Problem>> {
    match toml::from_str::<Table>(text) {
        Ok(t) => build(raw_face(&t), source),
        Err(e) => Err(vec![Problem::new(
            ProblemCode::Parse,
            format!("TOML を読めません: {e}"),
        )]),
    }
}

/// The radii of four corners: upper left, upper right, lower right, lower left.
type Corners = [(f64, f64); 4];

/// An eye in points.
#[derive(Debug, Clone, Copy, PartialEq)]
struct EyeSpec {
    w: f64,
    h: f64,
    radius: f64,
    color: Paint,
    glow: f64,
    dx: f64,
    dy: f64,
    blink: bool,
}

/// Width and height of a body.
fn body_size(face: &FaceSpec, size: Size) -> (f64, f64) {
    let s = face.body_size(size);
    (float(s.w), float(s.h))
}

/// The corners of a body.
fn corners(face: &FaceSpec, w: f64, h: f64, size: Size) -> Corners {
    match &face.outline {
        OutlineSpec::Corners(CornerSpec::Ratio(c)) => {
            c.map(|[x, y]| (float(x) * w, float(y) * h))
        }
        OutlineSpec::Corners(CornerSpec::Pt(pt)) => {
            let r = float(pt.get(size));
            [(r.min(w * 0.5), r.min(h * 0.5)); 4]
        }
        OutlineSpec::Corners(CornerSpec::Capsule) => [(h * 0.5, h * 0.5); 4],
        OutlineSpec::Path { .. } => {
            let r: f64 = if size.is_bar() { 7.0 } else { 10.0 };
            [(r.min(w * 0.5), r.min(h * 0.5)); 4]
        }
    }
}

/// A rectangle with round corners.
fn outline(w: f64, h: f64, c: Corners) -> Outline {
    const K: f64 = 0.552_284_749_8;

    let sides = [
        (c[3].0 + c[2].0, w),
        (c[0].0 + c[1].0, w),
        (c[0].1 + c[3].1, h),
        (c[1].1 + c[2].1, h),
    ];
    let mut f: f64 = 1.0;
    for (sum, len) in sides {
        if sum > 0.0 {
            f = f.min(len / sum);
        }
    }
    let f = f.min(1.0);
    let s = |(x, y): (f64, f64)| (x * f, y * f);
    let (tl, tr, br, bl) = (s(c[0]), s(c[1]), s(c[2]), s(c[3]));

    let line = |to| Seg::Line { to: point(to) };
    let cubic = |c1, c2, to| Seg::Cubic {
        c1: point(c1),
        c2: point(c2),
        to: point(to),
    };
    Outline {
        start: point((bl.0, 0.0)),
        segs: vec![
            line((w - br.0, 0.0)),
            cubic(
                (w - br.0 + br.0 * K, 0.0),
                (w, br.1 - br.1 * K),
                (w, br.1),
            ),
            line((w, h - tr.1)),
            cubic(
                (w, h - tr.1 + tr.1 * K),
                (w - tr.0 + tr.0 * K, h),
                (w - tr.0, h),
            ),
            line((tl.0, h)),
            cubic(
                (tl.0 - tl.0 * K, h),
                (0.0, h - tl.1 + tl.1 * K),
                (0.0, h - tl.1),
            ),
            line((0.0, bl.1)),
            cubic(
                (0.0, bl.1 - bl.1 * K),
                (bl.0 - bl.0 * K, 0.0),
                (bl.0, 0.0),
            ),
        ],
    }
}

/// The outline of a face in a rectangle.
fn outline_of(face: &FaceSpec, w: f64, h: f64, size: Size) -> Outline {
    let OutlineSpec::Path { half, start, segs } = &face.outline else {
        return outline(w, h, corners(face, w, h, size));
    };
    let scale = |p: UnitPoint| {
        let (u, v) = pair(p.at);
        let u = if p.mirrored { 1.0 - u } else { u };
        point((u * w, v * h))
    };
    let (u, v) = pair(*start);
    Outline {
        start: point((u * w, v * h)),
        segs: path_outline(*half, *start, segs)
            .into_iter()
            .map(|seg| match seg {
                UnitSeg::Line { to } => Seg::Line { to: scale(to) },
                UnitSeg::Cubic { c1, c2, to } => Seg::Cubic {
                    c1: scale(c1),
                    c2: scale(c2),
                    to: scale(to),
                },
            })
            .collect(),
    }
}

/// The outline of a face in its own rectangle.
fn body_outline(face: &FaceSpec, size: Size) -> Outline {
    let (w, h) = body_size(face, size);
    outline_of(face, w, h, size)
}

/// The gap between the eyes.
fn eye_gap(face: &FaceSpec, size: Size) -> f64 {
    float(face.eye_gap(size))
}

fn length(l: Length) -> f64 {
    match l {
        Length::Tenths(n) => f64::from(n) / 10.0,
        Length::Given(n) => float(n),
    }
}

/// The eyes in a state, in points.
fn eye(face: &FaceSpec, state: SessionState, size: Size) -> EyeSpec {
    let (_, bh) = body_size(face, size);
    let [w0, h0] = face.eyes.size.get(size).map(float);
    let r0 = match face.eyes.shape {
        EyeShape::Rounded => float(face.eyes.radius),
        EyeShape::Polygon => 0.0,
    };
    let rule = face.eye(state);
    let (w, h, radius) = match rule.sizing {
        EyeSizing::Own => (w0, h0, r0),
        EyeSizing::Circle => (w0 + 1.0, w0 + 1.0, (w0 + 1.0) / 2.0),
        EyeSizing::Line => (w0 + 1.0, 2.0, 1.0),
        EyeSizing::Height { hundredths } => (w0, h0 * (f64::from(hundredths) / 100.0), r0),
        EyeSizing::Scaled { w, h } => (w0 * float(w), h0 * float(h), r0),
    };
    EyeSpec {
        w,
        h,
        radius,
        color: face.eye_color(state),
        glow: length(rule.glow),
        dx: length(rule.dx),
        dy: (float(face.eyes.v) - 0.5) * bh,
        blink: rule.blink,
    }
}

/// An eye as a polygon in a rectangle, if it is one.
fn eye_shape(face: &FaceSpec, w: f64, h: f64, mirrored: bool) -> Option<Vec<(f64, f64)>> {
    let polygon = face.eyes.polygon.as_ref()?;
    let scale = |p: &[Num; 2]| {
        let (u, v) = (float(p[0]), float(p[1]));
        ((if mirrored { 1.0 - u } else { u }) * w, v * h)
    };
    Some(polygon.iter().map(scale).collect())
}

/// The panel lines drawn in a place, in a rectangle.
fn face_details(face: &FaceSpec, w: f64, h: f64, size: Size) -> Vec<Vec<(f64, f64)>> {
    face.face_details(size)
        .into_iter()
        .map(|i| {
            let points = face.details[i].points.iter();
            points.map(|p| (float(p[0]) * w, float(p[1]) * h)).collect()
        })
        .collect()
}

/// An outline as a polygon; each curve becomes so many steps. It is floating-point arithmetic
/// throughout.
fn flatten(o: &Outline, steps: usize) -> Vec<(f64, f64)> {
    let mut poly = vec![pair(o.start)];
    for seg in &o.segs {
        match *seg {
            Seg::Line { to } => poly.push(pair(to)),
            Seg::Cubic { c1, c2, to } => {
                let p0 = poly[poly.len() - 1];
                let (c1, c2, to) = (pair(c1), pair(c2), pair(to));
                for i in 1..=steps {
                    let t = i as f64 / steps as f64;
                    let u = 1.0 - t;
                    let b = |a: f64, b: f64, c: f64, d: f64| {
                        u * u * u * a + 3.0 * u * u * t * b + 3.0 * u * t * t * c + t * t * t * d
                    };
                    poly.push((b(p0.0, c1.0, c2.0, to.0), b(p0.1, c1.1, c2.1, to.1)));
                }
            }
        }
    }
    poly
}

/// Whether a point is inside a polygon.
fn contains(poly: &[(f64, f64)], (x, y): (f64, f64)) -> bool {
    let mut inside = false;
    for i in 0..poly.len() {
        let (x1, y1) = poly[i];
        let (x2, y2) = poly[(i + 1) % poly.len()];
        if (y1 > y) != (y2 > y) && x < (x2 - x1) * (y - y1) / (y2 - y1) + x1 {
            inside = !inside;
        }
    }
    inside
}

const FLATTEN_STEPS: usize = 24;

const EPS: f64 = 0.001;

/// The steps that a curve becomes where it is asked whether a point is inside.
fn flatten_steps() -> usize {
    FLATTEN_STEPS
}

/// Checks a face.
fn check(face: &FaceSpec) -> Result<(), Vec<Problem>> {
    validate::validate(face, &survey(face))
}

/// A warning that six figures are wider than the space beside the notch.
fn notch_width_warning(face: &FaceSpec) -> Option<Problem> {
    let (bw, _) = body_size(face, Size::Bar);
    let w = 9.0 * 2.0 + bw * 6.0 + 9.0 * 5.0;
    validate::notch_width_warning(num(w), &format!("{w:.1}"))
}

fn survey(face: &FaceSpec) -> Survey {
    Survey {
        bar: place_survey(face, Size::Bar),
        dock: place_survey(face, Size::Dock),
        symmetry: symmetry(face),
    }
}

fn place_survey(face: &FaceSpec, size: Size) -> PlaceSurvey {
    let (w, h) = body_size(face, size);
    PlaceSurvey {
        body: SizeText {
            w: format!("{w}"),
            h: format!("{h}"),
        },
        outline: outline_found(face, size),
        eyes: SessionState::ORDER.map(|state| eyes_found(face, state, size)),
        details: details_found(face, size),
    }
}

fn words(x: String, y: String) -> Pair {
    Pair { x, y }
}

/// The outline in one place.
fn outline_found(face: &FaceSpec, size: Size) -> OutlineFinding {
    let (w, h) = body_size(face, size);
    let o = body_outline(face, size);
    let Some(last) = o.segs.last().map(|s| pair(seg_to(*s))) else {
        return OutlineFinding::Empty;
    };
    let start = pair(o.start);
    let open = (last.0 - start.0).abs() > EPS || (last.1 - start.1).abs() > EPS;
    let outside = outline_points(&o).into_iter().map(pair).find(|(x, y)| {
        !(-EPS..=w + EPS).contains(x) || !(-EPS..=h + EPS).contains(y)
    });
    OutlineFinding::Drawn {
        gap: open.then(|| (format!("{start:?}"), format!("{last:?}"))),
        outside: outside.map(|(x, y)| words(format!("{x:.3}"), format!("{y:.3}"))),
    }
}

/// The symmetry of an outline.
fn symmetry(face: &FaceSpec) -> SymmetryFinding {
    let (w, _) = body_size(face, Size::Dock);
    let pts: Vec<(f64, f64)> = outline_points(&body_outline(face, Size::Dock))
        .into_iter()
        .map(pair)
        .collect();
    if pts.len() % 2 != 1 {
        return SymmetryFinding::Even {
            points: pts.len() as u64,
        };
    }
    let mid = pts.len() / 2;
    let turn = ((pts[mid].0 - w / 2.0).abs() > EPS)
        .then(|| (format!("{:.3}", pts[mid].0), format!("{:.3}", w / 2.0)));
    let uneven = (1..=mid).map(|k| (pts[mid - k], pts[mid + k])).find(|(r, l)| {
        (r.0 - (w - l.0)).abs() > EPS || (r.1 - l.1).abs() > EPS
    });
    SymmetryFinding::Odd {
        turn,
        uneven: uneven.map(|(r, l)| (format!("{:.3}", r.0), format!("{:.3}", l.0))),
    }
}

/// The eyes in one place and state.
fn eyes_found(face: &FaceSpec, state: SessionState, size: Size) -> EyeFinding {
    let (bw, bh) = body_size(face, size);
    let poly = flatten(&body_outline(face, size), FLATTEN_STEPS);
    let gap = eye_gap(face, size);
    let e = eye(face, state, size);
    let total = e.w * 2.0 + gap;
    let wide = (total > bw + EPS).then(|| WideEyes {
        eye: format!("{:.2}", e.w),
        gap: format!("{gap}"),
        total: format!("{total:.2}"),
        body: format!("{bw}"),
    });
    let left = (bw - total) / 2.0 + e.dx;
    let bottom = (bh - e.h) / 2.0 + e.dy;
    let outside = |i: usize| {
        let pts = eye_shape(face, e.w, e.h, i == 0)
            .unwrap_or_else(|| vec![(0.0, 0.0), (e.w, 0.0), (e.w, e.h), (0.0, e.h)]);
        pts.into_iter()
            .map(|(px, py)| (left + (e.w + gap) * i as f64 + px, bottom + py))
            .find(|pt| !contains(&poly, *pt))
            .map(|(x, y)| words(format!("{x:.2}"), format!("{y:.2}")))
    };
    EyeFinding {
        wide,
        left: outside(0),
        right: outside(1),
        like_done: !differ(&e, &eye(face, SessionState::Done, size)),
    }
}

fn differ(a: &EyeSpec, done: &EyeSpec) -> bool {
    (a.w - done.w).abs() > EPS
        || (a.h - done.h).abs() > EPS
        || a.color != done.color
        || (a.dx - done.dx).abs() > EPS
        || a.glow != done.glow
        || a.blink != done.blink
}

/// For each panel line a point outside the body.
fn details_found(face: &FaceSpec, size: Size) -> Vec<Option<Pair>> {
    let (w, h) = body_size(face, size);
    let poly = flatten(&body_outline(face, size), FLATTEN_STEPS);
    face.details
        .iter()
        .map(|d| {
            d.points
                .iter()
                .map(|p| (float(p[0]) * w, float(p[1]) * h))
                .find(|pt| !contains(&poly, *pt))
                .map(|(x, y)| words(format!("{x:.2}"), format!("{y:.2}")))
        })
        .collect()
}

const PAD: f64 = 8.0;

const CHIP_PAD: f64 = 3.0;

const CHIP_RADIUS_RATIO: f64 = 0.16;

const CHIP_RADIUS_MAX: f64 = 10.0;

const BORDER_W: f64 = 1.5;

/// A face as one picture.
fn render(face: &FaceSpec, state: SessionState, size: Size) -> String {
    svg::render(face, state, size, &figure(face, state, size, PAD))
}

/// A face as a chip.
fn render_chip(face: &FaceSpec, state: SessionState, size: Size) -> String {
    let (_, bh) = body_size(face, size);
    let corner = ((bh + CHIP_PAD * 2.0) * CHIP_RADIUS_RATIO).min(CHIP_RADIUS_MAX);
    let corner = (corner > 0.0).then(|| format!("{corner:.3}"));
    svg::render_chip(face, state, size, &figure(face, state, size, CHIP_PAD), corner)
}

/// A page with all faces.
fn gallery(faces: &[Arc<FaceSpec>]) -> String {
    let entries = faces
        .iter()
        .map(|face| GalleryEntry {
            face: Arc::clone(face),
            bar: SessionState::ORDER.map(|state| figure(face, state, Size::Bar, PAD)),
            dock: SessionState::ORDER.map(|state| figure(face, state, Size::Dock, PAD)),
        })
        .collect();
    svg::gallery(&entries)
}

fn fixed(x: f64, y: f64) -> Pair {
    Pair {
        x: format!("{x:.3}"),
        y: format!("{y:.3}"),
    }
}

/// The numbers of a figure.
fn figure(face: &FaceSpec, state: SessionState, size: Size, pad: f64) -> Figure {
    let (bw, bh) = body_size(face, size);
    let inset = BORDER_W / 2.0;
    let flip_h = bh - inset * 2.0;
    let o = outline_of(face, bw - inset * 2.0, flip_h, size);
    let at = |p| {
        let (x, y) = pair(p);
        fixed(x, flip_h - y)
    };
    let e = eye(face, state, size);
    Figure {
        w: format!("{}", bw + pad * 2.0),
        h: format!("{}", bh + pad * 2.0),
        start: at(o.start),
        steps: o
            .segs
            .iter()
            .map(|seg| match *seg {
                Seg::Line { to } => StepDraft::Line { to: at(to) },
                Seg::Cubic { c1, c2, to } => StepDraft::Cubic {
                    c1: at(c1),
                    c2: at(c2),
                    to: at(to),
                },
            })
            .collect(),
        lines: face_details(face, bw, bh, size)
            .into_iter()
            .map(|line| line.into_iter().map(|(x, y)| fixed(x, bh - y)).collect())
            .collect(),
        left_eye: eye_figure(face, &e, size, 0),
        right_eye: eye_figure(face, &e, size, 1),
        glyph_x: format!("{:.3}", bw + 2.0),
    }
}

/// The numbers of an eye.
fn eye_figure(face: &FaceSpec, e: &EyeSpec, size: Size, i: usize) -> EyeFigure {
    let (bw, bh) = body_size(face, size);
    let gap = eye_gap(face, size);
    let left = (bw - (e.w * 2.0 + gap)) / 2.0 + e.dx;
    let bottom = (bh - e.h) / 2.0 + e.dy;
    let x = left + (e.w + gap) * i as f64;
    match eye_shape(face, e.w, e.h, i == 0) {
        Some(polygon) => EyeFigure::Polygon(
            polygon
                .into_iter()
                .map(|(px, py)| fixed(x + px, bh - (bottom + py)))
                .collect(),
        ),
        None => EyeFigure::Rect {
            x: format!("{x:.3}"),
            y: format!("{:.3}", bh - (bottom + e.h)),
            w: format!("{:.3}", e.w),
            h: format!("{:.3}", e.h),
            radius: format!("{:.3}", e.radius),
        },
    }
}

/// How much of the room inside a body panel lines use.
const DETAIL_INSET: f64 = 0.80;

const PROFILE_N: usize = 100;

const MIN_ROOM: f64 = 0.04;

/// A number brought between zero and one.
fn clamp01(v: f64) -> f64 {
    v.clamp(0.0, 1.0)
}

fn clamp_pt((x, y): (f64, f64)) -> (f64, f64) {
    (clamp01(x), clamp01(y))
}

/// A cubic curve: two points that control it, and its end.
type Cubic = [(f64, f64); 3];

/// A smooth curve through points, which meets its mirror image smoothly at both ends.
fn smooth_path(pts: &[(f64, f64)]) -> Vec<Cubic> {
    if pts.len() < 2 {
        return Vec::new();
    }
    let mirror = |(u, v): (f64, f64)| (1.0 - u, v);
    (0..pts.len() - 1)
        .map(|i| {
            let p0 = if i == 0 { mirror(pts[1]) } else { pts[i - 1] };
            let (p1, p2) = (pts[i], pts[i + 1]);
            let p3 = if i + 2 < pts.len() {
                pts[i + 2]
            } else {
                mirror(pts[pts.len() - 2])
            };
            [
                clamp_pt((p1.0 + (p2.0 - p0.0) / 6.0, p1.1 + (p2.1 - p0.1) / 6.0)),
                clamp_pt((p2.0 - (p3.0 - p1.0) / 6.0, p2.1 - (p3.1 - p1.1) / 6.0)),
                clamp_pt(p2),
            ]
        })
        .collect()
}

fn quad(a: (f64, f64), b: (f64, f64), c: (f64, f64), t: f64) -> (f64, f64) {
    let u = 1.0 - t;
    (
        u * u * a.0 + 2.0 * u * t * b.0 + t * t * c.0,
        u * u * a.1 + 2.0 * u * t * b.1 + t * t * c.1,
    )
}

/// How wide a body is at each height, in both places at once.
#[derive(Debug, Clone)]
struct Profile {
    half: Vec<f64>,
}

impl Profile {
    /// The profile of a face.
    fn of(face: &FaceSpec) -> Profile {
        let bar = section(face, Size::Bar);
        let dock = section(face, Size::Dock);
        Profile {
            half: bar.iter().zip(&dock).map(|(a, b)| a.min(*b)).collect(),
        }
    }

    /// The room to either side at a height.
    fn half_at(&self, v: f64) -> f64 {
        let x = clamp01(v) * PROFILE_N as f64;
        let i = (x.floor() as usize).min(PROFILE_N);
        let j = (x.ceil() as usize).min(PROFILE_N);
        self.half[i].min(self.half[j])
    }

    /// The heights between which there is room.
    fn band(&self) -> (f64, f64) {
        let roomy = |h: &f64| *h > MIN_ROOM;
        let lo = self.half.iter().position(roomy).unwrap_or(0);
        let hi = self.half.iter().rposition(roomy).unwrap_or(PROFILE_N);
        let step = 1.0 / PROFILE_N as f64;
        let (a, b) = ((lo as f64 + 1.0) * step, (hi as f64 - 1.0) * step);
        if a >= b {
            let mid = (a + b) / 2.0;
            (mid, mid)
        } else {
            (a, b)
        }
    }
}

/// Half the width of a body at each height.
fn section(face: &FaceSpec, size: Size) -> Vec<f64> {
    let (w, h) = body_size(face, size);
    if w <= 0.0 || h <= 0.0 {
        return vec![0.0; PROFILE_N + 1];
    }
    let poly = flatten(&body_outline(face, size), flatten_steps());
    let c = w / 2.0;
    (0..=PROFILE_N)
        .map(|i| {
            let y = (i as f64 / PROFILE_N as f64) * h;
            let mut xs: Vec<f64> = Vec::new();
            for k in 0..poly.len() {
                let (x1, y1) = poly[k];
                let (x2, y2) = poly[(k + 1) % poly.len()];
                if (y1 > y) != (y2 > y) {
                    xs.push(x1 + (x2 - x1) * (y - y1) / (y2 - y1));
                }
            }
            xs.sort_by(|a, b| a.partial_cmp(b).unwrap_or(std::cmp::Ordering::Equal));
            for pair in xs.chunks(2) {
                let [lo, hi] = pair else { continue };
                if *lo <= c && c <= *hi {
                    return ((c - lo) / w).min((hi - c) / w).max(0.0);
                }
            }
            0.0
        })
        .collect()
}

fn ratio(r: Ratio) -> f64 {
    r.num as f64 / r.den as f64
}

/// A point of a shape, with the height of the line.
fn curve_point(p: CurvePoint, amp: f64) -> (f64, f64) {
    match p {
        CurvePoint::At { t, lift } => (ratio(t), amp * ratio(lift)),
        CurvePoint::OnCircle { step, steps } => {
            let a = std::f64::consts::TAU * f64::from(step) / f64::from(steps);
            (a.cos(), amp * a.sin())
        }
    }
}

/// A panel line in a body.
fn place(
    profile: &Profile,
    base_v: f64,
    off: f64,
    w: f64,
    pts: &[(f64, f64)],
) -> Vec<[f64; 2]> {
    let (lo, hi) = profile.band();
    let dmin = pts.iter().fold(f64::INFINITY, |m, p| m.min(p.1));
    let dmax = pts.iter().fold(f64::NEG_INFINITY, |m, p| m.max(p.1));
    let mut base = base_v;
    if base + dmin < lo {
        base = lo - dmin;
    }
    if base + dmax > hi {
        base = hi - dmax;
    }
    pts.iter()
        .map(|&(t, dv)| {
            let v = (base + dv).clamp(lo, hi);
            let half = profile.half_at(v) * DETAIL_INSET;
            [clamp01(0.5 + (off + t * w) * half), clamp01(v)]
        })
        .collect()
}

/// Moves a panel line sideways, as far as there is room.
fn shift_x(profile: &Profile, points: &mut [[f64; 2]], dx: f64) {
    for p in points.iter_mut() {
        let room = profile.half_at(p[1]) * DETAIL_INSET;
        p[0] = (p[0] + dx * room * 2.0).clamp(0.5 - room, 0.5 + room);
    }
}

/// An eye between two lids.
fn eye_polygon(inner: f64, outer: f64, upper: f64, lower: f64) -> Vec<[f64; 2]> {
    const STEPS: usize = 7;
    let (a, b) = ((0.0, inner), (1.0, outer));
    let top = inner.max(outer) + upper;
    let bot = inner.min(outer) - lower;
    let t = |i: usize| i as f64 / (STEPS - 1) as f64;
    let upper_lid = (0..STEPS).map(|i| quad(a, (0.5, top), b, t(i)));
    let lower_lid = (1..STEPS - 1).map(|i| quad(b, (0.5, bot), a, t(i)));
    normalize_v(upper_lid.chain(lower_lid).collect())
}

/// An eye of four corners.
fn wedge_polygon(inner_lo: f64, inner_hi: f64, outer_lo: f64, outer_hi: f64) -> Vec<[f64; 2]> {
    normalize_v(vec![
        (0.0, inner_lo),
        (0.0, inner_hi),
        (1.0, outer_hi),
        (1.0, outer_lo),
    ])
}

/// A round eye with one corner.
fn horn_polygon(up: bool) -> Vec<[f64; 2]> {
    const NOTCH_LO: f64 = std::f64::consts::TAU * 20.0 / 360.0;
    const NOTCH_HI: f64 = std::f64::consts::TAU * 70.0 / 360.0;
    const STEPS: usize = 14;
    const REACH: f64 = 1.5;

    let diag = std::f64::consts::FRAC_1_SQRT_2 * 0.5 * REACH;
    let mut pts = vec![(0.5 + diag, 0.5 + diag)];
    let sweep = std::f64::consts::TAU - (NOTCH_HI - NOTCH_LO);
    for i in 0..STEPS {
        let a = NOTCH_HI + sweep * i as f64 / (STEPS - 1) as f64;
        pts.push((0.5 + 0.5 * a.cos(), 0.5 + 0.5 * a.sin()));
    }
    if !up {
        for p in &mut pts {
            p.1 = 1.0 - p.1;
        }
    }
    let (ulo, uspan) = span(pts.iter().map(|p| p.0));
    let (vlo, vspan) = span(pts.iter().map(|p| p.1));
    pts.into_iter()
        .map(|(u, v)| [clamp01((u - ulo) / uspan), clamp01((v - vlo) / vspan)])
        .collect()
}

fn normalize_v(pts: Vec<(f64, f64)>) -> Vec<[f64; 2]> {
    let (lo, height) = span(pts.iter().map(|p| p.1));
    pts.into_iter()
        .map(|(u, v)| [clamp01(u), clamp01((v - lo) / height)])
        .collect()
}

fn span(vals: impl Iterator<Item = f64> + Clone) -> (f64, f64) {
    let lo = vals.clone().fold(f64::INFINITY, f64::min);
    let hi = vals.fold(f64::NEG_INFINITY, f64::max);
    (lo, (hi - lo).max(1e-6))
}

const EYE_FIT_SHRINK: f64 = 0.93;

const DOCK_W_RATIO: f64 = 5.0 / 3.0;

struct Adjusted {
    dx: f64,
    dy: f64,
    scale: f64,
    gap: f64,
}

fn adjusted(t: Tweak) -> Adjusted {
    Adjusted {
        dx: float(t.dx),
        dy: float(t.dy),
        scale: float(t.scale),
        gap: float(t.gap),
    }
}

/// A figure put together.
#[derive(Debug, Clone)]
struct Composed {
    spec: FaceSpec,
    toml: String,
    problems: Vec<Problem>,
    warning: Option<Problem>,
    eye_fit: f64,
}

fn thousandths(n: u32) -> f64 {
    f64::from(n) / 1000.0
}

fn text(v: f64) -> String {
    let v = if v == 0.0 { 0.0 } else { v };
    emit::num(num(v), &format!("{v:.4}"))
}

fn text_pair(x: f64, y: f64) -> Pair {
    Pair {
        x: text(x),
        y: text(y),
    }
}

fn text_points(points: Vec<[f64; 2]>) -> Vec<Pair> {
    points.into_iter().map(|p| text_pair(p[0], p[1])).collect()
}

fn ratio_text(n: u32) -> String {
    text(thousandths(n))
}

/// A smooth curve through points.
fn smooth(points: &Vec<(u32, u32)>) -> Vec<StepDraft> {
    let points: Vec<(f64, f64)> = points
        .iter()
        .map(|&(x, y)| (thousandths(x), thousandths(y)))
        .collect();
    smooth_path(&points)
        .into_iter()
        .map(|[c1, c2, to]| StepDraft::Cubic {
            c1: text_pair(c1.0, c1.1),
            c2: text_pair(c2.0, c2.1),
            to: text_pair(to.0, to.1),
        })
        .collect()
}

/// The numbers of a figure whose eyes are scaled.
fn measures(cfg: &CharacterConfig, eye_fit: f64) -> Measures {
    let fp = parts::face(cfg.part("face"));
    let ep = parts::eyes(cfg.part("eyes"));
    let ft = adjusted(cfg.tweak("face"));
    let et = adjusted(cfg.tweak("eyes"));

    let bar_w = (thousandths(fp.w) * ft.scale).clamp(12.0, 30.0);
    let dock_w = (bar_w * DOCK_W_RATIO).round();

    let scale = et.scale * eye_fit;
    let (ew, eh) = (thousandths(ep.w) * scale, thousandths(ep.h) * scale);
    let gap = thousandths(ep.gap) * et.gap * scale;
    let (polygon, radius) = match ep.form {
        EyeForm::Rounded { radius } => (None, thousandths(radius) * ew.min(eh)),
        EyeForm::Lids {
            inner,
            outer,
            upper,
            lower,
        } => {
            let [i, o, u, l] = [inner, outer, upper, lower].map(thousandths);
            (Some(eye_polygon(i, o, u, l)), 0.0)
        }
        EyeForm::Wedge {
            inner_lo,
            inner_hi,
            outer_lo,
            outer_hi,
        } => {
            let [a, b, c, d] = [inner_lo, inner_hi, outer_lo, outer_hi].map(thousandths);
            (Some(wedge_polygon(a, b, c, d)), 0.0)
        }
        EyeForm::Horn { up } => (Some(horn_polygon(up)), 0.0),
    };
    let ratio = thousandths(DOCK_EYE_RATIO);
    Measures {
        bar: text_pair(bar_w, thousandths(BAR_H)),
        dock: text_pair(dock_w, thousandths(DOCK_H)),
        eye_polygon: polygon.map(text_points),
        eye_v: text((thousandths(fp.eye_v) + et.dy).clamp(0.2, 0.8)),
        eye_gap: text_pair(gap, gap * ratio),
        eye_bar: text_pair(ew, eh),
        eye_dock: text_pair(ew * ratio, eh * ratio),
        eye_radius: text(radius),
    }
}

fn built(
    cfg: &CharacterConfig,
    eye_fit: f64,
    details: Vec<DetailDraft>,
) -> (String, FaceSpec, Vec<Problem>) {
    let draft = draft_of(cfg, measures(cfg, eye_fit), details, None, &ratio_text, &smooth);
    let toml = to_toml(&draft);
    let problems = match parse(&toml, Source::Builtin) {
        Ok(spec) => return (toml, spec, Vec::new()),
        Err(problems) => problems,
    };
    match parse(&to_toml(&safe_draft(draft)), Source::Builtin) {
        Ok(spec) => (toml, spec, problems),
        Err(_) => unreachable!("a figure with a safe id and label cannot be read"),
    }
}

/// Where a line goes.
fn line(plan: &LinePlan, profile: &Profile) -> DetailDraft {
    let part = plan.part;
    let t = adjusted(plan.tweak);
    let amp = f64::from(part.amp) / 1000.0;
    let raw: Vec<(f64, f64)> = curve_points(part.curve)
        .into_iter()
        .map(|p| curve_point(p, amp))
        .collect();
    let v = clamp01(thousandths(part.v) + t.dy);
    let w = (thousandths(part.w) * t.scale).clamp(0.0, 1.0);
    let mut points = place(profile, v, thousandths(part.off), w, &raw);
    if t.dx != 0.0 {
        shift_x(profile, &mut points, t.dx);
    }
    if plan.flipped {
        for p in &mut points {
            p[0] = 1.0 - p[0];
        }
    }
    DetailDraft {
        name: plan.name.clone(),
        on_bar: plan.on_bar,
        points: text_points(points),
    }
}

fn eyes_do_not_fit(face: &FaceSpec) -> bool {
    check(face).is_err_and(|problems| eyes_too_big(&problems))
}

fn shrunk(steps: usize) -> f64 {
    (0..steps).fold(1.0, |fit, _| fit * EYE_FIT_SHRINK)
}

/// Puts a figure together. The eyes shrink until they fit.
fn compose(cfg: &CharacterConfig) -> Composed {
    let steps = fit_eyes(|steps| eyes_do_not_fit(&built(cfg, shrunk(steps), Vec::new()).1));
    let eye_fit = shrunk(steps);
    let bare = built(cfg, eye_fit, Vec::new()).1;
    let profile = Profile::of(&bare);
    let details = line_details(cfg)
        .iter()
        .map(|plan| line(plan, &profile))
        .collect();
    let (toml, spec, problems) = built(cfg, eye_fit, details);
    let of_shape = check(&spec).err().unwrap_or_default();
    Composed {
        warning: notch_width_warning(&spec),
        problems: problems_of(problems, of_shape),
        spec,
        toml,
        eye_fit,
    }
}

fn valid(c: &CharacterConfig) -> bool {
    compose(c).problems.is_empty()
}

fn with(pairs: &[(&str, &str)]) -> CharacterConfig {
    let mut cfg = CharacterConfig::default();
    for (k, v) in pairs {
        cfg.set_part(k, v);
    }
    cfg
}

#[test]
fn every_part_composes_into_a_valid_face() {
    let mut cases: Vec<(String, CharacterConfig)> = Vec::new();
    for p in faces() {
        cases.push((format!("face={}", p.id), with(&[("face", p.id)])));
    }
    for p in all_eyes() {
        cases.push((format!("eyes={}", p.id), with(&[("eyes", p.id)])));
    }
    for cat in line_categories() {
        for p in &cat.variants {
            cases.push((format!("{}={}", cat.id, p.id), with(&[(cat.id, p.id)])));
        }
    }
    for (what, cfg) in cases {
        let c = compose(&cfg);
        assert!(
            c.problems.is_empty(),
            "{what} が検証に落ちた: {:#?}\n--- TOML ---\n{}",
            c.problems,
            c.toml
        );
    }
}

#[test]
fn every_outline_and_eye_pairing_is_valid() {
    for f in faces() {
        for e in all_eyes() {
            let cfg = with(&[("face", f.id), ("eyes", e.id)]);
            let c = compose(&cfg);
            assert!(
                c.problems.is_empty(),
                "顔 {} × 目 {} が落ちた: {:#?}",
                f.id,
                e.id,
                c.problems
            );
        }
    }
}

#[test]
fn every_line_part_fits_on_every_outline() {
    for f in faces() {
        for cat in line_categories() {
            for p in &cat.variants {
                let cfg = with(&[("face", f.id), (cat.id, p.id)]);
                let c = compose(&cfg);
                assert!(
                    c.problems.is_empty(),
                    "顔 {} に {}={} を載せたら落ちた: {:#?}",
                    f.id,
                    cat.id,
                    p.id,
                    c.problems
                );
            }
        }
    }
}

#[test]
fn the_builder_can_express_non_human_faces() {
    let beast = with(&[
        ("face", "sideburn"),
        ("eyes", "horn"),
        ("hair", "straight"),
        ("nose", "none"),
        ("mouth", "none"),
        ("side", "ear-panel"),
    ]);
    let machine = with(&[
        ("face", "helmetish"),
        ("eyes", "wedge"),
        ("hair", "brow"),
        ("nose", "stroke"),
        ("mouth", "plate"),
        ("side", "cheek-seam"),
    ]);

    for (what, cfg) in [("けもの系", beast), ("機械系", machine)] {
        let c = compose(&cfg);
        assert!(c.problems.is_empty(), "{what} が落ちた: {:#?}", c.problems);

        let names: Vec<&str> = c.spec.details.iter().map(|d| d.name.as_str()).collect();
        assert!(
            names.contains(&"side-r") && names.contains(&"side-l"),
            "{what} に左右の側面パネルが無い: {names:?}"
        );

        let get = |n: &str| {
            c.spec
                .details
                .iter()
                .find(|d| d.name == n)
                .unwrap_or_else(|| panic!("{n} が無い"))
                .points
                .clone()
        };
        let (r, l) = (get("side-r"), get("side-l"));
        assert_eq!(r.len(), l.len(), "{what} の左右で点数が違う");
        for (a, b) in r.iter().zip(&l) {
            assert!(
                (float(a[0]) - (1.0 - float(b[0]))).abs() < 1e-9
                    && (float(a[1]) - float(b[1])).abs() < 1e-9,
                "{what} の側面パネルが鏡像でない: {a:?} / {b:?}"
            );
        }
    }

    let poly = compose(&with(&[("eyes", "wedge")]))
        .spec
        .eyes
        .polygon
        .clone()
        .expect("くさび目が多角形になっていない");
    assert_eq!(poly.len(), 4, "くさびが 4 点でない: {poly:?}");
}

#[test]
fn the_generated_toml_parses_back_into_the_same_face() {
    let c = compose(&CharacterConfig::default());
    let again = parse(&c.toml, Source::Builtin).expect("読み直せない");
    assert_eq!(again, c.spec, "TOML と描いている顔が食い違う");
}

#[test]
fn oversized_eyes_are_shrunk_until_they_fit() {
    let mut cfg = with(&[("face", "slim"), ("eyes", "bead-big")]);
    cfg.tweaks.push(("eyes".into(), Tweak {
            scale: num(2.0),
            ..Tweak::default()
        }));
    let c = compose(&cfg);
    assert!(c.eye_fit < 1.0, "縮んでいない");
    assert!(
        c.problems.is_empty(),
        "縮めても収まっていない: {:#?}",
        c.problems
    );
}

#[test]
fn random_characters_are_always_valid() {
    let base = CharacterConfig::default();
    for seed in 0..40u64 {
        let cfg = random(seed, &base, valid);
        let c = compose(&cfg);
        assert!(
            c.problems.is_empty(),
            "seed {seed} が落ちた: {:#?}\n{:?}",
            c.problems,
            cfg.parts
        );
        assert_eq!(cfg.id, base.id);
        assert_eq!(cfg.name, base.name);
    }
    assert_ne!(random(1, &base, valid).parts, random(2, &base, valid).parts);
    assert_eq!(random(7, &base, valid).parts, random(7, &base, valid).parts);
}

#[test]
fn recolouring_the_eyes_keeps_the_states_readable() {
    let cfg = CharacterConfig {
        eye_color: "white".into(),
        ..CharacterConfig::default()
    };
    let c = compose(&cfg);
    assert!(c.problems.is_empty(), "{:#?}", c.problems);
    assert!(
        eye(&c.spec, SessionState::Working, Size::Bar).blink,
        "瞬きが消えた"
    );
    assert_eq!(
        eye(&c.spec, SessionState::WaitAgent, Size::Bar).dx,
        1.5,
        "横目が消えた"
    );
    assert_eq!(
        eye(&c.spec, SessionState::Done, Size::Bar).color,
        Paint::Default(EyeColor::White.rgb()),
        "色が反映されていない"
    );
    assert_eq!(
        eye(&c.spec, SessionState::Error, Size::Bar).color,
        Paint::Default(EyeColor::EyeError.rgb())
    );
}

#[test]
fn a_bad_id_is_reported_without_killing_the_preview() {
    let cfg = CharacterConfig {
        id: "Bad Id".into(),
        ..CharacterConfig::default()
    };
    let c = compose(&cfg);
    assert!(
        c.problems.iter().any(|p| p.code == ProblemCode::Id),
        "{:#?}",
        c.problems
    );
    assert!(body_size(&c.spec, Size::Dock).0 > 0.0);
    assert!(!is_saveable_id(&cfg.id));
    assert!(is_saveable_id("my-face"));
}

#[test]
fn tweaks_are_clamped_into_a_sane_range() {
    let mut cfg = CharacterConfig::default();
    cfg.tweaks.push(("mouth".into(), Tweak {
            dx: num(99.0),
            dy: num(-99.0),
            scale: num(1e9),
            gap: num(f64::NAN),
            bar: Some(true),
        }));
    let t = cfg.tweak("mouth");
    assert_eq!(float(t.dx), 0.25);
    assert_eq!(float(t.dy), -0.25);
    assert_eq!(float(t.scale), 2.0);
    assert_eq!(float(t.gap), 1.0);
    let c = compose(&cfg);
    assert!(c.problems.is_empty(), "{:#?}", c.problems);
}

#[test]
fn bar_lines_are_always_a_subset_of_dock_lines() {
    let base = CharacterConfig::default();
    for seed in 0..20u64 {
        let mut cfg = random(seed, &base, valid);
        for cat in line_categories() {
            cfg.tweaks.push((cat.id.to_string(), Tweak {
                    bar: Some(true),
                    ..Tweak::default()
                }));
        }
        let c = compose(&cfg);
        let bar = face_details(&c.spec, 1.0, 1.0, Size::Bar).len();
        let dock = face_details(&c.spec, 1.0, 1.0, Size::Dock).len();
        assert!(bar <= dock, "seed {seed}: bar {bar} > dock {dock}");
        assert!(c.problems.is_empty(), "seed {seed}: {:#?}", c.problems);
    }
}

#[test]
fn every_part_renders_to_sane_svg() {
    for p in faces() {
        let c = compose(&with(&[("face", p.id)]));
        for state in SessionState::ORDER {
            for size in [Size::Bar, Size::Dock] {
                let svg = render(&c.spec, state, size);
                assert!(svg.starts_with("<svg "), "{}", p.id);
                assert!(!svg.contains("NaN"), "{} に NaN", p.id);
            }
        }
    }
}

fn shape_of(curve: Curve, amp: f64) -> Vec<(f64, f64)> {
    let points = curve_points(curve).into_iter();
    points.map(|p| curve_point(p, amp)).collect()
}

#[test]
fn every_category_offers_enough_variants() {
    assert!(faces().len() >= 30, "顔のライン: {}", faces().len());
    assert!(all_eyes().len() >= 30, "目: {}", all_eyes().len());
    for c in line_categories() {
        let core = matches!(c.id, "hair" | "nose" | "mouth");
        let min = if core { 30 } else { 8 };
        assert!(
            c.variants.len() >= min,
            "{} のバリエーション数 {} が {min} 未満",
            c.id,
            c.variants.len()
        );
    }
}

#[test]
fn parts_whose_shape_is_vertical_do_not_collapse_at_real_size() {
    let mut bad: Vec<String> = Vec::new();
    for c in line_categories() {
        let size = if c.on_bar { Size::Bar } else { Size::Dock };
        let body_h = thousandths(if c.on_bar { BAR_H } else { DOCK_H });
        let min = svg::detail_line_w(size).parse::<f64>().unwrap() * 2.0;

        for p in &c.variants {
            let vertical = matches!(
                p.curve,
                Curve::Teeth(_)
                    | Curve::Bracket { .. }
                    | Curve::Plate { .. }
                    | Curve::Ring
                    | Curve::Stroke
            );
            if !vertical {
                continue;
            }
            let pts = shape_of(p.curve, f64::from(p.amp) / 1000.0);
            let lo = pts.iter().fold(f64::INFINITY, |m, q| m.min(q.1));
            let hi = pts.iter().fold(f64::NEG_INFINITY, |m, q| m.max(q.1));
            let tall = (hi - lo) * body_h;
            if tall < min {
                bad.push(format!(
                    "{}/{} が {tall:.2}pt（最低 {min}pt / {size:?}）",
                    c.id, p.id
                ));
            }
        }
    }
    assert!(
        bad.is_empty(),
        "実寸で潰れて形が消えるパーツがある:\n  {}",
        bad.join("\n  ")
    );
}

#[test]
fn paired_parts_are_pushed_to_the_side() {
    for c in line_categories() {
        for p in &c.variants {
            if !p.mirror {
                continue;
            }
            assert!(p.off > 400, "{}/{} が端に寄っていない", c.id, p.id);
            assert!(
                p.off + p.w <= 1000,
                "{}/{} が外に出すぎ（off {} + w {}）",
                c.id,
                p.id,
                p.off,
                p.w
            );
        }
    }
}

#[test]
fn part_ids_are_unique_within_each_category() {
    let uniq = |ids: Vec<&str>, what: &str| {
        let set: BTreeSet<&str> = ids.iter().copied().collect();
        assert_eq!(set.len(), ids.len(), "{what} の id が重複している");
    };
    uniq(faces().iter().map(|p| p.id).collect(), "faces");
    uniq(all_eyes().iter().map(|p| p.id).collect(), "eyes");
    for c in line_categories() {
        uniq(c.variants.iter().map(|p| p.id).collect(), c.id);
    }
    uniq(line_categories().iter().map(|c| c.id).collect(), "categories");
}

#[test]
fn category_ids_are_safe_as_detail_names() {
    for c in line_categories() {
        assert!(
            is_valid_id(c.id),
            "カテゴリ id {:?} が使えない",
            c.id
        );
    }
}

#[test]
fn unknown_ids_fall_back_to_the_default() {
    assert_eq!(parts::face("no-such-part").id, faces()[0].id);
    assert_eq!(eyes("no-such-part").id, all_eyes()[0].id);
    let hair = category("hair").unwrap();
    assert_eq!(line_part(&hair, "no-such-part").id, "none");
    assert!(category("no-such-category").is_none());
}

#[test]
fn silhouette_points_start_and_end_at_the_centre() {
    for p in faces() {
        let Form::Silhouette(s) = p.form else {
            continue;
        };
        let pts: Vec<(f64, f64)> = silhouette_points(&s)
            .into_iter()
            .map(|(x, y)| (thousandths(x), thousandths(y)))
            .collect();
        assert!((pts[0].0 - 0.5).abs() < 1e-9, "{} のあごが中央にない", p.id);
        assert_eq!(*pts.last().unwrap(), (0.5, 1.0), "{} の頭頂", p.id);
        for (x, y) in pts {
            assert!(
                (0.0..=1.0).contains(&x) && (0.0..=1.0).contains(&y),
                "{} が箱の外",
                p.id
            );
        }
    }
}

#[test]
fn body_widths_stay_reasonable() {
    for p in faces() {
        assert!((16_000..=28_000).contains(&p.w), "{} の幅 {}", p.id, p.w);
        assert!((thousandths(p.w) * DOCK_W_RATIO).round() > thousandths(p.w), "{} の dock 幅", p.id);
    }
}

/// A face with round eyes, as the program's own have them.
fn plain_face(id: &str, bar_w: f64, bar_h: f64, dock_w: f64, dock_h: f64, outline: &str) -> String {
    format!(
        r#"
id = "{id}"
label = "{id}"
[size]
bar  = {{ w = {bar_w}, h = {bar_h} }}
dock = {{ w = {dock_w}, h = {dock_h} }}
[outline]
{outline}
[eyes]
shape = "rounded"
gap  = {{ bar = 3.0, dock = 5.0 }}
size = {{ bar = [3.0, 4.0], dock = [4.0, 6.0] }}
"#
    )
}

fn builtin_text(id: &str) -> String {
    let corners = "kind = \"corners\"\ncorners = ";
    match id {
        "egg" => {
            let c = format!("{corners}[[0.50,0.58],[0.50,0.58],[0.48,0.42],[0.48,0.42]]");
            plain_face(id, 22.0, 20.0, 36.0, 34.0, &c)
        }
        "round" => {
            let c = format!("{corners}[[0.5,0.5],[0.5,0.5],[0.5,0.5],[0.5,0.5]]");
            plain_face(id, 20.0, 20.0, 32.0, 32.0, &c)
        }
        "squircle" => {
            let c = "kind = \"corners\"\ncorners_pt = { bar = 7.0, dock = 10.0 }";
            plain_face(id, 22.0, 20.0, 36.0, 34.0, c)
        }
        _ => plain_face(id, 28.0, 20.0, 44.0, 34.0, "kind = \"capsule\""),
    }
}

fn builtin() -> Registry {
    let read = builtin_ids()
        .into_iter()
        .map(|id| ReadFace {
            label: id.to_string(),
            face: parse(&builtin_text(id), Source::Builtin),
        })
        .collect();
    Registry::builtin(read)
}

fn probe() -> FaceSpec {
    parse(
        r#"
id = "probe"
label = "検査用"
[size]
bar  = { w = 22, h = 20 }
dock = { w = 36, h = 34 }
[outline]
kind = "corners"
corners = [[0.50,0.58],[0.50,0.58],[0.48,0.42],[0.48,0.42]]
[eyes]
shape = "rounded"
gap  = { bar = 3.0, dock = 5.0 }
size = { bar = [3.0, 4.0], dock = [4.0, 6.0] }
"#,
        Source::Builtin,
    )
    .unwrap()
}

#[test]
fn smooth_path_keeps_every_control_point_inside_the_box() {
    let pts = vec![
        (0.5, 0.0),
        (1.0, 0.05),
        (1.0, 0.5),
        (0.95, 0.98),
        (0.5, 1.0),
    ];
    for seg in smooth_path(&pts) {
        for (x, y) in seg {
            assert!((0.0..=1.0).contains(&x), "x が箱の外: {x}");
            assert!((0.0..=1.0).contains(&y), "y が箱の外: {y}");
        }
    }
}

#[test]
fn the_seam_tangents_are_horizontal() {
    let pts = vec![(0.5, 0.0), (0.9, 0.3), (0.85, 0.8), (0.5, 1.0)];
    let segs = smooth_path(&pts);
    let [_, c2, to] = *segs.last().unwrap();
    assert!((to.0 - 0.5).abs() < 1e-9, "頭頂が中央にない");
    assert!(
        (c2.1 - to.1).abs() < 1e-9,
        "頭頂へ水平に入っていない（c2 = {c2:?}）"
    );
}

#[test]
fn half_width_follows_the_silhouette() {
    let p = Profile::of(&probe());
    let mid = p.half_at(0.5);
    assert!(mid > 0.45, "腹が細すぎる: {mid}");
    assert!(p.half_at(0.02) < mid, "下端が絞られていない");
    assert!(p.half_at(0.98) < mid, "上端が絞られていない");
    let (lo, hi) = p.band();
    assert!(lo > 0.0 && hi < 1.0 && lo < hi, "帯が変: {lo}..{hi}");
}

#[test]
fn placed_points_stay_inside_every_builtin_outline() {
    for face in builtin().all() {
        let profile = Profile::of(face);
        for v in [0.28, 0.42, 0.56, 0.74] {
            let pts = place(&profile, v, 0.0, 1.0, &shape_of(Curve::Arc, 0.05));
            for size in [Size::Bar, Size::Dock] {
                let (w, h) = body_size(face, size);
                let poly = flatten(&body_outline(face, size), FLATTEN_STEPS);
                for [u, vv] in &pts {
                    assert!(
                        contains(&poly, (u * w, vv * h)),
                        "{} の v={v} の線が {:?} ではみ出す（{u}, {vv}）",
                        face.id,
                        size
                    );
                }
            }
        }
    }
}

#[test]
fn eye_polygons_fill_their_bounding_box() {
    for (inner, outer) in [(0.5, 0.5), (0.35, 0.72), (0.72, 0.35)] {
        let p = eye_polygon(inner, outer, 0.45, 0.45);
        assert!(p.len() >= 3, "点が足りない");
        let lo = p.iter().fold(f64::INFINITY, |m, q| m.min(q[1]));
        let hi = p.iter().fold(f64::NEG_INFINITY, |m, q| m.max(q[1]));
        assert!(
            (lo - 0.0).abs() < 1e-9 && (hi - 1.0).abs() < 1e-9,
            "正規化されていない"
        );
        for q in &p {
            assert!((0.0..=1.0).contains(&q[0]) && (0.0..=1.0).contains(&q[1]));
        }
    }
}

#[test]
fn tilt_actually_changes_the_shape() {
    let up = eye_polygon(0.35, 0.72, 0.4, 0.4);
    let down = eye_polygon(0.72, 0.35, 0.4, 0.4);
    assert_ne!(up, down);
}

#[test]
fn a_wedge_eye_is_a_quadrilateral() {
    let p = wedge_polygon(0.00, 0.62, 0.38, 1.00);
    assert_eq!(p.len(), 4, "くさびが 4 点でない: {p:?}");
    assert!(p[1][1] < p[2][1], "こめかみ側が持ち上がっていない");
}

#[test]
fn a_horned_eye_has_exactly_one_corner() {
    let p = horn_polygon(true);
    let corner = |q: &[f64; 2]| (q[0] - 1.0).abs() < 1e-9 && (q[1] - 1.0).abs() < 1e-9;
    assert_eq!(p.iter().filter(|q| corner(q)).count(), 1, "角が 1 つでない");
    for q in p.iter().filter(|q| q[0] < 0.4) {
        assert!(
            q[1] > 0.02 && q[1] < 0.98,
            "鼻側が尖っている（{q:?}）— 木の葉になる"
        );
    }
    assert_ne!(p, horn_polygon(false));
}

#[test]
fn the_horn_actually_sticks_out() {
    let p = horn_polygon(true);
    let c = (0.5, 0.5);
    let d = |q: &[f64; 2]| ((q[0] - c.0).powi(2) + (q[1] - c.1).powi(2)).sqrt();
    let corner = d(&[1.0, 1.0]);
    let body = p
        .iter()
        .filter(|q| !(q[0] > 0.99 && q[1] > 0.99))
        .fold(0.0_f64, |m, q| m.max(d(q)));
    assert!(
        corner / body > 1.3,
        "角の張り出しが足りない（角 {corner:.3} / 本体 {body:.3}）— 丸目と区別がつかない"
    );
}

#[test]
fn every_curve_yields_at_least_two_points() {
    for c in [
        Curve::Arc,
        Curve::Wave(2),
        Curve::Wave(5),
        Curve::Sweep(1),
        Curve::Sweep(-1),
        Curve::Vee,
        Curve::Hook(1),
        Curve::Hook(-1),
        Curve::Ring,
        Curve::Dot,
        Curve::Plate { taper: 600 },
        Curve::Plate { taper: 1000 },
        Curve::Bracket { down: true },
        Curve::Bracket { down: false },
        Curve::Stroke,
        Curve::Teeth(1),
        Curve::Teeth(5),
    ] {
        assert!(curve_points(c).len() >= 2, "{c:?} が短すぎる");
    }
    assert!(curve_points(Curve::Nothing).is_empty());
}

#[test]
fn numbers_always_carry_a_decimal_point() {
    assert_eq!(text(22.0), "22.0");
    assert_eq!(text(0.5), "0.5");
    assert_eq!(text(0.1234), "0.1234");
    assert_eq!(text(-0.0), "0.0");
    assert_eq!(text(f64::NAN), "0.0");
}

#[test]
fn strings_are_escaped() {
    assert_eq!(quote("a\"b\\c"), "\"a\\\"b\\\\c\"");
    assert_eq!(quote("わたし"), "\"わたし\"");
}

#[test]
fn the_embedded_config_round_trips() {
    let d = Draft {
        id: "x".into(),
        label: "エックス".into(),
        author: None,
        bar: text_pair(22.0, 20.0),
        dock: text_pair(37.0, 34.0),
        outline: OutlineDraft::Capsule,
        eye_polygon: None,
        eye_v: text(0.5),
        eye_gap: text_pair(3.0, 4.7),
        eye_bar: text_pair(3.0, 3.4),
        eye_dock: text_pair(4.7, 5.3),
        eye_radius: text(1.5),
        eye_color: None,
        details: Vec::new(),
        notes: vec!["顔=capsule".into()],
        config_json: Some(r#"{"version":1,"id":"x"}"#.into()),
    };
    let text = to_toml(&d);
    assert_eq!(extract_config(&text).as_deref(), Some(r#"{"version":1,"id":"x"}"#));
    assert!(extract_config("id = \"a\"\n").is_none());
}

#[test]
fn a_generator_gives_known_numbers() {
    let mut rng = Rng { state: 0 };
    assert_eq!(rng.next(), 0xe220_a839_7b1d_cdaf);
    assert_eq!(rng.next(), 0x6e78_9e6a_a1b9_65f4);
    assert_eq!(rng.next(), 0x06c4_5d18_8009_454f);
    let mut rng = Rng { state: 0 };
    assert_eq!(rng.pick(30), (0xe220_a839_7b1d_cdaf_u64 % 30) as usize);
}

#[test]
fn chance_gives_up_after_a_while() {
    let base = CharacterConfig::default();
    let last = random(3, &base, |_| false);
    let first = random(3, &base, |_| true);
    assert_ne!(last.parts, first.parts);
    assert_eq!(last.name, base.name);
    assert!(last.tweaks.is_empty());
}

#[test]
fn the_first_fitting_step_is_taken() {
    assert_eq!(fit_eyes(|_| false), 0);
    assert_eq!(fit_eyes(|steps| steps < 4), 4);
    assert_eq!(fit_eyes(|_| true), EYE_FIT_STEPS);
}

#[test]
fn a_chosen_part_replaces_the_last_choice() {
    let mut cfg = CharacterConfig::default();
    cfg.set_part("face", "slim");
    assert_eq!(cfg.part("face"), "slim");
    assert_eq!(cfg.part("eyes"), "bead");
    assert_eq!(cfg.part("nothing"), "");
    assert_eq!(cfg.parts.len(), 5);
    cfg.set_part("side", "ear-panel");
    assert_eq!(cfg.parts.len(), 6);
}

#[test]
fn a_category_without_a_choice_has_its_default() {
    let cfg = CharacterConfig {
        parts: Vec::new(),
        ..CharacterConfig::default()
    };
    assert_eq!(cfg.part("face"), "egg");
    assert_eq!(cfg.part("eyes"), "bead");
    for line in ["hair", "nose", "mouth", "side"] {
        assert_eq!(cfg.part(line), "none");
    }
    assert_eq!(cfg.part("nothing"), "");
    assert_eq!(cfg.part(""), "");
}

#[test]
fn a_draft_that_cannot_be_read_gets_a_safe_name() {
    let cfg = CharacterConfig {
        id: "Bad Id".into(),
        name: "  ".into(),
        ..CharacterConfig::default()
    };
    let draft = draft_of(&cfg, measures(&cfg, 1.0), Vec::new(), None, &ratio_text, &smooth);
    let safe = safe_draft(draft.clone());
    assert_eq!(safe.id, "draft");
    assert_eq!(safe.label, "（名前なし）");
    assert_eq!(safe.bar, draft.bar);
}

#[test]
fn problems_of_the_text_hide_those_of_the_shape() {
    let p = |code| Problem::new(code, "x".to_string());
    let text = vec![p(ProblemCode::Id)];
    let shape = vec![p(ProblemCode::Outline)];
    assert_eq!(problems_of(text.clone(), shape.clone()), text);
    assert_eq!(problems_of(Vec::new(), shape.clone()), shape);
}

#[test]
fn notes_name_the_parts() {
    let notes = notes_of(&CharacterConfig::default());
    assert_eq!(notes.len(), 2);
    assert!(notes[0].starts_with("顔のライン: "), "{notes:?}");
    assert!(notes[1].contains("髪: "), "{notes:?}");
}

#[test]
fn an_unknown_eye_colour_is_not_written() {
    let color = |name: &str| {
        let cfg = CharacterConfig {
            eye_color: name.into(),
            ..CharacterConfig::default()
        };
        draft_of(&cfg, measures(&cfg, 1.0), Vec::new(), None, &ratio_text, &smooth).eye_color
    };
    assert_eq!(color("eye"), None);
    assert_eq!(color(""), None);
    assert_eq!(color("purple"), None);
    assert_eq!(color("eye_closed").as_deref(), Some("eye_closed"));
}

#[test]
fn control_characters_are_escaped() {
    assert_eq!(quote("a\nb\tc\r\u{1}\u{7f}"), "\"a\\nb\\tc\\r\\u0001\\u007F\"");
    let text = format!("x = {}", quote("\u{8}\u{c}\"\\\u{1b}"));
    let table: Table = toml::from_str(&text).unwrap();
    assert_eq!(table["x"].as_str(), Some("\u{8}\u{c}\"\\\u{1b}"));
}

#[test]
fn numbers_lose_only_needless_zeros() {
    assert_eq!(text(1.5), "1.5");
    assert_eq!(text(-2.25), "-2.25");
    assert_eq!(text(100.0), "100.0");
    assert_eq!(text(f64::INFINITY), "0.0");
}

#[test]
fn a_configuration_with_spaces_around_it_is_read_back_without_them() {
    let cfg = CharacterConfig::default();
    let draft = draft_of(&cfg, measures(&cfg, 1.0), Vec::new(), Some("{\"a\":1}".into()), &ratio_text, &smooth);
    assert_eq!(extract_config(&to_toml(&draft)).as_deref(), Some("{\"a\":1}"));
}

#[test]
fn shapes_are_exact() {
    assert_eq!(
        shape_of(Curve::Hook(-1), 1.0),
        vec![(-0.35, 1.0), (-0.35, 0.0), (1.0, 0.18)]
    );
    let arc = shape_of(Curve::Arc, 0.9);
    assert_eq!(arc.len(), 7);
    assert_eq!(arc[0], (-1.0, 0.0));
    assert_eq!(arc[3], (0.0, 0.9));
    assert_eq!(shape_of(Curve::Teeth(2), 1.0).len(), 8);
    let ring = shape_of(Curve::Ring, 1.0);
    assert_eq!(ring.first(), ring.last());
    assert_eq!(
        curve_points(Curve::Stroke)[0],
        CurvePoint::At {
            t: Ratio { num: 0, den: 1 },
            lift: Ratio { num: 1, den: 1 }
        }
    );
}

#[test]
fn only_problems_of_the_eyes_shrink_them() {
    let p = |code| Problem::new(code, "x".to_string());
    assert!(!eyes_too_big(&Vec::new()));
    assert!(!eyes_too_big(&vec![p(ProblemCode::Id), p(ProblemCode::Outline)]));
    assert!(eyes_too_big(&vec![p(ProblemCode::Id), p(ProblemCode::EyesTooWide)]));
    assert!(eyes_too_big(&vec![p(ProblemCode::EyesOutsideBody)]));
}

#[test]
fn every_part_is_found_by_its_id() {
    for p in faces() {
        assert_eq!(parts::face(p.id), p);
    }
    for p in all_eyes() {
        assert_eq!(eyes(p.id), p);
    }
    for c in line_categories() {
        assert_eq!(category(c.id).unwrap(), c);
        for p in &c.variants {
            assert_eq!(line_part(&c, p.id), *p);
        }
    }
}
