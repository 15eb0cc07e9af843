//! The parts that figures are put together from.
//!
//! All numbers are thousandths: of a point for dimensions, of the body for ratios. A line's
//! width is a share of the half width that the face has at that height, so a line shrinks with
//! the face that it is put on.
//!
//! The first part of a table is its default.

use vstd::prelude::*;

use super::shape::Curve;
use super::tables::{
    all_eyes, eye_table, face_table, faces, line_categories, line_table,
};
use crate::text::same;

verus! {

// ---- what parts are -------------------------------------------------------------------------

/// How an outline is made.
#[derive(Debug, Clone, Copy, PartialEq, Eq)]
pub enum Form {
    /// A rectangle with round corners: horizontal and vertical ratio, above and below.
    Corners { top: [u32; 2], bottom: [u32; 2] },
    /// Half circles at both sides.
    Capsule,
    /// A curve through points.
    Silhouette(Sil),
}

/// The points that an outline runs through, as half widths.
#[derive(Debug, Clone, Copy, PartialEq, Eq)]
pub struct Sil {
    /// The height of the tip of the chin.
    pub chin: u32,
    pub jaw: u32,
    pub cheek: u32,
    pub temple: u32,
    pub crown: u32,
    /// Sideburns: the height of the notch, and the half width and height of the tip.
    pub burn: Option<[u32; 3]>,
}

/// An outline.
#[derive(Debug, Clone, Copy, PartialEq, Eq)]
pub struct FacePart {
    pub id: &'static str,
    pub label: &'static str,
    /// The width of the body in the menu bar.
    pub w: u32,
    /// The height at which the eyes stand.
    pub eye_v: u32,
    pub form: Form,
}

/// How an eye is drawn.
#[derive(Debug, Clone, Copy, PartialEq, Eq)]
pub enum EyeForm {
    /// A rectangle with round corners; the radius is a share of the shorter side.
    Rounded { radius: u32 },
    /// Between an upper and a lower lid.
    Lids { inner: u32, outer: u32, upper: u32, lower: u32 },
    /// Four corners, given by the two upright sides.
    Wedge { inner_lo: u32, inner_hi: u32, outer_lo: u32, outer_hi: u32 },
    /// Round with one corner on the outer side, above or below.
    Horn { up: bool },
}

/// An eye, with its dimensions in the menu bar.
#[derive(Debug, Clone, Copy, PartialEq, Eq)]
pub struct EyePart {
    pub id: &'static str,
    pub label: &'static str,
    pub w: u32,
    pub h: u32,
    /// The gap between the eyes.
    pub gap: u32,
    pub form: EyeForm,
}

/// A line: hair, a nose, a mouth, a piece at the side.
#[derive(Debug, Clone, Copy, PartialEq, Eq)]
pub struct LinePart {
    pub id: &'static str,
    pub label: &'static str,
    pub curve: Curve,
    /// The height at which it stands.
    pub v: u32,
    pub w: u32,
    /// How far it rises; a negative number turns it over.
    pub amp: i32,
    /// How far from the middle it stands.
    pub off: u32,
    /// Whether it comes in pairs, the left one mirroring the right one.
    pub mirror: bool,
}

/// A kind of line.
#[derive(Debug, Clone, PartialEq, Eq)]
pub struct LineCategory {
    pub id: &'static str,
    pub label: &'static str,
    /// Whether it is drawn in the menu bar too.
    pub on_bar: bool,
    pub variants: Vec<LinePart>,
}

/// The height of the body in the menu bar.
pub const BAR_H: u32 = 20_000;

/// The height of the body in the dock.
pub const DOCK_H: u32 = 34_000;

/// How much larger eyes are in the dock.
pub const DOCK_EYE_RATIO: u32 = 1_550;

// ---- kinds of line --------------------------------------------------------------------------

/// What a `LineCategory` holds.
pub struct CategoryView {
    pub id: &'static str,
    pub label: &'static str,
    pub on_bar: bool,
    pub variants: Seq<LinePart>,
}

impl View for LineCategory {
    type V = CategoryView;

    open spec fn view(&self) -> CategoryView {
        CategoryView {
            id: self.id,
            label: self.label,
            on_bar: self.on_bar,
            variants: self.variants@,
        }
    }
}

/// What the kinds of a list hold.
pub open spec fn category_views(v: Seq<LineCategory>) -> Seq<CategoryView> {
    Seq::new(v.len(), |i: int| v[i]@)
}

/// The shapes of lines, without their numbers.
#[derive(Debug, Clone, Copy, PartialEq, Eq, Structural)]
pub enum CurveKind {
    Nothing,
    Arc,
    Wave,
    Sweep,
    Vee,
    Hook,
    Ring,
    Dot,
    Plate,
    Bracket,
    Stroke,
    Teeth,
}

// ---- from rows to parts ---------------------------------------------------------------------

/// The shape with its number.
pub open spec fn curve_of(kind: CurveKind, n: i32) -> Curve {
    match kind {
        CurveKind::Nothing => Curve::Nothing,
        CurveKind::Arc => Curve::Arc,
        CurveKind::Wave => Curve::Wave(n as u8),
        CurveKind::Sweep => Curve::Sweep(n as i8),
        CurveKind::Vee => Curve::Vee,
        CurveKind::Hook => Curve::Hook(n as i8),
        CurveKind::Ring => Curve::Ring,
        CurveKind::Dot => Curve::Dot,
        CurveKind::Plate => Curve::Plate { taper: n as u32 },
        CurveKind::Bracket => Curve::Bracket { down: n == 1 },
        CurveKind::Stroke => Curve::Stroke,
        CurveKind::Teeth => Curve::Teeth(n as u8),
    }
}

fn make_curve(kind: CurveKind, n: i32) -> (r: Curve)
    ensures
        r == curve_of(kind, n),
{
    match kind {
        CurveKind::Nothing => Curve::Nothing,
        CurveKind::Arc => Curve::Arc,
        CurveKind::Wave => Curve::Wave(#[verifier::truncate] (n as u8)),
        CurveKind::Sweep => Curve::Sweep(#[verifier::truncate] (n as i8)),
        CurveKind::Vee => Curve::Vee,
        CurveKind::Hook => Curve::Hook(#[verifier::truncate] (n as i8)),
        CurveKind::Ring => Curve::Ring,
        CurveKind::Dot => Curve::Dot,
        CurveKind::Plate => Curve::Plate { taper: #[verifier::truncate] (n as u32) },
        CurveKind::Bracket => Curve::Bracket { down: n == 1 },
        CurveKind::Stroke => Curve::Stroke,
        CurveKind::Teeth => Curve::Teeth(#[verifier::truncate] (n as u8)),
    }
}

/// The outline in a row of `CORNER_FACES`.
pub open spec fn corner_face(row: (&'static str, &'static str, u32, u32, [u32; 2], [u32; 2])) -> FacePart {
    FacePart {
        id: row.0,
        label: row.1,
        w: row.2,
        eye_v: row.3,
        form: Form::Corners { top: row.4, bottom: row.5 },
    }
}

/// The outlines in rows such as those of `CORNER_FACES`.
pub open spec fn corner_faces(rows: Seq<(&'static str, &'static str, u32, u32, [u32; 2], [u32; 2])>) -> Seq<FacePart> {
    Seq::new(rows.len(), |i: int| corner_face(rows[i]))
}

pub(crate) fn push_corner_faces(out: &mut Vec<FacePart>, rows: &[(&'static str, &'static str, u32, u32, [u32; 2], [u32; 2])])
    ensures
        final(out)@ == old(out)@ + corner_faces(rows@),
{
    let ghost before = out@;
    let mut i: usize = 0;
    assert(out@ =~= before + corner_faces(rows@).take(0));
    while i < rows.len()
        invariant
            i <= rows@.len(),
            out@ == before + corner_faces(rows@).take(i as int),
        decreases rows@.len() - i,
    {
        let row = rows[i];
        out.push(
            FacePart {
                id: row.0,
                label: row.1,
                w: row.2,
                eye_v: row.3,
                form: Form::Corners { top: row.4, bottom: row.5 },
            },
        );
        i += 1;
        assert(out@ =~= before + corner_faces(rows@).take(i as int));
    }
    assert(corner_faces(rows@).take(rows@.len() as int) =~= corner_faces(rows@));
}

/// The outline in a row of `CURVED_FACES`.
pub open spec fn curved_face(row: (&'static str, &'static str, u32, u32, [u32; 5])) -> FacePart {
    FacePart {
        id: row.0,
        label: row.1,
        w: row.2,
        eye_v: row.3,
        form: Form::Silhouette(
            Sil {
                chin: row.4@[0],
                jaw: row.4@[1],
                cheek: row.4@[2],
                temple: row.4@[3],
                crown: row.4@[4],
                burn: None,
            },
        ),
    }
}

/// The outlines in rows such as those of `CURVED_FACES`.
pub open spec fn curved_faces(rows: Seq<(&'static str, &'static str, u32, u32, [u32; 5])>) -> Seq<FacePart> {
    Seq::new(rows.len(), |i: int| curved_face(rows[i]))
}

pub(crate) fn push_curved_faces(out: &mut Vec<FacePart>, rows: &[(&'static str, &'static str, u32, u32, [u32; 5])])
    ensures
        final(out)@ == old(out)@ + curved_faces(rows@),
{
    let ghost before = out@;
    let mut i: usize = 0;
    assert(out@ =~= before + curved_faces(rows@).take(0));
    while i < rows.len()
        invariant
            i <= rows@.len(),
            out@ == before + curved_faces(rows@).take(i as int),
        decreases rows@.len() - i,
    {
        let row = rows[i];
        out.push(
            FacePart {
                id: row.0,
                label: row.1,
                w: row.2,
                eye_v: row.3,
                form: Form::Silhouette(
                    Sil {
                        chin: row.4[0],
                        jaw: row.4[1],
                        cheek: row.4[2],
                        temple: row.4[3],
                        crown: row.4[4],
                        burn: None,
                    },
                ),
            },
        );
        i += 1;
        assert(out@ =~= before + curved_faces(rows@).take(i as int));
    }
    assert(curved_faces(rows@).take(rows@.len() as int) =~= curved_faces(rows@));
}

/// The outline in a row of `BURNED_FACES`.
pub open spec fn burned_face(row: (&'static str, &'static str, u32, u32, [u32; 5], [u32; 3])) -> FacePart {
    FacePart {
        id: row.0,
        label: row.1,
        w: row.2,
        eye_v: row.3,
        form: Form::Silhouette(
            Sil {
                chin: row.4@[0],
                jaw: row.4@[1],
                cheek: row.4@[2],
                temple: row.4@[3],
                crown: row.4@[4],
                burn: Some(row.5),
            },
        ),
    }
}

/// The outlines in rows such as those of `BURNED_FACES`.
pub open spec fn burned_faces(rows: Seq<(&'static str, &'static str, u32, u32, [u32; 5], [u32; 3])>) -> Seq<FacePart> {
    Seq::new(rows.len(), |i: int| burned_face(rows[i]))
}

pub(crate) fn push_burned_faces(out: &mut Vec<FacePart>, rows: &[(&'static str, &'static str, u32, u32, [u32; 5], [u32; 3])])
    ensures
        final(out)@ == old(out)@ + burned_faces(rows@),
{
    let ghost before = out@;
    let mut i: usize = 0;
    assert(out@ =~= before + burned_faces(rows@).take(0));
    while i < rows.len()
        invariant
            i <= rows@.len(),
            out@ == before + burned_faces(rows@).take(i as int),
        decreases rows@.len() - i,
    {
        let row = rows[i];
        out.push(
            FacePart {
                id: row.0,
                label: row.1,
                w: row.2,
                eye_v: row.3,
                form: Form::Silhouette(
                    Sil {
                        chin: row.4[0],
                        jaw: row.4[1],
                        cheek: row.4[2],
                        temple: row.4[3],
                        crown: row.4[4],
                        burn: Some(row.5),
                    },
                ),
            },
        );
        i += 1;
        assert(out@ =~= before + burned_faces(rows@).take(i as int));
    }
    assert(burned_faces(rows@).take(rows@.len() as int) =~= burned_faces(rows@));
}

/// The eye in a row of `ROUND_EYES`.
pub open spec fn round_eye(row: (&'static str, &'static str, [u32; 3], u32)) -> EyePart {
    EyePart {
        id: row.0,
        label: row.1,
        w: row.2@[0],
        h: row.2@[1],
        gap: row.2@[2],
        form: EyeForm::Rounded { radius: row.3 },
    }
}

/// The eyes in rows such as those of `ROUND_EYES`.
pub open spec fn round_eyes(rows: Seq<(&'static str, &'static str, [u32; 3], u32)>) -> Seq<EyePart> {
    Seq::new(rows.len(), |i: int| round_eye(rows[i]))
}

pub(crate) fn push_round_eyes(out: &mut Vec<EyePart>, rows: &[(&'static str, &'static str, [u32; 3], u32)])
    ensures
        final(out)@ == old(out)@ + round_eyes(rows@),
{
    let ghost before = out@;
    let mut i: usize = 0;
    assert(out@ =~= before + round_eyes(rows@).take(0));
    while i < rows.len()
        invariant
            i <= rows@.len(),
            out@ == before + round_eyes(rows@).take(i as int),
        decreases rows@.len() - i,
    {
        let row = rows[i];
        out.push(
            EyePart {
                id: row.0,
                label: row.1,
                w: row.2[0],
                h: row.2[1],
                gap: row.2[2],
                form: EyeForm::Rounded { radius: row.3 },
            },
        );
        i += 1;
        assert(out@ =~= before + round_eyes(rows@).take(i as int));
    }
    assert(round_eyes(rows@).take(rows@.len() as int) =~= round_eyes(rows@));
}

/// The eye in a row of `LID_EYES`.
pub open spec fn lid_eye(row: (&'static str, &'static str, [u32; 3], [u32; 4])) -> EyePart {
    EyePart {
        id: row.0,
        label: row.1,
        w: row.2@[0],
        h: row.2@[1],
        gap: row.2@[2],
        form: EyeForm::Lids {
            inner: row.3@[0],
            outer: row.3@[1],
            upper: row.3@[2],
            lower: row.3@[3],
        },
    }
}

/// The eyes in rows such as those of `LID_EYES`.
pub open spec fn lid_eyes(rows: Seq<(&'static str, &'static str, [u32; 3], [u32; 4])>) -> Seq<EyePart> {
    Seq::new(rows.len(), |i: int| lid_eye(rows[i]))
}

pub(crate) fn push_lid_eyes(out: &mut Vec<EyePart>, rows: &[(&'static str, &'static str, [u32; 3], [u32; 4])])
    ensures
        final(out)@ == old(out)@ + lid_eyes(rows@),
{
    let ghost before = out@;
    let mut i: usize = 0;
    assert(out@ =~= before + lid_eyes(rows@).take(0));
    while i < rows.len()
        invariant
            i <= rows@.len(),
            out@ == before + lid_eyes(rows@).take(i as int),
        decreases rows@.len() - i,
    {
        let row = rows[i];
        out.push(
            EyePart {
                id: row.0,
                label: row.1,
                w: row.2[0],
                h: row.2[1],
                gap: row.2[2],
                form: EyeForm::Lids {
                    inner: row.3[0],
                    outer: row.3[1],
                    upper: row.3[2],
                    lower: row.3[3],
                },
            },
        );
        i += 1;
        assert(out@ =~= before + lid_eyes(rows@).take(i as int));
    }
    assert(lid_eyes(rows@).take(rows@.len() as int) =~= lid_eyes(rows@));
}

/// The eye in a row of `WEDGE_EYES`.
pub open spec fn wedge_eye(row: (&'static str, &'static str, [u32; 3], [u32; 4])) -> EyePart {
    EyePart {
        id: row.0,
        label: row.1,
        w: row.2@[0],
        h: row.2@[1],
        gap: row.2@[2],
        form: EyeForm::Wedge {
            inner_lo: row.3@[0],
            inner_hi: row.3@[1],
            outer_lo: row.3@[2],
            outer_hi: row.3@[3],
        },
    }
}

/// The eyes in rows such as those of `WEDGE_EYES`.
pub open spec fn wedge_eyes(rows: Seq<(&'static str, &'static str, [u32; 3], [u32; 4])>) -> Seq<EyePart> {
    Seq::new(rows.len(), |i: int| wedge_eye(rows[i]))
}

pub(crate) fn push_wedge_eyes(out: &mut Vec<EyePart>, rows: &[(&'static str, &'static str, [u32; 3], [u32; 4])])
    ensures
        final(out)@ == old(out)@ + wedge_eyes(rows@),
{
    let ghost before = out@;
    let mut i: usize = 0;
    assert(out@ =~= before + wedge_eyes(rows@).take(0));
    while i < rows.len()
        invariant
            i <= rows@.len(),
            out@ == before + wedge_eyes(rows@).take(i as int),
        decreases rows@.len() - i,
    {
        let row = rows[i];
        out.push(
            EyePart {
                id: row.0,
                label: row.1,
                w: row.2[0],
                h: row.2[1],
                gap: row.2[2],
                form: EyeForm::Wedge {
                    inner_lo: row.3[0],
                    inner_hi: row.3[1],
                    outer_lo: row.3[2],
                    outer_hi: row.3[3],
                },
            },
        );
        i += 1;
        assert(out@ =~= before + wedge_eyes(rows@).take(i as int));
    }
    assert(wedge_eyes(rows@).take(rows@.len() as int) =~= wedge_eyes(rows@));
}

/// The eye in a row of `HORN_EYES`.
pub open spec fn horn_eye(row: (&'static str, &'static str, [u32; 3], bool)) -> EyePart {
    EyePart {
        id: row.0,
        label: row.1,
        w: row.2@[0],
        h: row.2@[1],
        gap: row.2@[2],
        form: EyeForm::Horn { up: row.3 },
    }
}

/// The eyes in rows such as those of `HORN_EYES`.
pub open spec fn horn_eyes(rows: Seq<(&'static str, &'static str, [u32; 3], bool)>) -> Seq<EyePart> {
    Seq::new(rows.len(), |i: int| horn_eye(rows[i]))
}

pub(crate) fn push_horn_eyes(out: &mut Vec<EyePart>, rows: &[(&'static str, &'static str, [u32; 3], bool)])
    ensures
        final(out)@ == old(out)@ + horn_eyes(rows@),
{
    let ghost before = out@;
    let mut i: usize = 0;
    assert(out@ =~= before + horn_eyes(rows@).take(0));
    while i < rows.len()
        invariant
            i <= rows@.len(),
            out@ == before + horn_eyes(rows@).take(i as int),
        decreases rows@.len() - i,
    {
        let row = rows[i];
        out.push(
            EyePart {
                id: row.0,
                label: row.1,
                w: row.2[0],
                h: row.2[1],
                gap: row.2[2],
                form: EyeForm::Horn { up: row.3 },
            },
        );
        i += 1;
        assert(out@ =~= before + horn_eyes(rows@).take(i as int));
    }
    assert(horn_eyes(rows@).take(rows@.len() as int) =~= horn_eyes(rows@));
}

/// A row of a table of lines.
pub open spec fn line_of(row: (&'static str, &'static str, CurveKind, i32, [i32; 4], bool)) -> LinePart {
    LinePart {
        id: row.0,
        label: row.1,
        curve: curve_of(row.2, row.3),
        v: row.4@[0] as u32,
        w: row.4@[1] as u32,
        amp: row.4@[2],
        off: row.4@[3] as u32,
        mirror: row.5,
    }
}

fn make_line(row: (&'static str, &'static str, CurveKind, i32, [i32; 4], bool)) -> (r: LinePart)
    ensures
        r == line_of(row),
{
    LinePart {
        id: row.0,
        label: row.1,
        curve: make_curve(row.2, row.3),
        v: #[verifier::truncate] (row.4[0] as u32),
        w: #[verifier::truncate] (row.4[1] as u32),
        amp: row.4[2],
        off: #[verifier::truncate] (row.4[3] as u32),
        mirror: row.5,
    }
}

/// The lines of a table.
pub open spec fn lines_of(
    rows: Seq<(&'static str, &'static str, CurveKind, i32, [i32; 4], bool)>,
) -> Seq<LinePart> {
    Seq::new(rows.len(), |i: int| line_of(rows[i]))
}

pub(crate) fn make_lines(rows: &[(&'static str, &'static str, CurveKind, i32, [i32; 4], bool)]) -> (r: Vec<
    LinePart,
>)
    ensures
        r@ == lines_of(rows@),
{
    let mut out: Vec<LinePart> = Vec::new();
    let mut i: usize = 0;
    while i < rows.len()
        invariant
            i <= rows@.len(),
            out@ == lines_of(rows@).take(i as int),
        decreases rows@.len() - i,
    {
        out.push(make_line(rows[i]));
        i += 1;
        assert(out@ =~= lines_of(rows@).take(i as int));
    }
    assert(out@ =~= lines_of(rows@));
    out
}

// ---- looking parts up -----------------------------------------------------------------------

/// The index of the first part with this id, or the number of parts if there is none.
pub open spec fn id_index(ids: Seq<Seq<char>>, id: Seq<char>) -> int
    decreases ids.len(),
{
    if ids.len() == 0 || ids[0] == id {
        0
    } else {
        1 + id_index(ids.drop_first(), id)
    }
}

/// The index of the first part with this id, or that of the default if there is none.
pub open spec fn chosen_index(ids: Seq<Seq<char>>, id: Seq<char>) -> int {
    if id_index(ids, id) < ids.len() {
        id_index(ids, id)
    } else {
        0
    }
}

fn find_id(ids: &Vec<&'static str>, id: &str) -> (r: usize)
    ensures
        r == id_index(id_texts(ids@), id@),
        r <= ids@.len(),
{
    let ghost all = id_texts(ids@);
    let mut i: usize = 0;
    assert(all.skip(0) =~= all);
    while i < ids.len()
        invariant
            i <= ids@.len(),
            all == id_texts(ids@),
            i + id_index(all.skip(i as int), id@) == id_index(all, id@),
        decreases ids@.len() - i,
    {
        assert(all.skip(i as int)[0] == ids@[i as int]@);
        if same(ids[i], id) {
            return i;
        }
        assert(all.skip(i as int).drop_first() =~= all.skip(i + 1));
        i += 1;
    }
    i
}

/// The texts of ids.
pub open spec fn id_texts(ids: Seq<&'static str>) -> Seq<Seq<char>> {
    Seq::new(ids.len(), |i: int| ids[i]@)
}

/// The ids of outlines.
pub open spec fn face_ids(v: Seq<FacePart>) -> Seq<Seq<char>> {
    Seq::new(v.len(), |i: int| v[i].id@)
}

/// The ids of eyes.
pub open spec fn eye_ids(v: Seq<EyePart>) -> Seq<Seq<char>> {
    Seq::new(v.len(), |i: int| v[i].id@)
}

/// The ids of lines.
pub open spec fn line_ids(v: Seq<LinePart>) -> Seq<Seq<char>> {
    Seq::new(v.len(), |i: int| v[i].id@)
}

/// The ids of kinds of line.
pub open spec fn category_ids(v: Seq<CategoryView>) -> Seq<Seq<char>> {
    Seq::new(v.len(), |i: int| v[i].id@)
}

fn choose_face(all: &Vec<FacePart>, id: &str) -> (r: FacePart)
    requires
        all@.len() > 0,
    ensures
        r == all@[chosen_index(face_ids(all@), id@)],
{
    let mut ids: Vec<&'static str> = Vec::new();
    let mut i: usize = 0;
    while i < all.len()
        invariant
            i <= all@.len(),
            ids@.len() == i,
            forall|k: int| 0 <= k < i ==> #[trigger] ids@[k] == all@[k].id,
        decreases all@.len() - i,
    {
        ids.push(all[i].id);
        i += 1;
    }
    assert(id_texts(ids@) =~= face_ids(all@));
    let at = find_id(&ids, id);
    if at < all.len() {
        all[at]
    } else {
        all[0]
    }
}

/// The outline with this id, or the default. A part that is gone must not break what was saved
/// with it.
pub fn face(id: &str) -> (r: FacePart)
    ensures
        r == face_table()[chosen_index(face_ids(face_table()), id@)],
{
    choose_face(&faces(), id)
}

fn choose_eyes(all: &Vec<EyePart>, id: &str) -> (r: EyePart)
    requires
        all@.len() > 0,
    ensures
        r == all@[chosen_index(eye_ids(all@), id@)],
{
    let mut ids: Vec<&'static str> = Vec::new();
    let mut i: usize = 0;
    while i < all.len()
        invariant
            i <= all@.len(),
            ids@.len() == i,
            forall|k: int| 0 <= k < i ==> #[trigger] ids@[k] == all@[k].id,
        decreases all@.len() - i,
    {
        ids.push(all[i].id);
        i += 1;
    }
    assert(id_texts(ids@) =~= eye_ids(all@));
    let at = find_id(&ids, id);
    if at < all.len() {
        all[at]
    } else {
        all[0]
    }
}

/// The eyes with this id, or the default.
pub fn eyes(id: &str) -> (r: EyePart)
    ensures
        r == eye_table()[chosen_index(eye_ids(eye_table()), id@)],
{
    choose_eyes(&all_eyes(), id)
}

fn category_position(all: &Vec<LineCategory>, id: &str) -> (r: usize)
    ensures
        r == id_index(category_ids(category_views(all@)), id@),
        r <= all@.len(),
{
    let mut ids: Vec<&'static str> = Vec::new();
    let mut i: usize = 0;
    while i < all.len()
        invariant
            i <= all@.len(),
            ids@.len() == i,
            forall|k: int| 0 <= k < i ==> #[trigger] ids@[k] == all@[k].id,
        decreases all@.len() - i,
    {
        ids.push(all[i].id);
        i += 1;
    }
    assert(id_texts(ids@) =~= category_ids(category_views(all@)));
    find_id(&ids, id)
}

/// The kind of line with this id.
pub fn category(id: &str) -> (r: Option<LineCategory>)
    ensures
        match r {
            Some(c) => id_index(category_ids(line_table()), id@) < line_table().len() && c@
                == line_table()[id_index(category_ids(line_table()), id@)] && c.variants@.len() > 0,
            None => id_index(category_ids(line_table()), id@) >= line_table().len(),
        },
{
    let mut all = line_categories();
    let at = category_position(&all, id);
    if at < all.len() {
        assert(category_views(all@)[at as int] == all@[at as int]@);
        Some(all.swap_remove(at))
    } else {
        None
    }
}

fn choose_line(all: &Vec<LinePart>, id: &str) -> (r: LinePart)
    requires
        all@.len() > 0,
    ensures
        r == all@[chosen_index(line_ids(all@), id@)],
{
    let mut ids: Vec<&'static str> = Vec::new();
    let mut i: usize = 0;
    while i < all.len()
        invariant
            i <= all@.len(),
            ids@.len() == i,
            forall|k: int| 0 <= k < i ==> #[trigger] ids@[k] == all@[k].id,
        decreases all@.len() - i,
    {
        ids.push(all[i].id);
        i += 1;
    }
    assert(id_texts(ids@) =~= line_ids(all@));
    let at = find_id(&ids, id);
    if at < all.len() {
        all[at]
    } else {
        all[0]
    }
}

/// The line of this kind with this id, or the default of the kind, which draws nothing.
pub fn line_part(cat: &LineCategory, id: &str) -> (r: LinePart)
    requires
        cat.variants@.len() > 0,
    ensures
        r == cat.variants@[chosen_index(line_ids(cat.variants@), id@)],
{
    choose_line(&cat.variants, id)
}

// ---- outlines through points ----------------------------------------------------------------

/// A ratio, cut to one.
pub open spec fn cut(n: int) -> int {
    if n > 1000 {
        1000
    } else {
        n
    }
}

/// A half width as a distance from the left side, for the right half.
pub open spec fn from_left(half: int) -> int {
    500 + if half > 500 {
        500
    } else {
        half
    }
}

/// The points that the right half of an outline runs through, from the chin to the top of the
/// head.
pub open spec fn silhouette(s: Sil) -> Seq<(int, int)> {
    let chin = seq![(500int, cut(s.chin as int))];
    let jaw = match s.burn {
        Some(b) => seq![
            (from_left(s.jaw as int), cut(b@[0] as int)),
            (from_left(b@[1] as int), cut(b@[2] as int)),
        ],
        None => seq![(from_left(s.jaw as int), cut(s.chin + 140))],
    };
    chin + jaw + seq![
        (from_left(s.cheek as int), 420int),
        (from_left(s.temple as int), 700int),
        (from_left(s.crown as int), 900int),
        (500int, 1000int),
    ]
}

/// A list of points as numbers.
pub open spec fn int_points(v: Seq<(u32, u32)>) -> Seq<(int, int)> {
    Seq::new(v.len(), |i: int| (v[i].0 as int, v[i].1 as int))
}

fn cut_to_one(n: u32) -> (r: u32)
    ensures
        r == cut(n as int),
{
    if n > 1000 {
        1000
    } else {
        n
    }
}

fn distance(half: u32) -> (r: u32)
    ensures
        r == from_left(half as int),
{
    if half > 500 {
        1000
    } else {
        500 + half
    }
}

/// The points that the right half of an outline runs through, from the chin to the top of the
/// head. The first and the last stand in the middle, so that the halves meet.
pub fn silhouette_points(s: &Sil) -> (r: Vec<(u32, u32)>)
    ensures
        int_points(r@) == silhouette(*s),
{
    let mut pts: Vec<(u32, u32)> = Vec::new();
    pts.push((500, cut_to_one(s.chin)));
    match s.burn {
        Some(b) => {
            pts.push((distance(s.jaw), cut_to_one(b[0])));
            pts.push((distance(b[1]), cut_to_one(b[2])));
        },
        None => {
            let raised: u32 = if s.chin > 1000 {
                1000
            } else {
                s.chin + 140
            };
            pts.push((distance(s.jaw), cut_to_one(raised)));
        },
    }
    pts.push((distance(s.cheek), 420));
    pts.push((distance(s.temple), 700));
    pts.push((distance(s.crown), 900));
    pts.push((500, 1000));
    assert(int_points(pts@) =~= silhouette(*s));
    pts
}

// ---- laws -----------------------------------------------------------------------------------

/// Outlines through points begin and end in the middle, and no point leaves the box.
pub proof fn law_silhouettes_meet_in_the_middle(s: Sil, i: int)
    requires
        0 <= i < silhouette(s).len(),
    ensures
        silhouette(s)[0].0 == 500,
        silhouette(s).last() == (500int, 1000int),
        500 <= silhouette(s)[i].0 <= 1000,
        0 <= silhouette(s)[i].1 <= 1000,
{
}

/// An unknown id chooses the default, a known one the first part that has it.
pub proof fn law_lookups_are_total(ids: Seq<Seq<char>>, id: Seq<char>)
    requires
        ids.len() > 0,
    ensures
        0 <= chosen_index(ids, id) < ids.len(),
        ids.contains(id) ==> ids[chosen_index(ids, id)] == id,
        !ids.contains(id) ==> chosen_index(ids, id) == 0,
{
    lemma_id_index(ids, id);
}

proof fn lemma_id_index(ids: Seq<Seq<char>>, id: Seq<char>)
    ensures
        0 <= id_index(ids, id) <= ids.len(),
        id_index(ids, id) < ids.len() ==> ids[id_index(ids, id)] == id,
        ids.contains(id) ==> id_index(ids, id) < ids.len(),
    decreases ids.len(),
{
    if ids.len() > 0 && ids[0] != id {
        let rest = ids.drop_first();
        lemma_id_index(rest, id);
        if ids.contains(id) {
            let i = choose|i: int| 0 <= i < ids.len() && ids[i] == id;
            assert(rest[i - 1] == id);
        }
    }
}

/// Where no id stands twice, each is found where it stands.
pub(crate) proof fn lemma_unique_is_chosen(ids: Seq<Seq<char>>, i: int)
    requires
        ids.no_duplicates(),
        0 <= i < ids.len(),
    ensures
        id_index(ids, ids[i]) == i,
        chosen_index(ids, ids[i]) == i,
{
    lemma_id_index(ids, ids[i]);
    assert(ids.contains(ids[i]));
}

/// What the columns of a row of eyes mean: the width, the height and the gap, and then the numbers
/// of its form.
pub proof fn law_what_a_row_of_eyes_means(
    id: &'static str,
    label: &'static str,
    size: [u32; 3],
    radius: u32,
    four: [u32; 4],
    up: bool,
)
    ensures
        ({
            let e = round_eye((id, label, size, radius));
            &&& e.id == id && e.label == label
            &&& e.w == size@[0] && e.h == size@[1] && e.gap == size@[2]
            &&& e.form == (EyeForm::Rounded { radius })
        }),
        ({
            let e = lid_eye((id, label, size, four));
            &&& e.id == id && e.label == label
            &&& e.w == size@[0] && e.h == size@[1] && e.gap == size@[2]
            &&& e.form matches EyeForm::Lids { inner, outer, upper, lower } && inner == four@[0]
                && outer == four@[1] && upper == four@[2] && lower == four@[3]
        }),
        ({
            let e = wedge_eye((id, label, size, four));
            &&& e.id == id && e.label == label
            &&& e.w == size@[0] && e.h == size@[1] && e.gap == size@[2]
            &&& e.form matches EyeForm::Wedge { inner_lo, inner_hi, outer_lo, outer_hi }
                && inner_lo == four@[0] && inner_hi == four@[1] && outer_lo == four@[2]
                && outer_hi == four@[3]
        }),
        ({
            let e = horn_eye((id, label, size, up));
            &&& e.id == id && e.label == label
            &&& e.w == size@[0] && e.h == size@[1] && e.gap == size@[2]
            &&& e.form == (EyeForm::Horn { up })
        }),
{
}

/// What the columns of a row of outlines mean: the width, the height of the eyes, and then the
/// corners above and below, or the points from the chin to the crown and those of the sideburns.
pub proof fn law_what_a_row_of_outlines_means(
    id: &'static str,
    label: &'static str,
    w: u32,
    eye_v: u32,
    top: [u32; 2],
    bottom: [u32; 2],
    five: [u32; 5],
    burn: [u32; 3],
)
    ensures
        ({
            let f = corner_face((id, label, w, eye_v, top, bottom));
            &&& f.id == id && f.label == label && f.w == w && f.eye_v == eye_v
            &&& f.form matches Form::Corners { top: a, bottom: b } && a == top && b == bottom
        }),
        ({
            let f = curved_face((id, label, w, eye_v, five));
            &&& f.id == id && f.label == label && f.w == w && f.eye_v == eye_v
            &&& f.form matches Form::Silhouette(s) && s.chin == five@[0] && s.jaw == five@[1]
                && s.cheek == five@[2] && s.temple == five@[3] && s.crown == five@[4]
                && s.burn is None
        }),
        ({
            let f = burned_face((id, label, w, eye_v, five, burn));
            &&& f.id == id && f.label == label && f.w == w && f.eye_v == eye_v
            &&& f.form matches Form::Silhouette(s) && s.chin == five@[0] && s.jaw == five@[1]
                && s.cheek == five@[2] && s.temple == five@[3] && s.crown == five@[4]
                && s.burn == Some(burn)
        }),
{
}

/// What the columns of a row of lines mean: its shape with a number, its height, its width, its
/// rise and its offset, and whether it comes in pairs.
pub proof fn law_what_a_row_of_lines_means(
    id: &'static str,
    label: &'static str,
    kind: CurveKind,
    n: i32,
    four: [i32; 4],
    mirror: bool,
)
    requires
        four@[0] >= 0 && four@[1] >= 0 && four@[3] >= 0,
    ensures
        ({
            let p = line_of((id, label, kind, n, four, mirror));
            &&& p.id == id && p.label == label && p.mirror == mirror
            &&& p.v == four@[0] && p.w == four@[1] && p.amp == four@[2] && p.off == four@[3]
            &&& kind == CurveKind::Nothing <==> p.curve is Nothing
            &&& kind == CurveKind::Arc <==> p.curve is Arc
            &&& kind == CurveKind::Vee <==> p.curve is Vee
            &&& kind == CurveKind::Ring <==> p.curve is Ring
            &&& kind == CurveKind::Dot <==> p.curve is Dot
            &&& kind == CurveKind::Stroke <==> p.curve is Stroke
            &&& kind == CurveKind::Wave && 0 <= n < 256 ==> p.curve == Curve::Wave(n as u8)
            &&& kind == CurveKind::Teeth && 0 <= n < 256 ==> p.curve == Curve::Teeth(n as u8)
            &&& kind == CurveKind::Sweep && -128 <= n < 128 ==> p.curve == Curve::Sweep(n as i8)
            &&& kind == CurveKind::Hook && -128 <= n < 128 ==> p.curve == Curve::Hook(n as i8)
            &&& kind == CurveKind::Plate && n >= 0 ==> p.curve == (Curve::Plate { taper: n as u32 })
            &&& kind == CurveKind::Bracket ==> p.curve == (Curve::Bracket { down: n == 1 })
        }),
{
}

/// The points that the right half of an outline runs through, from the chin up: the chin in the
/// middle, the jaw, or the notch and the tip of the sideburns, the cheek, the temple, the crown,
/// and the top of the head in the middle. No half width is more than half the body.
pub proof fn law_how_a_silhouette_runs(s: Sil)
    requires
        s.jaw <= 500 && s.cheek <= 500 && s.temple <= 500 && s.crown <= 500,
        s.chin <= 860,
    ensures
        s.burn is None ==> silhouette(s) == seq![
            (500int, s.chin as int),
            (500 + s.jaw as int, s.chin as int + 140),
            (500 + s.cheek as int, 420int),
            (500 + s.temple as int, 700int),
            (500 + s.crown as int, 900int),
            (500int, 1000int),
        ],
        s.burn matches Some(b) ==> (b@[0] <= 1000 && b@[1] <= 500 && b@[2] <= 1000 ==> silhouette(s)
            == seq![
            (500int, s.chin as int),
            (500 + s.jaw as int, b@[0] as int),
            (500 + b@[1] as int, b@[2] as int),
            (500 + s.cheek as int, 420int),
            (500 + s.temple as int, 700int),
            (500 + s.crown as int, 900int),
            (500int, 1000int),
        ]),
{
    if s.burn is None {
        assert(silhouette(s) =~= seq![
            (500int, s.chin as int),
            (500 + s.jaw as int, s.chin as int + 140),
            (500 + s.cheek as int, 420int),
            (500 + s.temple as int, 700int),
            (500 + s.crown as int, 900int),
            (500int, 1000int),
        ]);
    }
}

} // verus!
