//! The builder: figures put together from parts.
//!
//! A configuration names a part for each category and small adjustments. It is turned into a
//! draft, the draft into the text of a face, and that text is read like any other face. The text
//! keeps the configuration, so that a saved figure can be edited again.

use vstd::prelude::*;

use super::spec::{
    color_name, color_named, is_valid_id, valid_id, EyeColor, Problem, ProblemCode,
};
use crate::num::{finite, less, Num, ONE_BITS, TWO_BITS};
use crate::text::{
    has_prefix, join2, join3, join_with, lines, opt_text, same, separated, texts, trim, trimmed,
};
use emit::{
    face_text, is_one_line, looks_like_config, marked, on_one_line, path_d, path_text, DetailDraft,
    Draft, OutlineDraft, Pair, StepDraft,
};
use parts::{
    category_ids, category_views, chosen_index, eye_ids, eyes, face, face_ids, id_index,
    int_points, line_ids, line_part, silhouette, silhouette_points, CategoryView, Form, LineCategory,
    LinePart,
};
use shape::Curve;
use tables::{all_eyes, eye_table, face_table, faces, line_categories, line_table};

pub mod emit;
pub mod parts;
pub mod shape;
pub mod tables;
pub mod written;

verus! {

/// The version of configurations.
pub const CONFIG_VERSION: u32 = 1;

// ---- adjustments ----------------------------------------------------------------------------

/// Small adjustments of a part. What they mean depends on the category: `scale` is the width of
/// the body, the size of the eyes or the width of a line, `dy` a shift upwards, `dx` a shift to
/// the right or, for pairs, outwards, `gap` the gap between the eyes.
#[derive(Debug, Clone, Copy, PartialEq, Eq, Structural)]
pub struct Tweak {
    pub dx: Num,
    pub dy: Num,
    pub scale: Num,
    pub gap: Num,
    /// Whether a line is drawn in the menu bar; without it the category decides.
    pub bar: Option<bool>,
}

/// The bits of 0.25.
pub const QUARTER_BITS: u64 = 0x3fd0_0000_0000_0000;

/// The bits of -0.25.
pub const MINUS_QUARTER_BITS: u64 = 0xbfd0_0000_0000_0000;

/// The bits of 0.3.
pub const SCALE_MIN_BITS: u64 = 0x3fd3_3333_3333_3333;

/// The bits of 0.2.
pub const GAP_MIN_BITS: u64 = 0x3fc9_9999_9999_999a;

/// The bits of 3.
pub const GAP_MAX_BITS: u64 = 0x4008_0000_0000_0000;

/// No adjustment.
pub open spec fn no_tweak() -> Tweak {
    Tweak {
        dx: Num { bits: 0 },
        dy: Num { bits: 0 },
        scale: Num { bits: ONE_BITS },
        gap: Num { bits: ONE_BITS },
        bar: None,
    }
}

impl Default for Tweak {
    /// No adjustment.
    fn default() -> (r: Self)
        ensures
            r == no_tweak(),
    {
        Tweak {
            dx: Num::new(0),
            dy: Num::new(0),
            scale: Num::new(ONE_BITS),
            gap: Num::new(ONE_BITS),
            bar: None,
        }
    }
}

/// A number brought into a range. What is not a number stays.
pub open spec fn brought_into(x: Num, lo: u64, hi: u64) -> Num {
    if less(x, Num { bits: lo }) {
        Num { bits: lo }
    } else if less(Num { bits: hi }, x) {
        Num { bits: hi }
    } else {
        x
    }
}

/// A factor brought into a range; one that is not finite counts as one.
pub open spec fn factor(x: Num, lo: u64, hi: u64) -> Num {
    if finite(x) {
        brought_into(x, lo, hi)
    } else {
        Num { bits: ONE_BITS }
    }
}

/// An adjustment within reason.
pub open spec fn reasonable(t: Tweak) -> Tweak {
    Tweak {
        dx: brought_into(t.dx, MINUS_QUARTER_BITS, QUARTER_BITS),
        dy: brought_into(t.dy, MINUS_QUARTER_BITS, QUARTER_BITS),
        scale: factor(t.scale, SCALE_MIN_BITS, TWO_BITS),
        gap: factor(t.gap, GAP_MIN_BITS, GAP_MAX_BITS),
        bar: t.bar,
    }
}

fn clamp(x: Num, lo: u64, hi: u64) -> (r: Num)
    ensures
        r == brought_into(x, lo, hi),
{
    let low = Num::new(lo);
    let high = Num::new(hi);
    if x.is_less(low) {
        low
    } else if high.is_less(x) {
        high
    } else {
        x
    }
}

fn clamp_factor(x: Num, lo: u64, hi: u64) -> (r: Num)
    ensures
        r == factor(x, lo, hi),
{
    if x.is_finite() {
        clamp(x, lo, hi)
    } else {
        Num::new(ONE_BITS)
    }
}

impl Tweak {
    /// The adjustment brought within reason. Any number may come in.
    pub fn clamped(self) -> (r: Tweak)
        ensures
            r == reasonable(self),
    {
        Tweak {
            dx: clamp(self.dx, MINUS_QUARTER_BITS, QUARTER_BITS),
            dy: clamp(self.dy, MINUS_QUARTER_BITS, QUARTER_BITS),
            scale: clamp_factor(self.scale, SCALE_MIN_BITS, TWO_BITS),
            gap: clamp_factor(self.gap, GAP_MIN_BITS, GAP_MAX_BITS),
            bar: self.bar,
        }
    }
}

// ---- configurations -------------------------------------------------------------------------

/// How a figure is previewed. It is saved, but is no part of the face.
#[derive(Debug, PartialEq, Eq)]
pub struct Preview {
    /// The name of a state.
    pub state: String,
    /// `bar` or `dock`.
    pub size: String,
}

impl Default for Preview {
    /// At work, in the dock.
    fn default() -> (r: Self)
        ensures
            r.state@ == "working"@,
            r.size@ == "dock"@,
    {
        Preview { state: "working".to_owned(), size: "dock".to_owned() }
    }
}

impl Clone for Preview {
    fn clone(&self) -> (r: Self)
        ensures
            r.state@ == self.state@,
            r.size@ == self.size@,
    {
        Preview { state: self.state.clone(), size: self.size.clone() }
    }
}

/// The configuration of a figure.
#[derive(Debug, PartialEq, Eq)]
pub struct CharacterConfig {
    pub version: u32,
    /// The id of the face, and the name of its file.
    pub id: String,
    /// The name shown.
    pub name: String,
    pub author: Option<String>,
    /// Categories and the parts chosen for them. Parts are kept by id, not by number, so that a
    /// new part changes nothing that was saved.
    pub parts: Vec<(String, String)>,
    /// Categories and the adjustments made to them.
    pub tweaks: Vec<(String, Tweak)>,
    /// The colour of the eyes.
    pub eye_color: String,
    pub preview: Preview,
}

/// What a `CharacterConfig` holds.
#[verifier::ext_equal]
pub struct ConfigView {
    pub version: u32,
    pub id: Seq<char>,
    pub name: Seq<char>,
    pub author: Option<Seq<char>>,
    pub parts: Seq<(Seq<char>, Seq<char>)>,
    pub tweaks: Seq<(Seq<char>, Tweak)>,
    pub eye_color: Seq<char>,
    pub preview_state: Seq<char>,
    pub preview_size: Seq<char>,
}

/// What a list of chosen parts holds.
pub open spec fn part_views(v: Seq<(String, String)>) -> Seq<(Seq<char>, Seq<char>)> {
    Seq::new(v.len(), |i: int| (v[i].0@, v[i].1@))
}

/// What a list of adjustments holds.
pub open spec fn tweak_views(v: Seq<(String, Tweak)>) -> Seq<(Seq<char>, Tweak)> {
    Seq::new(v.len(), |i: int| (v[i].0@, v[i].1))
}

impl View for CharacterConfig {
    type V = ConfigView;

    open spec fn view(&self) -> ConfigView {
        ConfigView {
            version: self.version,
            id: self.id@,
            name: self.name@,
            author: opt_text(self.author),
            parts: part_views(self.parts@),
            tweaks: tweak_views(self.tweaks@),
            eye_color: self.eye_color@,
            preview_state: self.preview.state@,
            preview_size: self.preview.size@,
        }
    }
}

/// The part that a category has by default: the first of its table. An unknown category has
/// none.
pub open spec fn default_part(category: Seq<char>) -> Seq<char> {
    let line = id_index(category_ids(line_table()), category);
    if category == "face"@ {
        face_table()[0].id@
    } else if category == "eyes"@ {
        eye_table()[0].id@
    } else if line < line_table().len() {
        line_table()[line].variants[0].id@
    } else {
        Seq::empty()
    }
}

/// The part chosen for a category, or its default if none is.
pub open spec fn chosen_part(
    parts: Seq<(Seq<char>, Seq<char>)>,
    category: Seq<char>,
) -> Seq<char>
    decreases parts.len(),
{
    if parts.len() == 0 {
        default_part(category)
    } else if parts[0].0 == category {
        parts[0].1
    } else {
        chosen_part(parts.drop_first(), category)
    }
}

/// The adjustment made to a category; none if there is none.
pub open spec fn chosen_tweak(tweaks: Seq<(Seq<char>, Tweak)>, category: Seq<char>) -> Tweak
    decreases tweaks.len(),
{
    if tweaks.len() == 0 {
        no_tweak()
    } else if tweaks[0].0 == category {
        tweaks[0].1
    } else {
        chosen_tweak(tweaks.drop_first(), category)
    }
}

/// The parts with one more choice: it replaces the choice for its category, if there is one.
pub open spec fn with_part(
    parts: Seq<(Seq<char>, Seq<char>)>,
    category: Seq<char>,
    part: Seq<char>,
) -> Seq<(Seq<char>, Seq<char>)>
    decreases parts.len(),
{
    if parts.len() == 0 {
        seq![(category, part)]
    } else if parts[0].0 == category {
        seq![(category, part)] + parts.drop_first()
    } else {
        seq![parts[0]] + with_part(parts.drop_first(), category, part)
    }
}

fn pair_of(category: &str, part: &str) -> (r: (String, String))
    ensures
        r.0@ == category@,
        r.1@ == part@,
{
    (category.to_owned(), part.to_owned())
}

/// The parts of a figure before anything is chosen.
pub open spec fn first_parts() -> Seq<(Seq<char>, Seq<char>)> {
    seq![
        ("face"@, "egg"@),
        ("eyes"@, "bead"@),
        ("hair"@, "round"@),
        ("nose"@, "dot"@),
        ("mouth"@, "smile"@),
    ]
}

impl Default for CharacterConfig {
    /// A figure to begin with.
    fn default() -> (r: Self)
        ensures
            r@ == (ConfigView {
                version: CONFIG_VERSION,
                id: "my-face"@,
                name: "わたしの顔"@,
                author: None,
                parts: first_parts(),
                tweaks: Seq::empty(),
                eye_color: "eye"@,
                preview_state: "working"@,
                preview_size: "dock"@,
            }),
    {
        let mut parts: Vec<(String, String)> = Vec::new();
        parts.push(pair_of("face", "egg"));
        parts.push(pair_of("eyes", "bead"));
        parts.push(pair_of("hair", "round"));
        parts.push(pair_of("nose", "dot"));
        parts.push(pair_of("mouth", "smile"));
        assert(part_views(parts@) =~= first_parts());
        let r = CharacterConfig {
            version: CONFIG_VERSION,
            id: "my-face".to_owned(),
            name: "わたしの顔".to_owned(),
            author: None,
            parts,
            tweaks: Vec::new(),
            eye_color: "eye".to_owned(),
            preview: Preview::default(),
        };
        assert(tweak_views(r.tweaks@) =~= Seq::<(Seq<char>, Tweak)>::empty());
        r
    }
}

impl Clone for CharacterConfig {
    fn clone(&self) -> (r: Self)
        ensures
            r@ == self@,
    {
        let mut parts: Vec<(String, String)> = Vec::new();
        let mut i: usize = 0;
        while i < self.parts.len()
            invariant
                i <= self.parts@.len(),
                parts@.len() == i,
                forall|k: int|
                    0 <= k < i ==> (#[trigger] parts@[k]).0@ == self.parts@[k].0@ && parts@[k].1@
                        == self.parts@[k].1@,
            decreases self.parts@.len() - i,
        {
            parts.push((self.parts[i].0.clone(), self.parts[i].1.clone()));
            i += 1;
        }
        let mut tweaks: Vec<(String, Tweak)> = Vec::new();
        let mut j: usize = 0;
        while j < self.tweaks.len()
            invariant
                j <= self.tweaks@.len(),
                tweaks@.len() == j,
                forall|k: int|
                    0 <= k < j ==> (#[trigger] tweaks@[k]).0@ == self.tweaks@[k].0@ && tweaks@[k].1
                        == self.tweaks@[k].1,
            decreases self.tweaks@.len() - j,
        {
            tweaks.push((self.tweaks[j].0.clone(), self.tweaks[j].1));
            j += 1;
        }
        assert(part_views(parts@) =~= part_views(self.parts@));
        assert(tweak_views(tweaks@) =~= tweak_views(self.tweaks@));
        CharacterConfig {
            version: self.version,
            id: self.id.clone(),
            name: self.name.clone(),
            author: self.author.clone(),
            parts,
            tweaks,
            eye_color: self.eye_color.clone(),
            preview: self.preview.clone(),
        }
    }
}

fn default_of(category: &str) -> (r: &'static str)
    ensures
        r@ == default_part(category@),
{
    if same(category, "face") {
        return faces()[0].id;
    }
    if same(category, "eyes") {
        return all_eyes()[0].id;
    }
    match parts::category(category) {
        Some(c) => c.variants[0].id,
        None => {
            proof {
                reveal_strlit("");
                assert(""@ =~= Seq::<char>::empty());
            }
            ""
        },
    }
}

impl CharacterConfig {
    /// The part chosen for a category, or the first of its table if none is. For an unknown
    /// category that is the empty text.
    pub fn part(&self, category: &str) -> (r: &str)
        ensures
            r@ == chosen_part(self@.parts, category@),
    {
        let ghost all = part_views(self.parts@);
        let mut i: usize = 0;
        assert(all.skip(0) =~= all);
        while i < self.parts.len()
            invariant
                i <= self.parts@.len(),
                all == part_views(self.parts@),
                chosen_part(all.skip(i as int), category@) == chosen_part(all, category@),
            decreases self.parts@.len() - i,
        {
            assert(all.skip(i as int)[0] == (self.parts@[i as int].0@, self.parts@[i as int].1@));
            if same(self.parts[i].0.as_str(), category) {
                return self.parts[i].1.as_str();
            }
            assert(all.skip(i as int).drop_first() =~= all.skip(i + 1));
            i += 1;
        }
        default_of(category)
    }

    /// The adjustment made to a category, brought within reason.
    pub fn tweak(&self, category: &str) -> (r: Tweak)
        ensures
            r == reasonable(chosen_tweak(self@.tweaks, category@)),
    {
        let ghost all = tweak_views(self.tweaks@);
        let mut i: usize = 0;
        assert(all.skip(0) =~= all);
        while i < self.tweaks.len()
            invariant
                i <= self.tweaks@.len(),
                all == tweak_views(self.tweaks@),
                chosen_tweak(all.skip(i as int), category@) == chosen_tweak(all, category@),
            decreases self.tweaks@.len() - i,
        {
            assert(all.skip(i as int)[0] == (self.tweaks@[i as int].0@, self.tweaks@[i as int].1));
            if same(self.tweaks[i].0.as_str(), category) {
                return self.tweaks[i].1.clamped();
            }
            assert(all.skip(i as int).drop_first() =~= all.skip(i + 1));
            i += 1;
        }
        Tweak::default().clamped()
    }

    /// Chooses a part for a category.
    pub fn set_part(&mut self, category: &str, part: &str)
        ensures
            final(self)@ == (ConfigView {
                parts: with_part(old(self)@.parts, category@, part@),
                ..old(self)@
            }),
    {
        let ghost all = part_views(self.parts@);
        let ghost others = self@;
        let n: usize = self.parts.len();
        let mut i: usize = 0;
        assert(all.take(0) + with_part(all.skip(0), category@, part@) =~= with_part(
            all,
            category@,
            part@,
        )) by {
            assert(all.skip(0) =~= all);
        }
        while i < n
            invariant
                i <= n,
                n == self.parts@.len(),
                self@ == others,
                others == old(self)@,
                all == others.parts,
                all == part_views(self.parts@),
                all.take(i as int) + with_part(all.skip(i as int), category@, part@) == with_part(
                    all,
                    category@,
                    part@,
                ),
            decreases n - i,
        {
            let ghost here = all.skip(i as int);
            assert(here[0] == (self.parts@[i as int].0@, self.parts@[i as int].1@));
            if same(self.parts[i].0.as_str(), category) {
                let chosen = pair_of(category, part);
                self.parts.set(i, chosen);
                proof {
                    assert(part_views(self.parts@) =~= all.take(i as int) + (seq![
                        (category@, part@),
                    ] + here.drop_first()));
                    assert(self@ =~= (ConfigView {
                        parts: with_part(all, category@, part@),
                        ..others
                    }));
                }
                return;
            }
            proof {
                assert(here.drop_first() =~= all.skip(i + 1));
                assert(all.take(i as int) + (seq![here[0]] + with_part(
                    all.skip(i + 1),
                    category@,
                    part@,
                )) =~= all.take(i + 1) + with_part(all.skip(i + 1), category@, part@));
            }
            i += 1;
        }
        let chosen = pair_of(category, part);
        self.parts.push(chosen);
        proof {
            assert(all.skip(n as int) =~= Seq::<(Seq<char>, Seq<char>)>::empty());
            assert(part_views(self.parts@) =~= all.take(n as int) + seq![(category@, part@)]);
            assert(self@ =~= (ConfigView {
                parts: with_part(all, category@, part@),
                ..others
            }));
        }
    }
}

// ---- the comment ----------------------------------------------------------------------------

/// The line chosen for a kind.
pub open spec fn chosen_line(cat: CategoryView, cfg: ConfigView) -> LinePart {
    cat.variants[chosen_index(line_ids(cat.variants), chosen_part(cfg.parts, cat.id@))]
}

/// What a comment says of a kind of line.
pub open spec fn line_note(cat: CategoryView, cfg: ConfigView) -> Seq<char> {
    cat.label@ + ": "@ + chosen_line(cat, cfg).label@
}

/// What a comment says of the parts that a figure is made of.
pub open spec fn notes(cfg: ConfigView) -> Seq<Seq<char>> {
    seq![
        "顔のライン: "@ + face_table()[chosen_index(
            face_ids(face_table()),
            chosen_part(cfg.parts, "face"@),
        )].label@ + " / 目: "@ + eye_table()[chosen_index(
            eye_ids(eye_table()),
            chosen_part(cfg.parts, "eyes"@),
        )].label@,
        separated(
            Seq::new(line_table().len(), |i: int| line_note(line_table()[i], cfg)),
            " / "@,
        ),
    ]
}

fn line_notes(all: &Vec<LineCategory>, cfg: &CharacterConfig) -> (r: Vec<String>)
    requires
        forall|i: int| 0 <= i < all@.len() ==> (#[trigger] all@[i]).variants@.len() > 0,
    ensures
        texts(r@) == Seq::new(all@.len(), |i: int| line_note(category_views(all@)[i], cfg@)),
{
    let mut out: Vec<String> = Vec::new();
    let mut i: usize = 0;
    while i < all.len()
        invariant
            i <= all@.len(),
            forall|i: int| 0 <= i < all@.len() ==> (#[trigger] all@[i]).variants@.len() > 0,
            out@.len() == i,
            forall|k: int|
                0 <= k < i ==> (#[trigger] out@[k])@ == line_note(category_views(all@)[k], cfg@),
        decreases all@.len() - i,
    {
        let cat = &all[i];
        let part = line_part(cat, cfg.part(cat.id));
        assert(category_views(all@)[i as int] == cat@);
        out.push(join3(cat.label, ": ", part.label));
        i += 1;
    }
    assert(texts(out@) =~= Seq::new(all@.len(), |i: int| line_note(category_views(all@)[i], cfg@)));
    out
}

/// What a comment says of the parts that a figure is made of.
pub fn notes_of(cfg: &CharacterConfig) -> (r: Vec<String>)
    ensures
        texts(r@) == notes(cfg@),
{
    let mut first = "顔のライン: ".to_owned();
    first.append(face(cfg.part("face")).label);
    first.append(" / 目: ");
    first.append(eyes(cfg.part("eyes")).label);
    let all = line_categories();
    let second = join_with(&line_notes(&all, cfg), " / ");
    proof {
        assert(category_views(all@).len() == all@.len());
        assert(Seq::new(all@.len(), |i: int| line_note(category_views(all@)[i], cfg@)) =~= Seq::new(
            line_table().len(),
            |i: int| line_note(line_table()[i], cfg@),
        ));
    }
    let mut out: Vec<String> = Vec::new();
    out.push(first);
    out.push(second);
    assert(texts(out@) =~= notes(cfg@));
    out
}

// ---- drafts ---------------------------------------------------------------------------------

/// The numbers of a figure, as they are to be written.
#[derive(Debug, Clone, PartialEq, Eq)]
pub struct Measures {
    pub bar: Pair,
    pub dock: Pair,
    pub eye_polygon: Option<Vec<Pair>>,
    pub eye_v: String,
    pub eye_gap: Pair,
    pub eye_bar: Pair,
    pub eye_dock: Pair,
    pub eye_radius: String,
}

/// Whether a pair shows two numbers, given in thousandths, as `number` writes them.
pub open spec fn shows_pair<N: Fn(u32) -> String>(number: N, p: Pair, x: u32, y: u32) -> bool {
    call_ensures(number, (x,), p.x) && call_ensures(number, (y,), p.y)
}

/// Whether an outline runs along a smooth curve from the first of these points, as `smooth`
/// draws it, and is the right half of a body.
pub open spec fn is_half_path<N: Fn(u32) -> String, S: Fn(&Vec<(u32, u32)>) -> Vec<StepDraft>>(
    number: N,
    smooth: S,
    points: Vec<(u32, u32)>,
    start: Pair,
    steps: Vec<StepDraft>,
    outline: OutlineDraft,
) -> bool {
    &&& points@.len() > 0
    &&& shows_pair(number, start, points@[0].0, points@[0].1)
    &&& call_ensures(smooth, (&points,), steps)
    &&& outline matches OutlineDraft::Path { half, d } && half && d@ == path_text(start@, steps@)
}

/// Whether an outline is that of a form: the upper corners alike and the lower corners alike, a
/// capsule, or half a path through the points of a silhouette.
pub open spec fn is_outline_of<N: Fn(u32) -> String, S: Fn(&Vec<(u32, u32)>) -> Vec<StepDraft>>(
    form: Form,
    number: N,
    smooth: S,
    outline: OutlineDraft,
) -> bool {
    match form {
        Form::Corners { top, bottom } => outline matches OutlineDraft::Corners {
            top_left,
            top_right,
            bottom_right,
            bottom_left,
        } && shows_pair(number, top_left, top@[0], top@[1]) && shows_pair(
            number,
            top_right,
            top@[0],
            top@[1],
        ) && shows_pair(number, bottom_right, bottom@[0], bottom@[1]) && shows_pair(
            number,
            bottom_left,
            bottom@[0],
            bottom@[1],
        ),
        Form::Capsule => outline is Capsule,
        Form::Silhouette(s) => exists|points: Vec<(u32, u32)>, start: Pair, steps: Vec<StepDraft>|
            int_points(points@) == silhouette(s) && #[trigger] is_half_path(
                number,
                smooth,
                points,
                start,
                steps,
                outline,
            ),
    }
}

fn pair_text(x: u32, y: u32, number: &impl Fn(u32) -> String) -> (r: Pair)
    requires
        forall|n: u32| call_requires(number, (n,)),
    ensures
        shows_pair(*number, r, x, y),
{
    Pair { x: number(x), y: number(y) }
}

/// The outline of a form. `number` writes a number that is given in thousandths, and `smooth`
/// draws a smooth curve through points that are given so.
pub fn outline_of(
    form: &Form,
    number: &impl Fn(u32) -> String,
    smooth: &impl Fn(&Vec<(u32, u32)>) -> Vec<StepDraft>,
) -> (r: OutlineDraft)
    requires
        forall|n: u32| call_requires(number, (n,)),
        forall|points: Vec<(u32, u32)>| #[trigger] call_requires(smooth, (&points,)),
    ensures
        is_outline_of(*form, *number, *smooth, r),
{
    match form {
        Form::Corners { top, bottom } => OutlineDraft::Corners {
            top_left: pair_text(top[0], top[1], number),
            top_right: pair_text(top[0], top[1], number),
            bottom_right: pair_text(bottom[0], bottom[1], number),
            bottom_left: pair_text(bottom[0], bottom[1], number),
        },
        Form::Capsule => OutlineDraft::Capsule,
        Form::Silhouette(s) => {
            let points = silhouette_points(s);
            assert(int_points(points@).len() == points@.len());
            let start = pair_text(points[0].0, points[0].1, number);
            let steps = smooth(&points);
            let r = OutlineDraft::Path { half: true, d: path_d(&start, &steps) };
            assert(is_half_path(*number, *smooth, points, start, steps, r));
            r
        },
    }
}

/// The form of the outline that a configuration chooses.
pub open spec fn chosen_form(cfg: ConfigView) -> Form {
    face_table()[chosen_index(face_ids(face_table()), chosen_part(cfg.parts, "face"@))].form
}

/// The colour to write for the eyes: none for the plain colour, since a colour that is written
/// replaces the rules for the states, and none for an unknown one.
pub open spec fn written_color(color: Seq<char>) -> Option<Seq<char>> {
    if color == "eye"@ || color.len() == 0 {
        None
    } else {
        match color_named(color) {
            Some(c) => Some(color_name(c)),
            None => None,
        }
    }
}

/// Whether a draft is that of a configuration with these numbers, but for the outline.
pub open spec fn is_draft_of(
    d: Draft,
    cfg: ConfigView,
    m: Measures,
    details: Vec<DetailDraft>,
    config_json: Option<String>,
) -> bool {
    &&& d.id@ == trimmed(cfg.id)
    &&& d.label@ == trimmed(cfg.name)
    &&& opt_text(d.author) == cfg.author
    &&& d.bar == m.bar
    &&& d.dock == m.dock
    &&& d.eye_polygon == m.eye_polygon
    &&& d.eye_v == m.eye_v
    &&& d.eye_gap == m.eye_gap
    &&& d.eye_bar == m.eye_bar
    &&& d.eye_dock == m.eye_dock
    &&& d.eye_radius == m.eye_radius
    &&& opt_text(d.eye_color) == written_color(cfg.eye_color)
    &&& d.details == details
    &&& texts(d.notes@) == notes(cfg)
    &&& d.config_json == config_json
}

/// The draft of a configuration, given the numbers calculated for it, its panel lines and
/// itself on one line. For `number` and `smooth` see `outline_of`.
pub fn draft_of(
    cfg: &CharacterConfig,
    m: Measures,
    details: Vec<DetailDraft>,
    config_json: Option<String>,
    number: &impl Fn(u32) -> String,
    smooth: &impl Fn(&Vec<(u32, u32)>) -> Vec<StepDraft>,
) -> (r: Draft)
    requires
        forall|n: u32| call_requires(number, (n,)),
        forall|points: Vec<(u32, u32)>| #[trigger] call_requires(smooth, (&points,)),
    ensures
        is_draft_of(r, cfg@, m, details, config_json),
        is_outline_of(chosen_form(cfg@), *number, *smooth, r.outline),
{
    let eye_color = if same(cfg.eye_color.as_str(), "eye") || cfg.eye_color.as_str().is_empty() {
        None
    } else {
        match EyeColor::parse(cfg.eye_color.as_str()) {
            Some(c) => Some(c.as_str().to_owned()),
            None => None,
        }
    };
    Draft {
        id: trim(cfg.id.as_str()),
        label: trim(cfg.name.as_str()),
        author: cfg.author.clone(),
        bar: m.bar,
        dock: m.dock,
        outline: outline_of(&face(cfg.part("face")).form, number, smooth),
        eye_polygon: m.eye_polygon,
        eye_v: m.eye_v,
        eye_gap: m.eye_gap,
        eye_bar: m.eye_bar,
        eye_dock: m.eye_dock,
        eye_radius: m.eye_radius,
        eye_color,
        details,
        notes: notes_of(cfg),
        config_json,
    }
}

/// The draft with a name that is always accepted, for a preview while the name is being
/// mended.
pub fn safe_draft(d: Draft) -> (r: Draft)
    ensures
        r.id@ == "draft"@,
        trimmed(d.label@).len() > 0 ==> r.label == d.label,
        trimmed(d.label@).len() == 0 ==> r.label@ == "（名前なし）"@,
        r == (Draft { id: r.id, label: r.label, ..d }),
{
    let mut safe = d;
    safe.id = "draft".to_owned();
    if trim(safe.label.as_str()).as_str().is_empty() {
        safe.label = "（名前なし）".to_owned();
    }
    safe
}

/// What is wrong with a figure: what is wrong with its text, and what is wrong with its shape
/// only if its text could be read.
pub fn problems_of(text: Vec<Problem>, shape: Vec<Problem>) -> (r: Vec<Problem>)
    ensures
        r == if text@.len() == 0 {
            shape
        } else {
            text
        },
{
    if text.len() == 0 {
        shape
    } else {
        text
    }
}

// ---- fitting the eyes -----------------------------------------------------------------------

/// Whether a problem goes away when the eyes are smaller.
pub open spec fn about_eyes(p: Problem) -> bool {
    p.code == ProblemCode::EyesOutsideBody || p.code == ProblemCode::EyesTooWide
}

/// Whether the problems of a face say that its eyes are too big.
pub fn eyes_too_big(problems: &Vec<Problem>) -> (r: bool)
    ensures
        r == exists|i: int| 0 <= i < problems@.len() && about_eyes(#[trigger] problems@[i]),
{
    let mut i: usize = 0;
    while i < problems.len()
        invariant
            i <= problems@.len(),
            forall|k: int| 0 <= k < i ==> !about_eyes(#[trigger] problems@[k]),
        decreases problems@.len() - i,
    {
        match problems[i].code {
            ProblemCode::EyesOutsideBody | ProblemCode::EyesTooWide => {
                assert(about_eyes(problems@[i as int]));
                return true;
            },
            _ => {},
        }
        i += 1;
    }
    false
}

/// How often the eyes are made smaller at most.
pub const EYE_FIT_STEPS: usize = 10;

/// Whether the answers are what `too_big` gives for so many steps, and end as the search ends.
pub open spec fn fitted<F: Fn(usize) -> bool>(
    too_big: F,
    answers: Seq<bool>,
    steps: usize,
) -> bool {
    &&& steps <= EYE_FIT_STEPS
    &&& answers.len() == if steps < EYE_FIT_STEPS {
        steps + 1
    } else {
        EYE_FIT_STEPS as int
    }
    &&& forall|i: int|
        0 <= i < answers.len() ==> call_ensures(too_big, (i as usize,), #[trigger] answers[i])
    &&& forall|i: int| 0 <= i < steps ==> #[trigger] answers[i]
    &&& steps < EYE_FIT_STEPS ==> !answers[steps as int]
}

/// How often the eyes must be made smaller until they fit. `too_big` says whether they do not
/// fit after so many steps. After the last step they are taken as they are.
pub fn fit_eyes(too_big: impl Fn(usize) -> bool) -> (r: usize)
    requires
        forall|steps: usize| steps < EYE_FIT_STEPS ==> #[trigger] call_requires(too_big, (steps,)),
    ensures
        exists|answers: Seq<bool>| #[trigger] fitted(too_big, answers, r),
{
    let ghost mut answers: Seq<bool> = Seq::empty();
    let mut steps: usize = 0;
    while steps < EYE_FIT_STEPS
        invariant
            steps <= EYE_FIT_STEPS,
            forall|steps: usize|
                steps < EYE_FIT_STEPS ==> #[trigger] call_requires(too_big, (steps,)),
            answers.len() == steps,
            forall|i: int|
                0 <= i < answers.len() ==> #[trigger] answers[i] && call_ensures(
                    too_big,
                    (i as usize,),
                    answers[i],
                ),
        decreases EYE_FIT_STEPS - steps,
    {
        let bad = too_big(steps);
        let ghost more = answers.push(bad);
        assert forall|i: int| 0 <= i < more.len() implies call_ensures(
            too_big,
            (i as usize,),
            #[trigger] more[i],
        ) by {
            if i < steps {
                assert(more[i] == answers[i]);
            }
        }
        if !bad {
            assert forall|i: int| 0 <= i < steps implies #[trigger] more[i] by {
                assert(more[i] == answers[i]);
            }
            assert(fitted(too_big, more, steps));
            return steps;
        }
        proof {
            answers = more;
        }
        steps += 1;
    }
    assert(fitted(too_big, answers, steps));
    steps
}

// ---- panel lines ----------------------------------------------------------------------------

/// A panel line of a figure, before its points are calculated.
#[derive(Debug, Clone, PartialEq, Eq)]
pub struct LinePlan {
    pub name: String,
    pub on_bar: bool,
    /// Whether it is the left one of a pair: the right one, mirrored.
    pub flipped: bool,
    pub part: LinePart,
    pub tweak: Tweak,
}

/// What a `LinePlan` holds.
#[verifier::ext_equal]
pub struct PlanView {
    pub name: Seq<char>,
    pub on_bar: bool,
    pub flipped: bool,
    pub part: LinePart,
    pub tweak: Tweak,
}

impl View for LinePlan {
    type V = PlanView;

    open spec fn view(&self) -> PlanView {
        PlanView {
            name: self.name@,
            on_bar: self.on_bar,
            flipped: self.flipped,
            part: self.part,
            tweak: self.tweak,
        }
    }
}

/// What the plans of a list hold.
pub open spec fn plan_views(v: Seq<LinePlan>) -> Seq<PlanView> {
    Seq::new(v.len(), |i: int| v[i]@)
}

/// The panel lines for a kind: none if the part draws nothing, two for a pair.
pub open spec fn plans_for(cat: CategoryView, cfg: ConfigView) -> Seq<PlanView> {
    let part = chosen_line(cat, cfg);
    let tweak = reasonable(chosen_tweak(cfg.tweaks, cat.id@));
    let on_bar = match tweak.bar {
        Some(b) => b,
        None => cat.on_bar,
    };
    if part.curve == Curve::Nothing {
        Seq::empty()
    } else if part.mirror {
        seq![
            PlanView { name: cat.id@ + "-r"@, on_bar, flipped: false, part, tweak },
            PlanView { name: cat.id@ + "-l"@, on_bar, flipped: true, part, tweak },
        ]
    } else {
        seq![PlanView { name: cat.id@, on_bar, flipped: false, part, tweak }]
    }
}

/// The panel lines for the first `n` kinds.
pub open spec fn plans(cats: Seq<CategoryView>, cfg: ConfigView) -> Seq<PlanView>
    decreases cats.len(),
{
    if cats.len() == 0 {
        Seq::empty()
    } else {
        plans(cats.drop_last(), cfg) + plans_for(cats.last(), cfg)
    }
}

fn plan_one(cat: &LineCategory, cfg: &CharacterConfig, out: &mut Vec<LinePlan>)
    requires
        cat.variants@.len() > 0,
    ensures
        plan_views(final(out)@) == plan_views(old(out)@) + plans_for(cat@, cfg@),
{
    let ghost before = out@;
    let part = line_part(cat, cfg.part(cat.id));
    let tweak = cfg.tweak(cat.id);
    let on_bar = match tweak.bar {
        Some(b) => b,
        None => cat.on_bar,
    };
    if part.curve == Curve::Nothing {
        assert(plan_views(out@) =~= plan_views(before) + plans_for(cat@, cfg@));
    } else if part.mirror {
        let right = LinePlan { name: join2(cat.id, "-r"), on_bar, flipped: false, part, tweak };
        let left = LinePlan { name: join2(cat.id, "-l"), on_bar, flipped: true, part, tweak };
        out.push(right);
        out.push(left);
        assert(plan_views(out@) =~= plan_views(before) + plans_for(cat@, cfg@));
    } else {
        out.push(LinePlan { name: cat.id.to_owned(), on_bar, flipped: false, part, tweak });
        assert(plan_views(out@) =~= plan_views(before) + plans_for(cat@, cfg@));
    }
}

/// The panel lines of a figure, before their points are calculated. A pair is calculated once
/// and mirrored, so that its two sides cannot differ.
pub fn line_details(cfg: &CharacterConfig) -> (r: Vec<LinePlan>)
    ensures
        plan_views(r@) == plans(line_table(), cfg@),
{
    let all = line_categories();
    let ghost views = category_views(all@);
    let mut out: Vec<LinePlan> = Vec::new();
    let mut i: usize = 0;
    assert(plan_views(out@) =~= plans(views.take(0), cfg@));
    while i < all.len()
        invariant
            i <= all@.len(),
            views == category_views(all@),
            forall|k: int| 0 <= k < all@.len() ==> (#[trigger] all@[k]).variants@.len() > 0,
            plan_views(out@) == plans(views.take(i as int), cfg@),
        decreases all@.len() - i,
    {
        assert(views.take(i + 1).drop_last() =~= views.take(i as int));
        assert(views.take(i + 1).last() == all@[i as int]@);
        plan_one(&all[i], cfg, &mut out);
        i += 1;
    }
    assert(views.take(views.len() as int) =~= views);
    out
}

// ---- chance ---------------------------------------------------------------------------------

/// A generator of numbers that look random and are determined by its state.
#[derive(Debug, Clone, Copy, PartialEq, Eq, Structural)]
pub struct Rng {
    pub state: u64,
}

/// The state after one number.
pub open spec fn stepped(state: u64) -> u64 {
    state.wrapping_add(0x9e37_79b9_7f4a_7c15)
}

/// The state after so many numbers.
pub open spec fn stepped_by(state: u64, n: nat) -> u64
    decreases n,
{
    if n == 0 {
        state
    } else {
        stepped(stepped_by(state, (n - 1) as nat))
    }
}

/// The number that a state gives.
pub open spec fn mixed(state: u64) -> u64 {
    let a = (state ^ (state >> 30)).wrapping_mul(0xbf58_476d_1ce4_e5b9);
    let b = (a ^ (a >> 27)).wrapping_mul(0x94d0_49bb_1331_11eb);
    b ^ (b >> 31)
}

/// The place among `n` that the number `k` from a state on chooses.
pub open spec fn picked(state: u64, k: nat, n: nat) -> int {
    mixed(stepped_by(state, k + 1)) as int % n as int
}

impl Rng {
    /// The next number.
    pub fn next(&mut self) -> (r: u64)
        ensures
            final(self).state == stepped(old(self).state),
            r == mixed(final(self).state),
    {
        self.state = self.state.wrapping_add(0x9e37_79b9_7f4a_7c15);
        let z: u64 = self.state;
        let a: u64 = (z ^ (z >> 30)).wrapping_mul(0xbf58_476d_1ce4_e5b9);
        let b: u64 = (a ^ (a >> 27)).wrapping_mul(0x94d0_49bb_1331_11eb);
        b ^ (b >> 31)
    }

    /// A place among `n`.
    pub fn pick(&mut self, n: usize) -> (r: usize)
        requires
            n > 0,
        ensures
            final(self).state == stepped(old(self).state),
            r == mixed(final(self).state) as int % n as int,
            r < n,
    {
        let m: u64 = n as u64;
        (self.next() % m) as usize
    }
}

/// The parts that the numbers from a state on choose.
pub open spec fn random_parts(state: u64) -> Seq<(Seq<char>, Seq<char>)> {
    seq![
        ("face"@, face_table()[picked(state, 0, face_table().len())].id@),
        ("eyes"@, eye_table()[picked(state, 1, eye_table().len())].id@),
    ] + Seq::new(
        line_table().len(),
        |k: int|
            (
                line_table()[k].id@,
                line_table()[k].variants[picked(
                    state,
                    (k + 2) as nat,
                    line_table()[k].variants.len(),
                )].id@,
            ),
    )
}

/// How many numbers one figure takes.
pub open spec fn numbers_per_figure() -> nat {
    2 + line_table().len()
}

/// The configuration that attempt `i` makes, keeping what is not chosen by chance.
pub open spec fn random_config(seed: u64, i: nat, keep: ConfigView) -> ConfigView {
    ConfigView {
        parts: random_parts(stepped_by(seed, i * numbers_per_figure())),
        tweaks: Seq::empty(),
        eye_color: "eye"@,
        ..keep
    }
}

/// How many attempts are made.
pub const RANDOM_ATTEMPTS: usize = 64;

fn random_part_list(rng: &mut Rng) -> (r: Vec<(String, String)>)
    ensures
        part_views(r@) == random_parts(old(rng).state),
        final(rng).state == stepped_by(old(rng).state, numbers_per_figure()),
{
    let ghost seed = rng.state;
    let mut out: Vec<(String, String)> = Vec::new();
    let outlines = faces();
    let at = rng.pick(outlines.len());
    proof {
        reveal_with_fuel(stepped_by, 3);
    }
    out.push(pair_of("face", outlines[at].id));
    let looks = all_eyes();
    let at = rng.pick(looks.len());
    out.push(pair_of("eyes", looks[at].id));
    let cats = line_categories();
    let ghost views = category_views(cats@);
    let mut i: usize = 0;
    let ghost whole = random_parts(seed);
    assert(views.len() == cats@.len());
    assert(part_views(out@) =~= whole.take(2));
    while i < cats.len()
        invariant
            i <= cats@.len(),
            views == category_views(cats@),
            views == line_table(),
            whole == random_parts(seed),
            forall|k: int| 0 <= k < cats@.len() ==> (#[trigger] cats@[k]).variants@.len() > 0,
            part_views(out@) == whole.take(2 + i),
            rng.state == stepped_by(seed, (2 + i) as nat),
        decreases cats@.len() - i,
    {
        let cat = &cats[i];
        assert(views[i as int] == cat@);
        let at = rng.pick(cat.variants.len());
        let ghost before = out@;
        out.push(pair_of(cat.id, cat.variants[at].id));
        proof {
            assert(whole[2 + i] == (cat.id@, cat.variants@[at as int].id@));
            assert(part_views(out@) =~= part_views(before).push(whole[2 + i]));
            assert(whole.take(2 + i + 1) =~= whole.take(2 + i).push(whole[2 + i]));
        }
        i += 1;
    }
    assert(whole.take(whole.len() as int) =~= whole);
    out
}

/// Whether `verdict` is what `valid` gives for a configuration.
pub open spec fn judged<F: Fn(&CharacterConfig) -> bool>(
    valid: F,
    cfg: ConfigView,
    verdict: bool,
) -> bool {
    exists|c: CharacterConfig| c@ == cfg && #[trigger] call_ensures(valid, (&c,), verdict)
}

/// Whether the verdicts are what `valid` gives for the attempts, one each, and end as the
/// search ends: with the first that is accepted, or with the last attempt.
pub open spec fn searched<F: Fn(&CharacterConfig) -> bool>(
    valid: F,
    seed: u64,
    keep: ConfigView,
    verdicts: Seq<bool>,
) -> bool {
    &&& 1 <= verdicts.len() <= RANDOM_ATTEMPTS
    &&& forall|i: int|
        0 <= i < verdicts.len() ==> judged(
            valid,
            random_config(seed, i as nat, keep),
            #[trigger] verdicts[i],
        )
    &&& forall|i: int| 0 <= i < verdicts.len() - 1 ==> !#[trigger] verdicts[i]
    &&& verdicts.last() || verdicts.len() == RANDOM_ATTEMPTS
}

/// A figure by chance. `valid` says whether a figure can be used; the first one that can is
/// taken, and the last one if none can. Id, name, author and preview are kept.
pub fn random(
    seed: u64,
    keep: &CharacterConfig,
    valid: impl Fn(&CharacterConfig) -> bool,
) -> (r: CharacterConfig)
    requires
        forall|c: &CharacterConfig| call_requires(valid, (c,)),
    ensures
        exists|verdicts: Seq<bool>| #[trigger]
            searched(valid, seed, keep@, verdicts) && r@ == random_config(
                seed,
                (verdicts.len() - 1) as nat,
                keep@,
            ),
{
    let mut rng = Rng { state: seed };
    let ghost mut verdicts: Seq<bool> = Seq::empty();
    let mut tried: usize = 0;
    let mut last = keep.clone();
    while tried < RANDOM_ATTEMPTS
        invariant
            tried <= RANDOM_ATTEMPTS,
            forall|c: &CharacterConfig| call_requires(valid, (c,)),
            verdicts.len() == tried,
            rng.state == stepped_by(seed, tried as nat * numbers_per_figure()),
            forall|i: int|
                0 <= i < verdicts.len() ==> !(#[trigger] verdicts[i]) && judged(
                    valid,
                    random_config(seed, i as nat, keep@),
                    verdicts[i],
                ),
            tried > 0 ==> last@ == random_config(seed, (tried - 1) as nat, keep@),
        decreases RANDOM_ATTEMPTS - tried,
    {
        let ghost state = rng.state;
        let mut cfg = keep.clone();
        cfg.parts = random_part_list(&mut rng);
        cfg.tweaks = Vec::new();
        cfg.eye_color = "eye".to_owned();
        proof {
            assert(tweak_views(cfg.tweaks@) =~= Seq::<(Seq<char>, Tweak)>::empty());
            assert(cfg@ =~= random_config(seed, tried as nat, keep@));
            lemma_stepped_adds(
                seed,
                tried as nat * numbers_per_figure(),
                numbers_per_figure(),
            );
            assert(tried as nat * numbers_per_figure() + numbers_per_figure() == (tried + 1)
                * numbers_per_figure()) by (nonlinear_arith);
        }
        let verdict = valid(&cfg);
        let ghost more = verdicts.push(verdict);
        proof {
            assert(judged(valid, cfg@, verdict));
            assert forall|i: int| 0 <= i < more.len() implies judged(
                valid,
                random_config(seed, i as nat, keep@),
                #[trigger] more[i],
            ) by {
                if i < tried {
                    assert(more[i] == verdicts[i]);
                }
            }
        }
        if verdict {
            proof {
                assert forall|i: int| 0 <= i < more.len() - 1 implies !#[trigger] more[i] by {
                    assert(more[i] == verdicts[i]);
                }
                assert(searched(valid, seed, keep@, more));
            }
            return cfg;
        }
        proof {
            verdicts = more;
        }
        last = cfg;
        tried += 1;
    }
    assert(searched(valid, seed, keep@, verdicts));
    last
}

proof fn lemma_stepped_adds(state: u64, a: nat, b: nat)
    ensures
        stepped_by(stepped_by(state, a), b) == stepped_by(state, a + b),
    decreases b,
{
    if b > 0 {
        lemma_stepped_adds(state, a, (b - 1) as nat);
    }
}

/// Whether an id can be the name of a file.
pub fn is_saveable_id(id: &str) -> (r: bool)
    ensures
        r == valid_id(id@),
{
    is_valid_id(id)
}

// ---- laws -----------------------------------------------------------------------------------

/// A part that was chosen is the part of its category; the other categories keep theirs.
pub proof fn law_choosing_a_part(
    parts: Seq<(Seq<char>, Seq<char>)>,
    category: Seq<char>,
    part: Seq<char>,
    other: Seq<char>,
)
    ensures
        chosen_part(with_part(parts, category, part), category) == part,
        other != category ==> chosen_part(with_part(parts, category, part), other) == chosen_part(
            parts,
            other,
        ),
    decreases parts.len(),
{
    let after = with_part(parts, category, part);
    if parts.len() == 0 {
        assert(after.drop_first() =~= parts);
    } else if parts[0].0 == category {
        assert(after.drop_first() =~= parts.drop_first());
    } else {
        law_choosing_a_part(parts.drop_first(), category, part, other);
        assert(after.drop_first() =~= with_part(parts.drop_first(), category, part));
    }
}

/// Whether no part is chosen for a category.
pub open spec fn is_unset(parts: Seq<(Seq<char>, Seq<char>)>, category: Seq<char>) -> bool {
    forall|i: int| 0 <= i < parts.len() ==> (#[trigger] parts[i]).0 != category
}

/// A category for which nothing is chosen has its default.
pub proof fn law_an_unset_category_has_its_default(
    parts: Seq<(Seq<char>, Seq<char>)>,
    category: Seq<char>,
)
    requires
        is_unset(parts, category),
    ensures
        chosen_part(parts, category) == default_part(category),
    decreases parts.len(),
{
    if parts.len() > 0 {
        let rest = parts.drop_first();
        assert forall|i: int| 0 <= i < rest.len() implies (#[trigger] rest[i]).0 != category by {
            assert(rest[i] == parts[i + 1]);
        }
        assert(parts[0].0 != category);
        law_an_unset_category_has_its_default(rest, category);
    }
}

/// The defaults are the first rows of the tables: the egg, round beads, and no lines. A category
/// that is none of these has no default.
pub proof fn law_defaults_are_the_first_rows(category: Seq<char>)
    ensures
        default_part("face"@) == "egg"@,
        default_part("eyes"@) == "bead"@,
        category != "face"@ && category != "eyes"@ ==> default_part(category) == if category_ids(
            line_table(),
        ).contains(category) {
            "none"@
        } else {
            Seq::empty()
        },
{
    reveal_strlit("face");
    reveal_strlit("eyes");
    assert("face"@[0] != "eyes"@[0]);
    tables::tables_begin_with_the_defaults();
    lemma_id_index(category_ids(line_table()), category);
}

proof fn lemma_id_index(ids: Seq<Seq<char>>, id: Seq<char>)
    ensures
        0 <= id_index(ids, id) <= ids.len(),
        ids.contains(id) == (id_index(ids, id) < ids.len()),
    decreases ids.len(),
{
    if ids.len() > 0 {
        let rest = ids.drop_first();
        lemma_id_index(rest, id);
        if ids[0] == id {
        } else if rest.contains(id) {
            let k = choose|k: int| 0 <= k < rest.len() && rest[k] == id;
            assert(ids[k + 1] == id);
        } else if ids.contains(id) {
            let k = choose|k: int| 0 <= k < ids.len() && ids[k] == id;
            assert(rest[k - 1] == id);
        }
    }
}

/// An adjustment within reason is within the limits, or not a number where it may be none.
pub proof fn law_adjustments_are_within_reason(t: Tweak)
    ensures
        ({
            let r = reasonable(t);
            &&& !less(r.dx, Num { bits: MINUS_QUARTER_BITS }) && !less(
                Num { bits: QUARTER_BITS },
                r.dx,
            )
            &&& !less(r.dy, Num { bits: MINUS_QUARTER_BITS }) && !less(
                Num { bits: QUARTER_BITS },
                r.dy,
            )
            &&& finite(r.scale) && !less(r.scale, Num { bits: SCALE_MIN_BITS }) && !less(
                Num { bits: TWO_BITS },
                r.scale,
            )
            &&& finite(r.gap) && !less(r.gap, Num { bits: GAP_MIN_BITS }) && !less(
                Num { bits: GAP_MAX_BITS },
                r.gap,
            )
        }),
{
}

/// Bringing an adjustment within reason twice is doing it once.
pub proof fn law_adjusting_is_idempotent(t: Tweak)
    ensures
        reasonable(reasonable(t)) == reasonable(t),
{
}

/// A figure by chance keeps its id, name, author and preview.
pub proof fn law_chance_keeps_the_name(seed: u64, i: nat, keep: ConfigView)
    ensures
        random_config(seed, i, keep).id == keep.id,
        random_config(seed, i, keep).name == keep.name,
        random_config(seed, i, keep).author == keep.author,
        random_config(seed, i, keep).preview_state == keep.preview_state,
        random_config(seed, i, keep).preview_size == keep.preview_size,
        random_config(seed, i, keep).version == keep.version,
{
}

proof fn lemma_notes_are_no_configuration(cfg: ConfigView, i: int)
    requires
        0 <= i < notes(cfg).len(),
    ensures
        !looks_like_config(notes(cfg)[i]),
{
    tables::line_table_begins_with_hair();
    reveal_strlit("顔のライン: ");
    reveal_strlit("髪");
    reveal_strlit("ccchar: ");
    let note = notes(cfg)[i];
    let all = Seq::new(line_table().len(), |k: int| line_note(line_table()[k], cfg));
    if i == 0 {
        assert(note[0] == '顔');
    } else {
        assert(all[0][0] == '髪');
        lemma_separated_begins(all, " / "@);
    }
    assert(on_one_line(note)[0] != 'c');
    if looks_like_config(note) {
        assert(on_one_line(note).take("ccchar: "@.len() as int)[0] == 'c');
    }
}

proof fn lemma_separated_begins(pieces: Seq<Seq<char>>, sep: Seq<char>)
    requires
        pieces.len() > 0,
        pieces[0].len() > 0,
    ensures
        separated(pieces, sep).len() > 0,
        separated(pieces, sep)[0] == pieces[0][0],
    decreases pieces.len(),
{
    if pieces.len() > 1 {
        lemma_separated_begins(pieces.drop_last(), sep);
    }
}

/// A saved figure can be edited again: the configuration on one line that its draft was made
/// with is read back from the text of the face, without the white space around it.
pub proof fn law_a_saved_figure_can_be_edited_again(
    d: Draft,
    cfg: ConfigView,
    m: Measures,
    details: Vec<DetailDraft>,
    json: String,
)
    requires
        is_draft_of(d, cfg, m, details, Some(json)),
    ensures
        marked(lines(face_text(d))) == Some(trimmed(on_one_line(json@))),
        is_one_line(json@) && trimmed(json@) == json@ ==> marked(lines(face_text(d))) == Some(
            json@,
        ),
{
    assert forall|i: int| 0 <= i < d.notes@.len() implies !looks_like_config(
        (#[trigger] d.notes@[i])@,
    ) by {
        assert(texts(d.notes@)[i] == d.notes@[i]@);
        lemma_notes_are_no_configuration(cfg, i);
    }
    emit::law_the_configuration_is_read_back(d);
    if is_one_line(json@) && trimmed(json@) == json@ {
        emit::law_a_plain_configuration_is_read_back_unchanged(d);
    }
}

/// What a draft is renamed to for a preview is always an id that can be saved.
pub proof fn law_the_safe_name_is_valid()
    ensures
        valid_id("draft"@),
{
    reveal_strlit("draft");
}

// ---- what a figure is made of ---------------------------------------------------------------

/// The kinds of line, in the order in which they are drawn. Hair is drawn in the menu bar too,
/// the others in the dock only.
pub proof fn law_the_kinds_of_line()
    ensures
        line_table().len() == 4,
        line_table()[0].id@ == "hair"@ && line_table()[0].on_bar,
        line_table()[1].id@ == "nose"@ && !line_table()[1].on_bar,
        line_table()[2].id@ == "mouth"@ && !line_table()[2].on_bar,
        line_table()[3].id@ == "side"@ && !line_table()[3].on_bar,
{
    tables::line_table_rows();
}

/// Whether nothing is adjusted in a category.
pub open spec fn is_untouched(tweaks: Seq<(Seq<char>, Tweak)>, category: Seq<char>) -> bool {
    forall|i: int| 0 <= i < tweaks.len() ==> (#[trigger] tweaks[i]).0 != category
}

/// Whether entry `k` is the first adjustment of a category.
pub open spec fn is_first_for(
    tweaks: Seq<(Seq<char>, Tweak)>,
    category: Seq<char>,
    k: int,
) -> bool {
    &&& 0 <= k < tweaks.len()
    &&& tweaks[k].0 == category
    &&& forall|i: int| 0 <= i < k ==> (#[trigger] tweaks[i]).0 != category
}

/// The adjustment of a category is the one that was made to it, and nothing if none was.
pub proof fn law_a_category_has_its_own_adjustment(
    tweaks: Seq<(Seq<char>, Tweak)>,
    category: Seq<char>,
    k: int,
)
    ensures
        is_first_for(tweaks, category, k) ==> chosen_tweak(tweaks, category) == tweaks[k].1,
        is_untouched(tweaks, category) ==> chosen_tweak(tweaks, category) == no_tweak(),
    decreases tweaks.len(),
{
    if tweaks.len() > 0 {
        let rest = tweaks.drop_first();
        law_a_category_has_its_own_adjustment(rest, category, k - 1);
        if is_untouched(tweaks, category) {
            assert(tweaks[0].0 != category);
            assert forall|i: int| 0 <= i < rest.len() implies (#[trigger] rest[i]).0
                != category by {
                assert(rest[i] == tweaks[i + 1]);
            }
        }
        if is_first_for(tweaks, category, k) && k > 0 {
            assert(tweaks[0].0 != category);
            assert(rest[k - 1] == tweaks[k]);
            assert forall|i: int| 0 <= i < k - 1 implies (#[trigger] rest[i]).0 != category by {
                assert(rest[i] == tweaks[i + 1]);
            }
        }
    }
}

/// Without a switch, the lines of a kind are drawn in the menu bar just if the kind is: hair is,
/// and noses, mouths and pieces at the sides are not. A switch decides otherwise.
pub proof fn law_a_line_is_drawn_in_the_bar_with_its_kind(
    cfg: ConfigView,
    c: int,
    i: int,
    k: int,
)
    requires
        0 <= c < line_table().len(),
        0 <= i < plans_for(line_table()[c], cfg).len(),
    ensures
        is_untouched(cfg.tweaks, line_table()[c].id@) ==> plans_for(line_table()[c], cfg)[i].on_bar
            == (line_table()[c].id@ == "hair"@),
        is_first_for(cfg.tweaks, line_table()[c].id@, k) ==> plans_for(line_table()[c], cfg)[i].on_bar
            == match cfg.tweaks[k].1.bar {
            Some(b) => b,
            None => line_table()[c].id@ == "hair"@,
        },
{
    law_the_kinds_of_line();
    law_a_category_has_its_own_adjustment(cfg.tweaks, line_table()[c].id@, k);
    reveal_strlit("hair");
    reveal_strlit("nose");
    reveal_strlit("mouth");
    reveal_strlit("side");
    assert("hair"@[0] == 'h' && "nose"@[0] == 'n' && "mouth"@[0] == 'm' && "side"@[0] == 's');
    assert(c == 0 || c == 1 || c == 2 || c == 3);
}

/// A part that draws nothing gives no line, a pair gives a right one and a left one that mirrors
/// it, and any other part gives one. Lines are named after their kind.
pub proof fn law_how_many_lines_a_part_gives(cat: CategoryView, cfg: ConfigView)
    ensures
        chosen_line(cat, cfg).curve is Nothing ==> plans_for(cat, cfg).len() == 0,
        !(chosen_line(cat, cfg).curve is Nothing) && !chosen_line(cat, cfg).mirror ==> plans_for(
            cat,
            cfg,
        ).len() == 1 && plans_for(cat, cfg)[0].name == cat.id@ && !plans_for(cat, cfg)[0].flipped,
        !(chosen_line(cat, cfg).curve is Nothing) && chosen_line(cat, cfg).mirror ==> {
            let both = plans_for(cat, cfg);
            &&& both.len() == 2
            &&& both[0].name == cat.id@ + "-r"@ && !both[0].flipped
            &&& both[1].name == cat.id@ + "-l"@ && both[1].flipped
            &&& both[0].on_bar == both[1].on_bar
        },
        forall|i: int|
            0 <= i < plans_for(cat, cfg).len() ==> (#[trigger] plans_for(cat, cfg)[i]).part
                == chosen_line(cat, cfg) && plans_for(cat, cfg)[i].tweak == reasonable(
                chosen_tweak(cfg.tweaks, cat.id@),
            ),
{
}

/// The lines of a figure are those of its kinds, hair first, then the nose, the mouth and the
/// sides.
pub proof fn law_a_figure_has_the_lines_of_its_kinds(cfg: ConfigView)
    ensures
        plans(line_table(), cfg) == plans_for(line_table()[0], cfg) + plans_for(
            line_table()[1],
            cfg,
        ) + plans_for(line_table()[2], cfg) + plans_for(line_table()[3], cfg),
{
    law_the_kinds_of_line();
    let t = line_table();
    let three = t.drop_last();
    let two = three.drop_last();
    let one = two.drop_last();
    let none = one.drop_last();
    assert(none.len() == 0);
    assert(plans(none, cfg) =~= Seq::<PlanView>::empty());
    assert(plans(one, cfg) =~= plans_for(t[0], cfg));
    assert(plans(two, cfg) =~= plans_for(t[0], cfg) + plans_for(t[1], cfg));
    assert(plans(three, cfg) =~= plans_for(t[0], cfg) + plans_for(t[1], cfg) + plans_for(
        t[2],
        cfg,
    ));
}

/// The line of a kind is the one that is chosen for it; an unknown choice, or none, is the first
/// of the kind.
pub proof fn law_the_chosen_line_is_drawn(cfg: ConfigView, c: int, i: int)
    requires
        0 <= c < line_table().len(),
        0 <= i < line_table()[c].variants.len(),
    ensures
        chosen_part(cfg.parts, line_table()[c].id@) == line_table()[c].variants[i].id@
            ==> chosen_line(line_table()[c], cfg) == line_table()[c].variants[i],
        !line_ids(line_table()[c].variants).contains(chosen_part(cfg.parts, line_table()[c].id@))
            ==> chosen_line(line_table()[c], cfg) == line_table()[c].variants[0],
{
    tables::law_every_line_can_be_chosen(c, i);
    parts::law_lookups_are_total(
        line_ids(line_table()[c].variants),
        chosen_part(cfg.parts, line_table()[c].id@),
    );
}

/// The limits of adjustments: a quarter of the body for a shift, three tenths to two for a size,
/// and two tenths to three for a gap. A number beyond a limit becomes the limit, and any other
/// stays. The switch for the menu bar stays.
pub proof fn law_what_adjustments_become(t: Tweak)
    ensures
        MINUS_QUARTER_BITS == 0xbfd0_0000_0000_0000 && QUARTER_BITS == 0x3fd0_0000_0000_0000,
        SCALE_MIN_BITS == 0x3fd3_3333_3333_3333 && TWO_BITS == 0x4000_0000_0000_0000,
        GAP_MIN_BITS == 0x3fc9_9999_9999_999a && GAP_MAX_BITS == 0x4008_0000_0000_0000,
        ONE_BITS == 0x3ff0_0000_0000_0000,
        ({
            let r = reasonable(t);
            let low = Num { bits: MINUS_QUARTER_BITS };
            let high = Num { bits: QUARTER_BITS };
            &&& !less(t.dx, low) && !less(high, t.dx) ==> r.dx == t.dx
            &&& less(t.dx, low) ==> r.dx == low
            &&& less(high, t.dx) && !less(t.dx, low) ==> r.dx == high
            &&& !less(t.dy, low) && !less(high, t.dy) ==> r.dy == t.dy
            &&& less(t.dy, low) ==> r.dy == low
            &&& less(high, t.dy) && !less(t.dy, low) ==> r.dy == high
            &&& r.bar == t.bar
        }),
        ({
            let r = reasonable(t);
            let low = Num { bits: SCALE_MIN_BITS };
            let high = Num { bits: TWO_BITS };
            &&& finite(t.scale) && !less(t.scale, low) && !less(high, t.scale) ==> r.scale
                == t.scale
            &&& finite(t.scale) && less(t.scale, low) ==> r.scale == low
            &&& finite(t.scale) && less(high, t.scale) && !less(t.scale, low) ==> r.scale == high
            &&& !finite(t.scale) ==> r.scale == (Num { bits: ONE_BITS })
        }),
        ({
            let r = reasonable(t);
            let low = Num { bits: GAP_MIN_BITS };
            let high = Num { bits: GAP_MAX_BITS };
            &&& finite(t.gap) && !less(t.gap, low) && !less(high, t.gap) ==> r.gap == t.gap
            &&& finite(t.gap) && less(t.gap, low) ==> r.gap == low
            &&& finite(t.gap) && less(high, t.gap) && !less(t.gap, low) ==> r.gap == high
            &&& !finite(t.gap) ==> r.gap == (Num { bits: ONE_BITS })
        }),
{
}

/// The plain colour of the eyes is not written, and neither is one that nobody knows; any other
/// is written by its name.
pub proof fn law_which_eye_color_is_written(color: Seq<char>)
    ensures
        color.len() == 0 || color == "eye"@ ==> written_color(color) is None,
        color == "eye_closed"@ || color == "eye_error"@ || color == "white"@ ==> written_color(
            color,
        ) == Some(color),
        color != "eye"@ && color != "eye_closed"@ && color != "eye_error"@ && color != "white"@
            ==> written_color(color) is None,
{
    reveal_strlit("eye");
    reveal_strlit("eye_closed");
    reveal_strlit("eye_error");
    reveal_strlit("white");
    assert("eye"@.len() == 3 && "eye_closed"@.len() == 10);
    assert("eye_error"@.len() == 9 && "white"@.len() == 5);
}

/// The eyes are made smaller no oftener than they must be: `steps` is the first number of steps
/// after which they fit, or ten if they never do before.
pub proof fn law_eyes_shrink_no_more_than_they_must<F: Fn(usize) -> bool>(
    too_big: F,
    big: spec_fn(usize) -> bool,
    answers: Seq<bool>,
    steps: usize,
)
    requires
        fitted(too_big, answers, steps),
        forall|i: usize, b: bool| #[trigger] call_ensures(too_big, (i,), b) ==> b == big(i),
    ensures
        steps <= 10,
        forall|i: usize| i < steps ==> #[trigger] big(i),
        steps < 10 ==> !big(steps),
{
    assert forall|i: usize| i < steps implies #[trigger] big(i) by {
        assert(answers[i as int]);
        assert(call_ensures(too_big, (i,), answers[i as int]));
    }
    if steps < 10 {
        assert(!answers[steps as int]);
        assert(call_ensures(too_big, (steps,), answers[steps as int]));
    }
}

/// The eyes are too big where they do not lie within the body or are too wide for it, and for no
/// other problem.
pub proof fn law_which_problems_are_about_eyes(p: Problem)
    ensures
        about_eyes(p) <==> p.code == ProblemCode::EyesOutsideBody || p.code
            == ProblemCode::EyesTooWide,
{
}

/// A figure by chance has one part of each category, from its table, and no adjustments; its eyes
/// have the plain colour. Id, name, author, version and preview are kept.
pub proof fn law_chance_chooses_from_the_tables(seed: u64, n: nat, keep: ConfigView, c: int)
    requires
        0 <= c < 4,
    ensures
        ({
            let cfg = random_config(seed, n, keep);
            &&& cfg.parts.len() == 6
            &&& cfg.parts[0].0 == "face"@ && face_ids(face_table()).contains(cfg.parts[0].1)
            &&& cfg.parts[1].0 == "eyes"@ && eye_ids(eye_table()).contains(cfg.parts[1].1)
            &&& cfg.parts[2 + c].0 == line_table()[c].id@ && line_ids(
                line_table()[c].variants,
            ).contains(cfg.parts[2 + c].1)
            &&& cfg.tweaks.len() == 0
            &&& cfg.eye_color == "eye"@
            &&& cfg.id == keep.id && cfg.name == keep.name && cfg.author == keep.author
            &&& cfg.version == keep.version && cfg.preview_state == keep.preview_state
            &&& cfg.preview_size == keep.preview_size
        }),
{
    tables::tables_begin_with_the_defaults();
    let state = stepped_by(seed, n * numbers_per_figure());
    let f = picked(state, 0, face_table().len());
    let e = picked(state, 1, eye_table().len());
    let l = picked(state, (c + 2) as nat, line_table()[c].variants.len());
    assert(line_table()[c].variants.len() > 0);
    assert(face_ids(face_table())[f] == face_table()[f].id@);
    assert(eye_ids(eye_table())[e] == eye_table()[e].id@);
    assert(line_ids(line_table()[c].variants)[l] == line_table()[c].variants[l].id@);
}

/// An outline is written from its form: the same corners above on both sides, and the same below;
/// a capsule as a capsule; and a silhouette as the right half of a path that starts at its chin.
/// `write` is how `number` writes a number.
pub proof fn law_an_outline_is_written_from_its_form<
    N: Fn(u32) -> String,
    S: Fn(&Vec<(u32, u32)>) -> Vec<StepDraft>,
>(
    form: Form,
    number: N,
    smooth: S,
    outline: OutlineDraft,
    write: spec_fn(u32) -> Seq<char>,
)
    requires
        is_outline_of(form, number, smooth, outline),
        forall|n: u32, t: String| #[trigger] call_ensures(number, (n,), t) ==> t@ == write(n),
    ensures
        form matches Form::Corners { top, bottom } ==> (outline matches OutlineDraft::Corners {
            top_left,
            top_right,
            bottom_right,
            bottom_left,
        } && top_left.x@ == write(top@[0]) && top_left.y@ == write(top@[1]) && top_right.x@
            == write(top@[0]) && top_right.y@ == write(top@[1]) && bottom_right.x@ == write(
            bottom@[0],
        ) && bottom_right.y@ == write(bottom@[1]) && bottom_left.x@ == write(bottom@[0])
            && bottom_left.y@ == write(bottom@[1])),
        form is Capsule ==> outline is Capsule,
        form matches Form::Silhouette(s) ==> (outline matches OutlineDraft::Path { half, d } && half
            && has_prefix(
            d@,
            "M "@ + write(500) + " "@ + write(
                if s.chin > 1000 {
                    1000
                } else {
                    s.chin
                },
            ),
        )),
{
    if let Form::Silhouette(s) = form {
        let (points, start, steps) = choose|
            points: Vec<(u32, u32)>,
            start: Pair,
            steps: Vec<StepDraft>,
        |
            int_points(points@) == silhouette(s) && #[trigger] is_half_path(
                number,
                smooth,
                points,
                start,
                steps,
                outline,
            );
        let chin = if s.chin > 1000 {
            1000u32
        } else {
            s.chin
        };
        assert(int_points(points@)[0] == silhouette(s)[0]);
        assert(points@[0] == (500u32, chin));
        assert(start.x@ == write(500) && start.y@ == write(chin));
        let d = path_text(start@, steps@);
        let front = "M "@ + write(500) + " "@ + write(chin);
        assert(d.take(front.len() as int) =~= front);
    }
}

/// A draft has the names of its configuration, without the white space around them, and the
/// numbers and lines that were calculated for it, each in its place.
pub proof fn law_a_draft_is_made_of_its_measures(
    d: Draft,
    cfg: ConfigView,
    m: Measures,
    details: Vec<DetailDraft>,
    config_json: Option<String>,
)
    requires
        is_draft_of(d, cfg, m, details, config_json),
    ensures
        d.id@ == trimmed(cfg.id) && d.label@ == trimmed(cfg.name),
        opt_text(d.author) == cfg.author,
        d.bar == m.bar && d.dock == m.dock,
        d.eye_polygon == m.eye_polygon && d.eye_v == m.eye_v && d.eye_gap == m.eye_gap,
        d.eye_bar == m.eye_bar && d.eye_dock == m.eye_dock && d.eye_radius == m.eye_radius,
        opt_text(d.eye_color) == written_color(cfg.eye_color),
        d.details == details && d.config_json == config_json,
{
}

/// The comment of a figure names the outline and the eyes that it shows, and then the line of each
/// kind.
pub proof fn law_the_comment_names_the_parts(cfg: ConfigView, f: int, e: int)
    requires
        0 <= f < face_table().len(),
        0 <= e < eye_table().len(),
        chosen_part(cfg.parts, "face"@) == face_table()[f].id@,
        chosen_part(cfg.parts, "eyes"@) == eye_table()[e].id@,
    ensures
        notes(cfg).len() == 2,
        notes(cfg)[0] == "顔のライン: "@ + face_table()[f].label@ + " / 目: "@
            + eye_table()[e].label@,
        notes(cfg)[1] == separated(
            seq![
                line_note(line_table()[0], cfg),
                line_note(line_table()[1], cfg),
                line_note(line_table()[2], cfg),
                line_note(line_table()[3], cfg),
            ],
            " / "@,
        ),
        line_note(line_table()[0], cfg) == line_table()[0].label@ + ": "@ + chosen_line(
            line_table()[0],
            cfg,
        ).label@,
{
    tables::law_every_outline_can_be_chosen(f);
    tables::law_every_eye_can_be_chosen(e);
    law_the_kinds_of_line();
    assert(Seq::new(line_table().len(), |i: int| line_note(line_table()[i], cfg)) =~= seq![
        line_note(line_table()[0], cfg),
        line_note(line_table()[1], cfg),
        line_note(line_table()[2], cfg),
        line_note(line_table()[3], cfg),
    ]);
}

} // verus!
