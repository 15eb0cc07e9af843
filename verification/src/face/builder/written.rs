//! What the text of a face says of the draft that it was written from.

use vstd::prelude::*;

use super::emit::{
    comment_lines, detail_text, details_text, escaped, escaped_all, eyes_text, face_text,
    names_text, number_text, outline_text, pair_text, path_text, points_text, size_text,
    states_text, steps_text, toml_string, unlines, without_zeros, DetailDraft, Draft, OutlineDraft,
    Pair, PairView, StepDraft,
};
use crate::num::{finite, rank, Num};
use crate::text::{has_text, lemma_occurs_between, lemma_occurs_within, trimmed};

verus! {

proof fn lemma_sections(d: Draft)
    ensures
        has_text(face_text(d), names_text(d)),
        has_text(face_text(d), size_text(d)),
        has_text(face_text(d), outline_text(d.outline)),
        has_text(face_text(d), eyes_text(d)),
        has_text(face_text(d), states_text(d.eye_color)),
        has_text(face_text(d), details_text(d.details@)),
{
    let all = face_text(d);
    let a = unlines(comment_lines(d));
    let b = names_text(d);
    let c = size_text(d);
    let e = outline_text(d.outline);
    let f = eyes_text(d);
    let g = states_text(d.eye_color);
    let h = details_text(d.details@);
    lemma_six_sections(a, b, c, e, f, g, h);
}

proof fn lemma_six_sections(
    a: Seq<char>,
    b: Seq<char>,
    c: Seq<char>,
    e: Seq<char>,
    f: Seq<char>,
    g: Seq<char>,
    h: Seq<char>,
)
    ensures
        has_text(a + (b + c + e + f + g + h), b),
        has_text(a + (b + c + e + f + g + h), c),
        has_text(a + (b + c + e + f + g + h), e),
        has_text(a + (b + c + e + f + g + h), f),
        has_text(a + (b + c + e + f + g + h), g),
        has_text(a + (b + c + e + f + g + h), h),
{
    let all = a + (b + c + e + f + g + h);
    lemma_occurs_between(a, b, c + e + f + g + h);
    assert(a + b + (c + e + f + g + h) =~= all);
    lemma_occurs_between(a + b, c, e + f + g + h);
    assert(a + b + c + (e + f + g + h) =~= all);
    lemma_occurs_between(a + b + c, e, f + g + h);
    assert(a + b + c + e + (f + g + h) =~= all);
    lemma_occurs_between(a + b + c + e, f, g + h);
    assert(a + b + c + e + f + (g + h) =~= all);
    lemma_occurs_between(a + b + c + e + f, g, h);
    assert(a + b + c + e + f + g + h =~= all);
    lemma_occurs_between(a + b + c + e + f + g, h, Seq::empty());
    assert(a + b + c + e + f + g + h + Seq::<char>::empty() =~= all);
}

proof fn lemma_two_parts(whole: Seq<char>, t: Seq<char>, p: Seq<char>, q: Seq<char>)
    requires
        has_text(whole, t),
        t == p + q,
    ensures
        has_text(whole, p),
        has_text(whole, q),
{
    lemma_occurs_between(Seq::empty(), p, q);
    assert(Seq::<char>::empty() + p + q =~= t);
    lemma_occurs_between(p, q, Seq::empty());
    assert(p + q + Seq::<char>::empty() =~= t);
    lemma_occurs_within(whole, t, p);
    lemma_occurs_within(whole, t, q);
}

proof fn lemma_regrouped(p: Seq<char>, x: Seq<char>, y: Seq<char>, z: Seq<char>)
    ensures
        p + x + y + z == p + (x + y + z),
{
    assert(p + x + y + z =~= p + (x + y + z));
}

/// A face says its id and its label, and its author if it has one that is not blank.
pub proof fn law_a_face_says_its_names(d: Draft)
    ensures
        has_text(
            face_text(d),
            "\nid       = "@ + toml_string(d.id@) + "\nlabel    = "@ + toml_string(d.label@)
                + "\n"@,
        ),
        d.author matches Some(a) ==> (trimmed(a@).len() > 0 ==> has_text(
            face_text(d),
            "author   = "@ + toml_string(a@) + "\n"@,
        )),
{
    lemma_sections(d);
    let p = "\nid       = "@ + toml_string(d.id@) + "\nlabel    = "@ + toml_string(d.label@)
        + "\n"@;
    if d.author is Some && trimmed(d.author->0@).len() > 0 {
        let a = toml_string(d.author->0@);
        lemma_regrouped(p, "author   = "@, a, "\n"@);
        lemma_two_parts(face_text(d), names_text(d), p, "author   = "@ + a + "\n"@);
    }
}

/// A face says how wide and how high its body is in the menu bar, and then in the dock.
pub proof fn law_a_face_says_its_size(d: Draft)
    ensures
        has_text(
            face_text(d),
            "\n[size]\nbar  = { w = "@ + d.bar.x@ + ", h = "@ + d.bar.y@ + " }\ndock = { w = "@
                + d.dock.x@ + ", h = "@ + d.dock.y@ + " }\n"@,
        ),
{
    lemma_sections(d);
}

/// A face says its outline: its four corners, clockwise from the upper left, or that it is a
/// capsule, or its path and whether that is one half.
pub proof fn law_a_face_says_its_outline(d: Draft)
    ensures
        d.outline matches OutlineDraft::Corners { top_left, top_right, bottom_right, bottom_left }
            ==> has_text(
            face_text(d),
            "\n[outline]\nkind = \"corners\"\ncorners = ["@ + pair_text(top_left@) + ", "@
                + pair_text(top_right@) + ", "@ + pair_text(bottom_right@) + ", "@ + pair_text(
                bottom_left@,
            ) + "]\n"@,
        ),
        d.outline is Capsule ==> has_text(face_text(d), "\n[outline]\nkind = \"capsule\"\n"@),
        d.outline matches OutlineDraft::Path { half, d: path } ==> has_text(
            face_text(d),
            "\n[outline]\nkind = \"path\"\nhalf = "@ + (if half {
                "true"@
            } else {
                "false"@
            }) + "\nd = \"\"\"\n"@ + path@,
        ),
{
    lemma_sections(d);
    if let OutlineDraft::Path { half, d: path } = d.outline {
        let t = outline_text(d.outline);
        let p = "\n[outline]\nkind = \"path\"\nhalf = "@ + (if half {
            "true"@
        } else {
            "false"@
        }) + "\nd = \"\"\"\n"@ + path@;
        let rest = t.skip(p.len() as int);
        assert(t =~= Seq::<char>::empty() + p + rest);
        lemma_occurs_between(Seq::empty(), p, rest);
        lemma_occurs_within(face_text(d), t, p);
    }
}

/// A face says of its eyes how they are drawn, how high they stand, how far apart they are and how
/// large, in the menu bar and in the dock; and then their polygon, or the radius of their corners.
pub proof fn law_a_face_says_its_eyes(d: Draft)
    ensures
        has_text(
            face_text(d),
            "\n[eyes]\nshape  = \""@ + (if d.eye_polygon is Some {
                "polygon"@
            } else {
                "rounded"@
            }) + "\"\nv      = "@ + d.eye_v@ + "\ngap    = { bar = "@ + d.eye_gap.x@
                + ", dock = "@ + d.eye_gap.y@ + " }\nsize   = { bar = "@ + pair_text(d.eye_bar@)
                + ", dock = "@ + pair_text(d.eye_dock@) + " }\n"@,
        ),
        d.eye_polygon is None ==> has_text(
            face_text(d),
            "radius = "@ + d.eye_radius@ + "\n"@,
        ),
        d.eye_polygon matches Some(p) ==> has_text(
            face_text(d),
            "polygon = [\n"@ + points_text(p@) + "]\n"@,
        ),
{
    lemma_sections(d);
    let p = "\n[eyes]\nshape  = \""@ + (if d.eye_polygon is Some {
        "polygon"@
    } else {
        "rounded"@
    }) + "\"\nv      = "@ + d.eye_v@ + "\ngap    = { bar = "@ + d.eye_gap.x@ + ", dock = "@
        + d.eye_gap.y@ + " }\nsize   = { bar = "@ + pair_text(d.eye_bar@) + ", dock = "@
        + pair_text(d.eye_dock@) + " }\n"@;
    match d.eye_polygon {
        None => {
            lemma_regrouped(p, "radius = "@, d.eye_radius@, "\n"@);
            lemma_two_parts(
                face_text(d),
                eyes_text(d),
                p,
                "radius = "@ + d.eye_radius@ + "\n"@,
            );
        },
        Some(v) => {
            lemma_regrouped(p, "polygon = [\n"@, points_text(v@), "]\n"@);
            lemma_two_parts(
                face_text(d),
                eyes_text(d),
                p,
                "polygon = [\n"@ + points_text(v@) + "]\n"@,
            );
        },
    }
}

/// A face whose eyes have a colour of their own says so of the three states whose eyes are plain,
/// and keeps what they do: they blink at work and look aside with agents. One without says nothing
/// of the states.
pub proof fn law_a_face_says_the_color_of_its_eyes(d: Draft)
    ensures
        d.eye_color is None ==> states_text(d.eye_color).len() == 0,
        d.eye_color matches Some(c) ==> has_text(
            face_text(d),
            "[eyes.states.working]\nblink = true\ncolor = \""@ + c@
                + "\"\n\n[eyes.states.wait_agent]\ndx = 1.5\ncolor = \""@ + c@
                + "\"\n\n[eyes.states.done]\ncolor = \""@ + c@ + "\"\n"@,
        ),
{
    lemma_sections(d);
    if let Some(c) = d.eye_color {
        lemma_colored_states(c);
        let p = "[eyes.states.working]\nblink = true\ncolor = \""@ + c@
            + "\"\n\n[eyes.states.wait_agent]\ndx = 1.5\ncolor = \""@ + c@
            + "\"\n\n[eyes.states.done]\ncolor = \""@ + c@ + "\"\n"@;
        lemma_two_parts(face_text(d), states_text(d.eye_color), states_remark(), p);
    }
}

spec fn states_remark() -> Seq<char> {
    "\n# 目の色を変えたので、既定ルールと同じ挙動を書き下したうえで色を足す。\n"@
}

proof fn lemma_states_remark()
    ensures
        "\n# 目の色を変えたので、既定ルールと同じ挙動を書き下したうえで色を足す。\n[eyes.states.working]\nblink = true\ncolor = \""@
            == states_remark() + "[eyes.states.working]\nblink = true\ncolor = \""@,
{
    reveal_strlit("\n# 目の色を変えたので、既定ルールと同じ挙動を書き下したうえで色を足す。\n");
    reveal_strlit("[eyes.states.working]\nblink = true\ncolor = \"");
    reveal_strlit(
        "\n# 目の色を変えたので、既定ルールと同じ挙動を書き下したうえで色を足す。\n[eyes.states.working]\nblink = true\ncolor = \"",
    );
    assert("\n# 目の色を変えたので、既定ルールと同じ挙動を書き下したうえで色を足す。\n[eyes.states.working]\nblink = true\ncolor = \""@
        =~= states_remark() + "[eyes.states.working]\nblink = true\ncolor = \""@);
}

proof fn lemma_seven(
    r: Seq<char>,
    a: Seq<char>,
    c: Seq<char>,
    b: Seq<char>,
    e: Seq<char>,
    f: Seq<char>,
)
    ensures
        (r + a) + c + b + c + e + c + f == r + (a + c + b + c + e + c + f),
{
    lemma_regrouped(r, a, c, b);
    let x = a + c + b;
    lemma_regrouped(r, x, c, e);
    let y = x + c + e;
    lemma_regrouped(r, y, c, f);
}

proof fn lemma_colored_states(c: String)
    ensures
        states_text(Some(c)) == states_remark() + ("[eyes.states.working]\nblink = true\ncolor = \""@
            + c@ + "\"\n\n[eyes.states.wait_agent]\ndx = 1.5\ncolor = \""@ + c@
            + "\"\n\n[eyes.states.done]\ncolor = \""@ + c@ + "\"\n"@),
{
    lemma_states_remark();
    lemma_seven(
        states_remark(),
        "[eyes.states.working]\nblink = true\ncolor = \""@,
        c@,
        "\"\n\n[eyes.states.wait_agent]\ndx = 1.5\ncolor = \""@,
        "\"\n\n[eyes.states.done]\ncolor = \""@,
        "\"\n"@,
    );
}

/// A face says every panel line: its name, the places where it is drawn, and its points.
pub proof fn law_a_face_says_its_panel_lines(d: Draft, i: int)
    requires
        0 <= i < d.details@.len(),
    ensures
        has_text(
            face_text(d),
            "\n[[details]]\nname   = "@ + toml_string(d.details@[i].name@) + "\nsizes  = ["@ + (
            if d.details@[i].on_bar {
                "\"bar\", \"dock\""@
            } else {
                "\"dock\""@
            }) + "]\npoints = [\n"@ + points_text(d.details@[i].points@) + "]\n"@,
        ),
{
    lemma_sections(d);
    lemma_panel_line(d.details@, i);
    lemma_occurs_within(face_text(d), details_text(d.details@), detail_text(d.details@[i]));
}

proof fn lemma_panel_line(details: Seq<DetailDraft>, i: int)
    requires
        0 <= i < details.len(),
    ensures
        has_text(details_text(details), detail_text(details[i])),
    decreases details.len(),
{
    let before = details_text(details.drop_last());
    let last = detail_text(details.last());
    if i == details.len() - 1 {
        lemma_occurs_between(before, last, Seq::empty());
        assert(before + last + Seq::<char>::empty() =~= before + last);
    } else {
        lemma_panel_line(details.drop_last(), i);
        lemma_occurs_between(Seq::empty(), before, last);
        assert(Seq::<char>::empty() + before + last =~= before + last);
        lemma_occurs_within(before + last, before, detail_text(details[i]));
    }
}

/// Points are written one on a line, in brackets, in their order; and a pair with a comma inside.
pub proof fn law_points_are_written_one_on_a_line(a: Seq<Pair>, b: Seq<Pair>, p: Pair)
    ensures
        points_text(a + b) == points_text(a) + points_text(b),
        points_text(seq![p]) == "  ["@ + p.x@ + ", "@ + p.y@ + "],\n"@,
        pair_text(p@) == "["@ + p.x@ + ", "@ + p.y@ + "]"@,
    decreases b.len(),
{
    if b.len() == 0 {
        assert(a + b =~= a);
        assert(points_text(a) + points_text(b) =~= points_text(a));
    } else {
        law_points_are_written_one_on_a_line(a, b.drop_last(), p);
        assert((a + b).drop_last() =~= a + b.drop_last());
        assert((a + b).last() == b.last());
        assert(points_text(a + b) =~= points_text(a) + points_text(b));
    }
    assert(seq![p].drop_last() =~= Seq::<Pair>::empty());
    assert(points_text(seq![p].drop_last()) =~= Seq::<char>::empty());
    reveal_strlit("  [");
    reveal_strlit("  ");
    reveal_strlit("[");
    assert("  ["@ =~= "  "@ + "["@);
    reveal_strlit("],\n");
    reveal_strlit("]");
    reveal_strlit(",\n");
    assert("],\n"@ =~= "]"@ + ",\n"@);
    assert(points_text(seq![p]) =~= "  ["@ + p.x@ + ", "@ + p.y@ + "],\n"@);
}

/// A path is written with its start, and then step by step, one on a line.
pub proof fn law_a_path_is_written_step_by_step(
    start: PairView,
    a: Seq<StepDraft>,
    b: Seq<StepDraft>,
    s: StepDraft,
)
    ensures
        steps_text(a + b) == steps_text(a) + steps_text(b),
        steps_text(seq![s]) == match s {
            StepDraft::Line { to } => "L "@ + to.x@ + " "@ + to.y@ + "\n"@,
            StepDraft::Cubic { c1, c2, to } => "C "@ + c1.x@ + " "@ + c1.y@ + " "@ + c2.x@ + " "@
                + c2.y@ + " "@ + to.x@ + " "@ + to.y@ + "\n"@,
        },
        path_text(start, a) == "M "@ + start.x + " "@ + start.y + "\n"@ + steps_text(a),
    decreases b.len(),
{
    if b.len() == 0 {
        assert(a + b =~= a);
        assert(steps_text(a) + steps_text(b) =~= steps_text(a));
    } else {
        law_a_path_is_written_step_by_step(start, a, b.drop_last(), s);
        assert((a + b).drop_last() =~= a + b.drop_last());
        assert((a + b).last() == b.last());
        assert(steps_text(a + b) =~= steps_text(a) + steps_text(b));
    }
    assert(seq![s].drop_last() =~= Seq::<StepDraft>::empty());
    assert(steps_text(seq![s].drop_last()) =~= Seq::<char>::empty());
    match s {
        StepDraft::Line { to } => {
            assert(steps_text(seq![s]) =~= "L "@ + to.x@ + " "@ + to.y@ + "\n"@);
        },
        StepDraft::Cubic { c1, c2, to } => {
            assert(steps_text(seq![s]) =~= "C "@ + c1.x@ + " "@ + c1.y@ + " "@ + c2.x@ + " "@
                + c2.y@ + " "@ + to.x@ + " "@ + to.y@ + "\n"@);
        },
    }
    assert(path_text(start, a) =~= "M "@ + start.x + " "@ + start.y + "\n"@ + steps_text(a));
}

/// A string is written in quotes, character by character: quotes, backslashes and control
/// characters are escaped, and every other character stands for itself.
pub proof fn law_a_string_is_written_character_by_character(a: Seq<char>, b: Seq<char>, c: char)
    ensures
        toml_string(a) == seq!['"'] + escaped_all(a) + seq!['"'],
        escaped_all(a + b) == escaped_all(a) + escaped_all(b),
        escaped_all(seq!['"']) == seq!['\\', '"'],
        escaped_all(seq!['\\']) == seq!['\\', '\\'],
        escaped_all(seq!['\n']) == seq!['\\', 'n'],
        escaped_all(seq!['\t']) == seq!['\\', 't'],
        escaped_all(seq!['\r']) == seq!['\\', 'r'],
        c != '"' && c != '\\' && (c as u32) >= 0x20 && c as u32 != 0x7f ==> escaped_all(seq![c])
            == seq![c],
    decreases b.len(),
{
    if b.len() == 0 {
        assert(a + b =~= a);
        assert(escaped_all(a) + escaped_all(b) =~= escaped_all(a));
    } else {
        law_a_string_is_written_character_by_character(a, b.drop_last(), c);
        assert((a + b).drop_last() =~= a + b.drop_last());
        assert((a + b).last() == b.last());
        assert(escaped_all(a + b) =~= escaped_all(a) + escaped_all(b));
    }
    lemma_escaped_alone('"');
    lemma_escaped_alone('\\');
    lemma_escaped_alone('\n');
    lemma_escaped_alone('\t');
    lemma_escaped_alone('\r');
    lemma_escaped_alone(c);
}

proof fn lemma_escaped_alone(c: char)
    ensures
        escaped_all(seq![c]) == escaped(c),
{
    assert(seq![c].drop_last() =~= Seq::<char>::empty());
    assert(escaped_all(seq![c].drop_last()) =~= Seq::<char>::empty());
    assert(Seq::<char>::empty() + escaped(c) =~= escaped(c));
}

/// What is not finite, and zero, is written as `0.0`; any other number as it is, without the zeros
/// at its end.
pub proof fn law_how_a_number_is_written(v: Num, fixed: Seq<char>)
    ensures
        !finite(v) || rank(v) == 0 ==> number_text(v, fixed) == "0.0"@,
        finite(v) && rank(v) != 0 ==> number_text(v, fixed) == without_zeros(fixed),
        fixed.len() > 0 && fixed.last() != '0' ==> without_zeros(fixed) == fixed,
{
}

} // verus!
