//! From the numbers of a figure to the text of its face.
//!
//! The text is the only form in between: what is previewed is what the saved file says. Numbers
//! come here as they are to be written.

use vstd::prelude::*;

use crate::num::{finite, rank, Num};
use crate::text::{
    ends_with, from_chars, has_prefix, has_suffix, join2, join3, lemma_first_line,
    lemma_trailing_white_is_trimmed, lines, opt_text, part, rows, slice, split_lines, starts_with,
    to_chars, trim_chars, trimmed, upper_hex, upper_hex_char, without_cr,
};

verus! {

/// A pair of numbers as they are to be written.
#[derive(Debug, Clone, PartialEq, Eq)]
pub struct Pair {
    pub x: String,
    pub y: String,
}

/// What a `Pair` holds.
pub struct PairView {
    pub x: Seq<char>,
    pub y: Seq<char>,
}

impl View for Pair {
    type V = PairView;

    open spec fn view(&self) -> PairView {
        PairView { x: self.x@, y: self.y@ }
    }
}

/// An outline to be written.
#[derive(Debug, Clone, PartialEq, Eq)]
pub enum OutlineDraft {
    /// Ratios, horizontal and vertical: upper left, upper right, lower right, lower left.
    Corners { top_left: Pair, top_right: Pair, bottom_right: Pair, bottom_left: Pair },
    Capsule,
    /// A path, as text.
    Path { half: bool, d: String },
}

/// A panel line to be written.
#[derive(Debug, Clone, PartialEq, Eq)]
pub struct DetailDraft {
    pub name: String,
    /// Whether it is drawn in the menu bar too. It is always drawn in the dock.
    pub on_bar: bool,
    pub points: Vec<Pair>,
}

/// A face to be written.
#[derive(Debug, Clone, PartialEq, Eq)]
pub struct Draft {
    pub id: String,
    pub label: String,
    pub author: Option<String>,
    /// Width and height of the body.
    pub bar: Pair,
    pub dock: Pair,
    pub outline: OutlineDraft,
    /// The eye as a polygon; without one it is a rectangle with round corners.
    pub eye_polygon: Option<Vec<Pair>>,
    pub eye_v: String,
    /// The gap between the eyes, in the menu bar and in the dock.
    pub eye_gap: Pair,
    /// Width and height of an eye.
    pub eye_bar: Pair,
    pub eye_dock: Pair,
    pub eye_radius: String,
    /// The colour of the eyes; without one the rules for the states apply.
    pub eye_color: Option<String>,
    pub details: Vec<DetailDraft>,
    /// Lines for the comment at the top.
    pub notes: Vec<String>,
    /// The figure's configuration on one line. It is kept in the comment at the top, so that
    /// the figure can be edited again.
    pub config_json: Option<String>,
}

// ---- numbers and strings --------------------------------------------------------------------

/// `s` without the zeros at its end, but for one behind a point.
pub open spec fn without_zeros(s: Seq<char>) -> Seq<char>
    decreases s.len(),
{
    if s.len() > 0 && s.last() == '0' && !has_suffix(s, ".0"@) {
        without_zeros(s.drop_last())
    } else {
        s
    }
}

/// How a number is written, given its text with four digits behind the point.
pub open spec fn number_text(v: Num, fixed: Seq<char>) -> Seq<char> {
    if !finite(v) || rank(v) == 0 {
        "0.0"@
    } else {
        without_zeros(fixed)
    }
}

/// How a number is written, given its text with four digits behind the point: without needless
/// zeros, and always with a point. Zero has no sign, and what is not finite is written as zero.
pub fn num(v: Num, fixed: &str) -> (r: String)
    ensures
        r@ == number_text(v, fixed@),
{
    let zero = Num::new(0);
    if !v.is_finite() || !(v.is_less(zero) || zero.is_less(v)) {
        return "0.0".to_owned();
    }
    let chars = to_chars(fixed);
    let mut n: usize = chars.len();
    assert(chars@.take(n as int) =~= chars@);
    loop
        invariant
            n <= chars@.len(),
            chars@ == fixed@,
            without_zeros(chars@.take(n as int)) == without_zeros(fixed@),
        ensures
            n <= chars@.len(),
            chars@.take(n as int) == without_zeros(fixed@),
        decreases n,
    {
        let upto = part(&chars, 0, n);
        assert(upto@ =~= chars@.take(n as int));
        if n > 0 && chars[n - 1] == '0' && !ends_with(&upto, ".0") {
            assert(chars@.take(n as int).drop_last() =~= chars@.take(n - 1));
            n -= 1;
        } else {
            break;
        }
    }
    assert(chars@.subrange(0, n as int) =~= chars@.take(n as int));
    slice(&chars, 0, n)
}

/// Whether a character is a control character that a TOML string cannot hold as it is.
pub open spec fn needs_code(c: char) -> bool {
    (c as u32) < 0x20 || c as u32 == 0x7f
}

/// How a character is written in a TOML string.
pub open spec fn escaped(c: char) -> Seq<char> {
    if c == '"' {
        seq!['\\', '"']
    } else if c == '\\' {
        seq!['\\', '\\']
    } else if c == '\n' {
        seq!['\\', 'n']
    } else if c == '\r' {
        seq!['\\', 'r']
    } else if c == '\t' {
        seq!['\\', 't']
    } else if needs_code(c) {
        seq!['\\', 'u', '0', '0', upper_hex(c as u32 as nat / 16), upper_hex(c as u32 as nat % 16)]
    } else {
        seq![c]
    }
}

/// How characters are written in a TOML string.
pub open spec fn escaped_all(s: Seq<char>) -> Seq<char>
    decreases s.len(),
{
    if s.len() == 0 {
        Seq::empty()
    } else {
        escaped_all(s.drop_last()) + escaped(s.last())
    }
}

/// A TOML string.
pub open spec fn toml_string(s: Seq<char>) -> Seq<char> {
    seq!['"'] + escaped_all(s) + seq!['"']
}

fn push_escaped(out: &mut String, c: char)
    ensures
        final(out)@ == old(out)@ + escaped(c),
{
    let ghost before = out@;
    if c == '"' {
        out.push('\\');
        out.push('"');
    } else if c == '\\' {
        out.push('\\');
        out.push('\\');
    } else if c == '\n' {
        out.push('\\');
        out.push('n');
    } else if c == '\r' {
        out.push('\\');
        out.push('r');
    } else if c == '\t' {
        out.push('\\');
        out.push('t');
    } else {
        let n: u32 = c as u32;
        if n < 0x20 || n == 0x7f {
            out.push('\\');
            out.push('u');
            out.push('0');
            out.push('0');
            out.push(upper_hex_char(n / 16));
            out.push(upper_hex_char(n % 16));
        } else {
            out.push(c);
        }
    }
    assert(out@ =~= before + escaped(c));
}

/// A TOML string: quotes, backslashes and control characters are escaped.
pub fn quote(s: &str) -> (r: String)
    ensures
        r@ == toml_string(s@),
{
    let v = to_chars(s);
    let mut out = String::new();
    out.push('"');
    let ghost open = seq!['"'];
    assert(out@ =~= open + escaped_all(v@.take(0)));
    let mut i: usize = 0;
    while i < v.len()
        invariant
            i <= v@.len(),
            out@ == open + escaped_all(v@.take(i as int)),
        decreases v@.len() - i,
    {
        assert(v@.take(i + 1).drop_last() =~= v@.take(i as int));
        push_escaped(&mut out, v[i]);
        assert(out@ =~= open + escaped_all(v@.take(i + 1)));
        i += 1;
    }
    assert(v@.take(v@.len() as int) =~= v@);
    out.push('"');
    assert(out@ =~= toml_string(s@));
    out
}

/// `s` with every line feed replaced by a space.
pub open spec fn on_one_line(s: Seq<char>) -> Seq<char> {
    Seq::new(
        s.len(),
        |i: int|
            if s[i] == '\n' {
                ' '
            } else {
                s[i]
            },
    )
}

fn one_line(s: &str) -> (r: String)
    ensures
        r@ == on_one_line(s@),
{
    let v = to_chars(s);
    let mut out = String::new();
    let mut i: usize = 0;
    while i < v.len()
        invariant
            i <= v@.len(),
            out@ == on_one_line(v@).take(i as int),
        decreases v@.len() - i,
    {
        let c = if v[i] == '\n' {
            ' '
        } else {
            v[i]
        };
        out.push(c);
        i += 1;
        assert(on_one_line(v@).take(i as int) =~= on_one_line(v@).take(i - 1).push(c));
    }
    assert(on_one_line(v@).take(v@.len() as int) =~= on_one_line(v@));
    out
}

// ---- the comment at the top -----------------------------------------------------------------

/// What stands before the configuration in the comment at the top.
pub const CONFIG_MARKER: &'static str = "# ccchar: ";

/// The texts of the lines, each followed by a line feed.
pub open spec fn unlines(v: Seq<Seq<char>>) -> Seq<char>
    decreases v.len(),
{
    if v.len() == 0 {
        Seq::empty()
    } else {
        unlines(v.drop_last()) + v.last() + seq!['\n']
    }
}

/// The lines for the notes of a face.
pub open spec fn note_lines(notes: Seq<String>) -> Seq<Seq<char>> {
    if notes.len() == 0 {
        Seq::empty()
    } else {
        seq!["#"@] + Seq::new(notes.len(), |i: int| "# "@ + on_one_line(notes[i]@))
    }
}

/// The lines for the configuration of a face.
pub open spec fn config_lines(config: Option<String>) -> Seq<Seq<char>> {
    match config {
        None => Seq::empty(),
        Some(j) => seq!["#"@, CONFIG_MARKER@ + on_one_line(j@)],
    }
}

/// The lines that every face begins with.
pub open spec fn title_lines() -> Seq<Seq<char>> {
    seq![
        "# ccsessions キャラクタービルダーが生成した顔。"@,
        "# `make config`（ccsessions ui）の「キャラクター」で読み込めば、"@,
        "# この組み合わせから編集を続けられる。"@,
    ]
}

/// The comment at the top of a face.
pub open spec fn comment_lines(d: Draft) -> Seq<Seq<char>> {
    title_lines() + note_lines(d.notes@) + config_lines(d.config_json)
}

fn push_line(out: &mut String, line: &str)
    ensures
        final(out)@ == old(out)@ + line@ + seq!['\n'],
{
    out.append(line);
    let ghost before = out@;
    out.push('\n');
    assert(out@ =~= before + seq!['\n']);
}

proof fn lemma_unlines_push(v: Seq<Seq<char>>, line: Seq<char>)
    ensures
        unlines(v.push(line)) == unlines(v) + line + seq!['\n'],
{
    assert(v.push(line).drop_last() =~= v);
}

proof fn lemma_unlines_append(a: Seq<Seq<char>>, b: Seq<Seq<char>>)
    ensures
        unlines(a + b) == unlines(a) + unlines(b),
    decreases b.len(),
{
    if b.len() == 0 {
        assert(a + b =~= a);
        assert(unlines(a) + unlines(b) =~= unlines(a));
    } else {
        assert((a + b).drop_last() =~= a + b.drop_last());
        lemma_unlines_append(a, b.drop_last());
        assert(unlines(a + b) =~= unlines(a) + unlines(b));
    }
}

fn comment(d: &Draft) -> (r: String)
    ensures
        r@ == unlines(comment_lines(*d)),
{
    let mut s = String::new();
    let ghost mut done: Seq<Seq<char>> = Seq::empty();
    assert(s@ =~= unlines(done));
    push_line(&mut s, "# ccsessions キャラクタービルダーが生成した顔。");
    push_line(&mut s, "# `make config`（ccsessions ui）の「キャラクター」で読み込めば、");
    push_line(&mut s, "# この組み合わせから編集を続けられる。");
    proof {
        let a = "# ccsessions キャラクタービルダーが生成した顔。"@;
        let b = "# `make config`（ccsessions ui）の「キャラクター」で読み込めば、"@;
        let c = "# この組み合わせから編集を続けられる。"@;
        lemma_unlines_push(done, a);
        lemma_unlines_push(done.push(a), b);
        lemma_unlines_push(done.push(a).push(b), c);
        done = done.push(a).push(b).push(c);
        assert(done =~= title_lines());
    }
    if d.notes.len() > 0 {
        push_line(&mut s, "#");
        proof {
            lemma_unlines_push(done, "#"@);
            done = done.push("#"@);
        }
        let ghost base = done;
        let mut i: usize = 0;
        while i < d.notes.len()
            invariant
                i <= d.notes@.len(),
                s@ == unlines(done),
                done == base + Seq::new(i as nat, |k: int| "# "@ + on_one_line(d.notes@[k]@)),
            decreases d.notes@.len() - i,
        {
            let line = join2("# ", one_line(d.notes[i].as_str()).as_str());
            push_line(&mut s, line.as_str());
            proof {
                lemma_unlines_push(done, line@);
                done = done.push(line@);
                assert(done =~= base + Seq::new(
                    (i + 1) as nat,
                    |k: int| "# "@ + on_one_line(d.notes@[k]@),
                ));
            }
            i += 1;
        }
        assert(done =~= title_lines() + note_lines(d.notes@));
    } else {
        assert(done =~= title_lines() + note_lines(d.notes@));
    }
    if let Some(j) = &d.config_json {
        push_line(&mut s, "#");
        let line = join2(CONFIG_MARKER, one_line(j.as_str()).as_str());
        push_line(&mut s, line.as_str());
        proof {
            lemma_unlines_push(done, "#"@);
            lemma_unlines_push(done.push("#"@), line@);
            done = done.push("#"@).push(line@);
        }
    }
    assert(done =~= comment_lines(*d));
    s
}

// ---- the sections ---------------------------------------------------------------------------

/// The names of a face.
pub open spec fn names_text(d: Draft) -> Seq<char> {
    let names = "\nid       = "@ + toml_string(d.id@) + "\nlabel    = "@ + toml_string(d.label@)
        + "\n"@;
    if d.author matches Some(a) && trimmed(a@).len() > 0 {
        names + "author   = "@ + toml_string(d.author->0@) + "\n"@
    } else {
        names
    }
}

fn names(d: &Draft) -> (r: String)
    ensures
        r@ == names_text(*d),
{
    let mut s = "\nid       = ".to_owned();
    s.append(quote(d.id.as_str()).as_str());
    s.append("\nlabel    = ");
    s.append(quote(d.label.as_str()).as_str());
    s.append("\n");
    if let Some(a) = &d.author {
        if trim_chars(&to_chars(a.as_str())).len() > 0 {
            s.append("author   = ");
            s.append(quote(a.as_str()).as_str());
            s.append("\n");
        }
    }
    s
}

/// The dimensions of a face.
pub open spec fn size_text(d: Draft) -> Seq<char> {
    "\n[size]\nbar  = { w = "@ + d.bar.x@ + ", h = "@ + d.bar.y@ + " }\ndock = { w = "@ + d.dock.x@
        + ", h = "@ + d.dock.y@ + " }\n"@
}

fn size(d: &Draft) -> (r: String)
    ensures
        r@ == size_text(*d),
{
    let mut s = "\n[size]\nbar  = { w = ".to_owned();
    s.append(d.bar.x.as_str());
    s.append(", h = ");
    s.append(d.bar.y.as_str());
    s.append(" }\ndock = { w = ");
    s.append(d.dock.x.as_str());
    s.append(", h = ");
    s.append(d.dock.y.as_str());
    s.append(" }\n");
    s
}

/// A pair in brackets.
pub open spec fn pair_text(p: PairView) -> Seq<char> {
    "["@ + p.x + ", "@ + p.y + "]"@
}

fn pair(p: &Pair) -> (r: String)
    ensures
        r@ == pair_text(p@),
{
    let mut s = "[".to_owned();
    s.append(p.x.as_str());
    s.append(", ");
    s.append(p.y.as_str());
    s.append("]");
    s
}

/// The outline of a face.
pub open spec fn outline_text(o: OutlineDraft) -> Seq<char> {
    match o {
        OutlineDraft::Corners { top_left, top_right, bottom_right, bottom_left } => {
            "\n[outline]\nkind = \"corners\"\ncorners = ["@ + pair_text(top_left@) + ", "@ + pair_text(
                top_right@,
            ) + ", "@ + pair_text(bottom_right@) + ", "@ + pair_text(bottom_left@) + "]\n"@
        },
        OutlineDraft::Capsule => "\n[outline]\nkind = \"capsule\"\n"@,
        OutlineDraft::Path { half, d } => {
            let begun = "\n[outline]\nkind = \"path\"\nhalf = "@ + (if half {
                "true"@
            } else {
                "false"@
            }) + "\nd = \"\"\"\n"@ + d@;
            if d@.len() > 0 && d@.last() == '\n' {
                begun + "\"\"\"\n"@
            } else {
                begun + "\n"@ + "\"\"\"\n"@
            }
        },
    }
}

fn outline(o: &OutlineDraft) -> (r: String)
    ensures
        r@ == outline_text(*o),
{
    match o {
        OutlineDraft::Corners { top_left, top_right, bottom_right, bottom_left } => {
            let mut s = "\n[outline]\nkind = \"corners\"\ncorners = [".to_owned();
            s.append(pair(top_left).as_str());
            s.append(", ");
            s.append(pair(top_right).as_str());
            s.append(", ");
            s.append(pair(bottom_right).as_str());
            s.append(", ");
            s.append(pair(bottom_left).as_str());
            s.append("]\n");
            s
        },
        OutlineDraft::Capsule => "\n[outline]\nkind = \"capsule\"\n".to_owned(),
        OutlineDraft::Path { half, d } => {
            let mut s = "\n[outline]\nkind = \"path\"\nhalf = ".to_owned();
            s.append(
                if *half {
                    "true"
                } else {
                    "false"
                },
            );
            s.append("\nd = \"\"\"\n");
            s.append(d.as_str());
            let v = to_chars(d.as_str());
            if !(v.len() > 0 && v[v.len() - 1] == '\n') {
                s.append("\n");
            }
            s.append("\"\"\"\n");
            s
        },
    }
}

/// Points, one on a line.
pub open spec fn points_text(points: Seq<Pair>) -> Seq<char>
    decreases points.len(),
{
    if points.len() == 0 {
        Seq::empty()
    } else {
        points_text(points.drop_last()) + "  "@ + pair_text(points.last()@) + ",\n"@
    }
}

fn push_points(out: &mut String, points: &Vec<Pair>)
    ensures
        final(out)@ == old(out)@ + points_text(points@),
{
    let ghost before = out@;
    let mut i: usize = 0;
    assert(out@ =~= before + points_text(points@.take(0)));
    while i < points.len()
        invariant
            i <= points@.len(),
            out@ == before + points_text(points@.take(i as int)),
        decreases points@.len() - i,
    {
        assert(points@.take(i + 1).drop_last() =~= points@.take(i as int));
        out.append("  ");
        out.append(pair(&points[i]).as_str());
        out.append(",\n");
        assert(out@ =~= before + points_text(points@.take(i + 1)));
        i += 1;
    }
    assert(points@.take(points@.len() as int) =~= points@);
}

/// The eyes of a face.
pub open spec fn eyes_text(d: Draft) -> Seq<char> {
    let begun = "\n[eyes]\nshape  = \""@ + (if d.eye_polygon is Some {
        "polygon"@
    } else {
        "rounded"@
    }) + "\"\nv      = "@ + d.eye_v@ + "\ngap    = { bar = "@ + d.eye_gap.x@ + ", dock = "@
        + d.eye_gap.y@ + " }\nsize   = { bar = "@ + pair_text(d.eye_bar@) + ", dock = "@ + pair_text(
        d.eye_dock@,
    ) + " }\n"@;
    match d.eye_polygon {
        None => begun + "radius = "@ + d.eye_radius@ + "\n"@,
        Some(p) => begun + "polygon = [\n"@ + points_text(p@) + "]\n"@,
    }
}

fn eyes(d: &Draft) -> (r: String)
    ensures
        r@ == eyes_text(*d),
{
    let mut s = "\n[eyes]\nshape  = \"".to_owned();
    s.append(
        if d.eye_polygon.is_some() {
            "polygon"
        } else {
            "rounded"
        },
    );
    s.append("\"\nv      = ");
    s.append(d.eye_v.as_str());
    s.append("\ngap    = { bar = ");
    s.append(d.eye_gap.x.as_str());
    s.append(", dock = ");
    s.append(d.eye_gap.y.as_str());
    s.append(" }\nsize   = { bar = ");
    s.append(pair(&d.eye_bar).as_str());
    s.append(", dock = ");
    s.append(pair(&d.eye_dock).as_str());
    s.append(" }\n");
    match &d.eye_polygon {
        None => {
            s.append("radius = ");
            s.append(d.eye_radius.as_str());
            s.append("\n");
        },
        Some(p) => {
            s.append("polygon = [\n");
            push_points(&mut s, p);
            s.append("]\n");
        },
    }
    s
}

/// What a face says about the states if its eyes have a colour of their own: what the rules say
/// for the three states with eyes of the plain colour, and the colour.
pub open spec fn states_text(color: Option<String>) -> Seq<char> {
    match color {
        None => Seq::empty(),
        Some(c) => {
            "\n# 目の色を変えたので、既定ルールと同じ挙動を書き下したうえで色を足す。\n[eyes.states.working]\nblink = true\ncolor = \""@
                + c@ + "\"\n\n[eyes.states.wait_agent]\ndx = 1.5\ncolor = \""@ + c@
                + "\"\n\n[eyes.states.done]\ncolor = \""@ + c@ + "\"\n"@
        },
    }
}

fn states(color: &Option<String>) -> (r: String)
    ensures
        r@ == states_text(*color),
{
    match color {
        None => String::new(),
        Some(c) => {
            let mut s =
                "\n# 目の色を変えたので、既定ルールと同じ挙動を書き下したうえで色を足す。\n[eyes.states.working]\nblink = true\ncolor = \"".to_owned();
            s.append(c.as_str());
            s.append("\"\n\n[eyes.states.wait_agent]\ndx = 1.5\ncolor = \"");
            s.append(c.as_str());
            s.append("\"\n\n[eyes.states.done]\ncolor = \"");
            s.append(c.as_str());
            s.append("\"\n");
            s
        },
    }
}

/// A panel line.
pub open spec fn detail_text(d: DetailDraft) -> Seq<char> {
    "\n[[details]]\nname   = "@ + toml_string(d.name@) + "\nsizes  = ["@ + (if d.on_bar {
        "\"bar\", \"dock\""@
    } else {
        "\"dock\""@
    }) + "]\npoints = [\n"@ + points_text(d.points@) + "]\n"@
}

fn detail(d: &DetailDraft) -> (r: String)
    ensures
        r@ == detail_text(*d),
{
    let mut s = "\n[[details]]\nname   = ".to_owned();
    s.append(quote(d.name.as_str()).as_str());
    s.append("\nsizes  = [");
    s.append(
        if d.on_bar {
            "\"bar\", \"dock\""
        } else {
            "\"dock\""
        },
    );
    s.append("]\npoints = [\n");
    push_points(&mut s, &d.points);
    s.append("]\n");
    s
}

/// The panel lines.
pub open spec fn details_text(details: Seq<DetailDraft>) -> Seq<char>
    decreases details.len(),
{
    if details.len() == 0 {
        Seq::empty()
    } else {
        details_text(details.drop_last()) + detail_text(details.last())
    }
}

/// What follows the comment in the text of a face.
pub open spec fn body_text(d: Draft) -> Seq<char> {
    names_text(d) + size_text(d) + outline_text(d.outline) + eyes_text(d) + states_text(
        d.eye_color,
    ) + details_text(d.details@)
}

/// The text of a face.
pub open spec fn face_text(d: Draft) -> Seq<char> {
    unlines(comment_lines(d)) + body_text(d)
}

/// Writes a face.
pub fn to_toml(d: &Draft) -> (r: String)
    ensures
        r@ == face_text(*d),
{
    let mut body = names(d);
    body.append(size(d).as_str());
    body.append(outline(&d.outline).as_str());
    body.append(eyes(d).as_str());
    body.append(states(&d.eye_color).as_str());
    let ghost before = body@;
    let mut i: usize = 0;
    assert(body@ =~= before + details_text(d.details@.take(0)));
    while i < d.details.len()
        invariant
            i <= d.details@.len(),
            body@ == before + details_text(d.details@.take(i as int)),
        decreases d.details@.len() - i,
    {
        assert(d.details@.take(i + 1).drop_last() =~= d.details@.take(i as int));
        body.append(detail(&d.details[i]).as_str());
        assert(body@ =~= before + details_text(d.details@.take(i + 1)));
        i += 1;
    }
    assert(d.details@.take(d.details@.len() as int) =~= d.details@);
    let mut s = comment(d);
    s.append(body.as_str());
    s
}

// ---- paths ----------------------------------------------------------------------------------

/// One step along an outline, to be written.
#[derive(Debug, Clone, PartialEq, Eq)]
pub enum StepDraft {
    Line { to: Pair },
    Cubic { c1: Pair, c2: Pair, to: Pair },
}

/// A pair with a space between.
pub open spec fn spaced_pair(p: PairView) -> Seq<char> {
    p.x + " "@ + p.y
}

/// One step of a path.
pub open spec fn step_text(s: StepDraft) -> Seq<char> {
    match s {
        StepDraft::Line { to } => "L "@ + spaced_pair(to@) + "\n"@,
        StepDraft::Cubic { c1, c2, to } => "C "@ + spaced_pair(c1@) + " "@ + spaced_pair(c2@) + " "@
            + spaced_pair(to@) + "\n"@,
    }
}

/// The steps of a path.
pub open spec fn steps_text(steps: Seq<StepDraft>) -> Seq<char>
    decreases steps.len(),
{
    if steps.len() == 0 {
        Seq::empty()
    } else {
        steps_text(steps.drop_last()) + step_text(steps.last())
    }
}

/// A path.
pub open spec fn path_text(start: PairView, steps: Seq<StepDraft>) -> Seq<char> {
    "M "@ + spaced_pair(start) + "\n"@ + steps_text(steps)
}

/// A pair with a space between.
pub fn spaced(p: &Pair) -> (r: String)
    ensures
        r@ == spaced_pair(p@),
{
    join3(p.x.as_str(), " ", p.y.as_str())
}

fn step(s: &StepDraft) -> (r: String)
    ensures
        r@ == step_text(*s),
{
    match s {
        StepDraft::Line { to } => join3("L ", spaced(to).as_str(), "\n"),
        StepDraft::Cubic { c1, c2, to } => {
            let mut out = "C ".to_owned();
            out.append(spaced(c1).as_str());
            out.append(" ");
            out.append(spaced(c2).as_str());
            out.append(" ");
            out.append(spaced(to).as_str());
            out.append("\n");
            out
        },
    }
}

/// Writes a path, one step on a line.
pub fn path_d(start: &Pair, steps: &Vec<StepDraft>) -> (r: String)
    ensures
        r@ == path_text(start@, steps@),
{
    let mut out = join3("M ", spaced(start).as_str(), "\n");
    let ghost before = out@;
    let mut i: usize = 0;
    assert(out@ =~= before + steps_text(steps@.take(0)));
    while i < steps.len()
        invariant
            i <= steps@.len(),
            out@ == before + steps_text(steps@.take(i as int)),
        decreases steps@.len() - i,
    {
        assert(steps@.take(i + 1).drop_last() =~= steps@.take(i as int));
        out.append(step(&steps[i]).as_str());
        assert(out@ =~= before + steps_text(steps@.take(i + 1)));
        i += 1;
    }
    assert(steps@.take(steps@.len() as int) =~= steps@);
    out
}

// ---- reading back ---------------------------------------------------------------------------

/// What the first line that begins with the marker holds behind it.
pub open spec fn marked(all: Seq<Seq<char>>) -> Option<Seq<char>>
    decreases all.len(),
{
    if all.len() == 0 {
        None
    } else if has_prefix(all[0], CONFIG_MARKER@) {
        Some(trimmed(all[0].skip(CONFIG_MARKER@.len() as int)))
    } else {
        marked(all.drop_first())
    }
}

/// The configuration in the text of a face, if it has one. A face written by hand has none.
pub fn extract_config(toml_text: &str) -> (r: Option<String>)
    ensures
        opt_text(r) == marked(lines(toml_text@)),
{
    let all = split_lines(toml_text);
    let ghost views = lines(toml_text@);
    let n: usize = to_chars(CONFIG_MARKER).len();
    let mut i: usize = 0;
    assert(views.skip(0) =~= views);
    while i < all.len()
        invariant
            i <= all@.len(),
            n == CONFIG_MARKER@.len(),
            views == rows(all@),
            views == lines(toml_text@),
            marked(views.skip(i as int)) == marked(views),
        decreases all@.len() - i,
    {
        assert(views.skip(i as int)[0] == all@[i as int]@);
        if starts_with(&all[i], CONFIG_MARKER) {
            let rest = part(&all[i], n, all[i].len());
            assert(rest@ =~= all@[i as int]@.skip(n as int));
            return Some(from_chars(&trim_chars(&rest)));
        }
        assert(views.skip(i as int).drop_first() =~= views.skip(i + 1));
        i += 1;
    }
    None
}

// ---- laws -----------------------------------------------------------------------------------

/// Whether a line holds no line feed.
pub open spec fn is_one_line(s: Seq<char>) -> bool {
    !s.contains('\n')
}

/// Whether a line, read back, begins with the marker.
pub open spec fn bears_marker(line: Seq<char>) -> bool {
    has_prefix(without_cr(line), CONFIG_MARKER@)
}

/// Lines before the marked one do not matter.
proof fn lemma_marked_after(head: Seq<Seq<char>>, rest: Seq<char>)
    requires
        forall|i: int|
            0 <= i < head.len() ==> is_one_line(#[trigger] head[i]) && !bears_marker(head[i]),
    ensures
        marked(lines(unlines(head) + rest)) == marked(lines(rest)),
    decreases head.len(),
{
    if head.len() == 0 {
        assert(unlines(head) + rest =~= rest);
    } else {
        let shorter = head.drop_last();
        let line = head.last();
        assert(line == head[head.len() - 1]);
        assert forall|i: int| 0 <= i < shorter.len() implies is_one_line(#[trigger] shorter[i])
            && !bears_marker(shorter[i]) by {
            assert(shorter[i] == head[i]);
        }
        let next = line + seq!['\n'] + rest;
        lemma_marked_after(shorter, next);
        assert(unlines(head) + rest =~= unlines(shorter) + next);
        lemma_first_line(line, rest);
        let all = lines(next);
        assert(all =~= seq![without_cr(line)] + lines(rest));
        assert(all[0] == without_cr(line));
        assert(all.drop_first() =~= lines(rest));
    }
}

/// The lines of the title, and the lone sign, do not bear the marker.
proof fn lemma_plain_lines_bear_no_marker()
    ensures
        forall|i: int|
            0 <= i < 3 ==> is_one_line(#[trigger] title_lines()[i]) && !bears_marker(
                title_lines()[i],
            ),
        is_one_line("#"@),
        !bears_marker("#"@),
{
    reveal_strlit("# ccchar: ");
    reveal_strlit("#");
    reveal_strlit("# ccsessions キャラクタービルダーが生成した顔。");
    reveal_strlit("# `make config`（ccsessions ui）の「キャラクター」で読み込めば、");
    reveal_strlit("# この組み合わせから編集を続けられる。");
    let marker = CONFIG_MARKER@;
    let a = "# ccsessions キャラクタービルダーが生成した顔。"@;
    let b = "# `make config`（ccsessions ui）の「キャラクター」で読み込めば、"@;
    let c = "# この組み合わせから編集を続けられる。"@;
    assert(marker.len() == 10 && marker[2] == 'c' && marker[4] == 'c');
    assert(a.len() > 10 && a[4] == 's' && a.last() != '\r');
    assert(b.len() > 10 && b[2] == '`' && b.last() != '\r');
    assert(c.len() > 10 && c[2] == 'こ' && c.last() != '\r');
    assert(!has_prefix(a, marker)) by {
        assert(a.take(10)[4] == 's');
    }
    assert(!has_prefix(b, marker)) by {
        assert(b.take(10)[2] == '`');
    }
    assert(!has_prefix(c, marker)) by {
        assert(c.take(10)[2] == 'こ');
    }
    assert(title_lines()[0] == a && title_lines()[1] == b && title_lines()[2] == c);
    assert("#"@.len() == 1 && "#"@[0] == '#');
}

/// Whether a note could be taken for the configuration.
pub open spec fn looks_like_config(note: Seq<char>) -> bool {
    has_prefix(on_one_line(note), "ccchar: "@)
}

proof fn lemma_note_lines_bear_no_marker(notes: Seq<String>)
    requires
        forall|i: int| 0 <= i < notes.len() ==> !looks_like_config((#[trigger] notes[i])@),
    ensures
        forall|i: int|
            0 <= i < note_lines(notes).len() ==> is_one_line(#[trigger] note_lines(notes)[i])
                && !bears_marker(note_lines(notes)[i]),
{
    lemma_plain_lines_bear_no_marker();
    reveal_strlit("# ccchar: ");
    reveal_strlit("ccchar: ");
    reveal_strlit("# ");
    let all = note_lines(notes);
    assert forall|i: int| 0 <= i < all.len() implies is_one_line(#[trigger] all[i])
        && !bears_marker(all[i]) by {
        if i == 0 {
            assert(all[0] == "#"@);
        } else {
            let note = on_one_line(notes[i - 1]@);
            let line = "# "@ + note;
            assert(all[i] == line);
            assert forall|k: int| 0 <= k < line.len() implies line[k] != '\n' by {
                if k >= 2 {
                    assert(line[k] == note[k - 2]);
                }
            }
            if bears_marker(line) {
                let read = without_cr(line);
                assert(read.take(10) == CONFIG_MARKER@);
                assert(note.len() >= 8);
                assert(note.take(8) =~= "ccchar: "@) by {
                    assert forall|k: int| 0 <= k < 8 implies note[k] == "ccchar: "@[k] by {
                        assert(line[k + 2] == note[k]);
                        assert(read[k + 2] == read.take(10)[k + 2]);
                        assert(CONFIG_MARKER@[k + 2] == "ccchar: "@[k]);
                    }
                }
                assert(!looks_like_config(notes[i - 1]@));
            }
        }
    }
}

/// The configuration that a face is written with is read back from its text, without the white
/// space around it. A note that looks like a configuration would be read in its place.
pub proof fn law_the_configuration_is_read_back(d: Draft)
    requires
        d.config_json is Some,
        forall|i: int| 0 <= i < d.notes@.len() ==> !looks_like_config((#[trigger] d.notes@[i])@),
    ensures
        marked(lines(face_text(d))) == Some(trimmed(on_one_line(d.config_json->0@))),
{
    let j = on_one_line(d.config_json->0@);
    let line = CONFIG_MARKER@ + j;
    let head = title_lines() + note_lines(d.notes@) + seq!["#"@];
    let all = comment_lines(d);
    lemma_plain_lines_bear_no_marker();
    lemma_note_lines_bear_no_marker(d.notes@);
    reveal_strlit("# ccchar: ");
    assert(all =~= head.push(line));
    lemma_unlines_push(head, line);
    let rest = line + seq!['\n'] + body_text(d);
    assert(face_text(d) =~= unlines(head) + rest);
    assert forall|i: int| 0 <= i < head.len() implies is_one_line(#[trigger] head[i])
        && !bears_marker(head[i]) by {
        let n = note_lines(d.notes@);
        if i < 3 {
            assert(head[i] == title_lines()[i]);
        } else if i < 3 + n.len() {
            assert(head[i] == n[i - 3]);
        } else {
            assert(head[i] == "#"@);
        }
    }
    lemma_marked_after(head, rest);
    assert(is_one_line(line)) by {
        assert forall|k: int| 0 <= k < line.len() implies line[k] != '\n' by {
            if k >= 10 {
                assert(line[k] == j[k - 10]);
            }
        }
    }
    lemma_first_line(line, body_text(d));
    let read = without_cr(line);
    assert(lines(rest)[0] == read);
    assert(line.take(10) =~= CONFIG_MARKER@);
    if j.len() > 0 && j.last() == '\r' {
        assert(line.last() == '\r');
        assert(read.take(10) =~= CONFIG_MARKER@);
        assert(read.skip(10) =~= j.drop_last());
        lemma_trailing_white_is_trimmed(j);
    } else {
        assert(line.last() != '\r') by {
            if j.len() == 0 {
                assert(line =~= CONFIG_MARKER@);
            } else {
                assert(line.last() == j.last());
            }
        }
        assert(read.skip(10) =~= j);
    }
}

/// A configuration on one line and without white space around it is read back as it was.
pub proof fn law_a_plain_configuration_is_read_back_unchanged(d: Draft)
    requires
        d.config_json is Some,
        is_one_line(d.config_json->0@),
        trimmed(d.config_json->0@) == d.config_json->0@,
        forall|i: int| 0 <= i < d.notes@.len() ==> !looks_like_config((#[trigger] d.notes@[i])@),
    ensures
        marked(lines(face_text(d))) == Some(d.config_json->0@),
{
    law_the_configuration_is_read_back(d);
    let j = d.config_json->0@;
    assert(on_one_line(j) =~= j) by {
        assert forall|i: int| 0 <= i < j.len() implies on_one_line(j)[i] == j[i] by {
            if j[i] == '\n' {
                assert(j.contains('\n'));
            }
        }
    }
}

/// The value of a hexadecimal digit in upper case.
pub open spec fn hex_value(c: char) -> int {
    if '0' <= c <= '9' {
        c as u32 - 0x30
    } else {
        c as u32 - 0x37
    }
}

/// What a TOML string holds, given what stands between its quotes.
pub open spec fn unescaped(s: Seq<char>) -> Seq<char>
    decreases s.len(),
{
    if s.len() == 0 {
        Seq::empty()
    } else if s[0] != '\\' {
        seq![s[0]] + unescaped(s.skip(1))
    } else if s.len() >= 6 && s[1] == 'u' {
        seq![
            (hex_value(s[2]) * 4096 + hex_value(s[3]) * 256 + hex_value(s[4]) * 16 + hex_value(
                s[5],
            )) as char,
        ] + unescaped(s.skip(6))
    } else if s.len() >= 2 {
        seq![
            if s[1] == 'n' {
                '\n'
            } else if s[1] == 'r' {
                '\r'
            } else if s[1] == 't' {
                '\t'
            } else {
                s[1]
            },
        ] + unescaped(s.skip(2))
    } else {
        s
    }
}

proof fn lemma_unescape_one(c: char, rest: Seq<char>)
    ensures
        unescaped(escaped(c) + rest) == seq![c] + unescaped(rest),
{
    let s = escaped(c) + rest;
    assert(s.skip(escaped(c).len() as int) =~= rest);
    if c == '"' || c == '\\' || c == '\n' || c == '\r' || c == '\t' {
        assert(s[0] == '\\' && s[1] == escaped(c)[1]);
        assert(s[1] != 'u');
    } else if needs_code(c) {
        let n = c as u32 as int;
        assert(s[0] == '\\' && s[1] == 'u' && s[2] == '0' && s[3] == '0');
        assert(s[4] == upper_hex((n / 16) as nat) && s[5] == upper_hex((n % 16) as nat));
        assert(hex_value(s[4]) == n / 16);
        assert(hex_value(s[5]) == n % 16);
        assert(hex_value(s[2]) == 0 && hex_value(s[3]) == 0);
        assert((n / 16) * 16 + n % 16 == n);
    } else {
        assert(s[0] == c);
    }
}

proof fn lemma_escaped_append(a: Seq<char>, b: Seq<char>)
    ensures
        escaped_all(a + b) == escaped_all(a) + escaped_all(b),
    decreases b.len(),
{
    if b.len() == 0 {
        assert(a + b =~= a);
        assert(escaped_all(a) + escaped_all(b) =~= escaped_all(a));
    } else {
        assert((a + b).drop_last() =~= a + b.drop_last());
        lemma_escaped_append(a, b.drop_last());
        assert(escaped_all(a + b) =~= escaped_all(a) + escaped_all(b));
    }
}

/// A string is read back as it was: what stands between the quotes says exactly what was
/// quoted.
pub proof fn law_a_quoted_string_is_read_back(s: Seq<char>)
    ensures
        unescaped(escaped_all(s)) == s,
    decreases s.len(),
{
    if s.len() > 0 {
        let first = seq![s[0]];
        let rest = s.skip(1);
        assert(s =~= first + rest);
        lemma_escaped_append(first, rest);
        assert(first.drop_last() =~= Seq::<char>::empty());
        assert(escaped_all(first) =~= escaped(s[0])) by {
            assert(escaped_all(first.drop_last()) =~= Seq::<char>::empty());
        }
        lemma_unescape_one(s[0], escaped_all(rest));
        law_a_quoted_string_is_read_back(rest);
    }
}

/// No control character stands between the quotes.
pub proof fn law_a_quoted_string_has_no_control_character(s: Seq<char>, i: int)
    requires
        0 <= i < escaped_all(s).len(),
    ensures
        !needs_code(escaped_all(s)[i]),
    decreases s.len(),
{
    let before = escaped_all(s.drop_last());
    if i < before.len() {
        law_a_quoted_string_has_no_control_character(s.drop_last(), i);
    } else {
        assert(escaped_all(s)[i] == escaped(s.last())[i - before.len()]);
    }
}

/// A written number never ends in a needless zero.
pub proof fn law_numbers_have_no_needless_zeros(s: Seq<char>)
    ensures
        without_zeros(s).len() > 0 && without_zeros(s).last() == '0' ==> has_suffix(
            without_zeros(s),
            ".0"@,
        ),
        without_zeros(s).len() <= s.len(),
        without_zeros(s) == s.take(without_zeros(s).len() as int),
    decreases s.len(),
{
    if s.len() > 0 && s.last() == '0' && !has_suffix(s, ".0"@) {
        law_numbers_have_no_needless_zeros(s.drop_last());
        assert(without_zeros(s) =~= s.take(without_zeros(s).len() as int));
    } else {
        assert(s =~= s.take(s.len() as int));
    }
}

/// Cutting needless zeros keeps the point.
pub proof fn law_numbers_keep_their_point(s: Seq<char>, at: int)
    requires
        0 <= at < s.len() - 1,
        s[at] == '.',
    ensures
        at < without_zeros(s).len() - 1,
        without_zeros(s)[at] == '.',
    decreases s.len(),
{
    if s.last() == '0' && !has_suffix(s, ".0"@) {
        reveal_strlit(".0");
        if at == s.len() - 2 {
            assert(s.skip(s.len() - 2) =~= ".0"@);
        }
        law_numbers_keep_their_point(s.drop_last(), at);
    }
}

/// The configuration of a face is what stands behind the marker in the first line that begins with
/// it, without the white space around it. A text without such a line has none.
pub proof fn law_only_a_marked_line_holds_a_configuration(all: Seq<Seq<char>>, k: int)
    ensures
        (forall|i: int| 0 <= i < all.len() ==> !has_prefix(#[trigger] all[i], "# ccchar: "@))
            ==> marked(all) is None,
        0 <= k < all.len() && has_prefix(all[k], "# ccchar: "@) && (forall|i: int|
            0 <= i < k ==> !has_prefix(#[trigger] all[i], "# ccchar: "@)) ==> marked(all) == Some(
            trimmed(all[k].skip(10)),
        ),
    decreases all.len(),
{
    reveal_strlit("# ccchar: ");
    if all.len() > 0 {
        let rest = all.drop_first();
        law_only_a_marked_line_holds_a_configuration(rest, k - 1);
        if forall|i: int| 0 <= i < all.len() ==> !has_prefix(#[trigger] all[i], "# ccchar: "@) {
            assert(!has_prefix(all[0], "# ccchar: "@));
            assert forall|i: int| 0 <= i < rest.len() implies !has_prefix(
                #[trigger] rest[i],
                "# ccchar: "@,
            ) by {
                assert(rest[i] == all[i + 1]);
            }
        }
        if 0 < k < all.len() && has_prefix(all[k], "# ccchar: "@) && (forall|i: int|
            0 <= i < k ==> !has_prefix(#[trigger] all[i], "# ccchar: "@)) {
            assert(!has_prefix(all[0], "# ccchar: "@));
            assert(rest[k - 1] == all[k]);
            assert forall|i: int| 0 <= i < k - 1 implies !has_prefix(
                #[trigger] rest[i],
                "# ccchar: "@,
            ) by {
                assert(rest[i] == all[i + 1]);
            }
        }
    }
}

} // verus!
