//! From the fields of a face's text to a face.
//!
//! Only the form is looked at here; whether the eyes stay inside the outline is not. All
//! problems are collected.

use vstd::prelude::*;

use super::spec::{
    color_named, index_of_state, is_valid_id, parse_problem, plain_override, problem_views, report,
    state_index, valid_id, BodySize, BySize, CornerSpec, DetailSpec, EyeColor, EyeOverride,
    EyeShape, EyesSpec, FaceSpec, OutlineSpec, Problem, ProblemCode, ProblemView, Source, StateColors,
};
use super::palette::{hex_of, parse_hex, Hex};
use super::{Seg, Size};
use crate::num::{finite, Num, Point, HALF_BITS, TWO_BITS};
use crate::session::{state_named, SessionState};
use crate::text::{
    debug_text, decimal, decimal_text, from_chars, join3, quoted, rows, same, split_words, to_chars,
    trim, trimmed, words,
};

verus! {

// ---- the fields -----------------------------------------------------------------------------

/// One word of a path, and the number that it reads as, if it does.
#[derive(Debug, Clone, PartialEq, Eq)]
pub struct Token {
    pub text: String,
    pub number: Option<Num>,
}

/// The outline as written.
#[derive(Debug, Clone, PartialEq, Eq)]
pub struct RawOutline {
    pub kind: String,
    pub corners: Option<[[Num; 2]; 4]>,
    pub corners_pt: Option<BySize<Num>>,
    pub half: bool,
    /// The words of the path.
    pub d: Option<Vec<Token>>,
}

/// What is written about the eyes in one state.
#[derive(Debug, Clone, PartialEq, Eq)]
pub struct RawEyeState {
    pub w_scale: Option<Num>,
    pub h_scale: Option<Num>,
    pub dx: Option<Num>,
    pub color: Option<String>,
    pub glow: Option<Num>,
    pub blink: Option<bool>,
}

/// The eyes as written.
#[derive(Debug, Clone, PartialEq, Eq)]
pub struct RawEyes {
    pub shape: String,
    pub v: Option<Num>,
    pub gap: BySize<Num>,
    pub size: BySize<[Num; 2]>,
    pub radius: Option<Num>,
    pub polygon: Option<Vec<[Num; 2]>>,
    /// The names of the states with what is written about them, in the order of the names.
    pub states: Vec<(String, RawEyeState)>,
}

/// A panel line as written.
#[derive(Debug, Clone, PartialEq, Eq)]
pub struct RawDetail {
    pub name: String,
    pub sizes: Option<Vec<String>>,
    pub points: Vec<[Num; 2]>,
}

/// The colours of a state as written.
#[derive(Debug, Clone, PartialEq, Eq)]
pub struct RawColors {
    pub accent: Option<String>,
    pub fill: Option<String>,
    pub eye: Option<String>,
}

/// A face as written.
#[derive(Debug, Clone, PartialEq, Eq)]
pub struct RawFace {
    pub id: String,
    pub label: String,
    pub label_en: Option<String>,
    pub author: Option<String>,
    pub size: BySize<BodySize>,
    pub outline: RawOutline,
    pub eyes: RawEyes,
    pub details: Vec<RawDetail>,
    /// The names of the states with their colours, in the order of the names.
    pub colors: Vec<(String, RawColors)>,
}

// ---- paths ----------------------------------------------------------------------------------

/// The words of a path. `read` says what number a word reads as.
pub fn path_tokens(d: &str, read: impl Fn(&String) -> Option<Num>) -> (r: Vec<Token>)
    requires
        forall|word: &String| call_requires(read, (word,)),
    ensures
        r@.len() == words(d@, true).len(),
        forall|i: int|
            0 <= i < r@.len() ==> (#[trigger] r@[i]).text@ == words(d@, true)[i] && call_ensures(
                read,
                (&r@[i].text,),
                r@[i].number,
            ),
{
    let pieces = split_words(d, true);
    let ghost all = words(d@, true);
    let mut out: Vec<Token> = Vec::new();
    let mut i: usize = 0;
    while i < pieces.len()
        invariant
            i <= pieces@.len(),
            forall|word: &String| call_requires(read, (word,)),
            all == rows(pieces@),
            out@.len() == i,
            forall|k: int|
                0 <= k < i ==> (#[trigger] out@[k]).text@ == all[k] && call_ensures(
                    read,
                    (&out@[k].text,),
                    out@[k].number,
                ),
        decreases pieces@.len() - i,
    {
        let text = from_chars(&pieces[i]);
        assert(text@ == all[i as int]);
        let number = read(&text);
        out.push(Token { text, number });
        i += 1;
    }
    out
}

/// Whether a word is this letter.
pub open spec fn is_letter(word: Seq<char>, c: char) -> bool {
    word.len() == 1 && word[0] == c
}

/// Whether a word is a command with relative coordinates.
pub open spec fn is_relative(word: Seq<char>) -> bool {
    word.len() == 1 && (word[0] == 'm' || word[0] == 'l' || word[0] == 'c' || word[0] == 'z'
        || word[0] == 'a' || word[0] == 'q' || word[0] == 's' || word[0] == 't' || word[0] == 'h'
        || word[0] == 'v')
}

/// Whether a word is a command that paths have elsewhere.
pub open spec fn is_foreign(word: Seq<char>) -> bool {
    word.len() == 1 && (word[0] == 'A' || word[0] == 'Q' || word[0] == 'S' || word[0] == 'T'
        || word[0] == 'H' || word[0] == 'V')
}

/// The number at a place, which a command needs.
pub open spec fn number_at(toks: Seq<Token>, i: int, cmd: char) -> Result<Num, Seq<char>> {
    if i >= toks.len() {
        Err("d の命令 "@ + seq![cmd] + " に数値が足りません"@)
    } else {
        match toks[i].number {
            None => Err("d の "@ + debug_text(toks[i].text@) + " を数値として読めません"@),
            Some(n) => if !finite(n) {
                Err("d の数値 "@ + debug_text(toks[i].text@) + " が有限ではありません"@)
            } else {
                Ok(n)
            },
        }
    }
}

/// The point at a place, which a command needs.
pub open spec fn point_at(toks: Seq<Token>, i: int, cmd: char) -> Result<Point, Seq<char>> {
    match number_at(toks, i, cmd) {
        Err(e) => Err(e),
        Ok(x) => match number_at(toks, i + 1, cmd) {
            Err(e) => Err(e),
            Ok(y) => Ok(Point { x, y }),
        },
    }
}

/// The curve at a place.
pub open spec fn curve_at(toks: Seq<Token>, i: int) -> Result<Seg, Seq<char>> {
    match point_at(toks, i, 'C') {
        Err(e) => Err(e),
        Ok(c1) => match point_at(toks, i + 2, 'C') {
            Err(e) => Err(e),
            Ok(c2) => match point_at(toks, i + 4, 'C') {
                Err(e) => Err(e),
                Ok(to) => Ok(Seg::Cubic { c1, c2, to }),
            },
        },
    }
}

/// What the words from `i` on make of a path whose start and first steps are known, or what is
/// wrong with it. A path is one `M`, then `L`, `C` and `Z`, all with absolute coordinates.
pub open spec fn path_from(
    toks: Seq<Token>,
    i: int,
    start: Option<Point>,
    segs: Seq<Seg>,
) -> Result<(Point, Seq<Seg>), Seq<char>>
    decreases toks.len() - i,
{
    if i >= toks.len() {
        match start {
            None => Err("d が空です（M で始めてください）"@),
            Some(p) => if segs.len() == 0 {
                Err("d に手が 1 つもありません"@)
            } else {
                Ok((p, segs))
            },
        }
    } else {
        let word = toks[i].text@;
        if is_letter(word, 'M') {
            if start is Some {
                Err("d に M が 2 回以上あります。輪郭は 1 本の閉じたパスで書いてください"@)
            } else {
                match point_at(toks, i + 1, 'M') {
                    Err(e) => Err(e),
                    Ok(p) => path_from(toks, i + 3, Some(p), segs),
                }
            }
        } else if is_letter(word, 'L') {
            if start is None {
                Err("d は M で始めてください"@)
            } else {
                match point_at(toks, i + 1, 'L') {
                    Err(e) => Err(e),
                    Ok(to) => path_from(toks, i + 3, start, segs.push(Seg::Line { to })),
                }
            }
        } else if is_letter(word, 'C') {
            if start is None {
                Err("d は M で始めてください"@)
            } else {
                match curve_at(toks, i + 1) {
                    Err(e) => Err(e),
                    Ok(seg) => path_from(toks, i + 7, start, segs.push(seg)),
                }
            }
        } else if is_letter(word, 'Z') {
            path_from(toks, i + 1, start, segs)
        } else if is_relative(word) {
            Err(
                "d に相対座標の命令 "@ + debug_text(word)
                    + " があります。絶対座標（大文字の M / L / C / Z）で書いてください"@,
            )
        } else if is_foreign(word) {
            Err(
                "d の命令 "@ + debug_text(word)
                    + " は未対応です。M / L / C / Z だけが使えます（円弧や 2 次ベジェはベクタツール側で 3 次ベジェへ変換してください）"@,
            )
        } else {
            Err(
                "d に読めない字句 "@ + debug_text(word)
                    + " があります。命令文字（M / L / C / Z）の省略には対応していません"@,
            )
        }
    }
}

/// What the words of a path make.
pub open spec fn path_of(toks: Seq<Token>) -> Result<(Point, Seq<Seg>), Seq<char>> {
    path_from(toks, 0, None, Seq::empty())
}

fn read_number(toks: &Vec<Token>, i: usize, cmd: char) -> (r: Result<Num, String>)
    ensures
        r is Ok == number_at(toks@, i as int, cmd) is Ok,
        r matches Ok(n) ==> n == number_at(toks@, i as int, cmd)->Ok_0 && i < toks.len(),
        r matches Err(e) ==> e@ == number_at(toks@, i as int, cmd)->Err_0,
{
    if i >= toks.len() {
        let mut e = "d の命令 ".to_owned();
        let ghost upto = e@;
        e.push(cmd);
        assert(e@ =~= upto + seq![cmd]);
        e.append(" に数値が足りません");
        return Err(e);
    }
    match toks[i].number {
        None => Err(
            join3("d の ", quoted(toks[i].text.as_str()).as_str(), " を数値として読めません"),
        ),
        Some(n) => if !n.is_finite() {
            Err(
                join3(
                    "d の数値 ",
                    quoted(toks[i].text.as_str()).as_str(),
                    " が有限ではありません",
                ),
            )
        } else {
            Ok(n)
        },
    }
}

fn read_point(toks: &Vec<Token>, i: usize, cmd: char) -> (r: Result<Point, String>)
    requires
        i <= toks.len(),
    ensures
        r is Ok == point_at(toks@, i as int, cmd) is Ok,
        r matches Ok(p) ==> p == point_at(toks@, i as int, cmd)->Ok_0 && i + 2 <= toks.len(),
        r matches Err(e) ==> e@ == point_at(toks@, i as int, cmd)->Err_0,
{
    match read_number(toks, i, cmd) {
        Err(e) => Err(e),
        Ok(x) => match read_number(toks, i + 1, cmd) {
            Err(e) => Err(e),
            Ok(y) => Ok(Point { x, y }),
        },
    }
}

fn read_curve(toks: &Vec<Token>, i: usize) -> (r: Result<Seg, String>)
    requires
        i <= toks.len(),
    ensures
        r is Ok == curve_at(toks@, i as int) is Ok,
        r matches Ok(s) ==> s == curve_at(toks@, i as int)->Ok_0 && i + 6 <= toks.len(),
        r matches Err(e) ==> e@ == curve_at(toks@, i as int)->Err_0,
{
    match read_point(toks, i, 'C') {
        Err(e) => Err(e),
        Ok(c1) => match read_point(toks, i + 2, 'C') {
            Err(e) => Err(e),
            Ok(c2) => match read_point(toks, i + 4, 'C') {
                Err(e) => Err(e),
                Ok(to) => Ok(Seg::Cubic { c1, c2, to }),
            },
        },
    }
}

/// Reads a path: its start and its steps. Only `M`, `L`, `C` and `Z` with absolute coordinates
/// are accepted; whatever else a path may have elsewhere is an error, not ignored.
pub fn parse_path(toks: &Vec<Token>) -> (r: Result<(Point, Vec<Seg>), Problem>)
    ensures
        r is Ok == path_of(toks@) is Ok,
        r matches Ok((start, segs)) ==> (start, segs@) == path_of(toks@)->Ok_0,
        r matches Err(p) ==> p@ == parse_problem(path_of(toks@)->Err_0),
{
    let mut start: Option<Point> = None;
    let mut segs: Vec<Seg> = Vec::new();
    let mut i: usize = 0;
    while i < toks.len()
        invariant
            i <= toks@.len(),
            path_from(toks@, i as int, start, segs@) == path_of(toks@),
        decreases toks@.len() - i,
    {
        let word = to_chars(toks[i].text.as_str());
        let letter = if word.len() == 1 {
            word[0]
        } else {
            ' '
        };
        if letter == 'M' {
            if start.is_some() {
                return Err(
                    Problem::new(
                        ProblemCode::Parse,
                        "d に M が 2 回以上あります。輪郭は 1 本の閉じたパスで書いてください".to_owned(),
                    ),
                );
            }
            match read_point(toks, i + 1, 'M') {
                Err(e) => {
                    return Err(Problem::new(ProblemCode::Parse, e));
                },
                Ok(p) => {
                    start = Some(p);
                    i += 3;
                },
            }
        } else if letter == 'L' {
            if start.is_none() {
                return Err(
                    Problem::new(ProblemCode::Parse, "d は M で始めてください".to_owned()),
                );
            }
            match read_point(toks, i + 1, 'L') {
                Err(e) => {
                    return Err(Problem::new(ProblemCode::Parse, e));
                },
                Ok(to) => {
                    segs.push(Seg::Line { to });
                    i += 3;
                },
            }
        } else if letter == 'C' {
            if start.is_none() {
                return Err(
                    Problem::new(ProblemCode::Parse, "d は M で始めてください".to_owned()),
                );
            }
            match read_curve(toks, i + 1) {
                Err(e) => {
                    return Err(Problem::new(ProblemCode::Parse, e));
                },
                Ok(seg) => {
                    segs.push(seg);
                    i += 7;
                },
            }
        } else if letter == 'Z' {
            i += 1;
        } else {
            let shown = quoted(toks[i].text.as_str());
            let relative = letter == 'm' || letter == 'l' || letter == 'c' || letter == 'z'
                || letter == 'a' || letter == 'q' || letter == 's' || letter == 't' || letter == 'h'
                || letter == 'v';
            let foreign = letter == 'A' || letter == 'Q' || letter == 'S' || letter == 'T' || letter
                == 'H' || letter == 'V';
            let message = if relative {
                join3(
                    "d に相対座標の命令 ",
                    shown.as_str(),
                    " があります。絶対座標（大文字の M / L / C / Z）で書いてください",
                )
            } else if foreign {
                join3(
                    "d の命令 ",
                    shown.as_str(),
                    " は未対応です。M / L / C / Z だけが使えます（円弧や 2 次ベジェはベクタツール側で 3 次ベジェへ変換してください）",
                )
            } else {
                join3(
                    "d に読めない字句 ",
                    shown.as_str(),
                    " があります。命令文字（M / L / C / Z）の省略には対応していません",
                )
            };
            return Err(Problem::new(ProblemCode::Parse, message));
        }
    }
    match start {
        None => Err(
            Problem::new(ProblemCode::Parse, "d が空です（M で始めてください）".to_owned()),
        ),
        Some(p) => if segs.len() == 0 {
            Err(Problem::new(ProblemCode::Parse, "d に手が 1 つもありません".to_owned()))
        } else {
            Ok((p, segs))
        },
    }
}

// ---- outlines -------------------------------------------------------------------------------

/// What an `OutlineSpec` holds.
#[verifier::ext_equal]
pub enum OutlineView {
    Corners(CornerSpec),
    Path { half: bool, start: Point, segs: Seq<Seg> },
}

impl View for OutlineSpec {
    type V = OutlineView;

    open spec fn view(&self) -> OutlineView {
        match *self {
            OutlineSpec::Corners(c) => OutlineView::Corners(c),
            OutlineSpec::Path { half, start, segs } => OutlineView::Path {
                half,
                start,
                segs: segs@,
            },
        }
    }
}

/// What an optional `OutlineSpec` holds.
pub open spec fn opt_outline(o: Option<OutlineSpec>) -> Option<OutlineView> {
    match o {
        Some(o) => Some(o@),
        None => None,
    }
}

/// The problems of an outline as written, in order.
pub open spec fn outline_problems(raw: RawOutline) -> Seq<ProblemView> {
    let none = Seq::<ProblemView>::empty();
    if raw.kind@ == "corners"@ {
        (if raw.d is Some {
            none.push(
                parse_problem(
                    "kind = \"corners\" では d は使えません（kind = \"path\" にしてください）"@,
                ),
            )
        } else {
            none
        }) + (if raw.corners is Some && raw.corners_pt is Some {
            none.push(
                parse_problem("corners と corners_pt は同時に書けません。どちらか一方にしてください"@),
            )
        } else if raw.corners is None && raw.corners_pt is None {
            none.push(
                parse_problem(
                    "kind = \"corners\" には corners か corners_pt のどちらかが要ります"@,
                ),
            )
        } else {
            none
        })
    } else if raw.kind@ == "capsule"@ {
        if raw.corners is Some || raw.corners_pt is Some || raw.d is Some {
            none.push(
                parse_problem(
                    "kind = \"capsule\" では corners / corners_pt / d は使えません（角丸は高さの半分に決まるため）"@,
                ),
            )
        } else {
            none
        }
    } else if raw.kind@ == "path"@ {
        (if raw.corners is Some || raw.corners_pt is Some {
            none.push(parse_problem("kind = \"path\" では corners / corners_pt は使えません"@))
        } else {
            none
        }) + (match raw.d {
            None => none.push(parse_problem("kind = \"path\" には d が要ります"@)),
            Some(toks) => match path_of(toks@) {
                Ok(_) => none,
                Err(e) => none.push(parse_problem(e)),
            },
        })
    } else {
        none.push(
            parse_problem(
                "outline.kind が "@ + debug_text(raw.kind@)
                    + " です（\"corners\" | \"capsule\" | \"path\"）"@,
            ),
        )
    }
}

/// The outline that is made of an outline as written, if one can be made.
pub open spec fn outline_made(raw: RawOutline) -> Option<OutlineView> {
    if raw.kind@ == "corners"@ {
        match (raw.corners, raw.corners_pt) {
            (Some(c), None) => Some(OutlineView::Corners(CornerSpec::Ratio(c))),
            (None, Some(pt)) => Some(OutlineView::Corners(CornerSpec::Pt(pt))),
            _ => None,
        }
    } else if raw.kind@ == "capsule"@ {
        Some(OutlineView::Corners(CornerSpec::Capsule))
    } else if raw.kind@ == "path"@ {
        match raw.d {
            None => None,
            Some(toks) => match path_of(toks@) {
                Ok((start, segs)) => Some(OutlineView::Path { half: raw.half, start, segs }),
                Err(_) => None,
            },
        }
    } else {
        None
    }
}

/// Makes an outline of an outline as written.
pub fn build_outline(raw: &RawOutline, problems: &mut Vec<Problem>) -> (r: Option<OutlineSpec>)
    ensures
        problem_views(final(problems)@) == problem_views(old(problems)@) + outline_problems(*raw),
        opt_outline(r) == outline_made(*raw),
{
    let ghost before = problem_views(problems@);
    if same(raw.kind.as_str(), "corners") {
        if raw.d.is_some() {
            report(
                problems,
                ProblemCode::Parse,
                "kind = \"corners\" では d は使えません（kind = \"path\" にしてください）".to_owned(),
            );
        }
        match (raw.corners, raw.corners_pt) {
            (Some(c), None) => {
                assert(problem_views(problems@) =~= before + outline_problems(*raw));
                Some(OutlineSpec::Corners(CornerSpec::Ratio(c)))
            },
            (None, Some(pt)) => {
                assert(problem_views(problems@) =~= before + outline_problems(*raw));
                Some(OutlineSpec::Corners(CornerSpec::Pt(pt)))
            },
            (Some(_), Some(_)) => {
                report(
                    problems,
                    ProblemCode::Parse,
                    "corners と corners_pt は同時に書けません。どちらか一方にしてください".to_owned(),
                );
                assert(problem_views(problems@) =~= before + outline_problems(*raw));
                None
            },
            (None, None) => {
                report(
                    problems,
                    ProblemCode::Parse,
                    "kind = \"corners\" には corners か corners_pt のどちらかが要ります".to_owned(),
                );
                assert(problem_views(problems@) =~= before + outline_problems(*raw));
                None
            },
        }
    } else if same(raw.kind.as_str(), "capsule") {
        if raw.corners.is_some() || raw.corners_pt.is_some() || raw.d.is_some() {
            report(
                problems,
                ProblemCode::Parse,
                "kind = \"capsule\" では corners / corners_pt / d は使えません（角丸は高さの半分に決まるため）".to_owned(),
            );
        }
        assert(problem_views(problems@) =~= before + outline_problems(*raw));
        Some(OutlineSpec::Corners(CornerSpec::Capsule))
    } else if same(raw.kind.as_str(), "path") {
        if raw.corners.is_some() || raw.corners_pt.is_some() {
            report(
                problems,
                ProblemCode::Parse,
                "kind = \"path\" では corners / corners_pt は使えません".to_owned(),
            );
        }
        match &raw.d {
            None => {
                report(
                    problems,
                    ProblemCode::Parse,
                    "kind = \"path\" には d が要ります".to_owned(),
                );
                assert(problem_views(problems@) =~= before + outline_problems(*raw));
                None
            },
            Some(toks) => match parse_path(toks) {
                Ok((start, segs)) => {
                    assert(problem_views(problems@) =~= before + outline_problems(*raw));
                    Some(OutlineSpec::Path { half: raw.half, start, segs })
                },
                Err(p) => {
                    report(problems, p.code, p.message);
                    assert(problem_views(problems@) =~= before + outline_problems(*raw));
                    None
                },
            },
        }
    } else {
        report(
            problems,
            ProblemCode::Parse,
            join3(
                "outline.kind が ",
                quoted(raw.kind.as_str()).as_str(),
                " です（\"corners\" | \"capsule\" | \"path\"）",
            ),
        );
        assert(problem_views(problems@) =~= before + outline_problems(*raw));
        None
    }
}

// ---- eyes -----------------------------------------------------------------------------------

/// What an `EyesSpec` holds.
#[verifier::ext_equal]
pub struct EyesView {
    pub shape: EyeShape,
    pub v: Num,
    pub gap: BySize<Num>,
    pub size: BySize<[Num; 2]>,
    pub radius: Num,
    pub polygon: Option<Seq<[Num; 2]>>,
    pub states: Seq<Option<EyeOverride>>,
}

/// What an optional list of points holds.
pub open spec fn opt_points(p: Option<Vec<[Num; 2]>>) -> Option<Seq<[Num; 2]>> {
    match p {
        Some(v) => Some(v@),
        None => None,
    }
}

impl View for EyesSpec {
    type V = EyesView;

    open spec fn view(&self) -> EyesView {
        EyesView {
            shape: self.shape,
            v: self.v,
            gap: self.gap,
            size: self.size,
            radius: self.radius,
            polygon: opt_points(self.polygon),
            states: self.states@,
        }
    }
}

/// What an optional `EyesSpec` holds.
pub open spec fn opt_eyes(e: Option<EyesSpec>) -> Option<EyesView> {
    match e {
        Some(e) => Some(e@),
        None => None,
    }
}

/// The shape with this name, if there is one.
pub open spec fn shape_named(name: Seq<char>) -> Option<EyeShape> {
    if name == "rounded"@ {
        Some(EyeShape::Rounded)
    } else if name == "polygon"@ {
        Some(EyeShape::Polygon)
    } else {
        None
    }
}

/// The value, or another if there is none.
pub open spec fn given_or<T>(value: Option<T>, other: T) -> T {
    match value {
        Some(v) => v,
        None => other,
    }
}

/// What a face says about a state, given what is written. A colour that cannot be read counts
/// as the plain one.
pub open spec fn override_of(st: RawEyeState) -> EyeOverride {
    let d = plain_override();
    EyeOverride {
        w_scale: given_or(st.w_scale, d.w_scale),
        h_scale: given_or(st.h_scale, d.h_scale),
        dx: given_or(st.dx, d.dx),
        color: match st.color {
            None => EyeColor::Eye,
            Some(c) => given_or(color_named(c@), EyeColor::Eye),
        },
        glow: given_or(st.glow, d.glow),
        blink: given_or(st.blink, d.blink),
    }
}

/// The problems of what is written about one state.
pub open spec fn state_problems(key: Seq<char>, st: RawEyeState) -> Seq<ProblemView> {
    let none = Seq::<ProblemView>::empty();
    if state_named(key) is None {
        none.push(
            parse_problem(
                "eyes.states."@ + key
                    + " は未知の状態です（working / wait_user / wait_agent / idle / done / error）"@,
            ),
        )
    } else if st.color matches Some(c) && color_named(c@) is None {
        none.push(
            parse_problem(
                "eyes.states."@ + key + ".color が "@ + debug_text(st.color->0@)
                    + " です（\"eye\" | \"eye_closed\" | \"eye_error\" | \"white\"）"@,
            ),
        )
    } else {
        none
    }
}

/// The problems of what is written about the states, in order.
pub open spec fn states_problems(states: Seq<(String, RawEyeState)>) -> Seq<ProblemView>
    decreases states.len(),
{
    if states.len() == 0 {
        Seq::empty()
    } else {
        states_problems(states.drop_last()) + state_problems(states.last().0@, states.last().1)
    }
}

/// What a face says about each state, in the order of `SessionState::ORDER`. Unknown states do
/// not count.
pub open spec fn states_made(states: Seq<(String, RawEyeState)>) -> Seq<Option<EyeOverride>>
    decreases states.len(),
{
    if states.len() == 0 {
        seq![None, None, None, None, None, None]
    } else {
        let before = states_made(states.drop_last());
        match state_named(states.last().0@) {
            None => before,
            Some(s) => before.update(index_of_state(s), Some(override_of(states.last().1))),
        }
    }
}

/// The problems of the shape of the eyes.
pub open spec fn shape_problems(raw: RawEyes) -> Seq<ProblemView> {
    let none = Seq::<ProblemView>::empty();
    match shape_named(raw.shape@) {
        None => none.push(
            parse_problem(
                "eyes.shape が "@ + debug_text(raw.shape@)
                    + " です（\"rounded\" か \"polygon\"）"@,
            ),
        ),
        Some(EyeShape::Polygon) => match raw.polygon {
            None => none.push(
                parse_problem("eyes.shape = \"polygon\" には polygon が要ります"@),
            ),
            Some(p) => if p@.len() < 3 {
                none.push(
                    parse_problem(
                        "eyes.polygon は 3 点以上が要ります（"@ + decimal(p@.len())
                            + " 点しかありません）"@,
                    ),
                )
            } else {
                none
            },
        },
        Some(EyeShape::Rounded) => if raw.polygon is Some {
            none.push(parse_problem("eyes.shape = \"rounded\" では polygon は使えません"@))
        } else {
            none
        },
    }
}

/// Whether eyes can be made at all: their shape is known, and a polygon is there if it is
/// needed.
pub open spec fn eyes_possible(raw: RawEyes) -> bool {
    match shape_named(raw.shape@) {
        None => false,
        Some(EyeShape::Polygon) => raw.polygon is Some,
        Some(EyeShape::Rounded) => true,
    }
}

/// The problems of the eyes as written, in order.
pub open spec fn eyes_problems(raw: RawEyes) -> Seq<ProblemView> {
    if eyes_possible(raw) {
        shape_problems(raw) + states_problems(raw.states@)
    } else {
        shape_problems(raw)
    }
}

/// The eyes that are made of the eyes as written, if they can be made.
pub open spec fn eyes_made(raw: RawEyes) -> Option<EyesView> {
    if eyes_possible(raw) {
        Some(
            EyesView {
                shape: shape_named(raw.shape@)->0,
                v: given_or(raw.v, Num { bits: HALF_BITS }),
                gap: raw.gap,
                size: raw.size,
                radius: given_or(raw.radius, Num { bits: TWO_BITS }),
                polygon: opt_points(raw.polygon),
                states: states_made(raw.states@),
            },
        )
    } else {
        None
    }
}

fn copy_points(v: &Vec<[Num; 2]>) -> (r: Vec<[Num; 2]>)
    ensures
        r@ == v@,
{
    let mut out: Vec<[Num; 2]> = Vec::new();
    let mut i: usize = 0;
    while i < v.len()
        invariant
            i <= v@.len(),
            out@ == v@.take(i as int),
        decreases v@.len() - i,
    {
        out.push(v[i]);
        assert(v@.take(i + 1) =~= v@.take(i as int).push(v@[i as int]));
        i += 1;
    }
    assert(v@.take(v@.len() as int) =~= v@);
    out
}

fn or_num(value: Option<Num>, other: Num) -> (r: Num)
    ensures
        r == given_or(value, other),
{
    match value {
        Some(v) => v,
        None => other,
    }
}

fn build_state(key: &str, st: &RawEyeState, problems: &mut Vec<Problem>) -> (r: Option<
    (SessionState, EyeOverride),
>)
    ensures
        problem_views(final(problems)@) == problem_views(old(problems)@) + state_problems(
            key@,
            *st,
        ),
        r == match state_named(key@) {
            None => None,
            Some(s) => Some((s, override_of(*st))),
        },
{
    let ghost before = problem_views(problems@);
    let state = match SessionState::from_str(key) {
        Some(s) => s,
        None => {
            report(
                problems,
                ProblemCode::Parse,
                join3(
                    "eyes.states.",
                    key,
                    " は未知の状態です（working / wait_user / wait_agent / idle / done / error）",
                ),
            );
            assert(problem_views(problems@) =~= before + state_problems(key@, *st));
            return None;
        },
    };
    let mut color = EyeColor::Eye;
    if let Some(c) = &st.color {
        match EyeColor::parse(c.as_str()) {
            Some(known) => {
                color = known;
            },
            None => {
                let mut e = join3("eyes.states.", key, ".color が ");
                e.append(quoted(c.as_str()).as_str());
                e.append(" です（\"eye\" | \"eye_closed\" | \"eye_error\" | \"white\"）");
                report(problems, ProblemCode::Parse, e);
            },
        }
    }
    assert(problem_views(problems@) =~= before + state_problems(key@, *st));
    let d = EyeOverride::default();
    let made = EyeOverride {
        w_scale: or_num(st.w_scale, d.w_scale),
        h_scale: or_num(st.h_scale, d.h_scale),
        dx: or_num(st.dx, d.dx),
        color,
        glow: or_num(st.glow, d.glow),
        blink: match st.blink {
            Some(b) => b,
            None => d.blink,
        },
    };
    Some((state, made))
}

fn eye_shape_of(raw: &RawEyes, problems: &mut Vec<Problem>) -> (r: Option<EyeShape>)
    ensures
        problem_views(final(problems)@) == problem_views(old(problems)@) + shape_problems(*raw),
        r == if eyes_possible(*raw) {
            shape_named(raw.shape@)
        } else {
            None
        },
{
    let ghost before = problem_views(problems@);
    let shape = if same(raw.shape.as_str(), "rounded") {
        EyeShape::Rounded
    } else if same(raw.shape.as_str(), "polygon") {
        EyeShape::Polygon
    } else {
        report(
            problems,
            ProblemCode::Parse,
            join3(
                "eyes.shape が ",
                quoted(raw.shape.as_str()).as_str(),
                " です（\"rounded\" か \"polygon\"）",
            ),
        );
        assert(problem_views(problems@) =~= before + shape_problems(*raw));
        return None;
    };
    match (shape, &raw.polygon) {
        (EyeShape::Polygon, None) => {
            report(
                problems,
                ProblemCode::Parse,
                "eyes.shape = \"polygon\" には polygon が要ります".to_owned(),
            );
            assert(problem_views(problems@) =~= before + shape_problems(*raw));
            return None;
        },
        (EyeShape::Polygon, Some(p)) => {
            if p.len() < 3 {
                report(
                    problems,
                    ProblemCode::Parse,
                    join3(
                        "eyes.polygon は 3 点以上が要ります（",
                        decimal_text(p.len() as u64).as_str(),
                        " 点しかありません）",
                    ),
                );
            }
        },
        (EyeShape::Rounded, Some(_)) => {
            report(
                problems,
                ProblemCode::Parse,
                "eyes.shape = \"rounded\" では polygon は使えません".to_owned(),
            );
        },
        (EyeShape::Rounded, None) => {},
    }
    assert(problem_views(problems@) =~= before + shape_problems(*raw));
    Some(shape)
}

/// Makes eyes of the eyes as written.
pub fn build_eyes(raw: &RawEyes, problems: &mut Vec<Problem>) -> (r: Option<EyesSpec>)
    ensures
        problem_views(final(problems)@) == problem_views(old(problems)@) + eyes_problems(*raw),
        opt_eyes(r) == eyes_made(*raw),
{
    let ghost before = problem_views(problems@);
    let shape = match eye_shape_of(raw, problems) {
        Some(shape) => shape,
        None => {
            return None;
        },
    };
    let ghost base = before + shape_problems(*raw);
    let mut states: [Option<EyeOverride>; 6] = [None, None, None, None, None, None];
    let mut i: usize = 0;
    assert(problem_views(problems@) =~= base + states_problems(raw.states@.take(0)));
    assert(states@ =~= states_made(raw.states@.take(0)));
    while i < raw.states.len()
        invariant
            i <= raw.states@.len(),
            problem_views(problems@) == base + states_problems(raw.states@.take(i as int)),
            states@ == states_made(raw.states@.take(i as int)),
        decreases raw.states@.len() - i,
    {
        let ghost upto = raw.states@.take(i + 1);
        assert(upto.drop_last() =~= raw.states@.take(i as int));
        assert(upto.last() == raw.states@[i as int]);
        let made = build_state(raw.states[i].0.as_str(), &raw.states[i].1, problems);
        assert(problem_views(problems@) =~= base + states_problems(upto));
        if let Some((state, o)) = made {
            states[state_index(state)] = Some(o);
        }
        assert(states@ =~= states_made(upto));
        i += 1;
    }
    assert(raw.states@.take(raw.states@.len() as int) =~= raw.states@);
    assert(problem_views(problems@) =~= before + eyes_problems(*raw));
    let polygon = match &raw.polygon {
        Some(p) => Some(copy_points(p)),
        None => None,
    };
    Some(
        EyesSpec {
            shape,
            v: or_num(raw.v, Num::new(HALF_BITS)),
            gap: raw.gap,
            size: raw.size,
            radius: or_num(raw.radius, Num::new(TWO_BITS)),
            polygon,
            states,
        },
    )
}

// ---- panel lines ----------------------------------------------------------------------------

/// What a `DetailSpec` holds.
#[verifier::ext_equal]
pub struct DetailView {
    pub name: Seq<char>,
    pub sizes: Seq<Size>,
    pub points: Seq<[Num; 2]>,
}

impl View for DetailSpec {
    type V = DetailView;

    open spec fn view(&self) -> DetailView {
        DetailView { name: self.name@, sizes: self.sizes@, points: self.points@ }
    }
}

/// What the panel lines of a list hold.
pub open spec fn detail_views(v: Seq<DetailSpec>) -> Seq<DetailView> {
    Seq::new(v.len(), |i: int| v[i]@)
}

/// The place with this name, if there is one.
pub open spec fn size_named(name: Seq<char>) -> Option<Size> {
    if name == "bar"@ {
        Some(Size::Bar)
    } else if name == "dock"@ {
        Some(Size::Dock)
    } else {
        None
    }
}

/// The places with these names, unknown ones left out.
pub open spec fn sizes_made(names: Seq<String>) -> Seq<Size>
    decreases names.len(),
{
    if names.len() == 0 {
        Seq::empty()
    } else {
        match size_named(names.last()@) {
            Some(s) => sizes_made(names.drop_last()).push(s),
            None => sizes_made(names.drop_last()),
        }
    }
}

/// The problems of the places named for a panel line, in order.
pub open spec fn sizes_problems(detail: Seq<char>, names: Seq<String>) -> Seq<ProblemView>
    decreases names.len(),
{
    if names.len() == 0 {
        Seq::empty()
    } else {
        let before = sizes_problems(detail, names.drop_last());
        match size_named(names.last()@) {
            Some(_) => before,
            None => before.push(
                parse_problem(
                    "details "@ + debug_text(detail) + " の sizes に "@ + debug_text(
                        names.last()@,
                    ) + " があります（\"bar\" か \"dock\"）"@,
                ),
            ),
        }
    }
}

/// Whether a panel line has the name of an earlier one.
pub open spec fn name_taken(earlier: Seq<RawDetail>, name: Seq<char>) -> bool {
    exists|i: int| 0 <= i < earlier.len() && (#[trigger] earlier[i]).name@ == name
}

/// The problems of one panel line as written, in order.
pub open spec fn detail_problems(earlier: Seq<RawDetail>, d: RawDetail) -> Seq<ProblemView> {
    let none = Seq::<ProblemView>::empty();
    (if name_taken(earlier, d.name@) {
        none.push(
            parse_problem("details の name "@ + debug_text(d.name@) + " が重複しています"@),
        )
    } else {
        none
    }) + (if d.points@.len() < 2 {
        none.push(
            parse_problem(
                "details "@ + debug_text(d.name@) + " の points は 2 点以上が要ります（"@
                    + decimal(d.points@.len()) + " 点しかありません）"@,
            ),
        )
    } else {
        none
    }) + (match d.sizes {
        None => none,
        Some(names) => sizes_problems(d.name@, names@),
    })
}

/// The problems of the panel lines as written, in order.
pub open spec fn details_problems(raw: Seq<RawDetail>) -> Seq<ProblemView>
    decreases raw.len(),
{
    if raw.len() == 0 {
        Seq::empty()
    } else {
        details_problems(raw.drop_last()) + detail_problems(raw.drop_last(), raw.last())
    }
}

/// The panel line that is made of one as written. One that names no places is drawn in both.
pub open spec fn detail_made(d: RawDetail) -> DetailView {
    DetailView {
        name: d.name@,
        sizes: match d.sizes {
            None => seq![Size::Bar, Size::Dock],
            Some(names) => sizes_made(names@),
        },
        points: d.points@,
    }
}

/// The panel lines that are made of those as written.
pub open spec fn details_made(raw: Seq<RawDetail>) -> Seq<DetailView> {
    Seq::new(raw.len(), |i: int| detail_made(raw[i]))
}

fn build_sizes(detail: &str, names: &Vec<String>, problems: &mut Vec<Problem>) -> (r: Vec<Size>)
    ensures
        problem_views(final(problems)@) == problem_views(old(problems)@) + sizes_problems(
            detail@,
            names@,
        ),
        r@ == sizes_made(names@),
{
    let ghost before = problem_views(problems@);
    let mut out: Vec<Size> = Vec::new();
    let mut i: usize = 0;
    assert(problem_views(problems@) =~= before + sizes_problems(detail@, names@.take(0)));
    assert(out@ =~= sizes_made(names@.take(0)));
    while i < names.len()
        invariant
            i <= names@.len(),
            problem_views(problems@) == before + sizes_problems(detail@, names@.take(i as int)),
            out@ == sizes_made(names@.take(i as int)),
        decreases names@.len() - i,
    {
        let ghost upto = names@.take(i + 1);
        assert(upto.drop_last() =~= names@.take(i as int));
        assert(upto.last() == names@[i as int]);
        let name = names[i].as_str();
        if same(name, "bar") {
            out.push(Size::Bar);
        } else if same(name, "dock") {
            out.push(Size::Dock);
        } else {
            let mut e = join3("details ", quoted(detail).as_str(), " の sizes に ");
            e.append(quoted(name).as_str());
            e.append(" があります（\"bar\" か \"dock\"）");
            report(problems, ProblemCode::Parse, e);
        }
        assert(problem_views(problems@) =~= before + sizes_problems(detail@, upto));
        i += 1;
    }
    assert(names@.take(names@.len() as int) =~= names@);
    out
}

fn is_name_taken(raw: &Vec<RawDetail>, n: usize, name: &str) -> (r: bool)
    requires
        n <= raw@.len(),
    ensures
        r == name_taken(raw@.take(n as int), name@),
{
    let ghost earlier = raw@.take(n as int);
    let mut i: usize = 0;
    while i < n
        invariant
            i <= n <= raw@.len(),
            earlier == raw@.take(n as int),
            forall|k: int| 0 <= k < i ==> (#[trigger] earlier[k]).name@ != name@,
        decreases n - i,
    {
        assert(earlier[i as int] == raw@[i as int]);
        if same(raw[i].name.as_str(), name) {
            return true;
        }
        i += 1;
    }
    false
}

fn build_detail(raw: &Vec<RawDetail>, i: usize, problems: &mut Vec<Problem>) -> (r: DetailSpec)
    requires
        i < raw@.len(),
    ensures
        problem_views(final(problems)@) == problem_views(old(problems)@) + detail_problems(
            raw@.take(i as int),
            raw@[i as int],
        ),
        r@ == detail_made(raw@[i as int]),
{
    let d = &raw[i];
    let ghost before = problem_views(problems@);
    if is_name_taken(raw, i, d.name.as_str()) {
        report(
            problems,
            ProblemCode::Parse,
            join3("details の name ", quoted(d.name.as_str()).as_str(), " が重複しています"),
        );
    }
    if d.points.len() < 2 {
        let mut e = join3("details ", quoted(d.name.as_str()).as_str(), " の points は 2 点以上が要ります（");
        e.append(decimal_text(d.points.len() as u64).as_str());
        e.append(" 点しかありません）");
        report(problems, ProblemCode::Parse, e);
    }
    let sizes = match &d.sizes {
        None => {
            let mut both: Vec<Size> = Vec::new();
            both.push(Size::Bar);
            both.push(Size::Dock);
            both
        },
        Some(names) => build_sizes(d.name.as_str(), names, problems),
    };
    assert(problem_views(problems@) =~= before + detail_problems(raw@.take(i as int), *d));
    let made = DetailSpec { name: d.name.clone(), sizes, points: copy_points(&d.points) };
    assert(made@ =~= detail_made(*d));
    made
}

/// Makes panel lines of the panel lines as written.
pub fn build_details(raw: &Vec<RawDetail>, problems: &mut Vec<Problem>) -> (r: Vec<DetailSpec>)
    ensures
        problem_views(final(problems)@) == problem_views(old(problems)@) + details_problems(raw@),
        detail_views(r@) == details_made(raw@),
{
    let ghost before = problem_views(problems@);
    let mut out: Vec<DetailSpec> = Vec::new();
    let mut i: usize = 0;
    assert(problem_views(problems@) =~= before + details_problems(raw@.take(0)));
    while i < raw.len()
        invariant
            i <= raw@.len(),
            problem_views(problems@) == before + details_problems(raw@.take(i as int)),
            out@.len() == i,
            forall|k: int| 0 <= k < i ==> (#[trigger] out@[k])@ == detail_made(raw@[k]),
        decreases raw@.len() - i,
    {
        let ghost upto = raw@.take(i + 1);
        assert(upto.drop_last() =~= raw@.take(i as int));
        assert(upto.last() == raw@[i as int]);
        let made = build_detail(raw, i, problems);
        out.push(made);
        assert(problem_views(problems@) =~= before + details_problems(upto));
        i += 1;
    }
    assert(raw@.take(raw@.len() as int) =~= raw@);
    assert(detail_views(out@) =~= details_made(raw@));
    out
}

// ---- colours --------------------------------------------------------------------------------

/// A colour as written, if it can be read.
pub open spec fn color_made(text: Option<String>) -> Option<Hex> {
    match text {
        Some(t) => hex_of(t@),
        None => None,
    }
}

/// The problem of a colour that cannot be read.
pub open spec fn color_problems(key: Seq<char>, what: Seq<char>, text: Option<String>) -> Seq<
    ProblemView,
> {
    let none = Seq::<ProblemView>::empty();
    match text {
        Some(t) => if hex_of(t@) is None {
            none.push(
                parse_problem(
                    "colors."@ + key + what + debug_text(t@) + " です（\"#rrggbb\"）"@,
                ),
            )
        } else {
            none
        },
        None => none,
    }
}

/// The problems of the colours of one state, in order.
pub open spec fn state_color_problems(key: Seq<char>, c: RawColors) -> Seq<ProblemView> {
    let none = Seq::<ProblemView>::empty();
    if state_named(key) is None {
        none.push(
            parse_problem(
                "colors."@ + key
                    + " は未知の状態です（working / wait_user / wait_agent / idle / done / error）"@,
            ),
        )
    } else {
        color_problems(key, ".accent が "@, c.accent) + color_problems(key, ".fill が "@, c.fill)
            + color_problems(key, ".eye が "@, c.eye)
    }
}

/// The problems of the colours as written, in order.
pub open spec fn colors_problems(colors: Seq<(String, RawColors)>) -> Seq<ProblemView>
    decreases colors.len(),
{
    if colors.len() == 0 {
        Seq::empty()
    } else {
        colors_problems(colors.drop_last()) + state_color_problems(
            colors.last().0@,
            colors.last().1,
        )
    }
}

/// No colours of its own.
pub open spec fn no_colors() -> StateColors {
    StateColors { accent: None, fill: None, eye: None }
}

/// The colours of each state, in the order of `SessionState::ORDER`. Unknown states do not
/// count.
pub open spec fn colors_made(colors: Seq<(String, RawColors)>) -> Seq<StateColors>
    decreases colors.len(),
{
    if colors.len() == 0 {
        seq![no_colors(), no_colors(), no_colors(), no_colors(), no_colors(), no_colors()]
    } else {
        let before = colors_made(colors.drop_last());
        let c = colors.last().1;
        match state_named(colors.last().0@) {
            None => before,
            Some(s) => before.update(
                index_of_state(s),
                StateColors {
                    accent: color_made(c.accent),
                    fill: color_made(c.fill),
                    eye: color_made(c.eye),
                },
            ),
        }
    }
}

fn build_color(
    key: &str,
    what: &str,
    text: &Option<String>,
    problems: &mut Vec<Problem>,
) -> (r: Option<Hex>)
    ensures
        problem_views(final(problems)@) == problem_views(old(problems)@) + color_problems(
            key@,
            what@,
            *text,
        ),
        r == color_made(*text),
{
    let ghost before = problem_views(problems@);
    match text {
        None => {
            assert(problem_views(problems@) =~= before + color_problems(key@, what@, *text));
            None
        },
        Some(t) => {
            let made = parse_hex(t.as_str());
            if made.is_none() {
                let mut e = join3("colors.", key, what);
                e.append(quoted(t.as_str()).as_str());
                e.append(" です（\"#rrggbb\"）");
                report(problems, ProblemCode::Parse, e);
            }
            assert(problem_views(problems@) =~= before + color_problems(key@, what@, *text));
            made
        },
    }
}

fn build_state_colors(key: &str, c: &RawColors, problems: &mut Vec<Problem>) -> (r: Option<
    (SessionState, StateColors),
>)
    ensures
        problem_views(final(problems)@) == problem_views(old(problems)@) + state_color_problems(
            key@,
            *c,
        ),
        r == match state_named(key@) {
            None => None,
            Some(s) => Some(
                (
                    s,
                    StateColors {
                        accent: color_made(c.accent),
                        fill: color_made(c.fill),
                        eye: color_made(c.eye),
                    },
                ),
            ),
        },
{
    let ghost before = problem_views(problems@);
    let state = match SessionState::from_str(key) {
        Some(s) => s,
        None => {
            report(
                problems,
                ProblemCode::Parse,
                join3(
                    "colors.",
                    key,
                    " は未知の状態です（working / wait_user / wait_agent / idle / done / error）",
                ),
            );
            assert(problem_views(problems@) =~= before + state_color_problems(key@, *c));
            return None;
        },
    };
    let accent = build_color(key, ".accent が ", &c.accent, problems);
    let fill = build_color(key, ".fill が ", &c.fill, problems);
    let eye = build_color(key, ".eye が ", &c.eye, problems);
    assert(problem_views(problems@) =~= before + state_color_problems(key@, *c));
    Some((state, StateColors { accent, fill, eye }))
}

/// Makes the colours of the states of the colours as written.
pub fn build_colors(colors: &Vec<(String, RawColors)>, problems: &mut Vec<Problem>) -> (r: [
    StateColors; 6])
    ensures
        problem_views(final(problems)@) == problem_views(old(problems)@) + colors_problems(colors@),
        r@ == colors_made(colors@),
{
    let ghost before = problem_views(problems@);
    let none = StateColors { accent: None, fill: None, eye: None };
    let mut out: [StateColors; 6] = [none, none, none, none, none, none];
    let mut i: usize = 0;
    assert(problem_views(problems@) =~= before + colors_problems(colors@.take(0)));
    assert(out@ =~= colors_made(colors@.take(0)));
    while i < colors.len()
        invariant
            i <= colors@.len(),
            problem_views(problems@) == before + colors_problems(colors@.take(i as int)),
            out@ == colors_made(colors@.take(i as int)),
        decreases colors@.len() - i,
    {
        let ghost upto = colors@.take(i + 1);
        assert(upto.drop_last() =~= colors@.take(i as int));
        assert(upto.last() == colors@[i as int]);
        let made = build_state_colors(colors[i].0.as_str(), &colors[i].1, problems);
        assert(problem_views(problems@) =~= before + colors_problems(upto));
        if let Some((state, c)) = made {
            out[state_index(state)] = c;
        }
        assert(out@ =~= colors_made(upto));
        i += 1;
    }
    assert(colors@.take(colors@.len() as int) =~= colors@);
    out
}

// ---- the face -------------------------------------------------------------------------------

/// The message for an id that cannot be used.
pub open spec fn id_message(id: Seq<char>) -> Seq<char> {
    "id "@ + debug_text(id)
        + " は使えません。英小文字・数字・ハイフンだけで、先頭は英数字、32 文字以内にしてください（例: \"my-face\"）"@
}

/// The message for an id that cannot be used.
pub fn id_message_text(id: &str) -> (r: String)
    ensures
        r@ == id_message(id@),
{
    join3(
        "id ",
        quoted(id).as_str(),
        " は使えません。英小文字・数字・ハイフンだけで、先頭は英数字、32 文字以内にしてください（例: \"my-face\"）",
    )
}

/// The problems of the names of a face as written.
pub open spec fn name_problems(raw: RawFace) -> Seq<ProblemView> {
    let none = Seq::<ProblemView>::empty();
    (if !valid_id(raw.id@) {
        none.push(ProblemView { code: ProblemCode::Id, message: id_message(raw.id@) })
    } else {
        none
    }) + (if trimmed(raw.label@).len() == 0 {
        none.push(parse_problem("label が空です"@))
    } else {
        none
    })
}

/// The problems of a face as written, in order.
pub open spec fn face_problems(raw: RawFace) -> Seq<ProblemView> {
    name_problems(raw) + outline_problems(raw.outline) + eyes_problems(raw.eyes)
        + details_problems(raw.details@) + colors_problems(raw.colors@)
}

/// Whether a face is what is made of a face as written.
pub open spec fn is_face_of(face: FaceSpec, raw: RawFace, source: Source) -> bool {
    &&& face.id == raw.id
    &&& face.label == raw.label
    &&& face.label_en == raw.label_en
    &&& face.author == raw.author
    &&& face.size == raw.size
    &&& Some(face.outline@) == outline_made(raw.outline)
    &&& Some(face.eyes@) == eyes_made(raw.eyes)
    &&& detail_views(face.details@) == details_made(raw.details@)
    &&& face.colors@ == colors_made(raw.colors@)
    &&& face.source == source
}

/// An outline or eyes that cannot be made are a problem.
proof fn lemma_failure_is_reported(raw: RawFace)
    ensures
        outline_made(raw.outline) is None ==> outline_problems(raw.outline).len() > 0,
        eyes_made(raw.eyes) is None ==> eyes_problems(raw.eyes).len() > 0,
{
}

/// Makes a face of a face as written, or says everything that is wrong with it.
pub fn build(raw: RawFace, source: Source) -> (r: Result<FaceSpec, Vec<Problem>>)
    ensures
        r is Ok == (face_problems(raw).len() == 0),
        r matches Ok(face) ==> is_face_of(face, raw, source),
        r matches Err(ps) ==> problem_views(ps@) == face_problems(raw),
{
    let mut problems: Vec<Problem> = Vec::new();
    assert(problem_views(problems@) =~= Seq::<ProblemView>::empty());
    if !is_valid_id(raw.id.as_str()) {
        report(&mut problems, ProblemCode::Id, id_message_text(raw.id.as_str()));
    }
    if trim(raw.label.as_str()).as_str().is_empty() {
        report(&mut problems, ProblemCode::Parse, "label が空です".to_owned());
    }
    assert(problem_views(problems@) =~= name_problems(raw));
    let outline = build_outline(&raw.outline, &mut problems);
    let eyes = build_eyes(&raw.eyes, &mut problems);
    let details = build_details(&raw.details, &mut problems);
    let colors = build_colors(&raw.colors, &mut problems);
    proof {
        lemma_failure_is_reported(raw);
        assert(problem_views(problems@) == face_problems(raw));
        assert(problem_views(problems@).len() == problems@.len());
    }
    if problems.len() > 0 {
        return Err(problems);
    }
    match (outline, eyes) {
        (Some(outline), Some(eyes)) => Ok(
            FaceSpec {
                id: raw.id,
                label: raw.label,
                label_en: raw.label_en,
                author: raw.author,
                size: raw.size,
                outline,
                eyes,
                details,
                colors,
                source,
            },
        ),
        _ => Err(problems),
    }
}

// ---- laws -----------------------------------------------------------------------------------

/// A path that is accepted has at least one step.
pub proof fn law_an_accepted_path_has_steps(toks: Seq<Token>)
    ensures
        path_of(toks) matches Ok(path) ==> path.1.len() > 0,
{
    lemma_steps_only_grow(toks, 0, None, Seq::empty());
}

proof fn lemma_steps_only_grow(
    toks: Seq<Token>,
    i: int,
    start: Option<Point>,
    segs: Seq<Seg>,
)
    ensures
        path_from(toks, i, start, segs) matches Ok(path) ==> path.1.len() > 0,
    decreases toks.len() - i,
{
    if i < toks.len() {
        let word = toks[i].text@;
        if is_letter(word, 'M') {
            if let Ok(p) = point_at(toks, i + 1, 'M') {
                lemma_steps_only_grow(toks, i + 3, Some(p), segs);
            }
        } else if is_letter(word, 'L') {
            if let Ok(to) = point_at(toks, i + 1, 'L') {
                lemma_steps_only_grow(toks, i + 3, start, segs.push(Seg::Line { to }));
            }
        } else if is_letter(word, 'C') {
            if let Ok(seg) = curve_at(toks, i + 1) {
                lemma_steps_only_grow(toks, i + 7, start, segs.push(seg));
            }
        } else if is_letter(word, 'Z') {
            lemma_steps_only_grow(toks, i + 1, start, segs);
        }
    }
}

/// A path that does not begin with `M` is refused, and so is an empty one.
pub proof fn law_a_path_begins_with_a_move(toks: Seq<Token>)
    requires
        toks.len() == 0 || !(is_letter(toks[0].text@, 'M') || is_letter(toks[0].text@, 'Z')),
    ensures
        path_of(toks) is Err,
{
}

/// Closing a path adds no step.
pub proof fn law_closing_adds_no_step(
    toks: Seq<Token>,
    i: int,
    start: Option<Point>,
    segs: Seq<Seg>,
)
    requires
        0 <= i < toks.len(),
        is_letter(toks[i].text@, 'Z'),
    ensures
        path_from(toks, i, start, segs) == path_from(toks, i + 1, start, segs),
{
}

/// Whatever face is accepted has a valid id, a label that is not blank, and as many panel lines
/// as were written.
pub proof fn law_an_accepted_face_is_sound(face: FaceSpec, raw: RawFace, source: Source)
    requires
        face_problems(raw).len() == 0,
        is_face_of(face, raw, source),
    ensures
        valid_id(face.id@),
        trimmed(face.label@).len() > 0,
        face.details@.len() == raw.details@.len(),
{
    assert(name_problems(raw).len() == 0);
    assert(detail_views(face.details@).len() == face.details@.len());
}

/// In an accepted face no two panel lines share a name, and each has at least two points.
pub proof fn law_accepted_details_are_distinct(raw: Seq<RawDetail>, i: int, j: int)
    requires
        details_problems(raw).len() == 0,
        0 <= i < j < raw.len(),
    ensures
        raw[i].name@ != raw[j].name@,
        raw[j].points@.len() >= 2,
    decreases raw.len(),
{
    let shorter = raw.drop_last();
    assert(details_problems(raw) == details_problems(shorter) + detail_problems(
        shorter,
        raw.last(),
    ));
    assert(details_problems(shorter).len() == 0);
    assert(detail_problems(shorter, raw.last()).len() == 0);
    if j < raw.len() - 1 {
        assert(shorter[i] == raw[i] && shorter[j] == raw[j]);
        law_accepted_details_are_distinct(shorter, i, j);
    } else {
        assert(shorter[i] == raw[i]);
        assert(!name_taken(shorter, raw.last().name@));
    }
}

// ---- what is accepted -----------------------------------------------------------------------

/// Whether the words from `i` on are the two numbers of a point.
pub open spec fn spells_point(toks: Seq<Token>, i: int, p: Point) -> bool {
    &&& i + 2 <= toks.len()
    &&& toks[i].number == Some(p.x) && finite(p.x)
    &&& toks[i + 1].number == Some(p.y) && finite(p.y)
}

/// How many words a step takes.
pub open spec fn words_of(seg: Seg) -> int {
    match seg {
        Seg::Line { to } => 3,
        Seg::Cubic { c1, c2, to } => 7,
    }
}

/// Whether the words from `i` on are a step: `L` and the end of a line, or `C`, the two handles
/// and the end of a curve.
pub open spec fn spells_step(toks: Seq<Token>, i: int, seg: Seg) -> bool {
    match seg {
        Seg::Line { to } => {
            &&& i + 3 <= toks.len()
            &&& toks[i].text@ == seq!['L']
            &&& spells_point(toks, i + 1, to)
        },
        Seg::Cubic { c1, c2, to } => {
            &&& i + 7 <= toks.len()
            &&& toks[i].text@ == seq!['C']
            &&& spells_point(toks, i + 1, c1)
            &&& spells_point(toks, i + 3, c2)
            &&& spells_point(toks, i + 5, to)
        },
    }
}

/// Whether the words from `i` on are these steps, and then any number of `Z`.
pub open spec fn spells_steps(toks: Seq<Token>, i: int, segs: Seq<Seg>) -> bool
    decreases segs.len(),
{
    if segs.len() == 0 {
        0 <= i <= toks.len() && forall|k: int|
            i <= k < toks.len() ==> (#[trigger] toks[k]).text@ == seq!['Z']
    } else {
        0 <= i && spells_step(toks, i, segs[0]) && spells_steps(
            toks,
            i + words_of(segs[0]),
            segs.drop_first(),
        )
    }
}

/// A path is read as it is spelled: `M` and its start, then its steps in their order, and `Z` at
/// the end or not.
pub proof fn law_a_path_is_read_as_it_is_spelled(toks: Seq<Token>, start: Point, segs: Seq<Seg>)
    requires
        segs.len() > 0,
        toks.len() >= 3,
        toks[0].text@ == seq!['M'],
        spells_point(toks, 1, start),
        spells_steps(toks, 3, segs),
    ensures
        path_of(toks) == Ok::<(Point, Seq<Seg>), Seq<char>>((start, segs)),
{
    lemma_steps_are_read(toks, 3, start, Seq::empty(), segs);
    assert(Seq::<Seg>::empty() + segs =~= segs);
}

proof fn lemma_steps_are_read(
    toks: Seq<Token>,
    i: int,
    start: Point,
    done: Seq<Seg>,
    segs: Seq<Seg>,
)
    requires
        done.len() + segs.len() > 0,
        spells_steps(toks, i, segs),
    ensures
        path_from(toks, i, Some(start), done) == Ok::<(Point, Seq<Seg>), Seq<char>>(
            (start, done + segs),
        ),
    decreases segs.len(), toks.len() - i,
{
    if segs.len() == 0 {
        assert(done + segs =~= done);
        if i < toks.len() {
            assert(toks[i].text@ == seq!['Z']);
            lemma_steps_are_read(toks, i + 1, start, done, segs);
        }
    } else {
        let more = done.push(segs[0]);
        let rest = segs.drop_first();
        assert(more + rest =~= done + segs);
        lemma_steps_are_read(toks, i + words_of(segs[0]), start, more, rest);
    }
}

/// Only absolute moves, lines, curves and closings are read: any other word where a command is
/// due is refused, and so is a second move.
pub proof fn law_only_four_commands_are_read(
    toks: Seq<Token>,
    i: int,
    start: Option<Point>,
    segs: Seq<Seg>,
)
    requires
        0 <= i < toks.len(),
        toks[i].text@ != seq!['M'] || start is Some,
        toks[i].text@ != seq!['L'] || start is None,
        toks[i].text@ != seq!['C'] || start is None,
        toks[i].text@ != seq!['Z'],
    ensures
        path_from(toks, i, start, segs) is Err,
{
    let word = toks[i].text@;
    if word.len() == 1 {
        assert(word =~= seq![word[0]]);
    }
}

/// Which outlines are accepted: corners given as ratios or in points, and not both; a capsule
/// with nothing more; or a path that can be read. What belongs to another kind is refused.
pub proof fn law_which_outlines_are_accepted(raw: RawOutline)
    ensures
        outline_problems(raw).len() == 0 <==> {
            ||| raw.kind@ == "corners"@ && raw.d is None && (raw.corners is Some
                <==> raw.corners_pt is None)
            ||| raw.kind@ == "capsule"@ && raw.d is None && raw.corners is None
                && raw.corners_pt is None
            ||| raw.kind@ == "path"@ && raw.d is Some && raw.corners is None
                && raw.corners_pt is None && path_of(raw.d->0@) is Ok
        },
{
    lemma_kinds();
}

proof fn lemma_kinds()
    ensures
        "corners"@ != "capsule"@,
        "corners"@ != "path"@,
        "capsule"@ != "path"@,
{
    reveal_strlit("corners");
    reveal_strlit("capsule");
    reveal_strlit("path");
    assert("corners"@[1] == 'o' && "capsule"@[1] == 'a' && "path"@.len() == 4);
    assert("corners"@.len() == 7 && "capsule"@.len() == 7);
}

/// What an outline becomes: the corners that are given, a capsule, or the path with its half.
pub proof fn law_what_an_outline_becomes(raw: RawOutline)
    requires
        outline_problems(raw).len() == 0,
    ensures
        raw.kind@ == "corners"@ && raw.corners is Some ==> outline_made(raw) == Some(
            OutlineView::Corners(CornerSpec::Ratio(raw.corners->0)),
        ),
        raw.kind@ == "corners"@ && raw.corners_pt is Some ==> outline_made(raw) == Some(
            OutlineView::Corners(CornerSpec::Pt(raw.corners_pt->0)),
        ),
        raw.kind@ == "capsule"@ ==> outline_made(raw) == Some(
            OutlineView::Corners(CornerSpec::Capsule),
        ),
        raw.kind@ == "path"@ ==> (outline_made(raw) matches Some(OutlineView::Path {
            half,
            start,
            segs,
        }) && half == raw.half && path_of(raw.d->0@) == Ok::<(Point, Seq<Seg>), Seq<char>>(
            (start, segs),
        )),
{
    lemma_kinds();
}

/// What a face says about a state is what is written, and what is not written is as it is
/// without: its own size, no shift, no glow, no blinking, the plain colour.
pub proof fn law_what_is_said_of_a_state(st: RawEyeState)
    ensures
        ({
            let o = override_of(st);
            &&& o.w_scale == match st.w_scale {
                Some(n) => n,
                None => Num { bits: 0x3ff0_0000_0000_0000 },
            }
            &&& o.h_scale == match st.h_scale {
                Some(n) => n,
                None => Num { bits: 0x3ff0_0000_0000_0000 },
            }
            &&& o.dx == match st.dx {
                Some(n) => n,
                None => Num { bits: 0 },
            }
            &&& o.glow == match st.glow {
                Some(n) => n,
                None => Num { bits: 0 },
            }
            &&& o.blink == (st.blink == Some(true))
            &&& st.color is None ==> o.color == EyeColor::Eye
            &&& st.color matches Some(c) ==> (color_named(c@) is Some ==> Some(o.color)
                == color_named(c@))
        }),
{
}

/// Whether entry `k` is the last that is written about a state.
pub open spec fn is_last_about(
    states: Seq<(String, RawEyeState)>,
    s: SessionState,
    k: int,
) -> bool {
    &&& 0 <= k < states.len()
    &&& state_named(states[k].0@) == Some(s)
    &&& forall|j: int| k < j < states.len() ==> state_named((#[trigger] states[j]).0@) != Some(s)
}

/// What is written about a state counts for that state, and a state of which nothing is written
/// has nothing. States stand in the order of the menus.
pub proof fn law_states_are_told_apart(states: Seq<(String, RawEyeState)>, i: int, k: int)
    requires
        0 <= i < 6,
    ensures
        states_made(states).len() == 6,
        is_last_about(states, SessionState::ORDER@[i], k) ==> states_made(states)[i] == Some(
            override_of(states[k].1),
        ),
        (forall|j: int|
            0 <= j < states.len() ==> state_named((#[trigger] states[j]).0@) != Some(
                SessionState::ORDER@[i],
            )) ==> states_made(states)[i] is None,
    decreases states.len(),
{
    if states.len() > 0 {
        let shorter = states.drop_last();
        let s = SessionState::ORDER@[i];
        law_states_are_told_apart(shorter, i, k);
        if is_last_about(states, s, k) && k < shorter.len() {
            assert(shorter[k] == states[k]);
            assert(state_named(states[states.len() - 1].0@) != Some(s));
            assert forall|j: int| k < j < shorter.len() implies state_named(
                (#[trigger] shorter[j]).0@,
            ) != Some(s) by {
                assert(shorter[j] == states[j]);
            }
        }
        if forall|j: int|
            0 <= j < states.len() ==> state_named((#[trigger] states[j]).0@) != Some(s) {
            assert(state_named(states[states.len() - 1].0@) != Some(s));
            assert forall|j: int| 0 <= j < shorter.len() implies state_named(
                (#[trigger] shorter[j]).0@,
            ) != Some(s) by {
                assert(shorter[j] == states[j]);
            }
        }
    }
}

/// Whether what is written about a state can be read: the state is known, and so is the colour.
pub open spec fn state_is_sound(entry: (String, RawEyeState)) -> bool {
    &&& state_named(entry.0@) is Some
    &&& entry.1.color matches Some(c) ==> color_named(c@) is Some
}

proof fn lemma_states_problems(states: Seq<(String, RawEyeState)>)
    ensures
        states_problems(states).len() == 0 <==> forall|i: int|
            0 <= i < states.len() ==> state_is_sound(#[trigger] states[i]),
    decreases states.len(),
{
    if states.len() > 0 {
        let shorter = states.drop_last();
        lemma_states_problems(shorter);
        assert(states_problems(states) == states_problems(shorter) + state_problems(
            states.last().0@,
            states.last().1,
        ));
        assert(state_problems(states.last().0@, states.last().1).len() == 0 <==> state_is_sound(
            states.last(),
        ));
        if forall|i: int| 0 <= i < states.len() ==> state_is_sound(#[trigger] states[i]) {
            assert(state_is_sound(states[states.len() - 1]));
            assert forall|i: int| 0 <= i < shorter.len() implies state_is_sound(
                #[trigger] shorter[i],
            ) by {
                assert(shorter[i] == states[i]);
            }
        }
        if states_problems(states).len() == 0 {
            assert forall|i: int| 0 <= i < states.len() implies state_is_sound(
                #[trigger] states[i],
            ) by {
                if i < shorter.len() {
                    assert(shorter[i] == states[i]);
                }
            }
        }
    }
}

/// Which eyes are accepted: round ones without a polygon, or a polygon of at least three points;
/// and what is written about the states speaks of known states and known colours.
pub proof fn law_which_eyes_are_accepted(raw: RawEyes)
    ensures
        eyes_problems(raw).len() == 0 <==> {
            &&& {
                ||| raw.shape@ == "rounded"@ && raw.polygon is None
                ||| raw.shape@ == "polygon"@ && raw.polygon is Some && raw.polygon->0@.len() >= 3
            }
            &&& forall|i: int|
                0 <= i < raw.states@.len() ==> state_is_sound(#[trigger] raw.states@[i])
        },
{
    reveal_strlit("rounded");
    reveal_strlit("polygon");
    assert("rounded"@[0] == 'r' && "polygon"@[0] == 'p');
    lemma_states_problems(raw.states@);
}

/// What eyes become: what is written of them, in the middle of the body if no height is given,
/// and with corners of two points if no radius is.
pub proof fn law_what_eyes_become(raw: RawEyes)
    requires
        eyes_problems(raw).len() == 0,
    ensures
        eyes_made(raw) is Some,
        ({
            let e = eyes_made(raw)->0;
            &&& e.shape == if raw.shape@ == "polygon"@ {
                EyeShape::Polygon
            } else {
                EyeShape::Rounded
            }
            &&& e.v == match raw.v {
                Some(v) => v,
                None => Num { bits: 0x3fe0_0000_0000_0000 },
            }
            &&& e.radius == match raw.radius {
                Some(r) => r,
                None => Num { bits: 0x4000_0000_0000_0000 },
            }
            &&& e.gap == raw.gap
            &&& e.size == raw.size
            &&& e.polygon == opt_points(raw.polygon)
            &&& e.states == states_made(raw.states@)
        }),
{
    law_which_eyes_are_accepted(raw);
    reveal_strlit("rounded");
    reveal_strlit("polygon");
    assert("rounded"@[0] == 'r' && "polygon"@[0] == 'p');
}

/// Whether a list of places can be read.
pub open spec fn places_are_known(names: Seq<String>) -> bool {
    forall|i: int|
        0 <= i < names.len() ==> (#[trigger] names[i])@ == "bar"@ || names[i]@ == "dock"@
}

proof fn lemma_places(detail: Seq<char>, names: Seq<String>)
    ensures
        sizes_problems(detail, names).len() == 0 <==> places_are_known(names),
        places_are_known(names) ==> sizes_made(names).len() == names.len() && forall|i: int|
            0 <= i < names.len() ==> #[trigger] sizes_made(names)[i] == if names[i]@ == "bar"@ {
                Size::Bar
            } else {
                Size::Dock
            },
    decreases names.len(),
{
    if names.len() > 0 {
        let shorter = names.drop_last();
        lemma_places(detail, shorter);
        if places_are_known(names) {
            assert(names[names.len() - 1]@ == "bar"@ || names[names.len() - 1]@ == "dock"@);
            assert forall|i: int| 0 <= i < shorter.len() implies (#[trigger] shorter[i])@ == "bar"@
                || shorter[i]@ == "dock"@ by {
                assert(shorter[i] == names[i]);
            }
            assert forall|i: int| 0 <= i < names.len() implies #[trigger] sizes_made(names)[i]
                == if names[i]@ == "bar"@ {
                Size::Bar
            } else {
                Size::Dock
            } by {
                if i < shorter.len() {
                    assert(shorter[i] == names[i]);
                    assert(sizes_made(names)[i] == sizes_made(shorter)[i]);
                }
            }
        }
        if sizes_problems(detail, names).len() == 0 {
            assert forall|i: int| 0 <= i < names.len() implies (#[trigger] names[i])@ == "bar"@
                || names[i]@ == "dock"@ by {
                if i < shorter.len() {
                    assert(shorter[i] == names[i]);
                }
            }
        }
    }
}

/// Which panel line is accepted behind others: one with a name that none of them has, with at
/// least two points, in places that are known.
pub proof fn law_which_panel_lines_are_accepted(earlier: Seq<RawDetail>, d: RawDetail)
    ensures
        detail_problems(earlier, d).len() == 0 <==> {
            &&& forall|i: int| 0 <= i < earlier.len() ==> (#[trigger] earlier[i]).name@ != d.name@
            &&& d.points@.len() >= 2
            &&& d.sizes matches Some(names) ==> places_are_known(names@)
        },
{
    if let Some(names) = d.sizes {
        lemma_places(d.name@, names@);
    }
}

/// What a panel line becomes: its name, its points, and the places that it names; without any it
/// is drawn in both.
pub proof fn law_what_a_panel_line_becomes(d: RawDetail)
    requires
        d.sizes matches Some(names) ==> places_are_known(names@),
    ensures
        detail_made(d).name == d.name@,
        detail_made(d).points == d.points@,
        d.sizes is None ==> detail_made(d).sizes == seq![Size::Bar, Size::Dock],
        d.sizes matches Some(names) ==> detail_made(d).sizes.len() == names@.len() && forall|i: int|
            0 <= i < names@.len() ==> #[trigger] detail_made(d).sizes[i] == if names@[i]@
                == "bar"@ {
                Size::Bar
            } else {
                Size::Dock
            },
{
    if let Some(names) = d.sizes {
        lemma_places(d.name@, names@);
    }
}

/// The colours that are written for a state are those of that state, the last ones if there are
/// several; a state without has none. States stand in the order of the menus.
pub proof fn law_colors_belong_to_their_state(
    colors: Seq<(String, RawColors)>,
    i: int,
    k: int,
)
    requires
        0 <= i < 6,
    ensures
        colors_made(colors).len() == 6,
        0 <= k < colors.len() && state_named(colors[k].0@) == Some(SessionState::ORDER@[i]) && (
        forall|j: int|
            k < j < colors.len() ==> state_named((#[trigger] colors[j]).0@) != Some(
                SessionState::ORDER@[i],
            )) ==> {
            let c = colors_made(colors)[i];
            &&& colors[k].1.accent is None ==> c.accent is None
            &&& colors[k].1.accent matches Some(t) ==> c.accent == hex_of(t@)
            &&& colors[k].1.fill is None ==> c.fill is None
            &&& colors[k].1.fill matches Some(t) ==> c.fill == hex_of(t@)
            &&& colors[k].1.eye is None ==> c.eye is None
            &&& colors[k].1.eye matches Some(t) ==> c.eye == hex_of(t@)
        },
        (forall|j: int|
            0 <= j < colors.len() ==> state_named((#[trigger] colors[j]).0@) != Some(
                SessionState::ORDER@[i],
            )) ==> colors_made(colors)[i] == (StateColors { accent: None, fill: None, eye: None }),
    decreases colors.len(),
{
    if colors.len() > 0 {
        let shorter = colors.drop_last();
        let s = SessionState::ORDER@[i];
        law_colors_belong_to_their_state(shorter, i, k);
        if 0 <= k < shorter.len() && state_named(colors[k].0@) == Some(s) && (forall|j: int|
            k < j < colors.len() ==> state_named((#[trigger] colors[j]).0@) != Some(s)) {
            assert(shorter[k] == colors[k]);
            assert(state_named(colors[colors.len() - 1].0@) != Some(s));
            assert forall|j: int| k < j < shorter.len() implies state_named(
                (#[trigger] shorter[j]).0@,
            ) != Some(s) by {
                assert(shorter[j] == colors[j]);
            }
        }
        if forall|j: int|
            0 <= j < colors.len() ==> state_named((#[trigger] colors[j]).0@) != Some(s) {
            assert(state_named(colors[colors.len() - 1].0@) != Some(s));
            assert forall|j: int| 0 <= j < shorter.len() implies state_named(
                (#[trigger] shorter[j]).0@,
            ) != Some(s) by {
                assert(shorter[j] == colors[j]);
            }
        }
    }
}

/// Whether the colours that are written for a state can be read.
pub open spec fn colors_are_sound(entry: (String, RawColors)) -> bool {
    &&& state_named(entry.0@) is Some
    &&& entry.1.accent matches Some(t) ==> hex_of(t@) is Some
    &&& entry.1.fill matches Some(t) ==> hex_of(t@) is Some
    &&& entry.1.eye matches Some(t) ==> hex_of(t@) is Some
}

/// Which colours are accepted: those of known states, as far as they can be read.
pub proof fn law_which_colors_are_accepted(colors: Seq<(String, RawColors)>)
    ensures
        colors_problems(colors).len() == 0 <==> forall|i: int|
            0 <= i < colors.len() ==> colors_are_sound(#[trigger] colors[i]),
    decreases colors.len(),
{
    if colors.len() > 0 {
        let shorter = colors.drop_last();
        law_which_colors_are_accepted(shorter);
        assert(colors_problems(colors) == colors_problems(shorter) + state_color_problems(
            colors.last().0@,
            colors.last().1,
        ));
        assert(state_color_problems(colors.last().0@, colors.last().1).len() == 0
            <==> colors_are_sound(colors.last()));
        if forall|i: int| 0 <= i < colors.len() ==> colors_are_sound(#[trigger] colors[i]) {
            assert(colors_are_sound(colors[colors.len() - 1]));
            assert forall|i: int| 0 <= i < shorter.len() implies colors_are_sound(
                #[trigger] shorter[i],
            ) by {
                assert(shorter[i] == colors[i]);
            }
        }
        if colors_problems(colors).len() == 0 {
            assert forall|i: int| 0 <= i < colors.len() implies colors_are_sound(
                #[trigger] colors[i],
            ) by {
                if i < shorter.len() {
                    assert(shorter[i] == colors[i]);
                }
            }
        }
    }
}

/// A face is accepted just if its id can be used, its label says something, and its outline, its
/// eyes, its panel lines and its colours are accepted.
pub proof fn law_which_faces_are_accepted(raw: RawFace)
    ensures
        face_problems(raw).len() == 0 <==> {
            &&& valid_id(raw.id@)
            &&& trimmed(raw.label@).len() > 0
            &&& outline_problems(raw.outline).len() == 0
            &&& eyes_problems(raw.eyes).len() == 0
            &&& details_problems(raw.details@).len() == 0
            &&& colors_problems(raw.colors@).len() == 0
        },
{
}

} // verus!
