//! The checks of a face. All problems are reported, not only the first.
//!
//! What geometry finds comes in as a `Survey`; what is a problem, and in what order, is decided
//! here.

use vstd::prelude::*;

use super::builder::emit::Pair;
use super::parse::{eyes_made, eyes_problems, id_message, id_message_text, RawEyes};
use super::spec::{
    drawn_in, has_size, index_of_state, is_valid_id, problem_views, report, state_index, valid_id,
    BodySize, DetailSpec, EyeShape, FaceSpec, OutlineSpec, Problem, ProblemCode, ProblemView,
};
use super::Size;
use crate::num::{finite, less, Num, TWENTY_TWO_BITS};
use crate::session::{state_name, SessionState};
use crate::text::{debug_text, decimal, decimal_text, join2, join3, quoted};

verus! {

/// The name of a place.
pub open spec fn size_name(size: Size) -> Seq<char> {
    match size {
        Size::Bar => "bar"@,
        Size::Dock => "dock"@,
    }
}

/// The name of a place.
pub fn tag(size: Size) -> (r: &'static str)
    ensures
        r@ == size_name(size),
{
    if size.is_bar() {
        "bar"
    } else {
        "dock"
    }
}

/// The problem of an id that cannot be used.
pub open spec fn id_problems(face: FaceSpec) -> Seq<ProblemView> {
    let none = Seq::<ProblemView>::empty();
    if valid_id(face.id@) {
        none
    } else {
        none.push(ProblemView { code: ProblemCode::Id, message: id_message(face.id@) })
    }
}

/// Checks the id of a face.
pub fn check_id(face: &FaceSpec, problems: &mut Vec<Problem>)
    ensures
        problem_views(final(problems)@) == problem_views(old(problems)@) + id_problems(*face),
{
    let ghost before = problem_views(problems@);
    if !is_valid_id(face.id.as_str()) {
        report(problems, ProblemCode::Id, id_message_text(face.id.as_str()));
    }
    assert(problem_views(problems@) =~= before + id_problems(*face));
}

/// Width and height of a body as text.
#[derive(Debug, Clone, PartialEq, Eq)]
pub struct SizeText {
    pub w: String,
    pub h: String,
}

/// Whether a dimension can be used: positive and finite.
pub open spec fn usable(n: Num) -> bool {
    finite(n) && less(Num { bits: 0 }, n)
}

/// Whether a body is too high for the menu bar.
pub open spec fn too_high(s: BodySize) -> bool {
    less(Num { bits: TWENTY_TWO_BITS }, s.h)
}

/// The problem of dimensions that cannot be used.
pub open spec fn dimension_problems(name: Seq<char>, s: BodySize, text: SizeText) -> Seq<
    ProblemView,
> {
    let none = Seq::<ProblemView>::empty();
    if usable(s.w) && usable(s.h) {
        none
    } else {
        none.push(
            ProblemView {
                code: ProblemCode::BodySize,
                message: name + " の体の寸法 "@ + text.w@ + "x"@ + text.h@
                    + " が不正です（正の有限値）"@,
            },
        )
    }
}

/// The problems of the dimensions of a face, in order.
pub open spec fn size_problems(face: FaceSpec, bar: SizeText, dock: SizeText) -> Seq<ProblemView> {
    let none = Seq::<ProblemView>::empty();
    (if too_high(face.size.bar) {
        none.push(
            ProblemView {
                code: ProblemCode::BodySize,
                message: "bar の体の高さが "@ + bar.h@
                    + "pt です。22pt 以下にしてください。メニューバーは非ノッチ画面（外部モニタ・Air・旧機種）で 24pt しかなく、上下の余裕 2pt を引くと 22pt が上限になります。これを超えると体そのものが縮められて生き物が小さくなります"@,
            },
        )
    } else {
        none
    }) + dimension_problems("bar"@, face.size.bar, bar) + dimension_problems(
        "dock"@,
        face.size.dock,
        dock,
    )
}

fn is_usable(n: Num) -> (r: bool)
    ensures
        r == usable(n),
{
    n.is_finite() && Num::new(0).is_less(n)
}

fn check_dimensions(name: &str, s: BodySize, text: &SizeText, problems: &mut Vec<Problem>)
    ensures
        problem_views(final(problems)@) == problem_views(old(problems)@) + dimension_problems(
            name@,
            s,
            *text,
        ),
{
    let ghost before = problem_views(problems@);
    if !(is_usable(s.w) && is_usable(s.h)) {
        let mut e = join3(name, " の体の寸法 ", text.w.as_str());
        e.append("x");
        e.append(text.h.as_str());
        e.append(" が不正です（正の有限値）");
        report(problems, ProblemCode::BodySize, e);
    }
    assert(problem_views(problems@) =~= before + dimension_problems(name@, s, *text));
}

/// Checks the dimensions of a face: they are positive and finite, and the body fits the menu
/// bar. The texts are those of the dimensions.
pub fn check_bar_height(
    face: &FaceSpec,
    bar: &SizeText,
    dock: &SizeText,
    problems: &mut Vec<Problem>,
)
    ensures
        problem_views(final(problems)@) == problem_views(old(problems)@) + size_problems(
            *face,
            *bar,
            *dock,
        ),
{
    let ghost before = problem_views(problems@);
    if Num::new(TWENTY_TWO_BITS).is_less(face.size.bar.h) {
        report(
            problems,
            ProblemCode::BodySize,
            join3(
                "bar の体の高さが ",
                bar.h.as_str(),
                "pt です。22pt 以下にしてください。メニューバーは非ノッチ画面（外部モニタ・Air・旧機種）で 24pt しかなく、上下の余裕 2pt を引くと 22pt が上限になります。これを超えると体そのものが縮められて生き物が小さくなります",
            ),
        );
    }
    check_dimensions("bar", face.size.bar, bar, problems);
    check_dimensions("dock", face.size.dock, dock, problems);
    assert(problem_views(problems@) =~= before + size_problems(*face, *bar, *dock));
}

/// The problem of a menu bar with more panel lines than the dock.
pub open spec fn thinning_problems(face: FaceSpec) -> Seq<ProblemView> {
    let none = Seq::<ProblemView>::empty();
    let bar = drawn_in(face.details@, Size::Bar).len();
    let dock = drawn_in(face.details@, Size::Dock).len();
    if bar > dock {
        none.push(
            ProblemView {
                code: ProblemCode::BarDetailsNotThinned,
                message: "bar のパネル線が "@ + decimal(bar) + " 本で dock の "@ + decimal(dock)
                    + " 本より多くなっています。bar は狭い（18x20pt に 7 本引くと潰れて塊になります）ので、[[details]] の sizes で間引いてください"@,
            },
        )
    } else {
        none
    }
}

/// Checks that the menu bar has no more panel lines than the dock.
pub fn check_thinning(face: &FaceSpec, problems: &mut Vec<Problem>)
    ensures
        problem_views(final(problems)@) == problem_views(old(problems)@) + thinning_problems(
            *face,
        ),
{
    let ghost before = problem_views(problems@);
    let bar: usize = face.face_details(Size::Bar).len();
    let dock: usize = face.face_details(Size::Dock).len();
    if bar > dock {
        let mut e = join3(
            "bar のパネル線が ",
            decimal_text(bar as u64).as_str(),
            " 本で dock の ",
        );
        e.append(decimal_text(dock as u64).as_str());
        e.append(
            " 本より多くなっています。bar は狭い（18x20pt に 7 本引くと潰れて塊になります）ので、[[details]] の sizes で間引いてください",
        );
        report(problems, ProblemCode::BarDetailsNotThinned, e);
    }
    assert(problem_views(problems@) =~= before + thinning_problems(*face));
}

// ---- what geometry finds --------------------------------------------------------------------

/// The outline in one place.
#[derive(Debug, Clone, PartialEq, Eq)]
pub enum OutlineFinding {
    /// It has no steps.
    Empty,
    /// It has steps.
    Drawn {
        /// Where it starts and ends, if it does not end where it starts.
        gap: Option<(String, String)>,
        /// A point outside the body's rectangle.
        outside: Option<Pair>,
    },
}

/// The symmetry of an outline of which one half is given.
#[derive(Debug, Clone, PartialEq, Eq)]
pub enum SymmetryFinding {
    /// An even number of points has no middle.
    Even { points: u64 },
    Odd {
        /// Where the middle point is and where it should be, if it is not there.
        turn: Option<(String, String)>,
        /// Two points that do not mirror each other, by their x.
        uneven: Option<(String, String)>,
    },
}

/// Eyes that are too wide.
#[derive(Debug, Clone, PartialEq, Eq)]
pub struct WideEyes {
    pub eye: String,
    pub gap: String,
    pub total: String,
    pub body: String,
}

/// The eyes in one place and state.
#[derive(Debug, Clone, PartialEq, Eq)]
pub struct EyeFinding {
    pub wide: Option<WideEyes>,
    /// A point of the left eye outside the body.
    pub left: Option<Pair>,
    /// A point of the right eye outside the body.
    pub right: Option<Pair>,
    /// Whether they look as they do in the state done.
    pub like_done: bool,
}

/// A face in one place.
#[derive(Debug, Clone, PartialEq, Eq)]
pub struct PlaceSurvey {
    pub body: SizeText,
    pub outline: OutlineFinding,
    /// The eyes in each state, in the order of `SessionState::ORDER`.
    pub eyes: [EyeFinding; 6],
    /// For each panel line a point outside the body, if there is one.
    pub details: Vec<Option<Pair>>,
}

/// What geometry finds.
#[derive(Debug, Clone, PartialEq, Eq)]
pub struct Survey {
    pub bar: PlaceSurvey,
    pub dock: PlaceSurvey,
    pub symmetry: SymmetryFinding,
}

/// A point in brackets.
pub open spec fn bracketed(p: Pair) -> Seq<char> {
    "（点 ("@ + p@.x + ", "@ + p@.y + ")）"@
}

fn bracket(p: &Pair) -> (r: String)
    ensures
        r@ == bracketed(*p),
{
    let mut out = join3("（点 (", p.x.as_str(), ", ");
    out.append(p.y.as_str());
    out.append(")）");
    out
}

/// One problem.
pub open spec fn one(code: ProblemCode, message: Seq<char>) -> Seq<ProblemView> {
    seq![ProblemView { code, message }]
}

/// No problem, or one.
pub open spec fn maybe(there: bool, code: ProblemCode, message: Seq<char>) -> Seq<ProblemView> {
    if there {
        one(code, message)
    } else {
        Seq::empty()
    }
}

// ---- the outline ----------------------------------------------------------------------------

/// That an outline is not closed.
pub open spec fn gap_message(size: Size, gap: (String, String)) -> Seq<char> {
    size_name(size) + " の輪郭が閉じていません（始点 "@ + gap.0@ + " → 終点 "@ + gap.1@
        + "）。最後の手で始点へ戻してください（half = true なら鏡像が自動で戻します）"@
}

/// That an outline leaves the body's rectangle.
pub open spec fn overflow_message(size: Size, body: SizeText, p: Pair) -> Seq<char> {
    size_name(size) + " で輪郭が体の矩形 "@ + body.w@ + "x"@ + body.h@ + " からはみ出します"@
        + bracketed(p) + "。座標は 0..1 の比率で書いてください"@
}

/// The problems of an outline in one place.
pub open spec fn outline_problems(size: Size, s: PlaceSurvey) -> Seq<ProblemView> {
    match s.outline {
        OutlineFinding::Empty => one(
            ProblemCode::Outline,
            size_name(size) + " の輪郭に手が 1 つもありません"@,
        ),
        OutlineFinding::Drawn { gap, outside } => (match gap {
            Some(g) => one(ProblemCode::Outline, gap_message(size, g)),
            None => Seq::empty(),
        }) + (match outside {
            Some(p) => one(ProblemCode::Outline, overflow_message(size, s.body, p)),
            None => Seq::empty(),
        }),
    }
}

/// Checks the outline in one place: it is closed and stays in the body's rectangle.
pub fn check_outline(size: Size, s: &PlaceSurvey, problems: &mut Vec<Problem>)
    ensures
        problem_views(final(problems)@) == problem_views(old(problems)@) + outline_problems(
            size,
            *s,
        ),
{
    let ghost before = problem_views(problems@);
    match &s.outline {
        OutlineFinding::Empty => {
            report(
                problems,
                ProblemCode::Outline,
                join2(tag(size), " の輪郭に手が 1 つもありません"),
            );
        },
        OutlineFinding::Drawn { gap, outside } => {
            if let Some(g) = gap {
                let mut e = join3(tag(size), " の輪郭が閉じていません（始点 ", g.0.as_str());
                e.append(" → 終点 ");
                e.append(g.1.as_str());
                e.append(
                    "）。最後の手で始点へ戻してください（half = true なら鏡像が自動で戻します）",
                );
                report(problems, ProblemCode::Outline, e);
            }
            if let Some(p) = outside {
                let mut e = join3(tag(size), " で輪郭が体の矩形 ", s.body.w.as_str());
                e.append("x");
                e.append(s.body.h.as_str());
                e.append(" からはみ出します");
                e.append(bracket(p).as_str());
                e.append("。座標は 0..1 の比率で書いてください");
                report(problems, ProblemCode::Outline, e);
            }
        },
    }
    assert(problem_views(problems@) =~= before + outline_problems(size, *s));
}

/// Whether one half of the outline is given.
pub open spec fn half_given(face: FaceSpec) -> bool {
    face.outline matches OutlineSpec::Path { half, .. } && half
}

/// The problems of the symmetry.
pub open spec fn symmetry_problems(face: FaceSpec, s: SymmetryFinding) -> Seq<ProblemView> {
    if !half_given(face) {
        Seq::empty()
    } else {
        match s {
            SymmetryFinding::Even { points } => one(
                ProblemCode::Symmetry,
                "half = true の輪郭の点数が偶数（"@ + decimal(points as nat)
                    + "）で折り返し点が定まりません"@,
            ),
            SymmetryFinding::Odd { turn, uneven } => (match turn {
                Some(t) => one(
                    ProblemCode::Symmetry,
                    "half = true の輪郭の折り返し点が中央にありません（x = "@ + t.0@ + "、中央は "@
                        + t.1@ + "）。d の最後の点は x = 0.5 にしてください"@,
                ),
                None => Seq::empty(),
            }) + (match uneven {
                Some(u) => one(
                    ProblemCode::Symmetry,
                    "half = true の輪郭が左右非対称です（"@ + u.0@ + " と "@ + u.1@ + "）"@,
                ),
                None => Seq::empty(),
            }),
        }
    }
}

fn is_half(face: &FaceSpec) -> (r: bool)
    ensures
        r == half_given(*face),
{
    match &face.outline {
        OutlineSpec::Path { half, .. } => *half,
        OutlineSpec::Corners(_) => false,
    }
}

/// Checks that an outline of which one half is given is symmetric.
pub fn check_symmetry(face: &FaceSpec, s: &SymmetryFinding, problems: &mut Vec<Problem>)
    ensures
        problem_views(final(problems)@) == problem_views(old(problems)@) + symmetry_problems(
            *face,
            *s,
        ),
{
    let ghost before = problem_views(problems@);
    if is_half(face) {
        match s {
            SymmetryFinding::Even { points } => {
                report(
                    problems,
                    ProblemCode::Symmetry,
                    join3(
                        "half = true の輪郭の点数が偶数（",
                        decimal_text(*points).as_str(),
                        "）で折り返し点が定まりません",
                    ),
                );
            },
            SymmetryFinding::Odd { turn, uneven } => {
                if let Some(t) = turn {
                    let mut e = join3(
                        "half = true の輪郭の折り返し点が中央にありません（x = ",
                        t.0.as_str(),
                        "、中央は ",
                    );
                    e.append(t.1.as_str());
                    e.append("）。d の最後の点は x = 0.5 にしてください");
                    report(problems, ProblemCode::Symmetry, e);
                }
                if let Some(u) = uneven {
                    let mut e = join3(
                        "half = true の輪郭が左右非対称です（",
                        u.0.as_str(),
                        " と ",
                    );
                    e.append(u.1.as_str());
                    e.append("）");
                    report(problems, ProblemCode::Symmetry, e);
                }
            },
        }
    }
    assert(problem_views(problems@) =~= before + symmetry_problems(*face, *s));
}

// ---- eyes -----------------------------------------------------------------------------------

/// A place and a state.
pub open spec fn place_and_state(size: Size, state: SessionState) -> Seq<char> {
    size_name(size) + "/"@ + state_name(state)
}

/// That the eyes are wider than the body.
pub open spec fn wide_message(size: Size, state: SessionState, w: WideEyes) -> Seq<char> {
    place_and_state(size, state) + " で両目が体からはみ出します（目 "@ + w.eye@ + " × 2 + 間隔 "@
        + w.gap@ + " = "@ + w.total@ + " > 体の幅 "@ + w.body@
        + "）。eyes.size を小さくするか eyes.gap を詰めてください"@
}

/// That an eye leaves the face.
pub open spec fn outside_message(size: Size, state: SessionState, p: Pair) -> Seq<char> {
    place_and_state(size, state) + " で目が顔からはみ出します"@ + bracketed(p)
        + "。eyes.size を小さくするか eyes.v で位置を変えるか、輪郭を広げてください"@
}

/// The problems of the eyes in one place and state.
pub open spec fn eye_problems(size: Size, state: SessionState, e: EyeFinding) -> Seq<ProblemView> {
    (match e.wide {
        Some(w) => one(ProblemCode::EyesTooWide, wide_message(size, state, w)),
        None => Seq::empty(),
    }) + (match e.left {
        Some(p) => one(ProblemCode::EyesOutsideBody, outside_message(size, state, p)),
        None => Seq::empty(),
    }) + (match e.right {
        Some(p) => one(ProblemCode::EyesOutsideBody, outside_message(size, state, p)),
        None => Seq::empty(),
    })
}

/// The problems of the eyes in one place, in the first `n` states.
pub open spec fn eyes_found(size: Size, eyes: Seq<EyeFinding>, n: nat) -> Seq<ProblemView>
    decreases n,
{
    if n == 0 {
        Seq::empty()
    } else {
        let i = (n - 1) as nat;
        eyes_found(size, eyes, i) + eye_problems(
            size,
            SessionState::ORDER@[i as int],
            eyes[i as int],
        )
    }
}

/// That a state cannot be told from the state done.
pub open spec fn alike_message(state: SessionState) -> Seq<char> {
    state_name(state) + " の目が done と見分けられません。[eyes.states."@ + state_name(state)
        + "] で寸法・色・横目・瞬きのどれかを変えてください（色とアニメは顔ごとに変えられないので、状態は目で読ませます）"@
}

/// Whether a state cannot be told from the state done.
pub open spec fn alike(eyes: Seq<EyeFinding>, state: SessionState) -> bool {
    eyes[index_of_state(state)].like_done
}

/// The problem of a state that cannot be told from the state done.
pub open spec fn alike_problem(eyes: Seq<EyeFinding>, state: SessionState) -> Seq<ProblemView> {
    maybe(alike(eyes, state), ProblemCode::StatesLookAlike, alike_message(state))
}

/// The problems of states that cannot be told from the state done.
pub open spec fn readability_problems(eyes: Seq<EyeFinding>) -> Seq<ProblemView> {
    alike_problem(eyes, SessionState::Working) + alike_problem(eyes, SessionState::WaitUser)
        + alike_problem(eyes, SessionState::WaitAgent) + alike_problem(eyes, SessionState::Idle)
        + alike_problem(eyes, SessionState::Error)
}

fn outside(size: Size, state: SessionState, p: &Pair) -> (r: String)
    ensures
        r@ == outside_message(size, state, *p),
{
    let mut e = join3(tag(size), "/", state.as_str());
    e.append(" で目が顔からはみ出します");
    e.append(bracket(p).as_str());
    e.append("。eyes.size を小さくするか eyes.v で位置を変えるか、輪郭を広げてください");
    e
}

fn check_eye(size: Size, state: SessionState, e: &EyeFinding, problems: &mut Vec<Problem>)
    ensures
        problem_views(final(problems)@) == problem_views(old(problems)@) + eye_problems(
            size,
            state,
            *e,
        ),
{
    let ghost before = problem_views(problems@);
    if let Some(w) = &e.wide {
        let mut m = join3(tag(size), "/", state.as_str());
        m.append(" で両目が体からはみ出します（目 ");
        m.append(w.eye.as_str());
        m.append(" × 2 + 間隔 ");
        m.append(w.gap.as_str());
        m.append(" = ");
        m.append(w.total.as_str());
        m.append(" > 体の幅 ");
        m.append(w.body.as_str());
        m.append("）。eyes.size を小さくするか eyes.gap を詰めてください");
        report(problems, ProblemCode::EyesTooWide, m);
    }
    if let Some(p) = &e.left {
        report(problems, ProblemCode::EyesOutsideBody, outside(size, state, p));
    }
    if let Some(p) = &e.right {
        report(problems, ProblemCode::EyesOutsideBody, outside(size, state, p));
    }
    assert(problem_views(problems@) =~= before + eye_problems(size, state, *e));
}

fn check_alike(eyes: &[EyeFinding; 6], state: SessionState, problems: &mut Vec<Problem>)
    ensures
        problem_views(final(problems)@) == problem_views(old(problems)@) + alike_problem(
            eyes@,
            state,
        ),
{
    let ghost before = problem_views(problems@);
    if eyes[state_index(state)].like_done {
        let mut m = join3(
            state.as_str(),
            " の目が done と見分けられません。[eyes.states.",
            state.as_str(),
        );
        m.append(
            "] で寸法・色・横目・瞬きのどれかを変えてください（色とアニメは顔ごとに変えられないので、状態は目で読ませます）",
        );
        report(problems, ProblemCode::StatesLookAlike, m);
    }
    assert(problem_views(problems@) =~= before + alike_problem(eyes@, state));
}

/// Checks that every state can be told from the state done by its eyes: they are all that a face
/// can say about a state.
pub fn check_state_readability(eyes: &[EyeFinding; 6], problems: &mut Vec<Problem>)
    ensures
        problem_views(final(problems)@) == problem_views(old(problems)@) + readability_problems(
            eyes@,
        ),
{
    let ghost before = problem_views(problems@);
    check_alike(eyes, SessionState::Working, problems);
    check_alike(eyes, SessionState::WaitUser, problems);
    check_alike(eyes, SessionState::WaitAgent, problems);
    check_alike(eyes, SessionState::Idle, problems);
    check_alike(eyes, SessionState::Error, problems);
    assert(problem_views(problems@) =~= before + readability_problems(eyes@));
}

/// The problems of the eyes in one place. Whether states differ is asked in the menu bar only.
pub open spec fn place_eye_problems(size: Size, s: PlaceSurvey) -> Seq<ProblemView> {
    eyes_found(size, s.eyes@, 6) + (match size {
        Size::Bar => readability_problems(s.eyes@),
        Size::Dock => Seq::empty(),
    })
}

/// Checks the eyes in one place.
pub fn check_eyes(size: Size, s: &PlaceSurvey, problems: &mut Vec<Problem>)
    ensures
        problem_views(final(problems)@) == problem_views(old(problems)@) + place_eye_problems(
            size,
            *s,
        ),
{
    let ghost before = problem_views(problems@);
    let mut i: usize = 0;
    assert(problem_views(problems@) =~= before + eyes_found(size, s.eyes@, 0));
    while i < 6
        invariant
            i <= 6,
            problem_views(problems@) == before + eyes_found(size, s.eyes@, i as nat),
        decreases 6 - i,
    {
        check_eye(size, SessionState::ORDER[i], &s.eyes[i], problems);
        i += 1;
        assert(problem_views(problems@) =~= before + eyes_found(size, s.eyes@, i as nat));
    }
    if size.is_bar() {
        check_state_readability(&s.eyes, problems);
    }
    assert(problem_views(problems@) =~= before + place_eye_problems(size, *s));
}

// ---- panel lines ----------------------------------------------------------------------------

/// That a panel line leaves the face.
pub open spec fn detail_message(size: Size, name: Seq<char>, p: Pair) -> Seq<char> {
    size_name(size) + " のパネル線 "@ + debug_text(name) + " が顔からはみ出します"@ + bracketed(p)
        + "。輪郭の内側へ寄せてください（縁ぎりぎりだと二重線に見えます）"@
}

/// The problem of a panel line in one place.
pub open spec fn detail_problem(size: Size, d: DetailSpec, found: Option<Pair>) -> Seq<
    ProblemView,
> {
    match found {
        Some(p) => maybe(
            d.sizes@.contains(size),
            ProblemCode::DetailOutsideBody,
            detail_message(size, d.name@, p),
        ),
        None => Seq::empty(),
    }
}

/// The problems of panel lines in one place.
pub open spec fn detail_problems(
    size: Size,
    details: Seq<DetailSpec>,
    found: Seq<Option<Pair>>,
) -> Seq<ProblemView>
    decreases details.len(),
{
    if details.len() == 0 {
        Seq::empty()
    } else {
        let i = details.len() - 1;
        detail_problems(size, details.drop_last(), found) + (if i < found.len() {
            detail_problem(size, details[i], found[i])
        } else {
            Seq::empty()
        })
    }
}

fn check_place_details(
    size: Size,
    details: &Vec<DetailSpec>,
    found: &Vec<Option<Pair>>,
    problems: &mut Vec<Problem>,
)
    ensures
        problem_views(final(problems)@) == problem_views(old(problems)@) + detail_problems(
            size,
            details@,
            found@,
        ),
{
    let ghost before = problem_views(problems@);
    let mut i: usize = 0;
    assert(problem_views(problems@) =~= before + detail_problems(size, details@.take(0), found@));
    while i < details.len()
        invariant
            i <= details@.len(),
            problem_views(problems@) == before + detail_problems(
                size,
                details@.take(i as int),
                found@,
            ),
        decreases details@.len() - i,
    {
        let ghost so_far = details@.take(i + 1);
        assert(so_far.drop_last() =~= details@.take(i as int));
        assert(so_far[i as int] == details@[i as int]);
        if i < found.len() {
            if let Some(p) = &found[i] {
                if has_size(&details[i].sizes, size) {
                    let mut m = join3(
                        tag(size),
                        " のパネル線 ",
                        quoted(details[i].name.as_str()).as_str(),
                    );
                    m.append(" が顔からはみ出します");
                    m.append(bracket(p).as_str());
                    m.append(
                        "。輪郭の内側へ寄せてください（縁ぎりぎりだと二重線に見えます）",
                    );
                    report(problems, ProblemCode::DetailOutsideBody, m);
                }
            }
        }
        assert(problem_views(problems@) =~= before + detail_problems(size, so_far, found@));
        i += 1;
    }
    assert(details@.take(details@.len() as int) =~= details@);
}

/// The problems of the panel lines.
pub open spec fn all_detail_problems(face: FaceSpec, s: Survey) -> Seq<ProblemView> {
    detail_problems(Size::Bar, face.details@, s.bar.details@) + detail_problems(
        Size::Dock,
        face.details@,
        s.dock.details@,
    ) + thinning_problems(face)
}

/// Checks the panel lines: they stay inside the body, and the menu bar has no more than the dock.
pub fn check_details(face: &FaceSpec, s: &Survey, problems: &mut Vec<Problem>)
    ensures
        problem_views(final(problems)@) == problem_views(old(problems)@) + all_detail_problems(
            *face,
            *s,
        ),
{
    let ghost before = problem_views(problems@);
    check_place_details(Size::Bar, &face.details, &s.bar.details, problems);
    check_place_details(Size::Dock, &face.details, &s.dock.details, problems);
    check_thinning(face, problems);
    assert(problem_views(problems@) =~= before + all_detail_problems(*face, *s));
}

// ---- all checks -----------------------------------------------------------------------------

/// All problems of a face, in order.
pub open spec fn problems_found(face: FaceSpec, s: Survey) -> Seq<ProblemView> {
    id_problems(face) + size_problems(face, s.bar.body, s.dock.body) + outline_problems(
        Size::Bar,
        s.bar,
    ) + outline_problems(Size::Dock, s.dock) + symmetry_problems(face, s.symmetry)
        + place_eye_problems(Size::Bar, s.bar) + place_eye_problems(Size::Dock, s.dock)
        + all_detail_problems(face, s)
}

/// Checks a face, given what geometry finds.
pub fn validate(face: &FaceSpec, s: &Survey) -> (r: Result<(), Vec<Problem>>)
    ensures
        r is Ok == (problems_found(*face, *s).len() == 0),
        r matches Err(ps) ==> problem_views(ps@) == problems_found(*face, *s),
{
    let mut problems: Vec<Problem> = Vec::new();
    assert(problem_views(problems@) =~= Seq::<ProblemView>::empty());
    check_id(face, &mut problems);
    check_bar_height(face, &s.bar.body, &s.dock.body, &mut problems);
    check_outline(Size::Bar, &s.bar, &mut problems);
    check_outline(Size::Dock, &s.dock, &mut problems);
    check_symmetry(face, &s.symmetry, &mut problems);
    check_eyes(Size::Bar, &s.bar, &mut problems);
    check_eyes(Size::Dock, &s.dock, &mut problems);
    check_details(face, s, &mut problems);
    assert(problem_views(problems@) =~= problems_found(*face, *s));
    if problems.len() == 0 {
        Ok(())
    } else {
        Err(problems)
    }
}

/// The space beside the notch of the screen, in points: 217.
pub const NOTCH_RIGHT_BUDGET_BITS: u64 = 0x406b_2000_0000_0000;

/// A warning that six figures in the menu bar are wider than the space beside the notch. It is
/// no problem: they move to the other side. `width` is how wide they are, and `text` says so.
pub fn notch_width_warning(width: Num, text: &str) -> (r: Option<Problem>)
    ensures
        r is Some == less(Num { bits: NOTCH_RIGHT_BUDGET_BITS }, width),
        r matches Some(p) ==> p@ == (ProblemView {
            code: ProblemCode::NotchWidth,
            message: "bar で 6 匹並べると幅 "@ + text@
                + "pt で、ノッチ右の見込み空き 217.0pt を超えます。bar_align = \"auto\" はノッチの左へ逃げます（正常動作。前面アプリのメニューと重なることがあります）"@,
        }),
{
    if Num::new(NOTCH_RIGHT_BUDGET_BITS).is_less(width) {
        Some(
            Problem::new(
                ProblemCode::NotchWidth,
                join3(
                    "bar で 6 匹並べると幅 ",
                    text,
                    "pt で、ノッチ右の見込み空き 217.0pt を超えます。bar_align = \"auto\" はノッチの左へ逃げます（正常動作。前面アプリのメニューと重なることがあります）",
                ),
            ),
        )
    } else {
        None
    }
}

/// Whether a face has a polygon exactly if its eyes are drawn as one.
pub fn shape_matches_polygon(face: &FaceSpec) -> (r: bool)
    ensures
        r == ((face.eyes.shape == EyeShape::Polygon) == face.eyes.polygon is Some),
{
    match face.eyes.shape {
        EyeShape::Polygon => face.eyes.polygon.is_some(),
        EyeShape::Rounded => face.eyes.polygon.is_none(),
    }
}

// ---- laws -----------------------------------------------------------------------------------

/// A face without problems has an id that can be used and a body that fits the menu bar, and
/// every state can be told from the state done.
pub proof fn law_a_checked_face_is_fit_for_use(face: FaceSpec, s: Survey, state: SessionState)
    requires
        problems_found(face, s).len() == 0,
    ensures
        valid_id(face.id@),
        !too_high(face.size.bar),
        usable(face.size.bar.w) && usable(face.size.bar.h),
        usable(face.size.dock.w) && usable(face.size.dock.h),
        state != SessionState::Done ==> !alike(s.bar.eyes@, state),
{
    let bar = place_eye_problems(Size::Bar, s.bar);
    assert(bar.len() == 0);
    assert(readability_problems(s.bar.eyes@).len() == 0);
}

/// A face of which every panel line is drawn in the dock has no more lines in the menu bar.
pub proof fn law_lines_of_the_dock_are_enough(face: FaceSpec)
    requires
        forall|i: int|
            0 <= i < face.details@.len() ==> (#[trigger] face.details@[i]).sizes@.contains(
                Size::Dock,
            ),
    ensures
        thinning_problems(face).len() == 0,
{
    lemma_drawn(face.details@);
}

proof fn lemma_drawn(details: Seq<DetailSpec>)
    requires
        forall|i: int|
            0 <= i < details.len() ==> (#[trigger] details[i]).sizes@.contains(Size::Dock),
    ensures
        drawn_in(details, Size::Dock).len() == details.len(),
        drawn_in(details, Size::Bar).len() <= details.len(),
    decreases details.len(),
{
    if details.len() > 0 {
        let shorter = details.drop_last();
        assert forall|i: int| 0 <= i < shorter.len() implies (
        #[trigger] shorter[i]).sizes@.contains(Size::Dock) by {
            assert(shorter[i] == details[i]);
        }
        lemma_drawn(shorter);
        assert(details.last() == details[details.len() - 1]);
    }
}

/// Eyes that were accepted have a polygon exactly if they are drawn as one.
pub proof fn law_accepted_eyes_match_their_shape(raw: RawEyes)
    requires
        eyes_problems(raw).len() == 0,
    ensures
        eyes_made(raw) matches Some(eyes) && (eyes.shape == EyeShape::Polygon)
            == eyes.polygon is Some,
{
}

// ---- which problems are found ---------------------------------------------------------------

/// Whether a problem of this kind is among those of a list.
pub open spec fn has_code(ps: Seq<ProblemView>, code: ProblemCode) -> bool {
    exists|i: int| 0 <= i < ps.len() && (#[trigger] ps[i]).code == code
}

proof fn lemma_has_code(a: Seq<ProblemView>, b: Seq<ProblemView>, code: ProblemCode)
    ensures
        has_code(a + b, code) == (has_code(a, code) || has_code(b, code)),
{
    let all = a + b;
    if has_code(all, code) {
        let i = choose|i: int| 0 <= i < all.len() && (#[trigger] all[i]).code == code;
        if i < a.len() {
            assert(a[i].code == code);
        } else {
            assert(b[i - a.len()].code == code);
        }
    }
    if has_code(a, code) {
        let i = choose|i: int| 0 <= i < a.len() && (#[trigger] a[i]).code == code;
        assert(all[i].code == code);
    }
    if has_code(b, code) {
        let i = choose|i: int| 0 <= i < b.len() && (#[trigger] b[i]).code == code;
        assert(all[a.len() + i].code == code);
    }
}

proof fn lemma_one_code(code: ProblemCode, message: Seq<char>, other: ProblemCode)
    ensures
        has_code(one(code, message), other) == (code == other),
        !has_code(Seq::<ProblemView>::empty(), other),
        has_code(Seq::<ProblemView>::empty().push(ProblemView { code, message }), other) == (code
            == other),
{
    assert(one(code, message)[0].code == code);
    assert(Seq::<ProblemView>::empty().push(ProblemView { code, message })[0].code == code);
}

/// Whether a dimension is a number that is positive.
pub open spec fn is_positive(n: Num) -> bool {
    finite(n) && less(Num { bits: 0 }, n)
}

/// Whether the outline of a place is closed and stays within the body.
pub open spec fn outline_is_sound(s: PlaceSurvey) -> bool {
    s.outline matches OutlineFinding::Drawn { gap, outside } && gap is None && outside is None
}

/// Whether the eyes of a place are too wide in a state.
pub open spec fn some_eyes_wide(s: PlaceSurvey) -> bool {
    exists|i: int| 0 <= i < 6 && (#[trigger] s.eyes@[i]).wide is Some
}

/// Whether an eye of a place leaves the body in a state.
pub open spec fn some_eye_outside(s: PlaceSurvey) -> bool {
    exists|i: int|
        0 <= i < 6 && ((#[trigger] s.eyes@[i]).left is Some || s.eyes@[i].right is Some)
}

/// Whether a panel line that is drawn in a place leaves the body there.
pub open spec fn some_line_outside(
    details: Seq<DetailSpec>,
    size: Size,
    found: Seq<Option<Pair>>,
) -> bool {
    exists|i: int|
        0 <= i < details.len() && i < found.len() && (#[trigger] found[i]) is Some
            && details[i].sizes@.contains(size)
}

proof fn lemma_eye_codes(size: Size, eyes: Seq<EyeFinding>, n: nat, code: ProblemCode)
    requires
        n <= 6,
    ensures
        has_code(eyes_found(size, eyes, n), code) <==> {
            ||| code == ProblemCode::EyesTooWide && exists|i: int|
                0 <= i < n && (#[trigger] eyes[i]).wide is Some
            ||| code == ProblemCode::EyesOutsideBody && exists|i: int|
                0 <= i < n && ((#[trigger] eyes[i]).left is Some || eyes[i].right is Some)
        },
    decreases n,
{
    if n == 0 {
        lemma_one_code(code, Seq::empty(), code);
    } else {
        let i = (n - 1) as nat;
        let e = eyes[i as int];
        let state = SessionState::ORDER@[i as int];
        lemma_eye_codes(size, eyes, i, code);
        lemma_has_code(eyes_found(size, eyes, i), eye_problems(size, state, e), code);
        let a = match e.wide {
            Some(w) => one(ProblemCode::EyesTooWide, wide_message(size, state, w)),
            None => Seq::empty(),
        };
        let b = match e.left {
            Some(p) => one(ProblemCode::EyesOutsideBody, outside_message(size, state, p)),
            None => Seq::empty(),
        };
        let c = match e.right {
            Some(p) => one(ProblemCode::EyesOutsideBody, outside_message(size, state, p)),
            None => Seq::empty(),
        };
        lemma_has_code(a, b, code);
        lemma_has_code(a + b, c, code);
        match e.wide {
            Some(w) => lemma_one_code(
                ProblemCode::EyesTooWide,
                wide_message(size, state, w),
                code,
            ),
            None => lemma_one_code(code, Seq::empty(), code),
        }
        match e.left {
            Some(p) => lemma_one_code(
                ProblemCode::EyesOutsideBody,
                outside_message(size, state, p),
                code,
            ),
            None => lemma_one_code(code, Seq::empty(), code),
        }
        match e.right {
            Some(p) => lemma_one_code(
                ProblemCode::EyesOutsideBody,
                outside_message(size, state, p),
                code,
            ),
            None => lemma_one_code(code, Seq::empty(), code),
        }
    }
}

proof fn lemma_alike_code(eyes: Seq<EyeFinding>, state: SessionState, code: ProblemCode)
    ensures
        has_code(alike_problem(eyes, state), code) == (code == ProblemCode::StatesLookAlike
            && eyes[index_of_state(state)].like_done),
{
    lemma_one_code(ProblemCode::StatesLookAlike, alike_message(state), code);
}

proof fn lemma_readability_codes(eyes: Seq<EyeFinding>, code: ProblemCode)
    ensures
        has_code(readability_problems(eyes), code) <==> code == ProblemCode::StatesLookAlike && (
        eyes[0].like_done || eyes[1].like_done || eyes[2].like_done || eyes[3].like_done
            || eyes[5].like_done),
{
    let a = alike_problem(eyes, SessionState::Working);
    let b = alike_problem(eyes, SessionState::WaitUser);
    let c = alike_problem(eyes, SessionState::WaitAgent);
    let d = alike_problem(eyes, SessionState::Idle);
    let e = alike_problem(eyes, SessionState::Error);
    lemma_alike_code(eyes, SessionState::Working, code);
    lemma_alike_code(eyes, SessionState::WaitUser, code);
    lemma_alike_code(eyes, SessionState::WaitAgent, code);
    lemma_alike_code(eyes, SessionState::Idle, code);
    lemma_alike_code(eyes, SessionState::Error, code);
    lemma_has_code(a, b, code);
    lemma_has_code(a + b, c, code);
    lemma_has_code(a + b + c, d, code);
    lemma_has_code(a + b + c + d, e, code);
}

proof fn lemma_outline_codes(size: Size, s: PlaceSurvey, code: ProblemCode)
    ensures
        has_code(outline_problems(size, s), code) <==> code == ProblemCode::Outline
            && !outline_is_sound(s),
{
    match s.outline {
        OutlineFinding::Empty => {
            lemma_one_code(
                ProblemCode::Outline,
                size_name(size) + " の輪郭に手が 1 つもありません"@,
                code,
            );
        },
        OutlineFinding::Drawn { gap, outside } => {
            let a = match gap {
                Some(g) => one(ProblemCode::Outline, gap_message(size, g)),
                None => Seq::empty(),
            };
            let b = match outside {
                Some(p) => one(ProblemCode::Outline, overflow_message(size, s.body, p)),
                None => Seq::empty(),
            };
            lemma_has_code(a, b, code);
            match gap {
                Some(g) => lemma_one_code(ProblemCode::Outline, gap_message(size, g), code),
                None => lemma_one_code(code, Seq::empty(), code),
            }
            match outside {
                Some(p) => lemma_one_code(
                    ProblemCode::Outline,
                    overflow_message(size, s.body, p),
                    code,
                ),
                None => lemma_one_code(code, Seq::empty(), code),
            }
        },
    }
}

/// Whether an outline of which one half is given is not symmetric.
pub open spec fn is_lopsided(face: FaceSpec, s: SymmetryFinding) -> bool {
    &&& face.outline matches OutlineSpec::Path { half, .. } && half
    &&& match s {
        SymmetryFinding::Even { points } => true,
        SymmetryFinding::Odd { turn, uneven } => turn is Some || uneven is Some,
    }
}

proof fn lemma_symmetry_codes(face: FaceSpec, s: SymmetryFinding, code: ProblemCode)
    ensures
        has_code(symmetry_problems(face, s), code) <==> code == ProblemCode::Symmetry
            && is_lopsided(face, s),
{
    let ps = symmetry_problems(face, s);
    lemma_one_code(code, Seq::empty(), code);
    if half_given(face) {
        assert forall|i: int| 0 <= i < ps.len() implies (#[trigger] ps[i]).code
            == ProblemCode::Symmetry by {}
        if is_lopsided(face, s) {
            assert(ps.len() > 0);
            assert(ps[0].code == ProblemCode::Symmetry);
        }
    }
}

proof fn lemma_detail_codes(
    size: Size,
    details: Seq<DetailSpec>,
    found: Seq<Option<Pair>>,
    code: ProblemCode,
)
    ensures
        has_code(detail_problems(size, details, found), code) <==> code
            == ProblemCode::DetailOutsideBody && some_line_outside(details, size, found),
    decreases details.len(),
{
    lemma_one_code(code, Seq::empty(), code);
    if details.len() > 0 {
        let i = details.len() - 1;
        let shorter = details.drop_last();
        lemma_detail_codes(size, shorter, found, code);
        let last = if i < found.len() {
            detail_problem(size, details[i], found[i])
        } else {
            Seq::empty()
        };
        lemma_has_code(detail_problems(size, shorter, found), last, code);
        if i < found.len() && found[i] is Some {
            lemma_one_code(
                ProblemCode::DetailOutsideBody,
                detail_message(size, details[i].name@, found[i]->0),
                code,
            );
        }
        if some_line_outside(details, size, found) {
            let k = choose|k: int|
                0 <= k < details.len() && k < found.len() && (#[trigger] found[k]) is Some
                    && details[k].sizes@.contains(size);
            if k < i {
                assert(shorter[k] == details[k]);
                assert(some_line_outside(shorter, size, found));
            }
        }
        if some_line_outside(shorter, size, found) {
            let k = choose|k: int|
                0 <= k < shorter.len() && k < found.len() && (#[trigger] found[k]) is Some
                    && shorter[k].sizes@.contains(size);
            assert(shorter[k] == details[k]);
            assert(some_line_outside(details, size, found));
        }
    }
}

proof fn lemma_size_codes(face: FaceSpec, bar: SizeText, dock: SizeText, code: ProblemCode)
    ensures
        has_code(size_problems(face, bar, dock), code) <==> code == ProblemCode::BodySize && (less(
            Num { bits: 0x4036_0000_0000_0000 },
            face.size.bar.h,
        ) || !is_positive(face.size.bar.w) || !is_positive(face.size.bar.h) || !is_positive(
            face.size.dock.w,
        ) || !is_positive(face.size.dock.h)),
{
    let ps = size_problems(face, bar, dock);
    assert forall|i: int| 0 <= i < ps.len() implies (#[trigger] ps[i]).code
        == ProblemCode::BodySize by {}
    if ps.len() > 0 {
        assert(ps[0].code == ProblemCode::BodySize);
    }
}

/// Every kind of problem is reported just if it is there: an id that cannot be used; a body whose
/// dimensions are no positive numbers, or that is higher than twenty-two points in the menu bar;
/// an outline that is open or leaves the body, in either place; a half outline that is not
/// symmetric; eyes that are too wide or leave the body, in either place and any state; a state
/// whose eyes in the menu bar look as if the turn was done; a panel line that leaves the body
/// where it is drawn; and more panel lines in the menu bar than in the dock. No other kind is.
pub proof fn law_every_kind_of_problem_is_reported(face: FaceSpec, s: Survey, code: ProblemCode)
    ensures
        has_code(problems_found(face, s), code) <==> {
            ||| code == ProblemCode::Id && !valid_id(face.id@)
            ||| code == ProblemCode::BodySize && (less(
                Num { bits: 0x4036_0000_0000_0000 },
                face.size.bar.h,
            ) || !is_positive(face.size.bar.w) || !is_positive(face.size.bar.h) || !is_positive(
                face.size.dock.w,
            ) || !is_positive(face.size.dock.h))
            ||| code == ProblemCode::Outline && !(outline_is_sound(s.bar) && outline_is_sound(
                s.dock,
            ))
            ||| code == ProblemCode::Symmetry && is_lopsided(face, s.symmetry)
            ||| code == ProblemCode::EyesTooWide && (some_eyes_wide(s.bar) || some_eyes_wide(
                s.dock,
            ))
            ||| code == ProblemCode::EyesOutsideBody && (some_eye_outside(s.bar)
                || some_eye_outside(s.dock))
            ||| code == ProblemCode::StatesLookAlike && (s.bar.eyes@[0].like_done
                || s.bar.eyes@[1].like_done || s.bar.eyes@[2].like_done
                || s.bar.eyes@[3].like_done || s.bar.eyes@[5].like_done)
            ||| code == ProblemCode::DetailOutsideBody && (some_line_outside(
                face.details@,
                Size::Bar,
                s.bar.details@,
            ) || some_line_outside(face.details@, Size::Dock, s.dock.details@))
            ||| code == ProblemCode::BarDetailsNotThinned && drawn_in(
                face.details@,
                Size::Bar,
            ).len() > drawn_in(face.details@, Size::Dock).len()
        },
{
    let a = id_problems(face);
    let b = size_problems(face, s.bar.body, s.dock.body);
    let c = outline_problems(Size::Bar, s.bar);
    let d = outline_problems(Size::Dock, s.dock);
    let e = symmetry_problems(face, s.symmetry);
    let f = place_eye_problems(Size::Bar, s.bar);
    let g = place_eye_problems(Size::Dock, s.dock);
    let h = all_detail_problems(face, s);
    lemma_has_code(a, b, code);
    lemma_has_code(a + b, c, code);
    lemma_has_code(a + b + c, d, code);
    lemma_has_code(a + b + c + d, e, code);
    lemma_has_code(a + b + c + d + e, f, code);
    lemma_has_code(a + b + c + d + e + f, g, code);
    lemma_has_code(a + b + c + d + e + f + g, h, code);
    lemma_one_code(ProblemCode::Id, id_message(face.id@), code);
    lemma_size_codes(face, s.bar.body, s.dock.body, code);
    lemma_outline_codes(Size::Bar, s.bar, code);
    lemma_outline_codes(Size::Dock, s.dock, code);
    lemma_symmetry_codes(face, s.symmetry, code);
    lemma_eye_codes(Size::Bar, s.bar.eyes@, 6, code);
    lemma_eye_codes(Size::Dock, s.dock.eyes@, 6, code);
    lemma_readability_codes(s.bar.eyes@, code);
    lemma_has_code(
        eyes_found(Size::Bar, s.bar.eyes@, 6),
        readability_problems(s.bar.eyes@),
        code,
    );
    lemma_has_code(eyes_found(Size::Dock, s.dock.eyes@, 6), Seq::empty(), code);
    lemma_one_code(code, Seq::empty(), code);
    let i = detail_problems(Size::Bar, face.details@, s.bar.details@);
    let j = detail_problems(Size::Dock, face.details@, s.dock.details@);
    let k = thinning_problems(face);
    lemma_has_code(i, j, code);
    lemma_has_code(i + j, k, code);
    lemma_detail_codes(Size::Bar, face.details@, s.bar.details@, code);
    lemma_detail_codes(Size::Dock, face.details@, s.dock.details@, code);
    if k.len() > 0 {
        assert(k[0].code == ProblemCode::BarDetailsNotThinned);
    }
}

/// The names of the places.
pub proof fn law_the_names_of_the_places()
    ensures
        size_name(Size::Bar) == "bar"@,
        size_name(Size::Dock) == "dock"@,
{
}

} // verus!
