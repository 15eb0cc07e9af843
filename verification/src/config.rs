//! The settings in `config.toml`.
//!
//! A missing file means the built-in settings. A file that cannot be used is an error with a
//! message, so that whoever reads it can keep the last good settings.

use std::sync::Arc;

use vstd::prelude::*;

use crate::face::builder::emit::{needs_code, quote, toml_string};
use crate::face::registry::{builtin_ids, builtin_names, has_face, ids_of, Registry};
use crate::face::spec::{is_valid_id, plain_id_char, valid_id, FaceSpec};
use crate::ignore::{accepted, lines_of, refused, IgnoreRules};
use crate::lang::{from_tag, tag_lang, Lang};
use crate::num::{finite, special_text, Num};
use crate::text::{
    debug_text, decimal, decimal_text, digit, drop_empty, join2, join3, join_with,
    lemma_nothing_to_trim, lemma_split_pieces, lemma_split_single, non_empty, opt_text, quoted,
    rows, same, separated, split, split_chars, texts, to_chars, to_strings, trim, trim_chars,
    trimmed,
};
use lines::{
    in_quotes, is_bare_key, is_clean, is_plain, is_remark, is_toml_file, is_toml_line,
    lemma_clean_join, lemma_clean_separated, lemma_longer_remark, lemma_one_line_more,
    lemma_plain_string, line_sets, line_text, lines_text, push_remark, push_setting, toml_array,
    toml_strings, Line,
};

pub mod laws;
pub mod lines;

verus! {

// ---- choices --------------------------------------------------------------------------------

/// Where the figures are.
#[derive(Debug, Clone, Copy, PartialEq, Eq, Structural)]
pub enum Placement {
    Bar,
    Dock,
}

/// The name of a placement.
pub open spec fn placement_name(p: Placement) -> Seq<char> {
    match p {
        Placement::Bar => "bar"@,
        Placement::Dock => "dock"@,
    }
}

/// The placement of this name.
pub open spec fn placement_named(s: Seq<char>) -> Option<Placement> {
    if s == "bar"@ {
        Some(Placement::Bar)
    } else if s == "dock"@ {
        Some(Placement::Dock)
    } else {
        None
    }
}

impl Placement {
    /// The name of a placement.
    pub fn as_str(&self) -> (r: &'static str)
        ensures
            r@ == placement_name(*self),
    {
        match self {
            Placement::Bar => "bar",
            Placement::Dock => "dock",
        }
    }

    /// The placement of this name.
    pub fn from_str(s: &str) -> (r: Option<Self>)
        ensures
            r == placement_named(s@),
    {
        if same(s, "bar") {
            Some(Placement::Bar)
        } else if same(s, "dock") {
            Some(Placement::Dock)
        } else {
            None
        }
    }
}

/// Where in the menu bar the figures stand.
#[derive(Debug, Clone, Copy, PartialEq, Eq, Structural)]
pub enum BarAlign {
    Auto,
    Center,
    LeftOfNotch,
    RightOfNotch,
}

/// The name of an alignment.
pub open spec fn align_name(a: BarAlign) -> Seq<char> {
    match a {
        BarAlign::Auto => "auto"@,
        BarAlign::Center => "center"@,
        BarAlign::LeftOfNotch => "left-of-notch"@,
        BarAlign::RightOfNotch => "right-of-notch"@,
    }
}

/// The alignment of this name.
pub open spec fn align_named(s: Seq<char>) -> Option<BarAlign> {
    if s == "auto"@ {
        Some(BarAlign::Auto)
    } else if s == "center"@ {
        Some(BarAlign::Center)
    } else if s == "left-of-notch"@ {
        Some(BarAlign::LeftOfNotch)
    } else if s == "right-of-notch"@ {
        Some(BarAlign::RightOfNotch)
    } else {
        None
    }
}

impl BarAlign {
    /// The name of an alignment.
    pub fn as_str(&self) -> (r: &'static str)
        ensures
            r@ == align_name(*self),
    {
        match self {
            BarAlign::Auto => "auto",
            BarAlign::Center => "center",
            BarAlign::LeftOfNotch => "left-of-notch",
            BarAlign::RightOfNotch => "right-of-notch",
        }
    }

    /// The alignment of this name.
    pub fn from_str(s: &str) -> (r: Option<Self>)
        ensures
            r == align_named(s@),
    {
        if same(s, "auto") {
            Some(BarAlign::Auto)
        } else if same(s, "center") {
            Some(BarAlign::Center)
        } else if same(s, "left-of-notch") {
            Some(BarAlign::LeftOfNotch)
        } else if same(s, "right-of-notch") {
            Some(BarAlign::RightOfNotch)
        } else {
            None
        }
    }
}

/// Whether the figures shrink when there are many.
#[derive(Debug, Clone, Copy, PartialEq, Eq, Structural)]
pub enum CompactMode {
    /// When they do not fit any more.
    Auto,
    Always,
    Never,
}

/// The name of a mode.
pub open spec fn compact_name(m: CompactMode) -> Seq<char> {
    match m {
        CompactMode::Auto => "auto"@,
        CompactMode::Always => "always"@,
        CompactMode::Never => "never"@,
    }
}

/// The mode of this name.
pub open spec fn compact_named(s: Seq<char>) -> Option<CompactMode> {
    if s == "auto"@ {
        Some(CompactMode::Auto)
    } else if s == "always"@ {
        Some(CompactMode::Always)
    } else if s == "never"@ {
        Some(CompactMode::Never)
    } else {
        None
    }
}

impl CompactMode {
    /// The name of a mode.
    pub fn as_str(&self) -> (r: &'static str)
        ensures
            r@ == compact_name(*self),
    {
        match self {
            CompactMode::Auto => "auto",
            CompactMode::Always => "always",
            CompactMode::Never => "never",
        }
    }

    /// The mode of this name.
    pub fn from_str(s: &str) -> (r: Option<Self>)
        ensures
            r == compact_named(s@),
    {
        if same(s, "auto") {
            Some(CompactMode::Auto)
        } else if same(s, "always") {
            Some(CompactMode::Always)
        } else if same(s, "never") {
            Some(CompactMode::Never)
        } else {
            None
        }
    }
}

/// The language on the screen.
#[derive(Debug, Clone, Copy, PartialEq, Eq, Structural)]
pub enum Language {
    /// That of the system.
    Auto,
    Ja,
    En,
}

/// The name of a language setting.
pub open spec fn language_name(l: Language) -> Seq<char> {
    match l {
        Language::Auto => "auto"@,
        Language::Ja => "ja"@,
        Language::En => "en"@,
    }
}

/// The language setting of this name.
pub open spec fn language_named(s: Seq<char>) -> Option<Language> {
    if s == "auto"@ {
        Some(Language::Auto)
    } else if s == "ja"@ {
        Some(Language::Ja)
    } else if s == "en"@ {
        Some(Language::En)
    } else {
        None
    }
}

impl Language {
    /// The name of a language setting.
    pub fn as_str(&self) -> (r: &'static str)
        ensures
            r@ == language_name(*self),
    {
        match self {
            Language::Auto => "auto",
            Language::Ja => "ja",
            Language::En => "en",
        }
    }

    /// The language setting of this name.
    pub fn from_str(s: &str) -> (r: Option<Self>)
        ensures
            r == language_named(s@),
    {
        if same(s, "auto") {
            Some(Language::Auto)
        } else if same(s, "ja") {
            Some(Language::Ja)
        } else if same(s, "en") {
            Some(Language::En)
        } else {
            None
        }
    }

    /// The language to use, given the language tag of the system, if it has one.
    pub fn resolve(self, tag: &Option<String>) -> (r: Lang)
        ensures
            r == system_language(self, opt_text(*tag)),
    {
        match self {
            Language::Ja => Lang::Ja,
            Language::En => Lang::En,
            Language::Auto => match tag {
                Some(t) => from_tag(t.as_str()),
                None => Lang::En,
            },
        }
    }
}

/// The language to use, given the language tag of the system, if it has one.
pub open spec fn system_language(setting: Language, tag: Option<Seq<char>>) -> Lang {
    match setting {
        Language::Ja => Lang::Ja,
        Language::En => Lang::En,
        Language::Auto => match tag {
            Some(t) => tag_lang(t),
            None => Lang::En,
        },
    }
}

/// The ids of the program's own faces, in quotes.
pub open spec fn choices() -> Seq<char> {
    separated(Seq::new(4, |i: int| "\""@ + builtin_names()[i] + "\""@), " | "@)
}

/// The ids of the program's own faces, as the comment in `config.toml` lists them. A user's
/// faces are not known when the file is written.
pub fn design_choices() -> (r: String)
    ensures
        r@ == choices(),
{
    let ids = builtin_ids();
    let mut names: Vec<String> = Vec::new();
    let mut i: usize = 0;
    while i < ids.len()
        invariant
            i <= ids@.len() == 4,
            forall|k: int| 0 <= k < 4 ==> (#[trigger] ids@[k])@ == builtin_names()[k],
            names@.len() == i,
            forall|k: int|
                0 <= k < i ==> (#[trigger] names@[k])@ == "\""@ + builtin_names()[k] + "\""@,
        decreases ids@.len() - i,
    {
        names.push(join3("\"", ids[i], "\""));
        i += 1;
    }
    assert(texts(names@) =~= Seq::new(4, |i: int| "\""@ + builtin_names()[i] + "\""@));
    join_with(&names, " | ")
}

// ---- the settings ---------------------------------------------------------------------------

/// How long sessions stay. Files give seconds; `Config` has the only way to set them.
#[derive(Debug, Clone, Copy, PartialEq, Eq)]
pub struct Lifetimes {
    done_ms: u64,
    session_ms: u64,
}

impl Lifetimes {
    /// How long a finished session stays, in milliseconds.
    pub closed spec fn done(&self) -> u64 {
        self.done_ms
    }

    /// How long a session that says nothing stays, in milliseconds.
    pub closed spec fn session(&self) -> u64 {
        self.session_ms
    }
}

/// All settings.
#[derive(Debug, Clone, PartialEq, Eq)]
pub struct Config {
    pub placement: Placement,
    /// The id of the face. Whether there is such a face shows only when it is resolved.
    pub design: String,
    pub reduce_motion: bool,
    pub show_glyphs: bool,
    pub bar_align: BarAlign,
    pub compact_flock: CompactMode,
    /// Where the dock was dragged to: its middle, from the left of the screen. `None` is the
    /// usual place, for each axis on its own.
    pub dock_x: Option<Num>,
    /// Its lower edge, from the bottom of the screen.
    pub dock_y: Option<Num>,
    pub ttl: Lifetimes,
    pub max_sessions: usize,
    pub detect_errors: bool,
    pub language: Language,
    /// The rules for sessions to leave out, as written.
    pub ignore: Vec<String>,
}

/// What a `Config` holds.
#[verifier::ext_equal]
pub struct ConfigView {
    pub placement: Placement,
    pub design: Seq<char>,
    pub reduce_motion: bool,
    pub show_glyphs: bool,
    pub bar_align: BarAlign,
    pub compact_flock: CompactMode,
    pub dock_x: Option<Num>,
    pub dock_y: Option<Num>,
    pub done_ttl_ms: u64,
    pub session_ttl_ms: u64,
    pub max_sessions: usize,
    pub detect_errors: bool,
    pub language: Language,
    pub ignore: Seq<Seq<char>>,
}

impl View for Config {
    type V = ConfigView;

    open spec fn view(&self) -> ConfigView {
        ConfigView {
            placement: self.placement,
            design: self.design@,
            reduce_motion: self.reduce_motion,
            show_glyphs: self.show_glyphs,
            bar_align: self.bar_align,
            compact_flock: self.compact_flock,
            dock_x: self.dock_x,
            dock_y: self.dock_y,
            done_ttl_ms: self.ttl.done(),
            session_ttl_ms: self.ttl.session(),
            max_sessions: self.max_sessions,
            detect_errors: self.detect_errors,
            language: self.language,
            ignore: texts(self.ignore@),
        }
    }
}

/// Seconds as milliseconds, at most as many as fit.
pub open spec fn millis(secs: u64) -> u64 {
    if secs * 1000 > u64::MAX {
        u64::MAX
    } else {
        (secs * 1000) as u64
    }
}

fn clone_texts(v: &Vec<String>) -> (r: Vec<String>)
    ensures
        texts(r@) == texts(v@),
{
    let mut out: Vec<String> = Vec::new();
    let mut i: usize = 0;
    while i < v.len()
        invariant
            i <= v@.len(),
            out@.len() == i,
            forall|k: int| 0 <= k < i ==> (#[trigger] out@[k])@ == v@[k]@,
        decreases v@.len() - i,
    {
        out.push(v[i].clone());
        i += 1;
    }
    assert(texts(out@) =~= texts(v@));
    out
}

fn to_millis(secs: u64) -> (r: u64)
    ensures
        r == millis(secs),
{
    match secs.checked_mul(1000) {
        Some(ms) => ms,
        None => u64::MAX,
    }
}

impl Config {
    /// How long a finished session stays before it is idle, in milliseconds.
    pub fn done_ttl_ms(&self) -> (r: u64)
        ensures
            r == self@.done_ttl_ms,
    {
        self.ttl.done_ms
    }

    /// How long a session that says nothing stays, in milliseconds.
    pub fn session_ttl_ms(&self) -> (r: u64)
        ensures
            r == self@.session_ttl_ms,
    {
        self.ttl.session_ms
    }

    /// Sets how long a finished session stays.
    pub fn set_done_ttl_secs(&mut self, secs: u64)
        ensures
            final(self)@ == (ConfigView { done_ttl_ms: millis(secs), ..old(self)@ }),
    {
        self.ttl.done_ms = to_millis(secs);
    }

    /// Sets how long a session that says nothing stays.
    pub fn set_session_ttl_secs(&mut self, secs: u64)
        ensures
            final(self)@ == (ConfigView { session_ttl_ms: millis(secs), ..old(self)@ }),
    {
        self.ttl.session_ms = to_millis(secs);
    }
}

/// The built-in settings.
pub open spec fn default_settings() -> ConfigView {
    ConfigView {
        placement: Placement::Bar,
        design: "egg"@,
        reduce_motion: false,
        show_glyphs: true,
        bar_align: BarAlign::Auto,
        compact_flock: CompactMode::Auto,
        dock_x: None,
        dock_y: None,
        done_ttl_ms: 180_000,
        session_ttl_ms: 28_800_000,
        max_sessions: 12,
        detect_errors: false,
        language: Language::Auto,
        ignore: Seq::empty(),
    }
}

/// The settings without a file.
pub fn builtin_default() -> (r: Config)
    ensures
        r@ == default_settings(),
{
    let r = Config {
        placement: Placement::Bar,
        design: "egg".to_owned(),
        reduce_motion: false,
        show_glyphs: true,
        bar_align: BarAlign::Auto,
        compact_flock: CompactMode::Auto,
        dock_x: None,
        dock_y: None,
        ttl: Lifetimes { done_ms: 180_000, session_ms: 28_800_000 },
        max_sessions: 12,
        detect_errors: false,
        language: Language::Auto,
        ignore: Vec::new(),
    };
    assert(texts(r.ignore@) =~= Seq::<Seq<char>>::empty());
    r
}

// ---- the schema -----------------------------------------------------------------------------

/// What values a setting takes.
#[derive(Debug, Clone, Copy, PartialEq, Eq)]
pub enum FieldKind {
    /// One of some values, each with a label.
    Choice(&'static [(&'static str, &'static str)]),
    Bool,
    /// An integer. The range applies to new values only; what a file holds is left alone.
    Int { min: u64, max: u64, unit: &'static str },
    /// The id of a face.
    Face,
    /// A place of the dock, or `auto`.
    Coord,
    /// Rules, one on a line.
    Lines,
}

/// One setting.
#[derive(Debug, Clone, Copy, PartialEq, Eq)]
pub struct FieldSpec {
    pub key: &'static str,
    pub label: &'static str,
    pub kind: FieldKind,
    pub help: &'static str,
}

/// What a `FieldKind` holds.
pub enum KindView {
    Choice(Seq<(Seq<char>, Seq<char>)>),
    Bool,
    Int { min: u64, max: u64, unit: Seq<char> },
    Face,
    Coord,
    Lines,
}

/// What a `FieldSpec` holds.
pub struct FieldView {
    pub key: Seq<char>,
    pub label: Seq<char>,
    pub kind: KindView,
    pub help: Seq<char>,
}

impl View for FieldKind {
    type V = KindView;

    open spec fn view(&self) -> KindView {
        match *self {
            FieldKind::Choice(c) => KindView::Choice(
                Seq::new(c@.len(), |i: int| (c@[i].0@, c@[i].1@)),
            ),
            FieldKind::Bool => KindView::Bool,
            FieldKind::Int { min, max, unit } => KindView::Int { min, max, unit: unit@ },
            FieldKind::Face => KindView::Face,
            FieldKind::Coord => KindView::Coord,
            FieldKind::Lines => KindView::Lines,
        }
    }
}

impl View for FieldSpec {
    type V = FieldView;

    open spec fn view(&self) -> FieldView {
        FieldView {
            key: self.key@,
            label: self.label@,
            kind: self.kind@,
            help: self.help@,
        }
    }
}

/// One row of the schema.
pub open spec fn row(key: Seq<char>, label: Seq<char>, kind: KindView, help: Seq<char>) -> FieldView {
    FieldView { key, label, kind, help }
}

/// All settings.
#[verifier::opaque]
pub open spec fn schema() -> Seq<FieldView> {
    seq![
        row(
            "placement"@,
            "配置"@,
            KindView::Choice(seq![("bar"@, "メニューバー"@), ("dock"@, "ドック（画面下）"@)]),
            "生き物をメニューバーに出すか、画面下のパネルに出すか。"@,
        ),
        row(
            "design"@,
            "生き物"@,
            KindView::Face,
            "顔は faces/*.toml から来る。自分で作った顔もここに出る。"@,
        ),
        row("reduce_motion"@, "動きを減らす"@, KindView::Bool, "アニメーションを止める。"@),
        row("show_glyphs"@, "記号を表示"@, KindView::Bool, "状態記号（› ! ⋯ z ✓ ×）を出す。"@),
        row(
            "bar_align"@,
            "帯の寄せ"@,
            KindView::Choice(
                seq![
                    ("auto"@, "自動（ノッチを避ける）"@),
                    ("center"@, "中央"@),
                    ("left-of-notch"@, "ノッチの左"@),
                    ("right-of-notch"@, "ノッチの右"@),
                ],
            ),
            "メニューバー配置のときの横位置。center はノッチ機だと隠れる。"@,
        ),
        row(
            "compact_flock"@,
            "群れを縮める"@,
            KindView::Choice(
                seq![
                    ("auto"@, "入り切らなければ縮める"@),
                    ("always"@, "常に縮める"@),
                    ("never"@, "縮めない"@),
                ],
            ),
            "セッションが増えて帯に入り切らなくなったときの振る舞い。"@,
        ),
        row(
            "done_ttl_secs"@,
            "完了 → アイドル"@,
            KindView::Int { min: 0, max: 86_400, unit: "秒"@ },
            "完了状態がアイドルへ変わるまでの時間。"@,
        ),
        row(
            "session_ttl_secs"@,
            "セッションの保険 TTL"@,
            KindView::Int { min: 60, max: 604_800, unit: "秒"@ },
            "これだけ無更新なら消す。死んだセッションは pid で先に消えるので保険。"@,
        ),
        row(
            "max_sessions"@,
            "同時に出す最大数"@,
            KindView::Int { min: 1, max: 64, unit: "匹"@ },
            "これを超えた分は直近に動いたセッションが優先される。"@,
        ),
        row(
            "detect_errors"@,
            "transcript でもエラー検出"@,
            KindView::Bool,
            "Stop のたびに transcript の末尾を読む補助手段。既定は off。"@,
        ),
        row(
            "dock_x"@,
            "dock の x（中心）"@,
            KindView::Coord,
            "ドラッグで決まる。auto で画面下部中央へ戻る。"@,
        ),
        row(
            "dock_y"@,
            "dock の y（下端）"@,
            KindView::Coord,
            "ドラッグで決まる。auto で画面下部中央へ戻る。"@,
        ),
        row(
            "language"@,
            "言語"@,
            KindView::Choice(
                seq![("auto"@, "OS に合わせる"@), ("ja"@, "日本語"@), ("en"@, "English"@)],
            ),
            "設定・ビルダー・ホバーカードの言語。診断は英語のまま。"@,
        ),
        row(
            "ignore"@,
            "一覧から外す"@,
            KindView::Lines,
            "1 行に 1 条件。作業ディレクトリに当たったセッションを一覧から外す。"@,
        ),
    ]
}

/// What the rows of a list hold.
pub open spec fn field_views(v: Seq<FieldSpec>) -> Seq<FieldView> {
    Seq::new(v.len(), |i: int| v[i]@)
}

/// All settings, in the order in which they are shown.
pub fn fields() -> (r: &'static [FieldSpec])
    ensures
        field_views(r@) == schema(),
{
    proof {
        reveal(schema);
    }
    let r: &'static [FieldSpec] = &[
        FieldSpec {
            key: "placement",
            label: "配置",
            kind: FieldKind::Choice(
                &[("bar", "メニューバー"), ("dock", "ドック（画面下）")],
            ),
            help: "生き物をメニューバーに出すか、画面下のパネルに出すか。",
        },
        FieldSpec {
            key: "design",
            label: "生き物",
            kind: FieldKind::Face,
            help: "顔は faces/*.toml から来る。自分で作った顔もここに出る。",
        },
        FieldSpec {
            key: "reduce_motion",
            label: "動きを減らす",
            kind: FieldKind::Bool,
            help: "アニメーションを止める。",
        },
        FieldSpec {
            key: "show_glyphs",
            label: "記号を表示",
            kind: FieldKind::Bool,
            help: "状態記号（› ! ⋯ z ✓ ×）を出す。",
        },
        FieldSpec {
            key: "bar_align",
            label: "帯の寄せ",
            kind: FieldKind::Choice(
                &[
                    ("auto", "自動（ノッチを避ける）"),
                    ("center", "中央"),
                    ("left-of-notch", "ノッチの左"),
                    ("right-of-notch", "ノッチの右"),
                ],
            ),
            help: "メニューバー配置のときの横位置。center はノッチ機だと隠れる。",
        },
        FieldSpec {
            key: "compact_flock",
            label: "群れを縮める",
            kind: FieldKind::Choice(
                &[
                    ("auto", "入り切らなければ縮める"),
                    ("always", "常に縮める"),
                    ("never", "縮めない"),
                ],
            ),
            help: "セッションが増えて帯に入り切らなくなったときの振る舞い。",
        },
        FieldSpec {
            key: "done_ttl_secs",
            label: "完了 → アイドル",
            kind: FieldKind::Int { min: 0, max: 86_400, unit: "秒" },
            help: "完了状態がアイドルへ変わるまでの時間。",
        },
        FieldSpec {
            key: "session_ttl_secs",
            label: "セッションの保険 TTL",
            kind: FieldKind::Int { min: 60, max: 604_800, unit: "秒" },
            help: "これだけ無更新なら消す。死んだセッションは pid で先に消えるので保険。",
        },
        FieldSpec {
            key: "max_sessions",
            label: "同時に出す最大数",
            kind: FieldKind::Int { min: 1, max: 64, unit: "匹" },
            help: "これを超えた分は直近に動いたセッションが優先される。",
        },
        FieldSpec {
            key: "detect_errors",
            label: "transcript でもエラー検出",
            kind: FieldKind::Bool,
            help: "Stop のたびに transcript の末尾を読む補助手段。既定は off。",
        },
        FieldSpec {
            key: "dock_x",
            label: "dock の x（中心）",
            kind: FieldKind::Coord,
            help: "ドラッグで決まる。auto で画面下部中央へ戻る。",
        },
        FieldSpec {
            key: "dock_y",
            label: "dock の y（下端）",
            kind: FieldKind::Coord,
            help: "ドラッグで決まる。auto で画面下部中央へ戻る。",
        },
        FieldSpec {
            key: "language",
            label: "言語",
            kind: FieldKind::Choice(
                &[("auto", "OS に合わせる"), ("ja", "日本語"), ("en", "English")],
            ),
            help: "設定・ビルダー・ホバーカードの言語。診断は英語のまま。",
        },
        FieldSpec {
            key: "ignore",
            label: "一覧から外す",
            kind: FieldKind::Lines,
            help: "1 行に 1 条件。作業ディレクトリに当たったセッションを一覧から外す。",
        },
    ];
    assert(field_views(r@)[0].kind->Choice_0 =~= schema()[0].kind->Choice_0);
    assert(field_views(r@)[4].kind->Choice_0 =~= schema()[4].kind->Choice_0);
    assert(field_views(r@)[5].kind->Choice_0 =~= schema()[5].kind->Choice_0);
    assert(field_views(r@)[12].kind->Choice_0 =~= schema()[12].kind->Choice_0);
    assert(field_views(r@) =~= schema());
    r
}

/// The index of the first row with this key, or the number of rows if there is none.
pub open spec fn row_index(rows: Seq<FieldView>, key: Seq<char>) -> int
    decreases rows.len(),
{
    if rows.len() == 0 || rows[0].key == key {
        0
    } else {
        1 + row_index(rows.drop_first(), key)
    }
}

/// The setting with this key.
pub open spec fn schema_row(key: Seq<char>) -> Option<FieldView> {
    let i = row_index(schema(), key);
    if i < schema().len() {
        Some(schema()[i])
    } else {
        None
    }
}

/// The setting with this key.
pub fn field(key: &str) -> (r: Option<&'static FieldSpec>)
    ensures
        r is Some == schema_row(key@) is Some,
        r matches Some(f) ==> Some(f@) == schema_row(key@),
{
    let all = fields();
    let ghost rows = schema();
    let mut i: usize = 0;
    assert(rows.skip(0) =~= rows);
    while i < all.len()
        invariant
            i <= all@.len(),
            rows == field_views(all@),
            rows == schema(),
            i + row_index(rows.skip(i as int), key@) == row_index(rows, key@),
        decreases all@.len() - i,
    {
        assert(rows.skip(i as int)[0] == all@[i as int]@);
        if same(all[i].key, key) {
            return Some(&all[i]);
        }
        assert(rows.skip(i as int).drop_first() =~= rows.skip(i + 1));
        i += 1;
    }
    None
}

// ---- one setting ----------------------------------------------------------------------------

/// The places of the dock as text.
#[derive(Debug, Clone, PartialEq, Eq)]
pub struct CoordText {
    pub x: String,
    pub y: String,
}

/// A flag as text.
pub open spec fn flag_text(b: bool) -> Seq<char> {
    if b {
        "true"@
    } else {
        "false"@
    }
}

/// A place of the dock as text.
pub open spec fn coord_text(v: Option<Num>, text: Seq<char>) -> Seq<char> {
    match v {
        Some(_) => text,
        None => "auto"@,
    }
}

/// The value of the setting with this key, as text.
pub open spec fn value_text(c: ConfigView, key: Seq<char>, coords: CoordText) -> Option<Seq<char>> {
    if key == "placement"@ {
        Some(placement_name(c.placement))
    } else if key == "design"@ {
        Some(c.design)
    } else if key == "reduce_motion"@ {
        Some(flag_text(c.reduce_motion))
    } else if key == "show_glyphs"@ {
        Some(flag_text(c.show_glyphs))
    } else if key == "bar_align"@ {
        Some(align_name(c.bar_align))
    } else if key == "compact_flock"@ {
        Some(compact_name(c.compact_flock))
    } else if key == "done_ttl_secs"@ {
        Some(decimal((c.done_ttl_ms / 1000) as nat))
    } else if key == "session_ttl_secs"@ {
        Some(decimal((c.session_ttl_ms / 1000) as nat))
    } else if key == "max_sessions"@ {
        Some(decimal(c.max_sessions as nat))
    } else if key == "detect_errors"@ {
        Some(flag_text(c.detect_errors))
    } else if key == "dock_x"@ {
        Some(coord_text(c.dock_x, coords.x@))
    } else if key == "dock_y"@ {
        Some(coord_text(c.dock_y, coords.y@))
    } else if key == "language"@ {
        Some(language_name(c.language))
    } else if key == "ignore"@ {
        Some(separated(c.ignore, "\n"@))
    } else {
        None
    }
}

fn flag(b: bool) -> (r: &'static str)
    ensures
        r@ == flag_text(b),
{
    if b {
        "true"
    } else {
        "false"
    }
}

fn coord(v: Option<Num>, text: &str) -> (r: String)
    ensures
        r@ == coord_text(v, text@),
{
    match v {
        Some(_) => text.to_owned(),
        None => "auto".to_owned(),
    }
}

/// The value of the setting with this key, as text that `set_field` takes. `coords` are the
/// places of the dock as text, for those that are set.
pub fn field_value(cfg: &Config, key: &str, coords: &CoordText) -> (r: Option<String>)
    ensures
        opt_text(r) == value_text(cfg@, key@, *coords),
{
    if same(key, "placement") {
        Some(cfg.placement.as_str().to_owned())
    } else if same(key, "design") {
        Some(cfg.design.clone())
    } else if same(key, "reduce_motion") {
        Some(flag(cfg.reduce_motion).to_owned())
    } else if same(key, "show_glyphs") {
        Some(flag(cfg.show_glyphs).to_owned())
    } else if same(key, "bar_align") {
        Some(cfg.bar_align.as_str().to_owned())
    } else if same(key, "compact_flock") {
        Some(cfg.compact_flock.as_str().to_owned())
    } else if same(key, "done_ttl_secs") {
        Some(decimal_text(cfg.ttl.done_ms / 1000))
    } else if same(key, "session_ttl_secs") {
        Some(decimal_text(cfg.ttl.session_ms / 1000))
    } else if same(key, "max_sessions") {
        Some(decimal_text(cfg.max_sessions as u64))
    } else if same(key, "detect_errors") {
        Some(flag(cfg.detect_errors).to_owned())
    } else if same(key, "dock_x") {
        Some(coord(cfg.dock_x, coords.x.as_str()))
    } else if same(key, "dock_y") {
        Some(coord(cfg.dock_y, coords.y.as_str()))
    } else if same(key, "language") {
        Some(cfg.language.as_str().to_owned())
    } else if same(key, "ignore") {
        Some(join_with(&cfg.ignore, "\n"))
    } else {
        None
    }
}

/// Whether a text is decimal digits only.
pub open spec fn all_digits(s: Seq<char>) -> bool {
    forall|i: int| 0 <= i < s.len() ==> '0' <= #[trigger] s[i] <= '9'
}

/// The number that digits give.
pub open spec fn digits_value(s: Seq<char>) -> nat
    decreases s.len(),
{
    if s.len() == 0 {
        0
    } else {
        (digits_value(s.drop_last()) * 10 + (s.last() as u32 - 0x30)) as nat
    }
}

/// A text without the plus sign that it may begin with.
pub open spec fn without_plus(s: Seq<char>) -> Seq<char> {
    if s.len() > 0 && s[0] == '+' {
        s.skip(1)
    } else {
        s
    }
}

/// The unsigned number of 64 bits that a text gives, with white space around it.
pub open spec fn unsigned(s: Seq<char>) -> Option<u64> {
    let d = without_plus(trimmed(s));
    if d.len() == 0 || !all_digits(d) || digits_value(d) > u64::MAX {
        None
    } else {
        Some(digits_value(d) as u64)
    }
}

fn parse_unsigned(s: &str) -> (r: Option<u64>)
    ensures
        r == unsigned(s@),
{
    let t = trim_chars(&to_chars(s));
    let from: usize = if t.len() > 0 && t[0] == '+' {
        1
    } else {
        0
    };
    let ghost d = without_plus(trimmed(s@));
    assert(d =~= t@.skip(from as int));
    if from == t.len() {
        return None;
    }
    let mut n: u64 = 0;
    let mut over = false;
    let mut i: usize = from;
    assert(d.take(0) =~= Seq::<char>::empty());
    while i < t.len()
        invariant
            from <= i <= t@.len(),
            d == t@.skip(from as int),
            d == without_plus(trimmed(s@)),
            all_digits(d.take(i - from)),
            over == (digits_value(d.take(i - from)) > u64::MAX),
            !over ==> n == digits_value(d.take(i - from)),
        decreases t@.len() - i,
    {
        let c = t[i];
        let ghost k = i - from;
        assert(d[k] == c);
        assert(d.take(k + 1).drop_last() =~= d.take(k));
        assert(d.take(k + 1).last() == c);
        if !('0' <= c && c <= '9') {
            assert(!all_digits(d));
            return None;
        }
        let v: u64 = (c as u32 - 0x30) as u64;
        assert(digits_value(d.take(k + 1)) == digits_value(d.take(k)) * 10 + v);
        if !over {
            match n.checked_mul(10) {
                Some(ten) => match ten.checked_add(v) {
                    Some(sum) => {
                        n = sum;
                    },
                    None => {
                        over = true;
                    },
                },
                None => {
                    over = true;
                },
            }
        }
        assert(all_digits(d.take(k + 1))) by {
            assert forall|j: int| 0 <= j < k + 1 implies '0' <= #[trigger] d.take(k + 1)[j]
                <= '9' by {
                if j < k {
                    assert(d.take(k)[j] == d.take(k + 1)[j]);
                }
            }
        }
        i += 1;
    }
    assert(d.take(d.len() as int) =~= d);
    if over {
        None
    } else {
        Some(n)
    }
}

/// The flag that a text gives.
pub open spec fn flag_of(v: Seq<char>) -> Result<bool, Seq<char>> {
    if v == "true"@ {
        Ok(true)
    } else if v == "false"@ {
        Ok(false)
    } else {
        Err("expected \"true\" or \"false\", got "@ + debug_text(v))
    }
}

/// What a result with a text as its error holds.
pub open spec fn text_error<T>(r: Result<T, String>) -> Result<T, Seq<char>> {
    match r {
        Ok(v) => Ok(v),
        Err(e) => Err(e@),
    }
}

/// The flag that a text gives.
pub fn parse_bool(v: &str) -> (r: Result<bool, String>)
    ensures
        text_error(r) == flag_of(v@),
{
    if same(v, "true") {
        Ok(true)
    } else if same(v, "false") {
        Ok(false)
    } else {
        Err(join2("expected \"true\" or \"false\", got ", quoted(v).as_str()))
    }
}

/// The integer that a text gives for a setting. The schema gives the range.
pub open spec fn int_of(key: Seq<char>, v: Seq<char>) -> Result<u64, Seq<char>> {
    match unsigned(v) {
        None => Err("expected an integer, got "@ + debug_text(v)),
        Some(n) => match schema_row(key) {
            Some(FieldView { kind: KindView::Int { min, max, unit }, .. }) => if n < min || n
                > max {
                Err(
                    key + " は "@ + decimal(min as nat) + "〜"@ + decimal(max as nat) + unit
                        + " の範囲にしてください（got "@ + decimal(n as nat) + "）"@,
                )
            } else {
                Ok(n)
            },
            _ => Ok(n),
        },
    }
}

/// The integer that a text gives for a setting.
pub fn parse_int(key: &str, v: &str) -> (r: Result<u64, String>)
    ensures
        text_error(r) == int_of(key@, v@),
{
    let n: u64 = match parse_unsigned(v) {
        Some(n) => n,
        None => {
            return Err(join2("expected an integer, got ", quoted(v).as_str()));
        },
    };
    if let Some(f) = field(key) {
        if let FieldKind::Int { min, max, unit } = f.kind {
            if n < min || n > max {
                let mut e = join3(key, " は ", decimal_text(min).as_str());
                e.append("〜");
                e.append(decimal_text(max).as_str());
                e.append(unit);
                e.append(" の範囲にしてください（got ");
                e.append(decimal_text(n).as_str());
                e.append("）");
                return Err(e);
            }
        }
    }
    Ok(n)
}

/// The place that a text gives for the dock. `number` is the number that the text gives without
/// the white space around it.
pub open spec fn coord_of(v: Seq<char>, number: Option<Num>) -> Result<Option<Num>, Seq<char>> {
    let t = trimmed(v);
    if t == "auto"@ || t.len() == 0 {
        Ok(None)
    } else {
        match number {
            Some(n) => if finite(n) {
                Ok(Some(n))
            } else {
                Err(
                    "expected a finite number or \"auto\", got "@ + debug_text(t)
                        + "（nan / inf は使えない）"@,
                )
            },
            None => Err("expected a number or \"auto\", got "@ + debug_text(t)),
        }
    }
}

/// The place that a text gives for the dock. `auto` and nothing mean the usual place. `number`
/// is the number that the text gives without the white space around it.
pub fn parse_coord(v: &str, number: Option<Num>) -> (r: Result<Option<Num>, String>)
    ensures
        text_error(r) == coord_of(v@, number),
{
    let t = trim(v);
    if same(t.as_str(), "auto") || t.as_str().is_empty() {
        return Ok(None);
    }
    match number {
        Some(n) => if n.is_finite() {
            Ok(Some(n))
        } else {
            Err(
                join3(
                    "expected a finite number or \"auto\", got ",
                    quoted(t.as_str()).as_str(),
                    "（nan / inf は使えない）",
                ),
            )
        },
        None => Err(join2("expected a number or \"auto\", got ", quoted(t.as_str()).as_str())),
    }
}

/// That a placement is unknown.
pub open spec fn placement_error(v: Seq<char>) -> Seq<char> {
    "invalid placement: "@ + debug_text(v) + " (want \"bar\" | \"dock\")"@
}

/// That an alignment is unknown.
pub open spec fn align_error(v: Seq<char>) -> Seq<char> {
    "invalid bar_align: "@ + debug_text(v)
        + " (want \"auto\" | \"center\" | \"left-of-notch\" | \"right-of-notch\")"@
}

/// That a mode is unknown.
pub open spec fn compact_error(v: Seq<char>) -> Seq<char> {
    "invalid compact_flock: "@ + debug_text(v) + " (want \"auto\" | \"always\" | \"never\")"@
}

/// That a language is unknown.
pub open spec fn language_error(v: Seq<char>) -> Seq<char> {
    "invalid language: "@ + debug_text(v) + " (want \"auto\" | \"ja\" | \"en\")"@
}

fn language_from(v: &str) -> (r: Result<Language, String>)
    ensures
        text_error(r) == (match language_named(v@) {
            Some(l) => Ok::<Language, Seq<char>>(l),
            None => Err(language_error(v@)),
        }),
{
    match Language::from_str(v) {
        Some(l) => Ok(l),
        None => Err(
            join3(
                "invalid language: ",
                quoted(v).as_str(),
                " (want \"auto\" | \"ja\" | \"en\")",
            ),
        ),
    }
}

/// The pieces without the white space around them.
pub open spec fn trimmed_each(pieces: Seq<Seq<char>>) -> Seq<Seq<char>> {
    Seq::new(pieces.len(), |i: int| trimmed(pieces[i]))
}

/// The rules in a text, one on a line; blank lines are none.
pub open spec fn rules_in(v: Seq<char>) -> Seq<Seq<char>> {
    non_empty(trimmed_each(split(v, '\n')))
}

/// The rules in a text, one on a line.
pub fn parse_rules(v: &str) -> (r: Vec<String>)
    ensures
        texts(r@) == rules_in(v@),
{
    let pieces = split_chars(&to_chars(v), '\n');
    let mut out: Vec<Vec<char>> = Vec::new();
    let mut i: usize = 0;
    while i < pieces.len()
        invariant
            i <= pieces@.len(),
            out@.len() == i,
            forall|k: int| 0 <= k < i ==> (#[trigger] out@[k])@ == trimmed(pieces@[k]@),
        decreases pieces@.len() - i,
    {
        out.push(trim_chars(&pieces[i]));
        i += 1;
    }
    assert(rows(out@) =~= trimmed_each(split(v@, '\n')));
    to_strings(&drop_empty(out))
}

fn placement_from(v: &str) -> (r: Result<Placement, String>)
    ensures
        text_error(r) == (match placement_named(v@) {
            Some(p) => Ok::<Placement, Seq<char>>(p),
            None => Err(placement_error(v@)),
        }),
{
    match Placement::from_str(v) {
        Some(p) => Ok(p),
        None => Err(
            join3("invalid placement: ", quoted(v).as_str(), " (want \"bar\" | \"dock\")"),
        ),
    }
}

fn align_from(v: &str) -> (r: Result<BarAlign, String>)
    ensures
        text_error(r) == (match align_named(v@) {
            Some(a) => Ok::<BarAlign, Seq<char>>(a),
            None => Err(align_error(v@)),
        }),
{
    match BarAlign::from_str(v) {
        Some(a) => Ok(a),
        None => Err(
            join3(
                "invalid bar_align: ",
                quoted(v).as_str(),
                " (want \"auto\" | \"center\" | \"left-of-notch\" | \"right-of-notch\")",
            ),
        ),
    }
}

fn compact_from(v: &str) -> (r: Result<CompactMode, String>)
    ensures
        text_error(r) == (match compact_named(v@) {
            Some(m) => Ok::<CompactMode, Seq<char>>(m),
            None => Err(compact_error(v@)),
        }),
{
    match CompactMode::from_str(v) {
        Some(m) => Ok(m),
        None => Err(
            join3(
                "invalid compact_flock: ",
                quoted(v).as_str(),
                " (want \"auto\" | \"always\" | \"never\")",
            ),
        ),
    }
}

/// The settings with a new value for the one with this key.
pub open spec fn with_field(
    c: ConfigView,
    key: Seq<char>,
    v: Seq<char>,
    faces: Seq<Arc<FaceSpec>>,
    number: Option<Num>,
) -> Result<ConfigView, Seq<char>> {
    if key == "placement"@ {
        match placement_named(v) {
            Some(placement) => Ok(ConfigView { placement, ..c }),
            None => Err(placement_error(v)),
        }
    } else if key == "design"@ {
        if has_face(faces, v) {
            Ok(ConfigView { design: v, ..c })
        } else {
            Err(
                "invalid design: "@ + debug_text(v) + " (使える顔: "@ + separated(
                    ids_of(faces),
                    ", "@,
                ) + ")"@,
            )
        }
    } else if key == "reduce_motion"@ {
        match flag_of(v) {
            Ok(reduce_motion) => Ok(ConfigView { reduce_motion, ..c }),
            Err(e) => Err(e),
        }
    } else if key == "show_glyphs"@ {
        match flag_of(v) {
            Ok(show_glyphs) => Ok(ConfigView { show_glyphs, ..c }),
            Err(e) => Err(e),
        }
    } else if key == "bar_align"@ {
        match align_named(v) {
            Some(bar_align) => Ok(ConfigView { bar_align, ..c }),
            None => Err(align_error(v)),
        }
    } else if key == "compact_flock"@ {
        match compact_named(v) {
            Some(compact_flock) => Ok(ConfigView { compact_flock, ..c }),
            None => Err(compact_error(v)),
        }
    } else if key == "done_ttl_secs"@ {
        match int_of(key, v) {
            Ok(n) => Ok(ConfigView { done_ttl_ms: millis(n), ..c }),
            Err(e) => Err(e),
        }
    } else if key == "session_ttl_secs"@ {
        match int_of(key, v) {
            Ok(n) => Ok(ConfigView { session_ttl_ms: millis(n), ..c }),
            Err(e) => Err(e),
        }
    } else if key == "max_sessions"@ {
        match int_of(key, v) {
            Ok(n) => Ok(ConfigView { max_sessions: n as usize, ..c }),
            Err(e) => Err(e),
        }
    } else if key == "detect_errors"@ {
        match flag_of(v) {
            Ok(detect_errors) => Ok(ConfigView { detect_errors, ..c }),
            Err(e) => Err(e),
        }
    } else if key == "dock_x"@ {
        match coord_of(v, number) {
            Ok(dock_x) => Ok(ConfigView { dock_x, ..c }),
            Err(e) => Err(e),
        }
    } else if key == "dock_y"@ {
        match coord_of(v, number) {
            Ok(dock_y) => Ok(ConfigView { dock_y, ..c }),
            Err(e) => Err(e),
        }
    } else if key == "language"@ {
        match language_named(v) {
            Some(language) => Ok(ConfigView { language, ..c }),
            None => Err(language_error(v)),
        }
    } else if key == "ignore"@ {
        Ok(ConfigView { ignore: rules_in(v), ..c })
    } else {
        Err("unknown config key: "@ + debug_text(key))
    }
}

fn design_error(v: &str, faces: &Registry) -> (r: String)
    ensures
        r@ == "invalid design: "@ + debug_text(v@) + " (使える顔: "@ + separated(
            ids_of(faces@.faces),
            ", "@,
        ) + ")"@,
{
    let mut e = join3("invalid design: ", quoted(v).as_str(), " (使える顔: ");
    e.append(faces.id_list().as_str());
    e.append(")");
    e
}

/// Gives the setting with this key a new value. A face must exist: whoever sets one is there to
/// mend a slip. `number` is the number that `value` gives without the white space around it; it
/// matters for the places of the dock only. On an error nothing changes.
pub fn set_field(
    cfg: &mut Config,
    key: &str,
    value: &str,
    faces: &Registry,
    number: Option<Num>,
) -> (r: Result<(), String>)
    ensures
        match with_field(old(cfg)@, key@, value@, faces@.faces, number) {
            Ok(c) => r is Ok && final(cfg)@ == c,
            Err(e) => r is Err && r->Err_0@ == e && *final(cfg) == *old(cfg),
        },
{
    if same(key, "placement") {
        match placement_from(value) {
            Ok(p) => cfg.placement = p,
            Err(e) => return Err(e),
        }
    } else if same(key, "design") {
        if faces.get(value).is_none() {
            return Err(design_error(value, faces));
        }
        cfg.design = value.to_owned();
    } else if same(key, "reduce_motion") {
        match parse_bool(value) {
            Ok(b) => cfg.reduce_motion = b,
            Err(e) => return Err(e),
        }
    } else if same(key, "show_glyphs") {
        match parse_bool(value) {
            Ok(b) => cfg.show_glyphs = b,
            Err(e) => return Err(e),
        }
    } else if same(key, "bar_align") {
        match align_from(value) {
            Ok(a) => cfg.bar_align = a,
            Err(e) => return Err(e),
        }
    } else if same(key, "compact_flock") {
        match compact_from(value) {
            Ok(m) => cfg.compact_flock = m,
            Err(e) => return Err(e),
        }
    } else if same(key, "done_ttl_secs") {
        match parse_int(key, value) {
            Ok(n) => cfg.set_done_ttl_secs(n),
            Err(e) => return Err(e),
        }
    } else if same(key, "session_ttl_secs") {
        match parse_int(key, value) {
            Ok(n) => cfg.set_session_ttl_secs(n),
            Err(e) => return Err(e),
        }
    } else if same(key, "max_sessions") {
        match parse_int(key, value) {
            Ok(n) => cfg.max_sessions = n as usize,
            Err(e) => return Err(e),
        }
    } else if same(key, "detect_errors") {
        match parse_bool(value) {
            Ok(b) => cfg.detect_errors = b,
            Err(e) => return Err(e),
        }
    } else if same(key, "dock_x") {
        match parse_coord(value, number) {
            Ok(x) => cfg.dock_x = x,
            Err(e) => return Err(e),
        }
    } else if same(key, "dock_y") {
        match parse_coord(value, number) {
            Ok(y) => cfg.dock_y = y,
            Err(e) => return Err(e),
        }
    } else if same(key, "language") {
        match language_from(value) {
            Ok(l) => cfg.language = l,
            Err(e) => return Err(e),
        }
    } else if same(key, "ignore") {
        cfg.ignore = parse_rules(value);
    } else {
        return Err(join2("unknown config key: ", quoted(key).as_str()));
    }
    Ok(())
}

// ---- files ----------------------------------------------------------------------------------

/// The settings as a file has them, with the built-in value for what it leaves out.
#[derive(Debug, Clone, PartialEq, Eq)]
pub struct RawConfig {
    pub placement: String,
    pub design: String,
    pub reduce_motion: bool,
    pub show_glyphs: bool,
    pub bar_align: String,
    pub compact_flock: String,
    pub dock_x: Option<Num>,
    pub dock_y: Option<Num>,
    pub done_ttl_secs: u64,
    pub session_ttl_secs: u64,
    pub max_sessions: usize,
    pub detect_errors: bool,
    pub language: String,
    pub ignore: Vec<String>,
}

/// What a `RawConfig` holds.
#[verifier::ext_equal]
pub struct RawView {
    pub placement: Seq<char>,
    pub design: Seq<char>,
    pub reduce_motion: bool,
    pub show_glyphs: bool,
    pub bar_align: Seq<char>,
    pub compact_flock: Seq<char>,
    pub dock_x: Option<Num>,
    pub dock_y: Option<Num>,
    pub done_ttl_secs: u64,
    pub session_ttl_secs: u64,
    pub max_sessions: usize,
    pub detect_errors: bool,
    pub language: Seq<char>,
    pub ignore: Seq<Seq<char>>,
}

impl View for RawConfig {
    type V = RawView;

    open spec fn view(&self) -> RawView {
        RawView {
            placement: self.placement@,
            design: self.design@,
            reduce_motion: self.reduce_motion,
            show_glyphs: self.show_glyphs,
            bar_align: self.bar_align@,
            compact_flock: self.compact_flock@,
            dock_x: self.dock_x,
            dock_y: self.dock_y,
            done_ttl_secs: self.done_ttl_secs,
            session_ttl_secs: self.session_ttl_secs,
            max_sessions: self.max_sessions,
            detect_errors: self.detect_errors,
            language: self.language@,
            ignore: texts(self.ignore@),
        }
    }
}

/// What a file without a line says.
pub open spec fn default_raw() -> RawView {
    RawView {
        placement: "bar"@,
        design: "egg"@,
        reduce_motion: false,
        show_glyphs: true,
        bar_align: "auto"@,
        compact_flock: "auto"@,
        dock_x: None,
        dock_y: None,
        done_ttl_secs: 180,
        session_ttl_secs: 28_800,
        max_sessions: 12,
        detect_errors: false,
        language: "auto"@,
        ignore: Seq::empty(),
    }
}

impl Default for RawConfig {
    /// What a file without a line says.
    fn default() -> (r: Self)
        ensures
            r@ == default_raw(),
    {
        let r = RawConfig {
            placement: "bar".to_owned(),
            design: "egg".to_owned(),
            reduce_motion: false,
            show_glyphs: true,
            bar_align: "auto".to_owned(),
            compact_flock: "auto".to_owned(),
            dock_x: None,
            dock_y: None,
            done_ttl_secs: 180,
            session_ttl_secs: 28_800,
            max_sessions: 12,
            detect_errors: false,
            language: "auto".to_owned(),
            ignore: Vec::new(),
        };
        assert(texts(r.ignore@) =~= Seq::<Seq<char>>::empty());
        r
    }
}

/// Whether a place of the dock can be used.
pub open spec fn usable_coord(v: Option<Num>) -> bool {
    v matches Some(n) ==> finite(n)
}

/// That a place of the dock cannot be used.
pub open spec fn coord_error(key: Seq<char>, v: Option<Num>) -> Seq<char> {
    "invalid "@ + key + ": "@ + special_text(v->0) + "（有限の数値であること）"@
}

/// Checks a place of the dock: the window would break with a number that is not finite.
pub fn validate_dock_coord(key: &str, v: Option<Num>) -> (r: Result<Option<Num>, String>)
    ensures
        text_error(r) == if usable_coord(v) {
            Ok(v)
        } else {
            Err(coord_error(key@, v))
        },
{
    if let Some(n) = v {
        if !n.is_finite() {
            let mut e = join3("invalid ", key, ": ");
            e.append(n.special());
            e.append("（有限の数値であること）");
            return Err(e);
        }
    }
    Ok(v)
}

/// The settings that a file gives, or what is wrong with the first that is wrong.
pub open spec fn settings_of(raw: RawView) -> Result<ConfigView, Seq<char>> {
    if placement_named(raw.placement) is None {
        Err(placement_error(raw.placement))
    } else if !valid_id(raw.design) {
        Err(
            "invalid design: "@ + debug_text(raw.design)
                + " (顔の id は英小文字・数字・ハイフンだけで、先頭は英数字、32 文字以内。組込みは "@
                + choices() + ")"@,
        )
    } else if align_named(raw.bar_align) is None {
        Err(align_error(raw.bar_align))
    } else if compact_named(raw.compact_flock) is None {
        Err(compact_error(raw.compact_flock))
    } else if !usable_coord(raw.dock_x) {
        Err(coord_error("dock_x"@, raw.dock_x))
    } else if !usable_coord(raw.dock_y) {
        Err(coord_error("dock_y"@, raw.dock_y))
    } else if language_named(raw.language) is None {
        Err(language_error(raw.language))
    } else {
        Ok(
            ConfigView {
                placement: placement_named(raw.placement)->0,
                design: raw.design,
                reduce_motion: raw.reduce_motion,
                show_glyphs: raw.show_glyphs,
                bar_align: align_named(raw.bar_align)->0,
                compact_flock: compact_named(raw.compact_flock)->0,
                dock_x: raw.dock_x,
                dock_y: raw.dock_y,
                done_ttl_ms: millis(raw.done_ttl_secs),
                session_ttl_ms: millis(raw.session_ttl_secs),
                max_sessions: raw.max_sessions,
                detect_errors: raw.detect_errors,
                language: language_named(raw.language)->0,
                ignore: raw.ignore,
            },
        )
    }
}

/// What a result with settings holds.
pub open spec fn loaded(r: Result<Config, String>) -> Result<ConfigView, Seq<char>> {
    match r {
        Ok(c) => Ok(c@),
        Err(e) => Err(e@),
    }
}

/// The settings that a file gives. Of the face only the form of its id is checked: whether it
/// exists is not known yet.
pub fn validate_and_build(raw: &RawConfig) -> (r: Result<Config, String>)
    ensures
        loaded(r) == settings_of(raw@),
{
    let placement = match placement_from(raw.placement.as_str()) {
        Ok(p) => p,
        Err(e) => return Err(e),
    };
    if !is_valid_id(raw.design.as_str()) {
        let mut e = join3(
            "invalid design: ",
            quoted(raw.design.as_str()).as_str(),
            " (顔の id は英小文字・数字・ハイフンだけで、先頭は英数字、32 文字以内。組込みは ",
        );
        e.append(design_choices().as_str());
        e.append(")");
        return Err(e);
    }
    let bar_align = match align_from(raw.bar_align.as_str()) {
        Ok(a) => a,
        Err(e) => return Err(e),
    };
    let compact_flock = match compact_from(raw.compact_flock.as_str()) {
        Ok(m) => m,
        Err(e) => return Err(e),
    };
    let dock_x = match validate_dock_coord("dock_x", raw.dock_x) {
        Ok(x) => x,
        Err(e) => return Err(e),
    };
    let dock_y = match validate_dock_coord("dock_y", raw.dock_y) {
        Ok(y) => y,
        Err(e) => return Err(e),
    };
    let language = match language_from(raw.language.as_str()) {
        Ok(l) => l,
        Err(e) => return Err(e),
    };
    Ok(
        Config {
            placement,
            design: raw.design.clone(),
            reduce_motion: raw.reduce_motion,
            show_glyphs: raw.show_glyphs,
            bar_align,
            compact_flock,
            dock_x,
            dock_y,
            ttl: Lifetimes {
                done_ms: to_millis(raw.done_ttl_secs),
                session_ms: to_millis(raw.session_ttl_secs),
            },
            max_sessions: raw.max_sessions,
            detect_errors: raw.detect_errors,
            language,
            ignore: clone_texts(&raw.ignore),
        },
    )
}

/// The rules of the settings, for sessions to leave out. A rule that is wrong is dropped on its
/// own; the second part of the result says why.
pub fn ignore_rules(c: &Config, home: &str) -> (r: (IgnoreRules, Vec<String>))
    ensures
        r.0@ == accepted(c@.ignore, home@),
        texts(r.1@) == refused(c@.ignore, home@),
{
    let mut lines: Vec<&str> = Vec::new();
    let mut i: usize = 0;
    while i < c.ignore.len()
        invariant
            i <= c.ignore@.len(),
            lines@.len() == i,
            forall|k: int| 0 <= k < i ==> (#[trigger] lines@[k])@ == c.ignore@[k]@,
        decreases c.ignore@.len() - i,
    {
        lines.push(c.ignore[i].as_str());
        i += 1;
    }
    assert(lines_of(lines@) =~= texts(c.ignore@));
    IgnoreRules::parse_lines_in(lines.as_slice(), home)
}

/// What came of reading a file.
#[derive(Debug, Clone, PartialEq, Eq)]
pub enum ConfigRead {
    /// There is no such file.
    Missing,
    /// It could not be read.
    Failed { path: String, error: String },
    /// It is no TOML, or not of this shape.
    Malformed { error: String },
    Parsed(RawConfig),
}

/// The settings after reading a file, or why there are none.
pub open spec fn settings_read(read: ConfigRead) -> Result<ConfigView, Seq<char>> {
    match read {
        ConfigRead::Missing => Ok(default_settings()),
        ConfigRead::Failed { path, error } => Err("cannot read "@ + path@ + ": "@ + error@),
        ConfigRead::Malformed { error } => Err("config parse error: "@ + error@),
        ConfigRead::Parsed(raw) => settings_of(raw@),
    }
}

/// The settings after reading a file. Only a missing file means the built-in settings.
pub fn load(read: &ConfigRead) -> (r: Result<Config, String>)
    ensures
        loaded(r) == settings_read(*read),
{
    match read {
        ConfigRead::Missing => Ok(builtin_default()),
        ConfigRead::Failed { path, error } => {
            let mut e = join3("cannot read ", path.as_str(), ": ");
            e.append(error.as_str());
            Err(e)
        },
        ConfigRead::Malformed { error } => Err(join2("config parse error: ", error.as_str())),
        ConfigRead::Parsed(raw) => validate_and_build(raw),
    }
}

/// A line that sets a string.
pub open spec fn name_line(key: Seq<char>, name: Seq<char>, remark: Seq<char>) -> Line {
    Line::Setting { key, value: in_quotes(name), remark }
}

/// A line that sets something else, without a remark.
pub open spec fn value_line(key: Seq<char>, value: Seq<char>) -> Line {
    Line::Setting { key, value, remark: Seq::empty() }
}

/// The settings that are always written.
pub open spec fn usual_lines(c: ConfigView) -> Seq<Line> {
    seq![
        name_line("placement"@, placement_name(c.placement), PLACEMENT_REMARK@),
        name_line("design"@, c.design, DESIGN_REMARK@ + choices()),
        value_line("reduce_motion"@, flag_text(c.reduce_motion)),
        value_line("show_glyphs"@, flag_text(c.show_glyphs)),
        name_line("bar_align"@, align_name(c.bar_align), ALIGN_REMARK@),
        name_line("compact_flock"@, compact_name(c.compact_flock), COMPACT_REMARK@),
        value_line("done_ttl_secs"@, decimal((c.done_ttl_ms / 1000) as nat)),
        value_line("session_ttl_secs"@, decimal((c.session_ttl_ms / 1000) as nat)),
        value_line("max_sessions"@, decimal(c.max_sessions as nat)),
        value_line("detect_errors"@, flag_text(c.detect_errors)),
    ]
}

/// What stands behind the placement.
pub const PLACEMENT_REMARK: &'static str = "          # \"bar\" | \"dock\"";

/// What stands behind the face, before the faces of the program.
pub const DESIGN_REMARK: &'static str = "                # ";

/// What stands behind the place in the menu bar.
pub const ALIGN_REMARK: &'static str = "          # \"auto\" | \"center\" | \"left-of-notch\" | \"right-of-notch\"";

/// What stands behind the flock's way to keep together.
pub const COMPACT_REMARK: &'static str = "  # \"auto\"（入り切らなければ縮める）| \"always\" | \"never\"";

/// What stands behind the language.
pub const LANGUAGE_REMARK: &'static str = "          # \"auto\" | \"ja\" | \"en\"";

/// What stands above the place of the dock.
pub const DOCK_REMARK: &'static str = "# dock をドラッグして決めた位置（パネル中心の x / 下端の y、画面左下が原点）。";

/// What stands above the place of the dock, below `DOCK_REMARK`.
pub const DOCK_RESET_REMARK: &'static str = "# 既定の「画面下部中央」へ戻すには、この行を消すか `ccsessions config set dock_x auto`。";

/// The lines about the dock. There are none while it is in its usual place.
pub open spec fn dock_lines(c: ConfigView, coords: CoordText) -> Seq<Line> {
    if c.dock_x is None && c.dock_y is None {
        Seq::empty()
    } else {
        seq![
            Line::Remark(Seq::empty()),
            Line::Remark(DOCK_REMARK@),
            Line::Remark(DOCK_RESET_REMARK@),
        ] + (if c.dock_x is Some {
            seq![value_line("dock_x"@, coords.x@)]
        } else {
            Seq::empty()
        }) + (if c.dock_y is Some {
            seq![value_line("dock_y"@, coords.y@)]
        } else {
            Seq::empty()
        })
    }
}

/// The line about the language. There is none while it is that of the system.
pub open spec fn language_lines(c: ConfigView) -> Seq<Line> {
    match c.language {
        Language::Auto => Seq::empty(),
        l => seq![name_line("language"@, language_name(l), LANGUAGE_REMARK@)],
    }
}

/// The line with the rules. There is none without a rule.
pub open spec fn ignore_lines(c: ConfigView) -> Seq<Line> {
    if c.ignore.len() == 0 {
        Seq::empty()
    } else {
        seq![value_line("ignore"@, toml_array(c.ignore))]
    }
}

/// The settings as the lines of a file, with remarks that name the choices.
pub open spec fn file_lines(c: ConfigView, coords: CoordText) -> Seq<Line> {
    usual_lines(c) + language_lines(c) + ignore_lines(c) + dock_lines(c, coords)
}

/// The settings as a file.
pub open spec fn file_text(c: ConfigView, coords: CoordText) -> Seq<char> {
    lines_text(file_lines(c, coords))
}

fn array_text(v: &Vec<String>) -> (r: String)
    ensures
        r@ == toml_array(texts(v@)),
{
    let mut all: Vec<String> = Vec::new();
    let mut i: usize = 0;
    while i < v.len()
        invariant
            i <= v@.len(),
            all@.len() == i,
            forall|k: int| 0 <= k < i ==> (#[trigger] all@[k])@ == toml_string(v@[k]@),
        decreases v@.len() - i,
    {
        all.push(quote(v[i].as_str()));
        i += 1;
    }
    assert(texts(all@) =~= toml_strings(texts(v@)));
    join3("[", join_with(&all, ", ").as_str(), "]")
}

fn push_name(out: &mut String, key: &str, name: &str, remark: &str)
    ensures
        final(out)@ == old(out)@ + line_text(name_line(key@, name@, remark@)),
{
    push_setting(out, key, join3("\"", name, "\"").as_str(), remark);
}

fn push_value(out: &mut String, key: &str, value: &str)
    ensures
        final(out)@ == old(out)@ + line_text(value_line(key@, value@)),
{
    proof {
        reveal_strlit("");
        assert(""@ =~= Seq::<char>::empty());
    }
    push_setting(out, key, value, "");
}

fn push_usual(out: &mut String, c: &Config)
    requires
        old(out)@.len() == 0,
    ensures
        final(out)@ == lines_text(usual_lines(c@)),
{
    let ghost all = usual_lines(c@);
    assert(out@ =~= lines_text(all.take(0)));
    push_name(out, "placement", c.placement.as_str(), PLACEMENT_REMARK);
    proof {
        lemma_next_line(all, 0);
    }
    push_name(
        out,
        "design",
        c.design.as_str(),
        join2(DESIGN_REMARK, design_choices().as_str()).as_str(),
    );
    proof {
        lemma_next_line(all, 1);
    }
    push_value(out, "reduce_motion", flag(c.reduce_motion));
    proof {
        lemma_next_line(all, 2);
    }
    push_value(out, "show_glyphs", flag(c.show_glyphs));
    proof {
        lemma_next_line(all, 3);
    }
    push_name(out, "bar_align", c.bar_align.as_str(), ALIGN_REMARK);
    proof {
        lemma_next_line(all, 4);
    }
    push_name(out, "compact_flock", c.compact_flock.as_str(), COMPACT_REMARK);
    proof {
        lemma_next_line(all, 5);
    }
    push_value(out, "done_ttl_secs", decimal_text(c.ttl.done_ms / 1000).as_str());
    proof {
        lemma_next_line(all, 6);
    }
    push_value(out, "session_ttl_secs", decimal_text(c.ttl.session_ms / 1000).as_str());
    proof {
        lemma_next_line(all, 7);
    }
    push_value(out, "max_sessions", decimal_text(c.max_sessions as u64).as_str());
    proof {
        lemma_next_line(all, 8);
    }
    push_value(out, "detect_errors", flag(c.detect_errors));
    proof {
        lemma_next_line(all, 9);
        assert(all.take(10) =~= all);
    }
}

proof fn lemma_next_line(lines: Seq<Line>, i: int)
    requires
        0 <= i < lines.len(),
    ensures
        lines_text(lines.take(i + 1)) == lines_text(lines.take(i)) + line_text(lines[i]),
{
    lemma_one_line_more(lines.take(i), lines[i]);
    assert(lines.take(i + 1) =~= lines.take(i).push(lines[i]));
}

/// The settings as a file. `coords` are the places of the dock as TOML writes numbers, for those
/// that are set.
pub fn render_toml(c: &Config, coords: &CoordText) -> (r: String)
    ensures
        r@ == file_text(c@, *coords),
{
    let mut out = String::new();
    push_usual(&mut out, c);
    let ghost mut lines = usual_lines(c@);
    match c.language {
        Language::Auto => {},
        l => {
            push_name(&mut out, "language", l.as_str(), LANGUAGE_REMARK);
            proof {
                let line = name_line("language"@, language_name(l), LANGUAGE_REMARK@);
                lemma_one_line_more(lines, line);
                lines = lines.push(line);
            }
        },
    }
    assert(lines =~= usual_lines(c@) + language_lines(c@));
    if c.ignore.len() > 0 {
        push_value(&mut out, "ignore", array_text(&c.ignore).as_str());
        proof {
            let line = value_line("ignore"@, toml_array(c@.ignore));
            lemma_one_line_more(lines, line);
            lines = lines.push(line);
        }
    }
    let ghost before_the_dock = usual_lines(c@) + language_lines(c@) + ignore_lines(c@);
    assert(lines =~= before_the_dock);
    if c.dock_x.is_some() || c.dock_y.is_some() {
        proof {
            reveal_strlit("");
            assert(""@ =~= Seq::<char>::empty());
        }
        push_remark(&mut out, "");
        push_remark(&mut out, DOCK_REMARK);
        push_remark(&mut out, DOCK_RESET_REMARK);
        proof {
            let blank = Line::Remark(Seq::empty());
            lemma_one_line_more(lines, blank);
            lines = lines.push(blank);
            lemma_one_line_more(lines, Line::Remark(DOCK_REMARK@));
            lines = lines.push(Line::Remark(DOCK_REMARK@));
            lemma_one_line_more(lines, Line::Remark(DOCK_RESET_REMARK@));
            lines = lines.push(Line::Remark(DOCK_RESET_REMARK@));
        }
        if c.dock_x.is_some() {
            push_value(&mut out, "dock_x", coords.x.as_str());
            proof {
                lemma_one_line_more(lines, value_line("dock_x"@, coords.x@));
                lines = lines.push(value_line("dock_x"@, coords.x@));
            }
        }
        if c.dock_y.is_some() {
            push_value(&mut out, "dock_y", coords.y.as_str());
            proof {
                lemma_one_line_more(lines, value_line("dock_y"@, coords.y@));
                lines = lines.push(value_line("dock_y"@, coords.y@));
            }
        }
    }
    assert(lines =~= file_lines(c@, *coords));
    out
}

// ---- laws -----------------------------------------------------------------------------------

/// Every choice is found under its name, and under no other.
pub proof fn law_choices_round_trip(
    p: Placement,
    a: BarAlign,
    m: CompactMode,
    l: Language,
    s: Seq<char>,
)
    ensures
        language_named(language_name(l)) == Some(l),
        language_named(s) matches Some(k) ==> s == language_name(k),
        placement_named(placement_name(p)) == Some(p),
        align_named(align_name(a)) == Some(a),
        compact_named(compact_name(m)) == Some(m),
        placement_named(s) matches Some(q) ==> s == placement_name(q),
        align_named(s) matches Some(b) ==> s == align_name(b),
        compact_named(s) matches Some(n) ==> s == compact_name(n),
{
    reveal_strlit("bar");
    reveal_strlit("dock");
    reveal_strlit("auto");
    reveal_strlit("center");
    reveal_strlit("left-of-notch");
    reveal_strlit("right-of-notch");
    reveal_strlit("always");
    reveal_strlit("never");
    assert("bar"@.len() == 3 && "dock"@.len() == 4);
    assert("auto"@.len() == 4 && "center"@.len() == 6 && "left-of-notch"@.len() == 13
        && "right-of-notch"@.len() == 14);
    assert("always"@.len() == 6 && "never"@.len() == 5);
    reveal_strlit("ja");
    reveal_strlit("en");
    assert("ja"@.len() == 2 && "ja"@[0] == 'j' && "en"@.len() == 2 && "en"@[0] == 'e');
}

proof fn lemma_keys()
    ensures
        forall|i: int, j: int|
            0 <= i < j < 14 ==> (#[trigger] schema()[i]).key != (#[trigger] schema()[j]).key,
{
    reveal(schema);
    reveal_strlit("placement");
    reveal_strlit("design");
    reveal_strlit("reduce_motion");
    reveal_strlit("show_glyphs");
    reveal_strlit("bar_align");
    reveal_strlit("compact_flock");
    reveal_strlit("done_ttl_secs");
    reveal_strlit("session_ttl_secs");
    reveal_strlit("max_sessions");
    reveal_strlit("detect_errors");
    reveal_strlit("dock_x");
    reveal_strlit("dock_y");
    assert("placement"@.len() == 9 && "placement"@[0] == 'p');
    assert("bar_align"@.len() == 9 && "bar_align"@[0] == 'b');
    assert("design"@.len() == 6 && "design"@[1] == 'e');
    assert("dock_x"@.len() == 6 && "dock_x"@[1] == 'o' && "dock_x"@[5] == 'x');
    assert("dock_y"@.len() == 6 && "dock_y"@[1] == 'o' && "dock_y"@[5] == 'y');
    assert("reduce_motion"@.len() == 13 && "reduce_motion"@[0] == 'r');
    assert("compact_flock"@.len() == 13 && "compact_flock"@[0] == 'c');
    assert("done_ttl_secs"@.len() == 13 && "done_ttl_secs"@[1] == 'o');
    assert("done_ttl_secs"@[0] == 'd');
    assert("detect_errors"@.len() == 13 && "detect_errors"@[1] == 'e');
    assert("detect_errors"@[0] == 'd');
    assert("show_glyphs"@.len() == 11);
    assert("session_ttl_secs"@.len() == 16);
    assert("max_sessions"@.len() == 12);
    reveal_strlit("language");
    reveal_strlit("ignore");
    assert("language"@.len() == 8);
    assert("ignore"@.len() == 6 && "ignore"@[1] == 'g');
}

proof fn lemma_row_index(rows: Seq<FieldView>, key: Seq<char>)
    ensures
        0 <= row_index(rows, key) <= rows.len(),
        row_index(rows, key) < rows.len() ==> rows[row_index(rows, key)].key == key,
        forall|k: int| 0 <= k < row_index(rows, key) ==> (#[trigger] rows[k]).key != key,
    decreases rows.len(),
{
    if rows.len() > 0 && rows[0].key != key {
        let rest = rows.drop_first();
        lemma_row_index(rest, key);
        assert forall|k: int| 0 <= k < row_index(rows, key) implies (#[trigger] rows[k]).key
            != key by {
            if k > 0 {
                assert(rows[k] == rest[k - 1]);
            }
        }
    }
}

/// Each key stands in the schema once, and its row is what the schema says of it.
pub proof fn law_a_key_has_one_row(i: int)
    requires
        0 <= i < schema().len(),
    ensures
        schema_row(schema()[i].key) == Some(schema()[i]),
{
    reveal(schema);
    lemma_keys();
    lemma_row_index(schema(), schema()[i].key);
}

/// The settings of the schema are those that can be read, and a key that is not in the schema is
/// refused.
pub proof fn law_the_schema_is_complete(
    c: ConfigView,
    key: Seq<char>,
    v: Seq<char>,
    faces: Seq<Arc<FaceSpec>>,
    number: Option<Num>,
    coords: CoordText,
)
    ensures
        value_text(c, key, coords) is Some == schema_row(key) is Some,
        schema_row(key) is None ==> with_field(c, key, v, faces, number) == Err::<
            ConfigView,
            Seq<char>,
        >("unknown config key: "@ + debug_text(key)),
{
    reveal(schema);
    lemma_row_index(schema(), key);
    let i = row_index(schema(), key);
    if schema_row(key) is None {
        assert forall|k: int| 0 <= k < 14 implies (#[trigger] schema()[k]).key != key by {}
        assert(schema()[0].key != key && schema()[1].key != key && schema()[2].key != key);
        assert(schema()[3].key != key && schema()[4].key != key && schema()[5].key != key);
        assert(schema()[6].key != key && schema()[7].key != key && schema()[8].key != key);
        assert(schema()[9].key != key && schema()[10].key != key && schema()[11].key != key);
        assert(schema()[12].key != key && schema()[13].key != key);
    } else {
        assert(schema()[i].key == key);
    }
}

proof fn lemma_decimal(n: nat)
    ensures
        decimal(n).len() > 0,
        all_digits(decimal(n)),
        digits_value(decimal(n)) == n,
    decreases n,
{
    let t = decimal(n);
    if n < 10 {
        assert(t.drop_last() =~= Seq::<char>::empty());
        assert(digits_value(t.drop_last()) == 0);
        assert(t.last() == digit(n));
    } else {
        lemma_decimal(n / 10);
        assert(t.drop_last() =~= decimal(n / 10));
        assert(t.last() == digit(n % 10));
        assert forall|i: int| 0 <= i < t.len() implies '0' <= #[trigger] t[i] <= '9' by {
            if i < t.len() - 1 {
                assert(t[i] == decimal(n / 10)[i]);
            }
        }
    }
}

/// An integer is read back from its decimal digits.
pub proof fn law_integers_round_trip(n: u64)
    ensures
        unsigned(decimal(n as nat)) == Some(n),
{
    let t = decimal(n as nat);
    lemma_decimal(n as nat);
    assert('0' <= t[0] <= '9' && '0' <= t[t.len() - 1] <= '9');
    lemma_nothing_to_trim(t);
}

/// Whether a duration came from seconds.
pub open spec fn whole_seconds(ms: u64) -> bool {
    ms % 1000 == 0
}

/// Whether the value that a setting has could be set as well: the face exists, and integers are
/// in the range that the schema gives.
pub open spec fn settable(c: ConfigView, key: Seq<char>, faces: Seq<Arc<FaceSpec>>) -> bool {
    &&& key == "design"@ ==> has_face(faces, c.design)
    &&& key == "done_ttl_secs"@ ==> whole_seconds(c.done_ttl_ms) && c.done_ttl_ms <= 86_400_000
    &&& key == "session_ttl_secs"@ ==> whole_seconds(c.session_ttl_ms) && 60_000
        <= c.session_ttl_ms <= 604_800_000
    &&& key == "max_sessions"@ ==> 1 <= c.max_sessions <= 64
    &&& key == "ignore"@ ==> forall|i: int|
        0 <= i < c.ignore.len() ==> is_rule_line(#[trigger] c.ignore[i])
}

/// Whether a rule stands on one line, without white space around it.
pub open spec fn is_rule_line(rule: Seq<char>) -> bool {
    rule.len() > 0 && trimmed(rule) == rule && !rule.contains('\n')
}

proof fn lemma_split_push(a: Seq<char>, b: Seq<char>)
    requires
        !b.contains('\n'),
    ensures
        split(a + seq!['\n'] + b, '\n') == split(a, '\n').push(b),
    decreases b.len(),
{
    let s = a + seq!['\n'] + b;
    lemma_split_pieces(a, '\n');
    if b.len() == 0 {
        assert(s.drop_last() =~= a);
        assert(s.last() == '\n');
        assert(b =~= Seq::<char>::empty());
    } else {
        let shorter = b.drop_last();
        assert(b.contains(b[b.len() - 1]));
        assert forall|c: char| #[trigger] shorter.contains(c) implies b.contains(c) by {
            let i = choose|i: int| 0 <= i < shorter.len() && shorter[i] == c;
            assert(b[i] == c);
        }
        lemma_split_push(a, shorter);
        assert(s.drop_last() =~= a + seq!['\n'] + shorter);
        assert(s.last() == b.last());
        let before = split(a, '\n').push(shorter);
        assert(before.drop_last() =~= split(a, '\n'));
        assert(shorter.push(b.last()) =~= b);
    }
}

proof fn lemma_rules_split(rules: Seq<Seq<char>>)
    requires
        rules.len() > 0,
        forall|i: int| 0 <= i < rules.len() ==> is_rule_line(#[trigger] rules[i]),
    ensures
        split(separated(rules, "\n"@), '\n') == rules,
    decreases rules.len(),
{
    reveal_strlit("\n");
    assert("\n"@ =~= seq!['\n']);
    let last = rules.last();
    assert(is_rule_line(rules[rules.len() - 1]));
    if rules.len() == 1 {
        lemma_split_single(last, '\n');
        assert(separated(rules, "\n"@) =~= last);
        assert(seq![last] =~= rules);
    } else {
        let shorter = rules.drop_last();
        assert forall|i: int| 0 <= i < shorter.len() implies is_rule_line(
            #[trigger] shorter[i],
        ) by {
            assert(shorter[i] == rules[i]);
        }
        lemma_rules_split(shorter);
        lemma_split_push(separated(shorter, "\n"@), last);
        assert(shorter.push(last) =~= rules);
    }
}

proof fn lemma_all_kept(pieces: Seq<Seq<char>>)
    requires
        forall|i: int| 0 <= i < pieces.len() ==> (#[trigger] pieces[i]).len() > 0,
    ensures
        non_empty(pieces) == pieces,
    decreases pieces.len(),
{
    if pieces.len() > 0 {
        let shorter = pieces.drop_last();
        assert forall|i: int| 0 <= i < shorter.len() implies (#[trigger] shorter[i]).len() > 0 by {
            assert(shorter[i] == pieces[i]);
        }
        lemma_all_kept(shorter);
        assert(pieces[pieces.len() - 1].len() > 0);
        assert(shorter.push(pieces.last()) =~= pieces);
    }
}

/// Rules are read back from a text with one on each line.
pub proof fn law_rules_round_trip(rules: Seq<Seq<char>>)
    requires
        forall|i: int| 0 <= i < rules.len() ==> is_rule_line(#[trigger] rules[i]),
    ensures
        rules_in(separated(rules, "\n"@)) == rules,
{
    if rules.len() == 0 {
        let one = trimmed_each(split(Seq::empty(), '\n'));
        assert(one.len() == 1 && one[0].len() == 0);
        assert(one.drop_last() =~= Seq::<Seq<char>>::empty());
        assert(non_empty(one) =~= non_empty(one.drop_last()));
        assert(non_empty(one.drop_last()) =~= rules);
    } else {
        lemma_rules_split(rules);
        assert(trimmed_each(rules) =~= rules) by {
            assert forall|i: int| 0 <= i < rules.len() implies trimmed_each(rules)[i]
                == #[trigger] rules[i] by {
                assert(is_rule_line(rules[i]));
            }
        }
        assert forall|i: int| 0 <= i < rules.len() implies (#[trigger] rules[i]).len() > 0 by {
            assert(is_rule_line(rules[i]));
        }
        lemma_all_kept(rules);
    }
}

/// The rules of a file decide nothing else: with other rules the file gives the same settings
/// otherwise, and fails for the same reason if it fails.
pub proof fn law_rules_do_not_touch_the_other_settings(raw: RawView, rules: Seq<Seq<char>>)
    ensures
        match settings_of(raw) {
            Ok(c) => settings_of(RawView { ignore: rules, ..raw }) == Ok::<ConfigView, Seq<char>>(
                ConfigView { ignore: rules, ..c },
            ),
            Err(e) => settings_of(RawView { ignore: rules, ..raw }) == Err::<ConfigView, Seq<char>>(
                e,
            ),
        },
{
}

/// Whether a text and a number stand for the same place of the dock.
pub open spec fn shows_coord(v: Option<Num>, text: Seq<char>, number: Option<Num>) -> bool {
    v matches Some(n) ==> finite(n) && number == Some(n) && trimmed(text).len() > 0 && trimmed(text)
        != "auto"@
}

/// Whether a key stands in the schema.
pub open spec fn is_key(key: Seq<char>) -> bool {
    ||| key == "placement"@
    ||| key == "design"@
    ||| key == "reduce_motion"@
    ||| key == "show_glyphs"@
    ||| key == "bar_align"@
    ||| key == "compact_flock"@
    ||| key == "done_ttl_secs"@
    ||| key == "session_ttl_secs"@
    ||| key == "max_sessions"@
    ||| key == "detect_errors"@
    ||| key == "dock_x"@
    ||| key == "dock_y"@
    ||| key == "language"@
    ||| key == "ignore"@
}

proof fn lemma_is_key(key: Seq<char>)
    requires
        schema_row(key) is Some,
    ensures
        is_key(key),
{
    reveal(schema);
    lemma_row_index(schema(), key);
    assert(schema()[row_index(schema(), key)].key == key);
}

proof fn lemma_ranges()
    ensures
        schema_row("done_ttl_secs"@) matches Some(f) && f.kind matches KindView::Int {
            min,
            max,
            ..
        } && min == 0 && max == 86_400,
        schema_row("session_ttl_secs"@) matches Some(f) && f.kind matches KindView::Int {
            min,
            max,
            ..
        } && min == 60 && max == 604_800,
        schema_row("max_sessions"@) matches Some(f) && f.kind matches KindView::Int {
            min,
            max,
            ..
        } && min == 1 && max == 64,
{
    reveal(schema);
    law_a_key_has_one_row(6);
    law_a_key_has_one_row(7);
    law_a_key_has_one_row(8);
}

proof fn lemma_flag_is_read_back(b: bool)
    ensures
        flag_of(flag_text(b)) == Ok::<bool, Seq<char>>(b),
{
    reveal_strlit("true");
    reveal_strlit("false");
    assert("true"@.len() == 4 && "false"@.len() == 5);
}

proof fn lemma_coord_is_read_back(v: Option<Num>, text: Seq<char>, number: Option<Num>)
    requires
        shows_coord(v, text, number),
    ensures
        coord_of(coord_text(v, text), number) == Ok::<Option<Num>, Seq<char>>(v),
{
    reveal_strlit("auto");
    assert("auto"@[0] == 'a' && "auto"@.last() == 'o');
    lemma_nothing_to_trim("auto"@);
}

/// The settings `d` with the value of one setting taken from `c`.
pub open spec fn with_value_of(d: ConfigView, c: ConfigView, key: Seq<char>) -> ConfigView {
    if key == "placement"@ {
        ConfigView { placement: c.placement, ..d }
    } else if key == "design"@ {
        ConfigView { design: c.design, ..d }
    } else if key == "reduce_motion"@ {
        ConfigView { reduce_motion: c.reduce_motion, ..d }
    } else if key == "show_glyphs"@ {
        ConfigView { show_glyphs: c.show_glyphs, ..d }
    } else if key == "bar_align"@ {
        ConfigView { bar_align: c.bar_align, ..d }
    } else if key == "compact_flock"@ {
        ConfigView { compact_flock: c.compact_flock, ..d }
    } else if key == "done_ttl_secs"@ {
        ConfigView { done_ttl_ms: c.done_ttl_ms, ..d }
    } else if key == "session_ttl_secs"@ {
        ConfigView { session_ttl_ms: c.session_ttl_ms, ..d }
    } else if key == "max_sessions"@ {
        ConfigView { max_sessions: c.max_sessions, ..d }
    } else if key == "detect_errors"@ {
        ConfigView { detect_errors: c.detect_errors, ..d }
    } else if key == "dock_x"@ {
        ConfigView { dock_x: c.dock_x, ..d }
    } else if key == "dock_y"@ {
        ConfigView { dock_y: c.dock_y, ..d }
    } else if key == "language"@ {
        ConfigView { language: c.language, ..d }
    } else if key == "ignore"@ {
        ConfigView { ignore: c.ignore, ..d }
    } else {
        d
    }
}

/// A setting takes the value that other settings show for it, and the rest stays. For a place of
/// the dock this needs a text that gives its number.
pub proof fn law_shown_values_are_taken(
    d: ConfigView,
    c: ConfigView,
    key: Seq<char>,
    faces: Seq<Arc<FaceSpec>>,
    number: Option<Num>,
    coords: CoordText,
)
    requires
        schema_row(key) is Some,
        settable(c, key, faces),
        key == "dock_x"@ ==> shows_coord(c.dock_x, coords.x@, number),
        key == "dock_y"@ ==> shows_coord(c.dock_y, coords.y@, number),
    ensures
        value_text(c, key, coords) matches Some(v) && with_field(d, key, v, faces, number) == Ok::<
            ConfigView,
            Seq<char>,
        >(with_value_of(d, c, key)),
{
    lemma_is_key(key);
    law_choices_round_trip(c.placement, c.bar_align, c.compact_flock, c.language, key);
    if key == "placement"@ || key == "design"@ {
    } else if key == "reduce_motion"@ {
        lemma_flag_is_read_back(c.reduce_motion);
    } else if key == "show_glyphs"@ {
        lemma_flag_is_read_back(c.show_glyphs);
    } else if key == "bar_align"@ || key == "compact_flock"@ {
    } else if key == "done_ttl_secs"@ {
        lemma_ranges();
        law_integers_round_trip((c.done_ttl_ms / 1000) as u64);
    } else if key == "session_ttl_secs"@ {
        lemma_ranges();
        law_integers_round_trip((c.session_ttl_ms / 1000) as u64);
    } else if key == "max_sessions"@ {
        lemma_ranges();
        law_integers_round_trip(c.max_sessions as u64);
    } else if key == "detect_errors"@ {
        lemma_flag_is_read_back(c.detect_errors);
    } else if key == "dock_x"@ {
        lemma_coord_is_read_back(c.dock_x, coords.x@, number);
    } else if key == "dock_y"@ {
        lemma_coord_is_read_back(c.dock_y, coords.y@, number);
    } else if key == "ignore"@ {
        law_rules_round_trip(c.ignore);
    }
}

/// Setting a setting to the value that it has changes nothing. For a place of the dock this
/// takes a text that gives its number.
pub proof fn law_current_values_are_taken(
    c: ConfigView,
    key: Seq<char>,
    faces: Seq<Arc<FaceSpec>>,
    number: Option<Num>,
    coords: CoordText,
)
    requires
        schema_row(key) is Some,
        settable(c, key, faces),
        key == "dock_x"@ ==> shows_coord(c.dock_x, coords.x@, number),
        key == "dock_y"@ ==> shows_coord(c.dock_y, coords.y@, number),
    ensures
        value_text(c, key, coords) matches Some(v) && with_field(c, key, v, faces, number) == Ok::<
            ConfigView,
            Seq<char>,
        >(c),
{
    law_shown_values_are_taken(c, c, key, faces, number, coords);
}

/// The settings `b` after the first `n` settings of the schema, one after the other, were set to
/// the value that they have in `c`, or why one of them was refused. `number` reads numbers.
pub open spec fn filled(
    b: ConfigView,
    c: ConfigView,
    n: nat,
    faces: Seq<Arc<FaceSpec>>,
    number: spec_fn(Seq<char>) -> Option<Num>,
    coords: CoordText,
) -> Result<ConfigView, Seq<char>>
    decreases n,
{
    if n == 0 {
        Ok(b)
    } else {
        match filled(b, c, (n - 1) as nat, faces, number, coords) {
            Ok(d) => {
                let key = schema()[n - 1].key;
                let v = value_text(c, key, coords)->0;
                with_field(d, key, v, faces, number(v))
            },
            Err(e) => Err(e),
        }
    }
}

/// The settings `b` with the first `n` settings of the schema taken from `c`.
spec fn mixed(b: ConfigView, c: ConfigView, n: nat) -> ConfigView {
    ConfigView {
        placement: if n > 0 { c.placement } else { b.placement },
        design: if n > 1 { c.design } else { b.design },
        reduce_motion: if n > 2 { c.reduce_motion } else { b.reduce_motion },
        show_glyphs: if n > 3 { c.show_glyphs } else { b.show_glyphs },
        bar_align: if n > 4 { c.bar_align } else { b.bar_align },
        compact_flock: if n > 5 { c.compact_flock } else { b.compact_flock },
        done_ttl_ms: if n > 6 { c.done_ttl_ms } else { b.done_ttl_ms },
        session_ttl_ms: if n > 7 { c.session_ttl_ms } else { b.session_ttl_ms },
        max_sessions: if n > 8 { c.max_sessions } else { b.max_sessions },
        detect_errors: if n > 9 { c.detect_errors } else { b.detect_errors },
        dock_x: if n > 10 { c.dock_x } else { b.dock_x },
        dock_y: if n > 11 { c.dock_y } else { b.dock_y },
        language: if n > 12 { c.language } else { b.language },
        ignore: if n > 13 { c.ignore } else { b.ignore },
    }
}

proof fn lemma_mixed_step(b: ConfigView, c: ConfigView, n: nat)
    requires
        n < 14,
    ensures
        with_value_of(mixed(b, c, n), c, schema()[n as int].key) == mixed(b, c, n + 1),
{
    lemma_keys();
    reveal(schema);
    let key = schema()[n as int].key;
    assert forall|i: int| 0 <= i < 14 && i != n implies (#[trigger] schema()[i]).key != key by {}
    assert(n != 0 ==> schema()[0].key != key);
    assert(n != 1 ==> schema()[1].key != key);
    assert(n != 2 ==> schema()[2].key != key);
    assert(n != 3 ==> schema()[3].key != key);
    assert(n != 4 ==> schema()[4].key != key);
    assert(n != 5 ==> schema()[5].key != key);
    assert(n != 6 ==> schema()[6].key != key);
    assert(n != 7 ==> schema()[7].key != key);
    assert(n != 8 ==> schema()[8].key != key);
    assert(n != 9 ==> schema()[9].key != key);
    assert(n != 10 ==> schema()[10].key != key);
    assert(n != 11 ==> schema()[11].key != key);
    assert(n != 12 ==> schema()[12].key != key);
    assert(n != 13 ==> schema()[13].key != key);
}

proof fn lemma_filled(
    b: ConfigView,
    c: ConfigView,
    n: nat,
    faces: Seq<Arc<FaceSpec>>,
    number: spec_fn(Seq<char>) -> Option<Num>,
    coords: CoordText,
)
    requires
        n <= 14,
        forall|key: Seq<char>| #[trigger] settable(c, key, faces),
        shows_coord(c.dock_x, coords.x@, number(coords.x@)),
        shows_coord(c.dock_y, coords.y@, number(coords.y@)),
    ensures
        filled(b, c, n, faces, number, coords) == Ok::<ConfigView, Seq<char>>(mixed(b, c, n)),
    decreases n,
{
    if n > 0 {
        let before = (n - 1) as nat;
        lemma_filled(b, c, before, faces, number, coords);
        assert(schema().len() == 14) by {
            reveal(schema);
        }
        law_a_key_has_one_row(n - 1);
        let key = schema()[n - 1].key;
        let v = value_text(c, key, coords)->0;
        assert(settable(c, key, faces));
        lemma_dock_values(c, coords);
        law_shown_values_are_taken(mixed(b, c, before), c, key, faces, number(v), coords);
        lemma_mixed_step(b, c, before);
    }
}

proof fn lemma_dock_values(c: ConfigView, coords: CoordText)
    ensures
        value_text(c, "dock_x"@, coords) == Some(coord_text(c.dock_x, coords.x@)),
        value_text(c, "dock_y"@, coords) == Some(coord_text(c.dock_y, coords.y@)),
{
    lemma_keys();
    reveal(schema);
    assert forall|i: int| 0 <= i < 10 implies (#[trigger] schema()[i]).key != "dock_x"@
        && schema()[i].key != "dock_y"@ by {
        assert(schema()[i].key != schema()[10].key && schema()[i].key != schema()[11].key);
    }
    assert(schema()[10].key != schema()[11].key);
    let x = "dock_x"@;
    let y = "dock_y"@;
    assert(schema()[0].key != x && schema()[1].key != x && schema()[2].key != x);
    assert(schema()[3].key != x && schema()[4].key != x && schema()[5].key != x);
    assert(schema()[6].key != x && schema()[7].key != x && schema()[8].key != x);
    assert(schema()[9].key != x && schema()[9].key != y);
    assert(schema()[0].key != y && schema()[1].key != y && schema()[2].key != y);
    assert(schema()[3].key != y && schema()[4].key != y && schema()[5].key != y);
    assert(schema()[6].key != y && schema()[7].key != y && schema()[8].key != y);
}

/// Settings can be copied: setting every setting, in the order of the schema, to the value that
/// it shows in `c` succeeds and gives `c`, whatever the settings were before. For the places of
/// the dock this takes texts that give their numbers.
pub proof fn law_settings_can_be_copied(
    b: ConfigView,
    c: ConfigView,
    faces: Seq<Arc<FaceSpec>>,
    number: spec_fn(Seq<char>) -> Option<Num>,
    coords: CoordText,
)
    requires
        forall|key: Seq<char>| #[trigger] settable(c, key, faces),
        shows_coord(c.dock_x, coords.x@, number(coords.x@)),
        shows_coord(c.dock_y, coords.y@, number(coords.y@)),
    ensures
        filled(b, c, schema().len(), faces, number, coords) == Ok::<ConfigView, Seq<char>>(c),
        filled(default_settings(), c, schema().len(), faces, number, coords) == Ok::<
            ConfigView,
            Seq<char>,
        >(c),
        forall|n: nat|
            n <= schema().len() ==> #[trigger] filled(b, c, n, faces, number, coords) is Ok,
{
    assert(schema().len() == 14) by {
        reveal(schema);
    }
    lemma_filled(b, c, 14, faces, number, coords);
    lemma_filled(default_settings(), c, 14, faces, number, coords);
    assert forall|n: nat| n <= schema().len() implies #[trigger] filled(
        b,
        c,
        n,
        faces,
        number,
        coords,
    ) is Ok by {
        lemma_filled(b, c, n, faces, number, coords);
    }
}

/// What the schema offers as a choice is accepted.
pub proof fn law_declared_choices_are_accepted(
    c: ConfigView,
    i: int,
    k: int,
    faces: Seq<Arc<FaceSpec>>,
    number: Option<Num>,
)
    requires
        0 <= i < schema().len(),
        schema()[i].kind is Choice,
        0 <= k < schema()[i].kind->Choice_0.len(),
    ensures
        with_field(c, schema()[i].key, schema()[i].kind->Choice_0[k].0, faces, number) is Ok,
{
    reveal(schema);
    lemma_keys();
    assert(i == 0 || i == 4 || i == 5 || i == 12);
}

/// Whether two settings are the same but for the one with this key.
pub open spec fn same_but(c: ConfigView, d: ConfigView, key: Seq<char>) -> bool {
    &&& key == "placement"@ || d.placement == c.placement
    &&& key == "design"@ || d.design == c.design
    &&& key == "reduce_motion"@ || d.reduce_motion == c.reduce_motion
    &&& key == "show_glyphs"@ || d.show_glyphs == c.show_glyphs
    &&& key == "bar_align"@ || d.bar_align == c.bar_align
    &&& key == "compact_flock"@ || d.compact_flock == c.compact_flock
    &&& key == "done_ttl_secs"@ || d.done_ttl_ms == c.done_ttl_ms
    &&& key == "session_ttl_secs"@ || d.session_ttl_ms == c.session_ttl_ms
    &&& key == "max_sessions"@ || d.max_sessions == c.max_sessions
    &&& key == "detect_errors"@ || d.detect_errors == c.detect_errors
    &&& key == "dock_x"@ || d.dock_x == c.dock_x
    &&& key == "dock_y"@ || d.dock_y == c.dock_y
    &&& key == "language"@ || d.language == c.language
    &&& key == "ignore"@ || d.ignore == c.ignore
}

proof fn lemma_values_are_kept(
    c: ConfigView,
    d: ConfigView,
    key: Seq<char>,
    other: Seq<char>,
    coords: CoordText,
)
    requires
        same_but(c, d, key),
        other != key,
    ensures
        value_text(d, other, coords) == value_text(c, other, coords),
{
}

proof fn lemma_one_setting_changes(
    c: ConfigView,
    key: Seq<char>,
    v: Seq<char>,
    faces: Seq<Arc<FaceSpec>>,
    number: Option<Num>,
)
    ensures
        with_field(c, key, v, faces, number) matches Ok(d) ==> same_but(c, d, key),
{
    if key == "placement"@ {
    } else if key == "design"@ {
    } else if key == "reduce_motion"@ {
    } else if key == "show_glyphs"@ {
    } else if key == "bar_align"@ {
    } else if key == "compact_flock"@ {
    } else if key == "done_ttl_secs"@ {
    } else if key == "session_ttl_secs"@ {
    } else if key == "max_sessions"@ {
    } else if key == "detect_errors"@ {
    } else if key == "dock_x"@ {
    } else if key == "dock_y"@ {
    } else if key == "language"@ {
    } else if key == "ignore"@ {
    }
}

/// Setting one setting leaves the others as they are.
pub proof fn law_settings_change_alone(
    c: ConfigView,
    key: Seq<char>,
    v: Seq<char>,
    faces: Seq<Arc<FaceSpec>>,
    number: Option<Num>,
    other: Seq<char>,
    coords: CoordText,
)
    requires
        other != key,
    ensures
        with_field(c, key, v, faces, number) matches Ok(d) ==> same_but(c, d, key) && value_text(
            d,
            other,
            coords,
        ) == value_text(c, other, coords),
{
    lemma_one_setting_changes(c, key, v, faces, number);
    if let Ok(d) = with_field(c, key, v, faces, number) {
        lemma_values_are_kept(c, d, key, other, coords);
    }
}

/// What a file that was written from settings says.
pub open spec fn raw_of(c: ConfigView) -> RawView {
    RawView {
        placement: placement_name(c.placement),
        design: c.design,
        reduce_motion: c.reduce_motion,
        show_glyphs: c.show_glyphs,
        bar_align: align_name(c.bar_align),
        compact_flock: compact_name(c.compact_flock),
        dock_x: c.dock_x,
        dock_y: c.dock_y,
        done_ttl_secs: (c.done_ttl_ms / 1000) as u64,
        session_ttl_secs: (c.session_ttl_ms / 1000) as u64,
        max_sessions: c.max_sessions,
        detect_errors: c.detect_errors,
        language: language_name(c.language),
        ignore: c.ignore,
    }
}

/// Settings are read back from the values that a file holds of them.
pub proof fn law_settings_round_trip(c: ConfigView)
    requires
        valid_id(c.design),
        usable_coord(c.dock_x),
        usable_coord(c.dock_y),
        whole_seconds(c.done_ttl_ms),
        whole_seconds(c.session_ttl_ms),
    ensures
        settings_of(raw_of(c)) == Ok::<ConfigView, Seq<char>>(c),
{
    law_choices_round_trip(c.placement, c.bar_align, c.compact_flock, c.language, c.design);
}

/// Whether a setting of `raw` is what a line of a TOML file says of it: a string, a flag, an
/// integer and an array of strings stand for themselves, and `number` reads numbers.
pub open spec fn takes(
    raw: RawView,
    key: Seq<char>,
    value: Seq<char>,
    number: spec_fn(Seq<char>) -> Option<Num>,
) -> bool {
    &&& key == "placement"@ ==> forall|s: Seq<char>|
        value == #[trigger] toml_string(s) ==> raw.placement == s
    &&& key == "design"@ ==> forall|s: Seq<char>|
        value == #[trigger] toml_string(s) ==> raw.design == s
    &&& key == "reduce_motion"@ ==> forall|b: bool|
        value == #[trigger] flag_text(b) ==> raw.reduce_motion == b
    &&& key == "show_glyphs"@ ==> forall|b: bool|
        value == #[trigger] flag_text(b) ==> raw.show_glyphs == b
    &&& key == "bar_align"@ ==> forall|s: Seq<char>|
        value == #[trigger] toml_string(s) ==> raw.bar_align == s
    &&& key == "compact_flock"@ ==> forall|s: Seq<char>|
        value == #[trigger] toml_string(s) ==> raw.compact_flock == s
    &&& key == "done_ttl_secs"@ ==> forall|n: nat|
        n <= i64::MAX && value == #[trigger] decimal(n) ==> raw.done_ttl_secs == n
    &&& key == "session_ttl_secs"@ ==> forall|n: nat|
        n <= i64::MAX && value == #[trigger] decimal(n) ==> raw.session_ttl_secs == n
    &&& key == "max_sessions"@ ==> forall|n: nat|
        n <= i64::MAX && value == #[trigger] decimal(n) ==> raw.max_sessions == n
    &&& key == "detect_errors"@ ==> forall|b: bool|
        value == #[trigger] flag_text(b) ==> raw.detect_errors == b
    &&& key == "dock_x"@ && number(value) is Some ==> raw.dock_x == number(value)
    &&& key == "dock_y"@ && number(value) is Some ==> raw.dock_y == number(value)
    &&& key == "language"@ ==> forall|s: Seq<char>|
        value == #[trigger] toml_string(s) ==> raw.language == s
    &&& key == "ignore"@ ==> forall|v: Seq<Seq<char>>|
        value == #[trigger] toml_array(v) ==> raw.ignore == v
}

/// Whether the settings of `raw` that no line sets are as in an empty file.
pub open spec fn left_out(raw: RawView, lines: Seq<Line>) -> bool {
    let empty = default_raw();
    &&& !sets(lines, "placement"@) ==> raw.placement == empty.placement
    &&& !sets(lines, "design"@) ==> raw.design == empty.design
    &&& !sets(lines, "reduce_motion"@) ==> raw.reduce_motion == empty.reduce_motion
    &&& !sets(lines, "show_glyphs"@) ==> raw.show_glyphs == empty.show_glyphs
    &&& !sets(lines, "bar_align"@) ==> raw.bar_align == empty.bar_align
    &&& !sets(lines, "compact_flock"@) ==> raw.compact_flock == empty.compact_flock
    &&& !sets(lines, "done_ttl_secs"@) ==> raw.done_ttl_secs == empty.done_ttl_secs
    &&& !sets(lines, "session_ttl_secs"@) ==> raw.session_ttl_secs == empty.session_ttl_secs
    &&& !sets(lines, "max_sessions"@) ==> raw.max_sessions == empty.max_sessions
    &&& !sets(lines, "detect_errors"@) ==> raw.detect_errors == empty.detect_errors
    &&& !sets(lines, "dock_x"@) ==> raw.dock_x == empty.dock_x
    &&& !sets(lines, "dock_y"@) ==> raw.dock_y == empty.dock_y
    &&& !sets(lines, "language"@) ==> raw.language == empty.language
    &&& !sets(lines, "ignore"@) ==> raw.ignore == empty.ignore
}

/// Whether one of the lines sets a key.
pub open spec fn sets(lines: Seq<Line>, key: Seq<char>) -> bool {
    exists|i: int| 0 <= i < lines.len() && line_sets(#[trigger] lines[i], key)
}

/// Whether `raw` is what a reader of TOML makes of a text: of a text that is made of lines that
/// TOML knows, it takes what they say, and the rest is as in an empty file.
pub open spec fn reads_as(
    text: Seq<char>,
    raw: RawView,
    number: spec_fn(Seq<char>) -> Option<Num>,
) -> bool {
    forall|lines: Seq<Line>| #[trigger]
        lines_text(lines) == text && is_toml_file(lines, number) ==> left_out(raw, lines) && forall|
            i: int,
        |
            0 <= i < lines.len() ==> (#[trigger] lines[i] matches Line::Setting {
                key,
                value,
                ..
            } ==> takes(raw, key, value, number))
}

/// Whether a text is a number that `number` reads as the place of the dock, where there is one.
pub open spec fn writes_coord(
    v: Option<Num>,
    text: Seq<char>,
    number: spec_fn(Seq<char>) -> Option<Num>,
) -> bool {
    v is Some ==> number(text) == v
}

proof fn lemma_plain_names(p: Placement, a: BarAlign, m: CompactMode, l: Language)
    ensures
        is_plain(placement_name(p)),
        is_plain(align_name(a)),
        is_plain(compact_name(m)),
        is_plain(language_name(l)),
{
    reveal_strlit("bar");
    reveal_strlit("dock");
    reveal_strlit("auto");
    reveal_strlit("center");
    reveal_strlit("left-of-notch");
    reveal_strlit("right-of-notch");
    reveal_strlit("always");
    reveal_strlit("never");
    reveal_strlit("ja");
    reveal_strlit("en");
}

proof fn lemma_remarks()
    ensures
        is_remark(PLACEMENT_REMARK@),
        is_remark(DESIGN_REMARK@ + choices()),
        is_remark(ALIGN_REMARK@),
        is_remark(COMPACT_REMARK@),
        is_remark(LANGUAGE_REMARK@),
{
    reveal_strlit("          # \"bar\" | \"dock\"");
    assert(PLACEMENT_REMARK@[10] == '#');
    reveal_strlit(
        "          # \"auto\" | \"center\" | \"left-of-notch\" | \"right-of-notch\"",
    );
    assert(ALIGN_REMARK@[10] == '#');
    reveal_strlit("  # \"auto\"（入り切らなければ縮める）| \"always\" | \"never\"");
    assert(COMPACT_REMARK@[2] == '#');
    reveal_strlit("          # \"auto\" | \"ja\" | \"en\"");
    assert(LANGUAGE_REMARK@[10] == '#');
    reveal_strlit("                # ");
    assert(DESIGN_REMARK@[16] == '#');
    lemma_clean_choices();
    lemma_longer_remark(DESIGN_REMARK@, choices());
}

proof fn lemma_dock_remarks()
    ensures
        is_remark(DOCK_REMARK@),
        is_remark(DOCK_RESET_REMARK@),
{
    reveal_strlit(
        "# dock をドラッグして決めた位置（パネル中心の x / 下端の y、画面左下が原点）。",
    );
    assert(DOCK_REMARK@[0] == '#');
    reveal_strlit(
        "# 既定の「画面下部中央」へ戻すには、この行を消すか `ccsessions config set dock_x auto`。",
    );
    assert(DOCK_RESET_REMARK@[0] == '#');
}

proof fn lemma_clean_choices()
    ensures
        is_clean(choices()),
{
    let pieces = Seq::new(4, |i: int| "\""@ + builtin_names()[i] + "\""@);
    reveal_strlit("\"");
    reveal_strlit(" | ");
    reveal_strlit("egg");
    reveal_strlit("round");
    reveal_strlit("squircle");
    reveal_strlit("bean");
    assert forall|i: int| 0 <= i < pieces.len() implies is_clean(#[trigger] pieces[i]) by {
        assert(is_clean(builtin_names()[i]));
        lemma_clean_join("\""@, builtin_names()[i]);
        lemma_clean_join("\""@ + builtin_names()[i], "\""@);
    }
    lemma_clean_separated(pieces, " | "@);
}

proof fn lemma_toml_join(
    a: Seq<Line>,
    b: Seq<Line>,
    number: spec_fn(Seq<char>) -> Option<Num>,
)
    requires
        is_toml_file(a, number),
        is_toml_file(b, number),
        forall|key: Seq<char>| #[trigger] sets(a, key) ==> !sets(b, key),
    ensures
        is_toml_file(a + b, number),
        forall|key: Seq<char>| #[trigger] sets(a + b, key) == (sets(a, key) || sets(b, key)),
{
    let all = a + b;
    assert forall|i: int| 0 <= i < all.len() implies is_toml_line(#[trigger] all[i], number) by {
        if i < a.len() {
            assert(all[i] == a[i]);
        } else {
            assert(all[i] == b[i - a.len()]);
        }
    }
    assert forall|key: Seq<char>| #[trigger] sets(all, key) == (sets(a, key) || sets(b, key)) by {
        if sets(all, key) {
            let i = choose|i: int| 0 <= i < all.len() && line_sets(#[trigger] all[i], key);
            if i < a.len() {
                assert(line_sets(a[i], key));
            } else {
                assert(line_sets(b[i - a.len()], key));
            }
        }
        if sets(a, key) {
            let i = choose|i: int| 0 <= i < a.len() && line_sets(#[trigger] a[i], key);
            assert(line_sets(all[i], key));
        }
        if sets(b, key) {
            let i = choose|i: int| 0 <= i < b.len() && line_sets(#[trigger] b[i], key);
            assert(line_sets(all[i + a.len()], key));
        }
    }
    assert forall|i: int, j: int, key: Seq<char>|
        0 <= i < j < all.len() && #[trigger] line_sets(all[i], key) implies !#[trigger] line_sets(
        all[j],
        key,
    ) by {
        if line_sets(all[j], key) {
            if j < a.len() {
                assert(line_sets(a[i], key) && line_sets(a[j], key));
            } else if i >= a.len() {
                assert(line_sets(b[i - a.len()], key) && line_sets(b[j - a.len()], key));
            } else {
                assert(line_sets(a[i], key) && line_sets(b[j - a.len()], key));
                assert(sets(a, key) && sets(b, key));
            }
        }
    }
}

proof fn lemma_bare_keys()
    ensures
        forall|i: int| 0 <= i < 14 ==> is_bare_key((#[trigger] schema()[i]).key),
{
    reveal(schema);
    reveal_strlit("placement");
    reveal_strlit("design");
    reveal_strlit("reduce_motion");
    reveal_strlit("show_glyphs");
    reveal_strlit("bar_align");
    reveal_strlit("compact_flock");
    reveal_strlit("done_ttl_secs");
    reveal_strlit("session_ttl_secs");
    reveal_strlit("max_sessions");
    reveal_strlit("detect_errors");
    reveal_strlit("dock_x");
    reveal_strlit("dock_y");
    reveal_strlit("language");
    reveal_strlit("ignore");
    assert(is_bare_key("placement"@) && is_bare_key("design"@) && is_bare_key("reduce_motion"@));
    assert(is_bare_key("show_glyphs"@) && is_bare_key("bar_align"@));
    assert(is_bare_key("compact_flock"@) && is_bare_key("done_ttl_secs"@));
    assert(is_bare_key("session_ttl_secs"@) && is_bare_key("max_sessions"@));
    assert(is_bare_key("detect_errors"@) && is_bare_key("dock_x"@) && is_bare_key("dock_y"@));
    assert(is_bare_key("language"@) && is_bare_key("ignore"@));
}

proof fn lemma_plain_id(id: Seq<char>)
    requires
        valid_id(id),
    ensures
        is_plain(id),
{
    assert forall|i: int| 0 <= i < id.len() implies #[trigger] id[i] != '"' && id[i] != '\\'
        && !needs_code(id[i]) by {
        assert(plain_id_char(id[i]) || id[i] == '-');
    }
}

proof fn lemma_usual_lines(c: ConfigView, number: spec_fn(Seq<char>) -> Option<Num>)
    requires
        valid_id(c.design),
        c.max_sessions <= i64::MAX,
    ensures
        is_toml_file(usual_lines(c), number),
        forall|key: Seq<char>| #[trigger]
            sets(usual_lines(c), key) ==> exists|k: int|
                0 <= k < 10 && (#[trigger] schema()[k]).key == key,
{
    let lines = usual_lines(c);
    lemma_keys();
    lemma_bare_keys();
    lemma_remarks();
    lemma_plain_names(c.placement, c.bar_align, c.compact_flock, c.language);
    lemma_plain_id(c.design);
    lemma_plain_string(placement_name(c.placement));
    lemma_plain_string(c.design);
    lemma_plain_string(align_name(c.bar_align));
    lemma_plain_string(compact_name(c.compact_flock));
    assert forall|k: int| 0 <= k < 10 implies line_sets(
        #[trigger] lines[k],
        schema()[k].key,
    ) by {
        reveal(schema);
    }
    assert(is_toml_line(lines[0], number));
    assert(is_toml_line(lines[1], number));
    assert(is_toml_line(lines[2], number));
    assert(is_toml_line(lines[3], number));
    assert(is_toml_line(lines[4], number));
    assert(is_toml_line(lines[5], number));
    assert(is_toml_line(lines[6], number));
    assert(is_toml_line(lines[7], number));
    assert(is_toml_line(lines[8], number));
    assert(is_toml_line(lines[9], number));
    assert forall|i: int, j: int, key: Seq<char>|
        0 <= i < j < lines.len() && #[trigger] line_sets(lines[i], key) implies !#[trigger] line_sets(
        lines[j],
        key,
    ) by {
        assert(line_sets(lines[i], schema()[i].key) && line_sets(lines[j], schema()[j].key));
        assert(schema()[i].key != schema()[j].key);
    }
    assert forall|key: Seq<char>| #[trigger] sets(lines, key) implies exists|k: int|
        0 <= k < 10 && (#[trigger] schema()[k]).key == key by {
        let i = choose|i: int| 0 <= i < lines.len() && line_sets(#[trigger] lines[i], key);
        assert(line_sets(lines[i], schema()[i].key));
        assert(schema()[i].key == key);
    }
}

proof fn lemma_single_line(line: Line, key: Seq<char>, number: spec_fn(Seq<char>) -> Option<Num>)
    requires
        is_toml_line(line, number),
        line_sets(line, key),
    ensures
        is_toml_file(seq![line], number),
        forall|k: Seq<char>| #[trigger] sets(seq![line], k) == (k == key),
{
    let lines = seq![line];
    assert(line_sets(lines[0], key));
    assert forall|k: Seq<char>| #[trigger] sets(lines, k) == (k == key) by {}
}

proof fn lemma_no_line(number: spec_fn(Seq<char>) -> Option<Num>)
    ensures
        is_toml_file(Seq::empty(), number),
        forall|k: Seq<char>| !#[trigger] sets(Seq::empty(), k),
{
}

proof fn lemma_keys_of_optional_lines()
    ensures
        schema()[10].key == "dock_x"@,
        schema()[11].key == "dock_y"@,
        schema()[12].key == "language"@,
        schema()[13].key == "ignore"@,
{
    reveal(schema);
}

proof fn lemma_optional_lines(
    c: ConfigView,
    coords: CoordText,
    number: spec_fn(Seq<char>) -> Option<Num>,
)
    requires
        writes_coord(c.dock_x, coords.x@, number),
        writes_coord(c.dock_y, coords.y@, number),
    ensures
        is_toml_file(language_lines(c), number),
        forall|key: Seq<char>| #[trigger]
            sets(language_lines(c), key) == (key == "language"@ && c.language != Language::Auto),
        is_toml_file(ignore_lines(c), number),
        forall|key: Seq<char>| #[trigger]
            sets(ignore_lines(c), key) == (key == "ignore"@ && c.ignore.len() > 0),
        is_toml_file(dock_lines(c, coords), number),
        forall|key: Seq<char>| #[trigger]
            sets(dock_lines(c, coords), key) == (key == "dock_x"@ && c.dock_x is Some || key
                == "dock_y"@ && c.dock_y is Some),
{
    lemma_no_line(number);
    lemma_bare_keys();
    lemma_keys();
    lemma_keys_of_optional_lines();
    assert(is_bare_key(schema()[10].key) && is_bare_key(schema()[11].key));
    assert(is_bare_key(schema()[12].key) && is_bare_key(schema()[13].key));
    assert(schema()[10].key != schema()[11].key);
    lemma_remarks();
    lemma_dock_remarks();
    if c.language != Language::Auto {
        lemma_plain_names(c.placement, c.bar_align, c.compact_flock, c.language);
        lemma_plain_string(language_name(c.language));
        let line = name_line("language"@, language_name(c.language), LANGUAGE_REMARK@);
        lemma_single_line(line, "language"@, number);
        assert(language_lines(c) == seq![line]);
    }
    if c.ignore.len() > 0 {
        lemma_single_line(value_line("ignore"@, toml_array(c.ignore)), "ignore"@, number);
    }
    if c.dock_x is Some || c.dock_y is Some {
        let head = seq![
            Line::Remark(Seq::empty()),
            Line::Remark(DOCK_REMARK@),
            Line::Remark(DOCK_RESET_REMARK@),
        ];
        assert(is_toml_line(head[0], number));
        assert(is_toml_line(head[1], number));
        assert(is_toml_line(head[2], number));
        assert(is_toml_file(head, number));
        assert forall|key: Seq<char>| !#[trigger] sets(head, key) by {}
        let x = if c.dock_x is Some {
            seq![value_line("dock_x"@, coords.x@)]
        } else {
            Seq::empty()
        };
        let y = if c.dock_y is Some {
            seq![value_line("dock_y"@, coords.y@)]
        } else {
            Seq::empty()
        };
        if c.dock_x is Some {
            lemma_single_line(value_line("dock_x"@, coords.x@), "dock_x"@, number);
        }
        if c.dock_y is Some {
            lemma_single_line(value_line("dock_y"@, coords.y@), "dock_y"@, number);
        }
        lemma_toml_join(head, x, number);
        lemma_toml_join(head + x, y, number);
        assert(dock_lines(c, coords) == head + x + y);
    }
}

proof fn lemma_file_lines(
    c: ConfigView,
    coords: CoordText,
    number: spec_fn(Seq<char>) -> Option<Num>,
)
    requires
        valid_id(c.design),
        c.max_sessions <= i64::MAX,
        writes_coord(c.dock_x, coords.x@, number),
        writes_coord(c.dock_y, coords.y@, number),
    ensures
        is_toml_file(file_lines(c, coords), number),
        sets(file_lines(c, coords), "language"@) == (c.language != Language::Auto),
        sets(file_lines(c, coords), "ignore"@) == (c.ignore.len() > 0),
        sets(file_lines(c, coords), "dock_x"@) == c.dock_x is Some,
        sets(file_lines(c, coords), "dock_y"@) == c.dock_y is Some,
{
    lemma_usual_lines(c, number);
    lemma_optional_lines(c, coords, number);
    lemma_keys();
    lemma_keys_of_optional_lines();
    assert forall|key: Seq<char>| #[trigger] sets(usual_lines(c), key) implies key != "language"@
        && key != "ignore"@ && key != "dock_x"@ && key != "dock_y"@ by {
        let k = choose|k: int| 0 <= k < 10 && (#[trigger] schema()[k]).key == key;
        assert(schema()[k].key != schema()[10].key && schema()[k].key != schema()[11].key);
        assert(schema()[k].key != schema()[12].key && schema()[k].key != schema()[13].key);
    }
    assert(schema()[10].key != schema()[11].key && schema()[10].key != schema()[12].key);
    assert(schema()[10].key != schema()[13].key && schema()[11].key != schema()[12].key);
    assert(schema()[11].key != schema()[13].key && schema()[12].key != schema()[13].key);
    lemma_toml_join(usual_lines(c), language_lines(c), number);
    lemma_toml_join(usual_lines(c) + language_lines(c), ignore_lines(c), number);
    lemma_toml_join(
        usual_lines(c) + language_lines(c) + ignore_lines(c),
        dock_lines(c, coords),
        number,
    );
}

proof fn lemma_line_is_taken(
    c: ConfigView,
    coords: CoordText,
    raw: RawView,
    number: spec_fn(Seq<char>) -> Option<Num>,
    at: int,
    key: Seq<char>,
    value: Seq<char>,
)
    requires
        reads_as(file_text(c, coords), raw, number),
        is_toml_file(file_lines(c, coords), number),
        0 <= at < file_lines(c, coords).len(),
        file_lines(c, coords)[at] matches Line::Setting { key: k, value: v, .. } && k == key && v
            == value,
    ensures
        takes(raw, key, value, number),
{
    let lines = file_lines(c, coords);
    assert(lines_text(lines) == file_text(c, coords));
    assert(lines[at] is Setting);
}

proof fn lemma_usual_settings_are_read(
    c: ConfigView,
    coords: CoordText,
    raw: RawView,
    number: spec_fn(Seq<char>) -> Option<Num>,
)
    requires
        valid_id(c.design),
        c.max_sessions <= i64::MAX,
        reads_as(file_text(c, coords), raw, number),
        is_toml_file(file_lines(c, coords), number),
    ensures
        raw.placement == placement_name(c.placement),
        raw.design == c.design,
        raw.reduce_motion == c.reduce_motion,
        raw.show_glyphs == c.show_glyphs,
        raw.bar_align == align_name(c.bar_align),
        raw.compact_flock == compact_name(c.compact_flock),
        raw.done_ttl_secs == c.done_ttl_ms / 1000,
        raw.session_ttl_secs == c.session_ttl_ms / 1000,
        raw.max_sessions == c.max_sessions,
        raw.detect_errors == c.detect_errors,
{
    lemma_plain_names(c.placement, c.bar_align, c.compact_flock, c.language);
    lemma_plain_id(c.design);
    lemma_plain_string(placement_name(c.placement));
    lemma_plain_string(c.design);
    lemma_plain_string(align_name(c.bar_align));
    lemma_plain_string(compact_name(c.compact_flock));
    let lines = file_lines(c, coords);
    let usual = usual_lines(c);
    assert forall|i: int| 0 <= i < 10 implies #[trigger] lines[i] == usual[i] by {}
    let done = (c.done_ttl_ms / 1000) as nat;
    let session = (c.session_ttl_ms / 1000) as nat;
    let max = c.max_sessions as nat;
    assert(lines[0] == usual[0] && lines[1] == usual[1] && lines[2] == usual[2]);
    assert(lines[3] == usual[3] && lines[4] == usual[4] && lines[5] == usual[5]);
    assert(lines[6] == usual[6] && lines[7] == usual[7] && lines[8] == usual[8]);
    assert(lines[9] == usual[9]);
    let (p, a, m) = (placement_name(c.placement), align_name(c.bar_align), compact_name(c.compact_flock));
    lemma_line_is_taken(c, coords, raw, number, 0, "placement"@, toml_string(p));
    lemma_line_is_taken(c, coords, raw, number, 1, "design"@, toml_string(c.design));
    lemma_line_is_taken(c, coords, raw, number, 2, "reduce_motion"@, flag_text(c.reduce_motion));
    lemma_line_is_taken(c, coords, raw, number, 3, "show_glyphs"@, flag_text(c.show_glyphs));
    lemma_line_is_taken(c, coords, raw, number, 4, "bar_align"@, toml_string(a));
    lemma_line_is_taken(c, coords, raw, number, 5, "compact_flock"@, toml_string(m));
    lemma_line_is_taken(c, coords, raw, number, 6, "done_ttl_secs"@, decimal(done));
    lemma_line_is_taken(c, coords, raw, number, 7, "session_ttl_secs"@, decimal(session));
    lemma_line_is_taken(c, coords, raw, number, 8, "max_sessions"@, decimal(max));
    lemma_line_is_taken(c, coords, raw, number, 9, "detect_errors"@, flag_text(c.detect_errors));
}

proof fn lemma_optional_settings_are_read(
    c: ConfigView,
    coords: CoordText,
    raw: RawView,
    number: spec_fn(Seq<char>) -> Option<Num>,
)
    requires
        valid_id(c.design),
        c.max_sessions <= i64::MAX,
        writes_coord(c.dock_x, coords.x@, number),
        writes_coord(c.dock_y, coords.y@, number),
        reads_as(file_text(c, coords), raw, number),
    ensures
        raw.dock_x == c.dock_x,
        raw.dock_y == c.dock_y,
        raw.language == language_name(c.language),
        raw.ignore == c.ignore,
{
    lemma_file_lines(c, coords, number);
    let lines = file_lines(c, coords);
    assert(lines_text(lines) == file_text(c, coords));
    assert(left_out(raw, lines));
    let n = usual_lines(c).len() as int;
    let l = language_lines(c).len() as int;
    let r = ignore_lines(c).len() as int;
    let before_the_dock = usual_lines(c) + language_lines(c) + ignore_lines(c);
    if c.language != Language::Auto {
        let name = language_name(c.language);
        lemma_plain_names(c.placement, c.bar_align, c.compact_flock, c.language);
        lemma_plain_string(name);
        assert(lines[n] == language_lines(c)[0]);
        lemma_line_is_taken(c, coords, raw, number, n, "language"@, toml_string(name));
    }
    if c.ignore.len() > 0 {
        assert(lines[n + l] == ignore_lines(c)[0]);
        lemma_line_is_taken(c, coords, raw, number, n + l, "ignore"@, toml_array(c.ignore));
    } else {
        assert(raw.ignore =~= c.ignore);
    }
    let d = n + l + r;
    assert forall|i: int| 0 <= i < dock_lines(c, coords).len() implies #[trigger] lines[d + i]
        == dock_lines(c, coords)[i] by {}
    if c.dock_x is Some {
        assert(lines[d + 3] == dock_lines(c, coords)[3]);
        lemma_line_is_taken(c, coords, raw, number, d + 3, "dock_x"@, coords.x@);
    }
    if c.dock_y is Some {
        let at = if c.dock_x is Some {
            4int
        } else {
            3int
        };
        assert(lines[d + at] == dock_lines(c, coords)[at]);
        lemma_line_is_taken(c, coords, raw, number, d + at, "dock_y"@, coords.y@);
    }
}

/// Settings come back from the text that was written of them: whatever a reader of TOML makes of
/// it, the settings that this gives are the same. The texts for the places of the dock are those
/// of their numbers. An integer of TOML has 64 bits with a sign.
pub proof fn law_settings_come_back_from_their_text(
    c: ConfigView,
    coords: CoordText,
    raw: RawView,
    number: spec_fn(Seq<char>) -> Option<Num>,
)
    requires
        valid_id(c.design),
        usable_coord(c.dock_x),
        usable_coord(c.dock_y),
        whole_seconds(c.done_ttl_ms),
        whole_seconds(c.session_ttl_ms),
        c.max_sessions <= i64::MAX,
        writes_coord(c.dock_x, coords.x@, number),
        writes_coord(c.dock_y, coords.y@, number),
        reads_as(file_text(c, coords), raw, number),
    ensures
        settings_of(raw) == Ok::<ConfigView, Seq<char>>(c),
{
    lemma_file_lines(c, coords, number);
    lemma_usual_settings_are_read(c, coords, raw, number);
    lemma_optional_settings_are_read(c, coords, raw, number);
    law_settings_round_trip(c);
    assert(raw == raw_of(c));
}

/// A file without a line gives the built-in settings.
pub proof fn law_an_empty_file_gives_the_default()
    ensures
        settings_of(default_raw()) == Ok::<ConfigView, Seq<char>>(default_settings()),
{
    law_choices_round_trip(
        Placement::Bar,
        BarAlign::Auto,
        CompactMode::Auto,
        Language::Auto,
        "egg"@,
    );
    reveal_strlit("egg");
    assert("egg"@.len() == 3 && "egg"@[0] == 'e' && "egg"@[1] == 'g' && "egg"@[2] == 'g');
}

/// The settings without a dragged dock do not speak of its place.
pub proof fn law_an_unmoved_dock_is_not_mentioned(c: ConfigView, a: CoordText, b: CoordText)
    requires
        c.dock_x is None,
        c.dock_y is None,
    ensures
        dock_lines(c, a).len() == 0,
        file_text(c, a) == file_text(c, b),
{
}

} // verus!
