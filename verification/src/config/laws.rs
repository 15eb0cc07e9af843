//! What settings take and give, value by value.

use std::sync::Arc;

use vstd::prelude::*;

use super::{
    align_name, compact_name, coord_of, default_settings, flag_of, int_of, language_name,
    law_a_key_has_one_row, law_choices_round_trip, law_integers_round_trip, lemma_keys, millis,
    placement_name, schema, settings_of, settings_read, system_language, unsigned, with_field,
    BarAlign, CompactMode, ConfigRead, ConfigView, KindView, Language, Placement, RawView,
};
use crate::face::registry::has_face;
use crate::face::spec::{valid_id, FaceSpec};
use crate::lang::{tag_lang, Lang};
use crate::num::{finite, Num};
use crate::text::{decimal, trimmed};

verus! {

/// The names of the choices.
pub proof fn law_the_names_of_the_choices()
    ensures
        placement_name(Placement::Bar) == "bar"@,
        placement_name(Placement::Dock) == "dock"@,
        align_name(BarAlign::Auto) == "auto"@,
        align_name(BarAlign::Center) == "center"@,
        align_name(BarAlign::LeftOfNotch) == "left-of-notch"@,
        align_name(BarAlign::RightOfNotch) == "right-of-notch"@,
        compact_name(CompactMode::Auto) == "auto"@,
        compact_name(CompactMode::Always) == "always"@,
        compact_name(CompactMode::Never) == "never"@,
        language_name(Language::Auto) == "auto"@,
        language_name(Language::Ja) == "ja"@,
        language_name(Language::En) == "en"@,
{
}

/// The settings without a file: the egg in the menu bar, at rest after three minutes and gone
/// after eight hours, at most twelve of them, with their signs.
pub proof fn law_the_built_in_settings()
    ensures
        ({
            let c = default_settings();
            &&& c.placement == Placement::Bar
            &&& c.design == "egg"@
            &&& !c.reduce_motion
            &&& c.show_glyphs
            &&& c.bar_align == BarAlign::Auto
            &&& c.compact_flock == CompactMode::Auto
            &&& c.dock_x is None && c.dock_y is None
            &&& c.done_ttl_ms == 3 * 60 * 1000
            &&& c.session_ttl_ms == 8 * 60 * 60 * 1000
            &&& c.max_sessions == 12
            &&& !c.detect_errors
            &&& c.language == Language::Auto
            &&& c.ignore.len() == 0
        }),
{
}

/// A setting that is a language is that language; otherwise the system's tag decides, and
/// English without one.
pub proof fn law_the_setting_goes_before_the_system(l: Language, tag: Option<Seq<char>>)
    ensures
        l == Language::Ja ==> system_language(l, tag) == Lang::Ja,
        l == Language::En ==> system_language(l, tag) == Lang::En,
        l == Language::Auto && tag is Some ==> system_language(l, tag) == tag_lang(tag->0),
        l == Language::Auto && tag is None ==> system_language(l, tag) == Lang::En,
{
}

/// Seconds become milliseconds, as many as fit.
pub proof fn law_seconds_become_milliseconds(secs: u64)
    ensures
        secs <= u64::MAX / 1000 ==> millis(secs) == secs * 1000,
        secs > u64::MAX / 1000 ==> millis(secs) == u64::MAX,
{
}

/// A flag is `true` or `false` and nothing else.
pub proof fn law_what_a_flag_is(v: Seq<char>)
    ensures
        flag_of(v) == Ok::<bool, Seq<char>>(true) <==> v == "true"@,
        flag_of(v) == Ok::<bool, Seq<char>>(false) <==> v == "false"@,
{
    reveal_strlit("true");
    reveal_strlit("false");
    assert("true"@.len() == 4 && "false"@.len() == 5);
}

/// A place of the dock is `auto` or nothing for the usual place, or a number that is finite.
pub proof fn law_what_a_place_is(v: Seq<char>, number: Option<Num>)
    ensures
        trimmed(v).len() == 0 || trimmed(v) == "auto"@ ==> coord_of(v, number) == Ok::<
            Option<Num>,
            Seq<char>,
        >(None),
        trimmed(v).len() > 0 && trimmed(v) != "auto"@ ==> (coord_of(v, number) is Ok <==> number is
            Some && finite(number->0)),
        trimmed(v).len() > 0 && trimmed(v) != "auto"@ && coord_of(v, number) is Ok ==> coord_of(
            v,
            number,
        ) == Ok::<Option<Num>, Seq<char>>(number),
{
}

proof fn lemma_keys_are_told_apart()
    ensures
        schema().len() == 14,
        schema()[0].key == "placement"@,
        schema()[1].key == "design"@,
        schema()[2].key == "reduce_motion"@,
        schema()[3].key == "show_glyphs"@,
        schema()[4].key == "bar_align"@,
        schema()[5].key == "compact_flock"@,
        schema()[6].key == "done_ttl_secs"@,
        schema()[7].key == "session_ttl_secs"@,
        schema()[8].key == "max_sessions"@,
        schema()[9].key == "detect_errors"@,
        schema()[10].key == "dock_x"@,
        schema()[11].key == "dock_y"@,
        schema()[12].key == "language"@,
        schema()[13].key == "ignore"@,
        schema()[6].kind matches KindView::Int { min, max, .. } && min == 0 && max == 86_400,
        schema()[7].kind matches KindView::Int { min, max, .. } && min == 60 && max == 604_800,
        schema()[8].kind matches KindView::Int { min, max, .. } && min == 1 && max == 64,
{
    reveal(schema);
}

proof fn lemma_distinct(i: int, j: int)
    requires
        0 <= i < 14,
        0 <= j < 14,
        i != j,
    ensures
        schema()[i].key != schema()[j].key,
{
    lemma_keys_are_told_apart();
    law_a_key_has_one_row(i);
    law_a_key_has_one_row(j);
    if schema()[i].key == schema()[j].key {
        assert(schema()[i] == schema()[j]);
        lemma_keys();
    }
}

proof fn lemma_earlier_keys(n: int)
    requires
        0 <= n < 14,
    ensures
        n > 0 ==> schema()[n].key != "placement"@,
        n > 1 ==> schema()[n].key != "design"@,
        n > 2 ==> schema()[n].key != "reduce_motion"@,
        n > 3 ==> schema()[n].key != "show_glyphs"@,
        n > 4 ==> schema()[n].key != "bar_align"@,
        n > 5 ==> schema()[n].key != "compact_flock"@,
        n > 6 ==> schema()[n].key != "done_ttl_secs"@,
        n > 7 ==> schema()[n].key != "session_ttl_secs"@,
        n > 8 ==> schema()[n].key != "max_sessions"@,
        n > 9 ==> schema()[n].key != "detect_errors"@,
        n > 10 ==> schema()[n].key != "dock_x"@,
        n > 11 ==> schema()[n].key != "dock_y"@,
        n > 12 ==> schema()[n].key != "language"@,
{
    lemma_keys_are_told_apart();
    lemma_keys();
    if n > 0 {
        lemma_distinct(0, n);
    }
    if n > 1 {
        lemma_distinct(1, n);
    }
    if n > 2 {
        lemma_distinct(2, n);
    }
    if n > 3 {
        lemma_distinct(3, n);
    }
    if n > 4 {
        lemma_distinct(4, n);
    }
    if n > 5 {
        lemma_distinct(5, n);
    }
    if n > 6 {
        lemma_distinct(6, n);
    }
    if n > 7 {
        lemma_distinct(7, n);
    }
    if n > 8 {
        lemma_distinct(8, n);
    }
    if n > 9 {
        lemma_distinct(9, n);
    }
    if n > 10 {
        lemma_distinct(10, n);
    }
    if n > 11 {
        lemma_distinct(11, n);
    }
    if n > 12 {
        lemma_distinct(12, n);
    }
}

/// The lifetimes and the number of creatures are set to the number that a text gives, if it is in
/// range: up to a day until a finished turn is idle, a minute to a week until a session is gone,
/// and one to sixty-four creatures. Any other number is refused, and so is what is no number.
pub proof fn law_integers_are_taken_in_range(
    c: ConfigView,
    n: u64,
    faces: Seq<Arc<FaceSpec>>,
    number: Option<Num>,
)
    ensures
        with_field(c, "done_ttl_secs"@, decimal(n as nat), faces, number) is Ok <==> n <= 86_400,
        n <= 86_400 ==> with_field(c, "done_ttl_secs"@, decimal(n as nat), faces, number) == Ok::<
            ConfigView,
            Seq<char>,
        >(ConfigView { done_ttl_ms: (n * 1000) as u64, ..c }),
        with_field(c, "session_ttl_secs"@, decimal(n as nat), faces, number) is Ok <==> 60 <= n
            <= 604_800,
        60 <= n <= 604_800 ==> with_field(
            c,
            "session_ttl_secs"@,
            decimal(n as nat),
            faces,
            number,
        ) == Ok::<ConfigView, Seq<char>>(ConfigView { session_ttl_ms: (n * 1000) as u64, ..c }),
        with_field(c, "max_sessions"@, decimal(n as nat), faces, number) is Ok <==> 1 <= n <= 64,
        1 <= n <= 64 ==> with_field(c, "max_sessions"@, decimal(n as nat), faces, number) == Ok::<
            ConfigView,
            Seq<char>,
        >(ConfigView { max_sessions: n as usize, ..c }),
{
    lemma_keys_are_told_apart();
    law_integers_round_trip(n);
    lemma_earlier_keys(6);
    lemma_earlier_keys(7);
    lemma_earlier_keys(8);
    law_a_key_has_one_row(6);
    law_a_key_has_one_row(7);
    law_a_key_has_one_row(8);
}

/// A text that is no number is refused where a number is asked for.
pub proof fn law_only_numbers_are_integers(key: Seq<char>, v: Seq<char>)
    requires
        unsigned(v) is None,
    ensures
        int_of(key, v) is Err,
{
}

/// A face is chosen by its id if there is such a face, and refused otherwise.
pub proof fn law_only_faces_that_exist_are_chosen(
    c: ConfigView,
    v: Seq<char>,
    faces: Seq<Arc<FaceSpec>>,
    number: Option<Num>,
)
    ensures
        with_field(c, "design"@, v, faces, number) is Ok <==> has_face(faces, v),
        has_face(faces, v) ==> with_field(c, "design"@, v, faces, number) == Ok::<
            ConfigView,
            Seq<char>,
        >(ConfigView { design: v, ..c }),
{
    lemma_keys_are_told_apart();
    lemma_earlier_keys(1);
}

/// The settings of a file are accepted just if their choices are known, the face has an id that a
/// face can have, and the places of the dock are finite. Nothing else is asked of them.
pub proof fn law_which_files_are_accepted(raw: RawView)
    ensures
        settings_of(raw) is Ok <==> {
            &&& raw.placement == "bar"@ || raw.placement == "dock"@
            &&& valid_id(raw.design)
            &&& raw.bar_align == "auto"@ || raw.bar_align == "center"@ || raw.bar_align
                == "left-of-notch"@ || raw.bar_align == "right-of-notch"@
            &&& raw.compact_flock == "auto"@ || raw.compact_flock == "always"@
                || raw.compact_flock == "never"@
            &&& raw.dock_x matches Some(x) ==> finite(x)
            &&& raw.dock_y matches Some(y) ==> finite(y)
            &&& raw.language == "auto"@ || raw.language == "ja"@ || raw.language == "en"@
        },
{
}

/// Every setting is what the file says of it.
pub proof fn law_every_setting_comes_from_its_line(raw: RawView)
    requires
        settings_of(raw) is Ok,
    ensures
        ({
            let c = settings_of(raw)->Ok_0;
            &&& placement_name(c.placement) == raw.placement
            &&& c.design == raw.design
            &&& c.reduce_motion == raw.reduce_motion
            &&& c.show_glyphs == raw.show_glyphs
            &&& align_name(c.bar_align) == raw.bar_align
            &&& compact_name(c.compact_flock) == raw.compact_flock
            &&& c.dock_x == raw.dock_x
            &&& c.dock_y == raw.dock_y
            &&& raw.done_ttl_secs <= u64::MAX / 1000 ==> c.done_ttl_ms == raw.done_ttl_secs * 1000
            &&& raw.session_ttl_secs <= u64::MAX / 1000 ==> c.session_ttl_ms
                == raw.session_ttl_secs * 1000
            &&& c.max_sessions == raw.max_sessions
            &&& c.detect_errors == raw.detect_errors
            &&& language_name(c.language) == raw.language
            &&& c.ignore == raw.ignore
        }),
{
    law_choices_round_trip(
        Placement::Bar,
        BarAlign::Auto,
        CompactMode::Auto,
        Language::Auto,
        raw.placement,
    );
    law_choices_round_trip(
        Placement::Bar,
        BarAlign::Auto,
        CompactMode::Auto,
        Language::Auto,
        raw.bar_align,
    );
    law_choices_round_trip(
        Placement::Bar,
        BarAlign::Auto,
        CompactMode::Auto,
        Language::Auto,
        raw.compact_flock,
    );
    law_choices_round_trip(
        Placement::Bar,
        BarAlign::Auto,
        CompactMode::Auto,
        Language::Auto,
        raw.language,
    );
}

/// Only a file that is not there means the built-in settings. One that cannot be read, or is no
/// TOML, is refused, and any other gives the settings that it says.
pub proof fn law_only_a_missing_file_means_the_built_in_settings(read: ConfigRead)
    ensures
        read is Missing ==> settings_read(read) == Ok::<ConfigView, Seq<char>>(default_settings()),
        read is Failed || read is Malformed ==> settings_read(read) is Err,
        read matches ConfigRead::Parsed(raw) ==> settings_read(read) == settings_of(raw@),
{
}

} // verus!
