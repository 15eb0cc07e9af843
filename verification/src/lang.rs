//! Display languages and bilingual labels.
//!
//! A label is always written in both languages, so a missing translation does not compile.

use vstd::prelude::*;

use crate::text::{
    before, find, first_index, lemma_first_index, part, to_chars, trim, trim_chars, trimmed,
};

verus! {

/// A resolved display language.
#[derive(Debug, Clone, Copy, PartialEq, Eq, Structural)]
pub enum Lang {
    Ja,
    En,
}

/// The tag of a language.
pub open spec fn lang_tag(lang: Lang) -> Seq<char> {
    match lang {
        Lang::Ja => "ja"@,
        Lang::En => "en"@,
    }
}

impl Lang {
    /// The form for an HTML `lang` attribute or for JSON.
    pub fn as_str(&self) -> (r: &'static str)
        ensures
            r@ == lang_tag(*self),
    {
        match self {
            Lang::Ja => "ja",
            Lang::En => "en",
        }
    }
}

/// A label in both languages.
#[derive(Debug, Clone, Copy, PartialEq, Eq)]
pub struct L {
    pub ja: &'static str,
    pub en: &'static str,
}

impl L {
    /// The label in the language asked for.
    pub fn get(&self, lang: Lang) -> (r: &'static str)
        ensures
            lang == Lang::Ja ==> r == self.ja,
            lang == Lang::En ==> r == self.en,
    {
        match lang {
            Lang::Ja => self.ja,
            Lang::En => self.en,
        }
    }
}

/// Writes a label: `l("配置", "Placement")`.
pub fn l(ja: &'static str, en: &'static str) -> (r: L)
    ensures
        r == (L { ja, en }),
{
    L { ja, en }
}

/// The characters that end the primary part of a language tag.
pub open spec fn ends_primary(c: char) -> bool {
    c == '-' || c == '_' || c == '.' || c == ';'
}

/// Whether the primary part of a single language tag is `ja`, in either case.
pub open spec fn is_japanese(tag: Seq<char>) -> bool {
    &&& tag.len() >= 2
    &&& tag[0] == 'j' || tag[0] == 'J'
    &&& tag[1] == 'a' || tag[1] == 'A'
    &&& tag.len() > 2 ==> ends_primary(tag[2])
}

/// The language of a tag, or of the first tag of a list.
pub open spec fn tag_lang(tag: Seq<char>) -> Lang {
    if is_japanese(trimmed(before(tag, ','))) {
        Lang::Ja
    } else {
        Lang::En
    }
}

/// Decides the display language from a tag such as `ja`, `ja-JP`, `ja_JP.UTF-8` or
/// `ja,en-US;q=0.9`. Of several tags only the first counts. What cannot be read as Japanese
/// is English.
pub fn from_tag(tag: &str) -> (r: Lang)
    ensures
        r == tag_lang(tag@),
{
    let v = to_chars(tag);
    let n = find(&v, ',');
    let head = part(&v, 0, n);
    assert(head@ == before(tag@, ','));
    let first = trim_chars(&head);
    if first.len() < 2 {
        return Lang::En;
    }
    let j = first[0] == 'j' || first[0] == 'J';
    let a = first[1] == 'a' || first[1] == 'A';
    let ended = first.len() == 2 || first[2] == '-' || first[2] == '_' || first[2] == '.'
        || first[2] == ';';
    if j && a && ended {
        Lang::Ja
    } else {
        Lang::En
    }
}

/// Whether a variable holds something besides white space.
pub open spec fn is_set(v: Option<String>) -> bool {
    v is Some && trimmed(v->0@).len() > 0
}

fn set(v: &Option<String>) -> (r: bool)
    ensures
        r == is_set(*v),
{
    match v {
        Some(s) => !trim(s.as_str()).as_str().is_empty(),
        None => false,
    }
}

/// The language tag among the values of the environment variables.
pub open spec fn tag_in(
    lc_all: Option<String>,
    lc_messages: Option<String>,
    lang: Option<String>,
) -> Option<String> {
    if is_set(lc_all) {
        lc_all
    } else if is_set(lc_messages) {
        lc_messages
    } else if is_set(lang) {
        lang
    } else {
        None
    }
}

/// Picks the language tag from the values of the environment variables `LC_ALL`,
/// `LC_MESSAGES` and `LANG`, in this order. A blank value counts as not set.
pub fn env_tag(lc_all: Option<String>, lc_messages: Option<String>, lang: Option<String>) -> (r:
    Option<String>)
    ensures
        r == tag_in(lc_all, lc_messages, lang),
{
    if set(&lc_all) {
        lc_all
    } else if set(&lc_messages) {
        lc_messages
    } else if set(&lang) {
        lang
    } else {
        None
    }
}

/// A language's own tag is read back as that language.
pub proof fn law_tag_round_trip(lang: Lang)
    ensures
        tag_lang(lang_tag(lang)) == lang,
{
    reveal_strlit("ja");
    reveal_strlit("en");
    let tag = lang_tag(lang);
    reveal_with_fuel(first_index, 3);
    assert(tag.drop_first().drop_first() =~= Seq::<char>::empty());
    assert(before(tag, ',') =~= tag);
    assert(trimmed(tag) == tag);
}

/// What follows the first comma does not matter.
pub proof fn law_only_first_tag_decides(first: Seq<char>, rest: Seq<char>)
    requires
        !first.contains(','),
    ensures
        tag_lang(first.push(',') + rest) == tag_lang(first),
{
    lemma_before_comma(first, rest);
    lemma_first_index(first, ',');
    assert(before(first, ',') =~= first);
}

proof fn lemma_before_comma(first: Seq<char>, rest: Seq<char>)
    requires
        !first.contains(','),
    ensures
        before(first.push(',') + rest, ',') == first,
{
    let s = first.push(',') + rest;
    lemma_first_index(s, ',');
    let i = first_index(s, ',');
    assert(s[first.len() as int] == ',');
    if i < first.len() {
        assert(s[i] == first[i]);
    }
    assert(i == first.len());
    assert(s.take(i) =~= first);
}

/// A tag is Japanese just if its primary part is `ja`, in either case: the tag ends there, or a
/// region, a script, an encoding or a weight follows. Everything else is English.
pub proof fn law_only_ja_is_japanese(tag: Seq<char>)
    requires
        !tag.contains(','),
        trimmed(tag) == tag,
    ensures
        tag_lang(tag) == Lang::Ja <==> tag.len() >= 2 && (tag[0] == 'j' || tag[0] == 'J') && (tag[1]
            == 'a' || tag[1] == 'A') && (tag.len() == 2 || tag[2] == '-' || tag[2] == '_' || tag[2]
            == '.' || tag[2] == ';'),
{
    lemma_first_index(tag, ',');
    assert(before(tag, ',') =~= tag);
}

/// The first variable that says something decides, in the order of `LC_ALL`, `LC_MESSAGES` and
/// `LANG`. One that is missing or blank says nothing.
pub proof fn law_the_first_variable_decides(
    lc_all: Option<String>,
    lc_messages: Option<String>,
    lang: Option<String>,
)
    ensures
        lc_all is Some && trimmed(lc_all->0@).len() > 0 ==> tag_in(lc_all, lc_messages, lang)
            == lc_all,
        (lc_all is None || trimmed(lc_all->0@).len() == 0) && lc_messages is Some && trimmed(
            lc_messages->0@,
        ).len() > 0 ==> tag_in(lc_all, lc_messages, lang) == lc_messages,
        (lc_all is None || trimmed(lc_all->0@).len() == 0) && (lc_messages is None || trimmed(
            lc_messages->0@,
        ).len() == 0) && lang is Some && trimmed(lang->0@).len() > 0 ==> tag_in(
            lc_all,
            lc_messages,
            lang,
        ) == lang,
        (lc_all is None || trimmed(lc_all->0@).len() == 0) && (lc_messages is None || trimmed(
            lc_messages->0@,
        ).len() == 0) && (lang is None || trimmed(lang->0@).len() == 0) ==> tag_in(
            lc_all,
            lc_messages,
            lang,
        ) is None,
{
}

} // verus!
