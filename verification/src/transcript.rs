//! What can be learned from the end of a transcript: whether the last turn failed, and the
//! session's title.
//!
//! A transcript is a file of JSON lines. Only its end is read. Whatever cannot be read or does
//! not look as expected counts as no failure and no title.

use vstd::prelude::*;

use crate::text::{
    contains, find, first_index, from_chars, has_text, join_with, lemma_first_index, lines,
    opt_text, rows, same, separated, slice, split_lines, split_words, to_chars, to_strings,
    trim_chars, trimmed, words,
};

verus! {

/// How many bytes at the end are read to find out whether the last turn failed.
pub const TAIL_BYTES: u64 = 65536;

/// How many bytes at the end are read to find the title. Titles are repeated, but up to some
/// ninety kilobytes apart.
pub const TITLE_TAIL_BYTES: u64 = 262_144;

/// How many characters of a title are kept.
pub const MAX_TITLE_CHARS: usize = 120;

// ---- reading the end of a file --------------------------------------------------------------

/// Where to start reading in a file.
#[derive(Debug, Clone, Copy, PartialEq, Eq, Structural)]
pub struct Tail {
    pub position: u64,
    /// Whether this is the beginning of the file.
    pub whole: bool,
}

/// Where the last `max_bytes` of a file of `len` bytes begin.
pub open spec fn tail(len: u64, max_bytes: u64) -> Option<Tail> {
    if len == 0 {
        None
    } else if len <= max_bytes {
        Some(Tail { position: 0, whole: true })
    } else {
        Some(Tail { position: (len - max_bytes) as u64, whole: false })
    }
}

/// Where to start reading the last `max_bytes` of a file of `len` bytes. An empty file is not
/// read.
pub fn tail_of(len: u64, max_bytes: u64) -> (r: Option<Tail>)
    ensures
        r == tail(len, max_bytes),
{
    if len == 0 {
        None
    } else if len <= max_bytes {
        Some(Tail { position: 0, whole: true })
    } else {
        Some(Tail { position: len - max_bytes, whole: false })
    }
}

/// The complete lines of what was read: all of a whole file, and otherwise what follows the
/// first line feed, if there is one.
pub open spec fn complete(text: Seq<char>, whole: bool) -> Option<Seq<char>> {
    if whole {
        Some(text)
    } else if first_index(text, '\n') < text.len() {
        Some(text.skip(first_index(text, '\n') + 1))
    } else {
        None
    }
}

/// The complete lines of what was read. Reading from the middle of a file may start within a
/// line, so the first line is dropped then.
pub fn complete_lines(text: &str, whole: bool) -> (r: Option<String>)
    ensures
        opt_text(r) == complete(text@, whole),
{
    if whole {
        return Some(text.to_owned());
    }
    let v = to_chars(text);
    let i = find(&v, '\n');
    if i < v.len() {
        let rest = slice(&v, i + 1, v.len());
        assert(rest@ =~= text@.skip(i + 1));
        Some(rest)
    } else {
        None
    }
}

/// What `String::from_utf8_lossy` makes of bytes: the text, with a replacement character where
/// the bytes are not UTF-8.
pub uninterp spec fn lossy_text(bytes: Seq<u8>) -> Seq<char>;

/// `String::from_utf8_lossy`; the result depends on the bytes alone.
#[verifier::external_body]
fn decoded(bytes: &Vec<u8>) -> (r: String)
    ensures
        r@ == lossy_text(bytes@),
{
    String::from_utf8_lossy(bytes).into_owned()
}

/// The complete lines of the bytes that were read. See `complete_lines`.
pub fn tail_lines(bytes: &Vec<u8>, whole: bool) -> (r: Option<String>)
    ensures
        opt_text(r) == complete(lossy_text(bytes@), whole),
{
    complete_lines(decoded(bytes).as_str(), whole)
}

// ---- the last turn --------------------------------------------------------------------------

/// Whether a line of the assistant reports a failure.
pub open spec fn reports_failure(line: Seq<char>) -> bool {
    has_text(line, "\"isApiErrorMessage\":true"@) || has_text(line, "\"is_error\":true"@)
}

/// Whether `answer` is what `kind_of` gives for the text `line`.
pub open spec fn kind_given<F: Fn(&String) -> Option<String>>(
    kind_of: F,
    line: Seq<char>,
    answer: Option<Seq<char>>,
) -> bool {
    exists|s: String, kind: Option<String>|
        s@ == line && #[trigger] call_ensures(kind_of, (&s,), kind) && opt_text(kind) == answer
}

/// The lines that are looked at, from the last to the first: without the white space around
/// them, blank ones left out.
pub open spec fn entries(all: Seq<Seq<char>>) -> Seq<Seq<char>>
    decreases all.len(),
{
    if all.len() == 0 {
        Seq::empty()
    } else {
        let line = trimmed(all.last());
        if line.len() == 0 {
            entries(all.drop_last())
        } else {
            seq![line] + entries(all.drop_last())
        }
    }
}

/// Whether the last turn failed, given the kinds of the entries looked at: the first entry of
/// the assistant decides, and none before it is asked about after that.
pub open spec fn turn_judged(
    entries: Seq<Seq<char>>,
    kinds: Seq<Option<Seq<char>>>,
    failed: bool,
) -> bool {
    &&& kinds.len() <= entries.len()
    &&& forall|i: int| 0 <= i < kinds.len() - 1 ==> #[trigger] kinds[i] != Some("assistant"@)
    &&& if kinds.len() > 0 && kinds.last() == Some("assistant"@) {
        failed == reports_failure(entries[kinds.len() - 1])
    } else {
        kinds.len() == entries.len() && !failed
    }
}

/// Whether `failed` is the verdict on the last turn of a transcript.
pub open spec fn judges_turn<F: Fn(&String) -> Option<String>>(
    text: Seq<char>,
    kind_of: F,
    failed: bool,
) -> bool {
    exists|kinds: Seq<Option<Seq<char>>>|
        {
            &&& #[trigger] turn_judged(entries(lines(text)), kinds, failed)
            &&& forall|i: int|
                0 <= i < kinds.len() ==> kind_given(
                    kind_of,
                    entries(lines(text))[i],
                    #[trigger] kinds[i],
                )
        }
}

/// Whether the last turn of a transcript ended in a failure. `kind_of` gives the `type` of a
/// JSON line, if the line has one.
pub fn last_turn_errored(text: &str, kind_of: impl Fn(&String) -> Option<String>) -> (r: bool)
    requires
        forall|line: &String| call_requires(kind_of, (line,)),
    ensures
        judges_turn(text@, kind_of, r),
{
    let all = split_lines(text);
    let ghost views = lines(text@);
    let ghost looked = entries(views);
    let ghost mut kinds: Seq<Option<Seq<char>>> = Seq::empty();
    let mut n: usize = all.len();
    assert(views.take(n as int) =~= views);
    assert(looked.skip(0) =~= looked);
    while n > 0
        invariant
            n <= all@.len(),
            forall|line: &String| call_requires(kind_of, (line,)),
            views == rows(all@),
            views == lines(text@),
            looked == entries(views),
            kinds.len() <= looked.len(),
            entries(views.take(n as int)) == looked.skip(kinds.len() as int),
            forall|i: int|
                0 <= i < kinds.len() ==> #[trigger] kinds[i] != Some("assistant"@) && kind_given(
                    kind_of,
                    looked[i],
                    kinds[i],
                ),
        decreases n,
    {
        n -= 1;
        let line = trim_chars(&all[n]);
        let ghost upto = views.take(n + 1);
        proof {
            assert(upto.last() == all@[n as int]@);
            assert(upto.drop_last() =~= views.take(n as int));
        }
        if line.len() == 0 {
            continue;
        }
        let entry = from_chars(&line);
        proof {
            let rest = entries(views.take(n as int));
            assert(looked.skip(kinds.len() as int) == seq![line@] + rest);
            assert(looked[kinds.len() as int] == looked.skip(kinds.len() as int)[0]);
            assert(looked.skip(kinds.len() as int + 1) =~= looked.skip(kinds.len() as int).skip(1));
            assert((seq![line@] + rest).skip(1) =~= rest);
        }
        let kind = kind_of(&entry);
        let ghost answer = opt_text(kind);
        assert(call_ensures(kind_of, (&entry,), kind));
        assert(kind_given(kind_of, line@, answer));
        let ghost more = kinds.push(answer);
        let assistant = match &kind {
            Some(k) => same(k.as_str(), "assistant"),
            None => false,
        };
        if assistant {
            let failed = contains(&line, "\"isApiErrorMessage\":true") || contains(
                &line,
                "\"is_error\":true",
            );
            proof {
                assert(more.last() == Some("assistant"@));
                assert forall|i: int| 0 <= i < more.len() implies kind_given(
                    kind_of,
                    looked[i],
                    #[trigger] more[i],
                ) by {
                    if i < kinds.len() {
                        assert(more[i] == kinds[i]);
                    }
                }
                assert forall|i: int| 0 <= i < more.len() - 1 implies #[trigger] more[i] != Some(
                    "assistant"@,
                ) by {
                    assert(more[i] == kinds[i]);
                }
                assert(turn_judged(looked, more, failed));
                assert(judges_turn(text@, kind_of, failed));
            }
            return failed;
        }
        proof {
            assert forall|i: int| 0 <= i < more.len() implies #[trigger] more[i] != Some(
                "assistant"@,
            ) && kind_given(kind_of, looked[i], more[i]) by {
                if i < kinds.len() {
                    assert(more[i] == kinds[i]);
                }
            }
            kinds = more;
        }
    }
    proof {
        assert(views.take(0) =~= Seq::<Seq<char>>::empty());
        assert(looked.skip(kinds.len() as int).len() == 0);
        if kinds.len() > 0 {
            assert(kinds.last() == kinds[kinds.len() - 1]);
        }
        assert(turn_judged(looked, kinds, false));
        assert(judges_turn(text@, kind_of, false));
    }
    false
}

// ---- the title ------------------------------------------------------------------------------

/// The fields of a JSON line that gives a title. Every field may be missing.
#[derive(Debug, Clone, PartialEq, Eq)]
pub struct TitleLine {
    /// `custom-title` for one that the user gave, `ai-title` for a generated one.
    pub kind: Option<String>,
    /// Whose title it is. Lines of other sessions occur in a transcript that was resumed.
    pub session_id: Option<String>,
    pub custom_title: Option<String>,
    pub ai_title: Option<String>,
}

/// What a `TitleLine` holds.
pub struct TitleView {
    pub kind: Option<Seq<char>>,
    pub session_id: Option<Seq<char>>,
    pub custom_title: Option<Seq<char>>,
    pub ai_title: Option<Seq<char>>,
}

impl View for TitleLine {
    type V = TitleView;

    open spec fn view(&self) -> TitleView {
        TitleView {
            kind: opt_text(self.kind),
            session_id: opt_text(self.session_id),
            custom_title: opt_text(self.custom_title),
            ai_title: opt_text(self.ai_title),
        }
    }
}

/// What an optional `TitleLine` holds.
pub open spec fn opt_title(t: Option<TitleLine>) -> Option<TitleView> {
    match t {
        Some(t) => Some(t@),
        None => None,
    }
}

/// A title for display: its words with one space between any two, cut to the number of
/// characters that is kept. A blank title is none.
pub open spec fn cleaned(raw: Option<Seq<char>>) -> Option<Seq<char>> {
    match raw {
        None => None,
        Some(raw) => {
            let flat = separated(words(raw, false), " "@);
            if flat.len() == 0 {
                None
            } else if flat.len() <= MAX_TITLE_CHARS {
                Some(flat)
            } else {
                Some(flat.take(MAX_TITLE_CHARS as int))
            }
        },
    }
}

/// A title for display. Line breaks and tabs become spaces.
pub fn clean_title(raw: &Option<String>) -> (r: Option<String>)
    ensures
        opt_text(r) == cleaned(opt_text(*raw)),
{
    match raw {
        None => None,
        Some(raw) => {
            let flat = join_with(&to_strings(&split_words(raw.as_str(), false)), " ");
            let v = to_chars(flat.as_str());
            if v.len() == 0 {
                None
            } else if v.len() <= MAX_TITLE_CHARS {
                Some(flat)
            } else {
                let cut = slice(&v, 0, MAX_TITLE_CHARS);
                assert(cut@ =~= flat@.take(MAX_TITLE_CHARS as int));
                Some(cut)
            }
        },
    }
}

/// The title that the user gave the session in this line, if any.
pub open spec fn custom_in(line: Option<TitleView>, id: Seq<char>) -> Option<Seq<char>> {
    match line {
        Some(t) => if t.session_id == Some(id) && t.kind == Some("custom-title"@) {
            cleaned(t.custom_title)
        } else {
            None
        },
        None => None,
    }
}

/// The title generated for the session in this line, if any.
pub open spec fn generated_in(line: Option<TitleView>, id: Seq<char>) -> Option<Seq<char>> {
    match line {
        Some(t) => if t.session_id == Some(id) && t.kind != Some("custom-title"@) && t.kind
            == Some("ai-title"@) {
            cleaned(t.ai_title)
        } else {
            None
        },
        None => None,
    }
}

/// The first title that the user gave the session.
pub open spec fn first_custom(seen: Seq<Option<TitleView>>, id: Seq<char>) -> Option<Seq<char>>
    decreases seen.len(),
{
    if seen.len() == 0 {
        None
    } else if first_custom(seen.drop_last(), id) is Some {
        first_custom(seen.drop_last(), id)
    } else {
        custom_in(seen.last(), id)
    }
}

/// The first title generated for the session.
pub open spec fn first_generated(
    seen: Seq<Option<TitleView>>,
    id: Seq<char>,
) -> Option<Seq<char>>
    decreases seen.len(),
{
    if seen.len() == 0 {
        None
    } else if first_generated(seen.drop_last(), id) is Some {
        first_generated(seen.drop_last(), id)
    } else {
        generated_in(seen.last(), id)
    }
}

/// The title, given what the lines looked at hold, the last line first: one that the user gave
/// goes before a generated one, and a later line before an earlier one.
pub open spec fn title_of(seen: Seq<Option<TitleView>>, id: Seq<char>) -> Option<Seq<char>> {
    if first_custom(seen, id) is Some {
        first_custom(seen, id)
    } else {
        first_generated(seen, id)
    }
}

/// Whether a line can give a title at all.
pub open spec fn may_give_title(line: Seq<char>) -> bool {
    has_text(line, "-title\""@)
}

/// Whether `seen` is what a line holds: nothing if it cannot give a title, and otherwise what
/// `parse` gives for it.
pub open spec fn title_given<F: Fn(&String) -> Option<TitleLine>>(
    parse: F,
    line: Seq<char>,
    seen: Option<TitleView>,
) -> bool {
    if may_give_title(line) {
        exists|s: String, got: Option<TitleLine>|
            s@ == line && #[trigger] call_ensures(parse, (&s,), got) && seen == opt_title(got)
    } else {
        seen is None
    }
}

/// Whether `title` is what is found as the title of a session in a transcript.
pub open spec fn finds_title<F: Fn(&String) -> Option<TitleLine>>(
    text: Seq<char>,
    id: Seq<char>,
    parse: F,
    title: Option<Seq<char>>,
) -> bool {
    exists|seen: Seq<Option<TitleView>>|
        {
            &&& title == #[trigger] title_of(seen, id)
            &&& seen.len() <= lines(text).len()
            &&& seen.len() == lines(text).len() || first_custom(seen, id) is Some
            &&& forall|i: int|
                0 <= i < seen.len() ==> title_given(
                    parse,
                    lines(text)[lines(text).len() - 1 - i],
                    #[trigger] seen[i],
                )
        }
}

/// The title of a session in a transcript. `parse` reads a JSON line. A title that the user
/// gave ends the search.
pub fn session_title(
    text: &str,
    session_id: &str,
    parse: impl Fn(&String) -> Option<TitleLine>,
) -> (r: Option<String>)
    requires
        forall|line: &String| call_requires(parse, (line,)),
    ensures
        finds_title(text@, session_id@, parse, opt_text(r)),
{
    let all = split_lines(text);
    let ghost views = lines(text@);
    let ghost mut seen: Seq<Option<TitleView>> = Seq::empty();
    let mut ai: Option<String> = None;
    let mut n: usize = all.len();
    while n > 0
        invariant
            n <= all@.len(),
            forall|line: &String| call_requires(parse, (line,)),
            views == rows(all@),
            views == lines(text@),
            seen.len() == views.len() - n,
            opt_text(ai) == first_generated(seen, session_id@),
            first_custom(seen, session_id@) is None,
            forall|i: int|
                0 <= i < seen.len() ==> title_given(
                    parse,
                    views[views.len() - 1 - i],
                    #[trigger] seen[i],
                ),
        decreases n,
    {
        n -= 1;
        let ghost line = views[n as int];
        assert(line == all@[n as int]@);
        let mut got: Option<TitleLine> = None;
        if contains(&all[n], "-title\"") {
            let s = from_chars(&all[n]);
            got = parse(&s);
            assert(call_ensures(parse, (&s,), got));
        }
        let ghost here = opt_title(got);
        let ghost more = seen.push(here);
        proof {
            assert(title_given(parse, line, here));
            assert(more.drop_last() =~= seen);
            assert forall|i: int| 0 <= i < more.len() implies title_given(
                parse,
                views[views.len() - 1 - i],
                #[trigger] more[i],
            ) by {
                if i < seen.len() {
                    assert(more[i] == seen[i]);
                }
            }
        }
        if let Some(t) = got {
            let mine = match &t.session_id {
                Some(id) => same(id.as_str(), session_id),
                None => false,
            };
            let custom = match &t.kind {
                Some(k) => same(k.as_str(), "custom-title"),
                None => false,
            };
            let generated = match &t.kind {
                Some(k) => same(k.as_str(), "ai-title"),
                None => false,
            };
            if mine && custom {
                let title = clean_title(&t.custom_title);
                if title.is_some() {
                    assert(opt_text(title) == title_of(more, session_id@));
                    return title;
                }
            } else if mine && generated && ai.is_none() {
                ai = clean_title(&t.ai_title);
            }
        }
        proof {
            seen = more;
        }
    }
    assert(opt_text(ai) == title_of(seen, session_id@));
    ai
}

// ---- laws -----------------------------------------------------------------------------------

/// A title that the user gave goes before every generated one, however much later that was
/// written.
pub proof fn law_a_given_title_outranks_a_generated_one(
    seen: Seq<Option<TitleView>>,
    id: Seq<char>,
    i: int,
)
    requires
        0 <= i < seen.len(),
        custom_in(seen[i], id) is Some,
    ensures
        first_custom(seen, id) is Some,
        title_of(seen, id) == first_custom(seen, id),
    decreases seen.len(),
{
    if i < seen.len() - 1 {
        assert(seen.drop_last()[i] == seen[i]);
        law_a_given_title_outranks_a_generated_one(seen.drop_last(), id, i);
    }
}

/// Lines of other sessions do not matter.
pub proof fn law_titles_of_other_sessions_do_not_matter(
    seen: Seq<Option<TitleView>>,
    other: TitleView,
    id: Seq<char>,
)
    requires
        other.session_id != Some(id),
    ensures
        title_of(seen.push(Some(other)), id) == title_of(seen, id),
{
    assert(seen.push(Some(other)).drop_last() =~= seen);
}

/// A title for display is never blank and never longer than what is kept.
pub proof fn law_a_title_fits(raw: Option<Seq<char>>)
    ensures
        cleaned(raw) matches Some(t) ==> 0 < t.len() <= MAX_TITLE_CHARS,
{
}

/// Dropping a line that may be incomplete loses no complete line: what is kept is the end of
/// what was read, and starts where a line starts.
pub proof fn law_only_an_incomplete_line_is_dropped(text: Seq<char>)
    ensures
        complete(text, false) matches Some(kept) ==> text[text.len() - kept.len() - 1] == '\n'
            && kept == text.skip(text.len() - kept.len()) && forall|k: int|
            0 <= k < text.len() - kept.len() - 1 ==> text[k] != '\n',
        complete(text, false) is None ==> !text.contains('\n'),
{
    lemma_first_index(text, '\n');
}

// ---- what is found --------------------------------------------------------------------------

/// What is read is the end of the file, as much of it as there is up to the limit; it is the
/// whole file just if it begins where the file begins. An empty file is not read.
pub proof fn law_the_end_of_the_file_is_read(len: u64, max_bytes: u64)
    ensures
        tail(len, max_bytes) is None <==> len == 0,
        tail(len, max_bytes) matches Some(t) ==> {
            &&& t.whole == (t.position == 0)
            &&& len - t.position <= max_bytes || t.position == 0 && len <= max_bytes
            &&& t.position > 0 ==> len - t.position == max_bytes
            &&& t.position == 0 ==> len <= max_bytes
        },
{
}

/// Whether `parse` always gives the same for a line: what `read` says it holds.
pub open spec fn reads_titles<F: Fn(&String) -> Option<TitleLine>>(
    parse: F,
    read: spec_fn(Seq<char>) -> Option<TitleView>,
) -> bool {
    forall|s: String, got: Option<TitleLine>| #[trigger]
        call_ensures(parse, (&s,), got) ==> opt_title(got) == read(s@)
}

/// Whether a line gives a session a title of a kind; `custom-title` stands for those that the
/// user gave, `ai-title` for those that were generated. A line that does not speak of titles is
/// not read, and a blank title is none.
pub open spec fn gives_title(
    line: Seq<char>,
    read: spec_fn(Seq<char>) -> Option<TitleView>,
    id: Seq<char>,
    kind: Seq<char>,
    title: Option<Seq<char>>,
) -> bool {
    &&& has_text(line, "-title\""@)
    &&& read(line) is Some
    &&& read(line)->0.session_id == Some(id)
    &&& read(line)->0.kind == Some(kind)
    &&& cleaned(title) is Some
}

/// Whether the user gave a session a title in a line.
pub open spec fn names_session(
    line: Seq<char>,
    read: spec_fn(Seq<char>) -> Option<TitleView>,
    id: Seq<char>,
) -> bool {
    gives_title(line, read, id, "custom-title"@, read(line)->0.custom_title)
}

/// Whether a title was generated for a session in a line.
pub open spec fn suggests_name(
    line: Seq<char>,
    read: spec_fn(Seq<char>) -> Option<TitleView>,
    id: Seq<char>,
) -> bool {
    gives_title(line, read, id, "ai-title"@, read(line)->0.ai_title)
}

proof fn lemma_kinds_of_titles()
    ensures
        "custom-title"@ != "ai-title"@,
{
    reveal_strlit("custom-title");
    reveal_strlit("ai-title");
    assert("custom-title"@.len() == 12 && "ai-title"@.len() == 8);
}

proof fn lemma_title_line<F: Fn(&String) -> Option<TitleLine>>(
    parse: F,
    read: spec_fn(Seq<char>) -> Option<TitleView>,
    line: Seq<char>,
    id: Seq<char>,
    seen: Option<TitleView>,
)
    requires
        reads_titles(parse, read),
        title_given(parse, line, seen),
    ensures
        custom_in(seen, id) == if names_session(line, read, id) {
            cleaned(read(line)->0.custom_title)
        } else {
            None
        },
        generated_in(seen, id) == if suggests_name(line, read, id) {
            cleaned(read(line)->0.ai_title)
        } else {
            None
        },
{
    lemma_kinds_of_titles();
    if may_give_title(line) {
        let (s, got) = choose|s: String, got: Option<TitleLine>|
            s@ == line && #[trigger] call_ensures(parse, (&s,), got) && seen == opt_title(got);
        assert(opt_title(got) == read(s@));
    }
}

proof fn lemma_first_custom_at(seen: Seq<Option<TitleView>>, id: Seq<char>, i: int)
    requires
        0 <= i < seen.len(),
        custom_in(seen[i], id) is Some,
        forall|j: int| 0 <= j < i ==> custom_in(#[trigger] seen[j], id) is None,
    ensures
        first_custom(seen, id) == custom_in(seen[i], id),
    decreases seen.len(),
{
    let shorter = seen.drop_last();
    if i < shorter.len() {
        assert forall|j: int| 0 <= j < i implies custom_in(#[trigger] shorter[j], id) is None by {
            assert(shorter[j] == seen[j]);
        }
        assert(shorter[i] == seen[i]);
        lemma_first_custom_at(shorter, id, i);
    } else {
        assert forall|j: int| 0 <= j < shorter.len() implies custom_in(
            #[trigger] shorter[j],
            id,
        ) is None by {
            assert(shorter[j] == seen[j]);
        }
        lemma_no_custom(shorter, id);
    }
}

proof fn lemma_no_custom(seen: Seq<Option<TitleView>>, id: Seq<char>)
    requires
        forall|j: int| 0 <= j < seen.len() ==> custom_in(#[trigger] seen[j], id) is None,
    ensures
        first_custom(seen, id) is None,
    decreases seen.len(),
{
    if seen.len() > 0 {
        let shorter = seen.drop_last();
        assert forall|j: int| 0 <= j < shorter.len() implies custom_in(
            #[trigger] shorter[j],
            id,
        ) is None by {
            assert(shorter[j] == seen[j]);
        }
        lemma_no_custom(shorter, id);
        assert(custom_in(seen[seen.len() - 1], id) is None);
    }
}

proof fn lemma_first_generated_at(seen: Seq<Option<TitleView>>, id: Seq<char>, i: int)
    requires
        0 <= i <= seen.len(),
        i < seen.len() ==> generated_in(seen[i], id) is Some,
        forall|j: int| 0 <= j < i ==> generated_in(#[trigger] seen[j], id) is None,
    ensures
        first_generated(seen, id) == if i < seen.len() {
            generated_in(seen[i], id)
        } else {
            None
        },
    decreases seen.len(),
{
    if seen.len() > 0 {
        let shorter = seen.drop_last();
        assert forall|j: int| 0 <= j < i && j < shorter.len() implies generated_in(
            #[trigger] shorter[j],
            id,
        ) is None by {
            assert(shorter[j] == seen[j]);
        }
        if i < shorter.len() {
            assert(shorter[i] == seen[i]);
            lemma_first_generated_at(shorter, id, i);
        } else {
            lemma_first_generated_at(shorter, id, shorter.len() as int);
            if i == seen.len() {
                assert(generated_in(seen[seen.len() - 1], id) is None);
            }
        }
    }
}

/// The last title that the user gave a session is its title, whatever stands before it and
/// whatever was generated after it.
pub proof fn law_the_last_given_title_counts<F: Fn(&String) -> Option<TitleLine>>(
    text: Seq<char>,
    id: Seq<char>,
    parse: F,
    read: spec_fn(Seq<char>) -> Option<TitleView>,
    title: Option<Seq<char>>,
    k: int,
)
    requires
        finds_title(text, id, parse, title),
        reads_titles(parse, read),
        0 <= k < lines(text).len(),
        names_session(lines(text)[k], read, id),
        forall|j: int|
            k < j < lines(text).len() ==> !names_session(#[trigger] lines(text)[j], read, id),
    ensures
        title == cleaned(read(lines(text)[k])->0.custom_title),
        title is Some,
{
    let all = lines(text);
    let n = all.len() as int;
    let seen = choose|seen: Seq<Option<TitleView>>|
        {
            &&& title == #[trigger] title_of(seen, id)
            &&& seen.len() <= lines(text).len()
            &&& seen.len() == lines(text).len() || first_custom(seen, id) is Some
            &&& forall|i: int|
                0 <= i < seen.len() ==> title_given(
                    parse,
                    lines(text)[lines(text).len() - 1 - i],
                    #[trigger] seen[i],
                )
        };
    assert forall|i: int| 0 <= i < seen.len() implies custom_in(#[trigger] seen[i], id)
        == if names_session(all[n - 1 - i], read, id) {
        cleaned(read(all[n - 1 - i])->0.custom_title)
    } else {
        None
    } by {
        assert(title_given(parse, all[n - 1 - i], seen[i]));
        lemma_title_line(parse, read, all[n - 1 - i], id, seen[i]);
    }
    let at = n - 1 - k;
    assert forall|j: int| 0 <= j < at && j < seen.len() implies custom_in(#[trigger] seen[j], id) is
        None by {
        assert(!names_session(all[n - 1 - j], read, id));
    }
    if seen.len() <= at {
        lemma_no_custom(seen, id);
        assert(false);
    }
    lemma_first_custom_at(seen, id, at);
}

/// Where the user gave no title, the last one that was generated for the session is its title.
pub proof fn law_else_the_last_generated_title_counts<F: Fn(&String) -> Option<TitleLine>>(
    text: Seq<char>,
    id: Seq<char>,
    parse: F,
    read: spec_fn(Seq<char>) -> Option<TitleView>,
    title: Option<Seq<char>>,
    k: int,
)
    requires
        finds_title(text, id, parse, title),
        reads_titles(parse, read),
        forall|j: int|
            0 <= j < lines(text).len() ==> !names_session(#[trigger] lines(text)[j], read, id),
        0 <= k < lines(text).len(),
        suggests_name(lines(text)[k], read, id),
        forall|j: int|
            k < j < lines(text).len() ==> !suggests_name(#[trigger] lines(text)[j], read, id),
    ensures
        title == cleaned(read(lines(text)[k])->0.ai_title),
        title is Some,
{
    let all = lines(text);
    let n = all.len() as int;
    let seen = lemma_all_lines_are_seen(text, id, parse, read, title);
    assert forall|j: int| 0 <= j < n - 1 - k implies generated_in(#[trigger] seen[j], id) is None by {
        assert(!suggests_name(all[n - 1 - j], read, id));
    }
    assert(suggests_name(all[n - 1 - (n - 1 - k)], read, id));
    lemma_first_generated_at(seen, id, n - 1 - k);
}

/// Where no line gives the session a title, it has none.
pub proof fn law_without_a_title_line_there_is_no_title<F: Fn(&String) -> Option<TitleLine>>(
    text: Seq<char>,
    id: Seq<char>,
    parse: F,
    read: spec_fn(Seq<char>) -> Option<TitleView>,
    title: Option<Seq<char>>,
)
    requires
        finds_title(text, id, parse, title),
        reads_titles(parse, read),
        forall|j: int|
            0 <= j < lines(text).len() ==> !names_session(#[trigger] lines(text)[j], read, id)
                && !suggests_name(lines(text)[j], read, id),
    ensures
        title is None,
{
    let all = lines(text);
    let n = all.len() as int;
    let seen = lemma_all_lines_are_seen(text, id, parse, read, title);
    assert forall|j: int| 0 <= j < n implies generated_in(#[trigger] seen[j], id) is None by {
        assert(!names_session(all[n - 1 - j], read, id));
    }
    lemma_first_generated_at(seen, id, n);
}

proof fn lemma_all_lines_are_seen<F: Fn(&String) -> Option<TitleLine>>(
    text: Seq<char>,
    id: Seq<char>,
    parse: F,
    read: spec_fn(Seq<char>) -> Option<TitleView>,
    title: Option<Seq<char>>,
) -> (seen: Seq<Option<TitleView>>)
    requires
        finds_title(text, id, parse, title),
        reads_titles(parse, read),
        forall|j: int|
            0 <= j < lines(text).len() ==> !names_session(#[trigger] lines(text)[j], read, id),
    ensures
        seen.len() == lines(text).len(),
        title == first_generated(seen, id),
        forall|i: int|
            0 <= i < seen.len() ==> generated_in(#[trigger] seen[i], id) == if suggests_name(
                lines(text)[lines(text).len() - 1 - i],
                read,
                id,
            ) {
                cleaned(read(lines(text)[lines(text).len() - 1 - i])->0.ai_title)
            } else {
                None
            },
{
    let all = lines(text);
    let n = all.len() as int;
    let seen = choose|seen: Seq<Option<TitleView>>|
        {
            &&& title == #[trigger] title_of(seen, id)
            &&& seen.len() <= lines(text).len()
            &&& seen.len() == lines(text).len() || first_custom(seen, id) is Some
            &&& forall|i: int|
                0 <= i < seen.len() ==> title_given(
                    parse,
                    lines(text)[lines(text).len() - 1 - i],
                    #[trigger] seen[i],
                )
        };
    assert forall|i: int| 0 <= i < seen.len() implies custom_in(#[trigger] seen[i], id) is None
        && generated_in(seen[i], id) == if suggests_name(all[n - 1 - i], read, id) {
        cleaned(read(all[n - 1 - i])->0.ai_title)
    } else {
        None
    } by {
        assert(title_given(parse, all[n - 1 - i], seen[i]));
        assert(!names_session(all[n - 1 - i], read, id));
        lemma_title_line(parse, read, all[n - 1 - i], id, seen[i]);
    }
    lemma_no_custom(seen, id);
    seen
}

/// Whether `kind_of` always gives the same for a line: what `kind` says it is.
pub open spec fn tells_kinds<F: Fn(&String) -> Option<String>>(
    kind_of: F,
    kind: spec_fn(Seq<char>) -> Option<Seq<char>>,
) -> bool {
    forall|s: String, got: Option<String>| #[trigger]
        call_ensures(kind_of, (&s,), got) ==> opt_text(got) == kind(s@)
}

/// Whether a line, without the white space around it, is one of the assistant.
pub open spec fn is_answer(line: Seq<char>, kind: spec_fn(Seq<char>) -> Option<Seq<char>>) -> bool {
    trimmed(line).len() > 0 && kind(trimmed(line)) == Some("assistant"@)
}

/// Whether an entry is a line that stands behind line `k`.
spec fn is_later(all: Seq<Seq<char>>, entry: Seq<char>, k: int) -> bool {
    exists|m: int|
        k < m < all.len() && entry == trimmed(#[trigger] all[m]) && trimmed(all[m]).len() > 0
}

proof fn lemma_entries_at(all: Seq<Seq<char>>, k: int) -> (i: int)
    requires
        0 <= k < all.len(),
        trimmed(all[k]).len() > 0,
    ensures
        0 <= i < entries(all).len(),
        entries(all)[i] == trimmed(all[k]),
        forall|j: int| 0 <= j < i ==> is_later(all, #[trigger] entries(all)[j], k),
    decreases all.len(),
{
    let shorter = all.drop_last();
    let rest = entries(shorter);
    let line = trimmed(all.last());
    let looked = entries(all);
    if k == all.len() - 1 {
        assert(looked[0] == trimmed(all[k]));
        0
    } else {
        assert(shorter[k] == all[k]);
        let i = lemma_entries_at(shorter, k);
        let d: int = if line.len() == 0 {
            0
        } else {
            1
        };
        assert(looked.len() == rest.len() + d);
        assert forall|j: int| 0 <= j < rest.len() implies #[trigger] rest[j] == looked[j + d] by {}
        assert(looked[i + d] == rest[i]);
        assert forall|j: int| 0 <= j < i + d implies is_later(all, #[trigger] looked[j], k) by {
            if j < d {
                assert(looked[j] == trimmed(all[all.len() - 1]));
            } else {
                assert(rest[j - d] == looked[j]);
                assert(is_later(shorter, rest[j - d], k));
                let m = choose|m: int|
                    k < m < shorter.len() && rest[j - d] == trimmed(#[trigger] shorter[m])
                        && trimmed(shorter[m]).len() > 0;
                assert(all[m] == shorter[m]);
            }
        }
        i + d
    }
}

proof fn lemma_entries_come_from_lines(all: Seq<Seq<char>>, i: int)
    requires
        0 <= i < entries(all).len(),
    ensures
        exists|m: int|
            0 <= m < all.len() && entries(all)[i] == trimmed(#[trigger] all[m]) && trimmed(
                all[m],
            ).len() > 0,
    decreases all.len(),
{
    if all.len() > 0 {
        let shorter = all.drop_last();
        let line = trimmed(all.last());
        let d: int = if line.len() == 0 {
            0
        } else {
            1
        };
        if i < d {
            assert(entries(all)[i] == trimmed(all[all.len() - 1]));
        } else {
            assert(entries(all)[i] == entries(shorter)[i - d]);
            lemma_entries_come_from_lines(shorter, i - d);
            let m = choose|m: int|
                0 <= m < shorter.len() && entries(shorter)[i - d] == trimmed(#[trigger] shorter[m])
                    && trimmed(shorter[m]).len() > 0;
            assert(all[m] == shorter[m]);
        }
    }
}

/// The last line of the assistant decides whether the last turn failed: it did just if the line
/// is marked as an error of the API or as an error. Whatever stands before and behind that line
/// does not matter.
pub proof fn law_the_last_answer_decides<F: Fn(&String) -> Option<String>>(
    text: Seq<char>,
    kind_of: F,
    kind: spec_fn(Seq<char>) -> Option<Seq<char>>,
    failed: bool,
    k: int,
)
    requires
        judges_turn(text, kind_of, failed),
        tells_kinds(kind_of, kind),
        0 <= k < lines(text).len(),
        is_answer(lines(text)[k], kind),
        forall|j: int| k < j < lines(text).len() ==> !is_answer(#[trigger] lines(text)[j], kind),
    ensures
        failed == (has_text(trimmed(lines(text)[k]), "\"isApiErrorMessage\":true"@) || has_text(
            trimmed(lines(text)[k]),
            "\"is_error\":true"@,
        )),
{
    let all = lines(text);
    let looked = entries(all);
    let kinds = choose|kinds: Seq<Option<Seq<char>>>|
        {
            &&& #[trigger] turn_judged(entries(lines(text)), kinds, failed)
            &&& forall|i: int|
                0 <= i < kinds.len() ==> kind_given(
                    kind_of,
                    entries(lines(text))[i],
                    #[trigger] kinds[i],
                )
        };
    assert forall|i: int| 0 <= i < kinds.len() implies #[trigger] kinds[i] == kind(looked[i]) by {
        assert(kind_given(kind_of, looked[i], kinds[i]));
    }
    let i = lemma_entries_at(all, k);
    assert forall|j: int| 0 <= j < i && j < kinds.len() implies #[trigger] kinds[j] != Some(
        "assistant"@,
    ) by {
        assert(is_later(all, looked[j], k));
        let m = choose|m: int|
            k < m < all.len() && looked[j] == trimmed(#[trigger] all[m]) && trimmed(
                all[m],
            ).len() > 0;
        assert(!is_answer(all[m], kind));
        assert(kinds[j] == kind(looked[j]));
    }
    if kinds.len() > i {
        assert(kinds[i] == Some("assistant"@));
        if kinds.len() > i + 1 {
            assert(kinds[i] != Some("assistant"@));
        }
        assert(kinds.last() == kinds[i]);
    } else {
        if kinds.len() > 0 {
            assert(kinds[kinds.len() - 1] != Some("assistant"@));
        }
        assert(kinds.len() == looked.len());
    }
}

/// A transcript without a line of the assistant has no failed turn.
pub proof fn law_without_an_answer_nothing_failed<F: Fn(&String) -> Option<String>>(
    text: Seq<char>,
    kind_of: F,
    kind: spec_fn(Seq<char>) -> Option<Seq<char>>,
    failed: bool,
)
    requires
        judges_turn(text, kind_of, failed),
        tells_kinds(kind_of, kind),
        forall|j: int| 0 <= j < lines(text).len() ==> !is_answer(#[trigger] lines(text)[j], kind),
    ensures
        !failed,
{
    let all = lines(text);
    let looked = entries(all);
    let kinds = choose|kinds: Seq<Option<Seq<char>>>|
        {
            &&& #[trigger] turn_judged(entries(lines(text)), kinds, failed)
            &&& forall|i: int|
                0 <= i < kinds.len() ==> kind_given(
                    kind_of,
                    entries(lines(text))[i],
                    #[trigger] kinds[i],
                )
        };
    if kinds.len() > 0 {
        let i = kinds.len() - 1;
        assert(kind_given(kind_of, looked[i], kinds[i]));
        assert(kinds[i] == kind(looked[i]));
        lemma_entries_come_from_lines(all, i);
        let m = choose|m: int|
            0 <= m < all.len() && entries(all)[i] == trimmed(#[trigger] all[m]) && trimmed(
                all[m],
            ).len() > 0;
        assert(!is_answer(all[m], kind));
    }
}

/// A title that is given in single words with one blank between any two is shown as it is, if it
/// is not too long.
pub proof fn law_a_plain_title_is_shown_as_it_is(raw: Seq<char>)
    requires
        separated(words(raw, false), " "@) == raw,
        0 < raw.len() <= 120,
    ensures
        cleaned(Some(raw)) == Some(raw),
{
}

/// A title shows the words that it is given and nothing else: how they are parted does not matter.
/// It is cut behind a hundred and twenty characters, and a title without a word is none.
pub proof fn law_a_title_shows_its_words(raw: Seq<char>, other: Seq<char>)
    ensures
        words(raw, false) == words(other, false) ==> cleaned(Some(raw)) == cleaned(Some(other)),
        cleaned(None) is None,
        words(raw, false).len() == 0 ==> cleaned(Some(raw)) is None,
        cleaned(Some(raw)) matches Some(t) ==> {
            let flat = separated(words(raw, false), " "@);
            &&& flat.len() <= 120 ==> t == flat
            &&& flat.len() > 120 ==> t.len() == 120 && t == flat.take(120)
        },
{
}

} // verus!
