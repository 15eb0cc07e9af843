//! Lines of a TOML file: settings, each with a remark, and remarks of their own.

use vstd::prelude::*;

use super::flag_text;
use crate::face::builder::emit::{escaped, escaped_all, needs_code, toml_string};
use crate::num::Num;
use crate::text::{decimal, separated};

verus! {

/// A line of a file.
pub enum Line {
    /// A key with its value, and a remark behind it.
    Setting { key: Seq<char>, value: Seq<char>, remark: Seq<char> },
    /// A remark, or nothing.
    Remark(Seq<char>),
}

/// A line as text.
pub open spec fn line_text(line: Line) -> Seq<char> {
    match line {
        Line::Setting { key, value, remark } => key + " = "@ + value + remark + "\n"@,
        Line::Remark(remark) => remark + "\n"@,
    }
}

/// Lines as text.
pub open spec fn lines_text(lines: Seq<Line>) -> Seq<char>
    decreases lines.len(),
{
    if lines.len() == 0 {
        Seq::empty()
    } else {
        lines_text(lines.drop_last()) + line_text(lines.last())
    }
}

/// The text of a string that needs no escapes.
pub open spec fn in_quotes(s: Seq<char>) -> Seq<char> {
    "\""@ + s + "\""@
}

/// Texts as TOML strings.
pub open spec fn toml_strings(v: Seq<Seq<char>>) -> Seq<Seq<char>> {
    Seq::new(v.len(), |i: int| toml_string(v[i]))
}

/// A TOML array of strings.
pub open spec fn toml_array(v: Seq<Seq<char>>) -> Seq<char> {
    "["@ + separated(toml_strings(v), ", "@) + "]"@
}

/// Appends a setting to a file.
pub(crate) fn push_setting(out: &mut String, key: &str, value: &str, remark: &str)
    ensures
        final(out)@ == old(out)@ + line_text(
            Line::Setting { key: key@, value: value@, remark: remark@ },
        ),
{
    let ghost before = out@;
    out.append(key);
    out.append(" = ");
    out.append(value);
    out.append(remark);
    out.append("\n");
    assert(out@ =~= before + (key@ + " = "@ + value@ + remark@ + "\n"@));
}

/// Appends a remark to a file.
pub(crate) fn push_remark(out: &mut String, remark: &str)
    ensures
        final(out)@ == old(out)@ + line_text(Line::Remark(remark@)),
{
    let ghost before = out@;
    out.append(remark);
    out.append("\n");
    assert(out@ =~= before + (remark@ + "\n"@));
}

/// The text of one line more.
pub(crate) proof fn lemma_one_line_more(lines: Seq<Line>, line: Line)
    ensures
        lines_text(lines.push(line)) == lines_text(lines) + line_text(line),
{
    assert(lines.push(line).drop_last() =~= lines);
}

// ---- lines that TOML knows ------------------------------------------------------------------

/// Whether a text can be a key without quotes.
pub open spec fn is_bare_key(key: Seq<char>) -> bool {
    key.len() > 0 && forall|i: int|
        0 <= i < key.len() ==> {
            ||| 'a' <= #[trigger] key[i] <= 'z'
            ||| 'A' <= key[i] <= 'Z'
            ||| '0' <= key[i] <= '9'
            ||| key[i] == '_'
            ||| key[i] == '-'
        }
}

/// Whether no control character stands in a text.
pub open spec fn is_clean(t: Seq<char>) -> bool {
    forall|i: int| 0 <= i < t.len() ==> !needs_code(#[trigger] t[i])
}

/// Whether a text is nothing, or a comment with blanks before it.
pub open spec fn is_remark(t: Seq<char>) -> bool {
    t.len() == 0 || is_clean(t) && exists|k: int|
        0 <= k < t.len() && #[trigger] t[k] == '#' && forall|i: int|
            0 <= i < k ==> #[trigger] t[i] == ' '
}

/// Whether a text is a value: a string, an array of strings, a flag, an integer, or a number as
/// `number` reads them.
pub open spec fn is_value(v: Seq<char>, number: spec_fn(Seq<char>) -> Option<Num>) -> bool {
    ||| exists|s: Seq<char>| v == #[trigger] toml_string(s)
    ||| exists|s: Seq<Seq<char>>| v == #[trigger] toml_array(s)
    ||| exists|b: bool| v == #[trigger] flag_text(b)
    ||| exists|n: nat| n <= i64::MAX && v == #[trigger] decimal(n)
    ||| number(v) is Some
}

/// Whether a line can stand in a TOML file.
pub open spec fn is_toml_line(line: Line, number: spec_fn(Seq<char>) -> Option<Num>) -> bool {
    match line {
        Line::Setting { key, value, remark } => is_bare_key(key) && is_value(value, number)
            && is_remark(remark),
        Line::Remark(remark) => is_remark(remark),
    }
}

/// Whether a line sets a key.
pub open spec fn line_sets(line: Line, key: Seq<char>) -> bool {
    line matches Line::Setting { key: k, .. } && k == key
}

/// Whether the lines make up a TOML file: each can stand in one, and no key is set twice.
pub open spec fn is_toml_file(
    lines: Seq<Line>,
    number: spec_fn(Seq<char>) -> Option<Num>,
) -> bool {
    &&& forall|i: int| 0 <= i < lines.len() ==> is_toml_line(#[trigger] lines[i], number)
    &&& forall|i: int, j: int, key: Seq<char>|
        0 <= i < j < lines.len() && #[trigger] line_sets(lines[i], key) ==> !#[trigger] line_sets(
            lines[j],
            key,
        )
}

// ---- strings without escapes ----------------------------------------------------------------

/// Whether a text can stand between quotes as it is.
pub open spec fn is_plain(s: Seq<char>) -> bool {
    forall|i: int|
        0 <= i < s.len() ==> #[trigger] s[i] != '"' && s[i] != '\\' && !needs_code(s[i])
}

proof fn lemma_plain_is_not_escaped(s: Seq<char>)
    requires
        is_plain(s),
    ensures
        escaped_all(s) == s,
    decreases s.len(),
{
    if s.len() > 0 {
        let shorter = s.drop_last();
        assert forall|i: int| 0 <= i < shorter.len() implies #[trigger] shorter[i] != '"'
            && shorter[i] != '\\' && !needs_code(shorter[i]) by {
            assert(shorter[i] == s[i]);
        }
        lemma_plain_is_not_escaped(shorter);
        let c = s[s.len() - 1];
        assert(c != '"' && c != '\\' && !needs_code(c));
        assert(escaped(c) == seq![c]);
        assert(escaped_all(s) =~= s);
    } else {
        assert(escaped_all(s) =~= s);
    }
}

/// A plain text in quotes is the TOML string of it.
pub(crate) proof fn lemma_plain_string(s: Seq<char>)
    requires
        is_plain(s),
    ensures
        in_quotes(s) == toml_string(s),
{
    lemma_plain_is_not_escaped(s);
    reveal_strlit("\"");
    assert("\""@ =~= seq!['"']);
}

/// Clean texts put together are clean.
pub(crate) proof fn lemma_clean_join(a: Seq<char>, b: Seq<char>)
    requires
        is_clean(a),
        is_clean(b),
    ensures
        is_clean(a + b),
{
    let t = a + b;
    assert forall|i: int| 0 <= i < t.len() implies !needs_code(#[trigger] t[i]) by {
        if i < a.len() {
            assert(t[i] == a[i]);
        } else {
            assert(t[i] == b[i - a.len()]);
        }
    }
}

/// Clean pieces with a clean text between them are clean.
pub(crate) proof fn lemma_clean_separated(pieces: Seq<Seq<char>>, sep: Seq<char>)
    requires
        is_clean(sep),
        forall|i: int| 0 <= i < pieces.len() ==> is_clean(#[trigger] pieces[i]),
    ensures
        is_clean(separated(pieces, sep)),
    decreases pieces.len(),
{
    if pieces.len() > 1 {
        let shorter = pieces.drop_last();
        assert forall|i: int| 0 <= i < shorter.len() implies is_clean(#[trigger] shorter[i]) by {
            assert(shorter[i] == pieces[i]);
        }
        lemma_clean_separated(shorter, sep);
        assert(is_clean(pieces[pieces.len() - 1]));
        lemma_clean_join(separated(shorter, sep), sep);
        lemma_clean_join(separated(shorter, sep) + sep, pieces.last());
    } else if pieces.len() == 1 {
        assert(is_clean(pieces[0]));
    }
}

/// A remark goes on with any clean text.
pub(crate) proof fn lemma_longer_remark(a: Seq<char>, b: Seq<char>)
    requires
        a.len() > 0,
        is_remark(a),
        is_clean(b),
    ensures
        is_remark(a + b),
{
    lemma_clean_join(a, b);
    let k = choose|k: int|
        0 <= k < a.len() && #[trigger] a[k] == '#' && forall|i: int|
            0 <= i < k ==> #[trigger] a[i] == ' ';
    let t = a + b;
    assert(t[k] == '#');
    assert forall|i: int| 0 <= i < k implies #[trigger] t[i] == ' ' by {
        assert(t[i] == a[i]);
    }
}

} // verus!
