//! From a rule as written to its matcher.

use vstd::prelude::*;

use super::glob::{
    path_segments, seg_specs, split_path, Matcher, MatcherSpec, Seg, SegSpec,
};
use crate::text::{
    control, debug_text, from_chars, is_control, part, quoted, rows, same_chars, slice,
    strip_slashes, to_chars, trim_chars, trimmed, upper_hex, upper_hex_char,
    without_trailing_slashes,
};

verus! {

/// The longest rule that is accepted, in characters.
pub const MAX_PATTERN_LEN: usize = 512;

/// How many characters of an overlong rule its error message repeats.
pub const SHOWN_LEN: usize = 32;

// ---- what a rule means ----------------------------------------------------------------------

/// The first control character of `s`.
pub open spec fn first_control(s: Seq<char>) -> Option<char>
    decreases s.len(),
{
    if s.len() == 0 {
        None
    } else if control(s[0]) {
        Some(s[0])
    } else {
        first_control(s.drop_first())
    }
}

/// Four upper-case hexadecimal digits for a number below 256.
pub open spec fn upper_hex4(n: nat) -> Seq<char> {
    "00"@.push(upper_hex(n / 16)).push(upper_hex(n % 16))
}

/// The rule with a leading `~` replaced by the home directory, or why it cannot be replaced.
pub open spec fn expanded(body: Seq<char>, home: Seq<char>) -> Result<Seq<char>, Seq<char>> {
    if body.len() > 0 && body[0] == '~' {
        if body.len() == 1 || body[1] == '/' {
            let path = without_trailing_slashes(home) + body.drop_first();
            if path.len() == 0 {
                Ok("/"@)
            } else {
                Ok(path)
            }
        } else {
            Err(
                "ignore: cannot expand `~` in "@ + debug_text(body)
                    + " (start it with `~/`, or write an absolute path)"@,
            )
        }
    } else {
        Ok(body)
    }
}

/// Whether a segment names the directory itself or the one above.
pub open spec fn is_dot(seg: Seq<char>) -> bool {
    seg == "."@ || seg == ".."@
}

/// The first segment that names the directory itself or the one above.
pub open spec fn first_dot(segs: Seq<Seq<char>>) -> Option<Seq<char>>
    decreases segs.len(),
{
    if segs.len() == 0 {
        None
    } else if is_dot(segs[0]) {
        Some(segs[0])
    } else {
        first_dot(segs.drop_first())
    }
}

/// The segments of a glob.
pub open spec fn glob_segments(segs: Seq<Seq<char>>) -> Seq<SegSpec> {
    Seq::new(
        segs.len(),
        |i: int|
            if segs[i] == "**"@ {
                SegSpec::DoubleStar
            } else {
                SegSpec::Pat(segs[i])
            },
    )
}

/// The matcher of a rule that has passed the checks on its text, or why there is none.
pub open spec fn path_rule(body: Seq<char>, home: Seq<char>) -> Result<MatcherSpec, Seq<char>> {
    match expanded(body, home) {
        Err(e) => Err(e),
        Ok(path) => {
            let segs = path_segments(path);
            if path.len() == 0 {
                Err("ignore: an empty rule is not allowed"@)
            } else if first_dot(segs) is Some {
                Err(
                    "ignore: cannot resolve "@ + debug_text(first_dot(segs)->0) + " in "@
                        + debug_text(body)
                        + " (write an absolute path, or one starting with `~/`)"@,
                )
            } else if path[0] != '/' && !(segs.len() > 0 && segs[0] == "**"@) {
                Err(
                    "ignore: "@ + debug_text(body)
                        + " is not anchored at the root (start it with `/` or `~/`, or prefix it with `**/` as in `**/cron-jobs/**` to match at any depth)"@,
                )
            } else if !path.contains('*') && !path.contains('?') {
                Ok(MatcherSpec::Prefix(segs))
            } else {
                Ok(MatcherSpec::Glob(glob_segments(segs)))
            }
        },
    }
}

/// The matcher of a rule as written, or why there is none.
pub open spec fn rule(raw: Seq<char>, home: Seq<char>) -> Result<MatcherSpec, Seq<char>> {
    let body = trimmed(raw);
    if body.len() == 0 {
        Err("ignore: an empty rule is not allowed"@)
    } else if first_control(body) is Some {
        Err(
            "ignore: the rule contains a control character (U+"@ + upper_hex4(
                first_control(body)->0 as u32 as nat,
            ) + "): "@ + debug_text(body),
        )
    } else if body.len() > MAX_PATTERN_LEN {
        Err(
            "ignore: the rule is too long (at most 512 characters): "@ + debug_text(
                body.take(SHOWN_LEN as int),
            ) + "…"@,
        )
    } else {
        path_rule(body, home)
    }
}

// ---- compiling ------------------------------------------------------------------------------

fn find_control(v: &Vec<char>) -> (r: Option<char>)
    ensures
        r == first_control(v@),
        r is Some ==> control(r->0),
{
    let mut i: usize = 0;
    assert(v@.skip(0) == v@);
    while i < v.len()
        invariant
            i <= v@.len(),
            first_control(v@.skip(i as int)) == first_control(v@),
        decreases v@.len() - i,
    {
        if is_control(v[i]) {
            return Some(v[i]);
        }
        assert(v@.skip(i as int).drop_first() == v@.skip(i + 1));
        i += 1;
    }
    None
}

/// Replaces a leading `~` by the home directory. `~user` is refused: whose home it means
/// cannot be told.
pub fn expand_home(body: &str, home: &str) -> (r: Result<String, String>)
    ensures
        r is Ok == expanded(body@, home@) is Ok,
        r matches Ok(path) ==> path@ == expanded(body@, home@)->Ok_0,
        r matches Err(e) ==> e@ == expanded(body@, home@)->Err_0,
{
    let v = to_chars(body);
    if v.len() > 0 && v[0] == '~' {
        if v.len() == 1 || v[1] == '/' {
            let mut path = from_chars(&strip_slashes(home));
            let rest = slice(&v, 1, v.len());
            assert(rest@ == body@.drop_first());
            path.append(rest.as_str());
            if path.as_str().is_empty() {
                Ok("/".to_owned())
            } else {
                Ok(path)
            }
        } else {
            let mut e = "ignore: cannot expand `~` in ".to_owned();
            e.append(quoted(body).as_str());
            e.append(" (start it with `~/`, or write an absolute path)");
            Err(e)
        }
    } else {
        Ok(body.to_owned())
    }
}

fn find_dot(segs: &Vec<Vec<char>>) -> (r: Option<usize>)
    ensures
        r is Some == first_dot(rows(segs@)) is Some,
        r matches Some(i) ==> i < segs@.len() && first_dot(rows(segs@)) == Some(
            segs@[i as int]@,
        ),
{
    let one = to_chars(".");
    let two = to_chars("..");
    let mut i: usize = 0;
    assert(rows(segs@).skip(0) == rows(segs@));
    while i < segs.len()
        invariant
            i <= segs@.len(),
            one@ == "."@,
            two@ == ".."@,
            first_dot(rows(segs@).skip(i as int)) == first_dot(rows(segs@)),
        decreases segs@.len() - i,
    {
        assert(rows(segs@).skip(i as int)[0] == segs@[i as int]@);
        if same_chars(&segs[i], &one) || same_chars(&segs[i], &two) {
            return Some(i);
        }
        assert(rows(segs@).skip(i as int).drop_first() == rows(segs@).skip(i + 1));
        i += 1;
    }
    None
}

fn holds(v: &Vec<char>, c: char) -> (r: bool)
    ensures
        r == v@.contains(c),
{
    let mut i: usize = 0;
    while i < v.len()
        invariant
            i <= v@.len(),
            forall|k: int| 0 <= k < i ==> v@[k] != c,
        decreases v@.len() - i,
    {
        if v[i] == c {
            return true;
        }
        i += 1;
    }
    false
}

fn glob_of(segs: Vec<Vec<char>>) -> (r: Vec<Seg>)
    ensures
        seg_specs(r@) == glob_segments(rows(segs@)),
{
    let star = to_chars("**");
    let mut out: Vec<Seg> = Vec::new();
    let mut i: usize = 0;
    while i < segs.len()
        invariant
            i <= segs@.len(),
            out@.len() == i,
            star@ == "**"@,
            forall|k: int|
                0 <= k < i ==> (#[trigger] out@[k])@ == glob_segments(rows(segs@))[k],
        decreases segs@.len() - i,
    {
        if same_chars(&segs[i], &star) {
            out.push(Seg::DoubleStar);
        } else {
            let pat = part(&segs[i], 0, segs[i].len());
            assert(pat@ == segs@[i as int]@);
            out.push(Seg::Pat(pat));
        }
        i += 1;
    }
    assert(seg_specs(out@) =~= glob_segments(rows(segs@)));
    out
}

/// Decides what kind of rule `body` is and compiles it.
pub fn path_matcher(body: &str, home: &str) -> (r: Result<Matcher, String>)
    ensures
        r is Ok == path_rule(body@, home@) is Ok,
        r matches Ok(m) ==> m@ == path_rule(body@, home@)->Ok_0,
        r matches Err(e) ==> e@ == path_rule(body@, home@)->Err_0,
{
    let path = match expand_home(body, home) {
        Ok(path) => path,
        Err(e) => {
            return Err(e);
        },
    };
    if path.as_str().is_empty() {
        return Err("ignore: an empty rule is not allowed".to_owned());
    }
    let segs = split_path(path.as_str());
    if let Some(i) = find_dot(&segs) {
        let mut e = "ignore: cannot resolve ".to_owned();
        e.append(quoted(from_chars(&segs[i]).as_str()).as_str());
        e.append(" in ");
        e.append(quoted(body).as_str());
        e.append(" (write an absolute path, or one starting with `~/`)");
        return Err(e);
    }
    let v = to_chars(path.as_str());
    let deep = segs.len() > 0 && same_chars(&segs[0], &to_chars("**"));
    assert(segs@.len() > 0 ==> rows(segs@)[0] == segs@[0]@);
    if v[0] != '/' && !deep {
        let mut e = "ignore: ".to_owned();
        e.append(quoted(body).as_str());
        e.append(
            " is not anchored at the root (start it with `/` or `~/`, or prefix it with `**/` as in `**/cron-jobs/**` to match at any depth)",
        );
        return Err(e);
    }
    if !holds(&v, '*') && !holds(&v, '?') {
        Ok(Matcher::Prefix(segs))
    } else {
        Ok(Matcher::Glob(glob_of(segs)))
    }
}

/// Checks a rule as written; gives it back without the white space around it, together with
/// its matcher.
pub fn compile(raw: &str, home: &str) -> (r: Result<(String, Matcher), String>)
    ensures
        r is Ok == rule(raw@, home@) is Ok,
        r matches Ok((text, m)) ==> text@ == trimmed(raw@) && m@ == rule(raw@, home@)->Ok_0,
        r matches Err(e) ==> e@ == rule(raw@, home@)->Err_0,
{
    let v = trim_chars(&to_chars(raw));
    let body = from_chars(&v);
    if v.len() == 0 {
        return Err("ignore: an empty rule is not allowed".to_owned());
    }
    if let Some(c) = find_control(&v) {
        let n: u32 = c as u32;
        let mut e = "ignore: the rule contains a control character (U+".to_owned();
        let mut hex = "00".to_owned();
        hex.push(upper_hex_char(n / 16));
        hex.push(upper_hex_char(n % 16));
        e.append(hex.as_str());
        e.append("): ");
        e.append(quoted(body.as_str()).as_str());
        return Err(e);
    }
    if v.len() > MAX_PATTERN_LEN {
        let shown = slice(&v, 0, SHOWN_LEN);
        assert(shown@ == v@.take(SHOWN_LEN as int));
        let mut e = "ignore: the rule is too long (at most 512 characters): ".to_owned();
        e.append(quoted(shown.as_str()).as_str());
        e.append("…");
        return Err(e);
    }
    match path_matcher(body.as_str(), home) {
        Ok(m) => Ok((body, m)),
        Err(e) => Err(e),
    }
}

} // verus!
