//! What rules hide, in terms of the segments that a rule and a directory are written with.

use vstd::prelude::*;

use super::glob::{
    begins_with, law_a_glob_matches_segment_by_segment, law_a_segment_matches_letter_by_letter,
    letter_fits, letters_fit, path_segments, rule_matches, segment_fits, segments_fit,
    segments_match, MatcherSpec,
};
use super::parse::{first_control, first_dot, glob_segments, is_dot, rule};
use super::{accepted, any_matches};
use crate::text::{
    control, lemma_nothing_to_trim, lemma_split_pieces, lemma_split_single, non_empty, split,
    trimmed, white, without_trailing_slashes,
};

verus! {

/// A path written from its segments: each with a slash before it.
pub open spec fn slashed(segs: Seq<Seq<char>>) -> Seq<char>
    decreases segs.len(),
{
    if segs.len() == 0 {
        Seq::empty()
    } else {
        slashed(segs.drop_last()) + seq!['/'] + segs.last()
    }
}

/// Whether every segment is there, and none holds a slash.
pub open spec fn are_segments(segs: Seq<Seq<char>>) -> bool {
    forall|i: int| 0 <= i < segs.len() ==> (#[trigger] segs[i]).len() > 0 && !segs[i].contains('/')
}

/// Whether segments can be written as a rule: not too many characters, no control character, no
/// `.` and no `..`, and no white space at the end.
pub open spec fn can_be_written(segs: Seq<Seq<char>>) -> bool {
    &&& segs.len() > 0
    &&& are_segments(segs)
    &&& slashed(segs).len() <= 512
    &&& !white(segs.last().last())
    &&& forall|i: int, k: int|
        0 <= i < segs.len() && 0 <= k < segs[i].len() ==> !control(#[trigger] segs[i][k])
    &&& forall|i: int| 0 <= i < segs.len() ==> #[trigger] segs[i] != "."@ && segs[i] != ".."@
}

/// Whether a segment has a wildcard.
pub open spec fn is_wild(seg: Seq<char>) -> bool {
    seg.contains('*') || seg.contains('?')
}

/// Whether one of the segments has a wildcard.
pub open spec fn some_wild(segs: Seq<Seq<char>>) -> bool {
    exists|i: int| 0 <= i < segs.len() && is_wild(#[trigger] segs[i])
}

/// Whether a rule, as written, hides a directory.
pub open spec fn hides(raw: Seq<char>, home: Seq<char>, cwd: Seq<char>) -> bool {
    rule(raw, home) matches Ok(m) && rule_matches(m, cwd)
}

proof fn lemma_split_slash(a: Seq<char>, b: Seq<char>)
    requires
        !b.contains('/'),
    ensures
        split(a + seq!['/'] + b, '/') == split(a, '/').push(b),
    decreases b.len(),
{
    let s = a + seq!['/'] + b;
    lemma_split_pieces(a, '/');
    if b.len() == 0 {
        assert(s.drop_last() =~= a);
        assert(s.last() == '/');
        assert(b =~= Seq::<char>::empty());
    } else {
        let shorter = b.drop_last();
        assert(b.contains(b[b.len() - 1]));
        assert forall|c: char| #[trigger] shorter.contains(c) implies b.contains(c) by {
            let i = choose|i: int| 0 <= i < shorter.len() && shorter[i] == c;
            assert(b[i] == c);
        }
        lemma_split_slash(a, shorter);
        assert(s.drop_last() =~= a + seq!['/'] + shorter);
        assert(s.last() == b.last());
        let before = split(a, '/').push(shorter);
        assert(before.drop_last() =~= split(a, '/'));
        assert(shorter.push(b.last()) =~= b);
    }
}

/// The segments of a path are those that it was written from.
pub proof fn law_a_path_has_its_segments(segs: Seq<Seq<char>>)
    requires
        are_segments(segs),
    ensures
        path_segments(slashed(segs)) == segs,
    decreases segs.len(),
{
    let s = slashed(segs);
    if segs.len() == 0 {
        let one = split(s, '/');
        assert(one.len() == 1 && one[0].len() == 0);
        assert(one.drop_last() =~= Seq::<Seq<char>>::empty());
        assert(non_empty(one.drop_last()) =~= segs);
    } else {
        let shorter = segs.drop_last();
        assert forall|i: int| 0 <= i < shorter.len() implies (#[trigger] shorter[i]).len() > 0
            && !shorter[i].contains('/') by {
            assert(shorter[i] == segs[i]);
        }
        law_a_path_has_its_segments(shorter);
        let last = segs[segs.len() - 1];
        assert(last.len() > 0 && !last.contains('/'));
        lemma_split_slash(slashed(shorter), last);
        let pieces = split(slashed(shorter), '/').push(last);
        assert(pieces.drop_last() =~= split(slashed(shorter), '/'));
        assert(shorter.push(last) =~= segs);
    }
}

proof fn lemma_slashed_begins(segs: Seq<Seq<char>>)
    requires
        segs.len() > 0,
    ensures
        slashed(segs).len() > 0,
        slashed(segs)[0] == '/',
    decreases segs.len(),
{
    let shorter = segs.drop_last();
    if segs.len() > 1 {
        lemma_slashed_begins(shorter);
        assert(slashed(segs)[0] == slashed(shorter)[0]);
    } else {
        assert(slashed(shorter) =~= Seq::<char>::empty());
        assert(slashed(segs)[0] == '/');
    }
}

proof fn lemma_slashed_holds(segs: Seq<Seq<char>>, c: char)
    requires
        c != '/',
    ensures
        slashed(segs).contains(c) <==> exists|i: int|
            0 <= i < segs.len() && (#[trigger] segs[i]).contains(c),
    decreases segs.len(),
{
    if segs.len() > 0 {
        let shorter = segs.drop_last();
        let front = slashed(shorter) + seq!['/'];
        let last = segs.last();
        let s = slashed(segs);
        lemma_slashed_holds(shorter, c);
        if s.contains(c) {
            let k = choose|k: int| 0 <= k < s.len() && s[k] == c;
            if k < slashed(shorter).len() {
                assert(slashed(shorter)[k] == c);
                let i = choose|i: int| 0 <= i < shorter.len() && (#[trigger] shorter[i]).contains(c);
                assert(segs[i] == shorter[i]);
            } else {
                assert(k >= front.len());
                assert(last[k - front.len()] == c);
                assert(segs[segs.len() - 1].contains(c));
            }
        }
        if exists|i: int| 0 <= i < segs.len() && (#[trigger] segs[i]).contains(c) {
            let i = choose|i: int| 0 <= i < segs.len() && (#[trigger] segs[i]).contains(c);
            if i < shorter.len() {
                assert(shorter[i] == segs[i]);
                let k = choose|k: int| 0 <= k < slashed(shorter).len() && slashed(shorter)[k] == c;
                assert(s[k] == c);
            } else {
                let k = choose|k: int| 0 <= k < last.len() && last[k] == c;
                assert(s[front.len() + k] == c);
            }
        }
    }
}

proof fn lemma_no_control(s: Seq<char>)
    requires
        forall|i: int| 0 <= i < s.len() ==> !control(#[trigger] s[i]),
    ensures
        first_control(s) is None,
    decreases s.len(),
{
    if s.len() > 0 {
        let rest = s.drop_first();
        assert(!control(s[0]));
        assert forall|i: int| 0 <= i < rest.len() implies !control(#[trigger] rest[i]) by {
            assert(rest[i] == s[i + 1]);
        }
        lemma_no_control(rest);
    }
}

proof fn lemma_no_dot(segs: Seq<Seq<char>>)
    requires
        forall|i: int| 0 <= i < segs.len() ==> #[trigger] segs[i] != "."@ && segs[i] != ".."@,
    ensures
        first_dot(segs) is None,
    decreases segs.len(),
{
    if segs.len() > 0 {
        let rest = segs.drop_first();
        assert(segs[0] != "."@);
        assert forall|i: int| 0 <= i < rest.len() implies #[trigger] rest[i] != "."@ && rest[i]
            != ".."@ by {
            assert(rest[i] == segs[i + 1]);
        }
        lemma_no_dot(rest);
    }
}

proof fn lemma_clean_slashed(segs: Seq<Seq<char>>)
    requires
        forall|i: int, k: int|
            0 <= i < segs.len() && 0 <= k < segs[i].len() ==> !control(#[trigger] segs[i][k]),
    ensures
        forall|i: int| 0 <= i < slashed(segs).len() ==> !control(#[trigger] slashed(segs)[i]),
{
    let s = slashed(segs);
    assert forall|i: int| 0 <= i < s.len() implies !control(#[trigger] s[i]) by {
        if s[i] != '/' {
            lemma_slashed_holds(segs, s[i]);
            assert(s.contains(s[i]));
            let n = choose|n: int| 0 <= n < segs.len() && (#[trigger] segs[n]).contains(s[i]);
            let k = choose|k: int| 0 <= k < segs[n].len() && segs[n][k] == s[i];
            assert(!control(segs[n][k]));
        }
    }
}

/// A rule that is written from segments is accepted. Without a wildcard it stands for the
/// directory with these segments, and otherwise for a glob.
proof fn lemma_written_rule(segs: Seq<Seq<char>>, home: Seq<char>)
    requires
        can_be_written(segs),
    ensures
        rule(slashed(segs), home) == if some_wild(segs) {
            Ok::<MatcherSpec, Seq<char>>(MatcherSpec::Glob(glob_segments(segs)))
        } else {
            Ok::<MatcherSpec, Seq<char>>(MatcherSpec::Prefix(segs))
        },
{
    let s = slashed(segs);
    law_a_path_has_its_segments(segs);
    lemma_slashed_begins(segs);
    lemma_clean_slashed(segs);
    lemma_no_control(s);
    lemma_no_dot(segs);
    lemma_slashed_holds(segs, '*');
    lemma_slashed_holds(segs, '?');
    assert(s.last() == segs.last().last());
    assert(!white('/'));
    lemma_nothing_to_trim(s);
    assert(s.contains('*') || s.contains('?') <==> some_wild(segs)) by {
        if s.contains('*') {
            let i = choose|i: int| 0 <= i < segs.len() && (#[trigger] segs[i]).contains('*');
            assert(is_wild(segs[i]));
        }
        if s.contains('?') {
            let i = choose|i: int| 0 <= i < segs.len() && (#[trigger] segs[i]).contains('?');
            assert(is_wild(segs[i]));
        }
    }
}

/// A rule without a wildcard hides its directory and everything below it, and nothing else: the
/// segments of the directory must begin with those of the rule.
pub proof fn law_a_plain_rule_hides_its_subtree(
    segs: Seq<Seq<char>>,
    home: Seq<char>,
    dir: Seq<Seq<char>>,
)
    requires
        can_be_written(segs),
        !some_wild(segs),
        are_segments(dir),
    ensures
        hides(slashed(segs), home, slashed(dir)) <==> exists|below: Seq<Seq<char>>| #[trigger]
            (segs + below) == dir,
{
    lemma_written_rule(segs, home);
    law_a_path_has_its_segments(dir);
    if begins_with(segs, dir) {
        let below = dir.skip(segs.len() as int);
        assert(segs + below =~= dir) by {
            assert forall|i: int| 0 <= i < dir.len() implies (segs + below)[i] == dir[i] by {
                if i < segs.len() {
                    assert(segs[i] == dir[i]);
                }
            }
        }
    }
    if exists|below: Seq<Seq<char>>| #[trigger] (segs + below) == dir {
        let below = choose|below: Seq<Seq<char>>| #[trigger] (segs + below) == dir;
        assert forall|i: int| 0 <= i < segs.len() implies #[trigger] segs[i] == dir[i] by {
            assert((segs + below)[i] == segs[i]);
        }
    }
}

/// Whether segment `i` of a rule takes the segments of a directory from `cuts[i]` up to
/// `cuts[i + 1]`: `**` takes any run of them, none included, and any other segment takes one,
/// over which its letters can be laid.
pub open spec fn written_fits(
    segs: Seq<Seq<char>>,
    dir: Seq<Seq<char>>,
    cuts: Seq<int>,
    i: int,
) -> bool {
    &&& 0 <= cuts[i] <= dir.len()
    &&& segs[i] == "**"@ ==> cuts[i] <= cuts[i + 1]
    &&& segs[i] != "**"@ ==> cuts[i] < dir.len() && cuts[i + 1] == cuts[i] + 1 && exists|
        letters: Seq<int>,
    | #[trigger] letters_fit(segs[i], dir[cuts[i]], letters)
}

/// Whether a rule can be laid over a directory, cut so.
pub open spec fn rule_fits(segs: Seq<Seq<char>>, dir: Seq<Seq<char>>, cuts: Seq<int>) -> bool {
    &&& cuts.len() == segs.len() + 1
    &&& cuts[0] == 0
    &&& cuts.last() == dir.len()
    &&& forall|i: int| 0 <= i < segs.len() ==> #[trigger] written_fits(segs, dir, cuts, i)
}

proof fn lemma_written_fits(segs: Seq<Seq<char>>, dir: Seq<Seq<char>>, cuts: Seq<int>)
    ensures
        rule_fits(segs, dir, cuts) == segments_fit(glob_segments(segs), dir, cuts),
{
    let pats = glob_segments(segs);
    assert forall|i: int| 0 <= i < segs.len() implies #[trigger] written_fits(segs, dir, cuts, i)
        == #[trigger] segment_fits(pats, dir, cuts, i) by {
        law_a_segment_matches_letter_by_letter(segs[i], dir[cuts[i]]);
    }
    if rule_fits(segs, dir, cuts) {
        assert forall|i: int| 0 <= i < pats.len() implies #[trigger] segment_fits(
            pats,
            dir,
            cuts,
            i,
        ) by {
            assert(written_fits(segs, dir, cuts, i));
        }
    }
    if segments_fit(pats, dir, cuts) {
        assert forall|i: int| 0 <= i < segs.len() implies #[trigger] written_fits(
            segs,
            dir,
            cuts,
            i,
        ) by {
            assert(segment_fits(pats, dir, cuts, i));
        }
    }
}

/// A rule with a wildcard hides a directory just if the rule can be laid over it, segment by
/// segment: `**` crosses any number of segments wherever it stands, and `*` and `?` stay within
/// one.
pub proof fn law_a_glob_hides_as_written(
    segs: Seq<Seq<char>>,
    home: Seq<char>,
    dir: Seq<Seq<char>>,
)
    requires
        can_be_written(segs),
        some_wild(segs),
        are_segments(dir),
    ensures
        hides(slashed(segs), home, slashed(dir)) <==> exists|cuts: Seq<int>| #[trigger]
            rule_fits(segs, dir, cuts),
{
    let pats = glob_segments(segs);
    lemma_written_rule(segs, home);
    law_a_path_has_its_segments(dir);
    law_a_glob_matches_segment_by_segment(pats, dir);
    if segments_match(pats, dir) {
        let cuts = choose|cuts: Seq<int>| #[trigger] segments_fit(pats, dir, cuts);
        lemma_written_fits(segs, dir, cuts);
        assert(rule_fits(segs, dir, cuts));
    }
    if exists|cuts: Seq<int>| #[trigger] rule_fits(segs, dir, cuts) {
        let cuts = choose|cuts: Seq<int>| #[trigger] rule_fits(segs, dir, cuts);
        lemma_written_fits(segs, dir, cuts);
        assert(segments_fit(pats, dir, cuts));
    }
}

/// A `**` between two plain paths hides every directory that begins with the first and ends with
/// the second, with any number of segments between, none included; and the end may be missing or
/// the beginning, too.
pub proof fn law_a_double_star_crosses_any_number(
    before: Seq<Seq<char>>,
    between: Seq<Seq<char>>,
    after: Seq<Seq<char>>,
    home: Seq<char>,
)
    requires
        can_be_written(before + seq!["**"@] + after),
        are_segments(between),
        !some_wild(before),
        !some_wild(after),
    ensures
        hides(slashed(before + seq!["**"@] + after), home, slashed(before + between + after)),
{
    let segs = before + seq!["**"@] + after;
    let dir = before + between + after;
    let b = before.len() as int;
    reveal_strlit("**");
    assert("**"@[0] == '*');
    assert(segs[b].contains('*'));
    assert(is_wild(segs[b]));
    assert(some_wild(segs));
    assert forall|i: int| 0 <= i < dir.len() implies (#[trigger] dir[i]).len() > 0
        && !dir[i].contains('/') by {
        if i < b {
            assert(segs[i] == dir[i]);
        } else if i < b + between.len() {
            assert(dir[i] == between[i - b]);
        } else {
            assert(segs[i - between.len() + 1] == dir[i]);
        }
    }
    let cuts = Seq::new(
        (segs.len() + 1) as nat,
        |i: int|
            if i <= b {
                i
            } else {
                i - 1 + between.len()
            },
    );
    assert forall|i: int| 0 <= i < segs.len() implies #[trigger] written_fits(
        segs,
        dir,
        cuts,
        i,
    ) by {
        if i < b {
            assert(segs[i] == before[i]);
            assert(!is_wild(before[i]));
            lemma_plain_fits(segs[i]);
            lemma_no_star(segs[i]);
            assert(dir[cuts[i]] == segs[i]);
        } else if i > b {
            assert(segs[i] == after[i - b - 1]);
            assert(!is_wild(after[i - b - 1]));
            lemma_plain_fits(segs[i]);
            lemma_no_star(segs[i]);
            assert(dir[cuts[i]] == segs[i]);
        }
    }
    assert(cuts.last() == dir.len());
    assert(rule_fits(segs, dir, cuts));
    law_a_glob_hides_as_written(segs, home, dir);
}

proof fn lemma_no_star(seg: Seq<char>)
    requires
        !is_wild(seg),
    ensures
        seg != "**"@,
{
    reveal_strlit("**");
    assert("**"@[0] == '*');
    if seg == "**"@ {
        assert(seg[0] == '*');
        assert(seg.contains('*'));
    }
}

proof fn lemma_plain_fits(seg: Seq<char>)
    requires
        !is_wild(seg),
    ensures
        exists|letters: Seq<int>| #[trigger] letters_fit(seg, seg, letters),
{
    let letters = Seq::new((seg.len() + 1) as nat, |i: int| i);
    assert forall|i: int| 0 <= i < seg.len() implies #[trigger] letter_fits(
        seg,
        seg,
        letters,
        i,
    ) by {
        if seg[i] == '*' || seg[i] == '?' {
            assert(seg.contains(seg[i]));
        }
    }
    assert(letters_fit(seg, seg, letters));
}

/// A rule that begins with `**` needs no slash before it.
pub proof fn law_any_depth_needs_no_slash(segs: Seq<Seq<char>>, home: Seq<char>)
    requires
        can_be_written(segs),
        segs[0] == "**"@,
    ensures
        rule(slashed(segs).drop_first(), home) == rule(slashed(segs), home),
{
    let s = slashed(segs);
    let t = s.drop_first();
    reveal_strlit("**");
    assert("**"@.len() == 2 && "**"@[0] == '*');
    lemma_written_rule(segs, home);
    lemma_slashed_begins(segs);
    lemma_after_the_slash(segs);
    lemma_clean_slashed(segs);
    assert forall|i: int| 0 <= i < t.len() implies !control(#[trigger] t[i]) by {
        assert(t[i] == s[i + 1]);
    }
    lemma_no_control(t);
    lemma_no_dot(segs);
    assert(s.last() == segs.last().last());
    assert(t.last() == s.last());
    assert(!white('*'));
    lemma_nothing_to_trim(t);
    assert(t.contains('*')) by {
        assert(t[0] == '*');
    }
    assert(is_wild(segs[0])) by {
        assert(segs[0][0] == '*');
    }
}

proof fn lemma_after_the_slash(segs: Seq<Seq<char>>)
    requires
        segs.len() > 0,
        are_segments(segs),
    ensures
        slashed(segs).len() > 1,
        slashed(segs)[1] == segs[0][0],
        path_segments(slashed(segs).drop_first()) == segs,
    decreases segs.len(),
{
    let s = slashed(segs);
    let t = s.drop_first();
    let shorter = segs.drop_last();
    let last = segs[segs.len() - 1];
    assert(last.len() > 0 && !last.contains('/'));
    if segs.len() == 1 {
        assert(t =~= last);
        lemma_split_single(last, '/');
        let pieces = seq![last];
        assert(pieces.drop_last() =~= Seq::<Seq<char>>::empty());
        assert(non_empty(pieces) =~= segs) by {
            assert(non_empty(pieces.drop_last()) =~= Seq::<Seq<char>>::empty());
        }
    } else {
        assert forall|i: int| 0 <= i < shorter.len() implies (#[trigger] shorter[i]).len() > 0
            && !shorter[i].contains('/') by {
            assert(shorter[i] == segs[i]);
        }
        lemma_after_the_slash(shorter);
        let u = slashed(shorter).drop_first();
        assert(t =~= u + seq!['/'] + last);
        lemma_split_slash(u, last);
        let pieces = split(u, '/').push(last);
        assert(pieces.drop_last() =~= split(u, '/'));
        assert(shorter.push(last) =~= segs);
    }
}

/// A leading `~` stands for the home directory: the rule means what it means with the home
/// directory written out.
pub proof fn law_a_tilde_stands_for_the_home_directory(
    home: Seq<Seq<char>>,
    segs: Seq<Seq<char>>,
)
    requires
        can_be_written(home + segs),
        can_be_written(segs),
        are_segments(home),
        slashed(segs).len() < 512,
    ensures
        rule(seq!['~'] + slashed(segs), slashed(home)) == rule(
            slashed(home + segs),
            slashed(home),
        ),
{
    let s = slashed(segs);
    let body = seq!['~'] + s;
    lemma_written_rule(home + segs, slashed(home));
    lemma_slashed_begins(segs);
    lemma_slashed_join(home, segs);
    lemma_no_slash_at_the_end(home);
    lemma_clean_slashed(segs);
    assert forall|i: int| 0 <= i < body.len() implies !control(#[trigger] body[i]) by {
        if i > 0 {
            assert(body[i] == s[i - 1]);
        }
    }
    lemma_no_control(body);
    assert(body.last() == s.last());
    assert(s.last() == segs.last().last());
    assert(!white('~'));
    lemma_nothing_to_trim(body);
    assert(body.drop_first() =~= s);
    let path = slashed(home + segs);
    assert(without_trailing_slashes(slashed(home)) + body.drop_first() =~= path);
    law_a_path_has_its_segments(home + segs);
    lemma_slashed_begins(home + segs);
    lemma_no_dot(home + segs);
    lemma_slashed_holds(home + segs, '*');
    lemma_slashed_holds(home + segs, '?');
    assert(path.contains('*') || path.contains('?') <==> some_wild(home + segs)) by {
        let all = home + segs;
        if path.contains('*') {
            let i = choose|i: int| 0 <= i < all.len() && (#[trigger] all[i]).contains('*');
            assert(is_wild(all[i]));
        }
        if path.contains('?') {
            let i = choose|i: int| 0 <= i < all.len() && (#[trigger] all[i]).contains('?');
            assert(is_wild(all[i]));
        }
    }
}

proof fn lemma_slashed_join(a: Seq<Seq<char>>, b: Seq<Seq<char>>)
    ensures
        slashed(a + b) == slashed(a) + slashed(b),
    decreases b.len(),
{
    if b.len() == 0 {
        assert(a + b =~= a);
        assert(slashed(a) + slashed(b) =~= slashed(a));
    } else {
        lemma_slashed_join(a, b.drop_last());
        assert((a + b).drop_last() =~= a + b.drop_last());
        assert((a + b).last() == b.last());
        assert(slashed(a + b) =~= slashed(a) + slashed(b));
    }
}

proof fn lemma_no_slash_at_the_end(segs: Seq<Seq<char>>)
    requires
        are_segments(segs),
    ensures
        without_trailing_slashes(slashed(segs)) == slashed(segs),
{
    if segs.len() > 0 {
        let last = segs[segs.len() - 1];
        assert(last.len() > 0 && !last.contains('/'));
        assert(slashed(segs).last() == last.last());
        assert(last.contains(last[last.len() - 1]));
    }
}

/// A list of rules, as written, hides a directory just if one of them does. Those that are refused
/// hide nothing.
pub proof fn law_one_rule_is_enough(lines: Seq<Seq<char>>, home: Seq<char>, cwd: Seq<char>)
    ensures
        any_matches(accepted(lines, home), cwd) <==> exists|i: int|
            0 <= i < lines.len() && hides(#[trigger] lines[i], home, cwd),
    decreases lines.len(),
{
    let all = accepted(lines, home);
    if lines.len() > 0 {
        let shorter = lines.drop_last();
        let before = accepted(shorter, home);
        law_one_rule_is_enough(shorter, home, cwd);
        if any_matches(all, cwd) {
            let k = choose|k: int|
                0 <= k < all.len() && rule_matches((#[trigger] all[k]).compiled, cwd);
            if k < before.len() {
                assert(before[k] == all[k]);
                assert(any_matches(before, cwd));
                let i = choose|i: int|
                    0 <= i < shorter.len() && hides(#[trigger] shorter[i], home, cwd);
                assert(lines[i] == shorter[i]);
            } else {
                assert(hides(lines[lines.len() - 1], home, cwd));
            }
        }
        if exists|i: int| 0 <= i < lines.len() && hides(#[trigger] lines[i], home, cwd) {
            let i = choose|i: int| 0 <= i < lines.len() && hides(#[trigger] lines[i], home, cwd);
            if i < shorter.len() {
                assert(shorter[i] == lines[i]);
                let k = choose|k: int|
                    0 <= k < before.len() && rule_matches((#[trigger] before[k]).compiled, cwd);
                assert(all[k] == before[k]);
            } else {
                assert(rule_matches(all[before.len() as int].compiled, cwd));
            }
        }
    }
}

/// A rule that is accepted says something, is not too long, and holds no control character. It
/// begins at the root, at the home directory, or at any depth.
pub proof fn law_an_accepted_rule_is_anchored(raw: Seq<char>, home: Seq<char>)
    requires
        rule(raw, home) is Ok,
    ensures
        0 < trimmed(raw).len() <= 512,
        forall|i: int| 0 <= i < trimmed(raw).len() ==> !control(#[trigger] trimmed(raw)[i]),
        trimmed(raw)[0] == '/' || trimmed(raw)[0] == '~' || trimmed(raw)[0] == '*',
        trimmed(raw)[0] == '~' && trimmed(raw).len() > 1 ==> trimmed(raw)[1] == '/',
{
    let body = trimmed(raw);
    lemma_clean_means_clean(body);
    if body[0] != '~' {
        let segs = path_segments(body);
        if body[0] != '/' {
            reveal_strlit("**");
            assert("**"@[0] == '*');
            lemma_first_segment(body);
        }
    }
}

/// A rule with a `.` or a `..` among its segments is refused, wherever it stands.
pub proof fn law_dots_are_refused(segs: Seq<Seq<char>>, home: Seq<char>, k: int)
    requires
        are_segments(segs),
        0 <= k < segs.len(),
        segs[k] == "."@ || segs[k] == ".."@,
        !white(segs.last().last()),
    ensures
        rule(slashed(segs), home) is Err,
{
    let s = slashed(segs);
    law_a_path_has_its_segments(segs);
    lemma_slashed_begins(segs);
    assert(s.last() == segs.last().last());
    assert(!white('/'));
    lemma_nothing_to_trim(s);
    lemma_a_dot_is_found(segs, k);
}

proof fn lemma_a_dot_is_found(segs: Seq<Seq<char>>, k: int)
    requires
        0 <= k < segs.len(),
        segs[k] == "."@ || segs[k] == ".."@,
    ensures
        first_dot(segs) is Some,
    decreases segs.len(),
{
    if k > 0 && !is_dot(segs[0]) {
        assert(segs.drop_first()[k - 1] == segs[k]);
        lemma_a_dot_is_found(segs.drop_first(), k - 1);
    }
}

proof fn lemma_clean_means_clean(s: Seq<char>)
    requires
        first_control(s) is None,
    ensures
        forall|i: int| 0 <= i < s.len() ==> !control(#[trigger] s[i]),
    decreases s.len(),
{
    if s.len() > 0 {
        let rest = s.drop_first();
        lemma_clean_means_clean(rest);
        assert forall|i: int| 0 <= i < s.len() implies !control(#[trigger] s[i]) by {
            if i > 0 {
                assert(s[i] == rest[i - 1]);
            }
        }
    }
}

proof fn lemma_first_segment(s: Seq<char>)
    requires
        s.len() > 0,
        s[0] != '/',
    ensures
        path_segments(s).len() > 0,
        path_segments(s)[0].len() > 0,
        path_segments(s)[0][0] == s[0],
    decreases s.len(),
{
    lemma_first_piece(s);
    lemma_first_kept(split(s, '/'));
}

proof fn lemma_first_piece(s: Seq<char>)
    requires
        s.len() > 0,
        s[0] != '/',
    ensures
        split(s, '/').len() > 0,
        split(s, '/')[0].len() > 0,
        split(s, '/')[0][0] == s[0],
    decreases s.len(),
{
    let t = s.drop_last();
    lemma_split_pieces(t, '/');
    if t.len() == 0 {
        let before = split(t, '/');
        assert(before =~= seq![Seq::<char>::empty()]);
    } else {
        assert(t[0] == s[0]);
        lemma_first_piece(t);
    }
}

proof fn lemma_first_kept(pieces: Seq<Seq<char>>)
    requires
        pieces.len() > 0,
        pieces[0].len() > 0,
    ensures
        non_empty(pieces).len() > 0,
        non_empty(pieces)[0] == pieces[0],
    decreases pieces.len(),
{
    if pieces.len() > 1 {
        lemma_first_kept(pieces.drop_last());
    } else {
        assert(non_empty(pieces.drop_last()) =~= Seq::<Seq<char>>::empty());
    }
}

} // verus!
