//! Rules that keep sessions out of the list.
//!
//! A rule filters what is shown. It has no say in whether a session is alive: a session that
//! is not shown keeps its file.
//!
//! A rule is matched against the working directory alone and has one of two forms:
//!
//! | rule | meaning |
//! |---|---|
//! | `/Users/x/work/tmp`, `~/work/tmp` | that directory and everything below it; `/a/foo` does not match `/a/foobar` |
//! | `~/work/tmp/**`, `**/cron-jobs/**` | a glob: `*` and `?` stay within one segment, `**` crosses segments |
//!
//! A glob means what it says: `~/work/tmp/*` is one level and no more. A rule that is neither
//! anchored at the root nor starts with `**` is refused, since it could never match.

use vstd::prelude::*;

use crate::session::Session;
use crate::text::{lemma_split_pieces, lemma_trimmed_is_trimmed, non_empty, split, texts, trimmed};
use glob::{begins_with, path_segments, rule_matches, segments_match, Matcher, MatcherSpec, SegSpec};
use parse::{compile, rule};

pub mod glob;
pub mod laws;
pub mod parse;

verus! {

/// One rule.
///
/// It keeps the text as written, not the expanded path: written back, `~/work` stays `~/work`.
#[derive(Debug, Clone, PartialEq, Eq)]
pub struct IgnorePattern {
    raw: String,
    matcher: Matcher,
}

impl IgnorePattern {
    /// The rule as written.
    pub closed spec fn written(&self) -> Seq<char> {
        self.raw@
    }

    /// What the rule matches.
    pub closed spec fn compiled(&self) -> MatcherSpec {
        self.matcher@
    }

    /// The rule as written.
    pub fn as_str(&self) -> (r: &str)
        ensures
            r@ == self.written(),
    {
        self.raw.as_str()
    }

    /// Parses a rule; a leading `~` stands for `home`.
    pub fn parse_in(raw: &str, home: &str) -> (r: Result<Self, String>)
        ensures
            r is Ok == rule(raw@, home@) is Ok,
            r matches Ok(p) ==> p.written() == trimmed(raw@) && p.compiled() == rule(
                raw@,
                home@,
            )->Ok_0,
            r matches Err(e) ==> e@ == rule(raw@, home@)->Err_0,
    {
        match compile(raw, home) {
            Ok((raw, matcher)) => Ok(IgnorePattern { raw, matcher }),
            Err(e) => Err(e),
        }
    }

    /// Parses a rule with a home directory that is looked up.
    pub fn parse(raw: &str, home: impl FnOnce() -> String) -> (r: Result<Self, String>)
        requires
            call_requires(home, ()),
        ensures
            exists|dir: String| #[trigger]
                call_ensures(home, (), dir) && r is Ok == rule(raw@, dir@) is Ok && (r matches Ok(
                    p,
                ) ==> p.written() == trimmed(raw@) && p.compiled() == rule(raw@, dir@)->Ok_0) && (
                r matches Err(e) ==> e@ == rule(raw@, dir@)->Err_0),
    {
        let dir = home();
        IgnorePattern::parse_in(raw, dir.as_str())
    }

    /// Whether this rule keeps the session out of the list.
    pub fn matches(&self, s: &Session) -> (r: bool)
        ensures
            r == rule_matches(self.compiled(), s.cwd@),
    {
        self.matcher.matches(s.cwd.as_str())
    }
}

/// A list of rules. A session that any of them matches is kept out of the list.
#[derive(Debug, Clone, PartialEq, Eq)]
pub struct IgnoreRules {
    patterns: Vec<IgnorePattern>,
}

/// A rule that was accepted: its text and its matcher.
pub struct RuleSpec {
    pub written: Seq<char>,
    pub compiled: MatcherSpec,
}

/// The rules that are accepted among `lines`, in order.
pub open spec fn accepted(lines: Seq<Seq<char>>, home: Seq<char>) -> Seq<RuleSpec>
    decreases lines.len(),
{
    if lines.len() == 0 {
        Seq::empty()
    } else {
        let before = accepted(lines.drop_last(), home);
        match rule(lines.last(), home) {
            Ok(m) => before.push(RuleSpec { written: trimmed(lines.last()), compiled: m }),
            Err(_) => before,
        }
    }
}

/// The reasons why the others among `lines` are not, in order.
pub open spec fn refused(lines: Seq<Seq<char>>, home: Seq<char>) -> Seq<Seq<char>>
    decreases lines.len(),
{
    if lines.len() == 0 {
        Seq::empty()
    } else {
        let before = refused(lines.drop_last(), home);
        match rule(lines.last(), home) {
            Ok(_) => before,
            Err(e) => before.push(e),
        }
    }
}

/// The texts of a list of string slices.
pub open spec fn lines_of(lines: Seq<&str>) -> Seq<Seq<char>> {
    Seq::new(lines.len(), |i: int| lines[i]@)
}

/// Whether any of the rules matches the working directory.
pub open spec fn any_matches(rules: Seq<RuleSpec>, cwd: Seq<char>) -> bool {
    exists|i: int| 0 <= i < rules.len() && rule_matches((#[trigger] rules[i]).compiled, cwd)
}

impl View for IgnoreRules {
    type V = Seq<RuleSpec>;

    closed spec fn view(&self) -> Seq<RuleSpec> {
        Seq::new(
            self.patterns@.len(),
            |i: int|
                RuleSpec {
                    written: self.patterns@[i].written(),
                    compiled: self.patterns@[i].compiled(),
                },
        )
    }
}

impl Default for IgnoreRules {
    /// No rules at all.
    fn default() -> (r: Self)
        ensures
            r@ == Seq::<RuleSpec>::empty(),
    {
        let r = IgnoreRules { patterns: Vec::new() };
        assert(r@ =~= Seq::<RuleSpec>::empty());
        r
    }
}

impl IgnoreRules {
    /// Parses rule by rule. A rule that cannot be read is dropped by itself and its reason
    /// given back; the others stay in force.
    pub fn parse_lines_in(lines: &[&str], home: &str) -> (r: (Self, Vec<String>))
        ensures
            r.0@ == accepted(lines_of(lines@), home@),
            texts(r.1@) == refused(lines_of(lines@), home@),
    {
        let mut patterns: Vec<IgnorePattern> = Vec::new();
        let mut errors: Vec<String> = Vec::new();
        let ghost all = lines_of(lines@);
        let mut i: usize = 0;
        assert((IgnoreRules { patterns })@ =~= accepted(all.take(0), home@));
        assert(texts(errors@) =~= refused(all.take(0), home@));
        while i < lines.len()
            invariant
                i <= lines@.len(),
                all == lines_of(lines@),
                (IgnoreRules { patterns })@ == accepted(all.take(i as int), home@),
                texts(errors@) == refused(all.take(i as int), home@),
            decreases lines@.len() - i,
        {
            assert(all.take(i + 1).drop_last() == all.take(i as int));
            assert(all.take(i + 1).last() == lines@[i as int]@);
            let ghost old_patterns = patterns;
            let ghost old_errors = errors@;
            match IgnorePattern::parse_in(lines[i], home) {
                Ok(p) => {
                    let ghost added = RuleSpec { written: p.written(), compiled: p.compiled() };
                    patterns.push(p);
                    assert((IgnoreRules { patterns })@ =~= (IgnoreRules {
                        patterns: old_patterns,
                    })@.push(added));
                },
                Err(e) => {
                    let ghost reason = e@;
                    errors.push(e);
                    assert(texts(errors@) =~= texts(old_errors).push(reason));
                },
            }
            i += 1;
        }
        assert(all.take(all.len() as int) == all);
        (IgnoreRules { patterns }, errors)
    }

    /// Parses rule by rule with a home directory that is looked up only if there is any rule.
    pub fn parse_lines(lines: &[&str], home: impl FnOnce() -> String) -> (r: (Self, Vec<String>))
        requires
            lines@.len() > 0 ==> call_requires(home, ()),
        ensures
            lines@.len() == 0 ==> r.0@ == Seq::<RuleSpec>::empty() && r.1@.len() == 0,
            lines@.len() > 0 ==> exists|dir: String| #[trigger]
                call_ensures(home, (), dir) && r.0@ == accepted(lines_of(lines@), dir@) && texts(
                    r.1@,
                ) == refused(lines_of(lines@), dir@),
    {
        if lines.len() == 0 {
            return (IgnoreRules::default(), Vec::new());
        }
        let dir = home();
        IgnoreRules::parse_lines_in(lines, dir.as_str())
    }

    /// Whether there is no rule.
    pub fn is_empty(&self) -> (r: bool)
        ensures
            r == (self@.len() == 0),
    {
        self.patterns.len() == 0
    }

    /// How many rules there are.
    pub fn len(&self) -> (r: usize)
        ensures
            r == self@.len(),
    {
        self.patterns.len()
    }

    /// The rules as written, in order.
    pub fn raw(&self) -> (r: Vec<&str>)
        ensures
            r@.len() == self@.len(),
            forall|i: int| 0 <= i < r@.len() ==> (#[trigger] r@[i])@ == self@[i].written,
    {
        let mut out: Vec<&str> = Vec::new();
        let mut i: usize = 0;
        while i < self.patterns.len()
            invariant
                i <= self.patterns@.len(),
                out@.len() == i,
                forall|k: int| 0 <= k < i ==> (#[trigger] out@[k])@ == self@[k].written,
            decreases self.patterns@.len() - i,
        {
            out.push(self.patterns[i].as_str());
            i += 1;
        }
        out
    }

    /// Whether the session is kept out of the list.
    pub fn matches(&self, s: &Session) -> (r: bool)
        ensures
            r == any_matches(self@, s.cwd@),
    {
        let mut i: usize = 0;
        while i < self.patterns.len()
            invariant
                i <= self.patterns@.len(),
                forall|k: int|
                    0 <= k < i ==> !rule_matches((#[trigger] self@[k]).compiled, s.cwd@),
            decreases self.patterns@.len() - i,
        {
            if self.patterns[i].matches(s) {
                assert(rule_matches(self@[i as int].compiled, s.cwd@));
                return true;
            }
            i += 1;
        }
        false
    }
}

// ---- laws -----------------------------------------------------------------------------------

/// Without rules no session is kept out.
pub proof fn law_no_rules_match_nothing(cwd: Seq<char>)
    ensures
        !any_matches(Seq::<RuleSpec>::empty(), cwd),
{
}

/// Adding rules only ever hides more.
pub proof fn law_rules_accumulate(rules: Seq<RuleSpec>, more: Seq<RuleSpec>, cwd: Seq<char>)
    ensures
        any_matches(rules + more, cwd) == (any_matches(rules, cwd) || any_matches(more, cwd)),
{
    let all = rules + more;
    if any_matches(rules, cwd) {
        let i = choose|i: int|
            0 <= i < rules.len() && rule_matches((#[trigger] rules[i]).compiled, cwd);
        assert(all[i] == rules[i]);
    }
    if any_matches(more, cwd) {
        let i = choose|i: int|
            0 <= i < more.len() && rule_matches((#[trigger] more[i]).compiled, cwd);
        assert(all[rules.len() + i] == more[i]);
    }
    if any_matches(all, cwd) {
        let i = choose|i: int|
            0 <= i < all.len() && rule_matches((#[trigger] all[i]).compiled, cwd);
        if i < rules.len() {
            assert(rules[i] == all[i]);
        } else {
            assert(more[i - rules.len()] == all[i]);
        }
    }
}

/// Every line is either accepted or has its reason given, and none is lost.
pub proof fn law_every_line_is_accounted_for(lines: Seq<Seq<char>>, home: Seq<char>)
    ensures
        accepted(lines, home).len() + refused(lines, home).len() == lines.len(),
    decreases lines.len(),
{
    if lines.len() > 0 {
        law_every_line_is_accounted_for(lines.drop_last(), home);
    }
}

/// A line that cannot be read changes nothing about the rules around it.
pub proof fn law_a_broken_line_is_dropped_alone(
    before: Seq<Seq<char>>,
    broken: Seq<char>,
    after: Seq<Seq<char>>,
    home: Seq<char>,
)
    requires
        rule(broken, home) is Err,
    ensures
        accepted(before.push(broken) + after, home) == accepted(before + after, home),
    decreases after.len(),
{
    if after.len() == 0 {
        assert(before.push(broken) + after =~= before.push(broken));
        assert(before.push(broken).drop_last() =~= before);
        assert(before + after =~= before);
    } else {
        law_a_broken_line_is_dropped_alone(before, broken, after.drop_last(), home);
        assert((before.push(broken) + after).drop_last() =~= before.push(broken)
            + after.drop_last());
        assert((before + after).drop_last() =~= before + after.drop_last());
    }
}

/// A rule without wildcards matches its own directory and everything below it.
pub proof fn law_a_plain_path_covers_its_subtree(dir: Seq<Seq<char>>, below: Seq<Seq<char>>)
    ensures
        begins_with(dir, dir + below),
{
}

/// A glob that ends in `**` matches whatever the glob before the `**` matches, and everything
/// below that.
pub proof fn law_a_trailing_double_star_covers_the_directory_itself(
    pats: Seq<SegSpec>,
    dir: Seq<Seq<char>>,
    below: Seq<Seq<char>>,
)
    requires
        segments_match(pats, dir),
    ensures
        segments_match(pats.push(SegSpec::DoubleStar), dir + below),
    decreases pats.len() + dir.len(),
{
    let longer = pats.push(SegSpec::DoubleStar);
    if pats.len() == 0 {
        assert(dir + below =~= below);
        lemma_double_star_matches_anything(below);
        assert(longer =~= seq![SegSpec::DoubleStar]);
    } else {
        assert(longer.drop_first() =~= pats.drop_first().push(SegSpec::DoubleStar));
        if dir.len() > 0 {
            assert((dir + below).drop_first() =~= dir.drop_first() + below);
        }
        match pats[0] {
            SegSpec::DoubleStar => {
                if segments_match(pats.drop_first(), dir) {
                    law_a_trailing_double_star_covers_the_directory_itself(
                        pats.drop_first(),
                        dir,
                        below,
                    );
                } else {
                    law_a_trailing_double_star_covers_the_directory_itself(
                        pats,
                        dir.drop_first(),
                        below,
                    );
                }
            },
            SegSpec::Pat(_) => {
                law_a_trailing_double_star_covers_the_directory_itself(
                    pats.drop_first(),
                    dir.drop_first(),
                    below,
                );
            },
        }
    }
}

proof fn lemma_double_star_matches_anything(texts: Seq<Seq<char>>)
    ensures
        segments_match(seq![SegSpec::DoubleStar], texts),
    decreases texts.len(),
{
    let star = seq![SegSpec::DoubleStar];
    assert(star.drop_first() =~= Seq::<SegSpec>::empty());
    if texts.len() > 0 {
        lemma_double_star_matches_anything(texts.drop_first());
    } else {
        assert(segments_match(star.drop_first(), texts));
    }
}

/// A glob without `**` matches only paths of its own depth: `*` and `?` never cross a
/// separator.
pub proof fn law_without_double_star_the_depth_is_fixed(
    pats: Seq<SegSpec>,
    dir: Seq<Seq<char>>,
)
    requires
        forall|i: int| 0 <= i < pats.len() ==> (#[trigger] pats[i]) is Pat,
        segments_match(pats, dir),
    ensures
        pats.len() == dir.len(),
    decreases pats.len(),
{
    if pats.len() > 0 {
        let rest = pats.drop_first();
        assert forall|i: int| 0 <= i < rest.len() implies (#[trigger] rest[i]) is Pat by {
            assert(rest[i] == pats[i + 1]);
        }
        law_without_double_star_the_depth_is_fixed(rest, dir.drop_first());
    }
}

/// A slash at the end of a path does not change its segments.
pub proof fn law_a_trailing_slash_is_ignored(path: Seq<char>)
    ensures
        path_segments(path.push('/')) == path_segments(path),
{
    let longer = path.push('/');
    assert(longer.drop_last() =~= path);
    let pieces = split(path, '/');
    assert(pieces.push(Seq::empty()).drop_last() =~= pieces);
}

/// A doubled slash within a path does not change its segments.
pub proof fn law_a_doubled_slash_is_ignored(before: Seq<char>, after: Seq<char>)
    ensures
        path_segments(before.push('/').push('/') + after) == path_segments(
            before.push('/') + after,
        ),
{
    lemma_doubled_slash(before, after);
    let one = split(before.push('/') + after, '/');
    let two = split(before.push('/').push('/') + after, '/');
    lemma_split_pieces(before.push('/') + after, '/');
    lemma_split_pieces(before.push('/').push('/') + after, '/');
}

proof fn lemma_doubled_slash(before: Seq<char>, after: Seq<char>)
    ensures
        ({
            let one = split(before.push('/') + after, '/');
            let two = split(before.push('/').push('/') + after, '/');
            &&& one.last() == two.last()
            &&& non_empty(one.drop_last()) == non_empty(two.drop_last())
        }),
    decreases after.len(),
{
    let s1 = before.push('/') + after;
    let s2 = before.push('/').push('/') + after;
    let one = split(s1, '/');
    let two = split(s2, '/');
    if after.len() == 0 {
        assert(s1 =~= before.push('/'));
        assert(s2 =~= before.push('/').push('/'));
        assert(s2.drop_last() =~= s1);
        assert(s1.drop_last() =~= before);
        let pieces = split(before, '/');
        assert(one =~= pieces.push(Seq::empty()));
        assert(two =~= one.push(Seq::empty()));
        assert(two.drop_last() =~= one);
        assert(one.drop_last() =~= pieces);
    } else {
        lemma_doubled_slash(before, after.drop_last());
        let t1 = before.push('/') + after.drop_last();
        let t2 = before.push('/').push('/') + after.drop_last();
        assert(s1.drop_last() =~= t1);
        assert(s2.drop_last() =~= t2);
        let p1 = split(t1, '/');
        let p2 = split(t2, '/');
        lemma_split_pieces(t1, '/');
        lemma_split_pieces(t2, '/');
        if after.last() == '/' {
            assert(one.drop_last() =~= p1);
            assert(two.drop_last() =~= p2);
        } else {
            assert(one.drop_last() =~= p1.drop_last());
            assert(two.drop_last() =~= p2.drop_last());
        }
    }
}

/// What was accepted once is accepted again from its written form, with the same meaning.
pub proof fn law_the_written_form_round_trips(raw: Seq<char>, home: Seq<char>)
    ensures
        rule(trimmed(raw), home) == rule(raw, home),
        trimmed(trimmed(raw)) == trimmed(raw),
{
    lemma_trimmed_is_trimmed(raw);
}

} // verus!
