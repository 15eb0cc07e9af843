//! Matchers, and how they apply to a working directory. Nothing here knows about sessions or
//! settings: a path goes in, a verdict comes out.

use vstd::prelude::*;

use crate::text::{drop_empty, non_empty, rows, same_chars, split, split_chars, to_chars};

verus! {

/// One segment of a glob: what stands between two slashes.
#[derive(Debug, Clone, PartialEq, Eq)]
pub enum Seg {
    /// `**`: any number of segments, none of them included.
    DoubleStar,
    /// A pattern for one segment, in which `*` and `?` are wildcards.
    Pat(Vec<char>),
}

/// A compiled rule.
#[derive(Debug, Clone, PartialEq, Eq)]
pub enum Matcher {
    /// The path that starts with these segments, and everything below it.
    Prefix(Vec<Vec<char>>),
    /// The paths whose segments match these, from first to last.
    Glob(Vec<Seg>),
}

/// A segment of a glob, as a value of the specification.
pub enum SegSpec {
    DoubleStar,
    Pat(Seq<char>),
}

/// A compiled rule, as a value of the specification.
pub enum MatcherSpec {
    Prefix(Seq<Seq<char>>),
    Glob(Seq<SegSpec>),
}

impl View for Seg {
    type V = SegSpec;

    open spec fn view(&self) -> SegSpec {
        match *self {
            Seg::DoubleStar => SegSpec::DoubleStar,
            Seg::Pat(p) => SegSpec::Pat(p@),
        }
    }
}

/// The segments of a glob, as values of the specification.
pub open spec fn seg_specs(v: Seq<Seg>) -> Seq<SegSpec> {
    Seq::new(v.len(), |i: int| v[i]@)
}

impl View for Matcher {
    type V = MatcherSpec;

    open spec fn view(&self) -> MatcherSpec {
        match *self {
            Matcher::Prefix(p) => MatcherSpec::Prefix(rows(p@)),
            Matcher::Glob(g) => MatcherSpec::Glob(seg_specs(g@)),
        }
    }
}

/// The segments of a path: what stands between its slashes, doubled slashes ignored.
pub open spec fn path_segments(path: Seq<char>) -> Seq<Seq<char>> {
    non_empty(split(path, '/'))
}

/// Whether a pattern for one segment matches `text`: `*` stands for any run of characters, the
/// empty one included, and `?` for exactly one character.
pub open spec fn segment_matches(pat: Seq<char>, text: Seq<char>) -> bool
    decreases pat.len() + text.len(),
{
    if pat.len() == 0 {
        text.len() == 0
    } else if pat[0] == '*' {
        segment_matches(pat.drop_first(), text) || (text.len() > 0 && segment_matches(
            pat,
            text.drop_first(),
        ))
    } else {
        text.len() > 0 && (pat[0] == '?' || pat[0] == text[0]) && segment_matches(
            pat.drop_first(),
            text.drop_first(),
        )
    }
}

/// Whether the segments of a glob match the segments of a path: `**` stands for any run of
/// segments, the empty one included.
pub open spec fn segments_match(pats: Seq<SegSpec>, texts: Seq<Seq<char>>) -> bool
    decreases pats.len() + texts.len(),
{
    if pats.len() == 0 {
        texts.len() == 0
    } else {
        match pats[0] {
            SegSpec::DoubleStar => segments_match(pats.drop_first(), texts) || (texts.len() > 0
                && segments_match(pats, texts.drop_first())),
            SegSpec::Pat(pat) => texts.len() > 0 && segment_matches(pat, texts[0])
                && segments_match(pats.drop_first(), texts.drop_first()),
        }
    }
}

/// Whether `texts` begins with the segments of `prefix`.
pub open spec fn begins_with(prefix: Seq<Seq<char>>, texts: Seq<Seq<char>>) -> bool {
    prefix.len() <= texts.len() && forall|i: int|
        0 <= i < prefix.len() ==> #[trigger] prefix[i] == texts[i]
}

/// Whether a compiled rule applies to a working directory.
pub open spec fn rule_matches(m: MatcherSpec, cwd: Seq<char>) -> bool {
    match m {
        MatcherSpec::Prefix(p) => begins_with(p, path_segments(cwd)),
        MatcherSpec::Glob(g) => segments_match(g, path_segments(cwd)),
    }
}

// ---- the search with one remembered star ----------------------------------------------------

/// A matching problem stripped to what the search looks at: which items of the pattern are
/// stars, and which of the others accept which item of the text.
struct Grid {
    star: Seq<bool>,
    hit: Seq<Seq<bool>>,
    width: nat,
}

/// Whether the pattern items from `p` on match the text items from `t` on.
spec fn wild(g: Grid, p: int, t: int) -> bool
    decreases g.star.len() - p + g.width - t,
    when 0 <= p <= g.star.len() && 0 <= t <= g.width
{
    if p == g.star.len() {
        t == g.width
    } else if g.star[p] {
        wild(g, p + 1, t) || (t < g.width && wild(g, p, t + 1))
    } else {
        t < g.width && g.hit[p][t] && wild(g, p + 1, t + 1)
    }
}

/// A star that matches from `later` on also matches from any earlier item on.
proof fn lemma_absorb(g: Grid, p: int, t: int, later: int)
    requires
        0 <= p < g.star.len(),
        g.star[p],
        0 <= t <= later <= g.width,
        wild(g, p, later),
    ensures
        wild(g, p, t),
    decreases later - t,
{
    if t < later {
        lemma_absorb(g, p, t + 1, later);
    }
}

/// Without stars between `s` and `p`, a match of `s` from `k` on has a match of `p` as far
/// behind some start at or after `k` as `p` is behind `s`.
proof fn lemma_run(g: Grid, s: int, p: int, k: int) -> (start: int)
    requires
        0 <= s < p <= g.star.len(),
        g.star[s],
        forall|i: int| s < i < p ==> !#[trigger] g.star[i],
        0 <= k <= g.width,
        wild(g, s, k),
    ensures
        k <= start,
        start + (p - s - 1) <= g.width,
        wild(g, p, start + (p - s - 1)),
    decreases g.width - k,
{
    if wild(g, s + 1, k) {
        lemma_run_from(g, s + 1, p, k);
        k
    } else {
        lemma_run(g, s, p, k + 1)
    }
}

/// Without stars from `q` up to `p`, a match of `q` from `k` on consumes one item per step.
proof fn lemma_run_from(g: Grid, q: int, p: int, k: int)
    requires
        0 <= q <= p <= g.star.len(),
        forall|i: int| q <= i < p ==> !#[trigger] g.star[i],
        0 <= k <= g.width,
        wild(g, q, k),
    ensures
        k + (p - q) <= g.width,
        wild(g, p, k + (p - q)),
    decreases p - q,
{
    if q < p {
        assert(!g.star[q]);
        lemma_run_from(g, q + 1, p, k + 1);
    }
}

/// What the search knows between two steps: the whole matches exactly if the rest matches from
/// here, or if the last star takes at least one item more.
spec fn searching(g: Grid, p: int, t: int, star: Option<usize>, mark: int) -> bool {
    &&& 0 <= p <= g.star.len()
    &&& 0 <= t <= g.width
    &&& match star {
        None => mark == 0 && wild(g, 0, 0) == wild(g, p, t),
        Some(s) => {
            &&& s < p
            &&& g.star[s as int]
            &&& 0 <= mark <= t
            &&& t - mark == p - s - 1
            &&& forall|i: int| s < i < p ==> !#[trigger] g.star[i]
            &&& wild(g, 0, 0) == (wild(g, p, t) || (mark < g.width && wild(g, s as int, mark + 1)))
        },
    }
}

/// Entering a star forgets the previous one without losing a match.
proof fn lemma_enter(g: Grid, p: int, t: int, star: Option<usize>, mark: int)
    requires
        searching(g, p, t, star, mark),
        p < g.star.len(),
        g.star[p],
        p <= usize::MAX,
        t < g.width,
    ensures
        searching(g, p + 1, t, Some(p as usize), t),
{
    if let Some(s) = star {
        if mark < g.width && wild(g, s as int, mark + 1) {
            let start = lemma_run(g, s as int, p, mark + 1);
            lemma_absorb(g, p, t, start + (p - s - 1));
        }
    }
}

/// After a failed step the last star takes one item more.
proof fn lemma_retry(g: Grid, p: int, t: int, s: usize, mark: int)
    requires
        searching(g, p, t, Some(s), mark),
        t < g.width,
        !wild(g, p, t),
    ensures
        searching(g, s + 1, mark + 1, Some(s), mark + 1),
{
}

/// Once the text is used up, only the rest of the pattern decides.
proof fn lemma_finish(g: Grid, p: int, t: int, star: Option<usize>, mark: int)
    requires
        searching(g, p, t, star, mark),
        t == g.width,
    ensures
        wild(g, 0, 0) == wild(g, p, t),
{
    if let Some(s) = star {
        if mark < g.width && wild(g, s as int, mark + 1) {
            let start = lemma_run(g, s as int, p, mark + 1);
            assert(false);
        }
    }
}

/// At the end of the text a star matches exactly if what follows it does.
proof fn lemma_trailing(g: Grid, p: int)
    requires
        0 <= p <= g.star.len(),
    ensures
        p == g.star.len() ==> wild(g, p, g.width as int),
        p < g.star.len() && g.star[p] ==> wild(g, p, g.width as int) == wild(
            g,
            p + 1,
            g.width as int,
        ),
        p < g.star.len() && !g.star[p] ==> !wild(g, p, g.width as int),
{
}

/// The last star's index as a number, for termination.
spec fn star_rank(star: Option<usize>) -> int {
    match star {
        None => -1,
        Some(s) => s as int,
    }
}

// ---- characters -----------------------------------------------------------------------------

spec fn char_grid(pat: Seq<char>, text: Seq<char>) -> Grid {
    Grid {
        star: Seq::new(pat.len(), |p: int| pat[p] == '*'),
        hit: Seq::new(
            pat.len(),
            |p: int| Seq::new(text.len(), |t: int| pat[p] == '?' || pat[p] == text[t]),
        ),
        width: text.len(),
    }
}

proof fn lemma_char_grid(pat: Seq<char>, text: Seq<char>, p: int, t: int)
    requires
        0 <= p <= pat.len(),
        0 <= t <= text.len(),
    ensures
        segment_matches(pat.skip(p), text.skip(t)) == wild(char_grid(pat, text), p, t),
    decreases pat.len() - p + text.len() - t,
{
    let g = char_grid(pat, text);
    if p < pat.len() {
        assert(pat.skip(p).drop_first() == pat.skip(p + 1));
        if t < text.len() {
            assert(text.skip(t).drop_first() == text.skip(t + 1));
            lemma_char_grid(pat, text, p + 1, t + 1);
            lemma_char_grid(pat, text, p, t + 1);
        }
        lemma_char_grid(pat, text, p + 1, t);
    }
}

/// Whether a pattern for one segment matches `text`.
pub fn glob_chars(pat: &Vec<char>, text: &Vec<char>) -> (r: bool)
    ensures
        r == segment_matches(pat@, text@),
{
    let ghost g = char_grid(pat@, text@);
    proof {
        lemma_char_grid(pat@, text@, 0, 0);
        assert(pat@.skip(0) == pat@);
        assert(text@.skip(0) == text@);
    }
    let mut p: usize = 0;
    let mut t: usize = 0;
    let mut star: Option<usize> = None;
    let mut mark: usize = 0;
    while t < text.len()
        invariant
            g == char_grid(pat@, text@),
            segment_matches(pat@, text@) == wild(g, 0, 0),
            searching(g, p as int, t as int, star, mark as int),
        decreases pat@.len() - star_rank(star), text@.len() - mark, pat@.len() - p,
    {
        if p < pat.len() && pat[p] == '*' {
            proof {
                lemma_enter(g, p as int, t as int, star, mark as int);
            }
            star = Some(p);
            mark = t;
            p += 1;
        } else if p < pat.len() && (pat[p] == '?' || pat[p] == text[t]) {
            p += 1;
            t += 1;
        } else {
            match star {
                Some(s) => {
                    proof {
                        lemma_retry(g, p as int, t as int, s, mark as int);
                    }
                    mark += 1;
                    t = mark;
                    p = s + 1;
                },
                None => {
                    return false;
                },
            }
        }
    }
    proof {
        lemma_finish(g, p as int, t as int, star, mark as int);
    }
    while p < pat.len() && pat[p] == '*'
        invariant
            g == char_grid(pat@, text@),
            p <= pat@.len(),
            segment_matches(pat@, text@) == wild(g, p as int, g.width as int),
        decreases pat@.len() - p,
    {
        proof {
            lemma_trailing(g, p as int);
        }
        p += 1;
    }
    proof {
        lemma_trailing(g, p as int);
    }
    p == pat.len()
}

// ---- segments -------------------------------------------------------------------------------

spec fn seg_grid(pats: Seq<SegSpec>, texts: Seq<Seq<char>>) -> Grid {
    Grid {
        star: Seq::new(pats.len(), |p: int| pats[p] is DoubleStar),
        hit: Seq::new(
            pats.len(),
            |p: int| Seq::new(texts.len(), |t: int| segment_matches(pats[p]->Pat_0, texts[t])),
        ),
        width: texts.len(),
    }
}

proof fn lemma_seg_grid(pats: Seq<SegSpec>, texts: Seq<Seq<char>>, p: int, t: int)
    requires
        0 <= p <= pats.len(),
        0 <= t <= texts.len(),
    ensures
        segments_match(pats.skip(p), texts.skip(t)) == wild(seg_grid(pats, texts), p, t),
    decreases pats.len() - p + texts.len() - t,
{
    if p < pats.len() {
        assert(pats.skip(p).drop_first() == pats.skip(p + 1));
        if t < texts.len() {
            assert(texts.skip(t).drop_first() == texts.skip(t + 1));
            lemma_seg_grid(pats, texts, p + 1, t + 1);
            lemma_seg_grid(pats, texts, p, t + 1);
        }
        lemma_seg_grid(pats, texts, p + 1, t);
    }
}

/// Whether the segments of a glob match the segments of a path. One star is remembered at a
/// time, so the search stays polynomial.
pub fn match_segments(pats: &Vec<Seg>, texts: &Vec<Vec<char>>) -> (r: bool)
    ensures
        r == segments_match(seg_specs(pats@), rows(texts@)),
{
    let ghost ps = seg_specs(pats@);
    let ghost ts = rows(texts@);
    let ghost g = seg_grid(ps, ts);
    proof {
        lemma_seg_grid(ps, ts, 0, 0);
        assert(ps.skip(0) == ps);
        assert(ts.skip(0) == ts);
    }
    let mut p: usize = 0;
    let mut t: usize = 0;
    let mut star: Option<usize> = None;
    let mut mark: usize = 0;
    while t < texts.len()
        invariant
            ps == seg_specs(pats@),
            ts == rows(texts@),
            g == seg_grid(ps, ts),
            segments_match(ps, ts) == wild(g, 0, 0),
            searching(g, p as int, t as int, star, mark as int),
        decreases pats@.len() - star_rank(star), texts@.len() - mark, pats@.len() - p,
    {
        let mut entered = false;
        let mut step = false;
        if p < pats.len() {
            match &pats[p] {
                Seg::DoubleStar => {
                    entered = true;
                },
                Seg::Pat(pat) => {
                    step = glob_chars(pat, &texts[t]);
                },
            }
        }
        assert(entered <==> p < g.star.len() && g.star[p as int]);
        assert(step <==> p < g.star.len() && !g.star[p as int] && g.hit[p as int][t as int]);
        if entered {
            proof {
                lemma_enter(g, p as int, t as int, star, mark as int);
            }
            star = Some(p);
            mark = t;
            p += 1;
        } else if step {
            p += 1;
            t += 1;
        } else {
            match star {
                Some(s) => {
                    proof {
                        lemma_retry(g, p as int, t as int, s, mark as int);
                    }
                    mark += 1;
                    t = mark;
                    p = s + 1;
                },
                None => {
                    return false;
                },
            }
        }
    }
    proof {
        lemma_finish(g, p as int, t as int, star, mark as int);
    }
    while p < pats.len() && matches!(pats[p], Seg::DoubleStar)
        invariant
            ps == seg_specs(pats@),
            ts == rows(texts@),
            g == seg_grid(ps, ts),
            p <= pats@.len(),
            segments_match(ps, ts) == wild(g, p as int, g.width as int),
        decreases pats@.len() - p,
    {
        proof {
            lemma_trailing(g, p as int);
        }
        p += 1;
    }
    proof {
        lemma_trailing(g, p as int);
    }
    p == pats.len()
}

// ---- paths ----------------------------------------------------------------------------------

/// The segments of a path: `/a//b/` has `a` and `b`.
pub fn split_path(path: &str) -> (r: Vec<Vec<char>>)
    ensures
        rows(r@) == path_segments(path@),
{
    drop_empty(split_chars(&to_chars(path), '/'))
}

/// Whether the path begins with the segments of `prefix`. An empty prefix matches every path.
pub fn path_prefix_matches(prefix: &Vec<Vec<char>>, cwd: &str) -> (r: bool)
    ensures
        r == begins_with(rows(prefix@), path_segments(cwd@)),
{
    let segs = split_path(cwd);
    if prefix.len() > segs.len() {
        return false;
    }
    let mut i: usize = 0;
    while i < prefix.len()
        invariant
            i <= prefix@.len() <= segs@.len(),
            rows(segs@) == path_segments(cwd@),
            forall|k: int|
                0 <= k < i ==> #[trigger] rows(prefix@)[k] == path_segments(cwd@)[k],
        decreases prefix@.len() - i,
    {
        if !same_chars(&prefix[i], &segs[i]) {
            assert(rows(prefix@)[i as int] != rows(segs@)[i as int]);
            return false;
        }
        assert(rows(prefix@)[i as int] == rows(segs@)[i as int]);
        i += 1;
    }
    true
}

impl Matcher {
    /// Whether this rule applies to the working directory.
    pub fn matches(&self, cwd: &str) -> (r: bool)
        ensures
            r == rule_matches(self@, cwd@),
    {
        match self {
            Matcher::Prefix(p) => path_prefix_matches(p, cwd),
            Matcher::Glob(segs) => match_segments(segs, &split_path(cwd)),
        }
    }
}

// ---- what a match is ------------------------------------------------------------------------

/// Whether item `p + i` of a pattern can take the items of a text from `cuts[i]` up to
/// `cuts[i + 1]`.
spec fn takes(g: Grid, p: int, cuts: Seq<int>, i: int) -> bool {
    &&& 0 <= cuts[i] <= g.width
    &&& g.star[p + i] ==> cuts[i] <= cuts[i + 1]
    &&& !g.star[p + i] ==> cuts[i] < g.width && cuts[i + 1] == cuts[i] + 1 && g.hit[p + i][cuts[i]]
}

/// Whether the items of a pattern, from `p` on, can be laid over the items of a text, from `t`
/// on.
spec fn laid(g: Grid, p: int, t: int, cuts: Seq<int>) -> bool {
    &&& cuts.len() == g.star.len() - p + 1
    &&& cuts[0] == t
    &&& cuts.last() == g.width
    &&& forall|i: int| 0 <= i < cuts.len() - 1 ==> #[trigger] takes(g, p, cuts, i)
}

proof fn lemma_matches_are_laid(g: Grid, p: int, t: int) -> (cuts: Seq<int>)
    requires
        0 <= p <= g.star.len(),
        0 <= t <= g.width,
        wild(g, p, t),
    ensures
        laid(g, p, t, cuts),
    decreases g.star.len() - p + g.width - t,
{
    if p == g.star.len() {
        seq![t]
    } else {
        let takes_one_more = g.star[p] && !wild(g, p + 1, t);
        let mut found: Seq<int> = Seq::empty();
        if takes_one_more {
            found = lemma_matches_are_laid(g, p, t + 1);
            assert(takes(g, p, found, 0));
        } else if g.star[p] {
            found = lemma_matches_are_laid(g, p + 1, t);
        } else {
            found = lemma_matches_are_laid(g, p + 1, t + 1);
        }
        let from = if takes_one_more {
            p
        } else {
            p + 1
        };
        let rest = found.skip(1 - (from - p));
        let cuts = seq![t] + rest;
        assert forall|i: int| 0 <= i < cuts.len() - 1 implies #[trigger] takes(g, p, cuts, i) by {
            if i > 0 {
                assert(cuts[i] == found[i - (from - p)]);
                assert(cuts[i + 1] == found[i + 1 - (from - p)]);
                assert(takes(g, from, found, i - (from - p)));
            } else {
                assert(cuts[1] == found[1 - (from - p)]);
            }
        }
        assert(cuts.last() == found.last());
        cuts
    }
}

proof fn lemma_laid_is_a_match(g: Grid, p: int, t: int, cuts: Seq<int>)
    requires
        0 <= p <= g.star.len(),
        0 <= t <= g.width,
        laid(g, p, t, cuts),
    ensures
        wild(g, p, t),
    decreases g.star.len() - p,
{
    if p < g.star.len() {
        let rest = cuts.skip(1);
        let next = cuts[1];
        assert(takes(g, p, cuts, 0));
        if cuts.len() > 2 {
            assert(takes(g, p, cuts, 1));
        }
        assert forall|i: int| 0 <= i < rest.len() - 1 implies #[trigger] takes(
            g,
            p + 1,
            rest,
            i,
        ) by {
            assert(takes(g, p, cuts, i + 1));
        }
        assert(rest.last() == cuts.last());
        lemma_laid_is_a_match(g, p + 1, next, rest);
        if g.star[p] {
            lemma_absorb(g, p, t, next);
        }
    }
}

/// Whether letter `i` of a pattern can take the text from `cuts[i]` up to `cuts[i + 1]`: a `*`
/// takes any run of characters, none included, and every other letter takes one, a `?` any and
/// the others their like.
pub open spec fn letter_fits(pat: Seq<char>, text: Seq<char>, cuts: Seq<int>, i: int) -> bool {
    &&& 0 <= cuts[i] <= text.len()
    &&& pat[i] == '*' ==> cuts[i] <= cuts[i + 1]
    &&& pat[i] != '*' ==> cuts[i] < text.len() && cuts[i + 1] == cuts[i] + 1
    &&& pat[i] != '*' && pat[i] != '?' ==> pat[i] == text[cuts[i]]
}

/// Whether the letters of a pattern can be laid over a text, cut so.
pub open spec fn letters_fit(pat: Seq<char>, text: Seq<char>, cuts: Seq<int>) -> bool {
    &&& cuts.len() == pat.len() + 1
    &&& cuts[0] == 0
    &&& cuts.last() == text.len()
    &&& forall|i: int| 0 <= i < pat.len() ==> #[trigger] letter_fits(pat, text, cuts, i)
}

/// A pattern for one segment matches a text just if its letters can be laid over it.
pub proof fn law_a_segment_matches_letter_by_letter(pat: Seq<char>, text: Seq<char>)
    ensures
        segment_matches(pat, text) <==> exists|cuts: Seq<int>| #[trigger]
            letters_fit(pat, text, cuts),
{
    let g = char_grid(pat, text);
    lemma_char_grid(pat, text, 0, 0);
    assert(pat.skip(0) =~= pat);
    assert(text.skip(0) =~= text);
    if segment_matches(pat, text) {
        let cuts = lemma_matches_are_laid(g, 0, 0);
        assert forall|i: int| 0 <= i < pat.len() implies #[trigger] letter_fits(
            pat,
            text,
            cuts,
            i,
        ) by {
            assert(takes(g, 0, cuts, i));
        }
        assert(letters_fit(pat, text, cuts));
    }
    if exists|cuts: Seq<int>| #[trigger] letters_fit(pat, text, cuts) {
        let cuts = choose|cuts: Seq<int>| #[trigger] letters_fit(pat, text, cuts);
        assert forall|i: int| 0 <= i < cuts.len() - 1 implies #[trigger] takes(g, 0, cuts, i) by {
            assert(letter_fits(pat, text, cuts, i));
        }
        lemma_laid_is_a_match(g, 0, 0, cuts);
    }
}

/// Whether segment `i` of a glob can take the segments of a path from `cuts[i]` up to
/// `cuts[i + 1]`: a `**` takes any run of segments, none included, and every other one takes one
/// that it matches.
pub open spec fn segment_fits(
    pats: Seq<SegSpec>,
    texts: Seq<Seq<char>>,
    cuts: Seq<int>,
    i: int,
) -> bool {
    &&& 0 <= cuts[i] <= texts.len()
    &&& pats[i] is DoubleStar ==> cuts[i] <= cuts[i + 1]
    &&& pats[i] matches SegSpec::Pat(pat) ==> cuts[i] < texts.len() && cuts[i + 1] == cuts[i] + 1
        && segment_matches(pat, texts[cuts[i]])
}

/// Whether the segments of a glob can be laid over those of a path, cut so.
pub open spec fn segments_fit(pats: Seq<SegSpec>, texts: Seq<Seq<char>>, cuts: Seq<int>) -> bool {
    &&& cuts.len() == pats.len() + 1
    &&& cuts[0] == 0
    &&& cuts.last() == texts.len()
    &&& forall|i: int| 0 <= i < pats.len() ==> #[trigger] segment_fits(pats, texts, cuts, i)
}

/// A glob matches a path just if its segments can be laid over those of the path.
pub proof fn law_a_glob_matches_segment_by_segment(pats: Seq<SegSpec>, texts: Seq<Seq<char>>)
    ensures
        segments_match(pats, texts) <==> exists|cuts: Seq<int>| #[trigger]
            segments_fit(pats, texts, cuts),
{
    let g = seg_grid(pats, texts);
    lemma_seg_grid(pats, texts, 0, 0);
    assert(pats.skip(0) =~= pats);
    assert(texts.skip(0) =~= texts);
    if segments_match(pats, texts) {
        let cuts = lemma_matches_are_laid(g, 0, 0);
        assert forall|i: int| 0 <= i < pats.len() implies #[trigger] segment_fits(
            pats,
            texts,
            cuts,
            i,
        ) by {
            assert(takes(g, 0, cuts, i));
        }
        assert(segments_fit(pats, texts, cuts));
    }
    if exists|cuts: Seq<int>| #[trigger] segments_fit(pats, texts, cuts) {
        let cuts = choose|cuts: Seq<int>| #[trigger] segments_fit(pats, texts, cuts);
        assert forall|i: int| 0 <= i < cuts.len() - 1 implies #[trigger] takes(g, 0, cuts, i) by {
            assert(segment_fits(pats, texts, cuts, i));
        }
        lemma_laid_is_a_match(g, 0, 0, cuts);
    }
}

} // verus!
