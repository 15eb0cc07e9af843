//! Text as sequences of characters: conversions, comparison and small scanners.

use vstd::prelude::*;

verus! {

/// `String::push` appends one character to the end of the string.
pub assume_specification[ String::push ](s: &mut String, c: char)
    ensures
        final(s)@ == old(s)@.push(c),
;

/// What `{:?}` prints for a string: the text in double quotes, with escapes.
pub uninterp spec fn debug_text(s: Seq<char>) -> Seq<char>;

/// Formatting a `str` with `{:?}` through `format!`; the result depends on the text alone.
#[verifier::external_body]
pub(crate) fn quoted(s: &str) -> (r: String)
    ensures
        r@ == debug_text(s@),
{
    format!("{:?}", s)
}

/// What `{:?}` prints for a character: the character in single quotes, with escapes.
pub uninterp spec fn debug_char(c: char) -> Seq<char>;

/// Formatting a `char` with `{:?}` through `format!`; the result depends on the character alone.
#[verifier::external_body]
pub(crate) fn quoted_char(c: char) -> (r: String)
    ensures
        r@ == debug_char(c),
{
    format!("{:?}", c)
}

/// The text of an optional string.
pub open spec fn opt_text(o: Option<String>) -> Option<Seq<char>> {
    match o {
        Some(s) => Some(s@),
        None => None,
    }
}

/// The texts of a list of strings.
pub open spec fn texts(v: Seq<String>) -> Seq<Seq<char>> {
    Seq::new(v.len(), |i: int| v[i]@)
}

/// The characters of each row.
pub open spec fn rows(v: Seq<Vec<char>>) -> Seq<Seq<char>> {
    Seq::new(v.len(), |i: int| v[i]@)
}

/// The characters of `s`, in order.
pub fn to_chars(s: &str) -> (r: Vec<char>)
    ensures
        r@ == s@,
{
    let mut out: Vec<char> = Vec::new();
    for c in it: s.chars()
        invariant
            out@ == s@.take(it.index() as int),
            it.seq() == s@,
    {
        out.push(c);
    }
    assert(s@.take(s@.len() as int) == s@);
    out
}

/// The characters of `v` from index `from` up to, but not with, `to`.
pub fn slice(v: &Vec<char>, from: usize, to: usize) -> (r: String)
    requires
        from <= to <= v@.len(),
    ensures
        r@ == v@.subrange(from as int, to as int),
{
    let mut out = String::new();
    let mut i: usize = from;
    while i < to
        invariant
            from <= i <= to <= v@.len(),
            out@ == v@.subrange(from as int, i as int),
        decreases to - i,
    {
        out.push(v[i]);
        i += 1;
        assert(v@.subrange(from as int, i as int) == v@.subrange(from as int, i - 1).push(
            v@[i - 1],
        ));
    }
    out
}

/// The string made of the characters of `v`.
pub fn from_chars(v: &Vec<char>) -> (r: String)
    ensures
        r@ == v@,
{
    let r = slice(v, 0, v.len());
    assert(v@.subrange(0, v@.len() as int) == v@);
    r
}

/// The characters of `v` from index `from` up to, but not with, `to`, as a list.
pub fn part(v: &Vec<char>, from: usize, to: usize) -> (r: Vec<char>)
    requires
        from <= to <= v@.len(),
    ensures
        r@ == v@.subrange(from as int, to as int),
{
    let mut out: Vec<char> = Vec::new();
    let mut i: usize = from;
    while i < to
        invariant
            from <= i <= to <= v@.len(),
            out@ == v@.subrange(from as int, i as int),
        decreases to - i,
    {
        out.push(v[i]);
        i += 1;
        assert(v@.subrange(from as int, i as int) == v@.subrange(from as int, i - 1).push(
            v@[i - 1],
        ));
    }
    out
}

/// Whether two lists hold the same characters.
pub fn same_chars(a: &Vec<char>, b: &Vec<char>) -> (r: bool)
    ensures
        r == (a@ == b@),
{
    if a.len() != b.len() {
        return false;
    }
    let mut i: usize = 0;
    while i < a.len()
        invariant
            i <= a@.len() == b@.len(),
            forall|k: int| 0 <= k < i ==> a@[k] == b@[k],
        decreases a@.len() - i,
    {
        if a[i] != b[i] {
            assert(a@[i as int] != b@[i as int]);
            return false;
        }
        i += 1;
    }
    assert(a@ =~= b@);
    true
}

/// Whether two strings hold the same text.
pub fn same(a: &str, b: &str) -> (r: bool)
    ensures
        r == (a@ == b@),
{
    same_chars(&to_chars(a), &to_chars(b))
}

/// The concatenation of two strings.
pub fn join2(a: &str, b: &str) -> (r: String)
    ensures
        r@ == a@ + b@,
{
    let mut out = a.to_owned();
    out.append(b);
    out
}

/// The concatenation of three strings.
pub fn join3(a: &str, b: &str, c: &str) -> (r: String)
    ensures
        r@ == a@ + b@ + c@,
{
    let mut out = a.to_owned();
    out.append(b);
    out.append(c);
    out
}

/// The characters with Unicode's `White_Space` property.
pub open spec fn white(c: char) -> bool {
    let n = c as u32;
    ||| 0x09 <= n <= 0x0d
    ||| n == 0x20
    ||| n == 0x85
    ||| n == 0xa0
    ||| n == 0x1680
    ||| 0x2000 <= n <= 0x200a
    ||| n == 0x2028
    ||| n == 0x2029
    ||| n == 0x202f
    ||| n == 0x205f
    ||| n == 0x3000
}

/// Whether `c` has Unicode's `White_Space` property.
pub fn is_white(c: char) -> (r: bool)
    ensures
        r == white(c),
{
    let n: u32 = c as u32;
    (0x09 <= n && n <= 0x0d) || n == 0x20 || n == 0x85 || n == 0xa0 || n == 0x1680 || (0x2000 <= n
        && n <= 0x200a) || n == 0x2028 || n == 0x2029 || n == 0x202f || n == 0x205f || n == 0x3000
}

/// The characters of Unicode's category `Cc`.
pub open spec fn control(c: char) -> bool {
    let n = c as u32;
    n <= 0x1f || 0x7f <= n <= 0x9f
}

/// Whether `c` is in Unicode's category `Cc`.
pub fn is_control(c: char) -> (r: bool)
    ensures
        r == control(c),
{
    let n: u32 = c as u32;
    n <= 0x1f || (0x7f <= n && n <= 0x9f)
}

/// `s` without the white space it starts with.
pub open spec fn trim_start(s: Seq<char>) -> Seq<char>
    decreases s.len(),
{
    if s.len() > 0 && white(s[0]) {
        trim_start(s.drop_first())
    } else {
        s
    }
}

/// `s` without the white space it ends with.
pub open spec fn trim_end(s: Seq<char>) -> Seq<char>
    decreases s.len(),
{
    if s.len() > 0 && white(s.last()) {
        trim_end(s.drop_last())
    } else {
        s
    }
}

/// `s` without the white space at either end.
pub open spec fn trimmed(s: Seq<char>) -> Seq<char> {
    trim_end(trim_start(s))
}

/// What `trim_start` leaves begins with no white space, and is the end of what it was given.
proof fn lemma_trim_start(s: Seq<char>)
    ensures
        trim_start(s).len() <= s.len(),
        trim_start(s) == s.skip(s.len() - trim_start(s).len()),
        trim_start(s).len() > 0 ==> !white(trim_start(s)[0]),
    decreases s.len(),
{
    if s.len() > 0 && white(s[0]) {
        lemma_trim_start(s.drop_first());
    }
    assert(trim_start(s) =~= s.skip(s.len() - trim_start(s).len()));
}

/// What `trim_end` leaves ends with no white space, and is the beginning of what it was given.
pub proof fn lemma_trim_end(s: Seq<char>)
    ensures
        trim_end(s).len() <= s.len(),
        trim_end(s) == s.take(trim_end(s).len() as int),
        trim_end(s).len() > 0 ==> !white(trim_end(s).last()),
    decreases s.len(),
{
    if s.len() > 0 && white(s.last()) {
        lemma_trim_end(s.drop_last());
    }
    assert(trim_end(s) =~= s.take(trim_end(s).len() as int));
}

/// Text without white space at either end stays as it is.
pub proof fn lemma_nothing_to_trim(s: Seq<char>)
    requires
        s.len() > 0 ==> !white(s[0]) && !white(s.last()),
    ensures
        trimmed(s) == s,
{
}

/// Trimming twice is trimming once.
pub proof fn lemma_trimmed_is_trimmed(s: Seq<char>)
    ensures
        trimmed(trimmed(s)) == trimmed(s),
        trimmed(s).len() > 0 ==> !white(trimmed(s)[0]) && !white(trimmed(s).last()),
{
    lemma_trim_start(s);
    let t = trim_start(s);
    lemma_trim_end(t);
    lemma_nothing_to_trim(trimmed(s));
}

/// `s` without the white space at either end.
pub fn trim_chars(v: &Vec<char>) -> (r: Vec<char>)
    ensures
        r@ == trimmed(v@),
{
    let mut i: usize = 0;
    assert(v@.skip(0) == v@);
    while i < v.len() && is_white(v[i])
        invariant
            i <= v@.len(),
            trim_start(v@.skip(i as int)) == trim_start(v@),
        decreases v@.len() - i,
    {
        assert(v@.skip(i as int).drop_first() == v@.skip(i + 1));
        i += 1;
    }
    let ghost rest = v@.skip(i as int);
    assert(trim_start(rest) == rest);
    let mut j: usize = v.len();
    assert(v@.subrange(i as int, j as int) == rest);
    while j > i && is_white(v[j - 1])
        invariant
            i <= j <= v@.len(),
            trim_end(v@.subrange(i as int, j as int)) == trimmed(v@),
        decreases j,
    {
        assert(v@.subrange(i as int, j as int).drop_last() == v@.subrange(i as int, j - 1));
        j -= 1;
    }
    part(v, i, j)
}

/// `s` without the white space at either end.
pub fn trim(s: &str) -> (r: String)
    ensures
        r@ == trimmed(s@),
{
    from_chars(&trim_chars(&to_chars(s)))
}

/// The pieces of `s` between the characters `sep`; one more than there are separators.
pub open spec fn split(s: Seq<char>, sep: char) -> Seq<Seq<char>>
    decreases s.len(),
{
    if s.len() == 0 {
        seq![Seq::<char>::empty()]
    } else {
        let before = split(s.drop_last(), sep);
        if s.last() == sep {
            before.push(Seq::empty())
        } else {
            before.drop_last().push(before.last().push(s.last()))
        }
    }
}

/// A split has at least one piece, and no piece holds the separator.
pub proof fn lemma_split_pieces(s: Seq<char>, sep: char)
    ensures
        split(s, sep).len() >= 1,
        forall|i: int, k: int|
            0 <= i < split(s, sep).len() && 0 <= k < split(s, sep)[i].len() ==> split(s, sep)[i][k]
                != sep,
    decreases s.len(),
{
    if s.len() > 0 {
        lemma_split_pieces(s.drop_last(), sep);
    }
}

/// The pieces of `v` between the characters `sep`.
pub fn split_chars(v: &Vec<char>, sep: char) -> (r: Vec<Vec<char>>)
    ensures
        rows(r@) == split(v@, sep),
{
    let mut done: Vec<Vec<char>> = Vec::new();
    let mut cur: Vec<char> = Vec::new();
    let mut i: usize = 0;
    assert(rows(done@).push(cur@) == split(v@.take(0), sep));
    while i < v.len()
        invariant
            i <= v@.len(),
            rows(done@).push(cur@) == split(v@.take(i as int), sep),
        decreases v@.len() - i,
    {
        let c = v[i];
        let ghost before = rows(done@).push(cur@);
        assert(v@.take(i + 1).drop_last() == v@.take(i as int));
        assert(v@.take(i + 1).last() == c);
        if c == sep {
            let ghost old_done = done@;
            let ghost old_cur = cur@;
            done.push(cur);
            cur = Vec::new();
            assert(rows(done@) == rows(old_done).push(old_cur));
        } else {
            cur.push(c);
            assert(before.drop_last() == rows(done@));
        }
        i += 1;
    }
    assert(v@.take(v@.len() as int) == v@);
    let ghost old_done = done@;
    let ghost old_cur = cur@;
    done.push(cur);
    assert(rows(done@) == rows(old_done).push(old_cur));
    done
}

/// The index of the first `c` in `s`, or the length of `s` if there is none.
pub open spec fn first_index(s: Seq<char>, c: char) -> int
    decreases s.len(),
{
    if s.len() == 0 || s[0] == c {
        0
    } else {
        1 + first_index(s.drop_first(), c)
    }
}

/// The index of the first `c` in `v`, or the length of `v` if there is none.
pub fn find(v: &Vec<char>, c: char) -> (r: usize)
    ensures
        r == first_index(v@, c),
        r <= v@.len(),
        r < v@.len() ==> v@[r as int] == c,
        forall|k: int| 0 <= k < r ==> v@[k] != c,
{
    let mut i: usize = 0;
    assert(v@.skip(0) == v@);
    while i < v.len() && v[i] != c
        invariant
            i <= v@.len(),
            i + first_index(v@.skip(i as int), c) == first_index(v@, c),
            forall|k: int| 0 <= k < i ==> v@[k] != c,
        decreases v@.len() - i,
    {
        assert(v@.skip(i as int).drop_first() == v@.skip(i + 1));
        i += 1;
    }
    i
}

/// The first index is within the text, and nothing before it is `c`.
pub proof fn lemma_first_index(s: Seq<char>, c: char)
    ensures
        0 <= first_index(s, c) <= s.len(),
        first_index(s, c) < s.len() ==> s[first_index(s, c)] == c,
        forall|k: int| 0 <= k < first_index(s, c) ==> s[k] != c,
    decreases s.len(),
{
    if s.len() > 0 && s[0] != c {
        let rest = s.drop_first();
        lemma_first_index(rest, c);
        assert forall|k: int| 0 <= k < first_index(s, c) implies s[k] != c by {
            if k > 0 {
                assert(s[k] == rest[k - 1]);
            }
        }
    }
}

/// The text before the first `c`; all of it if there is none.
pub open spec fn before(s: Seq<char>, c: char) -> Seq<char> {
    s.take(first_index(s, c))
}

/// The text after the last `c`; all of it if there is none.
pub open spec fn after_last(s: Seq<char>, c: char) -> Seq<char>
    decreases s.len(),
{
    if s.len() == 0 || s.last() == c {
        Seq::empty()
    } else {
        after_last(s.drop_last(), c).push(s.last())
    }
}

/// The text of `v` after its last `c`.
pub fn tail_after(v: &Vec<char>, c: char) -> (r: Vec<char>)
    ensures
        r@ == after_last(v@, c),
{
    let mut i: usize = v.len();
    assert(v@.take(i as int) == v@);
    assert(v@.subrange(i as int, v@.len() as int) == Seq::<char>::empty());
    while i > 0 && v[i - 1] != c
        invariant
            i <= v@.len(),
            after_last(v@, c) == after_last(v@.take(i as int), c) + v@.subrange(
                i as int,
                v@.len() as int,
            ),
        decreases i,
    {
        let ghost upto = v@.take(i as int);
        assert(upto.drop_last() == v@.take(i - 1));
        assert(after_last(upto, c) == after_last(v@.take(i - 1), c).push(v@[i - 1]));
        assert(after_last(v@, c) == after_last(v@.take(i - 1), c) + v@.subrange(
            i - 1,
            v@.len() as int,
        ));
        i -= 1;
    }
    assert(after_last(v@.take(i as int), c) == Seq::<char>::empty());
    part(v, i, v.len())
}

/// `s` without the slashes it ends with.
pub open spec fn without_trailing_slashes(s: Seq<char>) -> Seq<char>
    decreases s.len(),
{
    if s.len() > 0 && s.last() == '/' {
        without_trailing_slashes(s.drop_last())
    } else {
        s
    }
}

/// `s` without the slashes it ends with.
pub fn strip_slashes(s: &str) -> (r: Vec<char>)
    ensures
        r@ == without_trailing_slashes(s@),
{
    let v = to_chars(s);
    let mut n: usize = v.len();
    assert(v@.take(n as int) == v@);
    while n > 0 && v[n - 1] == '/'
        invariant
            n <= v@.len(),
            v@ == s@,
            without_trailing_slashes(v@.take(n as int)) == without_trailing_slashes(s@),
        decreases n,
    {
        assert(v@.take(n as int).drop_last() == v@.take(n - 1));
        n -= 1;
    }
    assert(v@.subrange(0, n as int) == v@.take(n as int));
    part(&v, 0, n)
}

/// Two decimal digits, for a number below one hundred.
pub open spec fn two_digits(n: nat) -> Seq<char> {
    seq![digit(n / 10), digit(n % 10)]
}

/// `line` without the carriage return it ends with, if it ends with one.
pub open spec fn without_cr(line: Seq<char>) -> Seq<char> {
    if line.len() > 0 && line.last() == '\r' {
        line.drop_last()
    } else {
        line
    }
}

/// The lines of a text. A line ends with a line feed, or a carriage return and a line feed; the
/// last one may lack its end.
pub open spec fn lines(s: Seq<char>) -> Seq<Seq<char>> {
    let pieces = split(s, '\n');
    let whole = Seq::new(
        (pieces.len() - 1) as nat,
        |i: int| without_cr(pieces[i]),
    );
    if pieces.last().len() == 0 {
        whole
    } else {
        whole.push(pieces.last())
    }
}

proof fn lemma_split_cons(line: Seq<char>, rest: Seq<char>, sep: char)
    requires
        !line.contains(sep),
    ensures
        split(line + seq![sep] + rest, sep) == seq![line] + split(rest, sep),
    decreases rest.len(),
{
    let whole = line + seq![sep] + rest;
    if rest.len() == 0 {
        assert(whole =~= line.push(sep));
        assert(line.push(sep).drop_last() =~= line);
        lemma_split_single(line, sep);
        assert(split(rest, sep) =~= seq![Seq::<char>::empty()]);
        assert(split(whole, sep) =~= seq![line] + split(rest, sep));
    } else {
        let shorter = rest.drop_last();
        assert(whole.drop_last() =~= line + seq![sep] + shorter);
        assert(whole.last() == rest.last());
        lemma_split_cons(line, shorter, sep);
        lemma_split_pieces(shorter, sep);
        let before = split(shorter, sep);
        assert((seq![line] + before).drop_last() =~= seq![line] + before.drop_last());
        assert((seq![line] + before).last() == before.last());
        assert(split(whole, sep) =~= seq![line] + split(rest, sep));
    }
}

/// A text without the separator is its only piece.
pub proof fn lemma_split_single(line: Seq<char>, sep: char)
    requires
        !line.contains(sep),
    ensures
        split(line, sep) == seq![line],
    decreases line.len(),
{
    if line.len() > 0 {
        let shorter = line.drop_last();
        assert(!shorter.contains(sep)) by {
            assert forall|i: int| 0 <= i < shorter.len() implies shorter[i] != sep by {
                assert(line[i] != sep);
            }
        }
        lemma_split_single(shorter, sep);
        assert(line.last() != sep);
        assert(line =~= shorter.push(line.last()));
        assert(split(line, sep) =~= seq![line]);
    } else {
        assert(line =~= Seq::<char>::empty());
        assert(split(line, sep) =~= seq![line]);
    }
}

/// The first line of a text that begins with a line and a line feed is that line.
pub proof fn lemma_first_line(line: Seq<char>, rest: Seq<char>)
    requires
        !line.contains('\n'),
    ensures
        lines(line + seq!['\n'] + rest) == seq![without_cr(line)] + lines(rest),
{
    lemma_split_cons(line, rest, '\n');
    lemma_split_pieces(rest, '\n');
    let pieces = split(rest, '\n');
    let all = split(line + seq!['\n'] + rest, '\n');
    assert(all.last() == pieces.last());
    assert(lines(line + seq!['\n'] + rest) =~= seq![without_cr(line)] + lines(rest));
}

/// White space at the end does not matter to trimming.
pub proof fn lemma_trailing_white_is_trimmed(s: Seq<char>)
    requires
        s.len() > 0,
        white(s.last()),
    ensures
        trimmed(s.drop_last()) == trimmed(s),
    decreases s.len(),
{
    let t = s.drop_last();
    if t.len() == 0 {
        assert(s.drop_first() =~= Seq::<char>::empty());
        assert(t =~= Seq::<char>::empty());
    } else if white(s[0]) {
        assert(s.drop_first().drop_last() =~= t.drop_first());
        lemma_trailing_white_is_trimmed(s.drop_first());
    } else {
        assert(t[0] == s[0]);
    }
}

/// The lines of a text.
pub fn split_lines(s: &str) -> (r: Vec<Vec<char>>)
    ensures
        rows(r@) == lines(s@),
{
    let pieces = split_chars(&to_chars(s), '\n');
    let ghost all = rows(pieces@);
    proof {
        lemma_split_pieces(s@, '\n');
    }
    let n: usize = pieces.len();
    let mut out: Vec<Vec<char>> = Vec::new();
    let mut i: usize = 0;
    while i < n - 1
        invariant
            1 <= n == pieces@.len(),
            i <= n - 1,
            all == rows(pieces@),
            out@.len() == i,
            forall|k: int| 0 <= k < i ==> (#[trigger] out@[k])@ == without_cr(all[k]),
        decreases n - i,
    {
        let m: usize = pieces[i].len();
        if m > 0 && pieces[i][m - 1] == '\r' {
            let line = part(&pieces[i], 0, m - 1);
            assert(line@ =~= pieces@[i as int]@.drop_last());
            out.push(line);
        } else {
            let line = part(&pieces[i], 0, m);
            assert(line@ =~= pieces@[i as int]@);
            out.push(line);
        }
        i += 1;
    }
    let m: usize = pieces[n - 1].len();
    if m > 0 {
        let line = part(&pieces[n - 1], 0, m);
        assert(line@ =~= pieces@[n - 1]@);
        out.push(line);
    }
    assert(rows(out@) =~= lines(s@));
    out
}

/// Whether a character stands between words: white space, and commas where they count.
pub open spec fn between_words(c: char, commas: bool) -> bool {
    white(c) || (commas && c == ',')
}

/// The pieces of `s` between the characters that stand between words, empty ones included.
pub open spec fn word_pieces(s: Seq<char>, commas: bool) -> Seq<Seq<char>>
    decreases s.len(),
{
    if s.len() == 0 {
        seq![Seq::<char>::empty()]
    } else {
        let before = word_pieces(s.drop_last(), commas);
        if between_words(s.last(), commas) {
            before.push(Seq::empty())
        } else {
            before.drop_last().push(before.last().push(s.last()))
        }
    }
}

/// The pieces that hold at least one character, in order.
pub open spec fn non_empty(pieces: Seq<Seq<char>>) -> Seq<Seq<char>>
    decreases pieces.len(),
{
    if pieces.len() == 0 {
        pieces
    } else if pieces.last().len() == 0 {
        non_empty(pieces.drop_last())
    } else {
        non_empty(pieces.drop_last()).push(pieces.last())
    }
}

/// The words of a text: what stands between white space, and between commas where they count.
pub open spec fn words(s: Seq<char>, commas: bool) -> Seq<Seq<char>> {
    non_empty(word_pieces(s, commas))
}

/// The pieces with `sep` between any two.
pub open spec fn separated(pieces: Seq<Seq<char>>, sep: Seq<char>) -> Seq<char>
    decreases pieces.len(),
{
    if pieces.len() == 0 {
        Seq::empty()
    } else if pieces.len() == 1 {
        pieces[0]
    } else {
        separated(pieces.drop_last(), sep) + sep + pieces.last()
    }
}

/// The pieces of `rows` that hold at least one character.
pub fn drop_empty(pieces: Vec<Vec<char>>) -> (r: Vec<Vec<char>>)
    ensures
        rows(r@) == non_empty(rows(pieces@)),
{
    let mut out: Vec<Vec<char>> = Vec::new();
    let mut i: usize = 0;
    assert(rows(out@) == non_empty(rows(pieces@).take(0)));
    while i < pieces.len()
        invariant
            i <= pieces@.len(),
            rows(out@) == non_empty(rows(pieces@).take(i as int)),
        decreases pieces@.len() - i,
    {
        let ghost upto = rows(pieces@).take(i + 1);
        assert(upto.drop_last() == rows(pieces@).take(i as int));
        assert(upto.last() == pieces@[i as int]@);
        if pieces[i].len() > 0 {
            let ghost before = out@;
            out.push(part(&pieces[i], 0, pieces[i].len()));
            assert(out@.last()@ == pieces@[i as int]@);
            assert(rows(out@) == rows(before).push(upto.last()));
        }
        i += 1;
    }
    assert(rows(pieces@).take(pieces@.len() as int) == rows(pieces@));
    out
}

/// The words of a text.
pub fn split_words(s: &str, commas: bool) -> (r: Vec<Vec<char>>)
    ensures
        rows(r@) == words(s@, commas),
{
    let v = to_chars(s);
    let mut done: Vec<Vec<char>> = Vec::new();
    let mut cur: Vec<char> = Vec::new();
    let mut i: usize = 0;
    assert(rows(done@).push(cur@) == word_pieces(v@.take(0), commas));
    while i < v.len()
        invariant
            i <= v@.len(),
            rows(done@).push(cur@) == word_pieces(v@.take(i as int), commas),
        decreases v@.len() - i,
    {
        let c = v[i];
        let ghost before = rows(done@).push(cur@);
        assert(v@.take(i + 1).drop_last() == v@.take(i as int));
        assert(v@.take(i + 1).last() == c);
        if is_white(c) || (commas && c == ',') {
            let ghost old_done = done@;
            let ghost old_cur = cur@;
            done.push(cur);
            cur = Vec::new();
            assert(rows(done@) == rows(old_done).push(old_cur));
        } else {
            cur.push(c);
            assert(before.drop_last() == rows(done@));
        }
        i += 1;
    }
    assert(v@.take(v@.len() as int) == v@);
    let ghost old_done = done@;
    let ghost old_cur = cur@;
    done.push(cur);
    assert(rows(done@) == rows(old_done).push(old_cur));
    drop_empty(done)
}

/// The pieces with `sep` between any two.
pub fn join_with(pieces: &Vec<String>, sep: &str) -> (r: String)
    ensures
        r@ == separated(texts(pieces@), sep@),
{
    let mut out = String::new();
    let mut i: usize = 0;
    assert(out@ =~= separated(texts(pieces@).take(0), sep@));
    while i < pieces.len()
        invariant
            i <= pieces@.len(),
            out@ == separated(texts(pieces@).take(i as int), sep@),
        decreases pieces@.len() - i,
    {
        let ghost upto = texts(pieces@).take(i + 1);
        assert(upto.drop_last() =~= texts(pieces@).take(i as int));
        assert(upto.last() == pieces@[i as int]@);
        if i > 0 {
            out.append(sep);
        }
        out.append(pieces[i].as_str());
        proof {
            if i == 0 {
                assert(upto[0] == pieces@[0]@);
                assert(out@ =~= pieces@[0]@);
            }
        }
        i += 1;
    }
    assert(texts(pieces@).take(pieces@.len() as int) =~= texts(pieces@));
    out
}

/// The rows as strings.
pub fn to_strings(v: &Vec<Vec<char>>) -> (r: Vec<String>)
    ensures
        texts(r@) == rows(v@),
{
    let mut out: Vec<String> = Vec::new();
    let mut i: usize = 0;
    while i < v.len()
        invariant
            i <= v@.len(),
            out@.len() == i,
            forall|k: int| 0 <= k < i ==> (#[trigger] out@[k])@ == v@[k]@,
        decreases v@.len() - i,
    {
        out.push(from_chars(&v[i]));
        i += 1;
    }
    assert(texts(out@) =~= rows(v@));
    out
}

/// Whether `s` begins with `p`.
pub open spec fn has_prefix(s: Seq<char>, p: Seq<char>) -> bool {
    p.len() <= s.len() && s.take(p.len() as int) == p
}

/// Whether `s` ends with `p`.
pub open spec fn has_suffix(s: Seq<char>, p: Seq<char>) -> bool {
    p.len() <= s.len() && s.skip(s.len() - p.len()) == p
}

/// Whether `s` holds `p` from index `i` on.
pub open spec fn occurs_at(s: Seq<char>, p: Seq<char>, i: int) -> bool {
    0 <= i && i + p.len() <= s.len() && s.subrange(i, i + p.len()) == p
}

/// Whether `p` occurs in `s`.
pub open spec fn has_text(s: Seq<char>, p: Seq<char>) -> bool {
    exists|i: int| occurs_at(s, p, i)
}

/// Whether `s` holds `p` from index `i` on.
pub fn at(s: &Vec<char>, p: &Vec<char>, i: usize) -> (r: bool)
    requires
        i <= s@.len(),
    ensures
        r == occurs_at(s@, p@, i as int),
{
    let n: usize = s.len();
    if p.len() > n - i {
        return false;
    }
    let mut k: usize = 0;
    while k < p.len()
        invariant
            i + p@.len() <= s@.len() <= usize::MAX,
            k <= p@.len(),
            forall|j: int| 0 <= j < k ==> s@[i + j] == p@[j],
        decreases p@.len() - k,
    {
        if s[i + k] != p[k] {
            assert(s@.subrange(i as int, i + p@.len())[k as int] != p@[k as int]);
            return false;
        }
        k += 1;
    }
    assert(s@.subrange(i as int, i + p@.len()) =~= p@);
    true
}

/// Whether `s` begins with `p`.
pub fn starts_with(s: &Vec<char>, p: &str) -> (r: bool)
    ensures
        r == has_prefix(s@, p@),
{
    let r = at(s, &to_chars(p), 0);
    assert(p@.len() <= s@.len() ==> s@.subrange(0, p@.len() as int) == s@.take(p@.len() as int));
    r
}

/// Whether `s` ends with `p`.
pub fn ends_with(s: &Vec<char>, p: &str) -> (r: bool)
    ensures
        r == has_suffix(s@, p@),
{
    let p = to_chars(p);
    if p.len() > s.len() {
        return false;
    }
    let i: usize = s.len() - p.len();
    assert(s@.subrange(i as int, s@.len() as int) == s@.skip(i as int));
    at(s, &p, i)
}

/// Whether `p` occurs in `s`.
pub fn contains(s: &Vec<char>, p: &str) -> (r: bool)
    ensures
        r == has_text(s@, p@),
{
    let chars = to_chars(p);
    let mut i: usize = 0;
    while i < s.len()
        invariant
            i <= s@.len(),
            chars@ == p@,
            forall|j: int| 0 <= j < i ==> !occurs_at(s@, p@, j),
        decreases s@.len() - i,
    {
        if at(s, &chars, i) {
            return true;
        }
        i += 1;
    }
    at(s, &chars, i)
}

/// The decimal digit with value `d`.
pub open spec fn digit(d: nat) -> char {
    (d + 0x30) as char
}

/// The decimal digits of `n`, without leading zeros.
pub open spec fn decimal(n: nat) -> Seq<char>
    decreases n,
{
    if n < 10 {
        seq![digit(n)]
    } else {
        decimal(n / 10).push(digit(n % 10))
    }
}

/// The decimal digit with value `d`.
pub fn digit_char(d: u64) -> (r: char)
    requires
        d < 10,
    ensures
        r == digit(d as nat),
{
    (0x30u8 + d as u8) as char
}

/// The decimal digits of `n`, without leading zeros.
pub fn decimal_text(n: u64) -> (r: String)
    ensures
        r@ == decimal(n as nat),
    decreases n,
{
    if n < 10 {
        let mut out = String::new();
        out.push(digit_char(n));
        assert(out@ == seq![digit(n as nat)]);
        out
    } else {
        let mut out = decimal_text(n / 10);
        out.push(digit_char(n % 10));
        out
    }
}

/// The hexadecimal digit, in upper case, with value `d`.
pub open spec fn upper_hex(d: nat) -> char {
    if d < 10 {
        (0x30 + d) as char
    } else {
        (0x37 + d) as char
    }
}

/// The hexadecimal digit, in upper case, with value `d`.
pub fn upper_hex_char(d: u32) -> (r: char)
    requires
        d < 16,
    ensures
        r == upper_hex(d as nat),
{
    if d < 10 {
        (0x30u8 + d as u8) as char
    } else {
        (0x37u8 + d as u8) as char
    }
}

// ---- laws -----------------------------------------------------------------------------------

/// Whether a text is white space only.
pub open spec fn is_blank(s: Seq<char>) -> bool {
    forall|i: int| 0 <= i < s.len() ==> white(#[trigger] s[i])
}

/// A trimmed text is what is left between the white space at its ends: there is none at the ends
/// of it, and nothing but white space was taken away.
pub proof fn law_a_trimmed_text_is_the_middle(s: Seq<char>)
    ensures
        trimmed(s).len() > 0 ==> !white(trimmed(s)[0]) && !white(trimmed(s).last()),
        exists|a: Seq<char>, b: Seq<char>|
            is_blank(a) && is_blank(b) && s == #[trigger] (a + trimmed(s) + b),
{
    lemma_trimmed_is_trimmed(s);
    let t = trim_start(s);
    lemma_start_is_blank(s);
    lemma_end_is_blank(t);
    let a = s.take(s.len() - t.len());
    let b = t.skip(trim_end(t).len() as int);
    lemma_trim_start(s);
    lemma_trim_end(t);
    assert(s =~= a + trimmed(s) + b);
}

proof fn lemma_start_is_blank(s: Seq<char>)
    ensures
        trim_start(s).len() <= s.len(),
        is_blank(s.take(s.len() - trim_start(s).len())),
    decreases s.len(),
{
    if s.len() > 0 && white(s[0]) {
        let rest = s.drop_first();
        lemma_start_is_blank(rest);
        let a = s.take(s.len() - trim_start(s).len());
        let b = rest.take(rest.len() - trim_start(rest).len());
        assert forall|i: int| 0 <= i < a.len() implies white(#[trigger] a[i]) by {
            if i > 0 {
                assert(a[i] == b[i - 1]);
            }
        }
    }
}

proof fn lemma_end_is_blank(s: Seq<char>)
    ensures
        trim_end(s).len() <= s.len(),
        is_blank(s.skip(trim_end(s).len() as int)),
    decreases s.len(),
{
    if s.len() > 0 && white(s.last()) {
        let front = s.drop_last();
        lemma_end_is_blank(front);
        let a = s.skip(trim_end(s).len() as int);
        let b = front.skip(trim_end(front).len() as int);
        assert forall|i: int| 0 <= i < a.len() implies white(#[trigger] a[i]) by {
            if i < b.len() {
                assert(a[i] == b[i]);
            }
        }
    }
}

/// Which characters are white space: blanks, tabs and line ends are, and so is the wide blank;
/// letters, digits and signs are not.
pub proof fn law_what_white_space_is()
    ensures
        white(' ') && white('\t') && white('\n') && white('\r') && white('\u{a0}') && white(
            '\u{3000}',
        ),
        forall|c: char| '!' <= c <= '~' ==> !white(c),
{
}

/// The pieces of a text, with the character between them again, are the text; no piece holds it.
pub proof fn law_pieces_join_back(s: Seq<char>, sep: char)
    ensures
        separated(split(s, sep), seq![sep]) == s,
        split(s, sep).len() > 0,
        forall|i: int| 0 <= i < split(s, sep).len() ==> !(#[trigger] split(s, sep)[i]).contains(sep),
    decreases s.len(),
{
    lemma_split_pieces(s, sep);
    if s.len() == 0 {
        assert(separated(split(s, sep), seq![sep]) =~= s);
    } else {
        let t = s.drop_last();
        law_pieces_join_back(t, sep);
        lemma_split_pieces(t, sep);
        let before = split(t, sep);
        let all = split(s, sep);
        assert(all.len() > 0);
        if s.last() == sep {
            assert(all.drop_last() =~= before);
            assert(separated(all, seq![sep]) =~= s);
        } else {
            let shorter = before.drop_last();
            let grown = before.last().push(s.last());
            assert(all =~= shorter.push(grown));
            assert(all.drop_last() =~= shorter);
            if before.len() == 1 {
                assert(separated(all, seq![sep]) =~= grown);
                assert(separated(before, seq![sep]) =~= before.last());
                assert(t.push(s.last()) =~= s);
            } else {
                assert(separated(all, seq![sep]) =~= separated(shorter, seq![sep]) + seq![sep]
                    + grown);
                assert(separated(before, seq![sep]) =~= separated(shorter, seq![sep]) + seq![sep]
                    + before.last());
                assert(separated(all, seq![sep]) =~= t.push(s.last()));
                assert(t.push(s.last()) =~= s);
            }
        }
    }
}

/// Whether a text is one word.
pub open spec fn is_word(w: Seq<char>, commas: bool) -> bool {
    w.len() > 0 && forall|i: int| 0 <= i < w.len() ==> !between_words(#[trigger] w[i], commas)
}

/// The words of a text are found one by one: a word alone is its only word, and what stands
/// between words parts the words before it from those behind it.
pub proof fn law_words_are_parted(a: Seq<char>, c: char, b: Seq<char>, commas: bool)
    requires
        between_words(c, commas),
    ensures
        words(a + seq![c] + b, commas) == words(a, commas) + words(b, commas),
        is_word(a, commas) ==> words(a, commas) == seq![a],
        words(Seq::empty(), commas).len() == 0,
{
    lemma_word_pieces(a, c, b, commas);
    let left = word_pieces(a, commas);
    let right = word_pieces(b, commas);
    lemma_non_empty_join(left, right);
    if is_word(a, commas) {
        lemma_one_word(a, commas);
        assert(seq![a].drop_last() =~= Seq::<Seq<char>>::empty());
        assert(non_empty(seq![a].drop_last()) =~= Seq::<Seq<char>>::empty());
        assert(words(a, commas) =~= seq![a]);
    }
    let none = word_pieces(Seq::empty(), commas);
    assert(none.drop_last() =~= Seq::<Seq<char>>::empty());
    assert(non_empty(none) =~= non_empty(none.drop_last()));
    assert(non_empty(none.drop_last()).len() == 0);
}

proof fn lemma_one_word(a: Seq<char>, commas: bool)
    requires
        forall|i: int| 0 <= i < a.len() ==> !between_words(#[trigger] a[i], commas),
    ensures
        word_pieces(a, commas) == seq![a],
    decreases a.len(),
{
    if a.len() == 0 {
        assert(a =~= Seq::<char>::empty());
    } else {
        let t = a.drop_last();
        assert forall|i: int| 0 <= i < t.len() implies !between_words(#[trigger] t[i], commas) by {
            assert(t[i] == a[i]);
        }
        lemma_one_word(t, commas);
        assert(!between_words(a[a.len() - 1], commas));
        assert(t.push(a.last()) =~= a);
        assert(seq![t].drop_last().push(t.push(a.last())) =~= seq![a]);
    }
}

proof fn lemma_word_pieces(a: Seq<char>, c: char, b: Seq<char>, commas: bool)
    requires
        between_words(c, commas),
    ensures
        word_pieces(a + seq![c] + b, commas) == word_pieces(a, commas) + word_pieces(b, commas),
        word_pieces(b, commas).len() > 0,
    decreases b.len(),
{
    let s = a + seq![c] + b;
    if b.len() == 0 {
        assert(s.drop_last() =~= a);
        assert(b =~= Seq::<char>::empty());
        assert(word_pieces(a, commas) + word_pieces(b, commas) =~= word_pieces(a, commas).push(
            Seq::empty(),
        ));
    } else {
        let t = b.drop_last();
        lemma_word_pieces(a, c, t, commas);
        assert(s.drop_last() =~= a + seq![c] + t);
        assert(s.last() == b.last());
        let left = word_pieces(a, commas);
        let right = word_pieces(t, commas);
        if between_words(b.last(), commas) {
            assert((left + right).push(Seq::<char>::empty()) =~= left + right.push(
                Seq::<char>::empty(),
            ));
        } else {
            assert((left + right).last() == right.last());
            assert((left + right).drop_last().push(right.last().push(b.last())) =~= left + (
            right.drop_last().push(right.last().push(b.last()))));
        }
    }
}

proof fn lemma_non_empty_join(a: Seq<Seq<char>>, b: Seq<Seq<char>>)
    ensures
        non_empty(a + b) == non_empty(a) + non_empty(b),
    decreases b.len(),
{
    if b.len() == 0 {
        assert(a + b =~= a);
        assert(non_empty(a) + non_empty(b) =~= non_empty(a));
    } else {
        lemma_non_empty_join(a, b.drop_last());
        assert((a + b).drop_last() =~= a + b.drop_last());
        assert((a + b).last() == b.last());
        assert(non_empty(a + b) =~= non_empty(a) + non_empty(b));
    }
}

/// A text that occurs in a part of a text occurs in the text.
pub(crate) proof fn lemma_occurs_within(whole: Seq<char>, part: Seq<char>, p: Seq<char>)
    requires
        has_text(whole, part),
        has_text(part, p),
    ensures
        has_text(whole, p),
{
    let i = choose|i: int| occurs_at(whole, part, i);
    let k = choose|k: int| occurs_at(part, p, k);
    assert(whole.subrange(i + k, i + k + p.len()) =~= part.subrange(k, k + p.len())) by {
        assert forall|j: int| 0 <= j < p.len() implies #[trigger] whole.subrange(
            i + k,
            i + k + p.len(),
        )[j] == part.subrange(k, k + p.len())[j] by {
            assert(whole.subrange(i, i + part.len())[k + j] == part[k + j]);
        }
    }
    assert(occurs_at(whole, p, i + k));
}

/// A text occurs where it stands between two others.
pub(crate) proof fn lemma_occurs_between(a: Seq<char>, p: Seq<char>, b: Seq<char>)
    ensures
        has_text(a + p + b, p),
{
    let at = a.len() as int;
    assert((a + p + b).subrange(at, at + p.len()) =~= p);
    assert(occurs_at(a + p + b, p, at));
}

/// The lines of a text are found one by one: what stands before a line feed is a line, without the
/// carriage return at its end; what stands behind the last one is a line if there is something,
/// and is kept as it is.
pub proof fn law_lines_are_found_one_by_one(line: Seq<char>, rest: Seq<char>)
    requires
        !line.contains('\n'),
    ensures
        line.len() > 0 && line.last() == '\r' ==> lines(line + seq!['\n'] + rest)
            == seq![line.drop_last()] + lines(rest),
        line.len() == 0 || line.last() != '\r' ==> lines(line + seq!['\n'] + rest) == seq![line]
            + lines(rest),
        line.len() > 0 ==> lines(line) == seq![line],
        lines(Seq::empty()).len() == 0,
{
    lemma_first_line(line, rest);
    lemma_split_single(line, '\n');
    if line.len() > 0 {
        assert(lines(line) =~= seq![line]);
    }
}

} // verus!
