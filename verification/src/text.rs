//! Character-level text handling with exact specifications: line and
//! whitespace splitting, trimming and prefix tests over `Seq<char>`.
use vstd::prelude::*;

verus! {

/// Unicode `White_Space`, the set that `char::is_whitespace` tests.
pub open spec fn is_ws(c: char) -> bool {
    let u = c as u32;
    ||| 0x09 <= u <= 0x0d
    ||| u == 0x20
    ||| u == 0x85
    ||| u == 0xa0
    ||| u == 0x1680
    ||| 0x2000 <= u <= 0x200a
    ||| u == 0x2028
    ||| u == 0x2029
    ||| u == 0x202f
    ||| u == 0x205f
    ||| u == 0x3000
}

/// What separates the pieces of a split.
#[derive(Clone, Copy, PartialEq, Eq, Structural)]
pub enum Sep {
    /// A line feed.
    Line,
    /// Whitespace.
    Space,
    /// A path separator: `/`, and on Windows also `\\`.
    Path { windows: bool },
}

/// Whether `c` separates pieces split by `sep`.
pub open spec fn is_sep(c: char, sep: Sep) -> bool {
    match sep {
        Sep::Line => c == '\n',
        Sep::Space => is_ws(c),
        Sep::Path { windows } => c == '/' || (windows && c == '\\'),
    }
}

/// All pieces of `s` between separators, empty pieces included; there is
/// always at least one piece.
pub open spec fn split_by(s: Seq<char>, sep: Sep) -> Seq<Seq<char>>
    decreases s.len(),
{
    if s.len() == 0 {
        seq![Seq::<char>::empty()]
    } else {
        let prev = split_by(s.drop_last(), sep);
        if is_sep(s.last(), sep) {
            prev.push(Seq::<char>::empty())
        } else {
            prev.update(prev.len() - 1, prev.last().push(s.last()))
        }
    }
}

/// `s` without its leading whitespace.
pub open spec fn trim_start(s: Seq<char>) -> Seq<char>
    decreases s.len(),
{
    if s.len() > 0 && is_ws(s[0]) {
        trim_start(s.drop_first())
    } else {
        s
    }
}

/// `s` without its trailing whitespace.
pub open spec fn trim_end(s: Seq<char>) -> Seq<char>
    decreases s.len(),
{
    if s.len() > 0 && is_ws(s.last()) {
        trim_end(s.drop_last())
    } else {
        s
    }
}

/// `s` without leading and trailing whitespace, as `str::trim` gives it.
pub open spec fn trim(s: Seq<char>) -> Seq<char> {
    trim_end(trim_start(s))
}

/// `p` is a prefix of `s`.
pub open spec fn is_prefix(p: Seq<char>, s: Seq<char>) -> bool {
    p.len() <= s.len() && s.subrange(0, p.len() as int) == p
}

/// The views of a sequence of character vectors.
pub open spec fn views(ws: Seq<Vec<char>>) -> Seq<Seq<char>> {
    ws.map_values(|w: Vec<char>| w@)
}

/// The non-empty pieces of a split, in order.
pub open spec fn non_empty(ws: Seq<Seq<char>>) -> Seq<Seq<char>>
    decreases ws.len(),
{
    if ws.len() == 0 {
        Seq::empty()
    } else if ws.last().len() > 0 {
        non_empty(ws.drop_last()).push(ws.last())
    } else {
        non_empty(ws.drop_last())
    }
}

/// The whitespace-separated words of `s`, as `str::split_whitespace` gives them.
pub open spec fn words(s: Seq<char>) -> Seq<Seq<char>> {
    non_empty(split_by(s, Sep::Space))
}

pub proof fn lemma_split_by_len(s: Seq<char>, sep: Sep)
    ensures
        split_by(s, sep).len() >= 1,
    decreases s.len(),
{
    if s.len() > 0 {
        lemma_split_by_len(s.drop_last(), sep);
    }
}

/// `char::is_whitespace`.
pub fn is_ws_char(c: char) -> (r: bool)
    ensures
        r == is_ws(c),
{
    let u = c as u32;
    (0x09 <= u && u <= 0x0d) || u == 0x20 || u == 0x85 || u == 0xa0 || u == 0x1680 || (0x2000
        <= u && u <= 0x200a) || u == 0x2028 || u == 0x2029 || u == 0x202f || u == 0x205f || u
        == 0x3000
}

/// The characters of `s`, in order.
pub fn chars_of(s: &str) -> (v: Vec<char>)
    ensures
        v@ == s@,
{
    let mut v: Vec<char> = Vec::new();
    for c in it: s.chars()
        invariant
            v@ == it.seq().take(it.index() as int),
            it.seq() == s@,
    {
        v.push(c);
    }
    v
}

} // verus!

verus! {

/// The string made of `v[lo..hi]`.
pub fn string_of(v: &Vec<char>, lo: usize, hi: usize) -> (r: String)
    requires
        lo <= hi <= v.len(),
    ensures
        r@ == v@.subrange(lo as int, hi as int),
{
    let mut r = String::new();
    let mut i = lo;
    while i < hi
        invariant
            lo <= i <= hi <= v.len(),
            r@ == v@.subrange(lo as int, i as int),
        decreases hi - i,
    {
        crate::host::string_push(&mut r, v[i]);
        assert(v@.subrange(lo as int, i + 1) == v@.subrange(lo as int, i as int).push(v@[i as int]));
        i = i + 1;
    }
    r
}

/// Separator test of `split_by`.
pub fn is_sep_char(c: char, sep: Sep) -> (r: bool)
    ensures
        r == is_sep(c, sep),
{
    match sep {
        Sep::Line => c == '\n',
        Sep::Space => is_ws_char(c),
        Sep::Path { windows } => c == '/' || (windows && c == '\\'),
    }
}

/// All pieces of `v` between separators, empty pieces included.
pub fn split_chars(v: &Vec<char>, sep: Sep) -> (r: Vec<Vec<char>>)
    ensures
        views(r@) == split_by(v@, sep),
{
    let mut done: Vec<Vec<char>> = Vec::new();
    let mut cur: Vec<char> = Vec::new();
    assert(v@.take(0) == Seq::<char>::empty());
    assert(views(done@).push(cur@) == split_by(v@.take(0), sep));
    for i in 0..v.len()
        invariant
            views(done@).push(cur@) == split_by(v@.take(i as int), sep),
    {
        let c = v[i];
        let ghost prev = split_by(v@.take(i as int), sep);
        assert(v@.take(i + 1).drop_last() == v@.take(i as int));
        assert(v@.take(i + 1).last() == c);
        if is_sep_char(c, sep) {
            let ghost old_done = done@;
            done.push(cur);
            cur = Vec::new();
            assert(views(done@) == views(old_done).push(prev.last()));
            assert(views(done@) == prev);
        } else {
            let ghost old_cur = cur@;
            cur.push(c);
            assert(views(done@).push(cur@) == prev.update(prev.len() - 1, prev.last().push(c)));
        }
    }
    assert(v@.take(v.len() as int) == v@);
    let ghost d = done@;
    done.push(cur);
    assert(views(done@) == views(d).push(cur@));
    done
}

/// `v` without leading and trailing whitespace.
pub fn trim_chars(v: &Vec<char>) -> (r: Vec<char>)
    ensures
        r@ == trim(v@),
{
    let n = v.len();
    let mut a: usize = 0;
    assert(v@.skip(0) == v@);
    while a < n && is_ws_char(v[a])
        invariant
            a <= n == v.len(),
            trim_start(v@) == trim_start(v@.skip(a as int)),
        decreases n - a,
    {
        assert(v@.skip(a as int).drop_first() == v@.skip(a + 1));
        a = a + 1;
    }
    let ghost t = v@.skip(a as int);
    assert(trim_start(t) == t);
    let mut b: usize = n;
    while b > a && is_ws_char(v[b - 1])
        invariant
            a <= b <= n == v.len(),
            t == v@.skip(a as int),
            trim_end(t) == trim_end(v@.subrange(a as int, b as int)),
        decreases b - a,
    {
        assert(v@.subrange(a as int, b as int).drop_last() == v@.subrange(a as int, b - 1));
        b = b - 1;
    }
    assert(v@.skip(a as int) == v@.subrange(a as int, n as int));
    let mut r: Vec<char> = Vec::new();
    let mut i = a;
    while i < b
        invariant
            a <= i <= b <= n == v.len(),
            r@ == v@.subrange(a as int, i as int),
        decreases b - i,
    {
        r.push(v[i]);
        assert(v@.subrange(a as int, i + 1) == v@.subrange(a as int, i as int).push(v@[i as int]));
        i = i + 1;
    }
    r
}

/// Whether `p` is a prefix of `v`.
pub fn has_prefix(p: &Vec<char>, v: &Vec<char>) -> (r: bool)
    ensures
        r == is_prefix(p@, v@),
{
    if p.len() > v.len() {
        return false;
    }
    let mut i: usize = 0;
    while i < p.len()
        invariant
            p.len() <= v.len(),
            i <= p.len(),
            forall|j: int| 0 <= j < i ==> p@[j] == v@[j],
        decreases p.len() - i,
    {
        if p[i] != v[i] {
            assert(v@.subrange(0, p.len() as int)[i as int] != p@[i as int]);
            return false;
        }
        i = i + 1;
    }
    assert(v@.subrange(0, p.len() as int) =~= p@);
    true
}

/// Whether `v` and `w` hold the same characters.
pub fn same_chars(v: &Vec<char>, w: &Vec<char>) -> (r: bool)
    ensures
        r == (v@ == w@),
{
    if v.len() != w.len() {
        return false;
    }
    let r = has_prefix(v, w);
    assert(w@ =~= w@.subrange(0, v.len() as int));
    r
}

/// `v[from..]` as a new vector.
pub fn skip_chars(v: &Vec<char>, from: usize) -> (r: Vec<char>)
    requires
        from <= v.len(),
    ensures
        r@ == v@.skip(from as int),
{
    let mut r: Vec<char> = Vec::new();
    let mut i = from;
    while i < v.len()
        invariant
            from <= i <= v.len(),
            r@ == v@.subrange(from as int, i as int),
        decreases v.len() - i,
    {
        r.push(v[i]);
        assert(v@.subrange(from as int, i + 1) == v@.subrange(from as int, i as int).push(v@[i as int]));
        i = i + 1;
    }
    r
}

} // verus!

verus! {

/// The views of a sequence of strings.
pub open spec fn strs(v: Seq<String>) -> Seq<Seq<char>> {
    v.map_values(|s: String| s@)
}

/// Lexicographic order by code point, as `str`'s `Ord` compares (UTF-8
/// byte order and code point order agree).
pub open spec fn lex_le(a: Seq<char>, b: Seq<char>) -> bool
    decreases a.len(),
{
    if a.len() == 0 {
        true
    } else if b.len() == 0 {
        false
    } else if (a[0] as u32) < (b[0] as u32) {
        true
    } else if (a[0] as u32) > (b[0] as u32) {
        false
    } else {
        lex_le(a.drop_first(), b.drop_first())
    }
}

pub proof fn lemma_lex_total(a: Seq<char>, b: Seq<char>)
    ensures
        lex_le(a, b) || lex_le(b, a),
    decreases a.len(),
{
    if a.len() > 0 && b.len() > 0 && (a[0] as u32) == (b[0] as u32) {
        lemma_lex_total(a.drop_first(), b.drop_first());
    }
}

pub proof fn lemma_lex_trans(a: Seq<char>, b: Seq<char>, c: Seq<char>)
    requires
        lex_le(a, b),
        lex_le(b, c),
    ensures
        lex_le(a, c),
    decreases a.len(),
{
    if a.len() > 0 && b.len() > 0 && c.len() > 0 && (a[0] as u32) == (b[0] as u32) && (b[0]
        as u32) == (c[0] as u32) {
        lemma_lex_trans(a.drop_first(), b.drop_first(), c.drop_first());
    }
}

/// Whether `a` sorts before or equal to `b`.
pub fn lex_le_chars(a: &Vec<char>, b: &Vec<char>) -> (r: bool)
    ensures
        r == lex_le(a@, b@),
{
    let mut i: usize = 0;
    assert(a@.skip(0) == a@ && b@.skip(0) == b@);
    while i < a.len() && i < b.len()
        invariant
            i <= a.len(),
            i <= b.len(),
            lex_le(a@, b@) == lex_le(a@.skip(i as int), b@.skip(i as int)),
        decreases a.len() - i,
    {
        let x = a[i] as u32;
        let y = b[i] as u32;
        assert(a@.skip(i as int)[0] == a@[i as int] && b@.skip(i as int)[0] == b@[i as int]);
        if x < y {
            return true;
        }
        if x > y {
            return false;
        }
        assert(a@.skip(i as int).drop_first() == a@.skip(i + 1));
        assert(b@.skip(i as int).drop_first() == b@.skip(i + 1));
        i = i + 1;
    }
    i == a.len()
}

/// The non-empty pieces of `ws`, in order.
pub fn non_empty_pieces(ws: &Vec<Vec<char>>) -> (r: Vec<Vec<char>>)
    ensures
        views(r@) == non_empty(views(ws@)),
{
    let mut r: Vec<Vec<char>> = Vec::new();
    let ghost wv = views(ws@);
    assert(wv.take(0) == Seq::<Seq<char>>::empty());
    for i in 0..ws.len()
        invariant
            wv == views(ws@),
            views(r@) == non_empty(wv.take(i as int)),
    {
        let w = ws[i].clone();
        assert(w@ =~= ws@[i as int]@);
        assert(wv.take(i + 1).drop_last() == wv.take(i as int));
        assert(wv.take(i + 1).last() == w@);
        if w.len() > 0 {
            let ghost before = r@;
            r.push(w);
            assert(views(r@) == views(before).push(wv[i as int]));
        }
    }
    assert(wv.take(ws.len() as int) == wv);
    r
}

/// The whitespace-separated words of `v`.
pub fn words_of(v: &Vec<char>) -> (r: Vec<Vec<char>>)
    ensures
        views(r@) == words(v@),
{
    let pieces = split_chars(v, Sep::Space);
    non_empty_pieces(&pieces)
}

} // verus!

verus! {

/// The pieces of a split of `a + b`, from the pieces of `a` and of `b`: the
/// last piece of `a` and the first of `b` run together.
pub open spec fn join_pieces(x: Seq<Seq<char>>, y: Seq<Seq<char>>) -> Seq<Seq<char>> {
    x.drop_last() + seq![x.last() + y[0]] + y.skip(1)
}

/// A text without separators is a single piece.
pub proof fn lemma_split_no_sep(s: Seq<char>, sep: Sep)
    requires
        forall|i: int| 0 <= i < s.len() ==> !is_sep(#[trigger] s[i], sep),
    ensures
        split_by(s, sep) == seq![s],
    decreases s.len(),
{
    if s.len() > 0 {
        lemma_split_no_sep(s.drop_last(), sep);
        assert(!is_sep(s[s.len() - 1], sep));
        assert(s.drop_last().push(s.last()) =~= s);
    } else {
        assert(s =~= Seq::<char>::empty());
    }
}

/// Splitting a concatenation splits each part and runs the two pieces at
/// the seam together.
pub proof fn lemma_split_concat(a: Seq<char>, b: Seq<char>, sep: Sep)
    ensures
        split_by(a + b, sep) == join_pieces(split_by(a, sep), split_by(b, sep)),
    decreases b.len(),
{
    lemma_split_by_len(a, sep);
    lemma_split_by_len(b, sep);
    let x = split_by(a, sep);
    if b.len() == 0 {
        assert(a + b =~= a);
        assert(split_by(b, sep) == seq![Seq::<char>::empty()]);
        assert(x.last() + Seq::<char>::empty() =~= x.last());
        assert(join_pieces(x, split_by(b, sep)) =~= x);
    } else {
        let b0 = b.drop_last();
        let c = b.last();
        lemma_split_concat(a, b0, sep);
        lemma_split_by_len(b0, sep);
        assert((a + b).drop_last() =~= a + b0);
        assert((a + b).last() == c);
        let y0 = split_by(b0, sep);
        let p = split_by(a + b0, sep);
        if is_sep(c, sep) {
            assert(split_by(b, sep) == y0.push(Seq::<char>::empty()));
            assert(split_by(a + b, sep) == p.push(Seq::<char>::empty()));
            assert(join_pieces(x, y0.push(Seq::<char>::empty())) =~= join_pieces(x, y0).push(
                Seq::<char>::empty(),
            ));
        } else {
            assert(split_by(b, sep) == y0.update(y0.len() - 1, y0.last().push(c)));
            assert(split_by(a + b, sep) == p.update(p.len() - 1, p.last().push(c)));
            let y = split_by(b, sep);
            if y0.len() == 1 {
                assert(y[0] == y0[0].push(c));
                assert(x.last() + y0[0].push(c) =~= (x.last() + y0[0]).push(c));
                assert(join_pieces(x, y) =~= p.update(p.len() - 1, p.last().push(c)));
            } else {
                assert(join_pieces(x, y) =~= p.update(p.len() - 1, p.last().push(c)));
            }
        }
    }
}

/// `lines`, each followed by a line feed.
pub open spec fn line_feed_joined(lines: Seq<Seq<char>>) -> Seq<char>
    decreases lines.len(),
{
    if lines.len() == 0 {
        Seq::empty()
    } else {
        line_feed_joined(lines.drop_last()) + lines.last() + seq!['\n']
    }
}

/// Splitting lines that each end in a line feed gives the lines back, and
/// an empty piece after the last line feed.
pub proof fn lemma_split_joined_lines(lines: Seq<Seq<char>>)
    requires
        forall|i: int, j: int| 0 <= i < lines.len() && 0 <= j < lines[i].len() ==> #[trigger] lines[i][j] != '\n',
    ensures
        split_by(line_feed_joined(lines), Sep::Line) == lines.push(Seq::<char>::empty()),
    decreases lines.len(),
{
    let empty = Seq::<char>::empty();
    if lines.len() == 0 {
        assert(line_feed_joined(lines) == empty);
        assert(lines.push(empty) =~= seq![empty]);
    } else {
        let init = lines.drop_last();
        let last = lines.last();
        assert forall|i: int, j: int| 0 <= i < init.len() && 0 <= j < init[i].len() implies #[trigger] init[i][j]
            != '\n' by {
            assert(init[i] == lines[i]);
        }
        lemma_split_joined_lines(init);
        assert forall|k: int| 0 <= k < last.len() implies !is_sep(#[trigger] last[k], Sep::Line) by {
            assert(lines[lines.len() - 1][k] != '\n');
        }
        lemma_split_no_sep(last, Sep::Line);
        let lf = seq!['\n'];
        assert(lf.drop_last() =~= empty);
        assert(lf.last() == '\n');
        assert(split_by(empty, Sep::Line) == seq![empty]);
        assert(split_by(lf, Sep::Line) =~= seq![empty, empty]);
        lemma_split_concat(last, lf, Sep::Line);
        let b = last + lf;
        assert(split_by(b, Sep::Line) =~= seq![last, empty]);
        let a = line_feed_joined(init);
        assert(line_feed_joined(lines) =~= a + b);
        lemma_split_concat(a, b, Sep::Line);
        assert(init.push(empty).last() + last =~= last);
        assert(join_pieces(init.push(empty), seq![last, empty]) =~= lines.push(empty));
    }
}

/// Dropping the empty pieces of pieces that are all non-empty keeps them
/// as they are.
pub proof fn lemma_non_empty_all(ws: Seq<Seq<char>>)
    requires
        forall|i: int| 0 <= i < ws.len() ==> (#[trigger] ws[i]).len() > 0,
    ensures
        non_empty(ws) == ws,
    decreases ws.len(),
{
    if ws.len() > 0 {
        let init = ws.drop_last();
        assert forall|i: int| 0 <= i < init.len() implies (#[trigger] init[i]).len() > 0 by {
            assert(init[i] == ws[i]);
        }
        lemma_non_empty_all(init);
        assert(ws.last() == ws[ws.len() - 1]);
        assert(init.push(ws.last()) =~= ws);
    }
}

/// The greatest of `s` in lexicographic order, the later one of two equal
/// strings; empty for an empty `s`.
pub open spec fn lex_max(s: Seq<Seq<char>>) -> Seq<char>
    decreases s.len(),
{
    if s.len() == 0 {
        Seq::empty()
    } else if s.len() == 1 {
        s[0]
    } else {
        let m = lex_max(s.drop_last());
        if lex_le(m, s.last()) {
            s.last()
        } else {
            m
        }
    }
}

} // verus!
