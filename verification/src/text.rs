//! Character-level text handling: the views of strings as `Seq<char>`,
//! finding characters, splitting at a separator, and splitting into lines
//! the way `str::split` and `str::lines` do.
use vstd::prelude::*;

verus! {

broadcast use vstd::string::group_string_axioms;

/// `String::push` appends one character at the end of the string.
pub assume_specification[ String::push ](s: &mut String, ch: char)
    ensures
        final(s)@ == old(s)@.push(ch),
;

/// The views of a sequence of character vectors.
pub open spec fn char_views(v: Seq<Vec<char>>) -> Seq<Seq<char>> {
    v.map_values(|x: Vec<char>| x@)
}

/// The views of a sequence of strings.
pub open spec fn string_views(v: Seq<String>) -> Seq<Seq<char>> {
    v.map_values(|x: String| x@)
}

/// The view of an optional text.
pub open spec fn opt_view(o: Option<&str>) -> Option<Seq<char>> {
    match o {
        Some(s) => Some(s@),
        None => None,
    }
}

/// Index of the first `c` in `s` at or after `start`, or `s.len()` where there is none.
pub open spec fn next_index(s: Seq<char>, c: char, start: int) -> int
    decreases s.len() - start,
{
    if start >= s.len() {
        s.len() as int
    } else if s[start] == c {
        start
    } else {
        next_index(s, c, start + 1)
    }
}

/// `next_index` lies between `start` and the end, points at a `c` when it is not
/// the end, and no `c` comes before it.
pub proof fn lemma_next_index(s: Seq<char>, c: char, start: int)
    requires
        start <= s.len(),
    ensures
        start <= next_index(s, c, start) <= s.len(),
        next_index(s, c, start) < s.len() ==> s[next_index(s, c, start)] == c,
        forall|i: int| start <= i < next_index(s, c, start) ==> s[i] != c,
    decreases s.len() - start,
{
    if start < s.len() && s[start] != c {
        lemma_next_index(s, c, start + 1);
    }
}

/// The pieces of `s[start..]` between occurrences of `c` (as `str::split` yields them).
pub open spec fn split_from(s: Seq<char>, c: char, start: int) -> Seq<Seq<char>>
    decreases s.len() - start,
{
    if start > s.len() {
        Seq::empty()
    } else {
        let e: int = next_index(s, c, start);
        proof {
            lemma_next_index(s, c, start);
        }
        if e >= s.len() {
            seq![s.subrange(start, s.len() as int)]
        } else {
            seq![s.subrange(start, e)] + split_from(s, c, e + 1)
        }
    }
}

/// The pieces of `s` between occurrences of `c`: one more piece than there are `c`s.
pub open spec fn split(s: Seq<char>, c: char) -> Seq<Seq<char>> {
    split_from(s, c, 0)
}

/// A line without the carriage return that ended it.
pub open spec fn strip_cr(l: Seq<char>) -> Seq<char> {
    if l.len() > 0 && l.last() == '\r' {
        l.drop_last()
    } else {
        l
    }
}

/// The lines of `s[start..]` (as `str::lines` yields them).
pub open spec fn lines_from(s: Seq<char>, start: int) -> Seq<Seq<char>>
    decreases s.len() - start,
{
    if start >= s.len() {
        Seq::empty()
    } else {
        let e: int = next_index(s, '\n', start);
        proof {
            lemma_next_index(s, '\n', start);
        }
        if e >= s.len() {
            seq![s.subrange(start, s.len() as int)]
        } else {
            seq![strip_cr(s.subrange(start, e))] + lines_from(s, e + 1)
        }
    }
}

/// The lines of `s`: split at each `'\n'`, a `'\r'` just before it dropped, no
/// empty line after a final `'\n'`, and none at all in an empty text.
pub open spec fn lines(s: Seq<char>) -> Seq<Seq<char>> {
    lines_from(s, 0)
}

/// Words spaced out one after another: the first word and its space, then
/// the rest.
pub proof fn lemma_spaced_cons(p: Seq<char>, ws: Seq<Seq<char>>)
    ensures
        spaced(seq![p] + ws) == p.push(' ') + spaced(ws),
    decreases ws.len(),
{
    let all = seq![p] + ws;
    if ws.len() == 0 {
        assert(all == seq![p]);
        assert(all.drop_last() == Seq::<Seq<char>>::empty());
        assert(spaced(all) == spaced(all.drop_last()) + all.last().push(' '));
        assert(spaced(all) == p.push(' '));
        assert(p.push(' ') + spaced(ws) == p.push(' '));
    } else {
        assert(all.drop_last() == seq![p] + ws.drop_last());
        assert(all.last() == ws.last());
        lemma_spaced_cons(p, ws.drop_last());
        assert(spaced(all) == spaced(all.drop_last()) + all.last().push(' '));
        assert(spaced(ws) == spaced(ws.drop_last()) + ws.last().push(' '));
    }
}

/// Splitting `s[start..]` at spaces and spacing out all the pieces but the
/// last gives back the text before the last piece: the pieces but the last,
/// each with its space, followed by the last piece, are `s[start..]` again,
/// and the last piece holds no space.
pub proof fn lemma_split_rejoins(s: Seq<char>, start: int)
    requires
        0 <= start <= s.len(),
    ensures
        split_from(s, ' ', start).len() > 0,
        spaced(split_from(s, ' ', start).drop_last()) + split_from(s, ' ', start).last()
            == s.subrange(start, s.len() as int),
        forall|i: int|
            0 <= i < split_from(s, ' ', start).last().len() ==> #[trigger] split_from(
                s,
                ' ',
                start,
            ).last()[i] != ' ',
    decreases s.len() - start,
{
    lemma_next_index(s, ' ', start);
    let e = next_index(s, ' ', start);
    let ps = split_from(s, ' ', start);
    if e >= s.len() {
        assert(ps == seq![s.subrange(start, s.len() as int)]);
        assert(ps.drop_last() == Seq::<Seq<char>>::empty());
        assert(spaced(ps.drop_last()) + ps.last() == ps.last());
    } else {
        let p0 = s.subrange(start, e);
        let rest = split_from(s, ' ', e + 1);
        lemma_split_rejoins(s, e + 1);
        assert(ps == seq![p0] + rest);
        assert(ps.drop_last() == seq![p0] + rest.drop_last());
        assert(ps.last() == rest.last());
        lemma_spaced_cons(p0, rest.drop_last());
        assert(p0.push(' ') + (spaced(rest.drop_last()) + rest.last()) == s.subrange(
            start,
            s.len() as int,
        ));
        assert(spaced(ps.drop_last()) + ps.last() == p0.push(' ') + (spaced(rest.drop_last())
            + rest.last()));
    }
}

/// Whether `s` begins with `p`.
pub open spec fn has_prefix(s: Seq<char>, p: Seq<char>) -> bool {
    p.len() <= s.len() && s.subrange(0, p.len() as int) == p
}

/// Whether `p` occurs in `s` as a run of consecutive characters.
pub open spec fn contains_run(s: Seq<char>, p: Seq<char>) -> bool {
    exists|i: int| 0 <= i <= s.len() - p.len() && #[trigger] s.subrange(i, i + p.len()) == p
}

/// The characters of `s`, in order.
pub fn chars_of(s: &str) -> (v: Vec<char>)
    ensures
        v@ == s@,
{
    let mut v: Vec<char> = Vec::new();
    for c in it: s.chars()
        invariant
            v@ == it.seq().take(it.index() as int),
    {
        v.push(c);
    }
    v
}

/// A string made of the characters `v[from..to]`.
pub fn string_of(v: &Vec<char>, from: usize, to: usize) -> (s: String)
    requires
        from <= to <= v.len(),
    ensures
        s@ == v@.subrange(from as int, to as int),
{
    let mut s = String::new();
    let mut i: usize = from;
    while i < to
        invariant
            from <= i <= to <= v.len(),
            s@ == v@.subrange(from as int, i as int),
        decreases to - i,
    {
        s.push(v[i]);
        i = i + 1;
    }
    s
}

/// A copy of `v[from..to]`.
pub fn copy_range(v: &Vec<char>, from: usize, to: usize) -> (r: Vec<char>)
    requires
        from <= to <= v.len(),
    ensures
        r@ == v@.subrange(from as int, to as int),
{
    let mut r: Vec<char> = Vec::new();
    let mut i: usize = from;
    while i < to
        invariant
            from <= i <= to <= v.len(),
            r@ == v@.subrange(from as int, i as int),
        decreases to - i,
    {
        r.push(v[i]);
        i = i + 1;
    }
    r
}

/// Index of the first `c` in `v` at or after `start`, or `v.len()`.
pub fn find_char(v: &Vec<char>, c: char, start: usize) -> (r: usize)
    requires
        start <= v.len(),
    ensures
        r == next_index(v@, c, start as int),
{
    let mut i: usize = start;
    while i < v.len() && v[i] != c
        invariant
            start <= i <= v.len(),
            next_index(v@, c, start as int) == next_index(v@, c, i as int),
        decreases v.len() - i,
    {
        i = i + 1;
    }
    i
}

/// The pieces of `v` between occurrences of `c`.
pub fn split_chars(v: &Vec<char>, c: char) -> (r: Vec<Vec<char>>)
    ensures
        char_views(r@) == split(v@, c),
{
    let mut out: Vec<Vec<char>> = Vec::new();
    let mut start: usize = 0;
    loop
        invariant
            start <= v.len(),
            split(v@, c) == char_views(out@) + split_from(v@, c, start as int),
        decreases v.len() - start,
    {
        let e: usize = find_char(v, c, start);
        proof {
            lemma_next_index(v@, c, start as int);
        }
        let piece = copy_range(v, start, e);
        let ghost before = out@;
        out.push(piece);
        assert(char_views(out@) == char_views(before).push(piece@));
        if e >= v.len() {
            assert(split_from(v@, c, start as int) == seq![piece@]);
            assert(split(v@, c) == char_views(out@));
            return out;
        }
        assert(split_from(v@, c, start as int) == seq![piece@] + split_from(v@, c, e + 1));
        assert(char_views(before) + split_from(v@, c, start as int) == char_views(out@)
            + split_from(v@, c, e + 1));
        start = e + 1;
    }
}

/// The lines of `v`.
pub fn lines_of(v: &Vec<char>) -> (r: Vec<Vec<char>>)
    ensures
        char_views(r@) == lines(v@),
{
    let mut out: Vec<Vec<char>> = Vec::new();
    let mut start: usize = 0;
    while start < v.len()
        invariant
            start <= v.len(),
            lines(v@) == char_views(out@) + lines_from(v@, start as int),
        decreases v.len() - start,
    {
        let e: usize = find_char(v, '\n', start);
        proof {
            lemma_next_index(v@, '\n', start as int);
        }
        let ghost before = out@;
        if e >= v.len() {
            let line = copy_range(v, start, e);
            out.push(line);
            assert(char_views(out@) == char_views(before).push(line@));
            assert(lines_from(v@, start as int) == seq![line@]);
            assert(lines_from(v@, v.len() as int) == Seq::<Seq<char>>::empty());
            start = e;
        } else {
            let end: usize = if e > start && v[e - 1] == '\r' { e - 1 } else { e };
            let line = copy_range(v, start, end);
            assert(line@ == strip_cr(v@.subrange(start as int, e as int)));
            out.push(line);
            assert(char_views(out@) == char_views(before).push(line@));
            assert(lines_from(v@, start as int) == seq![line@] + lines_from(v@, e + 1));
            start = e + 1;
        }
    }
    out
}

/// The words of `ws`, each followed by one space.
pub open spec fn spaced(ws: Seq<Seq<char>>) -> Seq<char>
    decreases ws.len(),
{
    if ws.len() == 0 {
        Seq::empty()
    } else {
        spaced(ws.drop_last()) + ws.last().push(' ')
    }
}

/// Whether `s` begins with `p`.
pub fn starts_with_chars(s: &Vec<char>, p: &Vec<char>) -> (r: bool)
    ensures
        r == has_prefix(s@, p@),
{
    if p.len() > s.len() {
        return false;
    }
    let mut i: usize = 0;
    while i < p.len()
        invariant
            p.len() <= s.len(),
            i <= p.len(),
            s@.subrange(0, i as int) == p@.subrange(0, i as int),
        decreases p.len() - i,
    {
        if s[i] != p[i] {
            assert(s@.subrange(0, p.len() as int)[i as int] != p@[i as int]);
            return false;
        }
        i = i + 1;
        assert(s@.subrange(0, i as int) == s@.subrange(0, i - 1).push(s@[i - 1]));
        assert(p@.subrange(0, i as int) == p@.subrange(0, i - 1).push(p@[i - 1]));
    }
    assert(p@.subrange(0, p.len() as int) == p@);
    true
}

/// Whether `p` occurs at position `at` of `s`.
fn occurs_at(s: &Vec<char>, p: &Vec<char>, at: usize) -> (r: bool)
    requires
        at + p.len() <= s.len(),
    ensures
        r == (s@.subrange(at as int, at + p.len()) == p@),
{
    let mut i: usize = 0;
    while i < p.len()
        invariant
            at + p.len() <= s.len(),
            i <= p.len(),
            s@.subrange(at as int, at + i) == p@.subrange(0, i as int),
        decreases p.len() - i,
    {
        if s[at + i] != p[i] {
            assert(s@.subrange(at as int, at + p.len())[i as int] != p@[i as int]);
            return false;
        }
        i = i + 1;
        assert(s@.subrange(at as int, at + i) == s@.subrange(at as int, at + i - 1).push(
            s@[at + i - 1],
        ));
        assert(p@.subrange(0, i as int) == p@.subrange(0, i - 1).push(p@[i - 1]));
    }
    assert(p@.subrange(0, p.len() as int) == p@);
    true
}

/// Whether `p` occurs in `s` as a run of consecutive characters.
pub fn contains_chars(s: &Vec<char>, p: &Vec<char>) -> (r: bool)
    ensures
        r == contains_run(s@, p@),
{
    if p.len() > s.len() {
        return false;
    }
    if p.len() == 0 {
        assert(s@.subrange(0, 0 + p.len()) == p@);
        return true;
    }
    let mut at: usize = 0;
    while at <= s.len() - p.len()
        invariant
            0 < p.len() <= s.len(),
            at <= s.len() - p.len() + 1,
            forall|j: int| 0 <= j < at ==> #[trigger] s@.subrange(j, j + p.len()) != p@,
        decreases s.len() - p.len() + 1 - at,
    {
        if occurs_at(s, p, at) {
            return true;
        }
        at = at + 1;
    }
    false
}

/// The first `n` words of `ws`, each followed by one space.
pub fn join_spaced(ws: &Vec<Vec<char>>, n: usize) -> (r: String)
    requires
        n <= ws.len(),
    ensures
        r@ == spaced(char_views(ws@).take(n as int)),
{
    let mut r = String::new();
    let mut k: usize = 0;
    while k < n
        invariant
            n <= ws.len(),
            k <= n,
            r@ == spaced(char_views(ws@).take(k as int)),
        decreases n - k,
    {
        let w = &ws[k];
        let ghost before = r@;
        let mut i: usize = 0;
        while i < w.len()
            invariant
                i <= w.len(),
                r@ == before + w@.subrange(0, i as int),
            decreases w.len() - i,
        {
            r.push(w[i]);
            i = i + 1;
        }
        r.push(' ');
        proof {
            let vs = char_views(ws@);
            assert(vs.take(k + 1).drop_last() == vs.take(k as int));
            assert(w@.subrange(0, w.len() as int) == w@);
        }
        k = k + 1;
    }
    r
}

/// Whether `a` and `b` hold the same characters.
pub fn chars_equal(a: &Vec<char>, b: &Vec<char>) -> (r: bool)
    ensures
        r == (a@ == b@),
{
    if a.len() != b.len() {
        return false;
    }
    let mut i: usize = 0;
    while i < a.len()
        invariant
            a.len() == b.len(),
            i <= a.len(),
            forall|j: int| 0 <= j < i ==> a@[j] == b@[j],
        decreases a.len() - i,
    {
        if a[i] != b[i] {
            return false;
        }
        i = i + 1;
    }
    assert(a@ == b@);
    true
}

/// Whether `a` and `b` are the same text.
pub fn str_equal(a: &str, b: &str) -> (r: bool)
    ensures
        r == (a@ == b@),
{
    chars_equal(&chars_of(a), &chars_of(b))
}

} // verus!
