//! Cutting text into lines, fields and words, and putting it back together.
use vstd::prelude::*;
use vstd::slice::slice_subrange;
use crate::text::{contains, copied, holds, is_space, rows, string, texts, whitespace};

verus! {

/// The text cut after every line feed: `split_inclusive('\n')`.
pub open spec fn pieces(s: Seq<char>) -> Seq<Seq<char>>
    decreases s.len(),
{
    if s.len() == 0 {
        Seq::empty()
    } else {
        let p = pieces(s.drop_last());
        if p.len() == 0 || p.last().last() == '\n' {
            p.push(seq![s.last()])
        } else {
            p.drop_last().push(p.last().push(s.last()))
        }
    }
}

/// A line without its ending, which is a line feed that a carriage return
/// may precede. A carriage return alone is no ending.
pub open spec fn line_text(p: Seq<char>) -> Seq<char> {
    if p.len() > 0 && p.last() == '\n' {
        let q = p.drop_last();
        if q.len() > 0 && q.last() == '\r' {
            q.drop_last()
        } else {
            q
        }
    } else {
        p
    }
}

/// The lines of a text: `str::lines`.
pub open spec fn lines(s: Seq<char>) -> Seq<Seq<char>> {
    Seq::new(pieces(s).len(), |i: int| line_text(pieces(s)[i]))
}

/// The fields between the separators `a` and `b`.
pub open spec fn split(s: Seq<char>, a: char, b: char) -> Seq<Seq<char>>
    decreases s.len(),
{
    if s.len() == 0 {
        seq![Seq::empty()]
    } else {
        let f = split(s.drop_last(), a, b);
        if s.last() == a || s.last() == b {
            f.push(Seq::empty())
        } else {
            f.drop_last().push(f.last().push(s.last()))
        }
    }
}

/// The words between white space: `split_whitespace`.
pub open spec fn words(s: Seq<char>) -> Seq<Seq<char>>
    decreases s.len(),
{
    if s.len() == 0 {
        Seq::empty()
    } else {
        let w = words(s.drop_last());
        if is_space(s.last()) {
            w
        } else if s.len() == 1 || is_space(s[s.len() - 2]) {
            w.push(seq![s.last()])
        } else {
            w.drop_last().push(w.last().push(s.last()))
        }
    }
}

/// The concatenation of a list of texts.
pub open spec fn flat(v: Seq<Seq<char>>) -> Seq<char>
    decreases v.len(),
{
    if v.len() == 0 {
        Seq::empty()
    } else {
        flat(v.drop_last()) + v.last()
    }
}

/// A list of texts with `sep` between each two of them.
pub open spec fn join(v: Seq<Seq<char>>, sep: Seq<char>) -> Seq<char>
    decreases v.len(),
{
    if v.len() == 0 {
        Seq::empty()
    } else if v.len() == 1 {
        v[0]
    } else {
        join(v.drop_last(), sep) + sep + v.last()
    }
}

/// The first line of `ls` that satisfies `f`.
pub open spec fn first_line(ls: Seq<Seq<char>>, f: spec_fn(Seq<char>) -> bool) -> Option<Seq<char>>
    decreases ls.len(),
{
    if ls.len() == 0 {
        None
    } else {
        match first_line(ls.drop_last(), f) {
            Some(l) => Some(l),
            None => if f(ls.last()) {
                Some(ls.last())
            } else {
                None
            },
        }
    }
}

/// The last line of `ls` that satisfies `f`.
pub open spec fn last_line(ls: Seq<Seq<char>>, f: spec_fn(Seq<char>) -> bool) -> Option<Seq<char>>
    decreases ls.len(),
{
    if ls.len() == 0 {
        None
    } else if f(ls.last()) {
        Some(ls.last())
    } else {
        last_line(ls.drop_last(), f)
    }
}

// ── facts about the definitions ────────────────────────────────────

/// A non-empty text with no line feed before its last character.
pub open spec fn is_piece(p: Seq<char>) -> bool {
    &&& p.len() > 0
    &&& forall|j: int| 0 <= j < p.len() - 1 ==> p[j] != '\n'
}

/// The shape that cutting gives: pieces, each but the last ended.
pub open spec fn is_cut(ps: Seq<Seq<char>>) -> bool {
    &&& forall|i: int| 0 <= i < ps.len() ==> is_piece(#[trigger] ps[i])
    &&& forall|i: int| 0 <= i < ps.len() - 1 ==> (#[trigger] ps[i]).last() == '\n'
}

pub proof fn lemma_flat_push(v: Seq<Seq<char>>, t: Seq<char>)
    ensures
        flat(v.push(t)) == flat(v) + t,
{
    assert(v.push(t).drop_last() =~= v);
}

pub proof fn lemma_flat_add(a: Seq<Seq<char>>, b: Seq<Seq<char>>)
    ensures
        flat(a + b) == flat(a) + flat(b),
    decreases b.len(),
{
    if b.len() == 0 {
        assert(a + b =~= a);
        assert(flat(a) + flat(b) =~= flat(a));
    } else {
        lemma_flat_add(a, b.drop_last());
        assert((a + b).drop_last() =~= a + b.drop_last());
        assert(flat(a) + flat(b.drop_last()) + b.last() =~= flat(a) + flat(b));
    }
}

/// Cutting gives pieces, and putting the pieces together gives the text back.
pub proof fn lemma_pieces(s: Seq<char>)
    ensures
        is_cut(pieces(s)),
        flat(pieces(s)) == s,
    decreases s.len(),
{
    if s.len() > 0 {
        let t = s.drop_last();
        lemma_pieces(t);
        let p = pieces(t);
        let r = pieces(s);
        assert(s =~= t.push(s.last()));
        if p.len() == 0 || p.last().last() == '\n' {
            lemma_flat_push(p, seq![s.last()]);
            assert(flat(r) =~= s);
            assert forall|i: int| 0 <= i < r.len() implies is_piece(#[trigger] r[i]) by {
                if i < p.len() {
                    assert(is_piece(p[i]));
                }
            }
            assert forall|i: int| 0 <= i < r.len() - 1 implies (#[trigger] r[i]).last() == '\n' by {
                assert(r[i] == p[i]);
            }
        } else {
            let q = p.drop_last();
            lemma_flat_push(q, p.last().push(s.last()));
            assert(flat(r) =~= flat(q) + p.last() + seq![s.last()]);
            assert(flat(r) =~= s);
            assert forall|i: int| 0 <= i < r.len() implies is_piece(#[trigger] r[i]) by {
                assert(is_piece(p[i]));
            }
            assert forall|i: int| 0 <= i < r.len() - 1 implies (#[trigger] r[i]).last() == '\n' by {
                assert(r[i] == p[i]);
            }
        }
    }
}

/// A list of the shape that cutting gives is what its concatenation is cut into.
pub proof fn lemma_pieces_of(ps: Seq<Seq<char>>)
    requires
        is_cut(ps),
    ensures
        pieces(flat(ps)) == ps,
    decreases flat(ps).len(),
{
    if ps.len() == 0 {
        assert(ps =~= Seq::empty());
    } else {
        let q = ps.drop_last();
        let p = ps.last();
        let c = p.last();
        assert(is_piece(ps[ps.len() - 1]));
        let t = p.drop_last();
        assert(flat(ps) =~= (flat(q) + t).push(c));
        assert(flat(ps).drop_last() =~= flat(q) + t);
        assert forall|i: int| 0 <= i < q.len() implies is_piece(#[trigger] q[i]) && q[i].last()
            == '\n' by {
            assert(q[i] == ps[i]);
        }
        if t.len() == 0 {
            assert(flat(q) + t =~= flat(q));
            lemma_pieces_of(q);
            assert(p =~= seq![c]);
            assert(pieces(flat(ps)) =~= ps);
        } else {
            let r = q.push(t);
            lemma_flat_push(q, t);
            assert(is_piece(t));
            lemma_pieces_of(r);
            assert(r.last().last() == p[p.len() - 2]);
            assert(r.drop_last() =~= q);
            assert(t.push(c) =~= p);
            assert(pieces(flat(ps)) =~= ps);
        }
    }
}

pub proof fn lemma_flat3(a: Seq<char>, b: Seq<char>, c: Seq<char>)
    ensures
        flat(seq![a, b, c]) == a + b + c,
{
    let l0 = Seq::<Seq<char>>::empty();
    assert(flat(l0) =~= Seq::empty());
    let l1 = l0.push(a);
    lemma_flat_push(l0, a);
    assert(Seq::<char>::empty() + a =~= a);
    let l2 = l1.push(b);
    lemma_flat_push(l1, b);
    lemma_flat_push(l2, c);
    assert(l2.push(c) =~= seq![a, b, c]);
}

/// The text, ended by a line feed unless it is empty.
pub open spec fn ended(s: Seq<char>) -> Seq<char> {
    if s.len() > 0 && s.last() != '\n' {
        s.push('\n')
    } else {
        s
    }
}

/// The pieces, the last one ended.
pub open spec fn ended_pieces(ps: Seq<Seq<char>>) -> Seq<Seq<char>> {
    if ps.len() > 0 && ps.last().last() != '\n' {
        ps.drop_last().push(ps.last().push('\n'))
    } else {
        ps
    }
}

/// A piece that ends with a line feed.
pub open spec fn is_full(p: Seq<char>) -> bool {
    is_piece(p) && p.last() == '\n'
}

pub proof fn lemma_ended_pieces(s: Seq<char>)
    ensures
        flat(ended_pieces(pieces(s))) == ended(s),
        ended_pieces(pieces(s)).len() == pieces(s).len(),
        forall|i: int| 0 <= i < pieces(s).len() ==> is_full(#[trigger] ended_pieces(pieces(s))[i]),
        forall|i: int|
            0 <= i < pieces(s).len() ==> #[trigger] ended_pieces(pieces(s))[i] == pieces(s)[i]
                || ended_pieces(pieces(s))[i] == pieces(s)[i].push('\n'),
{
    let ps = pieces(s);
    let n = ps.len() as int;
    lemma_pieces(s);
    if n == 0 {
        assert(s =~= Seq::empty());
    } else {
        assert(is_piece(ps[n - 1]));
        assert(flat(ps) == flat(ps.drop_last()) + ps.last());
        assert(s.last() == ps.last().last());
        if s.last() != '\n' {
            lemma_flat_push(ps.drop_last(), ps.last().push('\n'));
            assert(flat(ps.drop_last()) + ps.last().push('\n') =~= s.push('\n'));
        }
        let e = ended_pieces(ps);
        assert forall|i: int| 0 <= i < n implies is_full(#[trigger] e[i]) by {
            assert(is_piece(ps[i]));
            if i == n - 1 && s.last() != '\n' {
                assert forall|j: int| 0 <= j < e[i].len() - 1 implies e[i][j] != '\n' by {
                    assert(e[i][j] == ps[i][j]);
                }
            } else if i < n - 1 {
                assert(e[i] == ps[i]);
            }
        }
    }
}

pub proof fn lemma_split_len(s: Seq<char>, a: char, b: char)
    ensures
        split(s, a, b).len() > 0,
    decreases s.len(),
{
    if s.len() > 0 {
        lemma_split_len(s.drop_last(), a, b);
    }
}

pub proof fn lemma_words(s: Seq<char>)
    ensures
        s.len() > 0 && !is_space(s.last()) ==> words(s).len() > 0,
        forall|i: int| 0 <= i < words(s).len() ==> (#[trigger] words(s)[i]).len() > 0,
    decreases s.len(),
{
    if s.len() > 0 {
        lemma_words(s.drop_last());
        let w = words(s.drop_last());
        assert forall|i: int| 0 <= i < words(s).len() implies (#[trigger] words(s)[i]).len() > 0 by {
            if i < w.len() {
                assert(w[i].len() > 0);
            }
        }
    }
}

pub proof fn lemma_rows_push(v: Seq<Vec<char>>, t: Vec<char>)
    ensures
        rows(v.push(t)) == rows(v).push(t@),
{
    assert(rows(v.push(t)) =~= rows(v).push(t@));
}

pub proof fn lemma_texts_push(v: Seq<String>, t: String)
    ensures
        texts(v.push(t)) == texts(v).push(t@),
{
    assert(texts(v.push(t)) =~= texts(v).push(t@));
}

// ── the executable side ────────────────────────────────────────────

/// Appends a character to the last text of a list.
fn extend_last(v: &mut Vec<Vec<char>>, c: char)
    requires
        old(v)@.len() > 0,
    ensures
        rows(final(v)@) == rows(old(v)@).drop_last().push(rows(old(v)@).last().push(c)),
{
    let mut t = v.pop().unwrap();
    t.push(c);
    v.push(t);
    assert(rows(v@) =~= rows(old(v)@).drop_last().push(rows(old(v)@).last().push(c)));
}

/// `split_inclusive('\n')`.
pub fn cut(s: &[char]) -> (r: Vec<Vec<char>>)
    ensures
        rows(r@) == pieces(s@),
{
    let mut out: Vec<Vec<char>> = Vec::new();
    let mut open = false;
    let mut i: usize = 0;
    assert(rows(out@) =~= Seq::empty());
    while i < s.len()
        invariant
            i <= s@.len(),
            rows(out@) == pieces(s@.take(i as int)),
            open == (pieces(s@.take(i as int)).len() > 0 && pieces(s@.take(i as int)).last().last()
                != '\n'),
        decreases s@.len() - i,
    {
        let c = s[i];
        proof {
            assert(s@.take(i + 1).drop_last() =~= s@.take(i as int));
            assert(s@.take(i + 1).last() == c);
        }
        if open {
            extend_last(&mut out, c);
        } else {
            let mut t: Vec<char> = Vec::new();
            t.push(c);
            proof {
                lemma_rows_push(out@, t);
                assert(t@ =~= seq![c]);
            }
            out.push(t);
        }
        open = c != '\n';
        i = i + 1;
    }
    assert(s@.take(s@.len() as int) =~= s@);
    out
}

/// A line without its ending.
pub fn line_body(p: &[char]) -> (r: &[char])
    ensures
        r@ == line_text(p@),
{
    let n: usize = p.len();
    if n > 0 && p[n - 1] == '\n' {
        if n > 1 && p[n - 2] == '\r' {
            let r = slice_subrange(p, 0, n - 2);
            assert(r@ =~= p@.drop_last().drop_last());
            r
        } else {
            let r = slice_subrange(p, 0, n - 1);
            assert(r@ =~= p@.drop_last());
            r
        }
    } else {
        p
    }
}

/// `str::lines`.
pub fn lines_of(s: &[char]) -> (r: Vec<Vec<char>>)
    ensures
        rows(r@) == lines(s@),
{
    let ps = cut(s);
    let mut out: Vec<Vec<char>> = Vec::new();
    let mut i: usize = 0;
    while i < ps.len()
        invariant
            i <= ps@.len(),
            rows(ps@) == pieces(s@),
            out@.len() == i,
            forall|j: int| 0 <= j < i ==> (#[trigger] out@[j])@ == line_text(pieces(s@)[j]),
        decreases ps@.len() - i,
    {
        assert(rows(ps@)[i as int] == ps@[i as int]@);
        out.push(copied(line_body(ps[i].as_slice())));
        i = i + 1;
    }
    assert(rows(out@) =~= lines(s@));
    out
}

/// The fields between the separators `a` and `b`.
pub fn split_at_chars(s: &[char], a: char, b: char) -> (r: Vec<Vec<char>>)
    ensures
        rows(r@) == split(s@, a, b),
        r@.len() > 0,
{
    let mut out: Vec<Vec<char>> = Vec::new();
    let empty: Vec<char> = Vec::new();
    assert(empty@ =~= Seq::<char>::empty());
    out.push(empty);
    let mut i: usize = 0;
    assert(rows(out@) =~= seq![Seq::<char>::empty()]);
    while i < s.len()
        invariant
            i <= s@.len(),
            out@.len() > 0,
            rows(out@) == split(s@.take(i as int), a, b),
        decreases s@.len() - i,
    {
        let c = s[i];
        proof {
            assert(s@.take(i + 1).drop_last() =~= s@.take(i as int));
            assert(s@.take(i + 1).last() == c);
        }
        if c == a || c == b {
            let next: Vec<char> = Vec::new();
            proof {
                lemma_rows_push(out@, next);
                assert(next@ =~= Seq::<char>::empty());
            }
            out.push(next);
        } else {
            extend_last(&mut out, c);
            assert(rows(out@).len() > 0);
        }
        i = i + 1;
    }
    assert(s@.take(s@.len() as int) =~= s@);
    out
}

/// `split_whitespace`.
pub fn words_of(s: &[char]) -> (r: Vec<Vec<char>>)
    ensures
        rows(r@) == words(s@),
{
    let mut out: Vec<Vec<char>> = Vec::new();
    let mut i: usize = 0;
    assert(rows(out@) =~= Seq::empty());
    while i < s.len()
        invariant
            i <= s@.len(),
            rows(out@) == words(s@.take(i as int)),
        decreases s@.len() - i,
    {
        let c = s[i];
        proof {
            assert(s@.take(i + 1).drop_last() =~= s@.take(i as int));
            assert(s@.take(i + 1).last() == c);
            lemma_words(s@.take(i as int));
        }
        if !whitespace(c) {
            if i == 0 || whitespace(s[i - 1]) {
                let mut t: Vec<char> = Vec::new();
                t.push(c);
                proof {
                    lemma_rows_push(out@, t);
                    assert(t@ =~= seq![c]);
                }
                out.push(t);
            } else {
                assert(s@.take(i as int).last() == s@[i - 1]);
                assert(rows(out@).len() == out@.len());
                extend_last(&mut out, c);
            }
        }
        i = i + 1;
    }
    assert(s@.take(s@.len() as int) =~= s@);
    out
}

/// The strings of a list, with `sep` between each two of them.
pub fn joined(v: &Vec<String>, sep: &str) -> (r: String)
    ensures
        r@ == join(texts(v@), sep@),
{
    let mut out = String::new();
    let mut i: usize = 0;
    assert(texts(v@).take(0) =~= Seq::empty());
    while i < v.len()
        invariant
            i <= v@.len(),
            out@ == join(texts(v@).take(i as int), sep@),
        decreases v@.len() - i,
    {
        proof {
            assert(texts(v@).take(i + 1).drop_last() =~= texts(v@).take(i as int));
            assert(texts(v@).take(i + 1).last() == v@[i as int]@);
        }
        if i > 0 {
            out.append(sep);
        }
        out.append(v[i].as_str());
        proof {
            if i == 0 {
                assert(out@ =~= v@[0]@);
            }
        }
        i = i + 1;
    }
    assert(texts(v@).take(v@.len() as int) =~= texts(v@));
    out
}

/// The lists' texts as strings.
pub fn strings(v: &Vec<Vec<char>>) -> (r: Vec<String>)
    ensures
        texts(r@) == rows(v@),
{
    let mut out: Vec<String> = Vec::new();
    let mut i: usize = 0;
    while i < v.len()
        invariant
            i <= v@.len(),
            out@.len() == i,
            forall|j: int| 0 <= j < i ==> (#[trigger] out@[j])@ == v@[j]@,
        decreases v@.len() - i,
    {
        out.push(string(v[i].as_slice()));
        i = i + 1;
    }
    assert(texts(out@) =~= rows(v@));
    out
}

// ── looking for lines ──────────────────────────────────────────────

/// A first line among some of the lines is the first line of all.
pub proof fn lemma_first_line(ls: Seq<Seq<char>>, f: spec_fn(Seq<char>) -> bool, k: int)
    requires
        0 <= k <= ls.len(),
        first_line(ls.take(k), f) is Some,
    ensures
        first_line(ls, f) == first_line(ls.take(k), f),
    decreases ls.len() - k,
{
    if k < ls.len() {
        assert(ls.take(k + 1).drop_last() =~= ls.take(k));
        lemma_first_line(ls, f, k + 1);
    } else {
        assert(ls.take(k) =~= ls);
    }
}

/// The first line that holds `a`, `b` and `c`.
pub fn first_with<'a>(ls: &'a Vec<Vec<char>>, a: &str, b: &str, c: &str) -> (r: Option<&'a [char]>)
    ensures
        match r {
            Some(l) => first_line(
                rows(ls@),
                |t: Seq<char>| contains(t, a@) && contains(t, b@) && contains(t, c@),
            ) == Some(l@),
            None => first_line(
                rows(ls@),
                |t: Seq<char>| contains(t, a@) && contains(t, b@) && contains(t, c@),
            ) is None,
        },
{
    let ghost f = |t: Seq<char>| contains(t, a@) && contains(t, b@) && contains(t, c@);
    let mut i: usize = 0;
    assert(rows(ls@).take(0) =~= Seq::empty());
    while i < ls.len()
        invariant
            i <= ls@.len(),
            f == (|t: Seq<char>| contains(t, a@) && contains(t, b@) && contains(t, c@)),
            first_line(rows(ls@).take(i as int), f) is None,
        decreases ls@.len() - i,
    {
        let t = ls[i].as_slice();
        proof {
            assert(rows(ls@).take(i + 1).drop_last() =~= rows(ls@).take(i as int));
            assert(rows(ls@).take(i + 1).last() == t@);
        }
        if holds(t, a) && holds(t, b) && holds(t, c) {
            proof {
                lemma_first_line(rows(ls@), f, i + 1);
            }
            return Some(t);
        }
        i = i + 1;
    }
    assert(rows(ls@).take(ls@.len() as int) =~= rows(ls@));
    None
}

/// The first line that holds `a` or `b`.
pub fn first_with_either<'a>(ls: &'a Vec<Vec<char>>, a: &str, b: &str) -> (r: Option<&'a [char]>)
    ensures
        match r {
            Some(l) => first_line(
                rows(ls@),
                |t: Seq<char>| contains(t, a@) || contains(t, b@),
            ) == Some(l@),
            None => first_line(
                rows(ls@),
                |t: Seq<char>| contains(t, a@) || contains(t, b@),
            ) is None,
        },
{
    let ghost f = |t: Seq<char>| contains(t, a@) || contains(t, b@);
    let mut i: usize = 0;
    assert(rows(ls@).take(0) =~= Seq::empty());
    while i < ls.len()
        invariant
            i <= ls@.len(),
            f == (|t: Seq<char>| contains(t, a@) || contains(t, b@)),
            first_line(rows(ls@).take(i as int), f) is None,
        decreases ls@.len() - i,
    {
        let t = ls[i].as_slice();
        proof {
            assert(rows(ls@).take(i + 1).drop_last() =~= rows(ls@).take(i as int));
            assert(rows(ls@).take(i + 1).last() == t@);
        }
        if holds(t, a) || holds(t, b) {
            proof {
                lemma_first_line(rows(ls@), f, i + 1);
            }
            return Some(t);
        }
        i = i + 1;
    }
    assert(rows(ls@).take(ls@.len() as int) =~= rows(ls@));
    None
}

/// The last line that holds `a`.
pub fn last_with<'a>(ls: &'a Vec<Vec<char>>, a: &str) -> (r: Option<&'a [char]>)
    ensures
        match r {
            Some(l) => last_line(rows(ls@), |t: Seq<char>| contains(t, a@)) == Some(l@),
            None => last_line(rows(ls@), |t: Seq<char>| contains(t, a@)) is None,
        },
{
    let ghost f = |t: Seq<char>| contains(t, a@);
    let mut i: usize = ls.len();
    assert(rows(ls@).take(ls@.len() as int) =~= rows(ls@));
    while i > 0
        invariant
            i <= ls@.len(),
            f == (|t: Seq<char>| contains(t, a@)),
            last_line(rows(ls@).take(i as int), f) == last_line(rows(ls@), f),
        decreases i,
    {
        let t = ls[i - 1].as_slice();
        proof {
            assert(rows(ls@).take(i as int).drop_last() =~= rows(ls@).take(i - 1));
            assert(rows(ls@).take(i as int).last() == t@);
        }
        if holds(t, a) {
            return Some(t);
        }
        i = i - 1;
    }
    None
}

} // verus!
