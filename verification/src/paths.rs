//! Relative paths, with slashes between their parts.
use vstd::prelude::*;
use crate::lines::{
    flat, is_cut, is_piece, join, joined, lemma_flat_push, lemma_pieces_of, lemma_rows_push,
    lemma_split_len, line_text, lines, split, split_at_chars, strings,
};
use crate::text::{
    after_last, chars, copied, equals, replace_char, replaced_char, rows, text_after_last,
};

verus! {

/// A part that names something: not empty, `.` or `..`.
pub open spec fn is_name(p: Seq<char>) -> bool {
    p.len() > 0 && p != "."@ && p != ".."@
}

/// The parts of a path that name something.
pub open spec fn named_parts(path: Seq<char>) -> Seq<Seq<char>> {
    split(path, '/', '/').filter(|p: Seq<char>| is_name(p))
}

/// The path made of those parts alone.
pub open spec fn clean(path: Seq<char>) -> Seq<char> {
    join(named_parts(path), "/"@)
}

/// The path with slashes in the place of backslashes.
pub open spec fn slashed(path: Seq<char>) -> Seq<char> {
    replace_char(path, '\\', '/')
}

/// What follows the last slash.
pub open spec fn file_name(path: Seq<char>) -> Seq<char> {
    after_last(path, "/"@)
}

/// The parts of a path that name something.
pub fn named_parts_of(path: &[char]) -> (r: Vec<Vec<char>>)
    ensures
        rows(r@) == named_parts(path@),
{
    let parts = split_at_chars(path, '/', '/');
    let ghost all = rows(parts@);
    let ghost f = |p: Seq<char>| is_name(p);
    let mut out: Vec<Vec<char>> = Vec::new();
    let mut i: usize = 0;
    proof {
        reveal(Seq::filter);
        assert(all.take(0).filter(f) =~= Seq::empty());
        assert(rows(out@) =~= Seq::empty());
    }
    while i < parts.len()
        invariant
            i <= parts@.len(),
            all == rows(parts@),
            f == (|p: Seq<char>| is_name(p)),
            rows(out@) == all.take(i as int).filter(f),
        decreases parts@.len() - i,
    {
        let p = parts[i].as_slice();
        proof {
            reveal(Seq::filter);
            assert(all.take(i + 1).drop_last() =~= all.take(i as int));
            assert(all.take(i + 1).last() == p@);
        }
        if p.len() > 0 && !equals(p, ".") && !equals(p, "..") {
            let c = copied(p);
            proof {
                lemma_rows_push(out@, c);
            }
            out.push(c);
        }
        i = i + 1;
    }
    assert(all.take(all.len() as int) =~= all);
    out
}

/// The path made of the parts that name something.
pub fn cleaned(path: &str) -> (r: String)
    ensures
        r@ == clean(path@),
{
    let cs = chars(path);
    let parts = named_parts_of(cs.as_slice());
    let names = strings(&parts);
    joined(&names, "/")
}

/// The file name of a member of an archive, whose path may have backslashes.
pub fn slashed_file_name(path: &str) -> (r: Vec<char>)
    ensures
        r@ == file_name(slashed(path@)),
{
    let cs = chars(path);
    let s = replaced_char(cs.as_slice(), '\\', '/');
    copied(text_after_last(s.as_slice(), "/"))
}

// ── facts ──────────────────────────────────────────────────────────

/// No part of a path holds a separator.
pub proof fn lemma_split_parts(s: Seq<char>, a: char)
    ensures
        forall|i: int, j: int|
            #![trigger split(s, a, a)[i][j]]
            0 <= i < split(s, a, a).len() && 0 <= j < split(s, a, a)[i].len() ==> split(
                s,
                a,
                a,
            )[i][j] != a,
    decreases s.len(),
{
    if s.len() > 0 {
        let t = s.drop_last();
        lemma_split_parts(t, a);
        lemma_split_len(t, a, a);
        let f = split(t, a, a);
        let r = split(s, a, a);
        assert forall|i: int, j: int|
            #![trigger r[i][j]]
            0 <= i < r.len() && 0 <= j < r[i].len() implies r[i][j] != a by {
            if s.last() == a {
                if i < f.len() {
                    assert(r[i][j] == f[i][j]);
                }
            } else if i < f.len() - 1 {
                assert(r[i][j] == f[i][j]);
            } else if j < f.last().len() {
                assert(r[i][j] == f[f.len() - 1][j]);
            }
        }
    }
}

/// Splitting a text that goes on after a separator.
pub proof fn lemma_split_add(s: Seq<char>, t: Seq<char>, a: char)
    requires
        forall|j: int| 0 <= j < t.len() ==> t[j] != a,
    ensures
        split(s + seq![a] + t, a, a) == split(s, a, a).push(t),
    decreases t.len(),
{
    let w = s + seq![a] + t;
    if t.len() == 0 {
        assert(w.drop_last() =~= s);
        assert(t =~= Seq::empty());
    } else {
        let u = t.drop_last();
        assert forall|j: int| 0 <= j < u.len() implies u[j] != a by {
            assert(u[j] == t[j]);
        }
        lemma_split_add(s, u, a);
        assert(w.drop_last() =~= s + seq![a] + u);
        assert(w.last() == t.last());
        let f = split(s, a, a).push(u);
        assert(f.drop_last() =~= split(s, a, a));
        assert(u.push(t.last()) =~= t);
    }
}

/// A text without a separator is its only part.
pub proof fn lemma_split_one(t: Seq<char>, a: char)
    requires
        forall|j: int| 0 <= j < t.len() ==> t[j] != a,
    ensures
        split(t, a, a) == seq![t],
    decreases t.len(),
{
    if t.len() == 0 {
        assert(t =~= Seq::empty());
    } else {
        let u = t.drop_last();
        assert forall|j: int| 0 <= j < u.len() implies u[j] != a by {
            assert(u[j] == t[j]);
        }
        lemma_split_one(u, a);
        assert(seq![u].drop_last() =~= Seq::empty());
        assert(u.push(t.last()) =~= t);
        assert(split(t, a, a) =~= seq![t]);
    }
}

/// Parts without slashes, joined by slashes, are the parts of the path.
pub proof fn lemma_split_join(v: Seq<Seq<char>>)
    requires
        v.len() > 0,
        forall|i: int, j: int|
            #![trigger v[i][j]]
            0 <= i < v.len() && 0 <= j < v[i].len() ==> v[i][j] != '/',
    ensures
        split(join(v, "/"@), '/', '/') == v,
    decreases v.len(),
{
    reveal_strlit("/");
    if v.len() == 1 {
        lemma_split_one(v[0], '/');
        assert(v =~= seq![v[0]]);
    } else {
        let u = v.drop_last();
        assert forall|i: int, j: int|
            #![trigger u[i][j]]
            0 <= i < u.len() && 0 <= j < u[i].len() implies u[i][j] != '/' by {
            assert(v[i][j] == u[i][j]);
        }
        lemma_split_join(u);
        let last = v.len() - 1;
        assert forall|j: int| 0 <= j < v.last().len() implies v.last()[j] != '/' by {
            assert(v[last][j] == v.last()[j]);
        }
        assert("/"@ =~= seq!['/']);
        lemma_split_add(join(u, "/"@), v.last(), '/');
        assert(u.push(v.last()) =~= v);
    }
}

/// Filtering keeps parts as they are.
proof fn lemma_filter_members(v: Seq<Seq<char>>, f: spec_fn(Seq<char>) -> bool)
    ensures
        forall|i: int|
            #![trigger v.filter(f)[i]]
            0 <= i < v.filter(f).len() ==> f(v.filter(f)[i]) && v.contains(v.filter(f)[i]),
    decreases v.len(),
{
    reveal(Seq::filter);
    if v.len() > 0 {
        let u = v.drop_last();
        lemma_filter_members(u, f);
        assert forall|i: int|
            #![trigger v.filter(f)[i]]
            0 <= i < v.filter(f).len() implies f(v.filter(f)[i]) && v.contains(v.filter(f)[i]) by {
            if i < u.filter(f).len() {
                let x = u.filter(f)[i];
                assert(v.filter(f)[i] == x);
                let k = choose|k: int| 0 <= k < u.len() && u[k] == x;
                assert(v[k] == x);
            } else {
                assert(v[v.len() - 1] == v.last());
            }
        }
    }
}

/// The named parts name something and hold no slash.
pub proof fn lemma_named_parts(path: Seq<char>)
    ensures
        forall|i: int|
            0 <= i < named_parts(path).len() ==> is_name(#[trigger] named_parts(path)[i]),
        forall|i: int, j: int|
            #![trigger named_parts(path)[i][j]]
            0 <= i < named_parts(path).len() && 0 <= j < named_parts(path)[i].len()
                ==> named_parts(path)[i][j] != '/',
{
    let f = |p: Seq<char>| is_name(p);
    let all = split(path, '/', '/');
    lemma_filter_members(all, f);
    lemma_split_parts(path, '/');
    let n = named_parts(path);
    assert forall|i: int, j: int|
        #![trigger n[i][j]]
        0 <= i < n.len() && 0 <= j < n[i].len() implies n[i][j] != '/' by {
        let x = all.filter(f)[i];
        assert(all.contains(x));
        let k = choose|k: int| 0 <= k < all.len() && all[k] == x;
        assert(all[k][j] != '/');
    }
}

proof fn lemma_filter_all(v: Seq<Seq<char>>, f: spec_fn(Seq<char>) -> bool)
    requires
        forall|i: int| 0 <= i < v.len() ==> f(#[trigger] v[i]),
    ensures
        v.filter(f) == v,
    decreases v.len(),
{
    reveal(Seq::filter);
    if v.len() > 0 {
        assert(f(v[v.len() - 1]));
        assert forall|i: int| 0 <= i < v.drop_last().len() implies f(
            #[trigger] v.drop_last()[i],
        ) by {
            assert(v.drop_last()[i] == v[i]);
        }
        lemma_filter_all(v.drop_last(), f);
        assert(v.drop_last().push(v.last()) =~= v);
    }
}

/// A clean path has only named parts, the ones of the path it came from, and
/// cleaning it again changes nothing.
pub proof fn lemma_clean(path: Seq<char>)
    requires
        named_parts(path).len() > 0,
    ensures
        split(clean(path), '/', '/') == named_parts(path),
        named_parts(clean(path)) == named_parts(path),
        clean(clean(path)) == clean(path),
{
    let n = named_parts(path);
    lemma_named_parts(path);
    lemma_split_join(n);
    lemma_filter_all(n, |p: Seq<char>| is_name(p));
}

/// The parts hold only characters of the text.
proof fn lemma_split_free(s: Seq<char>, a: char, c: char)
    requires
        forall|j: int| 0 <= j < s.len() ==> s[j] != c,
    ensures
        forall|i: int, j: int|
            #![trigger split(s, a, a)[i][j]]
            0 <= i < split(s, a, a).len() && 0 <= j < split(s, a, a)[i].len() ==> split(
                s,
                a,
                a,
            )[i][j] != c,
    decreases s.len(),
{
    if s.len() > 0 {
        let t = s.drop_last();
        lemma_split_free(t, a, c);
        lemma_split_len(t, a, a);
        let f = split(t, a, a);
        let r = split(s, a, a);
        assert(s[s.len() - 1] != c);
        assert forall|i: int, j: int|
            #![trigger r[i][j]]
            0 <= i < r.len() && 0 <= j < r[i].len() implies r[i][j] != c by {
            if s.last() == a {
                if i < f.len() {
                    assert(r[i][j] == f[i][j]);
                }
            } else if i < f.len() - 1 {
                assert(r[i][j] == f[i][j]);
            } else if j < f.last().len() {
                assert(r[i][j] == f[f.len() - 1][j]);
            }
        }
    }
}

proof fn lemma_join_free(v: Seq<Seq<char>>, c: char)
    requires
        c != '/',
        forall|i: int, j: int|
            #![trigger v[i][j]]
            0 <= i < v.len() && 0 <= j < v[i].len() ==> v[i][j] != c,
    ensures
        forall|j: int| 0 <= j < join(v, "/"@).len() ==> join(v, "/"@)[j] != c,
    decreases v.len(),
{
    reveal_strlit("/");
    if v.len() == 1 {
        assert forall|j: int| 0 <= j < join(v, "/"@).len() implies join(v, "/"@)[j] != c by {
            assert(v[0][j] != c);
        }
    } else if v.len() > 1 {
        let u = v.drop_last();
        assert forall|i: int, j: int|
            #![trigger u[i][j]]
            0 <= i < u.len() && 0 <= j < u[i].len() implies u[i][j] != c by {
            assert(v[i][j] == u[i][j]);
        }
        lemma_join_free(u, c);
        let w = join(u, "/"@);
        let last = v.len() - 1;
        assert forall|j: int| 0 <= j < join(v, "/"@).len() implies join(v, "/"@)[j] != c by {
            if j < w.len() {
                assert(join(v, "/"@)[j] == w[j]);
            } else if j > w.len() {
                assert(join(v, "/"@)[j] == v[last][j - w.len() - 1]);
            }
        }
    }
}

/// A clean path holds only slashes and characters of the path it came from.
pub proof fn lemma_clean_free(path: Seq<char>, c: char)
    requires
        c != '/',
        forall|j: int| 0 <= j < path.len() ==> path[j] != c,
    ensures
        forall|j: int| 0 <= j < clean(path).len() ==> clean(path)[j] != c,
{
    let f = |p: Seq<char>| is_name(p);
    let all = split(path, '/', '/');
    let n = named_parts(path);
    lemma_filter_members(all, f);
    lemma_split_free(path, '/', c);
    assert forall|i: int, j: int|
        #![trigger n[i][j]]
        0 <= i < n.len() && 0 <= j < n[i].len() implies n[i][j] != c by {
        let x = all.filter(f)[i];
        assert(all.contains(x));
        let k = choose|k: int| 0 <= k < all.len() && all[k] == x;
        assert(all[k][j] != c);
    }
    lemma_join_free(n, c);
}

/// Lines joined by line feeds, as they are read back, if none of them holds a
/// line feed and the last is not empty.
pub proof fn lemma_lines_join(v: Seq<Seq<char>>)
    requires
        v.len() > 0,
        v.last().len() > 0,
        forall|i: int, j: int|
            #![trigger v[i][j]]
            0 <= i < v.len() && 0 <= j < v[i].len() ==> v[i][j] != '\n',
    ensures
        lines(join(v, "\n"@)) == Seq::new(
            v.len(),
            |i: int|
                if i < v.len() - 1 {
                    line_text(v[i].push('\n'))
                } else {
                    v[i]
                },
        ),
{
    let n = v.len();
    let ps = Seq::new(
        n,
        |i: int|
            if i < n - 1 {
                v[i].push('\n')
            } else {
                v[i]
            },
    );
    assert forall|i: int| 0 <= i < ps.len() implies is_piece(#[trigger] ps[i]) by {
        assert forall|j: int| 0 <= j < ps[i].len() - 1 implies ps[i][j] != '\n' by {
            assert(ps[i][j] == v[i][j]);
        }
    }
    assert(is_cut(ps));
    lemma_pieces_of(ps);
    lemma_flat_join(v, ps);
    let k = v.last().len() - 1;
    assert(v[n - 1][k] != '\n');
    assert(lines(join(v, "\n"@)) =~= Seq::new(
        v.len(),
        |i: int|
            if i < v.len() - 1 {
                line_text(v[i].push('\n'))
            } else {
                v[i]
            },
    ));
}

proof fn lemma_flat_join(v: Seq<Seq<char>>, ps: Seq<Seq<char>>)
    requires
        v.len() > 0,
        ps.len() == v.len(),
        forall|i: int| 0 <= i < v.len() - 1 ==> #[trigger] ps[i] == v[i].push('\n'),
        ps.last() == v.last(),
    ensures
        flat(ps) == join(v, "\n"@),
    decreases v.len(),
{
    reveal_strlit("\n");
    if v.len() == 1 {
        assert(ps =~= Seq::empty().push(v[0]));
        lemma_flat_push(Seq::empty(), v[0]);
        assert(flat(Seq::<Seq<char>>::empty()) + v[0] =~= v[0]);
    } else {
        let u = v.drop_last();
        let qs = ps.drop_last();
        let rs = qs.drop_last().push(u.last());
        assert(qs.last() == ps[v.len() - 2]);
        assert forall|i: int| 0 <= i < u.len() - 1 implies #[trigger] rs[i] == u[i].push('\n') by {
            assert(rs[i] == ps[i]);
        }
        lemma_flat_join(u, rs);
        lemma_flat_push(qs.drop_last(), u.last());
        assert(flat(qs) == flat(qs.drop_last()) + qs.last());
        assert(flat(qs) =~= flat(rs) + "\n"@);
        assert(flat(ps) =~= join(u, "\n"@) + "\n"@ + v.last());
    }
}

} // verus!
