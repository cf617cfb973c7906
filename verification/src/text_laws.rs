//! What the operations on texts, lines and paths do to what they are given.
use vstd::prelude::*;
use crate::folder::{same_path, File, Tree};
use crate::lines::{join, line_text, split};
use crate::text::{lower, lower_char, replace_char, same_nocase, upper};

verus! {

/// Lower and upper case change ASCII letters alone, into each other.
pub proof fn law_case_is_that_of_ascii_letters(s: Seq<char>, i: int)
    requires
        0 <= i < s.len(),
    ensures
        lower(s).len() == s.len(),
        upper(s).len() == s.len(),
        'A' <= s[i] <= 'Z' ==> lower(s)[i] as int == s[i] as int + 32 && upper(s)[i] == s[i],
        'a' <= s[i] <= 'z' ==> upper(s)[i] as int == s[i] as int - 32 && lower(s)[i] == s[i],
        !('A' <= s[i] <= 'Z') && !('a' <= s[i] <= 'z') ==> lower(s)[i] == s[i] && upper(s)[i]
            == s[i],
{
}

/// Texts that are equal but for case have the same characters but for that of
/// ASCII letters.
pub proof fn law_equal_but_for_case(a: Seq<char>, b: Seq<char>)
    ensures
        same_nocase(a, b) <==> a.len() == b.len() && forall|i: int|
            0 <= i < a.len() ==> lower_char(#[trigger] a[i]) == lower_char(b[i]),
        a == b ==> same_nocase(a, b),
{
    if same_nocase(a, b) {
        assert(lower(a).len() == a.len() && lower(b).len() == b.len());
        assert forall|i: int| 0 <= i < a.len() implies lower_char(#[trigger] a[i]) == lower_char(
            b[i],
        ) by {
            assert(lower(a)[i] == lower(b)[i]);
        }
    }
    if a.len() == b.len() && forall|i: int|
        0 <= i < a.len() ==> lower_char(#[trigger] a[i]) == lower_char(b[i]) {
        assert(lower(a) =~= lower(b));
    }
}

/// A line loses its line feed and a carriage return right before it, nothing else.
pub proof fn law_line_loses_its_ending(t: Seq<char>)
    requires
        forall|i: int| 0 <= i < t.len() ==> t[i] != '\n',
    ensures
        line_text(t) == t,
        t.len() == 0 || t.last() != '\r' ==> line_text(t.push('\n')) == t,
        line_text(t.push('\r').push('\n')) == t,
{
    assert(t.push('\n').drop_last() =~= t);
    assert(t.push('\r').push('\n').drop_last() =~= t.push('\r'));
    assert(t.push('\r').drop_last() =~= t);
}

/// The fields of a text, put together again with the separator, are the text; no
/// field holds the separator.
pub proof fn law_fields_join_back(s: Seq<char>, c: char)
    ensures
        split(s, c, c).len() > 0,
        join(split(s, c, c), seq![c]) == s,
    decreases s.len(),
{
    let sep = seq![c];
    let f = split(s, c, c);
    if s.len() == 0 {
        assert(f[0] =~= s);
    } else {
        let t = s.drop_last();
        let g = split(t, c, c);
        law_fields_join_back(t, c);
        assert(t.push(s.last()) =~= s);
        if s.last() == c {
            assert(f.drop_last() =~= g);
            assert(f.last() =~= Seq::<char>::empty());
            assert(f.len() >= 2);
            assert(join(f, sep) =~= t + sep + Seq::<char>::empty());
            assert(t + sep + Seq::<char>::empty() =~= s);
        } else if g.len() == 1 {
            assert(f.len() == 1);
            assert(join(g, sep) == g[0]);
            assert(f[0] == g[0].push(s.last()));
        } else {
            assert(f.drop_last() =~= g.drop_last());
            let front = join(g.drop_last(), sep) + sep;
            assert(join(g, sep) == front + g.last());
            assert(join(f, sep) == front + g.last().push(s.last()));
            assert(front + g.last().push(s.last()) =~= (front + g.last()).push(s.last()));
        }
    }
}

/// Replacing a character changes it everywhere and nothing else.
pub proof fn law_replaced_character(s: Seq<char>, a: char, b: char, i: int)
    requires
        0 <= i < s.len(),
    ensures
        replace_char(s, a, b).len() == s.len(),
        s[i] == a ==> replace_char(s, a, b)[i] == b,
        s[i] != a ==> replace_char(s, a, b)[i] == s[i],
{
}

/// Where case matters, paths are the same only if they are equal; where it does
/// not, the case of ASCII letters makes no difference, and any other difference in
/// ASCII does.
pub proof fn law_same_path_goes_by_case(a: Seq<char>, b: Seq<char>)
    ensures
        same_path(false, a, b) <==> a == b,
        a.len() != b.len() ==> !same_path(true, a, b),
        (forall|i: int|
            0 <= i < a.len() ==> (#[trigger] a[i]) as int <= 127) && (forall|i: int|
            0 <= i < b.len() ==> (#[trigger] b[i]) as int <= 127) ==> (same_path(true, a, b)
            <==> lower(a) == lower(b)),
{
    let x = crate::folder::fold(a);
    let y = crate::folder::fold(b);
    assert(x.len() == a.len() && y.len() == b.len());
    if (forall|i: int| 0 <= i < a.len() ==> (#[trigger] a[i]) as int <= 127) && (forall|i: int|
        0 <= i < b.len() ==> (#[trigger] b[i]) as int <= 127) {
        assert(x =~= lower(a));
        assert(y =~= lower(b));
    }
}

/// A file that is removed is gone; every file of another path stays, in its order.
pub proof fn law_removed_file_is_gone(t: Tree, path: Seq<char>)
    ensures
        !t.without(path).has(path),
        t.without(path).dirs == t.dirs,
        forall|i: int|
            0 <= i < t.files.len() && !same_path(t.nocase, (#[trigger] t.files[i]).path, path)
                ==> t.without(path).files.contains(t.files[i]),
        forall|k: int|
            0 <= k < t.without(path).files.len() ==> t.files.contains(
                #[trigger] t.without(path).files[k],
            ),
{
    let f = |f: File| !same_path(t.nocase, f.path, path);
    let u = t.without(path);
    assert forall|k: int| 0 <= k < u.files.len() implies !same_path(
        t.nocase,
        (#[trigger] u.files[k]).path,
        path,
    ) && t.files.contains(u.files[k]) by {
        t.files.lemma_filter_pred(f, k);
        lemma_filter_from(t.files, f, k);
    }
    assert forall|i: int|
        0 <= i < t.files.len() && !same_path(
            t.nocase,
            (#[trigger] t.files[i]).path,
            path,
        ) implies u.files.contains(t.files[i]) by {
        assert(f(t.files[i]));
        t.files.lemma_filter_contains(f, i);
    }
}

proof fn lemma_filter_from(v: Seq<File>, f: spec_fn(File) -> bool, k: int)
    requires
        0 <= k < v.filter(f).len(),
    ensures
        v.contains(v.filter(f)[k]),
    decreases v.len(),
{
    reveal(Seq::filter);
    if v.len() > 0 {
        let u = v.drop_last();
        let x = v.filter(f)[k];
        if k < u.filter(f).len() {
            lemma_filter_from(u, f, k);
            let i = choose|i: int| 0 <= i < u.len() && u[i] == x;
            assert(v[i] == x);
        } else {
            assert(v[v.len() - 1] == x);
        }
    }
}

} // verus!
