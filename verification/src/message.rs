//! Message templates: a text with `{}` where an argument goes.
use vstd::prelude::*;
use vstd::slice::slice_subrange;
use crate::lang::{say, tr, Lang};
use crate::text::{
    chars, contains, find, found, lemma_find, occurs_at, put, put_str, string, texts,
};

verus! {

/// The template with its holes filled by `args`, from left to right. What an
/// argument holds is not looked at again.
pub open spec fn fill(t: Seq<char>, args: Seq<Seq<char>>) -> Seq<char>
    decreases args.len(),
{
    if args.len() == 0 {
        t
    } else {
        match find(t, "{}"@) {
            Some(i) => t.take(i) + args[0] + fill(t.skip(i + 2), args.skip(1)),
            None => t,
        }
    }
}

/// Appends the template up to its first hole and the argument, and gives back
/// what follows the hole; `None`, with all of it appended, where it has none.
fn fill_next<'a>(out: &mut Vec<char>, t: &'a [char], a: &str) -> (r: Option<&'a [char]>)
    ensures
        match find(t@, "{}"@) {
            Some(i) => r is Some && r->0@ == t@.skip(i + 2) && final(out)@ == old(out)@ + (
            t@.take(i) + a@),
            None => r is None && final(out)@ == old(out)@ + t@,
        },
{
    let n: usize = t.len();
    proof {
        reveal_strlit("{}");
        lemma_find(t@, "{}"@);
    }
    match found(t, "{}") {
        Some(i) => {
            put(out, slice_subrange(t, 0, i));
            put_str(out, a);
            let rest = slice_subrange(t, i + 2, n);
            assert(t@.subrange(0, i as int) =~= t@.take(i as int));
            assert(rest@ =~= t@.skip(i + 2));
            assert(out@ =~= old(out)@ + (t@.take(i as int) + a@));
            Some(rest)
        },
        None => {
            put(out, t);
            None
        },
    }
}

pub fn fill1(t: &str, a: &str) -> (r: String)
    ensures
        r@ == fill(t@, seq![a@]),
{
    let cs = chars(t);
    let mut out: Vec<char> = Vec::new();
    let ghost args = seq![a@];
    assert(args.skip(1) =~= Seq::empty());
    match fill_next(&mut out, cs.as_slice(), a) {
        Some(rest) => {
            put(&mut out, rest);
            assert(fill(rest@, args.skip(1)) == rest@);
        },
        None => {},
    }
    assert(out@ =~= fill(t@, args));
    string(out.as_slice())
}

pub fn fill2(t: &str, a: &str, b: &str) -> (r: String)
    ensures
        r@ == fill(t@, seq![a@, b@]),
{
    let cs = chars(t);
    let mut out: Vec<char> = Vec::new();
    let ghost args = seq![a@, b@];
    match fill_next(&mut out, cs.as_slice(), a) {
        Some(rest) => {
            let tail = string(rest);
            let done = fill1(tail.as_str(), b);
            put_str(&mut out, done.as_str());
            assert(args.skip(1) =~= seq![b@]);
        },
        None => {},
    }
    assert(out@ =~= fill(t@, args));
    string(out.as_slice())
}

pub fn fill3(t: &str, a: &str, b: &str, c: &str) -> (r: String)
    ensures
        r@ == fill(t@, seq![a@, b@, c@]),
{
    let cs = chars(t);
    let mut out: Vec<char> = Vec::new();
    let ghost args = seq![a@, b@, c@];
    match fill_next(&mut out, cs.as_slice(), a) {
        Some(rest) => {
            let tail = string(rest);
            let done = fill2(tail.as_str(), b, c);
            put_str(&mut out, done.as_str());
            assert(args.skip(1) =~= seq![b@, c@]);
        },
        None => {},
    }
    assert(out@ =~= fill(t@, args));
    string(out.as_slice())
}

/// The form of a text for a language, as a string of its own.
pub fn said(l: Lang, en: &str, zh: &str) -> (r: String)
    ensures
        r@ == say(l, en@, zh@),
{
    tr(l, en, zh).to_owned()
}

/// The template with its holes filled by any number of arguments.
pub fn filled(t: &str, args: &Vec<String>) -> (r: String)
    ensures
        r@ == fill(t@, texts(args@)),
{
    let cs = chars(t);
    let mut out: Vec<char> = Vec::new();
    let mut tail: &[char] = cs.as_slice();
    let mut i: usize = 0;
    let ghost all = texts(args@);
    assert(all.skip(0) =~= all);
    assert(out@ + fill(tail@, all.skip(0)) =~= fill(t@, all));
    while i < args.len()
        invariant
            i <= args@.len(),
            all == texts(args@),
            out@ + fill(tail@, all.skip(i as int)) == fill(t@, all),
        decreases args@.len() - i,
    {
        let ghost before = out@;
        let ghost here = tail@;
        proof {
            assert(all.skip(i as int)[0] == args@[i as int]@);
            assert(all.skip(i as int).skip(1) =~= all.skip(i + 1));
        }
        match fill_next(&mut out, tail, args[i].as_str()) {
            Some(next) => {
                tail = next;
                proof {
                    let k = find(here, "{}"@)->0;
                    assert(out@ + fill(tail@, all.skip(i + 1)) =~= before + (here.take(k)
                        + args@[i as int]@ + fill(here.skip(k + 2), all.skip(i + 1))));
                }
            },
            None => {
                return string(out.as_slice());
            },
        }
        i = i + 1;
    }
    put(&mut out, tail);
    string(out.as_slice())
}

/// A template that starts with text of its own is never filled to nothing.
pub proof fn lemma_fill_some(t: Seq<char>, args: Seq<Seq<char>>)
    requires
        t.len() > 0,
        t[0] != '{',
    ensures
        fill(t, args).len() > 0,
{
    reveal_strlit("{}");
    if args.len() > 0 {
        lemma_find(t, "{}"@);
        if let Some(i) = find(t, "{}"@) {
            if i == 0 {
                assert(t.subrange(0, 2)[0] == '{');
            }
        }
    }
}

/// Where what follows the hole before starts.
pub open spec fn hole_start(holes: Seq<int>, k: int) -> int {
    if k <= 0 {
        0
    } else {
        holes[k - 1] + 2
    }
}

/// A hole of a template, with no brace between the hole before and it.
pub open spec fn is_hole(t: Seq<char>, holes: Seq<int>, k: int) -> bool {
    &&& 0 <= hole_start(holes, k) <= holes[k]
    &&& holes[k] + 1 < t.len()
    &&& t[holes[k]] == '{'
    &&& t[holes[k] + 1] == '}'
    &&& forall|j: int| hole_start(holes, k) <= j < holes[k] ==> t[j] != '{'
}

/// The first holes of a template, with no brace before or between them.
pub open spec fn are_holes(t: Seq<char>, holes: Seq<int>) -> bool {
    forall|k: int| 0 <= k < holes.len() ==> #[trigger] is_hole(t, holes, k)
}

/// Filling what follows the hole before.
pub proof fn lemma_fill_hole(t: Seq<char>, args: Seq<Seq<char>>, holes: Seq<int>, k: int)
    requires
        are_holes(t, holes),
        0 <= k < holes.len() <= args.len(),
    ensures
        fill(t.skip(hole_start(holes, k)), args.skip(k)) == t.subrange(
            hole_start(holes, k),
            holes[k],
        ) + args[k] + fill(t.skip(hole_start(holes, k + 1)), args.skip(k + 1)),
{
    reveal_strlit("{}");
    assert(is_hole(t, holes, k));
    let s = hole_start(holes, k);
    let u = t.skip(s);
    let h = holes[k] - s;
    lemma_find(u, "{}"@);
    assert(u.subrange(h, h + 2) =~= "{}"@);
    assert(occurs_at(u, "{}"@, h));
    let i = find(u, "{}"@)->0;
    if i < h {
        assert(u.subrange(i, i + 2)[0] == '{');
        assert(u[i] == t[s + i]);
    }
    assert(u.take(h) =~= t.subrange(s, holes[k]));
    assert(u.skip(h + 2) =~= t.skip(hole_start(holes, k + 1)));
    assert(args.skip(k)[0] == args[k]);
    assert(args.skip(k).skip(1) =~= args.skip(k + 1));
}

/// A filled template, in front of a hole and from there.
proof fn lemma_fill_from(t: Seq<char>, args: Seq<Seq<char>>, holes: Seq<int>, k: int) -> (pre: Seq<
    char,
>)
    requires
        are_holes(t, holes),
        0 <= k <= holes.len() <= args.len(),
    ensures
        fill(t, args) == pre + fill(t.skip(hole_start(holes, k)), args.skip(k)),
    decreases k,
{
    if k == 0 {
        assert(t.skip(0) =~= t);
        assert(args.skip(0) =~= args);
        assert(fill(t, args) =~= Seq::<char>::empty() + fill(t, args));
        Seq::empty()
    } else {
        let pre = lemma_fill_from(t, args, holes, k - 1);
        lemma_fill_hole(t, args, holes, k - 1);
        let more = pre + t.subrange(hole_start(holes, k - 1), holes[k - 1]) + args[k - 1];
        assert(fill(t, args) =~= more + fill(t.skip(hole_start(holes, k)), args.skip(k)));
        more
    }
}

/// An argument stands in a filled template between the text before its hole and
/// the character behind it.
pub proof fn lemma_filled_in(
    t: Seq<char>,
    args: Seq<Seq<char>>,
    holes: Seq<int>,
    k: int,
    before: Seq<char>,
)
    requires
        are_holes(t, holes),
        0 <= k < holes.len(),
        holes.len() == args.len(),
        hole_start(holes, k) <= holes[k] - before.len(),
        t.subrange(holes[k] - before.len(), holes[k]) == before,
        holes[k] + 2 < t.len(),
        t[holes[k] + 2] != '{',
    ensures
        contains(fill(t, args), before + args[k] + seq![t[holes[k] + 2]]),
{
    let pre = lemma_fill_from(t, args, holes, k);
    lemma_fill_hole(t, args, holes, k);
    assert(is_hole(t, holes, k));
    let s = hole_start(holes, k);
    let e = holes[k];
    let c = t[e + 2];
    let rest = fill(t.skip(e + 2), args.skip(k + 1));
    assert(rest.len() > 0 && rest[0] == c) by {
        if k + 1 < holes.len() {
            lemma_fill_hole(t, args, holes, k + 1);
            assert(is_hole(t, holes, k + 1));
            assert(holes[k + 1] > e + 2);
            assert(t.subrange(e + 2, holes[k + 1])[0] == c);
        } else {
            assert(args.skip(k + 1).len() == 0);
            assert(t.skip(e + 2)[0] == c);
        }
    }
    let whole = fill(t, args);
    let line = before + args[k] + seq![c];
    let n = before.len();
    let segment = t.subrange(s, e);
    let at = pre.len() + (e - n - s);
    assert(whole =~= pre + segment + args[k] + rest);
    assert(whole.subrange(at, at + line.len()) =~= line) by {
        assert forall|j: int| 0 <= j < line.len() implies whole[at + j] == line[j] by {
            if j < n {
                assert(t.subrange(e - n, e)[j] == segment[e - n - s + j]);
            }
        }
    }
    assert(occurs_at(whole, line, at));
}

/// A template with one hole.
pub proof fn lemma_fill_one(t: Seq<char>, a: Seq<char>, h: int)
    requires
        0 <= h,
        h + 1 < t.len(),
        t[h] == '{',
        t[h + 1] == '}',
        forall|j: int| 0 <= j < h ==> t[j] != '{',
    ensures
        fill(t, seq![a]) == t.take(h) + a + t.skip(h + 2),
{
    let args = seq![a];
    let holes = seq![h];
    assert(is_hole(t, holes, 0));
    lemma_fill_hole(t, args, holes, 0);
    assert(t.skip(0) =~= t);
    assert(args.skip(0) =~= args);
    assert(t.subrange(0, h) =~= t.take(h));
    assert(args.skip(1).len() == 0);
}

/// A template with two holes.
pub proof fn lemma_fill_two(t: Seq<char>, a: Seq<char>, b: Seq<char>, h: int, k: int)
    requires
        0 <= h,
        h + 2 <= k,
        k + 1 < t.len(),
        t[h] == '{',
        t[h + 1] == '}',
        t[k] == '{',
        t[k + 1] == '}',
        forall|j: int| 0 <= j < h || h + 2 <= j < k ==> t[j] != '{',
    ensures
        fill(t, seq![a, b]) == t.take(h) + a + t.subrange(h + 2, k) + b + t.skip(k + 2),
{
    let args = seq![a, b];
    let holes = seq![h, k];
    assert(is_hole(t, holes, 0));
    assert(is_hole(t, holes, 1));
    lemma_fill_hole(t, args, holes, 0);
    lemma_fill_hole(t, args, holes, 1);
    assert(t.skip(0) =~= t);
    assert(args.skip(0) =~= args);
    assert(t.subrange(0, h) =~= t.take(h));
    assert(args.skip(2).len() == 0);
    assert(fill(t, args) =~= t.take(h) + a + t.subrange(h + 2, k) + b + t.skip(k + 2));
}

} // verus!
