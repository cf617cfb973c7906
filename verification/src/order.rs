//! Sorting texts, as `str` orders them.
use vstd::prelude::*;
use crate::text::{chars, less, text_less, texts};

verus! {

/// A sorted list with one text more, after those that are not greater.
pub open spec fn inserted(v: Seq<Seq<char>>, t: Seq<char>) -> Seq<Seq<char>>
    decreases v.len(),
{
    if v.len() > 0 && text_less(t, v.last()) {
        inserted(v.drop_last(), t).push(v.last())
    } else {
        v.push(t)
    }
}

/// The texts in order.
pub open spec fn sorted(v: Seq<Seq<char>>) -> Seq<Seq<char>>
    decreases v.len(),
{
    if v.len() == 0 {
        Seq::empty()
    } else {
        inserted(sorted(v.drop_last()), v.last())
    }
}

/// No text is less than one before it.
pub open spec fn in_order(v: Seq<Seq<char>>) -> bool {
    forall|i: int, j: int| 0 <= i < j < v.len() ==> !text_less(#[trigger] v[j], #[trigger] v[i])
}

proof fn lemma_inserted_at(v: Seq<Seq<char>>, t: Seq<char>, k: int)
    requires
        0 <= k <= v.len(),
        forall|j: int| k <= j < v.len() ==> text_less(t, #[trigger] v[j]),
        k > 0 ==> !text_less(t, v[k - 1]),
    ensures
        inserted(v, t) == v.insert(k, t),
    decreases v.len() - k,
{
    if k < v.len() {
        let u = v.drop_last();
        assert(text_less(t, v[v.len() - 1]));
        lemma_inserted_at(u, t, k);
        assert(u.insert(k, t).push(v.last()) =~= v.insert(k, t));
    } else {
        assert(v.push(t) =~= v.insert(k, t));
    }
}

/// Puts a string into a sorted list.
fn insert(v: &mut Vec<String>, s: String)
    ensures
        texts(final(v)@) == inserted(texts(old(v)@), s@),
{
    let t = chars(s.as_str());
    let ghost all = texts(v@);
    let mut k: usize = v.len();
    let mut go = k > 0;
    while go
        invariant
            k <= v@.len(),
            all == texts(v@),
            t@ == s@,
            go ==> k > 0,
            forall|j: int| k <= j < v@.len() ==> text_less(s@, #[trigger] all[j]),
            !go && k > 0 ==> !text_less(s@, all[k - 1]),
        decreases
                k + (if go {
                    1int
                } else {
                    0int
                }),
    {
        let p = chars(v[k - 1].as_str());
        assert(all[k - 1] == p@);
        if less(t.as_slice(), p.as_slice()) {
            k = k - 1;
            go = k > 0;
        } else {
            go = false;
        }
    }
    proof {
        lemma_inserted_at(all, s@, k as int);
    }
    v.insert(k, s);
    assert(texts(v@) =~= all.insert(k as int, s@));
}

/// The strings in order.
pub fn sort(v: &Vec<String>) -> (r: Vec<String>)
    ensures
        texts(r@) == sorted(texts(v@)),
{
    let ghost all = texts(v@);
    let mut out: Vec<String> = Vec::new();
    let mut i: usize = 0;
    assert(all.take(0) =~= Seq::empty());
    assert(texts(out@) =~= Seq::empty());
    while i < v.len()
        invariant
            i <= v@.len(),
            all == texts(v@),
            texts(out@) == sorted(all.take(i as int)),
        decreases v@.len() - i,
    {
        proof {
            assert(all.take(i + 1).drop_last() =~= all.take(i as int));
            assert(all.take(i + 1).last() == v@[i as int]@);
        }
        insert(&mut out, v[i].as_str().to_owned());
        i = i + 1;
    }
    assert(all.take(all.len() as int) =~= all);
    out
}

// ── laws ───────────────────────────────────────────────────────────

pub proof fn lemma_less_trans(a: Seq<char>, b: Seq<char>, c: Seq<char>)
    ensures
        text_less(a, b) && !text_less(c, b) ==> text_less(a, c),
        !text_less(b, a) && !text_less(c, b) ==> !text_less(c, a),
        !(text_less(a, b) && text_less(b, a)),
    decreases a.len() + b.len() + c.len(),
{
    if a.len() > 0 && b.len() > 0 && c.len() > 0 {
        lemma_less_trans(a.drop_first(), b.drop_first(), c.drop_first());
    } else if a.len() > 0 && b.len() > 0 {
        lemma_less_trans(a.drop_first(), b.drop_first(), c);
    }
}

proof fn lemma_inserted(v: Seq<Seq<char>>, t: Seq<char>)
    requires
        in_order(v),
    ensures
        in_order(inserted(v, t)),
        inserted(v, t).to_multiset() == v.to_multiset().insert(t),
        forall|x: Seq<char>|
            #[trigger] inserted(v, t).contains(x) ==> v.contains(x) || x == t,
    decreases v.len(),
{
    broadcast use vstd::seq_lib::group_to_multiset_ensures;

    let r = inserted(v, t);
    if v.len() > 0 && text_less(t, v.last()) {
        let u = v.drop_last();
        assert(in_order(u)) by {
            assert forall|i: int, j: int| 0 <= i < j < u.len() implies !text_less(
                #[trigger] u[j],
                #[trigger] u[i],
            ) by {
                assert(!text_less(v[j], v[i]));
            }
        }
        lemma_inserted(u, t);
        let w = inserted(u, t);
        assert(u.push(v.last()) =~= v);
        assert(r.to_multiset() =~= w.to_multiset().insert(v.last()));
        assert(v.to_multiset() =~= u.to_multiset().insert(v.last()));
        assert(r.to_multiset() =~= v.to_multiset().insert(t));
        assert forall|i: int, j: int| 0 <= i < j < r.len() implies !text_less(
            #[trigger] r[j],
            #[trigger] r[i],
        ) by {
            if j < w.len() {
                assert(!text_less(w[j], w[i]));
            } else {
                assert(w.contains(w[i]));
                if w[i] == t {
                    lemma_less_trans(t, v.last(), t);
                } else {
                    assert(u.contains(w[i]));
                    let k = choose|k: int| 0 <= k < u.len() && u[k] == w[i];
                    let last = v.len() - 1;
                    assert(!text_less(v[last], v[k]));
                }
            }
        }
        assert forall|x: Seq<char>| #[trigger] r.contains(x) implies v.contains(x) || x == t by {
            let k = choose|k: int| 0 <= k < r.len() && r[k] == x;
            if k < w.len() {
                assert(w.contains(w[k]));
                if x != t {
                    let q = choose|q: int| 0 <= q < u.len() && u[q] == x;
                    assert(v[q] == x);
                }
            } else {
                assert(v[v.len() - 1] == x);
            }
        }
    } else {
        assert(r == v.push(t));
        assert(r.to_multiset() =~= v.to_multiset().insert(t));
        assert forall|i: int, j: int| 0 <= i < j < r.len() implies !text_less(
            #[trigger] r[j],
            #[trigger] r[i],
        ) by {
            if j < v.len() {
                assert(!text_less(v[j], v[i]));
            } else {
                let last = v.len() - 1;
                if i < last {
                    assert(!text_less(v[last], v[i]));
                    lemma_less_trans(v[i], v[last], t);
                }
            }
        }
        assert forall|x: Seq<char>| #[trigger] r.contains(x) implies v.contains(x) || x == t by {
            let k = choose|k: int| 0 <= k < r.len() && r[k] == x;
            if k < v.len() {
                assert(v[k] == x);
            }
        }
    }
}

/// Sorting keeps every text, as often as it is there, and puts them in order.
pub proof fn law_sorted_is_in_order(v: Seq<Seq<char>>)
    ensures
        in_order(sorted(v)),
        sorted(v).to_multiset() == v.to_multiset(),
    decreases v.len(),
{
    broadcast use vstd::seq_lib::group_to_multiset_ensures;

    if v.len() > 0 {
        law_sorted_is_in_order(v.drop_last());
        lemma_inserted(sorted(v.drop_last()), v.last());
        assert(v.drop_last().push(v.last()) =~= v);
    } else {
        assert(v =~= Seq::empty());
    }
}

} // verus!
