//! Which release is picked, said of the lists and tags that it is picked from.
use vstd::prelude::*;
use crate::lang::Lang;
use crate::number::numbers_less;
use crate::releases::{
    candidate_of, candidates_of, field_of, first_release_zip, first_zip,
    listed_zip, newer, numbers, opti_next, pinned, ranks_above, release_zip, tag_version,
    Cand, Json, OptiAnswer, OptiNext, Ver,
};
use crate::text::{contains, ends_with, lower, starts_with, text_less};

verus! {

// ── fields ─────────────────────────────────────────────────────────

/// A field of an object is the first of its name.
pub proof fn law_field_is_the_first_of_its_name(f: Seq<(String, Json)>, key: Seq<char>)
    ensures
        field_of(f, key) is Some <==> exists|i: int| 0 <= i < f.len() && (#[trigger] f[i]).0@ == key,
        field_of(f, key) matches Some(v) ==> exists|i: int|
            0 <= i < f.len() && (#[trigger] f[i]).0@ == key && f[i].1 == v && forall|j: int|
                0 <= j < i ==> (#[trigger] f[j]).0@ != key,
    decreases f.len(),
{
    if f.len() > 0 {
        let u = f.drop_last();
        let last = f.len() - 1;
        law_field_is_the_first_of_its_name(u, key);
        if exists|i: int| 0 <= i < f.len() && (#[trigger] f[i]).0@ == key {
            let i = choose|i: int| 0 <= i < f.len() && (#[trigger] f[i]).0@ == key;
            if i < u.len() {
                assert(u[i].0@ == key);
            }
        }
        match field_of(u, key) {
            Some(v) => {
                let i = choose|i: int|
                    0 <= i < u.len() && (#[trigger] u[i]).0@ == key && u[i].1 == v && forall|j: int|
                        0 <= j < i ==> (#[trigger] u[j]).0@ != key;
                assert(f[i].0@ == key);
                assert forall|j: int| 0 <= j < i implies (#[trigger] f[j]).0@ != key by {
                    assert(u[j] == f[j]);
                }
            },
            None => {
                assert forall|j: int| 0 <= j < last implies (#[trigger] f[j]).0@ != key by {
                    assert(u[j] == f[j]);
                }
                assert(f[last] == f.last());
            },
        }
    }
}

// ── the OptiScaler zip ─────────────────────────────────────────────

/// An asset that is a zip and no list of checksums, with the URL that it has.
pub open spec fn is_zip_at(a: Json, url: Seq<char>) -> bool {
    &&& a.text_field("browser_download_url"@) == Some(url)
    &&& a.text_field("name"@) is Some
    &&& ends_with(lower(a.text_field("name"@)->0), ".zip"@)
    &&& !contains(lower(a.text_field("name"@)->0), "sha256"@)
}

/// An asset that is a zip and no list of checksums.
pub open spec fn is_zip(a: Json) -> bool {
    a.text_field("browser_download_url"@) is Some && is_zip_at(
        a,
        a.text_field("browser_download_url"@)->0,
    )
}

/// A release that is no pre-release and has such an asset.
pub open spec fn offers_zip(r: Json) -> bool {
    &&& r.field("prerelease"@) != Some(Json::Bool(true))
    &&& r.array_field("assets"@) is Some
    &&& exists|j: int|
        0 <= j < r.array_field("assets"@)->0.len() && is_zip(
            #[trigger] r.array_field("assets"@)->0[j],
        )
}

proof fn lemma_first_zip(v: Seq<Json>)
    ensures
        first_zip(v) is Some <==> exists|j: int| 0 <= j < v.len() && is_zip(#[trigger] v[j]),
        first_zip(v) matches Some(u) ==> exists|j: int|
            0 <= j < v.len() && is_zip_at(#[trigger] v[j], u) && forall|k: int|
                0 <= k < j ==> !is_zip(#[trigger] v[k]),
    decreases v.len(),
{
    if v.len() > 0 {
        let w = v.drop_last();
        let last = v.len() - 1;
        lemma_first_zip(w);
        if exists|j: int| 0 <= j < v.len() && is_zip(#[trigger] v[j]) {
            let j = choose|j: int| 0 <= j < v.len() && is_zip(#[trigger] v[j]);
            if j < w.len() {
                assert(is_zip(w[j]));
            }
        }
        match first_zip(w) {
            Some(u) => {
                let j = choose|j: int|
                    0 <= j < w.len() && is_zip_at(#[trigger] w[j], u) && forall|k: int|
                        0 <= k < j ==> !is_zip(#[trigger] w[k]);
                assert(is_zip_at(v[j], u));
                assert(is_zip(v[j]));
                assert forall|k: int| 0 <= k < j implies !is_zip(#[trigger] v[k]) by {
                    assert(w[k] == v[k]);
                }
            },
            None => {
                assert forall|k: int| 0 <= k < last implies !is_zip(#[trigger] v[k]) by {
                    assert(w[k] == v[k]);
                }
                assert(v[last] == v.last());
            },
        }
    }
}

/// The zip is that of the first release which is no pre-release and has one: an
/// asset that ends in `.zip` and is no list of checksums. There is one exactly
/// where some release offers it.
pub proof fn law_zip_is_of_a_stable_release(v: Seq<Json>)
    ensures
        first_release_zip(v) is Some <==> exists|i: int|
            0 <= i < v.len() && offers_zip(#[trigger] v[i]),
        first_release_zip(v) matches Some(u) ==> exists|i: int, j: int|
            0 <= i < v.len() && offers_zip(#[trigger] v[i]) && 0 <= j < v[i].array_field(
                "assets"@,
            )->0.len() && is_zip_at(#[trigger] v[i].array_field("assets"@)->0[j], u) && forall|k: int|
                0 <= k < i ==> !offers_zip(#[trigger] v[k]),
    decreases v.len(),
{
    if v.len() > 0 {
        let w = v.drop_last();
        let last = v.len() - 1;
        law_zip_is_of_a_stable_release(w);
        lemma_release_zip(v.last());
        if exists|i: int| 0 <= i < v.len() && offers_zip(#[trigger] v[i]) {
            let i = choose|i: int| 0 <= i < v.len() && offers_zip(#[trigger] v[i]);
            if i < w.len() {
                assert(offers_zip(w[i]));
            }
        }
        match first_release_zip(w) {
            Some(u) => {
                let (i, j) = choose|i: int, j: int|
                    0 <= i < w.len() && offers_zip(#[trigger] w[i]) && 0 <= j < w[i].array_field(
                        "assets"@,
                    )->0.len() && is_zip_at(#[trigger] w[i].array_field("assets"@)->0[j], u)
                        && forall|k: int| 0 <= k < i ==> !offers_zip(#[trigger] w[k]);
                assert(v[i] == w[i]);
                assert(is_zip_at(v[i].array_field("assets"@)->0[j], u));
                assert forall|k: int| 0 <= k < i implies !offers_zip(#[trigger] v[k]) by {
                    assert(w[k] == v[k]);
                }
            },
            None => {
                assert forall|k: int| 0 <= k < last implies !offers_zip(#[trigger] v[k]) by {
                    assert(w[k] == v[k]);
                }
                assert(v[last] == v.last());
                if let Some(u) = release_zip(v.last()) {
                    let a = v.last().array_field("assets"@)->0;
                    lemma_first_zip(a);
                    let j = choose|j: int|
                        0 <= j < a.len() && is_zip_at(#[trigger] a[j], u) && forall|k: int|
                            0 <= k < j ==> !is_zip(#[trigger] a[k]);
                    assert(is_zip_at(v[last].array_field("assets"@)->0[j], u));
                }
            },
        }
    }
}

proof fn lemma_release_zip(r: Json)
    ensures
        release_zip(r) is Some <==> offers_zip(r),
{
    if r.array_field("assets"@) is Some {
        lemma_first_zip(r.array_field("assets"@)->0);
    }
}

/// The way to the zip: the latest stable tag goes first, then the list of
/// releases, then the tags of the releases page; the list ends the search where
/// it could be had.
pub proof fn law_stable_release_goes_first(l: Lang, repo: Seq<char>, a: OptiAnswer)
    ensures
        a matches OptiAnswer::Latest(Some(tag)) ==> opti_next(l, repo, a) == Ok::<
            OptiNext,
            Seq<char>,
        >(OptiNext::AskAsset(tag@)),
        a matches OptiAnswer::Latest(None) ==> opti_next(l, repo, a) == Ok::<OptiNext, Seq<char>>(
            OptiNext::AskReleases,
        ),
        a matches OptiAnswer::Releases(None) ==> opti_next(l, repo, a) == Ok::<OptiNext, Seq<char>>(
            OptiNext::AskTags,
        ),
        a matches OptiAnswer::Releases(Some(list)) ==> {
            &&& listed_zip(list) matches Some(u) ==> opti_next(l, repo, a) == Ok::<
                OptiNext,
                Seq<char>,
            >(OptiNext::Fetch(u))
            &&& listed_zip(list) is None ==> opti_next(l, repo, a) is Err
            &&& list matches Json::Array(v) ==> listed_zip(list) == first_release_zip(v@)
        },
        a matches OptiAnswer::Tags(tags) ==> {
            &&& tags@.len() > 0 ==> opti_next(l, repo, a) == Ok::<OptiNext, Seq<char>>(
                OptiNext::AskAsset(tags@[0]@),
            )
            &&& tags@.len() == 0 ==> opti_next(l, repo, a) is Err
        },
{
}

// ── the releases of a component ────────────────────────────────────

/// A release of a component: its tag is the component's prefix with a digit
/// behind it, and it has an asset with a URL.
pub open spec fn is_release_of(r: Json, prefix: Seq<char>) -> bool {
    &&& r.text_field("tag_name"@) is Some
    &&& starts_with(r.text_field("tag_name"@)->0, prefix)
    &&& r.text_field("tag_name"@)->0.len() > prefix.len()
    &&& '0' <= r.text_field("tag_name"@)->0[prefix.len() as int] <= '9'
    &&& r.array_field("assets"@) is Some
    &&& r.array_field("assets"@)->0.len() > 0
    &&& r.array_field("assets"@)->0[0].text_field("browser_download_url"@) is Some
}

/// The candidate is that of a release of the component: it has the release's tag
/// and the URL of its first asset.
pub open spec fn stands_for(c: Cand, r: Json, prefix: Seq<char>) -> bool {
    &&& is_release_of(r, prefix)
    &&& c.tag == r.text_field("tag_name"@)->0
    &&& c.url == r.array_field("assets"@)->0[0].text_field("browser_download_url"@)->0
}

proof fn lemma_candidate(r: Json, prefix: Seq<char>)
    ensures
        candidate_of(r, prefix) is Some <==> is_release_of(r, prefix),
        candidate_of(r, prefix) is Some ==> stands_for(candidate_of(r, prefix)->0, r, prefix),
{
}

/// Some candidate stands for the release.
pub open spec fn is_considered(c: Seq<Cand>, r: Json, prefix: Seq<char>) -> bool {
    exists|k: int| 0 <= k < c.len() && #[trigger] stands_for(c[k], r, prefix)
}

/// The candidate stands for some release.
pub open spec fn is_listed(c: Cand, v: Seq<Json>, prefix: Seq<char>) -> bool {
    exists|i: int| 0 <= i < v.len() && #[trigger] stands_for(c, v[i], prefix)
}

/// Every release of a component is a candidate, with its tag and the URL of its
/// first asset, and nothing else is.
pub proof fn law_every_release_is_considered(v: Seq<Json>, prefix: Seq<char>)
    ensures
        forall|i: int|
            0 <= i < v.len() && is_release_of(#[trigger] v[i], prefix) ==> is_considered(
                candidates_of(v, prefix),
                v[i],
                prefix,
            ),
        forall|k: int|
            0 <= k < candidates_of(v, prefix).len() ==> is_listed(
                #[trigger] candidates_of(v, prefix)[k],
                v,
                prefix,
            ),
    decreases v.len(),
{
    if v.len() > 0 {
        let w = v.drop_last();
        let last = v.len() - 1;
        let c = candidates_of(v, prefix);
        let d = candidates_of(w, prefix);
        law_every_release_is_considered(w, prefix);
        lemma_candidate(v.last(), prefix);
        assert forall|i: int|
            0 <= i < v.len() && is_release_of(#[trigger] v[i], prefix) implies is_considered(
            c,
            v[i],
            prefix,
        ) by {
            if i < w.len() {
                assert(is_release_of(w[i], prefix));
                assert(c.take(d.len() as int) =~= d);
                lemma_still_considered(c, d, v[i], prefix);
            } else {
                assert(stands_for(c[c.len() - 1], v[i], prefix));
            }
        }
        assert forall|k: int| 0 <= k < c.len() implies is_listed(#[trigger] c[k], v, prefix) by {
            if k < d.len() {
                assert(c[k] == d[k]);
                lemma_still_listed(c[k], v, w, prefix);
            } else {
                assert(stands_for(c[k], v[last], prefix));
            }
        }
    }
}

proof fn lemma_still_considered(c: Seq<Cand>, d: Seq<Cand>, r: Json, prefix: Seq<char>)
    requires
        is_considered(d, r, prefix),
        d.len() <= c.len(),
        c.take(d.len() as int) == d,
    ensures
        is_considered(c, r, prefix),
{
    let k = choose|k: int| 0 <= k < d.len() && #[trigger] stands_for(d[k], r, prefix);
    assert(c.take(d.len() as int)[k] == c[k]);
    assert(stands_for(c[k], r, prefix));
}

proof fn lemma_still_listed(c: Cand, v: Seq<Json>, w: Seq<Json>, prefix: Seq<char>)
    requires
        v.len() > 0,
        w == v.drop_last(),
        is_listed(c, w, prefix),
    ensures
        is_listed(c, v, prefix),
{
    let i = choose|i: int| 0 <= i < w.len() && #[trigger] stands_for(c, w[i], prefix);
    assert(stands_for(c, v[i], prefix));
}

/// A build that was asked for is taken as it is named, but only of the DLSS 5
/// add-on, and only where the wish names one.
pub proof fn law_only_the_addon_can_be_pinned(prefix: Seq<char>, asked: Option<&str>)
    ensures
        pinned(prefix, asked) is Some <==> prefix == "renodx-dlss5-"@ && asked is Some
            && asked->0@.len() > 0,
        pinned(prefix, asked) is Some ==> pinned(prefix, asked)->0 == asked->0@,
{
}

// ── the order of versions ──────────────────────────────────────────

/// Numbers come before others where they agree up to a part that is smaller, or
/// up to their end and the others go on.
pub open spec fn comes_before(a: Seq<nat>, b: Seq<nat>, k: int) -> bool {
    &&& 0 <= k <= a.len()
    &&& k < b.len()
    &&& a.take(k) == b.take(k)
    &&& k == a.len() || a[k] < b[k]
}

/// Versions are ordered by their first different part; one that goes on where
/// the other ends is the greater.
pub proof fn law_numbers_are_ordered_by_parts(a: Seq<nat>, b: Seq<nat>)
    ensures
        numbers_less(a, b) <==> exists|k: int| comes_before(a, b, k),
    decreases a.len(),
{
    if b.len() > 0 && a.len() > 0 && a[0] == b[0] {
        let x = a.skip(1);
        let y = b.skip(1);
        law_numbers_are_ordered_by_parts(x, y);
        if numbers_less(a, b) {
            let k = choose|k: int| comes_before(x, y, k);
            assert(a.take(k + 1) =~= seq![a[0]] + x.take(k));
            assert(b.take(k + 1) =~= seq![b[0]] + y.take(k));
            assert(comes_before(a, b, k + 1));
        }
        if exists|k: int| comes_before(a, b, k) {
            let k = choose|k: int| comes_before(a, b, k);
            assert(k > 0);
            assert(x.take(k - 1) =~= a.take(k).skip(1));
            assert(y.take(k - 1) =~= b.take(k).skip(1));
            assert(comes_before(x, y, k - 1));
        }
    } else {
        if numbers_less(a, b) {
            assert(a.take(0) =~= b.take(0));
            assert(comes_before(a, b, 0));
        }
        if exists|k: int| comes_before(a, b, k) {
            let k = choose|k: int| comes_before(a, b, k);
            if k > 0 {
                assert(a.take(k)[0] == a[0]);
                assert(b.take(k)[0] == b[0]);
            }
        }
    }
}

/// Of two versions the one with the greater release is above, prerelease or not;
/// of one release the final one is above its prereleases, and these are ordered
/// by their numbers. A version without numbers is above none and below none.
pub proof fn law_release_is_above_its_prereleases(a: Ver, b: Ver)
    ensures
        a.release.len() == 0 || b.release.len() == 0 ==> !ranks_above(a, b),
        a.release.len() > 0 && b.release.len() > 0 ==> {
            &&& a.release != b.release ==> (ranks_above(a, b) <==> exists|k: int|
                comes_before(b.release, a.release, k))
            &&& a.release == b.release && !a.prerelease && b.prerelease ==> ranks_above(a, b)
            &&& a.release == b.release && !b.prerelease ==> !ranks_above(a, b)
            &&& a.release == b.release && a.prerelease && b.prerelease ==> (ranks_above(a, b)
                <==> exists|k: int| comes_before(b.numbers, a.numbers, k))
        },
{
    law_numbers_are_ordered_by_parts(b.release, a.release);
    law_numbers_are_ordered_by_parts(b.numbers, a.numbers);
}

/// Tags are told newer by their versions, but for the DLSS 5 model: there a build
/// with `.SF` in its tag is newer than any without.
pub proof fn law_newer_is_by_version(a: Seq<char>, b: Seq<char>)
    ensures
        ({
            let sf = |t: Seq<char>| starts_with(t, "dlssnr-"@) && contains(t, ".SF"@);
            &&& sf(a) && !sf(b) ==> newer(a, b)
            &&& !sf(a) && sf(b) ==> !newer(a, b)
            &&& sf(a) == sf(b) ==> (newer(a, b) <==> ranks_above(tag_version(a), tag_version(b)))
        }),
{
}

/// The numbers of a list of runs of digits, each read whole and in their order;
/// one that is too great is passed over.
pub proof fn law_numbers_keep_their_order(v: Seq<Seq<char>>, w: Seq<Seq<char>>)
    ensures
        numbers(v + w) == numbers(v) + numbers(w),
    decreases w.len(),
{
    if w.len() == 0 {
        assert(v + w =~= v);
        assert(numbers(v) + numbers(w) =~= numbers(v));
    } else {
        law_numbers_keep_their_order(v, w.drop_last());
        assert((v + w).drop_last() =~= v + w.drop_last());
        assert((v + w).last() == w.last());
        assert(numbers(v + w) =~= numbers(v) + numbers(w));
    }
}

/// Texts come before others where they agree up to a character that is smaller,
/// or up to their end and the others go on.
pub open spec fn stands_before(a: Seq<char>, b: Seq<char>, k: int) -> bool {
    &&& 0 <= k <= a.len()
    &&& k < b.len()
    &&& a.take(k) == b.take(k)
    &&& k == a.len() || a[k] < b[k]
}

/// Texts are ordered by their first different character.
pub proof fn law_texts_are_ordered_by_characters(a: Seq<char>, b: Seq<char>)
    ensures
        text_less(a, b) <==> exists|k: int| stands_before(a, b, k),
    decreases a.len(),
{
    if b.len() > 0 && a.len() > 0 && a[0] == b[0] {
        let x = a.drop_first();
        let y = b.drop_first();
        law_texts_are_ordered_by_characters(x, y);
        if text_less(a, b) {
            let k = choose|k: int| stands_before(x, y, k);
            assert(a.take(k + 1) =~= seq![a[0]] + x.take(k));
            assert(b.take(k + 1) =~= seq![b[0]] + y.take(k));
            assert(stands_before(a, b, k + 1));
        }
        if exists|k: int| stands_before(a, b, k) {
            let k = choose|k: int| stands_before(a, b, k);
            assert(k > 0);
            assert(x.take(k - 1) =~= a.take(k).skip(1));
            assert(y.take(k - 1) =~= b.take(k).skip(1));
            assert(stands_before(x, y, k - 1));
        }
    } else {
        if text_less(a, b) {
            assert(a.take(0) =~= b.take(0));
            assert(stands_before(a, b, 0));
        }
        if exists|k: int| stands_before(a, b, k) {
            let k = choose|k: int| stands_before(a, b, k);
            if k > 0 {
                assert(a.take(k)[0] == a[0]);
                assert(b.take(k)[0] == b[0]);
            }
        }
    }
}

} // verus!
