//! Properties that relate the resolver, the collector and the submit
//! invocation, stated over their spec functions and proved.
use vstd::prelude::*;
use crate::collect::{collected, submit_invocation, track_paths};
use crate::text::has_any_suffix;
use crate::track::{lemma_indices_where, Registry};

verus! {

/// Naming a track selects exactly that track when the registry has one
/// answering to the name, and nothing otherwise.
pub proof fn law_explicit_name_selects_its_track(reg: Registry, n: Seq<char>)
    requires
        reg.wf(),
        reg.tracks@.len() <= usize::MAX,
    ensures
        forall|i: int|
            0 <= i < reg.tracks@.len() && #[trigger] reg.tracks@[i].answers_to(n) ==> reg.named(n)
                == seq![i as usize],
        (forall|i: int| 0 <= i < reg.tracks@.len() ==> !#[trigger] reg.tracks@[i].answers_to(n))
            ==> reg.named(n) == Seq::<usize>::empty(),
{
    let p = |i: int| reg.tracks@[i].answers_to(n);
    let r = reg.named(n);
    lemma_indices_where(reg.tracks@.len(), p);
    assert forall|i: int| 0 <= i < reg.tracks@.len() && #[trigger] reg.tracks@[i].answers_to(n) implies r
        == seq![i as usize] by {
        assert(p(i));
        assert forall|k: int| 0 <= k < r.len() implies r[k] == i as usize by {
            assert(p(r[k] as int));
        }
        if r.len() >= 2 {
            assert(r[0] < r[1]);
        }
        assert(r.contains(i as usize));
        assert(r =~= seq![i as usize]);
    }
    if forall|i: int| 0 <= i < reg.tracks@.len() ==> !#[trigger] reg.tracks@[i].answers_to(n) {
        if r.len() > 0 {
            assert(p(r[0] as int));
        }
        assert(r =~= Seq::<usize>::empty());
    }
}

/// A track one of whose marker files is present is among the detected
/// tracks.
pub proof fn law_marker_selects_track(reg: Registry, present: Seq<Seq<char>>, i: int, k: int)
    requires
        reg.tracks@.len() <= usize::MAX,
        0 <= i < reg.tracks@.len(),
        0 <= k < reg.tracks@[i].marker_views().len(),
        present.contains(reg.tracks@[i].marker_views()[k]),
    ensures
        reg.detected(present).contains(i as usize),
{
    let p = |j: int| reg.tracks@[j].marked_by(present);
    lemma_indices_where(reg.tracks@.len(), p);
    assert(p(i));
}

/// Detected tracks come in registry order, each once, and each has a marker
/// file among `present`.
pub proof fn law_detection_in_registry_order(reg: Registry, present: Seq<Seq<char>>)
    requires
        reg.tracks@.len() <= usize::MAX,
    ensures
        forall|a: int, b: int|
            0 <= a < b < reg.detected(present).len() ==> reg.detected(present)[a] < reg.detected(
                present,
            )[b],
        forall|k: int|
            0 <= k < reg.detected(present).len() ==> {
                let i = #[trigger] reg.detected(present)[k] as int;
                0 <= i < reg.tracks@.len() && reg.tracks@[i].marked_by(present)
            },
{
    let p = |j: int| reg.tracks@[j].marked_by(present);
    lemma_indices_where(reg.tracks@.len(), p);
    assert forall|k: int| 0 <= k < reg.detected(present).len() implies {
        let i = #[trigger] reg.detected(present)[k] as int;
        0 <= i < reg.tracks@.len() && reg.tracks@[i].marked_by(present)
    } by {
        assert(p(reg.detected(present)[k] as int));
    }
}

/// The files submitted for a selection are those of its first `k` tracks
/// followed by those of the rest: each track's files stand together, in the
/// order of the selection.
pub proof fn law_submission_splits(
    reg: Registry,
    selected: Seq<usize>,
    listings: Seq<Option<Seq<Seq<char>>>>,
    k: int,
)
    requires
        selected.len() == listings.len(),
        0 <= k <= selected.len(),
    ensures
        reg.submission(selected, listings) == reg.submission(selected.take(k), listings.take(k))
            + reg.submission(selected.skip(k), listings.skip(k)),
    decreases selected.len(),
{
    if k == selected.len() {
        assert(selected.take(k) =~= selected);
        assert(listings.take(k) =~= listings);
        assert(selected.skip(k) =~= Seq::<usize>::empty());
        assert(reg.submission(selected, listings) + Seq::<Seq<char>>::empty() =~= reg.submission(
            selected,
            listings,
        ));
    } else {
        law_submission_splits(reg, selected.drop_last(), listings.drop_last(), k);
        assert(selected.drop_last().take(k) =~= selected.take(k));
        assert(listings.drop_last().take(k) =~= listings.take(k));
        assert(selected.skip(k).drop_last() =~= selected.drop_last().skip(k));
        assert(listings.skip(k).drop_last() =~= listings.drop_last().skip(k));
        assert(selected.skip(k).last() == selected.last());
        assert(listings.skip(k).last() == listings.last());
        let a = reg.submission(selected.take(k), listings.take(k));
        let b = reg.submission(selected.drop_last().skip(k), listings.drop_last().skip(k));
        let c = track_paths(reg.tracks@[selected.last() as int], listings.last());
        assert(a + b + c =~= a + (b + c));
    }
}

/// Every collected path is the directory followed by an entry of the
/// listing that ends with a declared extension, and every such entry is
/// collected.
pub proof fn law_collected_files_match(dir: Seq<char>, names: Seq<Seq<char>>, exts: Seq<Seq<char>>)
    ensures
        forall|p: Seq<char>|
            #[trigger] collected(dir, names, exts).contains(p) ==> exists|j: int|
                0 <= j < names.len() && p == dir + names[j] && has_any_suffix(names[j], exts),
        forall|j: int|
            0 <= j < names.len() && has_any_suffix(#[trigger] names[j], exts) ==> collected(
                dir,
                names,
                exts,
            ).contains(dir + names[j]),
    decreases names.len(),
{
    if names.len() > 0 {
        let prev = names.drop_last();
        law_collected_files_match(dir, prev, exts);
        let c = collected(dir, names, exts);
        let pc = collected(dir, prev, exts);
        assert forall|p: Seq<char>| #[trigger] c.contains(p) implies exists|j: int|
            0 <= j < names.len() && p == dir + names[j] && has_any_suffix(names[j], exts) by {
            if pc.contains(p) {
                let j = choose|j: int|
                    0 <= j < prev.len() && p == dir + prev[j] && has_any_suffix(prev[j], exts);
                assert(names[j] == prev[j]);
            } else {
                let m = choose|m: int| 0 <= m < c.len() && c[m] == p;
                assert(m == pc.len());
                assert(names[names.len() - 1] == names.last());
            }
        }
        assert forall|j: int| 0 <= j < names.len() && has_any_suffix(#[trigger] names[j], exts) implies c.contains(
            dir + names[j],
        ) by {
            if j < names.len() - 1 {
                assert(prev[j] == names[j]);
                let m = choose|m: int| 0 <= m < pc.len() && pc[m] == dir + prev[j];
                assert(c[m] == pc[m]);
            } else {
                assert(c[pc.len() as int] == dir + names[j]);
            }
        }
    }
}

/// With no track selected nothing is collected, and the submit invocation
/// carries no path.
pub proof fn law_nothing_selected_submits_nothing(reg: Registry, listings: Seq<Option<Seq<Seq<char>>>>)
    ensures
        reg.submission(Seq::<usize>::empty(), listings) == Seq::<Seq<char>>::empty(),
        submit_invocation(reg.submission(Seq::<usize>::empty(), listings)) == seq!["submit"@],
{
    assert(submit_invocation(Seq::<Seq<char>>::empty()) =~= seq!["submit"@]);
}

} // verus!
