//! Choosing the solution files of the resolved tracks, and the arguments of
//! the `submit` invocation.
use vstd::prelude::*;
use crate::text::{has_any_suffix, ends_with_any};
use crate::track::{views, Registry, TrackDefinition};

verus! {

/// The paths `dir + name`, in listing order, of the names in `names` that end
/// with one of `exts`.
pub open spec fn collected(dir: Seq<char>, names: Seq<Seq<char>>, exts: Seq<Seq<char>>) -> Seq<
    Seq<char>,
>
    decreases names.len(),
{
    if names.len() == 0 {
        seq![]
    } else {
        let prev = collected(dir, names.drop_last(), exts);
        if has_any_suffix(names.last(), exts) {
            prev.push(dir + names.last())
        } else {
            prev
        }
    }
}

/// What a directory listing holds, or `None` when the directory could not be
/// read.
pub open spec fn listing_views(ls: Seq<Option<Vec<String>>>) -> Seq<Option<Seq<Seq<char>>>> {
    ls.map_values(
        |o: Option<Vec<String>>|
            match o {
                Some(v) => Some(views(v@)),
                None => None,
            },
    )
}

/// The files a track contributes given the listing of its source directory;
/// an unreadable directory contributes none.
pub open spec fn track_paths(t: TrackDefinition, listing: Option<Seq<Seq<char>>>) -> Seq<Seq<char>> {
    match listing {
        Some(names) => collected(t.source_dir@, names, t.extension_views()),
        None => seq![],
    }
}

/// The arguments handed to the exercise tool to submit `paths`.
pub open spec fn submit_invocation(paths: Seq<Seq<char>>) -> Seq<Seq<char>> {
    seq!["submit"@] + paths
}

impl Registry {
    /// The files of the tracks `selected`, each listed by `listings` at the
    /// same position, concatenated in the order of `selected`.
    pub open spec fn submission(
        &self,
        selected: Seq<usize>,
        listings: Seq<Option<Seq<Seq<char>>>>,
    ) -> Seq<Seq<char>>
        decreases selected.len(),
    {
        if selected.len() == 0 {
            seq![]
        } else {
            self.submission(selected.drop_last(), listings.drop_last()) + track_paths(
                self.tracks@[selected.last() as int],
                listings.last(),
            )
        }
    }

    /// The files to submit: for each selected track, in order, the entries
    /// of its source directory's listing that carry one of its extensions.
    pub fn submission_paths(&self, selected: &Vec<usize>, listings: &Vec<Option<Vec<String>>>) -> (r:
        Vec<String>)
        requires
            selected@.len() == listings@.len(),
            forall|k: int| 0 <= k < selected@.len() ==> #[trigger] selected@[k] < self.tracks@.len(),
        ensures
            views(r@) == self.submission(selected@, listing_views(listings@)),
    {
        let ghost lv = listing_views(listings@);
        let mut r: Vec<String> = Vec::new();
        let mut i: usize = 0;
        while i < selected.len()
            invariant
                i <= selected@.len(),
                selected@.len() == listings@.len(),
                forall|k: int| 0 <= k < selected@.len() ==> #[trigger] selected@[k] < self.tracks@.len(),
                lv == listing_views(listings@),
                views(r@) == self.submission(selected@.subrange(0, i as int), lv.subrange(0, i as int)),
            decreases selected@.len() - i,
        {
            let t = &self.tracks[selected[i]];
            let mut found = match &listings[i] {
                Some(names) => collect_files(t.source_dir.as_str(), names, &t.extensions),
                None => Vec::new(),
            };
            let ghost before = r@;
            let ghost added = found@;
            assert(views(added) == track_paths(*t, lv[i as int]));
            r.append(&mut found);
            assert(views(r@) =~= views(before) + views(added));
            assert(selected@.subrange(0, i + 1).drop_last() =~= selected@.subrange(0, i as int));
            assert(lv.subrange(0, i + 1).drop_last() =~= lv.subrange(0, i as int));
            i = i + 1;
        }
        assert(selected@.subrange(0, i as int) =~= selected@);
        assert(lv.subrange(0, i as int) =~= lv);
        r
    }
}

/// The paths `dir + name`, in listing order, of the entries of `names`
/// that end with one of `exts`.
pub fn collect_files(dir: &str, names: &Vec<String>, exts: &Vec<String>) -> (r: Vec<String>)
    ensures
        views(r@) == collected(dir@, views(names@), views(exts@)),
{
    let ghost nv = views(names@);
    let mut r: Vec<String> = Vec::new();
    let mut i: usize = 0;
    while i < names.len()
        invariant
            i <= names@.len(),
            nv == views(names@),
            views(r@) == collected(dir@, nv.subrange(0, i as int), views(exts@)),
        decreases names@.len() - i,
    {
        assert(nv.subrange(0, i + 1).drop_last() =~= nv.subrange(0, i as int));
        assert(nv.subrange(0, i + 1).last() == names@[i as int]@);
        if ends_with_any(names[i].as_str(), exts) {
            let path = String::from_str(dir).concat(names[i].as_str());
            let ghost before = r@;
            r.push(path);
            assert(views(r@) =~= views(before).push(path@));
        }
        i = i + 1;
    }
    assert(nv.subrange(0, i as int) =~= nv);
    r
}

/// The arguments of the `submit` invocation: the word `submit`, then the
/// paths in order.
pub fn submit_args(paths: &Vec<String>) -> (r: Vec<String>)
    ensures
        views(r@) == submit_invocation(views(paths@)),
{
    let mut r: Vec<String> = Vec::new();
    r.push(String::from_str("submit"));
    let mut i: usize = 0;
    while i < paths.len()
        invariant
            i <= paths@.len(),
            views(r@) == submit_invocation(views(paths@).subrange(0, i as int)),
        decreases paths@.len() - i,
    {
        let ghost before = r@;
        r.push(paths[i].clone());
        assert(views(r@) =~= views(before).push(paths@[i as int]@));
        assert(submit_invocation(views(paths@).subrange(0, i + 1)) =~= submit_invocation(
            views(paths@).subrange(0, i as int),
        ).push(paths@[i as int]@));
        i = i + 1;
    }
    assert(views(paths@).subrange(0, i as int) =~= views(paths@));
    r
}

} // verus!
