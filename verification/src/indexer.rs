//! The project index store, the alias table, and the incremental diff
//! planner: fresh blobs are partitioned into new ones (absent from the stored
//! fingerprint list) and already-known ones, and the full fingerprint list of
//! the fresh collection is produced in collection order.

use vstd::prelude::*;
use crate::assoc::AssocList;
use crate::blob::{BlobUpload, BlobView};
use crate::fingerprint::{fingerprint_of, hash_blob_name};

verus! {

/// Per project key, the ordered fingerprint list known to exist in the
/// backend. A successful run replaces a key's list wholesale.
pub struct ProjectsIndex {
    map: AssocList<Vec<String>>,
}

impl View for ProjectsIndex {
    type V = Map<Seq<char>, Seq<Seq<char>>>;

    closed spec fn view(&self) -> Map<Seq<char>, Seq<Seq<char>>> {
        self.map@
    }
}

impl ProjectsIndex {
    pub closed spec fn wf(&self) -> bool {
        self.map.wf()
    }

    pub fn new() -> (r: Self)
        ensures
            r.wf(),
            r@ == Map::<Seq<char>, Seq<Seq<char>>>::empty(),
    {
        ProjectsIndex { map: AssocList::new() }
    }

    /// The stored fingerprint list for a key, if any.
    pub fn get<'a>(&'a self, key: &String) -> (r: Option<&'a Vec<String>>)
        requires
            self.wf(),
        ensures
            match r {
                Some(v) => self@.contains_key(key@) && v.deep_view() == self@[key@],
                None => !self@.contains_key(key@),
            },
    {
        self.map.get(key)
    }

    /// The stored entries, for enumeration and persistence.
    pub fn entries<'a>(&'a self) -> (r: &'a Vec<(String, Vec<String>)>)
        requires
            self.wf(),
        ensures
            forall|i: int|
                0 <= i < r@.len() ==> self@.contains_key(#[trigger] r@[i].0@)
                    && self@[r@[i].0@] == r@[i].1.deep_view(),
            forall|i: int, j: int| 0 <= i < j < r@.len() ==> r@[i].0@ != r@[j].0@,
    {
        self.map.entries()
    }

    /// Replace the stored list for `key` with `names`.
    pub fn set(&mut self, key: String, names: Vec<String>)
        requires
            old(self).wf(),
        ensures
            final(self).wf(),
            final(self)@ == old(self)@.insert(key@, names.deep_view()),
    {
        self.map.set(key, names);
    }
}

/// Alias names for project paths.
pub struct Aliases {
    map: AssocList<String>,
}

impl View for Aliases {
    type V = Map<Seq<char>, Seq<char>>;

    closed spec fn view(&self) -> Map<Seq<char>, Seq<char>> {
        self.map@
    }
}

impl Aliases {
    pub closed spec fn wf(&self) -> bool {
        self.map.wf()
    }

    pub fn new() -> (r: Self)
        ensures
            r.wf(),
            r@ == Map::<Seq<char>, Seq<char>>::empty(),
    {
        Aliases { map: AssocList::new() }
    }

    /// The normalized path an alias stands for, if registered.
    pub fn resolve(&self, alias: &String) -> (r: Option<String>)
        requires
            self.wf(),
        ensures
            match r {
                Some(p) => self@.contains_key(alias@) && p@ == self@[alias@],
                None => !self@.contains_key(alias@),
            },
    {
        match self.map.get(alias) {
            Some(p) => Some(p.clone()),
            None => None,
        }
    }

    /// The bindings, for enumeration and persistence.
    pub fn entries<'a>(&'a self) -> (r: &'a Vec<(String, String)>)
        requires
            self.wf(),
        ensures
            forall|i: int|
                0 <= i < r@.len() ==> self@.contains_key(#[trigger] r@[i].0@)
                    && self@[r@[i].0@] == r@[i].1.deep_view(),
            forall|i: int, j: int| 0 <= i < j < r@.len() ==> r@[i].0@ != r@[j].0@,
    {
        self.map.entries()
    }

    /// Bind an alias to a normalized path, replacing any previous binding.
    pub fn set(&mut self, alias: String, normalized_path: String)
        requires
            old(self).wf(),
        ensures
            final(self).wf(),
            final(self)@ == old(self)@.insert(alias@, normalized_path@),
    {
        self.map.set(alias, normalized_path);
    }
}

/// A blob's fingerprint.
pub open spec fn fingerprint_of_blob(b: BlobView) -> Seq<char> {
    fingerprint_of(b.path, b.content)
}

/// The full fingerprint list of a collection, in collection order.
pub open spec fn plan_names(blobs: Seq<BlobView>) -> Seq<Seq<char>> {
    blobs.map_values(|b: BlobView| fingerprint_of_blob(b))
}

/// The subsequence of blobs whose fingerprint is absent from `existing`.
pub open spec fn plan_new(blobs: Seq<BlobView>, existing: Seq<Seq<char>>) -> Seq<BlobView>
    decreases blobs.len(),
{
    if blobs.len() == 0 {
        Seq::empty()
    } else {
        let rest = plan_new(blobs.drop_last(), existing);
        if existing.contains(fingerprint_of_blob(blobs.last())) {
            rest
        } else {
            rest.push(blobs.last())
        }
    }
}

/// The fingerprint list stored for `key`, empty when the key is absent.
pub open spec fn stored_names(m: Map<Seq<char>, Seq<Seq<char>>>, key: Seq<char>) -> Seq<Seq<char>> {
    if m.contains_key(key) {
        m[key]
    } else {
        Seq::empty()
    }
}

/// Whether `v` holds a string equal to `s`.
fn contains_name(v: &Vec<String>, s: &String) -> (r: bool)
    ensures
        r == v.deep_view().contains(s@),
{
    let n = v.len();
    let mut i: usize = 0;
    while i < n
        invariant
            i <= n,
            n == v.len(),
            forall|k: int| 0 <= k < i ==> v.deep_view()[k] != s@,
        decreases n - i,
    {
        if v[i] == *s {
            proof {
                assert(v.deep_view()[i as int] == s@);
            }
            return true;
        }
        i = i + 1;
    }
    proof {
        assert(forall|k: int| 0 <= k < v.deep_view().len() ==> v.deep_view()[k] != s@);
    }
    false
}

/// Compute the incremental upload plan: the new blobs (those whose
/// fingerprint is not in the list stored for `project_key`) and the full
/// fingerprint list of the fresh collection, both in collection order.
pub fn incremental_plan(project_key: &String, blobs: &Vec<BlobUpload>, projects: &ProjectsIndex) -> (r:
    (Vec<BlobUpload>, Vec<String>))
    requires
        projects.wf(),
    ensures
        r.1.deep_view() == plan_names(blobs.deep_view()),
        r.0.deep_view() == plan_new(blobs.deep_view(), stored_names(projects@, project_key@)),
{
    let empty: Vec<String> = Vec::new();
    let stored: &Vec<String> = match projects.get(project_key) {
        Some(v) => v,
        None => &empty,
    };
    let ghost existing = stored_names(projects@, project_key@);
    proof {
        assert(stored.deep_view() == existing);
    }
    let n = blobs.len();
    let mut new_blobs: Vec<BlobUpload> = Vec::new();
    let mut names: Vec<String> = Vec::new();
    proof {
        assert(names.deep_view() =~= plan_names(blobs.deep_view().take(0)));
        assert(new_blobs.deep_view() =~= plan_new(blobs.deep_view().take(0), existing));
    }
    let mut i: usize = 0;
    while i < n
        invariant
            i <= n,
            n == blobs.len(),
            stored.deep_view() == existing,
            names.deep_view() == plan_names(blobs.deep_view().take(i as int)),
            new_blobs.deep_view() == plan_new(blobs.deep_view().take(i as int), existing),
        decreases n - i,
    {
        let h = hash_blob_name(blobs[i].path.as_str(), blobs[i].content.as_str());
        proof {
            assert(h@ == fingerprint_of_blob(blobs.deep_view()[i as int]));
        }
        if !contains_name(stored, &h) {
            let ghost pre = new_blobs.deep_view();
            new_blobs.push(
                BlobUpload { path: blobs[i].path.clone(), content: blobs[i].content.clone() },
            );
            proof {
                assert(new_blobs.deep_view() =~= pre.push(blobs.deep_view()[i as int]));
            }
        }
        let ghost prenames = names.deep_view();
        names.push(h);
        proof {
            let bs = blobs.deep_view();
            assert(names.deep_view() =~= prenames.push(h@));
            assert(bs.take(i + 1).drop_last() =~= bs.take(i as int));
            assert(bs.take(i + 1).last() == bs[i as int]);
            assert(forall|k: int|
                0 <= k < i + 1 ==> #[trigger] plan_names(bs.take(i + 1))[k] == fingerprint_of_blob(
                    bs.take(i + 1)[k],
                ));
            assert(forall|k: int|
                0 <= k < i ==> #[trigger] plan_names(bs.take(i as int))[k] == fingerprint_of_blob(
                    bs.take(i as int)[k],
                ));
            assert(names.deep_view() =~= plan_names(bs.take(i + 1)));
            assert(new_blobs.deep_view() =~= plan_new(bs.take(i + 1), existing));
        }
        i = i + 1;
    }
    proof {
        assert(blobs.deep_view().take(n as int) =~= blobs.deep_view());
    }
    (new_blobs, names)
}

/// Cold start: against an empty stored list every blob is new, and the full
/// fingerprint list has one fingerprint per blob.
pub proof fn lemma_plan_cold_start(blobs: Seq<BlobView>)
    ensures
        plan_new(blobs, Seq::empty()) == blobs,
        plan_names(blobs).len() == blobs.len(),
    decreases blobs.len(),
{
    if blobs.len() > 0 {
        lemma_plan_cold_start(blobs.drop_last());
        assert(plan_new(blobs, Seq::empty()) =~= blobs);
    } else {
        assert(plan_new(blobs, Seq::empty()) =~= blobs);
    }
}

/// When every fresh fingerprint is already stored, nothing is new.
pub proof fn lemma_plan_all_known(blobs: Seq<BlobView>, existing: Seq<Seq<char>>)
    requires
        forall|i: int|
            0 <= i < blobs.len() ==> existing.contains(fingerprint_of_blob(#[trigger] blobs[i])),
    ensures
        plan_new(blobs, existing) == Seq::<BlobView>::empty(),
    decreases blobs.len(),
{
    if blobs.len() > 0 {
        assert(forall|i: int|
            0 <= i < blobs.drop_last().len() ==> existing.contains(
                fingerprint_of_blob(#[trigger] blobs.drop_last()[i]),
            ));
        lemma_plan_all_known(blobs.drop_last(), existing);
        assert(blobs.last() == blobs[blobs.len() - 1]);
    }
}

/// Re-indexing an unchanged collection against its own fingerprint list
/// yields no new blobs, and the full list does not depend on what is stored.
pub proof fn lemma_plan_reindex_unchanged(blobs: Seq<BlobView>)
    ensures
        plan_new(blobs, plan_names(blobs)) == Seq::<BlobView>::empty(),
{
    assert(forall|i: int|
        0 <= i < blobs.len() ==> plan_names(blobs).contains(
            fingerprint_of_blob(#[trigger] blobs[i]),
        )) by {
        assert(forall|i: int|
            0 <= i < blobs.len() ==> plan_names(blobs)[i] == fingerprint_of_blob(
                #[trigger] blobs[i],
            ));
    }
    lemma_plan_all_known(blobs, plan_names(blobs));
}

/// Changing one blob leaves every other fingerprint in the full list
/// byte-identical to the prior run.
pub proof fn lemma_plan_locality(b1: Seq<BlobView>, b2: Seq<BlobView>, j: int)
    requires
        b1.len() == b2.len(),
        0 <= j < b1.len(),
        forall|i: int| 0 <= i < b1.len() && i != j ==> b1[i] == b2[i],
    ensures
        plan_names(b1).len() == plan_names(b2).len(),
        forall|i: int|
            0 <= i < b1.len() && i != j ==> plan_names(b1)[i] == #[trigger] plan_names(b2)[i],
{
}

} // verus!
