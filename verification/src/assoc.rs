//! A string-keyed association list with a `Map` view. Backs the persisted
//! project index and the alias table; insertion replaces the entry for an
//! existing key.

use vstd::prelude::*;

verus! {

/// The map an entry sequence denotes (later entries win).
pub open spec fn assoc_map<T: DeepView>(s: Seq<(String, T)>) -> Map<Seq<char>, T::V>
    decreases s.len(),
{
    if s.len() == 0 {
        Map::empty()
    } else {
        assoc_map(s.drop_last()).insert(s.last().0@, s.last().1.deep_view())
    }
}

/// Keys are pairwise distinct.
pub open spec fn assoc_wf<T: DeepView>(s: Seq<(String, T)>) -> bool {
    forall|i: int, j: int| 0 <= i < j < s.len() ==> s[i].0@ != s[j].0@
}

pub proof fn lemma_assoc_map_contains<T: DeepView>(s: Seq<(String, T)>, k: Seq<char>)
    ensures
        assoc_map(s).contains_key(k) <==> exists|i: int| 0 <= i < s.len() && s[i].0@ == k,
    decreases s.len(),
{
    if s.len() > 0 {
        lemma_assoc_map_contains(s.drop_last(), k);
        if s.last().0@ == k {
            assert(s[s.len() - 1].0@ == k);
        } else if assoc_map(s).contains_key(k) {
            let i = choose|i: int| 0 <= i < s.drop_last().len() && s.drop_last()[i].0@ == k;
            assert(s[i].0@ == k);
        } else if exists|i: int| 0 <= i < s.len() && s[i].0@ == k {
            let i = choose|i: int| 0 <= i < s.len() && s[i].0@ == k;
            assert(s.drop_last()[i].0@ == k);
        }
    }
}

pub proof fn lemma_assoc_map_idx<T: DeepView>(s: Seq<(String, T)>, i: int)
    requires
        assoc_wf(s),
        0 <= i < s.len(),
    ensures
        assoc_map(s).contains_key(s[i].0@),
        assoc_map(s)[s[i].0@] == s[i].1.deep_view(),
    decreases s.len(),
{
    if i == s.len() - 1 {
    } else {
        assert(assoc_wf(s.drop_last()));
        assert(s.drop_last()[i] == s[i]);
        lemma_assoc_map_idx(s.drop_last(), i);
        assert(s[i].0@ != s.last().0@);
    }
}

pub proof fn lemma_assoc_map_remove<T: DeepView>(s: Seq<(String, T)>, j: int)
    requires
        assoc_wf(s),
        0 <= j < s.len(),
    ensures
        assoc_map(s.remove(j)) == assoc_map(s).remove(s[j].0@),
        assoc_wf(s.remove(j)),
    decreases s.len(),
{
    s.remove_ensures(j);
    assert(assoc_wf(s.remove(j)));
    if j == s.len() - 1 {
        assert(s.remove(j) =~= s.drop_last());
        lemma_assoc_map_contains(s.drop_last(), s[j].0@);
        assert(!assoc_map(s.drop_last()).contains_key(s[j].0@));
        assert(assoc_map(s.drop_last()).insert(s.last().0@, s.last().1.deep_view()).remove(
            s[j].0@,
        ) =~= assoc_map(s.drop_last()));
    } else {
        assert(assoc_wf(s.drop_last()));
        lemma_assoc_map_remove(s.drop_last(), j);
        assert(s.remove(j).drop_last() =~= s.drop_last().remove(j));
        assert(s.remove(j).last() == s.last());
        assert(s[j].0@ != s.last().0@);
        assert(assoc_map(s.drop_last()).remove(s[j].0@).insert(
            s.last().0@,
            s.last().1.deep_view(),
        ) =~= assoc_map(s.drop_last()).insert(s.last().0@, s.last().1.deep_view()).remove(s[j].0@));
    }
}

/// An association list from string keys to values, seen as a map.
pub struct AssocList<T> {
    entries: Vec<(String, T)>,
}

impl<T: DeepView> View for AssocList<T> {
    type V = Map<Seq<char>, T::V>;

    closed spec fn view(&self) -> Map<Seq<char>, T::V> {
        assoc_map(self.entries@)
    }
}

impl<T: DeepView> AssocList<T> {
    /// Distinct keys; established by `new` and preserved by every method.
    pub closed spec fn wf(&self) -> bool {
        assoc_wf(self.entries@)
    }

    pub fn new() -> (r: Self)
        ensures
            r.wf(),
            r@ == Map::<Seq<char>, T::V>::empty(),
    {
        let r = AssocList { entries: Vec::new() };
        proof {
            assert(r@ =~= Map::<Seq<char>, T::V>::empty());
        }
        r
    }

    /// Look up the value stored under `key`.
    pub fn get<'a>(&'a self, key: &String) -> (r: Option<&'a T>)
        requires
            self.wf(),
        ensures
            match r {
                Some(v) => self@.contains_key(key@) && v.deep_view() == self@[key@],
                None => !self@.contains_key(key@),
            },
    {
        let n = self.entries.len();
        let mut i: usize = 0;
        while i < n
            invariant
                i <= n,
                n == self.entries.len(),
                self.wf(),
                forall|k: int| 0 <= k < i ==> self.entries@[k].0@ != key@,
            decreases n - i,
        {
            if self.entries[i].0 == *key {
                proof {
                    lemma_assoc_map_idx(self.entries@, i as int);
                }
                return Some(&self.entries[i].1);
            }
            i = i + 1;
        }
        proof {
            lemma_assoc_map_contains(self.entries@, key@);
        }
        None
    }

    /// The entries, for enumeration; each key appears once and maps as the
    /// view says.
    pub fn entries<'a>(&'a self) -> (r: &'a Vec<(String, T)>)
        requires
            self.wf(),
        ensures
            forall|i: int|
                0 <= i < r@.len() ==> self@.contains_key(#[trigger] r@[i].0@)
                    && self@[r@[i].0@] == r@[i].1.deep_view(),
            forall|i: int, j: int| 0 <= i < j < r@.len() ==> r@[i].0@ != r@[j].0@,
    {
        proof {
            assert forall|i: int|
                0 <= i < self.entries@.len() implies self@.contains_key(
                #[trigger] self.entries@[i].0@,
            ) && self@[self.entries@[i].0@] == self.entries@[i].1.deep_view() by {
                lemma_assoc_map_idx(self.entries@, i);
            }
        }
        &self.entries
    }

    /// Store `value` under `key`, replacing any previous entry.
    pub fn set(&mut self, key: String, value: T)
        requires
            old(self).wf(),
        ensures
            final(self).wf(),
            final(self)@ == old(self)@.insert(key@, value.deep_view()),
    {
        let n = self.entries.len();
        let mut i: usize = 0;
        while i < n
            invariant
                i <= n,
                n == self.entries.len(),
                self.wf(),
                self@ == old(self)@,
                self.entries@ == old(self).entries@,
                forall|k: int| 0 <= k < i ==> self.entries@[k].0@ != key@,
            decreases n - i,
        {
            if self.entries[i].0 == key {
                proof {
                    lemma_assoc_map_remove(self.entries@, i as int);
                }
                let ghost pre = self.entries@;
                self.entries.remove(i);
                proof {
                    assert(self.entries@ == pre.remove(i as int));
                    assert(forall|a: int, b: int|
                        0 <= a < b < self.entries@.len() ==> self.entries@[a].0@ != self.entries@[b].0@);
                    lemma_assoc_map_contains(self.entries@, key@);
                }
                let ghost mid = self.entries@;
                self.entries.push((key, value));
                proof {
                    assert(self.entries@.drop_last() =~= mid);
                    assert(self@ =~= old(self)@.insert(self.entries@.last().0@, value.deep_view()));
                    assert(forall|k: int| 0 <= k < mid.len() ==> mid[k].0@ != self.entries@.last().0@)
                        by {
                        lemma_assoc_map_contains(mid, self.entries@.last().0@);
                    }
                }
                return ;
            }
            i = i + 1;
        }
        let ghost mid = self.entries@;
        self.entries.push((key, value));
        proof {
            assert(self.entries@.drop_last() =~= mid);
            assert(self@ =~= old(self)@.insert(self.entries@.last().0@, value.deep_view()));
        }
    }
}

} // verus!
