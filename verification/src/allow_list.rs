use vstd::prelude::*;

use crate::scope::{ModuleScope, ScopeView, empty_scope, merge_scopes};

verus! {

/// Scopes keyed by the bytes of module hashes, the later entry winning.
pub open spec fn entries_map(s: Seq<(crate::hash::Hash, ModuleScope)>) -> Map<Seq<u8>, ScopeView>
    decreases s.len(),
{
    if s.len() == 0 {
        Map::empty()
    } else {
        entries_map(s.drop_last()).insert(s.last().0@, s.last().1@)
    }
}

/// No two entries are for the same module.
pub open spec fn keys_unique(s: Seq<(crate::hash::Hash, ModuleScope)>) -> bool {
    forall|i: int, j: int| 0 <= i < j < s.len() ==> s[i].0@ != s[j].0@
}

/// Scope of `k` in `m`, or the empty scope.
pub open spec fn scope_or_empty(m: Map<Seq<u8>, ScopeView>, k: Seq<u8>) -> ScopeView {
    if m.dom().contains(k) {
        m[k]
    } else {
        empty_scope()
    }
}

/// `base` with every scope of `extra` merged in.
pub open spec fn merged_lists(base: Map<Seq<u8>, ScopeView>, extra: Map<Seq<u8>, ScopeView>) -> Map<
    Seq<u8>,
    ScopeView,
> {
    Map::new(
        |k: Seq<u8>| base.dom().contains(k) || extra.dom().contains(k),
        |k: Seq<u8>|
            if extra.dom().contains(k) {
                merge_scopes(scope_or_empty(base, k), extra[k])
            } else {
                base[k]
            },
    )
}

proof fn lemma_entries_map_dom(s: Seq<(crate::hash::Hash, ModuleScope)>, k: Seq<u8>)
    ensures
        entries_map(s).dom().contains(k) <==> exists|i: int| 0 <= i < s.len() && #[trigger] s[i].0@ == k,
    decreases s.len(),
{
    if s.len() > 0 {
        lemma_entries_map_dom(s.drop_last(), k);
        if entries_map(s.drop_last()).dom().contains(k) {
            let i = choose|i: int| 0 <= i < s.drop_last().len() && #[trigger] s.drop_last()[i].0@ == k;
            assert(s[i].0@ == k);
        }
        if exists|i: int| 0 <= i < s.len() && #[trigger] s[i].0@ == k {
            let i = choose|i: int| 0 <= i < s.len() && #[trigger] s[i].0@ == k;
            if i < s.len() - 1 {
                assert(s.drop_last()[i].0@ == k);
            }
        }
    }
}

proof fn lemma_entries_map_value(s: Seq<(crate::hash::Hash, ModuleScope)>, i: int)
    requires
        keys_unique(s),
        0 <= i < s.len(),
    ensures
        entries_map(s).dom().contains(s[i].0@),
        entries_map(s)[s[i].0@] == s[i].1@,
    decreases s.len(),
{
    if i < s.len() - 1 {
        assert(s.drop_last()[i] == s[i]);
        lemma_entries_map_value(s.drop_last(), i);
    }
}

proof fn lemma_entries_map_update(
    s: Seq<(crate::hash::Hash, ModuleScope)>,
    i: int,
    x: (crate::hash::Hash, ModuleScope),
)
    requires
        keys_unique(s),
        0 <= i < s.len(),
        x.0@ == s[i].0@,
    ensures
        entries_map(s.update(i, x)) == entries_map(s).insert(x.0@, x.1@),
    decreases s.len(),
{
    if i == s.len() - 1 {
        assert(s.update(i, x).drop_last() =~= s.drop_last());
        assert(!entries_map(s.drop_last()).dom().contains(x.0@)) by {
            lemma_entries_map_dom(s.drop_last(), x.0@);
        }
        assert(entries_map(s.update(i, x)) =~= entries_map(s).insert(x.0@, x.1@));
    } else {
        assert(s.update(i, x).drop_last() =~= s.drop_last().update(i, x));
        lemma_entries_map_update(s.drop_last(), i, x);
        assert(s.last().0@ != x.0@);
        assert(entries_map(s.update(i, x)) =~= entries_map(s).insert(x.0@, x.1@));
    }
}

/// Scopes of the modules allowed to run, one per module hash.
#[derive(Debug, Clone)]
pub struct AllowList {
    entries: Vec<(crate::hash::Hash, ModuleScope)>,
}

impl View for AllowList {
    type V = Map<Seq<u8>, ScopeView>;

    closed spec fn view(&self) -> Map<Seq<u8>, ScopeView> {
        entries_map(self.entries@)
    }
}

impl Default for AllowList {
    /// An empty allow list.
    fn default() -> (r: AllowList)
        ensures
            r.well_formed(),
            r@ == Map::<Seq<u8>, ScopeView>::empty(),
    {
        AllowList::new()
    }
}

impl AllowList {
    /// No two entries are for the same module.
    pub closed spec fn well_formed(&self) -> bool {
        keys_unique(self.entries@)
    }

    /// An empty allow list.
    pub fn new() -> (r: AllowList)
        ensures
            r.well_formed(),
            r@ == Map::<Seq<u8>, ScopeView>::empty(),
    {
        AllowList { entries: Vec::new() }
    }

    /// The scopes of the list, one per module.
    pub fn scopes(&self) -> (r: &Vec<(crate::hash::Hash, ModuleScope)>)
        requires
            self.well_formed(),
        ensures
            keys_unique(r@),
            entries_map(r@) == self@,
    {
        &self.entries
    }

    /// Index of the entry for `hash`.
    fn find(&self, hash: &crate::hash::Hash) -> (r: Option<usize>)
        requires
            self.well_formed(),
        ensures
            r matches Some(i) ==> i < self.entries@.len() && self.entries@[i as int].0@ == hash@,
            r is None ==> !self@.dom().contains(hash@),
    {
        let mut i: usize = 0;
        while i < self.entries.len()
            invariant
                i <= self.entries@.len(),
                forall|j: int| 0 <= j < i ==> #[trigger] self.entries@[j].0@ != hash@,
            decreases self.entries@.len() - i,
        {
            if self.entries[i].0.same(hash) {
                return Some(i);
            }
            i = i + 1;
        }
        proof {
            lemma_entries_map_dom(self.entries@, hash@);
        }
        None
    }

    /// Scope of the module with the given hash, if the list has one.
    pub fn get_module_scope(&self, hash: &crate::hash::Hash) -> (r: Option<&ModuleScope>)
        requires
            self.well_formed(),
        ensures
            r matches Some(s) ==> self@.dom().contains(hash@) && s@ == self@[hash@],
            r is None ==> !self@.dom().contains(hash@),
    {
        match self.find(hash) {
            Some(i) => {
                proof {
                    lemma_entries_map_value(self.entries@, i as int);
                }
                Some(&self.entries[i].1)
            },
            None => None,
        }
    }

    /// Add a module scope, merging it into the module's existing one.
    pub fn add_module_scope(&mut self, hash: crate::hash::Hash, scope: ModuleScope)
        requires
            old(self).well_formed(),
        ensures
            final(self).well_formed(),
            final(self)@ == old(self)@.insert(
                hash@,
                merge_scopes(scope_or_empty(old(self)@, hash@), scope@),
            ),
    {
        match self.find(&hash) {
            Some(i) => {
                proof {
                    lemma_entries_map_value(self.entries@, i as int);
                }
                let ghost before = self.entries@;
                let (key, current) = self.entries.remove(i);
                let merged = current.merge(scope);
                self.entries.insert(i, (key, merged));
                proof {
                    assert(self.entries@ =~= before.update(i as int, (key, merged)));
                    lemma_entries_map_update(before, i as int, (key, merged));
                }
            },
            None => {
                let merged = ModuleScope::new().merge(scope);
                let ghost before = self.entries@;
                self.entries.push((hash, merged));
                proof {
                    assert(self.entries@.drop_last() =~= before);
                    assert forall|a: int, b: int|
                        0 <= a < b < self.entries@.len() implies self.entries@[a].0@
                        != self.entries@[b].0@ by {
                        if b == self.entries@.len() - 1 {
                            lemma_entries_map_dom(before, hash@);
                            assert(before[a].0@ == self.entries@[a].0@);
                        }
                    }
                }
            },
        }
    }

    /// Merge every scope of `another_list` into this list.
    pub fn merge_with(&mut self, another_list: AllowList)
        requires
            old(self).well_formed(),
            another_list.well_formed(),
        ensures
            final(self).well_formed(),
            final(self)@ == merged_lists(old(self)@, another_list@),
    {
        let mut rest = another_list.entries;
        let ghost all = rest@;
        let ghost mut done: int = 0;
        proof {
            assert(entries_map(all.take(0)) =~= Map::<Seq<u8>, ScopeView>::empty());
            assert(self@ =~= merged_lists(old(self)@, entries_map(all.take(0))));
        }
        while rest.len() > 0
            invariant
                keys_unique(all),
                0 <= done <= all.len(),
                rest@ == all.skip(done),
                self.well_formed(),
                self@ == merged_lists(old(self)@, entries_map(all.take(done))),
            decreases rest@.len(),
        {
            let (hash, scope) = rest.remove(0);
            let ghost before = self@;
            proof {
                assert(all[done] == (hash, scope));
                assert(rest@ =~= all.skip(done + 1));
                assert(all.take(done + 1).drop_last() =~= all.take(done));
                lemma_entries_map_dom(all.take(done), hash@);
                assert forall|i: int| 0 <= i < all.take(done).len() implies #[trigger] all.take(
                    done,
                )[i].0@ != hash@ by {
                    assert(all.take(done)[i] == all[i]);
                }
            }
            self.add_module_scope(hash, scope);
            proof {
                done = done + 1;
                assert(self@ =~= merged_lists(old(self)@, entries_map(all.take(done))));
            }
        }
        proof {
            assert(all.take(done) =~= all);
        }
    }
}

/// Merging allow lists keeps every module of the list merged into and
/// every permission it had.
pub proof fn lemma_merge_with_keeps(
    base: Map<Seq<u8>, ScopeView>,
    extra: Map<Seq<u8>, ScopeView>,
    k: Seq<u8>,
    i: int,
)
    requires
        base.dom().contains(k),
        base[k].allow.len() == crate::scope::api_count(),
        0 <= i < crate::scope::api_count(),
        base[k].allow[i],
    ensures
        merged_lists(base, extra).dom().contains(k),
        merged_lists(base, extra)[k].allow[i],
{
    if extra.dom().contains(k) {
        crate::scope::lemma_merge_keeps_permissions(base[k], extra[k], i);
    }
}

} // verus!
