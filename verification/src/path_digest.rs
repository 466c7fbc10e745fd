use vstd::prelude::*;

use crate::encodings::copy_bytes;
use crate::hash::{digest_hash, PackageHasher};
use crate::path_order::{byte_strings, bytes_order, lemma_bytes_order_total, sort_byte_strings};

verus! {

/// An entry waiting to be hashed: its path and whether its name is hashed.
pub type PendingEntry = (Seq<u8>, bool);

/// The entries that a folder listing adds to the walk: the listed paths in
/// byte order, names included. Entries of one folder share its path, so
/// this is the order of their names, as paths compare.
pub open spec fn listed_entries(entries: Seq<Seq<u8>>) -> Seq<PendingEntry> {
    entries.sort_by(bytes_order()).map_values(|p: Seq<u8>| (p, true))
}

/// The order in which a folder listing comes does not change what the walk
/// adds: listings with the same entries add the same entries, in the same
/// order.
pub proof fn lemma_listing_order_irrelevant(a: Seq<Seq<u8>>, b: Seq<Seq<u8>>)
    requires
        a.to_multiset() == b.to_multiset(),
    ensures
        listed_entries(a) == listed_entries(b),
{
    lemma_bytes_order_total();
    a.lemma_sort_by_ensures(bytes_order());
    b.lemma_sort_by_ensures(bytes_order());
    vstd::seq_lib::lemma_sorted_unique(a.sort_by(bytes_order()), b.sort_by(bytes_order()), bytes_order());
}

/// The hash of a file or folder, computed by walking it breadth first: the
/// walk starts at the path itself, whose name is left out; each entry taken
/// from the front feeds its name (when it is to be included) and then its
/// content for a file, or adds its folder's listing to the back.
pub struct PathDigest {
    pending: Vec<(Vec<u8>, bool)>,
    next: usize,
    hasher: PackageHasher,
}

impl PathDigest {
    /// The entries still to visit, front first.
    pub closed spec fn pending_spec(&self) -> Seq<PendingEntry> {
        self.pending@.subrange(self.next as int, self.pending@.len() as int).map_values(
            |e: (Vec<u8>, bool)| (e.0@, e.1),
        )
    }

    /// The bytes fed to the hasher so far.
    pub closed spec fn fed(&self) -> Seq<u8> {
        self.hasher.input()
    }

    /// The walk's bookkeeping is consistent.
    pub closed spec fn well_formed(&self) -> bool {
        self.next <= self.pending@.len()
    }

    /// A walk that starts at `path`.
    pub fn new(path: Vec<u8>) -> (r: PathDigest)
        ensures
            r.well_formed(),
            r.pending_spec() == seq![(path@, false)],
            r.fed() == Seq::<u8>::empty(),
    {
        let mut pending: Vec<(Vec<u8>, bool)> = Vec::new();
        pending.push((path, false));
        let r = PathDigest { pending, next: 0, hasher: PackageHasher::new() };
        assert(r.pending_spec() =~= seq![(path@, false)]);
        r
    }

    /// Take the entry at the front: its path and whether its name is hashed;
    /// `None` when the walk is over.
    pub fn next_entry(&mut self) -> (r: Option<(Vec<u8>, bool)>)
        requires
            old(self).well_formed(),
        ensures
            final(self).well_formed(),
            final(self).fed() == old(self).fed(),
            old(self).pending_spec().len() == 0 ==> r is None && final(self).pending_spec()
                == old(self).pending_spec(),
            old(self).pending_spec().len() > 0 ==> (r matches Some(e) && (e.0@, e.1)
                == old(self).pending_spec()[0] && final(self).pending_spec()
                == old(self).pending_spec().drop_first()),
    {
        if self.next >= self.pending.len() {
            return None;
        }
        let path = copy_bytes(self.pending[self.next].0.as_slice());
        let include_name = self.pending[self.next].1;
        let ghost before = self.pending_spec();
        self.next = self.next + 1;
        assert(self.pending_spec() =~= before.drop_first());
        Some((path, include_name))
    }

    /// Visit the entry just taken: its name is fed when the entry includes
    /// its name and the name is known.
    pub fn visit(&mut self, include_name: bool, name: Option<&[u8]>)
        requires
            old(self).well_formed(),
        ensures
            final(self).well_formed(),
            final(self).pending_spec() == old(self).pending_spec(),
            final(self).fed() == old(self).fed() + (if include_name && name is Some {
                name->Some_0@
            } else {
                Seq::<u8>::empty()
            }),
    {
        if include_name {
            match name {
                Some(n) => {
                    self.hasher.update(n);
                },
                None => {
                    assert(self.fed() =~= self.fed() + Seq::<u8>::empty());
                },
            }
        } else {
            assert(self.fed() =~= self.fed() + Seq::<u8>::empty());
        }
    }

    /// Feed a piece of the content of a file entry.
    pub fn feed_content(&mut self, chunk: &[u8])
        requires
            old(self).well_formed(),
        ensures
            final(self).well_formed(),
            final(self).pending_spec() == old(self).pending_spec(),
            final(self).fed() == old(self).fed() + chunk@,
    {
        self.hasher.update(chunk);
    }

    /// Add the listing of a folder entry to the back of the walk.
    pub fn on_folder(&mut self, entries: Vec<Vec<u8>>)
        requires
            old(self).well_formed(),
        ensures
            final(self).well_formed(),
            final(self).fed() == old(self).fed(),
            final(self).pending_spec() == old(self).pending_spec() + listed_entries(
                byte_strings(entries@),
            ),
    {
        let sorted = sort_byte_strings(entries);
        let ghost start = self.pending_spec();
        let ghost order = byte_strings(sorted@);
        let mut i: usize = 0;
        while i < sorted.len()
            invariant
                self.next <= self.pending@.len(),
                i <= sorted@.len(),
                order == byte_strings(sorted@),
                self.pending_spec() =~= start + order.subrange(0, i as int).map_values(
                    |p: Seq<u8>| (p, true),
                ),
                self.hasher.input() == old(self).hasher.input(),
            decreases sorted@.len() - i,
        {
            let p = copy_bytes(sorted[i].as_slice());
            let ghost before = self.pending_spec();
            self.pending.push((p, true));
            assert(self.pending_spec() =~= before.push((order[i as int], true)));
            assert(order.subrange(0, i + 1) =~= order.subrange(0, i as int).push(order[i as int]));
            i = i + 1;
        }
        assert(order.subrange(0, i as int) =~= order);
    }

    /// The hash of everything fed.
    pub fn finish(&self) -> (r: crate::hash::Hash)
        ensures
            r@ == digest_hash(self.fed()),
    {
        self.hasher.finish()
    }
}

} // verus!
