use vstd::prelude::*;
use vstd::relations::{sorted_by, total_ordering};
use vstd::seq_lib::{lemma_sorted_unique, to_multiset_build, to_multiset_insert};

verus! {

/// `a` comes no later than `b` in the lexicographic order of bytes: a proper
/// prefix comes first, else the first byte that differs decides.
pub open spec fn bytes_le(a: Seq<u8>, b: Seq<u8>) -> bool
    decreases a.len(),
{
    if a.len() == 0 {
        true
    } else if b.len() == 0 {
        false
    } else if a[0] != b[0] {
        a[0] < b[0]
    } else {
        bytes_le(a.drop_first(), b.drop_first())
    }
}

/// The order of byte strings as a relation.
pub open spec fn bytes_order() -> spec_fn(Seq<u8>, Seq<u8>) -> bool {
    |a: Seq<u8>, b: Seq<u8>| bytes_le(a, b)
}

/// The bytes of each of `v`.
pub open spec fn byte_strings(v: Seq<Vec<u8>>) -> Seq<Seq<u8>> {
    v.map_values(|x: Vec<u8>| x@)
}

proof fn lemma_bytes_le_reflexive(a: Seq<u8>)
    ensures
        bytes_le(a, a),
    decreases a.len(),
{
    if a.len() > 0 {
        lemma_bytes_le_reflexive(a.drop_first());
    }
}

proof fn lemma_bytes_le_antisymmetric(a: Seq<u8>, b: Seq<u8>)
    requires
        bytes_le(a, b),
        bytes_le(b, a),
    ensures
        a == b,
    decreases a.len(),
{
    if a.len() > 0 && b.len() > 0 {
        lemma_bytes_le_antisymmetric(a.drop_first(), b.drop_first());
        assert(a =~= seq![a[0]] + a.drop_first());
        assert(b =~= seq![b[0]] + b.drop_first());
    } else {
        assert(a =~= b);
    }
}

proof fn lemma_bytes_le_transitive(a: Seq<u8>, b: Seq<u8>, c: Seq<u8>)
    requires
        bytes_le(a, b),
        bytes_le(b, c),
    ensures
        bytes_le(a, c),
    decreases a.len(),
{
    if a.len() > 0 && b.len() > 0 && c.len() > 0 && a[0] == b[0] && b[0] == c[0] {
        lemma_bytes_le_transitive(a.drop_first(), b.drop_first(), c.drop_first());
    }
}

proof fn lemma_bytes_le_total(a: Seq<u8>, b: Seq<u8>)
    ensures
        bytes_le(a, b) || bytes_le(b, a),
    decreases a.len(),
{
    if a.len() > 0 && b.len() > 0 && a[0] == b[0] {
        lemma_bytes_le_total(a.drop_first(), b.drop_first());
    }
}

/// The lexicographic order of byte strings is a total order.
pub proof fn lemma_bytes_order_total()
    ensures
        total_ordering(bytes_order()),
{
    let r = bytes_order();
    assert forall|x: Seq<u8>| #[trigger] r(x, x) by {
        lemma_bytes_le_reflexive(x);
    }
    assert forall|x: Seq<u8>, y: Seq<u8>| #[trigger] r(x, y) && #[trigger] r(y, x) implies x == y by {
        lemma_bytes_le_antisymmetric(x, y);
    }
    assert forall|x: Seq<u8>, y: Seq<u8>, z: Seq<u8>| #[trigger] r(x, y) && #[trigger] r(y, z) implies r(x, z) by {
        lemma_bytes_le_transitive(x, y, z);
    }
    assert forall|x: Seq<u8>, y: Seq<u8>| #[trigger] r(x, y) || #[trigger] r(y, x) by {
        lemma_bytes_le_total(x, y);
    }
}

/// Whether `a` comes no later than `b` in the lexicographic order of bytes.
pub fn bytes_le_exec(a: &[u8], b: &[u8]) -> (r: bool)
    ensures
        r == bytes_le(a@, b@),
{
    let mut i: usize = 0;
    assert(a@.skip(0) =~= a@);
    assert(b@.skip(0) =~= b@);
    while i < a.len() && i < b.len()
        invariant
            i <= a@.len(),
            i <= b@.len(),
            bytes_le(a@, b@) == bytes_le(a@.skip(i as int), b@.skip(i as int)),
        decreases a@.len() - i,
    {
        if a[i] != b[i] {
            return a[i] < b[i];
        }
        assert(a@.skip(i as int).drop_first() =~= a@.skip(i + 1));
        assert(b@.skip(i as int).drop_first() =~= b@.skip(i + 1));
        i = i + 1;
    }
    i == a.len()
}

/// `v` sorted in the lexicographic order of bytes.
pub fn sort_byte_strings(v: Vec<Vec<u8>>) -> (r: Vec<Vec<u8>>)
    ensures
        byte_strings(r@) == byte_strings(v@).sort_by(bytes_order()),
{
    let ghost leq = bytes_order();
    let ghost original = byte_strings(v@);
    let mut rest = v;
    let mut out: Vec<Vec<u8>> = Vec::new();
    proof {
        lemma_bytes_order_total();
        broadcast use vstd::multiset::group_multiset_axioms;
        assert(byte_strings(out@) =~= Seq::<Seq<u8>>::empty());
        vstd::seq_lib::to_multiset_len(byte_strings(out@));
        vstd::multiset::lemma_multiset_empty_len(byte_strings(out@).to_multiset());
        assert(byte_strings(out@).to_multiset() =~= vstd::multiset::Multiset::<Seq<u8>>::empty());
        assert(byte_strings(out@).to_multiset().add(byte_strings(rest@).to_multiset())
            =~= original.to_multiset());
    }
    loop
        invariant
            leq == bytes_order(),
            total_ordering(leq),
            sorted_by(byte_strings(out@), leq),
            byte_strings(out@).to_multiset().add(byte_strings(rest@).to_multiset())
                == original.to_multiset(),
        ensures
            rest@.len() == 0,
        decreases rest@.len(),
    {
        let ghost before_rest = byte_strings(rest@);
        let ghost before_out = byte_strings(out@);
        match rest.pop() {
            None => {
                break;
            },
            Some(x) => {
                proof {
                    assert(before_rest =~= byte_strings(rest@).push(x@));
                    to_multiset_build(byte_strings(rest@), x@);
                }
                let mut k: usize = 0;
                while k < out.len() && bytes_le_exec(out[k].as_slice(), x.as_slice())
                    invariant
                        k <= out@.len(),
                        byte_strings(out@) == before_out,
                        forall|j: int| 0 <= j < k ==> bytes_le(#[trigger] before_out[j], x@),
                    decreases out@.len() - k,
                {
                    k = k + 1;
                }
                proof {
                    if k < out@.len() {
                        assert forall|j: int| k <= j < before_out.len() implies bytes_le(
                            x@,
                            #[trigger] before_out[j],
                        ) by {
                            lemma_bytes_le_total(before_out[k as int], x@);
                            if bytes_le(before_out[j], x@) {
                                assert(leq(before_out[k as int], before_out[j]));
                                lemma_bytes_le_transitive(before_out[k as int], before_out[j], x@);
                            } else {
                                lemma_bytes_le_total(before_out[j], x@);
                            }
                        }
                    }
                }
                out.insert(k, x);
                proof {
                    let after = byte_strings(out@);
                    assert(after =~= before_out.insert(k as int, x@));
                    to_multiset_insert(before_out, k as int, x@);
                    assert forall|i: int, j: int| 0 <= i < j < after.len() implies #[trigger] leq(
                        after[i],
                        after[j],
                    ) by {
                        if j < k {
                            assert(leq(before_out[i], before_out[j]));
                        } else if j == k {
                            assert(bytes_le(before_out[i], x@));
                        } else if i < k {
                            assert(bytes_le(before_out[i], x@));
                            assert(bytes_le(x@, before_out[j - 1]));
                            lemma_bytes_le_transitive(before_out[i], x@, before_out[j - 1]);
                        } else if i == k {
                            assert(bytes_le(x@, before_out[j - 1]));
                        } else {
                            assert(leq(before_out[i - 1], before_out[j - 1]));
                        }
                    }
                    assert(after.to_multiset().add(byte_strings(rest@).to_multiset())
                        =~= before_out.to_multiset().add(before_rest.to_multiset()));
                }
            },
        }
    }
    proof {
        assert(byte_strings(rest@) =~= Seq::<Seq<u8>>::empty());
        assert(byte_strings(out@).to_multiset() =~= original.to_multiset());
        original.lemma_sort_by_ensures(leq);
        lemma_sorted_unique(byte_strings(out@), original.sort_by(leq), leq);
    }
    out
}

} // verus!
