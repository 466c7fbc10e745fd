use vstd::prelude::*;

verus! {

/// `i` is the first index of `s` whose key is `k`.
pub open spec fn first_key_at<K, V>(s: Seq<(K, V)>, k: K, i: int) -> bool {
    &&& 0 <= i < s.len()
    &&& s[i].0 == k
    &&& forall|j: int| 0 <= j < i ==> #[trigger] s[j].0 != k
}

/// Index of the first entry of `s` with key `k`, or -1.
pub open spec fn key_index<K, V>(s: Seq<(K, V)>, k: K) -> int {
    if exists|i: int| first_key_at(s, k, i) {
        choose|i: int| first_key_at(s, k, i)
    } else {
        -1
    }
}

/// Value of the first entry of `s` with key `k`.
pub open spec fn lookup<K, V>(s: Seq<(K, V)>, k: K) -> Option<V> {
    let i = key_index(s, k);
    if i >= 0 {
        Some(s[i].1)
    } else {
        None
    }
}

/// `s` with the value of key `k` set to `v`: the entry is replaced where
/// `k` already has one, else appended.
pub open spec fn upsert<K, V>(s: Seq<(K, V)>, k: K, v: V) -> Seq<(K, V)> {
    let i = key_index(s, k);
    if i >= 0 {
        s.update(i, (k, v))
    } else {
        s.push((k, v))
    }
}

/// The first index of a key is unique.
pub proof fn lemma_first_key_unique<K, V>(s: Seq<(K, V)>, k: K, i: int, j: int)
    requires
        first_key_at(s, k, i),
        first_key_at(s, k, j),
    ensures
        i == j,
{
    if i < j {
        assert(s[i].0 != k);
    } else if j < i {
        assert(s[j].0 != k);
    }
}

/// The key index is the first entry with the key, or -1 when none has it.
pub proof fn lemma_key_index<K, V>(s: Seq<(K, V)>, k: K)
    ensures
        key_index(s, k) >= 0 ==> first_key_at(s, k, key_index(s, k)),
        key_index(s, k) < 0 ==> forall|j: int| 0 <= j < s.len() ==> #[trigger] s[j].0 != k,
        key_index(s, k) >= -1,
{
    if !exists|i: int| first_key_at(s, k, i) {
        assert forall|j: int| 0 <= j < s.len() implies #[trigger] s[j].0 != k by {
            if s[j].0 == k {
                lemma_some_first(s, k, j);
            }
        }
    }
}

/// If some entry has key `k`, a first one exists.
proof fn lemma_some_first<K, V>(s: Seq<(K, V)>, k: K, j: int)
    requires
        0 <= j < s.len(),
        s[j].0 == k,
    ensures
        exists|i: int| first_key_at(s, k, i),
    decreases j,
{
    if forall|m: int| 0 <= m < j ==> #[trigger] s[m].0 != k {
        assert(first_key_at(s, k, j));
    } else {
        let m = choose|m: int| 0 <= m < j && #[trigger] s[m].0 == k;
        lemma_some_first(s, k, m);
    }
}

/// A property of every entry holds after an upsert of an entry that has it.
pub proof fn lemma_upsert_all<K, V>(s: Seq<(K, V)>, k: K, v: V, p: spec_fn((K, V)) -> bool)
    requires
        forall|i: int| 0 <= i < s.len() ==> #[trigger] p(s[i]),
        p((k, v)),
    ensures
        forall|i: int| 0 <= i < upsert(s, k, v).len() ==> #[trigger] p(upsert(s, k, v)[i]),
{
    lemma_key_index(s, k);
}

/// A looked-up value comes from an entry with that key.
pub proof fn lemma_lookup_entry<K, V>(s: Seq<(K, V)>, k: K)
    requires
        lookup(s, k) is Some,
    ensures
        0 <= key_index(s, k) < s.len(),
        s[key_index(s, k)] == (k, lookup(s, k)->Some_0),
{
    lemma_key_index(s, k);
}

/// A key found at index `i` with no earlier entry for it has index `i`.
pub proof fn lemma_key_index_is<K, V>(s: Seq<(K, V)>, k: K, i: int)
    requires
        first_key_at(s, k, i),
    ensures
        key_index(s, k) == i,
{
    let c = choose|c: int| first_key_at(s, k, c);
    lemma_first_key_unique(s, k, i, c);
}

/// What an upsert does to lookups: the key set gets the new value, other
/// keys keep theirs.
pub proof fn lemma_lookup_upsert<K, V>(s: Seq<(K, V)>, k: K, v: V, k2: K)
    ensures
        lookup(upsert(s, k, v), k2) == if k2 == k {
            Some(v)
        } else {
            lookup(s, k2)
        },
{
    let u = upsert(s, k, v);
    lemma_key_index(s, k);
    lemma_key_index(s, k2);
    lemma_key_index(u, k2);
    let i = key_index(s, k);
    if k2 == k {
        if i >= 0 {
            assert(first_key_at(u, k, i));
            lemma_key_index_is(u, k, i);
        } else {
            assert(first_key_at(u, k, s.len() as int));
            lemma_key_index_is(u, k, s.len() as int);
        }
    } else {
        let i2 = key_index(s, k2);
        if i2 >= 0 {
            assert(first_key_at(u, k2, i2));
            lemma_key_index_is(u, k2, i2);
        } else {
            assert forall|j: int| 0 <= j < u.len() implies #[trigger] u[j].0 != k2 by {
                if j < s.len() && j != i {
                    assert(u[j] == s[j]);
                }
            }
            if key_index(u, k2) >= 0 {
                assert(u[key_index(u, k2)].0 == k2);
            }
        }
    }
}

/// The values of `s` mapped by `f`.
pub open spec fn map_vals<K, V, W>(s: Seq<(K, V)>, f: spec_fn(V) -> W) -> Seq<(K, W)> {
    s.map_values(|p: (K, V)| (p.0, f(p.1)))
}

/// Mapping the values does not change where keys are.
pub proof fn lemma_key_index_map_vals<K, V, W>(s: Seq<(K, V)>, f: spec_fn(V) -> W, k: K)
    ensures
        key_index(map_vals(s, f), k) == key_index(s, k),
{
    let m = map_vals(s, f);
    lemma_key_index(s, k);
    lemma_key_index(m, k);
    let i = key_index(s, k);
    if i >= 0 {
        assert(first_key_at(m, k, i));
        lemma_key_index_is(m, k, i);
    } else {
        if key_index(m, k) >= 0 {
            assert(s[key_index(m, k)].0 == k);
        }
    }
}

/// Setting a key and then mapping the values is mapping and then setting.
pub proof fn lemma_upsert_map_vals<K, V, W>(s: Seq<(K, V)>, k: K, v: V, f: spec_fn(V) -> W)
    ensures
        map_vals(upsert(s, k, v), f) == upsert(map_vals(s, f), k, f(v)),
{
    lemma_key_index_map_vals(s, f, k);
    assert(map_vals(upsert(s, k, v), f) =~= upsert(map_vals(s, f), k, f(v)));
}

/// Index of the first entry of `v` whose text key is `k`.
pub fn text_key_index<X>(v: &Vec<(String, X)>, k: &str) -> (r: Option<usize>)
    ensures
        r matches Some(i) ==> i < v@.len() && first_key_at(text_keys(v@), k@, i as int),
        r is None ==> key_index(text_keys(v@), k@) < 0,
{
    let ghost s = text_keys(v@);
    let mut i: usize = 0;
    while i < v.len()
        invariant
            s == text_keys(v@),
            i <= v@.len(),
            forall|j: int| 0 <= j < i ==> #[trigger] s[j].0 != k@,
        decreases v@.len() - i,
    {
        if crate::text::str_eq(v[i].0.as_str(), k) {
            assert(first_key_at(s, k@, i as int));
            return Some(i);
        }
        i = i + 1;
    }
    proof {
        lemma_key_index(s, k@);
        if key_index(s, k@) >= 0 {
            assert(s[key_index(s, k@)].0 == k@);
        }
    }
    None
}

/// The entries of `v` keyed by their texts.
pub open spec fn text_keys<X>(v: Seq<(String, X)>) -> Seq<(Seq<char>, X)> {
    v.map_values(|p: (String, X)| (p.0@, p.1))
}

} // verus!

verus! {

/// The entries of `v` keyed by the bytes of their hashes.
pub open spec fn hash_keys<X>(v: Seq<(crate::hash::Hash, X)>) -> Seq<(Seq<u8>, X)> {
    v.map_values(|p: (crate::hash::Hash, X)| (p.0@, p.1))
}

/// Index of the first entry of `v` whose hash key is `k`.
pub fn hash_key_index<X>(v: &Vec<(crate::hash::Hash, X)>, k: &crate::hash::Hash) -> (r: Option<
    usize,
>)
    ensures
        r matches Some(i) ==> i < v@.len() && first_key_at(hash_keys(v@), k@, i as int),
        r is None ==> key_index(hash_keys(v@), k@) < 0,
{
    let ghost s = hash_keys(v@);
    let mut i: usize = 0;
    while i < v.len()
        invariant
            s == hash_keys(v@),
            i <= v@.len(),
            forall|j: int| 0 <= j < i ==> #[trigger] s[j].0 != k@,
        decreases v@.len() - i,
    {
        if v[i].0.same(k) {
            assert(first_key_at(s, k@, i as int));
            return Some(i);
        }
        i = i + 1;
    }
    proof {
        lemma_key_index(s, k@);
        if key_index(s, k@) >= 0 {
            assert(s[key_index(s, k@)].0 == k@);
        }
    }
    None
}

/// Set the value of text key `k` in `v`.
pub fn upsert_text<X>(v: &mut Vec<(String, X)>, k: String, x: X)
    ensures
        text_keys(final(v)@) == upsert(text_keys(old(v)@), k@, x),
{
    match text_key_index(v, k.as_str()) {
        Some(i) => {
            proof {
                lemma_key_index_is(text_keys(v@), k@, i as int);
            }
            let ghost before = v@;
            let _ = v.remove(i);
            v.insert(i, (k, x));
            assert(text_keys(v@) =~= text_keys(before).update(i as int, (k@, x)));
        },
        None => {
            let ghost before = v@;
            v.push((k, x));
            assert(text_keys(v@) =~= text_keys(before).push((k@, x)));
        },
    }
}

/// Set the value of hash key `k` in `v`.
pub fn upsert_hash<X>(v: &mut Vec<(crate::hash::Hash, X)>, k: crate::hash::Hash, x: X)
    ensures
        hash_keys(final(v)@) == upsert(hash_keys(old(v)@), k@, x),
{
    match hash_key_index(v, &k) {
        Some(i) => {
            proof {
                lemma_key_index_is(hash_keys(v@), k@, i as int);
            }
            let ghost before = v@;
            let _ = v.remove(i);
            v.insert(i, (k, x));
            assert(hash_keys(v@) =~= hash_keys(before).update(i as int, (k@, x)));
        },
        None => {
            let ghost before = v@;
            v.push((k, x));
            assert(hash_keys(v@) =~= hash_keys(before).push((k@, x)));
        },
    }
}

} // verus!
