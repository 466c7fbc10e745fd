use vstd::prelude::*;

use crate::text::{
    append_chars, find_chars_from, find_from, join, join_chars, lemma_find_from_bounds,
    split_chars, split_str, sub_chars,
};

verus! {

/// `s` with every occurrence of `p`, found left to right, replaced by `r`
/// (as `str::replace` does).
pub open spec fn replace_all(s: Seq<char>, p: Seq<char>, r: Seq<char>) -> Seq<char> {
    join(split_str(s, p), r)
}

/// `s` with every occurrence of the non-empty `p` replaced by `r`.
pub fn replace_chars(s: &[char], p: &[char], r: &[char]) -> (out: Vec<char>)
    requires
        p@.len() > 0,
    ensures
        out@ == replace_all(s@, p@, r@),
{
    let pieces = split_chars(s, p);
    let n = pieces.len();
    assert(pieces@.subrange(0, n as int).map_values(|v: Vec<char>| v@) =~= split_str(s@, p@));
    join_chars(&pieces, 0, n, r)
}

/// Pieces kept from `parts[i..n]` when every piece followed by `..` is
/// dropped together with that `..`.
pub open spec fn clean_from(parts: Seq<Seq<char>>, i: int, n: int) -> Seq<Seq<char>>
    decreases n + 1 - i,
{
    if i >= n || i < 0 || n >= parts.len() {
        Seq::empty()
    } else if parts[i + 1] == seq!['.', '.'] {
        clean_from(parts, i + 2, n)
    } else {
        seq![parts[i]] + clean_from(parts, i + 1, n)
    }
}

/// The path of a URL without scheme, normalized: backslashes become
/// slashes, `/./` and `//` collapse to `/`, and a segment followed by `..`
/// is dropped together with it. The last segment is always kept.
pub open spec fn normalize_url_path(url: Seq<char>) -> Seq<char> {
    let u1 = replace_all(url, seq!['\\'], seq!['/']);
    let u2 = replace_all(u1, seq!['/', '.', '/'], seq!['/']);
    let u3 = replace_all(u2, seq!['/', '/'], seq!['/']);
    let parts = split_str(u3, seq!['/']);
    let n = parts.len() - 1;
    join(clean_from(parts, 0, n) + seq![parts[n]], seq!['/'])
}

/// Normalized form of a URL: the scheme, if any, is kept and the rest
/// normalized.
pub open spec fn normalize_url(url: Seq<char>) -> Seq<char> {
    let k = find_from(url, seq![':', '/', '/'], 0);
    if k < 0 {
        normalize_url_path(url)
    } else {
        url.subrange(0, k) + seq![':', '/', '/'] + normalize_url_path(
            url.subrange(k + 3, url.len() as int),
        )
    }
}

proof fn lemma_split_nonempty(s: Seq<char>, p: Seq<char>, start: int)
    requires
        p.len() > 0,
        0 <= start <= s.len(),
    ensures
        crate::text::split_from(s, p, start).len() > 0,
    decreases s.len() - start,
{
    lemma_find_from_bounds(s, p, start);
    let k = find_from(s, p, start);
    if k >= 0 {
        lemma_split_nonempty(s, p, k + p.len());
    }
}

/// Normalized path of a URL without scheme.
fn normalize_path_chars(url: &[char]) -> (r: Vec<char>)
    ensures
        r@ == normalize_url_path(url@),
{
    let bs: Vec<char> = vec!['\\'];
    let sl: Vec<char> = vec!['/'];
    let dot: Vec<char> = vec!['/', '.', '/'];
    let dbl: Vec<char> = vec!['/', '/'];
    assert(bs@ =~= seq!['\\']);
    assert(sl@ =~= seq!['/']);
    assert(dot@ =~= seq!['/', '.', '/']);
    assert(dbl@ =~= seq!['/', '/']);
    let u1 = replace_chars(url, bs.as_slice(), sl.as_slice());
    let u2 = replace_chars(u1.as_slice(), dot.as_slice(), sl.as_slice());
    let u3 = replace_chars(u2.as_slice(), dbl.as_slice(), sl.as_slice());
    let parts = split_chars(u3.as_slice(), sl.as_slice());
    let ghost ps = split_str(u3@, seq!['/']);
    proof {
        lemma_split_nonempty(u3@, seq!['/'], 0);
    }
    let plen = parts.len();
    let n = plen - 1;
    let mut clean: Vec<Vec<char>> = Vec::new();
    let mut i: usize = 0;
    while i < n
        invariant
            parts@.len() == ps.len(),
            plen == ps.len(),
            n + 1 == plen,
            forall|k: int| 0 <= k < parts@.len() ==> #[trigger] parts@[k]@ == ps[k],
            i <= n + 1,
            clean@.map_values(|v: Vec<char>| v@) + clean_from(ps, i as int, n as int) == clean_from(
                ps,
                0,
                n as int,
            ),
        decreases n + 1 - i,
    {
        let next = &parts[i + 1];
        if next.len() == 2 && next[0] == '.' && next[1] == '.' {
            proof {
                assert(next@ =~= seq!['.', '.']);
            }
            i = i + 2;
        } else {
            proof {
                if ps[i + 1] == seq!['.', '.'] {
                    assert(next@[0] == '.' && next@[1] == '.');
                }
            }
            let ghost before = clean@.map_values(|v: Vec<char>| v@);
            clean.push(parts[i].clone());
            proof {
                assert(clean@.map_values(|v: Vec<char>| v@) =~= before.push(ps[i as int]));
                assert(before + clean_from(ps, i as int, n as int) =~= before.push(ps[i as int])
                    + clean_from(ps, i + 1, n as int));
            }
            i = i + 1;
        }
    }
    proof {
        assert(clean_from(ps, i as int, n as int) =~= Seq::<Seq<char>>::empty());
    }
    let ghost cleaned = clean@.map_values(|v: Vec<char>| v@);
    clean.push(parts[n].clone());
    let m = clean.len();
    proof {
        assert(clean@.subrange(0, m as int).map_values(|v: Vec<char>| v@) =~= cleaned + seq![ps[n as int]]);
    }
    join_chars(&clean, 0, m, sl.as_slice())
}

/// Normalized form of a URL.
pub fn normalize_url_chars(url: &[char]) -> (r: Vec<char>)
    ensures
        r@ == normalize_url(url@),
{
    let sep: Vec<char> = vec![':', '/', '/'];
    assert(sep@ =~= seq![':', '/', '/']);
    proof {
        lemma_find_from_bounds(url@, sep@, 0);
    }
    match find_chars_from(url, sep.as_slice(), 0) {
        None => normalize_path_chars(url),
        Some(k) => {
            let n = url.len();
            assert(k + 3 <= n);
            let mut out = sub_chars(url, 0, k);
            append_chars(&mut out, sep.as_slice());
            let rest = sub_chars(url, k + 3, n);
            let path = normalize_path_chars(rest.as_slice());
            append_chars(&mut out, path.as_slice());
            out
        },
    }
}

} // verus!
