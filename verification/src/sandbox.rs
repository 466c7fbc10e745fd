use vstd::prelude::*;

use crate::scope::{ModuleScope, texts};
use crate::text::{chars_of, split_chars, split_str};

verus! {

/// Whether a piece between separators is left out of a path's components:
/// empty pieces come from repeated or trailing separators, and `.` is
/// normalized away.
pub open spec fn skipped_piece(w: Seq<char>) -> bool {
    w.len() == 0 || w == seq!['.']
}

/// The pieces of `ws` that name components.
pub open spec fn normal_pieces(ws: Seq<Seq<char>>) -> Seq<Seq<char>>
    decreases ws.len(),
{
    if ws.len() == 0 {
        Seq::empty()
    } else {
        let rest = normal_pieces(ws.drop_last());
        if skipped_piece(ws.last()) {
            rest
        } else {
            rest.push(ws.last())
        }
    }
}

/// The component a path starts with, if any: the root for an absolute path,
/// the current directory for one that starts with `.`.
pub open spec fn leading_component(s: Seq<char>) -> Seq<Seq<char>> {
    if s.len() > 0 && s[0] == '/' {
        seq![seq!['/']]
    } else if s == seq!['.'] || (s.len() >= 2 && s[0] == '.' && s[1] == '/') {
        seq![seq!['.']]
    } else {
        Seq::empty()
    }
}

/// Components of a Unix path, as `Path::components` yields them: the root
/// (`/`) or a leading `.`, then the names between separators; repeated
/// separators, trailing separators and other `.` are left out.
pub open spec fn path_components(s: Seq<char>) -> Seq<Seq<char>> {
    leading_component(s) + normal_pieces(split_str(s, seq!['/']))
}

/// The components of `parent` and `child` agree as far as both go (the
/// shorter path is compared as a prefix of the longer one).
pub open spec fn components_agree(parent: Seq<Seq<char>>, child: Seq<Seq<char>>) -> bool {
    forall|i: int| 0 <= i < parent.len() && i < child.len() ==> #[trigger] parent[i] == child[i]
}

/// `parent` is taken to contain `child`: their components agree.
pub open spec fn path_is_parent_of(parent: Seq<char>, child: Seq<char>) -> bool {
    components_agree(path_components(parent), path_components(child))
}

/// Components of a path.
pub fn components(path: &str) -> (r: Vec<Vec<char>>)
    ensures
        r@.len() == path_components(path@).len(),
        forall|i: int| 0 <= i < r@.len() ==> #[trigger] r@[i]@ == path_components(path@)[i],
{
    let cs = chars_of(path);
    let sep: Vec<char> = vec!['/'];
    assert(sep@ =~= seq!['/']);
    let pieces = split_chars(cs.as_slice(), sep.as_slice());
    let ghost ws = split_str(path@, seq!['/']);
    let mut out: Vec<Vec<char>> = Vec::new();
    let ghost lead = leading_component(path@);
    if cs.len() > 0 && cs[0] == '/' {
        out.push(vec!['/']);
    } else if (cs.len() == 1 && cs[0] == '.') || (cs.len() >= 2 && cs[0] == '.' && cs[1] == '/') {
        out.push(vec!['.']);
    }
    proof {
        if cs@.len() == 1 && cs@[0] == '.' {
            assert(path@ =~= seq!['.']);
        }
        assert(out@.len() == lead.len());
        assert forall|i: int| 0 <= i < out@.len() implies #[trigger] out@[i]@ == lead[i] by {
            if cs@.len() > 0 && cs@[0] == '/' {
                assert(out@[i]@ =~= seq!['/']);
            } else {
                assert(out@[i]@ =~= seq!['.']);
            }
        }
        assert(ws.take(0) =~= Seq::<Seq<char>>::empty());
    }
    let mut i: usize = 0;
    while i < pieces.len()
        invariant
            pieces@.len() == ws.len(),
            forall|k: int| 0 <= k < pieces@.len() ==> #[trigger] pieces@[k]@ == ws[k],
            i <= pieces@.len(),
            out@.len() == lead.len() + normal_pieces(ws.take(i as int)).len(),
            forall|k: int|
                0 <= k < out@.len() ==> #[trigger] out@[k]@ == (lead + normal_pieces(
                    ws.take(i as int),
                ))[k],
        decreases pieces@.len() - i,
    {
        let piece = &pieces[i];
        let skip = piece.len() == 0 || (piece.len() == 1 && piece[0] == '.');
        proof {
            assert(ws.take(i + 1).drop_last() =~= ws.take(i as int));
            assert(ws.take(i + 1).last() == ws[i as int]);
            if piece@.len() == 1 && piece@[0] == '.' {
                assert(piece@ =~= seq!['.']);
            }
            if piece@ == seq!['.'] {
                assert(piece@.len() == 1 && piece@[0] == '.');
            }
        }
        if !skip {
            out.push(pieces[i].clone());
        }
        proof {
            assert(normal_pieces(ws.take(i + 1)) == if skipped_piece(ws[i as int]) {
                normal_pieces(ws.take(i as int))
            } else {
                normal_pieces(ws.take(i as int)).push(ws[i as int])
            });
        }
        i = i + 1;
    }
    proof {
        assert(ws.take(i as int) =~= ws);
    }
    out
}

/// Whether the components of `parent` and `child` agree as far as both go.
fn components_agree_exec(parent: &Vec<Vec<char>>, child: &Vec<Vec<char>>) -> (r: bool)
    ensures
        r == components_agree(parent@.map_values(|c: Vec<char>| c@), child@.map_values(
            |c: Vec<char>| c@,
        )),
{
    let ghost p = parent@.map_values(|c: Vec<char>| c@);
    let ghost c = child@.map_values(|c: Vec<char>| c@);
    let mut i: usize = 0;
    while i < parent.len() && i < child.len()
        invariant
            i <= parent@.len(),
            i <= child@.len(),
            p == parent@.map_values(|c: Vec<char>| c@),
            c == child@.map_values(|c: Vec<char>| c@),
            forall|k: int| 0 <= k < i ==> #[trigger] p[k] == c[k],
        decreases parent@.len() - i,
    {
        if !crate::text::chars_eq(parent[i].as_slice(), child[i].as_slice()) {
            assert(p[i as int] != c[i as int]);
            return false;
        }
        i = i + 1;
    }
    true
}

/// Whether `parent` is taken to contain `child`.
pub fn is_parent_of(parent: &str, child: &str) -> (r: bool)
    ensures
        r == path_is_parent_of(parent@, child@),
{
    let p = components(parent);
    let c = components(child);
    proof {
        assert(p@.map_values(|x: Vec<char>| x@) =~= path_components(parent@));
        assert(c@.map_values(|x: Vec<char>| x@) =~= path_components(child@));
    }
    components_agree_exec(&p, &c)
}

/// Some path of `paths` is taken to contain `p`.
pub open spec fn any_parent(paths: Seq<Seq<char>>, p: Seq<char>) -> bool {
    exists|i: int| 0 <= i < paths.len() && #[trigger] path_is_parent_of(paths[i], p)
}

/// Whether some path of `paths` is taken to contain `p`.
fn any_is_parent(paths: &Vec<String>, p: &str) -> (r: bool)
    ensures
        r == any_parent(texts(paths@), p@),
{
    let mut i: usize = 0;
    while i < paths.len()
        invariant
            i <= paths@.len(),
            forall|k: int| 0 <= k < i ==> !#[trigger] path_is_parent_of(texts(paths@)[k], p@),
        decreases paths@.len() - i,
    {
        if is_parent_of(paths[i].as_str(), p) {
            assert(path_is_parent_of(texts(paths@)[i as int], p@));
            return true;
        }
        i = i + 1;
    }
    false
}

/// Whether the texts of `v` hold `s`.
pub fn texts_contain(v: &Vec<String>, s: &str) -> (r: bool)
    ensures
        r == texts(v@).contains(s@),
{
    let mut i: usize = 0;
    while i < v.len()
        invariant
            i <= v@.len(),
            forall|k: int| 0 <= k < i ==> #[trigger] texts(v@)[k] != s@,
        decreases v@.len() - i,
    {
        if crate::text::str_eq(v[i].as_str(), s) {
            assert(texts(v@)[i as int] == s@);
            return true;
        }
        i = i + 1;
    }
    false
}

/// Paths that the API never gives access to.
#[derive(Default, Debug, Clone)]
pub struct ApiContext {
    /// Paths that must never be accessed, for example the secrets database.
    pub private_paths: Vec<String>,
}

impl ApiContext {
    /// Whether `path` may be accessed: no private path contains it.
    pub fn can_access_path(&self, path: &str) -> (r: bool)
        ensures
            r == !any_parent(texts(self.private_paths@), path@),
    {
        !any_is_parent(&self.private_paths, path)
    }
}

/// What a module may touch.
#[derive(Debug, Clone)]
pub struct ModuleContext {
    /// Temporary directory; always accessible to the module.
    pub temp_dir: String,
    /// The module's private directory; always accessible to the module.
    pub module_dir: String,
    /// Directory shared by all modules.
    pub persistent_dir: String,
    /// The module's permissions.
    pub scope: ModuleScope,
}

/// `p` lies in one of the directories every module may use.
pub open spec fn in_own_dirs(ctx: ModuleContext, p: Seq<char>) -> bool {
    ||| path_is_parent_of(ctx.temp_dir@, p)
    ||| path_is_parent_of(ctx.module_dir@, p)
    ||| path_is_parent_of(ctx.persistent_dir@, p)
}

/// The module may read `p`: it is in its own directories or in a sandbox
/// path it may read or write.
pub open spec fn may_read(ctx: ModuleContext, p: Seq<char>) -> bool {
    in_own_dirs(ctx, p) || any_parent(ctx.scope@.read_paths + ctx.scope@.write_paths, p)
}

/// The module may write `p`: it is in its own directories or in a sandbox
/// path it may write.
pub open spec fn may_write(ctx: ModuleContext, p: Seq<char>) -> bool {
    in_own_dirs(ctx, p) || any_parent(ctx.scope@.write_paths, p)
}

/// Whatever a module may write it may read.
pub proof fn lemma_write_implies_read(ctx: ModuleContext, p: Seq<char>)
    ensures
        may_write(ctx, p) ==> may_read(ctx, p),
{
    let r = ctx.scope@.read_paths;
    let w = ctx.scope@.write_paths;
    if any_parent(w, p) {
        let i = choose|i: int| 0 <= i < w.len() && #[trigger] path_is_parent_of(w[i], p);
        assert((r + w)[r.len() + i] == w[i]);
        assert(path_is_parent_of((r + w)[r.len() + i], p));
    }
}

impl ModuleContext {
    /// Whether the module may read `path`.
    pub fn can_read_path(&self, path: &str) -> (r: bool)
        ensures
            r == may_read(*self, path@),
    {
        if is_parent_of(self.temp_dir.as_str(), path) || is_parent_of(self.module_dir.as_str(), path)
            || is_parent_of(self.persistent_dir.as_str(), path) {
            return true;
        }
        let ghost r = texts(self.scope.sandbox_read_paths@);
        let ghost w = texts(self.scope.sandbox_write_paths@);
        if any_is_parent(&self.scope.sandbox_read_paths, path) {
            proof {
                let i = choose|i: int| 0 <= i < r.len() && #[trigger] path_is_parent_of(r[i], path@);
                assert((r + w)[i] == r[i]);
            }
            return true;
        }
        if any_is_parent(&self.scope.sandbox_write_paths, path) {
            proof {
                let i = choose|i: int| 0 <= i < w.len() && #[trigger] path_is_parent_of(w[i], path@);
                assert((r + w)[r.len() + i] == w[i]);
            }
            return true;
        }
        proof {
            assert forall|i: int| 0 <= i < (r + w).len() implies !#[trigger] path_is_parent_of(
                (r + w)[i],
                path@,
            ) by {
                if i < r.len() {
                    assert((r + w)[i] == r[i]);
                } else {
                    assert((r + w)[i] == w[i - r.len()]);
                }
            }
        }
        false
    }

    /// Whether the module may write `path`.
    pub fn can_write_path(&self, path: &str) -> (r: bool)
        ensures
            r == may_write(*self, path@),
    {
        if is_parent_of(self.temp_dir.as_str(), path) || is_parent_of(self.module_dir.as_str(), path)
            || is_parent_of(self.persistent_dir.as_str(), path) {
            return true;
        }
        any_is_parent(&self.scope.sandbox_write_paths, path)
    }

    /// Whether the module may read the secrets container of this name.
    pub fn can_read_secrets_container(&self, container: &str) -> (r: bool)
        ensures
            r == self.scope@.secrets_read.contains(container@),
    {
        texts_contain(&self.scope.secrets_read_containers, container)
    }

    /// Whether the module may write the secrets container of this name.
    pub fn can_write_secrets_container(&self, container: &str) -> (r: bool)
        ensures
            r == self.scope@.secrets_write.contains(container@),
    {
        texts_contain(&self.scope.secrets_write_containers, container)
    }
}


/// A path is taken to contain another exactly when each of its components
/// equals the other's component at the same place, as far as both go: a
/// component that differs, even one that is a prefix of the other (`read`
/// and `readme`), means it does not.
pub proof fn lemma_parent_components_equal(parent: Seq<char>, child: Seq<char>)
    ensures
        path_is_parent_of(parent, child) <==> forall|i: int|
            0 <= i < path_components(parent).len() && i < path_components(child).len()
                ==> path_components(parent)[i] =~= path_components(child)[i],
        forall|i: int|
            0 <= i < path_components(parent).len() && i < path_components(child).len()
                && path_components(parent)[i].len() != path_components(child)[i].len()
                ==> !path_is_parent_of(parent, child),
{
    if !path_is_parent_of(parent, child) {
        let p = path_components(parent);
        let c = path_components(child);
        let i = choose|i: int| 0 <= i < p.len() && i < c.len() && !(#[trigger] p[i] == c[i]);
        assert(!(p[i] =~= c[i]));
    }
}

} // verus!
