use vstd::prelude::*;

use crate::archive_format::{ArchiveFormat, format_of_filename};
use crate::hash::{is_nix_base32_char, nix_base32_text};
use crate::text::{append_chars, chars_of, ends_with, seq_ends_with, seq_starts_with, starts_with, string_from_chars, sub_chars};
use crate::urls::{normalize_url, normalize_url_chars};

verus! {

/// How a resource of a package is stored.
#[derive(Debug, Clone, Copy, PartialEq, Eq, Hash, Structural)]
pub enum ResourceFormat {
    /// Another package manifest.
    Package,
    /// A file stored as it is.
    File,
    /// An archive stored extracted.
    Archive,
}

/// Format guessed from a resource's file name: an archive extension means
/// an archive, `.json` a package manifest, anything else a file.
pub open spec fn resource_format_of_filename(name: Seq<char>) -> ResourceFormat {
    if format_of_filename(name) is Some {
        ResourceFormat::Archive
    } else if seq_ends_with(name, ".json"@) {
        ResourceFormat::Package
    } else {
        ResourceFormat::File
    }
}

impl ResourceFormat {
    /// Format guessed from a resource's file name.
    pub fn from_filename(name: &str) -> (r: ResourceFormat)
        ensures
            r == resource_format_of_filename(name@),
    {
        if ArchiveFormat::from_filename(name).is_some() {
            ResourceFormat::Archive
        } else {
            let cs = chars_of(name);
            if ends_with(cs.as_slice(), ".json") {
                ResourceFormat::Package
            } else {
                ResourceFormat::File
            }
        }
    }
}

/// `name` appended to the path `base` as `Path::join` does: an absolute
/// `name` replaces `base`, and a separator is put between them unless
/// `base` is empty or already ends with one.
pub open spec fn join_path(base: Seq<char>, name: Seq<char>) -> Seq<char> {
    if name.len() > 0 && name[0] == '/' {
        name
    } else if base.len() == 0 || base.last() == '/' {
        base + name
    } else {
        base + seq!['/'] + name
    }
}

/// Path `name` joined to the path `base`.
pub fn join_path_str(base: &str, name: &str) -> (r: String)
    ensures
        r@ == join_path(base@, name@),
{
    let b = chars_of(base);
    let n = chars_of(name);
    if n.len() > 0 && n[0] == '/' {
        return string_from_chars(n);
    }
    let mut out = b;
    if !(out.len() == 0 || out[out.len() - 1] == '/') {
        out.push('/');
    }
    append_chars(&mut out, n.as_slice());
    string_from_chars(out)
}

/// Index of the last `/` of `s` before index `i`, or -1.
pub open spec fn last_slash_before(s: Seq<char>, i: int) -> int
    decreases i,
{
    if i <= 0 || i > s.len() {
        -1
    } else if s[i - 1] == '/' {
        i - 1
    } else {
        last_slash_before(s, i - 1)
    }
}

/// URL of the folder holding the resource at `url`: what precedes its last
/// `/`, or all of it when it has none (as `rsplit_once('/')` gives).
pub open spec fn parent_url(url: Seq<char>) -> Seq<char> {
    let k = last_slash_before(url, url.len() as int);
    if k < 0 {
        url
    } else {
        url.take(k)
    }
}

/// URL of a resource that a package lists: `uri` itself when it starts with
/// `http`, else `uri` under the package's folder; normalized.
pub open spec fn resource_url(package_url: Seq<char>, uri: Seq<char>) -> Seq<char> {
    if seq_starts_with(uri, "http"@) {
        normalize_url(uri)
    } else {
        normalize_url(parent_url(package_url) + seq!['/'] + uri)
    }
}

/// URL of the folder holding the resource at `url`.
pub fn parent_url_chars(url: &[char]) -> (r: Vec<char>)
    ensures
        r@ == parent_url(url@),
{
    let mut i: usize = url.len();
    while i > 0
        invariant
            i <= url@.len(),
            last_slash_before(url@, url@.len() as int) == last_slash_before(url@, i as int),
        decreases i,
    {
        if url[i - 1] == '/' {
            return sub_chars(url, 0, i - 1);
        }
        i = i - 1;
    }
    sub_chars(url, 0, url.len())
}

/// URL of a resource listed by the package at `package_url`.
pub fn resolve_resource_url(package_url: &str, uri: &str) -> (r: String)
    ensures
        r@ == resource_url(package_url@, uri@),
{
    let u = chars_of(uri);
    if starts_with(u.as_slice(), "http") {
        string_from_chars(normalize_url_chars(u.as_slice()))
    } else {
        let p = chars_of(package_url);
        let mut full = parent_url_chars(p.as_slice());
        let ghost parent = full@;
        full.push('/');
        append_chars(&mut full, u.as_slice());
        assert(full@ =~= parent + seq!['/'] + uri@);
        string_from_chars(normalize_url_chars(full.as_slice()))
    }
}

/// Normalized form of a URL.
pub fn normalize_url_str(url: &str) -> (r: String)
    ensures
        r@ == normalize_url(url@),
{
    let cs = chars_of(url);
    string_from_chars(normalize_url_chars(cs.as_slice()))
}

/// Packages storage: a folder holding each resource under its hash.
#[derive(Debug, Clone, PartialEq, Eq, Hash)]
pub struct Storage {
    path: String,
}

impl Storage {
    /// Folder of the storage.
    pub closed spec fn folder(&self) -> Seq<char> {
        self.path@
    }

    /// Storage within the given folder (which the caller creates).
    pub fn with_path(path: String) -> (r: Storage)
        ensures
            r.folder() == path@,
    {
        Storage { path }
    }

    /// Storage folder path.
    pub fn path(&self) -> (r: &str)
        ensures
            r@ == self.folder(),
    {
        self.path.as_str()
    }

    /// Path of the resource with the given hash: the folder joined with the
    /// hash's nix-base32 text. Distinct hashes get distinct paths.
    pub fn resource_path(&self, hash: &crate::hash::Hash) -> (r: String)
        ensures
            r@ == join_path(self.folder(), nix_base32_text(hash@)),
            forall|g: crate::hash::Hash|
                #[trigger] join_path(self.folder(), nix_base32_text(g@)) == r@ ==> g == *hash,
    {
        let name = hash.to_base32();
        let r = join_path_str(self.path.as_str(), name.as_str());
        proof {
            let f = self.folder();
            let t = name@;
            assert(t.len() > 0);
            assert forall|g: crate::hash::Hash|
                #[trigger] join_path(f, nix_base32_text(g@)) == r@ implies g == *hash by {
                let u = nix_base32_text(g@);
                assert(u.len() == t.len());
                assert(is_nix_base32_char(u[0]) && is_nix_base32_char(t[0]));
                let p = if f.len() == 0 || f.last() == '/' { f } else { f + seq!['/'] };
                assert(join_path(f, u) =~= p + u);
                assert(join_path(f, t) =~= p + t);
                assert((p + u).subrange(p.len() as int, (p + u).len() as int) =~= u);
                assert((p + t).subrange(p.len() as int, (p + t).len() as int) =~= t);
            }
        }
        r
    }
}

} // verus!
