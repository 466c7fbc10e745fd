use vstd::prelude::*;

use crate::archive::ArchiveError;
use crate::assoc::{
    first_key_at, hash_keys, map_vals, key_index, lemma_key_index, lemma_key_index_is, lookup, text_key_index, text_keys, upsert, upsert_hash,
    upsert_text,
};
use crate::storage::{
    ResourceFormat, normalize_url_str, resolve_resource_url, resource_format_of_filename,
    resource_url,
};
use crate::urls::normalize_url;

verus! {

/// A resource as a package manifest lists it.
#[derive(Debug, Clone)]
pub struct ManifestResource {
    /// Absolute URL, or one relative to the manifest's folder.
    pub uri: String,
    /// Format, when the manifest gives it.
    pub format: Option<ResourceFormat>,
    /// Expected hash, when the manifest gives it.
    pub hash: Option<crate::hash::Hash>,
}

/// What a package manifest lists: named input and output resources.
#[derive(Debug, Clone)]
pub struct PackageManifest {
    pub inputs: Vec<(String, ManifestResource)>,
    pub outputs: Vec<(String, ManifestResource)>,
}

/// A resource waiting to be fetched.
#[derive(Debug, Clone)]
pub struct QueuedResource {
    pub url: String,
    pub format: ResourceFormat,
    /// Hash the manifest expects, if any.
    pub expected: Option<crate::hash::Hash>,
}

/// A locked resource: where it came from, its format and its hash.
#[derive(Debug, Clone)]
pub struct LockedResourceInfo {
    pub url: String,
    pub format: ResourceFormat,
    pub hash: crate::hash::Hash,
}

/// A locked package: its URL and its named resources.
#[derive(Debug, Clone)]
pub struct LockedPackageInfo {
    pub url: String,
    pub inputs: Vec<(String, LockedResourceInfo)>,
    pub outputs: Vec<(String, LockedResourceInfo)>,
}

/// Result of installing packages: hashes of the root packages, the
/// packages by hash and the URLs of the stored resources by hash.
#[derive(Debug, Clone)]
pub struct Lock {
    pub root: Vec<crate::hash::Hash>,
    pub packages: Vec<(crate::hash::Hash, LockedPackageInfo)>,
    pub resources: Vec<(crate::hash::Hash, String)>,
}

/// Errors of installing packages.
#[derive(Debug)]
pub enum InstallPackagesError {
    /// Reading or writing the storage failed.
    Io(String),
    /// Downloading failed.
    Downloader(String),
    /// A manifest is not JSON.
    Deserialize(String),
    /// A manifest is not a package manifest.
    DecodeManifest { url: String, hash: crate::hash::Hash },
    /// A resource does not have the hash its package expects.
    ResourceHashMismatch { actual: crate::hash::Hash, expected: crate::hash::Hash, url: String },
    /// An archive resource has no known archive format.
    ArchiveFormatUnsupported { url: String },
    /// Extracting an archive failed.
    ArchiveExtract(ArchiveError),
    /// A package names two resources alike.
    PackageNameAlreadyUsed { package_url: String, package_hash: crate::hash::Hash, resource_name: String },
}

/// A named reference to a resource: its URL and format.
pub type RefView = (Seq<char>, (Seq<char>, ResourceFormat));

/// A queued resource: URL, format and expected hash.
pub type QueuedView = (Seq<char>, ResourceFormat, Option<Seq<u8>>);

/// A listed resource: name, URI, format and hash as the manifest gives them.
pub type ListedView = (Seq<char>, (Seq<char>, Option<ResourceFormat>, Option<Seq<u8>>));

/// Bytes of an optional hash.
pub open spec fn opt_hash_view(h: Option<crate::hash::Hash>) -> Option<Seq<u8>> {
    match h {
        Some(x) => Some(x@),
        None => None,
    }
}

pub open spec fn queued_view(q: QueuedResource) -> QueuedView {
    (q.url@, q.format, opt_hash_view(q.expected))
}

pub open spec fn queue_view(v: Seq<QueuedResource>) -> Seq<QueuedView> {
    v.map_values(|q: QueuedResource| queued_view(q))
}

pub open spec fn listed_view(v: Seq<(String, ManifestResource)>) -> Seq<ListedView> {
    v.map_values(
        |p: (String, ManifestResource)| (p.0@, (p.1.uri@, p.1.format, opt_hash_view(p.1.hash))),
    )
}

pub open spec fn refs_view(v: Seq<(String, (String, ResourceFormat))>) -> Seq<RefView> {
    v.map_values(|p: (String, (String, ResourceFormat))| (p.0@, (p.1.0@, p.1.1)))
}

pub open spec fn processed_view(v: Seq<(String, ResourceFormat)>) -> Seq<(Seq<char>, ResourceFormat)> {
    v.map_values(|p: (String, ResourceFormat)| (p.0@, p.1))
}

pub open spec fn hash_urls_view(v: Seq<(crate::hash::Hash, String)>) -> Seq<(Seq<u8>, Seq<char>)> {
    v.map_values(|p: (crate::hash::Hash, String)| (p.0@, p.1@))
}

/// The references of `existing` extended by the resources `items` listed by
/// the package at `package_url`, in order, with the queue entries they
/// order; `Err` with the first name that is already taken.
pub open spec fn extend_refs(existing: Seq<RefView>, items: Seq<ListedView>, package_url: Seq<char>) -> Result<
    (Seq<RefView>, Seq<QueuedView>),
    Seq<char>,
>
    decreases items.len(),
{
    if items.len() == 0 {
        Ok((existing, Seq::empty()))
    } else {
        let name = items[0].0;
        let uri = items[0].1.0;
        if lookup(existing, name) is Some {
            Err(name)
        } else {
            let url = resource_url(package_url, uri);
            let format = match items[0].1.1 {
                Some(f) => f,
                None => resource_format_of_filename(url),
            };
            match extend_refs(existing.push((name, (url, format))), items.drop_first(), package_url) {
                Ok((e, q)) => Ok((e, seq![(url, format, items[0].1.2)] + q)),
                Err(n) => Err(n),
            }
        }
    }
}

/// `r` with `acc` put before the queue entries of a success.
pub open spec fn after_queued(acc: Seq<QueuedView>, r: Result<(Seq<RefView>, Seq<QueuedView>), Seq<char>>) -> Result<
    (Seq<RefView>, Seq<QueuedView>),
    Seq<char>,
> {
    match r {
        Ok((e, q)) => Ok((e, acc + q)),
        Err(n) => Err(n),
    }
}

/// Resolve the resources `items` listed by the package at `package_url`
/// into `refs`, appending the resources to fetch to `queue`; the first name
/// already taken is returned as an error.
fn extend_refs_exec(
    refs: &mut Vec<(String, (String, ResourceFormat))>,
    queue: &mut Vec<QueuedResource>,
    items: &Vec<(String, ManifestResource)>,
    package_url: &str,
) -> (r: Result<(), String>)
    ensures
        extend_refs(refs_view(old(refs)@), listed_view(items@), package_url@) matches Ok((e, q)) ==> (
        r is Ok && refs_view(final(refs)@) == e && queue_view(final(queue)@) == queue_view(
            old(queue)@,
        ) + q),
        extend_refs(refs_view(old(refs)@), listed_view(items@), package_url@) matches Err(n) ==> (
        r matches Err(m) && m@ == n),
{
    let ghost all = listed_view(items@);
    let ghost q0 = queue_view(queue@);
    let ghost goal = extend_refs(refs_view(refs@), all, package_url@);
    let mut i: usize = 0;
    proof {
        assert(all.skip(0) =~= all);
        assert(queue_view(queue@).skip(q0.len() as int) =~= Seq::<QueuedView>::empty());
        assert(goal == after_queued(Seq::empty(), extend_refs(refs_view(refs@), all.skip(0), package_url@)));
    }
    while i < items.len()
        invariant
            all == listed_view(items@),
            goal == extend_refs(refs_view(old(refs)@), all, package_url@),
            q0 == queue_view(old(queue)@),
            i <= items@.len(),
            q0.len() <= queue_view(queue@).len(),
            queue_view(queue@).take(q0.len() as int) == q0,
            goal == after_queued(
                queue_view(queue@).skip(q0.len() as int),
                extend_refs(refs_view(refs@), all.skip(i as int), package_url@),
            ),
        decreases items@.len() - i,
    {
        let name = &items[i].0;
        let res = &items[i].1;
        let ghost rest = all.skip(i as int);
        proof {
            assert(rest[0] == all[i as int]);
            assert(rest.drop_first() =~= all.skip(i + 1));
        }
        match text_key_index(refs, name.as_str()) {
            Some(j) => {
                proof {
                    assert forall|k: int| 0 <= k < refs@.len() implies #[trigger] refs_view(
                        refs@,
                    )[k].0 == text_keys(refs@)[k].0 by {}
                    assert(first_key_at(refs_view(refs@), name@, j as int));
                    lemma_key_index_is(refs_view(refs@), name@, j as int);
                    assert(rest.len() > 0);
                    assert(rest[0].0 == name@);
                    assert(lookup(refs_view(refs@), name@) is Some);
                    assert(extend_refs(refs_view(refs@), rest, package_url@) == Err::<(Seq<RefView>, Seq<QueuedView>), Seq<char>>(name@));
                }
                let n = name.clone();
                assert(n@ == name@);
                assert(goal is Err);
                return Err(n);
            },
            None => {
                proof {
                    assert forall|k: int| 0 <= k < refs@.len() implies #[trigger] refs_view(
                        refs@,
                    )[k].0 == text_keys(refs@)[k].0 by {}
                    lemma_key_index(refs_view(refs@), name@);
                    lemma_key_index(text_keys(refs@), name@);
                    if key_index(refs_view(refs@), name@) >= 0 {
                        let k = key_index(refs_view(refs@), name@);
                        assert(text_keys(refs@)[k].0 == name@);
                    }
                }
            },
        }
        let url = resolve_resource_url(package_url, res.uri.as_str());
        let format = match res.format {
            Some(f) => f,
            None => ResourceFormat::from_filename(url.as_str()),
        };
        let ghost before_refs = refs_view(refs@);
        let ghost before_q = queue_view(queue@);
        let ghost acc = before_q.skip(q0.len() as int);
        refs.push((name.clone(), (url.clone(), format)));
        queue.push(QueuedResource { url, format, expected: res.hash });
        proof {
            let x = queue_view(queue@).last();
            assert(refs_view(refs@) =~= before_refs.push((all[i as int].0, (resource_url(package_url@, all[i as int].1.0), format))));
            assert(queue_view(queue@) =~= before_q.push(x));
            assert(queue_view(queue@).take(q0.len() as int) =~= q0);
            assert(queue_view(queue@).skip(q0.len() as int) =~= acc.push(x));
            let ext = extend_refs(refs_view(refs@), all.skip(i + 1), package_url@);
            assert(extend_refs(before_refs, rest, package_url@) == match ext {
                Ok((e, q)) => Ok((e, seq![x] + q)),
                Err(n) => Err(n),
            });
            match ext {
                Ok((e, q)) => {
                    assert(acc.push(x) + q =~= acc + (seq![x] + q));
                },
                Err(n) => {},
            }
        }
        i = i + 1;
    }
    proof {
        assert(all.skip(i as int) =~= Seq::<ListedView>::empty());
    }
    Ok(())
}

/// Resources of a package being installed: its URL and its named inputs
/// and outputs.
#[derive(Debug, Clone)]
pub struct PackageRefs {
    pub url: String,
    pub inputs: Vec<(String, (String, ResourceFormat))>,
    pub outputs: Vec<(String, (String, ResourceFormat))>,
}

/// What an installer holds.
pub struct InstallState {
    /// Normalized URLs of the packages asked for.
    pub roots: Seq<Seq<char>>,
    /// Package manifests to fetch next.
    pub packages_queue: Seq<Seq<char>>,
    /// Resources ordered by the manifests fetched.
    pub resources_queue: Seq<QueuedView>,
    /// Resources handled, with their formats.
    pub processed: Seq<(Seq<char>, ResourceFormat)>,
    /// Hash of each fetched URL.
    pub resource_hashes: Seq<(Seq<char>, crate::hash::Hash)>,
    /// Packages by the bytes of their manifest hashes.
    pub packages: Seq<(Seq<u8>, PackageRefs)>,
    /// URL of each stored resource, by hash.
    pub resources: Seq<(Seq<u8>, Seq<char>)>,
}

/// The hash recorded for a fetched URL is `h` of the URL.
pub open spec fn url_hash_follows(h: spec_fn(Seq<char>) -> Seq<u8>) -> spec_fn(
    (Seq<char>, crate::hash::Hash),
) -> bool {
    |e: (Seq<char>, crate::hash::Hash)| e.1@ == h(e.0)
}

/// A package is filed under `h` of its URL.
pub open spec fn package_follows(h: spec_fn(Seq<char>) -> Seq<u8>) -> spec_fn((Seq<u8>, PackageRefs)) -> bool {
    |e: (Seq<u8>, PackageRefs)| e.0 == h(e.1.url@)
}

/// A stored resource is filed under `h` of its URL.
pub open spec fn resource_follows(h: spec_fn(Seq<char>) -> Seq<u8>) -> spec_fn((Seq<u8>, Seq<char>)) -> bool {
    |e: (Seq<u8>, Seq<char>)| e.0 == h(e.1)
}

/// Every hash the installer records is `h` of the URL it was fetched from:
/// the hashes of fetched URLs, the packages' hashes and the stored
/// resources' hashes.
pub open spec fn hashes_follow(s: InstallState, h: spec_fn(Seq<char>) -> Seq<u8>) -> bool {
    &&& forall|i: int| 0 <= i < s.resource_hashes.len() ==> #[trigger] url_hash_follows(h)(s.resource_hashes[i])
    &&& forall|i: int| 0 <= i < s.packages.len() ==> #[trigger] package_follows(h)(s.packages[i])
    &&& forall|i: int| 0 <= i < s.resources.len() ==> #[trigger] resource_follows(h)(s.resources[i])
}

/// `urls` normalized, each once, in order of first occurrence.
pub open spec fn unique_urls(urls: Seq<Seq<char>>) -> Seq<Seq<char>>
    decreases urls.len(),
{
    if urls.len() == 0 {
        Seq::empty()
    } else {
        let r = unique_urls(urls.drop_last());
        let n = normalize_url(urls.last());
        if r.contains(n) {
            r
        } else {
            r.push(n)
        }
    }
}

/// `p` with `x` added unless it is there.
pub open spec fn add_processed(p: Seq<(Seq<char>, ResourceFormat)>, x: (Seq<char>, ResourceFormat)) -> Seq<
    (Seq<char>, ResourceFormat),
> {
    if p.contains(x) {
        p
    } else {
        p.push(x)
    }
}

/// The package URLs of `q` that were not handled yet, in order.
pub open spec fn pending_packages(q: Seq<Seq<char>>, processed: Seq<(Seq<char>, ResourceFormat)>) -> Seq<
    Seq<char>,
>
    decreases q.len(),
{
    if q.len() == 0 {
        Seq::empty()
    } else {
        let r = pending_packages(q.drop_last(), processed);
        if processed.contains((q.last(), ResourceFormat::Package)) {
            r
        } else {
            r.push(q.last())
        }
    }
}

/// The queued resources not handled yet, split into those to fetch and the
/// URLs of packages to fetch as manifests, in order.
pub open spec fn route(q: Seq<QueuedView>, processed: Seq<(Seq<char>, ResourceFormat)>) -> (
    Seq<QueuedView>,
    Seq<Seq<char>>,
)
    decreases q.len(),
{
    if q.len() == 0 {
        (Seq::empty(), Seq::empty())
    } else {
        let r = route(q.drop_last(), processed);
        let x = q.last();
        if processed.contains((x.0, x.1)) {
            r
        } else if x.1 == ResourceFormat::Package {
            (r.0, r.1.push(x.0))
        } else {
            (r.0.push(x), r.1)
        }
    }
}

/// What handling the manifest of the package at `url`, with hash `hash`
/// and the listed `inputs` and `outputs`, leads to: the package's existing
/// references are extended by the listed resources, which are queued; the
/// first name already taken is the error.
pub open spec fn manifest_refs(
    s: InstallState,
    url: Seq<char>,
    hash: Seq<u8>,
    inputs: Seq<ListedView>,
    outputs: Seq<ListedView>,
) -> Result<(Seq<RefView>, Seq<RefView>, Seq<QueuedView>), Seq<char>> {
    let (bi, bo) = match lookup(s.packages, hash) {
        Some(e) => (refs_view(e.inputs@), refs_view(e.outputs@)),
        None => (Seq::empty(), Seq::empty()),
    };
    match extend_refs(bi, inputs, url) {
        Err(n) => Err(n),
        Ok((ni, qi)) => match extend_refs(bo, outputs, url) {
            Err(n) => Err(n),
            Ok((no, qo)) => Ok((ni, no, qi + qo)),
        },
    }
}

/// Installs packages: decides which manifests and resources to fetch and
/// builds the lock from what was fetched; fetching, hashing and storing are
/// done by the caller.
pub struct Installer {
    roots: Vec<String>,
    packages_queue: Vec<String>,
    resources_queue: Vec<QueuedResource>,
    processed: Vec<(String, ResourceFormat)>,
    resource_hashes: Vec<(String, crate::hash::Hash)>,
    packages: Vec<(crate::hash::Hash, PackageRefs)>,
    resources: Vec<(crate::hash::Hash, String)>,
}

impl View for Installer {
    type V = InstallState;

    closed spec fn view(&self) -> InstallState {
        InstallState {
            roots: crate::scope::texts(self.roots@),
            packages_queue: crate::scope::texts(self.packages_queue@),
            resources_queue: queue_view(self.resources_queue@),
            processed: processed_view(self.processed@),
            resource_hashes: text_keys(self.resource_hashes@),
            packages: hash_keys(self.packages@),
            resources: map_vals(hash_keys(self.resources@), |u: String| u@),
        }
    }
}

/// Whether `p` holds the pair `(url, format)`.
fn processed_contains(p: &Vec<(String, ResourceFormat)>, url: &str, format: ResourceFormat) -> (r: bool)
    ensures
        r == processed_view(p@).contains((url@, format)),
{
    let mut i: usize = 0;
    while i < p.len()
        invariant
            i <= p@.len(),
            forall|k: int| 0 <= k < i ==> #[trigger] processed_view(p@)[k] != (url@, format),
        decreases p@.len() - i,
    {
        if p[i].1 == format && crate::text::str_eq(p[i].0.as_str(), url) {
            assert(processed_view(p@)[i as int] == (url@, format));
            return true;
        }
        i = i + 1;
    }
    false
}

/// Add `(url, format)` to `p` unless it is there.
fn add_processed_exec(p: &mut Vec<(String, ResourceFormat)>, url: &str, format: ResourceFormat)
    ensures
        processed_view(final(p)@) == add_processed(processed_view(old(p)@), (url@, format)),
{
    if !processed_contains(p, url, format) {
        let ghost before = processed_view(p@);
        p.push((String::from_str(url), format));
        assert(processed_view(p@) =~= before.push((url@, format)));
    }
}

impl Installer {
    /// An installer for the packages at `urls`.
    pub fn new(urls: &Vec<String>) -> (r: Installer)
        ensures
            r@.roots == unique_urls(crate::scope::texts(urls@)),
            r@.packages_queue == r@.roots,
            r@.resources_queue == Seq::<QueuedView>::empty(),
            r@.processed == Seq::<(Seq<char>, ResourceFormat)>::empty(),
            r@.resource_hashes == Seq::<(Seq<char>, crate::hash::Hash)>::empty(),
            r@.packages == Seq::<(Seq<u8>, PackageRefs)>::empty(),
            r@.resources == Seq::<(Seq<u8>, Seq<char>)>::empty(),
            forall|h: spec_fn(Seq<char>) -> Seq<u8>| #[trigger] hashes_follow(r@, h),
    {
        let mut roots: Vec<String> = Vec::new();
        let ghost all = crate::scope::texts(urls@);
        let mut i: usize = 0;
        while i < urls.len()
            invariant
                all == crate::scope::texts(urls@),
                i <= urls@.len(),
                crate::scope::texts(roots@) == unique_urls(all.take(i as int)),
            decreases urls@.len() - i,
        {
            let n = normalize_url_str(urls[i].as_str());
            proof {
                assert(all.take(i + 1).drop_last() =~= all.take(i as int));
                assert(all.take(i + 1).last() == urls@[i as int]@);
            }
            let found = crate::sandbox::texts_contain(&roots, n.as_str());
            if !found {
                let ghost before = crate::scope::texts(roots@);
                roots.push(n);
                assert(crate::scope::texts(roots@) =~= before.push(normalize_url(urls@[i as int]@)));
            }
            i = i + 1;
        }
        assert(all.take(urls@.len() as int) =~= all);
        let queue = clone_strings(&roots);
        let r = Installer {
            roots,
            packages_queue: queue,
            resources_queue: Vec::new(),
            processed: Vec::new(),
            resource_hashes: Vec::new(),
            packages: Vec::new(),
            resources: Vec::new(),
        };
        assert(r@.resources_queue =~= Seq::<QueuedView>::empty());
        assert(r@.processed =~= Seq::<(Seq<char>, ResourceFormat)>::empty());
        assert(r@.resource_hashes =~= Seq::<(Seq<char>, crate::hash::Hash)>::empty());
        assert(r@.packages =~= Seq::<(Seq<u8>, PackageRefs)>::empty());
        assert(r@.resources =~= Seq::<(Seq<u8>, Seq<char>)>::empty());
        r
    }

    /// Whether package manifests wait to be fetched.
    pub fn has_pending_packages(&self) -> (r: bool)
        ensures
            r == (self@.packages_queue.len() > 0),
    {
        self.packages_queue.len() > 0
    }

    /// Take the queued package URLs not handled yet; their manifests are to
    /// be fetched.
    pub fn take_package_downloads(&mut self) -> (r: Vec<String>)
        ensures
            crate::scope::texts(r@) == pending_packages(old(self)@.packages_queue, old(self)@.processed),
            final(self)@.packages_queue == Seq::<Seq<char>>::empty(),
            final(self)@.roots == old(self)@.roots,
            final(self)@.resources_queue == old(self)@.resources_queue,
            final(self)@.processed == old(self)@.processed,
            final(self)@.resource_hashes == old(self)@.resource_hashes,
            final(self)@.packages == old(self)@.packages,
            final(self)@.resources == old(self)@.resources,
    {
        let mut queue: Vec<String> = Vec::new();
        std::mem::swap(&mut queue, &mut self.packages_queue);
        let ghost q = crate::scope::texts(queue@);
        let mut out: Vec<String> = Vec::new();
        let mut i: usize = 0;
        while i < queue.len()
            invariant
                q == crate::scope::texts(queue@),
                i <= queue@.len(),
                crate::scope::texts(out@) == pending_packages(q.take(i as int), processed_view(self.processed@)),
            decreases queue@.len() - i,
        {
            proof {
                assert(q.take(i + 1).drop_last() =~= q.take(i as int));
                assert(q.take(i + 1).last() == queue@[i as int]@);
            }
            if !processed_contains(&self.processed, queue[i].as_str(), ResourceFormat::Package) {
                let ghost before = crate::scope::texts(out@);
                out.push(queue[i].clone());
                assert(crate::scope::texts(out@) =~= before.push(queue@[i as int]@));
            }
            i = i + 1;
        }
        assert(q.take(queue@.len() as int) =~= q);
        assert(crate::scope::texts(self.packages_queue@) =~= Seq::<Seq<char>>::empty());
        out
    }
}

/// Copies of the strings of `v`.
fn clone_strings(v: &Vec<String>) -> (r: Vec<String>)
    ensures
        crate::scope::texts(r@) == crate::scope::texts(v@),
{
    let mut r: Vec<String> = Vec::new();
    let mut i: usize = 0;
    while i < v.len()
        invariant
            i <= v@.len(),
            crate::scope::texts(r@) == crate::scope::texts(v@).take(i as int),
        decreases v@.len() - i,
    {
        let ghost before = crate::scope::texts(r@);
        r.push(v[i].clone());
        assert(crate::scope::texts(r@) =~= before.push(v@[i as int]@));
        assert(crate::scope::texts(v@).take(i + 1) =~= crate::scope::texts(v@).take(i as int).push(v@[i as int]@));
        i = i + 1;
    }
    assert(crate::scope::texts(v@).take(v@.len() as int) =~= crate::scope::texts(v@));
    r
}

} // verus!

verus! {

/// Copies of named references.
fn clone_refs(v: &Vec<(String, (String, ResourceFormat))>) -> (r: Vec<(String, (String, ResourceFormat))>)
    ensures
        refs_view(r@) == refs_view(v@),
{
    let mut r: Vec<(String, (String, ResourceFormat))> = Vec::new();
    let mut i: usize = 0;
    while i < v.len()
        invariant
            i <= v@.len(),
            refs_view(r@) == refs_view(v@).take(i as int),
        decreases v@.len() - i,
    {
        let ghost before = refs_view(r@);
        let name = v[i].0.clone();
        let url = v[i].1.0.clone();
        r.push((name, (url, v[i].1.1)));
        assert(refs_view(r@) =~= before.push(refs_view(v@)[i as int]));
        assert(refs_view(v@).take(i + 1) =~= refs_view(v@).take(i as int).push(refs_view(v@)[i as int]));
        i = i + 1;
    }
    assert(refs_view(v@).take(v@.len() as int) =~= refs_view(v@));
    r
}

/// A locked resource: name, then URL, format and hash bytes.
pub type LockedView = (Seq<char>, (Seq<char>, ResourceFormat, Seq<u8>));

/// Hashes of the root packages that were fetched, each once.
pub open spec fn root_hashes(roots: Seq<Seq<char>>, rh: Seq<(Seq<char>, crate::hash::Hash)>) -> Seq<Seq<u8>>
    decreases roots.len(),
{
    if roots.len() == 0 {
        Seq::empty()
    } else {
        let r = root_hashes(roots.drop_last(), rh);
        match lookup(rh, roots.last()) {
            Some(h) => if r.contains(h@) {
                r
            } else {
                r.push(h@)
            },
            None => r,
        }
    }
}

/// The references whose URLs were fetched, with their hashes.
pub open spec fn locked_refs(refs: Seq<RefView>, rh: Seq<(Seq<char>, crate::hash::Hash)>) -> Seq<LockedView>
    decreases refs.len(),
{
    if refs.len() == 0 {
        Seq::empty()
    } else {
        let r = locked_refs(refs.drop_last(), rh);
        let x = refs.last();
        match lookup(rh, x.1.0) {
            Some(h) => r.push((x.0, (x.1.0, x.1.1, h@))),
            None => r,
        }
    }
}

/// The packages of a lock, with the resources that were fetched.
pub open spec fn locked_packages(ps: Seq<(Seq<u8>, PackageRefs)>, rh: Seq<(Seq<char>, crate::hash::Hash)>) -> Seq<
    (Seq<u8>, (Seq<char>, Seq<LockedView>, Seq<LockedView>)),
> {
    ps.map_values(
        |p: (Seq<u8>, PackageRefs)|
            (
                p.0,
                (
                    p.1.url@,
                    locked_refs(refs_view(p.1.inputs@), rh),
                    locked_refs(refs_view(p.1.outputs@), rh),
                ),
            ),
    )
}

pub open spec fn locked_view(v: Seq<(String, LockedResourceInfo)>) -> Seq<LockedView> {
    v.map_values(|p: (String, LockedResourceInfo)| (p.0@, (p.1.url@, p.1.format, p.1.hash@)))
}

/// Root hashes of a lock.
pub open spec fn lock_root_view(l: Lock) -> Seq<Seq<u8>> {
    l.root@.map_values(|h: crate::hash::Hash| h@)
}

/// Packages of a lock.
pub open spec fn lock_packages_view(l: Lock) -> Seq<(Seq<u8>, (Seq<char>, Seq<LockedView>, Seq<LockedView>))> {
    packages_lock_view(l.packages@)
}

/// Views of locked packages.
pub open spec fn packages_lock_view(v: Seq<(crate::hash::Hash, LockedPackageInfo)>) -> Seq<
    (Seq<u8>, (Seq<char>, Seq<LockedView>, Seq<LockedView>)),
> {
    v.map_values(
        |p: (crate::hash::Hash, LockedPackageInfo)|
            (p.0@, (p.1.url@, locked_view(p.1.inputs@), locked_view(p.1.outputs@))),
    )
}

/// Resources of a lock.
pub open spec fn lock_resources_view(l: Lock) -> Seq<(Seq<u8>, Seq<char>)> {
    hash_urls_view(l.resources@)
}

impl Installer {
    /// Hash fetched for `url`, if any.
    fn hash_of(&self, url: &str) -> (r: Option<crate::hash::Hash>)
        ensures
            r == lookup(self@.resource_hashes, url@),
    {
        match text_key_index(&self.resource_hashes, url) {
            Some(i) => {
                proof {
                    crate::assoc::lemma_key_index_is(text_keys(self.resource_hashes@), url@, i as int);
                }
                Some(self.resource_hashes[i].1)
            },
            None => None,
        }
    }

    /// Locked forms of the references whose URLs were fetched.
    fn lock_refs(&self, refs: &Vec<(String, (String, ResourceFormat))>) -> (r: Vec<(String, LockedResourceInfo)>)
        ensures
            locked_view(r@) == locked_refs(refs_view(refs@), self@.resource_hashes),
    {
        let ghost all = refs_view(refs@);
        let mut out: Vec<(String, LockedResourceInfo)> = Vec::new();
        let mut i: usize = 0;
        while i < refs.len()
            invariant
                all == refs_view(refs@),
                i <= refs@.len(),
                locked_view(out@) == locked_refs(all.take(i as int), self@.resource_hashes),
            decreases refs@.len() - i,
        {
            proof {
                assert(all.take(i + 1).drop_last() =~= all.take(i as int));
                assert(all.take(i + 1).last() == all[i as int]);
            }
            match self.hash_of(refs[i].1.0.as_str()) {
                Some(h) => {
                    let ghost before = locked_view(out@);
                    let info = LockedResourceInfo { url: refs[i].1.0.clone(), format: refs[i].1.1, hash: h };
                    out.push((refs[i].0.clone(), info));
                    assert(locked_view(out@) =~= before.push((all[i as int].0, (all[i as int].1.0, all[i as int].1.1, h@))));
                },
                None => {},
            }
            i = i + 1;
        }
        assert(all.take(refs@.len() as int) =~= all);
        out
    }

    /// The lock of what was installed: the root packages' hashes, the
    /// packages with their fetched resources, and the stored resources.
    pub fn finish(&self) -> (r: Lock)
        ensures
            lock_root_view(r) == root_hashes(self@.roots, self@.resource_hashes),
            lock_packages_view(r) == locked_packages(self@.packages, self@.resource_hashes),
            lock_resources_view(r) == self@.resources,
    {
        let ghost roots = crate::scope::texts(self.roots@);
        let mut root: Vec<crate::hash::Hash> = Vec::new();
        let mut i: usize = 0;
        while i < self.roots.len()
            invariant
                roots == crate::scope::texts(self.roots@),
                i <= self.roots@.len(),
                root@.map_values(|h: crate::hash::Hash| h@) == root_hashes(roots.take(i as int), self@.resource_hashes),
            decreases self.roots@.len() - i,
        {
            proof {
                assert(roots.take(i + 1).drop_last() =~= roots.take(i as int));
                assert(roots.take(i + 1).last() == roots[i as int]);
            }
            match self.hash_of(self.roots[i].as_str()) {
                Some(h) => {
                    let ghost before = root@.map_values(|h: crate::hash::Hash| h@);
                    let mut j: usize = 0;
                    let mut seen = false;
                    while j < root.len()
                        invariant
                            j <= root@.len(),
                            before == root@.map_values(|h: crate::hash::Hash| h@),
                            seen ==> before.contains(h@),
                            !seen ==> forall|k: int| 0 <= k < j ==> #[trigger] before[k] != h@,
                        decreases root@.len() - j,
                    {
                        if root[j].same(&h) {
                            seen = true;
                            assert(before[j as int] == h@);
                        }
                        j = j + 1;
                    }
                    if !seen {
                        root.push(h);
                        assert(root@.map_values(|h: crate::hash::Hash| h@) =~= before.push(h@));
                    }
                },
                None => {},
            }
            i = i + 1;
        }
        assert(roots.take(self.roots@.len() as int) =~= roots);
        let mut packages: Vec<(crate::hash::Hash, LockedPackageInfo)> = Vec::new();
        let mut k: usize = 0;
        while k < self.packages.len()
            invariant
                k <= self.packages@.len(),
                packages_lock_view(packages@) == locked_packages(self@.packages, self@.resource_hashes).take(k as int),
            decreases self.packages@.len() - k,
        {
            let entry = &self.packages[k].1;
            let info = LockedPackageInfo {
                url: entry.url.clone(),
                inputs: self.lock_refs(&entry.inputs),
                outputs: self.lock_refs(&entry.outputs),
            };
            let ghost before = packages@;
            packages.push((self.packages[k].0, info));
            proof {
                let lp = locked_packages(self@.packages, self@.resource_hashes);
                assert(lp.take(k + 1) =~= lp.take(k as int).push(lp[k as int]));
                assert(packages_lock_view(packages@) =~= lp.take(k + 1));
            }
            k = k + 1;
        }
        proof {
            let lp = locked_packages(self@.packages, self@.resource_hashes);
            assert(lp.take(self.packages@.len() as int) =~= lp);
        }
        let mut resources: Vec<(crate::hash::Hash, String)> = Vec::new();
        let mut m: usize = 0;
        while m < self.resources.len()
            invariant
                m <= self.resources@.len(),
                hash_urls_view(resources@) == self@.resources.take(m as int),
            decreases self.resources@.len() - m,
        {
            let ghost before = hash_urls_view(resources@);
            resources.push((self.resources[m].0, self.resources[m].1.clone()));
            proof {
                let rv = self@.resources;
                assert(rv.take(m + 1) =~= rv.take(m as int).push(rv[m as int]));
                assert(hash_urls_view(resources@) =~= rv.take(m + 1));
            }
            m = m + 1;
        }
        proof {
            let rv = self@.resources;
            assert(rv.take(self.resources@.len() as int) =~= rv);
        }
        Lock { root, packages, resources }
    }
}

} // verus!

verus! {

impl Installer {
    /// Handle the manifest of the package at `url`, whose bytes hash to
    /// `hash`: the URL is marked handled and linked to the hash, and the
    /// package's listed resources are resolved against its URL, recorded and
    /// queued. A name already taken in the package fails the install.
    pub fn on_manifest(&mut self, url: String, hash: crate::hash::Hash, manifest: &PackageManifest) -> (r: Result<
        (),
        InstallPackagesError,
    >)
        ensures
            manifest_refs(old(self)@, url@, hash@, listed_view(manifest.inputs@), listed_view(manifest.outputs@)) matches Err(n)
                ==> (r matches Err(InstallPackagesError::PackageNameAlreadyUsed { package_url, package_hash, resource_name })
                && package_url@ == url@ && package_hash == hash && resource_name@ == n),
            manifest_refs(old(self)@, url@, hash@, listed_view(manifest.inputs@), listed_view(manifest.outputs@)) matches Ok((ni, no, q))
                ==> (r is Ok && final(self)@.resources_queue == old(self)@.resources_queue + q && (lookup(
                final(self)@.packages,
                hash@,
            ) matches Some(e) && e.url@ == url@ && refs_view(e.inputs@) == ni && refs_view(e.outputs@) == no
                && final(self)@.packages == upsert(old(self)@.packages, hash@, e))),
            r is Ok ==> final(self)@.processed == add_processed(old(self)@.processed, (url@, ResourceFormat::Package)),
            r is Ok ==> final(self)@.resource_hashes == upsert(old(self)@.resource_hashes, url@, hash),
            r is Ok ==> final(self)@.roots == old(self)@.roots,
            r is Ok ==> final(self)@.packages_queue == old(self)@.packages_queue,
            r is Ok ==> final(self)@.resources == old(self)@.resources,
            r is Ok ==> forall|h: spec_fn(Seq<char>) -> Seq<u8>|
                hashes_follow(old(self)@, h) && hash@ == h(url@) ==> #[trigger] hashes_follow(final(self)@, h),
    {
        let ghost s0 = self@;
        add_processed_exec(&mut self.processed, url.as_str(), ResourceFormat::Package);
        upsert_text(&mut self.resource_hashes, url.clone(), hash);
        let (mut inputs, mut outputs) = match crate::assoc::hash_key_index(&self.packages, &hash) {
            Some(i) => {
                proof {
                    crate::assoc::lemma_key_index_is(hash_keys(self.packages@), hash@, i as int);
                }
                (clone_refs(&self.packages[i].1.inputs), clone_refs(&self.packages[i].1.outputs))
            },
            None => {
                let a: Vec<(String, (String, ResourceFormat))> = Vec::new();
                let b: Vec<(String, (String, ResourceFormat))> = Vec::new();
                assert(refs_view(a@) =~= Seq::<RefView>::empty());
                assert(refs_view(b@) =~= Seq::<RefView>::empty());
                (a, b)
            },
        };
        let mut queue: Vec<QueuedResource> = Vec::new();
        assert(queue_view(queue@) =~= Seq::<QueuedView>::empty());
        match extend_refs_exec(&mut inputs, &mut queue, &manifest.inputs, url.as_str()) {
            Err(name) => {
                return Err(InstallPackagesError::PackageNameAlreadyUsed {
                    package_url: url,
                    package_hash: hash,
                    resource_name: name,
                });
            },
            Ok(()) => {},
        }
        let ghost qi = queue_view(queue@);
        match extend_refs_exec(&mut outputs, &mut queue, &manifest.outputs, url.as_str()) {
            Err(name) => {
                return Err(InstallPackagesError::PackageNameAlreadyUsed {
                    package_url: url,
                    package_hash: hash,
                    resource_name: name,
                });
            },
            Ok(()) => {},
        }
        let ghost before_rq = queue_view(self.resources_queue@);
        let ghost q = queue_view(queue@);
        self.resources_queue.append(&mut queue);
        assert(queue_view(self.resources_queue@) =~= before_rq + q);
        let entry = PackageRefs { url, inputs, outputs };
        let ghost e = entry;
        upsert_hash(&mut self.packages, hash, entry);
        proof {
            crate::assoc::lemma_lookup_upsert(s0.packages, hash@, e, hash@);
            assert forall|h: spec_fn(Seq<char>) -> Seq<u8>|
                hashes_follow(s0, h) && hash@ == h(url@) implies #[trigger] hashes_follow(self@, h) by {
                crate::assoc::lemma_upsert_all(s0.resource_hashes, url@, hash, url_hash_follows(h));
                crate::assoc::lemma_upsert_all(s0.packages, hash@, e, package_follows(h));
                assert(self@.resource_hashes == upsert(s0.resource_hashes, url@, hash));
                assert(self@.packages == upsert(s0.packages, hash@, e));
                assert(self@.resources == s0.resources);
            }
        }
        Ok(())
    }

    /// Take the queued resources not handled yet: packages go back to the
    /// packages queue, the others are returned to be fetched.
    pub fn take_resource_downloads(&mut self) -> (r: Vec<QueuedResource>)
        ensures
            queue_view(r@) == route(old(self)@.resources_queue, old(self)@.processed).0,
            final(self)@.packages_queue == old(self)@.packages_queue + route(
                old(self)@.resources_queue,
                old(self)@.processed,
            ).1,
            final(self)@.resources_queue == Seq::<QueuedView>::empty(),
            final(self)@.roots == old(self)@.roots,
            final(self)@.processed == old(self)@.processed,
            final(self)@.resource_hashes == old(self)@.resource_hashes,
            final(self)@.packages == old(self)@.packages,
            final(self)@.resources == old(self)@.resources,
    {
        let mut queue: Vec<QueuedResource> = Vec::new();
        std::mem::swap(&mut queue, &mut self.resources_queue);
        let ghost q = queue_view(queue@);
        let ghost pq0 = crate::scope::texts(self.packages_queue@);
        let mut out: Vec<QueuedResource> = Vec::new();
        let mut i: usize = 0;
        while i < queue.len()
            invariant
                q == queue_view(queue@),
                q == queue_view(old(self).resources_queue@),
                pq0 == crate::scope::texts(old(self).packages_queue@),
                self.resources_queue@.len() == 0,
                self.roots == old(self).roots,
                self.processed == old(self).processed,
                self.resource_hashes == old(self).resource_hashes,
                self.packages == old(self).packages,
                self.resources == old(self).resources,
                i <= queue@.len(),
                pq0.len() <= crate::scope::texts(self.packages_queue@).len(),
                crate::scope::texts(self.packages_queue@).take(pq0.len() as int) == pq0,
                queue_view(out@) == route(q.take(i as int), processed_view(self.processed@)).0,
                crate::scope::texts(self.packages_queue@).skip(pq0.len() as int) == route(
                    q.take(i as int),
                    processed_view(self.processed@),
                ).1,
            decreases queue@.len() - i,
        {
            proof {
                assert(q.take(i + 1).drop_last() =~= q.take(i as int));
                assert(q.take(i + 1).last() == q[i as int]);
            }
            let item = &queue[i];
            if !processed_contains(&self.processed, item.url.as_str(), item.format) {
                if item.format == ResourceFormat::Package {
                    let ghost before = crate::scope::texts(self.packages_queue@);
                    self.packages_queue.push(item.url.clone());
                    assert(crate::scope::texts(self.packages_queue@) =~= before.push(item.url@));
                    assert(crate::scope::texts(self.packages_queue@).take(pq0.len() as int) =~= pq0);
                    assert(crate::scope::texts(self.packages_queue@).skip(pq0.len() as int) =~= before.skip(
                        pq0.len() as int,
                    ).push(item.url@));
                } else {
                    let ghost before = queue_view(out@);
                    out.push(QueuedResource { url: item.url.clone(), format: item.format, expected: item.expected });
                    assert(queue_view(out@) =~= before.push(q[i as int]));
                }
            }
            i = i + 1;
        }
        assert(q.take(queue@.len() as int) =~= q);
        assert(queue_view(self.resources_queue@) =~= Seq::<QueuedView>::empty());
        assert(crate::scope::texts(self.packages_queue@) =~= pq0 + crate::scope::texts(self.packages_queue@).skip(pq0.len() as int));
        out
    }

    /// Handle a fetched resource whose content hashes to `actual`: a hash
    /// other than the expected one fails the install; otherwise the resource
    /// is marked handled, its URL linked to the hash and the hash to its URL.
    /// Packages are handled through their manifests, so nothing is done for
    /// them here.
    pub fn on_resource(&mut self, res: &QueuedResource, actual: crate::hash::Hash) -> (r: Result<
        (),
        InstallPackagesError,
    >)
        ensures
            res.format == ResourceFormat::Package ==> (r is Ok && final(self)@ == old(self)@),
            res.format != ResourceFormat::Package && (res.expected matches Some(e) && e@ != actual@) ==> (
            r matches Err(InstallPackagesError::ResourceHashMismatch { actual: a, expected: x, url })
                && a == actual && Some(x) == res.expected && url@ == res.url@ && final(self)@ == old(self)@),
            res.format != ResourceFormat::Package && !(res.expected matches Some(e) && e@ != actual@) ==> (
            r is Ok && final(self)@.processed == add_processed(old(self)@.processed, (res.url@, res.format))
                && final(self)@.resource_hashes == upsert(old(self)@.resource_hashes, res.url@, actual)
                && final(self)@.resources == upsert(old(self)@.resources, actual@, res.url@)
                && final(self)@.roots == old(self)@.roots && final(self)@.packages_queue == old(self)@.packages_queue
                && final(self)@.resources_queue == old(self)@.resources_queue && final(self)@.packages == old(self)@.packages),
            r is Ok ==> forall|h: spec_fn(Seq<char>) -> Seq<u8>|
                hashes_follow(old(self)@, h) && actual@ == h(res.url@) ==> #[trigger] hashes_follow(final(self)@, h),
    {
        let ghost s0 = self@;
        if res.format == ResourceFormat::Package {
            return Ok(());
        }
        match res.expected {
            Some(e) => {
                if !e.same(&actual) {
                    return Err(InstallPackagesError::ResourceHashMismatch {
                        actual,
                        expected: e,
                        url: res.url.clone(),
                    });
                }
            },
            None => {},
        }
        add_processed_exec(&mut self.processed, res.url.as_str(), res.format);
        upsert_text(&mut self.resource_hashes, res.url.clone(), actual);
        let ghost before = hash_keys(self.resources@);
        let url = res.url.clone();
        upsert_hash(&mut self.resources, actual, url);
        proof {
            crate::assoc::lemma_upsert_map_vals(before, actual@, url, |u: String| u@);
            assert forall|h: spec_fn(Seq<char>) -> Seq<u8>|
                hashes_follow(s0, h) && actual@ == h(res.url@) implies #[trigger] hashes_follow(self@, h) by {
                crate::assoc::lemma_upsert_all(s0.resource_hashes, res.url@, actual, url_hash_follows(h));
                crate::assoc::lemma_upsert_all(s0.resources, actual@, res.url@, resource_follows(h));
                assert(self@.resource_hashes == upsert(s0.resource_hashes, res.url@, actual));
                assert(self@.resources == upsert(s0.resources, actual@, res.url@));
                assert(self@.packages == s0.packages);
            }
        }
        Ok(())
    }
}

} // verus!

verus! {

/// A package manifest already handled is never fetched again.
pub proof fn lemma_pending_not_processed(
    q: Seq<Seq<char>>,
    processed: Seq<(Seq<char>, ResourceFormat)>,
    u: Seq<char>,
)
    ensures
        pending_packages(q, processed).contains(u) ==> !processed.contains((u, ResourceFormat::Package)),
    decreases q.len(),
{
    if q.len() > 0 {
        lemma_pending_not_processed(q.drop_last(), processed, u);
        let r = pending_packages(q.drop_last(), processed);
        if pending_packages(q, processed).contains(u) && !r.contains(u) {
            let i = choose|i: int| 0 <= i < pending_packages(q, processed).len() && pending_packages(
                q,
                processed,
            )[i] == u;
            if i < r.len() {
                assert(r[i] == u);
            }
        }
    }
}

/// The root packages are asked for once each, by their normalized URLs.
pub proof fn lemma_unique_urls_distinct(urls: Seq<Seq<char>>)
    ensures
        forall|i: int, j: int|
            0 <= i < j < unique_urls(urls).len() ==> unique_urls(urls)[i] != unique_urls(urls)[j],
        forall|i: int| 0 <= i < unique_urls(urls).len() ==> exists|k: int|
            0 <= k < urls.len() && #[trigger] unique_urls(urls)[i] == normalize_url(#[trigger] urls[k]),
    decreases urls.len(),
{
    if urls.len() > 0 {
        lemma_unique_urls_distinct(urls.drop_last());
        let r = unique_urls(urls.drop_last());
        let n = normalize_url(urls.last());
        assert forall|i: int| 0 <= i < unique_urls(urls).len() implies exists|k: int|
            0 <= k < urls.len() && #[trigger] unique_urls(urls)[i] == normalize_url(
                #[trigger] urls[k],
            ) by {
            if i < r.len() {
                let k = choose|k: int|
                    0 <= k < urls.drop_last().len() && #[trigger] r[i] == normalize_url(
                        #[trigger] urls.drop_last()[k],
                    );
                assert(urls[k] == urls.drop_last()[k]);
            } else {
                assert(unique_urls(urls)[i] == normalize_url(urls[urls.len() - 1]));
            }
        }
        if !r.contains(n) {
            assert forall|i: int, j: int|
                0 <= i < j < unique_urls(urls).len() implies unique_urls(urls)[i] != unique_urls(
                    urls,
                )[j] by {
                if j == r.len() {
                    assert(r[i] != n);
                }
            }
        }
    }
}


/// A hash looked up for a URL is `h` of the URL.
proof fn lemma_lookup_follows(
    rh: Seq<(Seq<char>, crate::hash::Hash)>,
    u: Seq<char>,
    h: spec_fn(Seq<char>) -> Seq<u8>,
)
    requires
        forall|i: int| 0 <= i < rh.len() ==> #[trigger] url_hash_follows(h)(rh[i]),
        lookup(rh, u) is Some,
    ensures
        (lookup(rh, u)->Some_0)@ == h(u),
{
    crate::assoc::lemma_lookup_entry(rh, u);
    assert(url_hash_follows(h)(rh[crate::assoc::key_index(rh, u)]));
}

proof fn lemma_root_hashes_follow(
    roots: Seq<Seq<char>>,
    rh: Seq<(Seq<char>, crate::hash::Hash)>,
    h: spec_fn(Seq<char>) -> Seq<u8>,
)
    requires
        forall|i: int| 0 <= i < rh.len() ==> #[trigger] url_hash_follows(h)(rh[i]),
    ensures
        forall|i: int| 0 <= i < root_hashes(roots, rh).len() ==> exists|k: int|
            0 <= k < roots.len() && #[trigger] root_hashes(roots, rh)[i] == h(#[trigger] roots[k]),
    decreases roots.len(),
{
    if roots.len() > 0 {
        let d = roots.drop_last();
        lemma_root_hashes_follow(d, rh, h);
        let r = root_hashes(d, rh);
        assert forall|i: int| 0 <= i < root_hashes(roots, rh).len() implies exists|k: int|
            0 <= k < roots.len() && #[trigger] root_hashes(roots, rh)[i] == h(#[trigger] roots[k]) by {
            if i < r.len() {
                let k = choose|k: int| 0 <= k < d.len() && #[trigger] r[i] == h(#[trigger] d[k]);
                assert(roots[k] == d[k]);
            } else {
                lemma_lookup_follows(rh, roots.last(), h);
                assert(roots[roots.len() - 1] == roots.last());
            }
        }
    }
}

proof fn lemma_locked_refs_follow(
    refs: Seq<RefView>,
    rh: Seq<(Seq<char>, crate::hash::Hash)>,
    h: spec_fn(Seq<char>) -> Seq<u8>,
)
    requires
        forall|i: int| 0 <= i < rh.len() ==> #[trigger] url_hash_follows(h)(rh[i]),
    ensures
        forall|i: int| 0 <= i < locked_refs(refs, rh).len() ==> #[trigger] locked_refs(refs, rh)[i].1.2
            == h(locked_refs(refs, rh)[i].1.0),
    decreases refs.len(),
{
    if refs.len() > 0 {
        let r = locked_refs(refs.drop_last(), rh);
        lemma_locked_refs_follow(refs.drop_last(), rh, h);
        if lookup(rh, refs.last().1.0) is Some {
            lemma_lookup_follows(rh, refs.last().1.0, h);
        }
        assert forall|i: int| 0 <= i < locked_refs(refs, rh).len() implies #[trigger] locked_refs(
            refs,
            rh,
        )[i].1.2 == h(locked_refs(refs, rh)[i].1.0) by {
            if i < r.len() {
                assert(locked_refs(refs, rh)[i] == r[i]);
            }
        }
    }
}

/// What an install gives when every hash handed to the installer is `h` of
/// the URL it was fetched from (`on_manifest` and `on_resource` keep
/// `hashes_follow`, and `new` starts with it): each root hash of the lock is
/// `h` of a root URL, each package is filed under `h` of its URL, each
/// resource a package names carries `h` of that resource's URL, and each
/// stored resource is filed under `h` of its URL.
pub proof fn lemma_lock_follows_hashes(s: InstallState, h: spec_fn(Seq<char>) -> Seq<u8>)
    requires
        hashes_follow(s, h),
    ensures
        forall|i: int| 0 <= i < root_hashes(s.roots, s.resource_hashes).len() ==> exists|k: int|
            0 <= k < s.roots.len() && #[trigger] root_hashes(s.roots, s.resource_hashes)[i] == h(
                #[trigger] s.roots[k],
            ),
        forall|i: int| 0 <= i < locked_packages(s.packages, s.resource_hashes).len() ==> {
            let p = #[trigger] locked_packages(s.packages, s.resource_hashes)[i];
            &&& p.0 == h(p.1.0)
            &&& forall|j: int| 0 <= j < p.1.1.len() ==> #[trigger] p.1.1[j].1.2 == h(p.1.1[j].1.0)
            &&& forall|j: int| 0 <= j < p.1.2.len() ==> #[trigger] p.1.2[j].1.2 == h(p.1.2[j].1.0)
        },
        forall|i: int| 0 <= i < s.resources.len() ==> #[trigger] s.resources[i].0 == h(s.resources[i].1),
{
    lemma_root_hashes_follow(s.roots, s.resource_hashes, h);
    assert forall|i: int| 0 <= i < locked_packages(s.packages, s.resource_hashes).len() implies {
        let p = #[trigger] locked_packages(s.packages, s.resource_hashes)[i];
        &&& p.0 == h(p.1.0)
        &&& forall|j: int| 0 <= j < p.1.1.len() ==> #[trigger] p.1.1[j].1.2 == h(p.1.1[j].1.0)
        &&& forall|j: int| 0 <= j < p.1.2.len() ==> #[trigger] p.1.2[j].1.2 == h(p.1.2[j].1.0)
    } by {
        assert(package_follows(h)(s.packages[i]));
        lemma_locked_refs_follow(refs_view(s.packages[i].1.inputs@), s.resource_hashes, h);
        lemma_locked_refs_follow(refs_view(s.packages[i].1.outputs@), s.resource_hashes, h);
    }
    assert forall|i: int| 0 <= i < s.resources.len() implies #[trigger] s.resources[i].0 == h(s.resources[i].1) by {
        assert(resource_follows(h)(s.resources[i]));
    }
}

} // verus!
