use vstd::prelude::*;


verus! {

/// Texts of a sequence of strings.
pub open spec fn texts(v: Seq<String>) -> Seq<Seq<char>> {
    v.map_values(|s: String| s@)
}

/// `s` without elements equal to the one before them (as `Vec::dedup`
/// does).
pub open spec fn dedup_consecutive(s: Seq<Seq<char>>) -> Seq<Seq<char>>
    decreases s.len(),
{
    if s.len() <= 1 {
        s
    } else {
        let r = dedup_consecutive(s.drop_last());
        if s.last() == s[s.len() - 2] {
            r
        } else {
            r.push(s.last())
        }
    }
}

/// The last element survives consecutive deduplication.
proof fn lemma_dedup_last(s: Seq<Seq<char>>)
    requires
        s.len() > 0,
    ensures
        dedup_consecutive(s).len() > 0,
        dedup_consecutive(s).last() == s.last(),
    decreases s.len(),
{
    if s.len() > 1 {
        lemma_dedup_last(s.drop_last());
    }
}

/// `v` without strings equal to the one before them.
fn dedup_strings(v: Vec<String>) -> (r: Vec<String>)
    ensures
        texts(r@) == dedup_consecutive(texts(v@)),
{
    let mut out: Vec<String> = Vec::new();
    let mut rest = v;
    let ghost all = texts(v@);
    let ghost mut i: int = 0;
    while rest.len() > 0
        invariant
            0 <= i <= all.len(),
            texts(rest@) == all.skip(i),
            texts(out@) == dedup_consecutive(all.take(i)),
        decreases rest@.len(),
    {
        let ghost before = rest@;
        let s = rest.remove(0);
        proof {
            assert(texts(before).len() == all.len() - i);
            assert(texts(before)[0] == before[0]@);
            assert(all.skip(i)[0] == all[i]);
            assert(s@ == all[i]);
            assert forall|k: int| 0 <= k < rest@.len() implies #[trigger] texts(rest@)[k] == all.skip(
                i + 1,
            )[k] by {
                assert(rest@[k] == before[k + 1]);
                assert(texts(before)[k + 1] == all.skip(i)[k + 1]);
            }
            assert(texts(rest@) =~= all.skip(i + 1));
            assert(all.take(i + 1).drop_last() =~= all.take(i));
            if i > 0 {
                lemma_dedup_last(all.take(i));
            }
        }
        let keep = if out.len() == 0 {
            true
        } else {
            let last = out.len() - 1;
            !(out[last] == s)
        };
        if keep {
            out.push(s);
        }
        proof {
            i = i + 1;
            assert(texts(out@) =~= dedup_consecutive(all.take(i)));
        }
    }
    proof {
        assert(all.take(i) =~= all);
    }
    out
}

/// `a` followed by `b`, deduplicated.
fn join_paths(a: Vec<String>, b: Vec<String>) -> (r: Vec<String>)
    ensures
        texts(r@) == dedup_consecutive(texts(a@) + texts(b@)),
{
    let mut all = a;
    let mut more = b;
    let ghost t0 = texts(all@);
    let ghost t1 = texts(more@);
    all.append(&mut more);
    assert(texts(all@) =~= t0 + t1);
    dedup_strings(all)
}

/// Permissions of a module.
#[derive(Default, Debug, Clone)]
pub struct ModuleScope {
    pub allow_string_api: bool,
    pub allow_path_api: bool,
    pub allow_task_api: bool,
    pub allow_system_api: bool,
    pub allow_filesystem_api: bool,
    pub allow_http_api: bool,
    pub allow_downloader_api: bool,
    pub allow_archive_api: bool,
    pub allow_hash_api: bool,
    pub allow_compression_api: bool,
    pub allow_sqlite_api: bool,
    pub allow_protobuf_api: bool,
    pub allow_torrent_api: bool,
    pub allow_portal_api: bool,
    pub allow_secrets_api: bool,
    pub allow_process_api: bool,
    /// Paths the module may read.
    pub sandbox_read_paths: Vec<String>,
    /// Paths the module may read and write.
    pub sandbox_write_paths: Vec<String>,
    /// Secrets containers the module may read.
    pub secrets_read_containers: Vec<String>,
    /// Secrets containers the module may write.
    pub secrets_write_containers: Vec<String>,
}

/// The permission flag at index `i`, in the order of the `allow_*` fields.
pub open spec fn scope_flag(s: ModuleScope, i: int) -> bool {
    if i == 0 {
        s.allow_string_api
    } else if i == 1 {
        s.allow_path_api
    } else if i == 2 {
        s.allow_task_api
    } else if i == 3 {
        s.allow_system_api
    } else if i == 4 {
        s.allow_filesystem_api
    } else if i == 5 {
        s.allow_http_api
    } else if i == 6 {
        s.allow_downloader_api
    } else if i == 7 {
        s.allow_archive_api
    } else if i == 8 {
        s.allow_hash_api
    } else if i == 9 {
        s.allow_compression_api
    } else if i == 10 {
        s.allow_sqlite_api
    } else if i == 11 {
        s.allow_protobuf_api
    } else if i == 12 {
        s.allow_torrent_api
    } else if i == 13 {
        s.allow_portal_api
    } else if i == 14 {
        s.allow_secrets_api
    } else {
        s.allow_process_api
    }
}

/// What a module scope holds.
pub struct ScopeView {
    /// Which APIs are allowed, in the order of the `allow_*` fields.
    pub allow: Seq<bool>,
    pub read_paths: Seq<Seq<char>>,
    pub write_paths: Seq<Seq<char>>,
    pub secrets_read: Seq<Seq<char>>,
    pub secrets_write: Seq<Seq<char>>,
}

/// Number of API permission flags.
pub open spec fn api_count() -> nat {
    16
}

/// The flags that merging scopes joins; the others are kept from the
/// scope merged into.
pub open spec fn merged_flag(i: int) -> bool {
    i == 0 || i == 1 || i == 2 || i == 4 || i == 5 || i == 6 || i == 7 || i == 8 || i == 9 || i == 10 || i == 12 || i == 13 || i == 15
}

impl View for ModuleScope {
    type V = ScopeView;

    open spec fn view(&self) -> ScopeView {
        ScopeView {
            allow: Seq::new(api_count(), |i: int| scope_flag(*self, i)),
            read_paths: texts(self.sandbox_read_paths@),
            write_paths: texts(self.sandbox_write_paths@),
            secrets_read: texts(self.secrets_read_containers@),
            secrets_write: texts(self.secrets_write_containers@),
        }
    }
}

/// The empty scope: nothing allowed.
pub open spec fn empty_scope() -> ScopeView {
    ScopeView {
        allow: Seq::new(api_count(), |i: int| false),
        read_paths: Seq::empty(),
        write_paths: Seq::empty(),
        secrets_read: Seq::empty(),
        secrets_write: Seq::empty(),
    }
}

/// `base` extended by `extra`: the joined flags are or-ed, the sandbox paths
/// appended and deduplicated; the other flags and the secrets containers are
/// those of `base`.
pub open spec fn merge_scopes(base: ScopeView, extra: ScopeView) -> ScopeView {
    ScopeView {
        allow: Seq::new(
            api_count(),
            |i: int|
                if merged_flag(i) {
                    base.allow[i] || extra.allow[i]
                } else {
                    base.allow[i]
                },
        ),
        read_paths: dedup_consecutive(base.read_paths + extra.read_paths),
        write_paths: dedup_consecutive(base.write_paths + extra.write_paths),
        secrets_read: base.secrets_read,
        secrets_write: base.secrets_write,
    }
}

/// Merging never takes a permission away: what `base` allows stays
/// allowed, and so does every joined flag that `extra` allows.
pub proof fn lemma_merge_keeps_permissions(base: ScopeView, extra: ScopeView, i: int)
    requires
        base.allow.len() == api_count(),
        0 <= i < api_count(),
    ensures
        base.allow[i] ==> merge_scopes(base, extra).allow[i],
        merged_flag(i) && extra.allow[i] ==> merge_scopes(base, extra).allow[i],
        merge_scopes(base, extra).secrets_read == base.secrets_read,
{
}

/// The last sandbox path given survives the merge.
pub proof fn lemma_merge_keeps_last_path(base: ScopeView, extra: ScopeView)
    requires
        extra.read_paths.len() > 0,
    ensures
        merge_scopes(base, extra).read_paths.last() == extra.read_paths.last(),
{
    lemma_dedup_last(base.read_paths + extra.read_paths);
}

impl ModuleScope {
    /// A scope that allows nothing.
    pub fn new() -> (r: ModuleScope)
        ensures
            r@ == empty_scope(),
    {
        let r = ModuleScope {
            allow_string_api: false,
            allow_path_api: false,
            allow_task_api: false,
            allow_system_api: false,
            allow_filesystem_api: false,
            allow_http_api: false,
            allow_downloader_api: false,
            allow_archive_api: false,
            allow_hash_api: false,
            allow_compression_api: false,
            allow_sqlite_api: false,
            allow_protobuf_api: false,
            allow_torrent_api: false,
            allow_portal_api: false,
            allow_secrets_api: false,
            allow_process_api: false,
            sandbox_read_paths: Vec::new(),
            sandbox_write_paths: Vec::new(),
            secrets_read_containers: Vec::new(),
            secrets_write_containers: Vec::new(),
        };
        assert(r@.allow =~= empty_scope().allow);
        assert(r@.read_paths =~= Seq::<Seq<char>>::empty());
        assert(r@.write_paths =~= Seq::<Seq<char>>::empty());
        assert(r@.secrets_read =~= Seq::<Seq<char>>::empty());
        assert(r@.secrets_write =~= Seq::<Seq<char>>::empty());
        r
    }

    /// Extend this scope by `extra`.
    pub fn merge(self, extra: ModuleScope) -> (r: ModuleScope)
        ensures
            r@ == merge_scopes(self@, extra@),
    {
        let read = join_paths(self.sandbox_read_paths, extra.sandbox_read_paths);
        let write = join_paths(self.sandbox_write_paths, extra.sandbox_write_paths);
        let r = ModuleScope {
            allow_string_api: self.allow_string_api || extra.allow_string_api,
            allow_path_api: self.allow_path_api || extra.allow_path_api,
            allow_task_api: self.allow_task_api || extra.allow_task_api,
            allow_system_api: self.allow_system_api,
            allow_filesystem_api: self.allow_filesystem_api || extra.allow_filesystem_api,
            allow_http_api: self.allow_http_api || extra.allow_http_api,
            allow_downloader_api: self.allow_downloader_api || extra.allow_downloader_api,
            allow_archive_api: self.allow_archive_api || extra.allow_archive_api,
            allow_hash_api: self.allow_hash_api || extra.allow_hash_api,
            allow_compression_api: self.allow_compression_api || extra.allow_compression_api,
            allow_sqlite_api: self.allow_sqlite_api || extra.allow_sqlite_api,
            allow_protobuf_api: self.allow_protobuf_api,
            allow_torrent_api: self.allow_torrent_api || extra.allow_torrent_api,
            allow_portal_api: self.allow_portal_api || extra.allow_portal_api,
            allow_secrets_api: self.allow_secrets_api,
            allow_process_api: self.allow_process_api || extra.allow_process_api,
            sandbox_read_paths: read,
            sandbox_write_paths: write,
            secrets_read_containers: self.secrets_read_containers,
            secrets_write_containers: self.secrets_write_containers,
        };
        assert(r@.allow =~= merge_scopes(self@, extra@).allow);
        r
    }

    /// The permission flag at index `i`, in the order of the `allow_*`
    /// fields.
    pub fn flag_at(&self, i: usize) -> (r: bool)
        requires
            i < api_count(),
        ensures
            r == self@.allow[i as int],
    {
        if i == 0 {
            self.allow_string_api
        } else if i == 1 {
            self.allow_path_api
        } else if i == 2 {
            self.allow_task_api
        } else if i == 3 {
            self.allow_system_api
        } else if i == 4 {
            self.allow_filesystem_api
        } else if i == 5 {
            self.allow_http_api
        } else if i == 6 {
            self.allow_downloader_api
        } else if i == 7 {
            self.allow_archive_api
        } else if i == 8 {
            self.allow_hash_api
        } else if i == 9 {
            self.allow_compression_api
        } else if i == 10 {
            self.allow_sqlite_api
        } else if i == 11 {
            self.allow_protobuf_api
        } else if i == 12 {
            self.allow_torrent_api
        } else if i == 13 {
            self.allow_portal_api
        } else if i == 14 {
            self.allow_secrets_api
        } else {
            self.allow_process_api
        }
    }

    /// Names of the API tables a module with this scope gets, in the order
    /// they are set up; the torrent API needs a torrent server.
    pub fn enabled_apis(&self, torrent_available: bool) -> (r: Vec<&'static str>)
        ensures
            str_texts(r@) == enabled_api_names(self@, torrent_available),
    {
        let mut r: Vec<&'static str> = Vec::new();
        let mut i: usize = 0;
        assert(str_texts(r@) =~= enabled_prefix(self@, torrent_available, 0));
        while i < 16
            invariant
                i <= api_count(),
                str_texts(r@) == enabled_prefix(self@, torrent_available, i as int),
            decreases api_count() - i,
        {
            if self.flag_at(i) && (i != 12 || torrent_available) {
                r.push(api_table_name_of(i));
            }
            assert(str_texts(r@) =~= enabled_prefix(self@, torrent_available, i + 1));
            i = i + 1;
        }
        r
    }
}

/// Texts of a sequence of string slices.
pub open spec fn str_texts(v: Seq<&'static str>) -> Seq<Seq<char>> {
    v.map_values(|s: &'static str| s@)
}

/// Name of the API table of the flag at index `i`.
fn api_table_name_of(i: usize) -> (r: &'static str)
    requires
        i < api_count(),
    ensures
        r@ == api_table_name(i as int),
{
    if i == 0 {
        "str"
    } else if i == 1 {
        "path"
    } else if i == 2 {
        "task"
    } else if i == 3 {
        "system"
    } else if i == 4 {
        "fs"
    } else if i == 5 {
        "http"
    } else if i == 6 {
        "downloader"
    } else if i == 7 {
        "archive"
    } else if i == 8 {
        "hash"
    } else if i == 9 {
        "compression"
    } else if i == 10 {
        "sqlite"
    } else if i == 11 {
        "protobuf"
    } else if i == 12 {
        "torrent"
    } else if i == 13 {
        "portal"
    } else if i == 14 {
        "secrets"
    } else {
        "process"
    }
}

/// Name of the API table of each permission flag.
pub open spec fn api_table_name(i: int) -> Seq<char> {
    if i == 0 {
        "str"@
    } else if i == 1 {
        "path"@
    } else if i == 2 {
        "task"@
    } else if i == 3 {
        "system"@
    } else if i == 4 {
        "fs"@
    } else if i == 5 {
        "http"@
    } else if i == 6 {
        "downloader"@
    } else if i == 7 {
        "archive"@
    } else if i == 8 {
        "hash"@
    } else if i == 9 {
        "compression"@
    } else if i == 10 {
        "sqlite"@
    } else if i == 11 {
        "protobuf"@
    } else if i == 12 {
        "torrent"@
    } else if i == 13 {
        "portal"@
    } else if i == 14 {
        "secrets"@
    } else if i == 15 {
        "process"@
    } else {
        Seq::empty()
    }
}

/// Names of the API tables granted by the first `k` flags of `s`.
pub open spec fn enabled_prefix(s: ScopeView, torrent_available: bool, k: int) -> Seq<Seq<char>>
    decreases k,
{
    if k <= 0 {
        Seq::empty()
    } else {
        let i = k - 1;
        let rest = enabled_prefix(s, torrent_available, i);
        if s.allow[i] && (i != 12 || torrent_available) {
            rest.push(api_table_name(i))
        } else {
            rest
        }
    }
}

/// Names of the API tables a module with scope `s` gets.
pub open spec fn enabled_api_names(s: ScopeView, torrent_available: bool) -> Seq<Seq<char>> {
    enabled_prefix(s, torrent_available, api_count() as int)
}

/// Length and first two characters of the name of the API table at `i`.
spec fn api_name_key(i: int) -> (int, char, char) {
    if i == 0 {
        (3, 's', 't')
    } else if i == 1 {
        (4, 'p', 'a')
    } else if i == 2 {
        (4, 't', 'a')
    } else if i == 3 {
        (6, 's', 'y')
    } else if i == 4 {
        (2, 'f', 's')
    } else if i == 5 {
        (4, 'h', 't')
    } else if i == 6 {
        (10, 'd', 'o')
    } else if i == 7 {
        (7, 'a', 'r')
    } else if i == 8 {
        (4, 'h', 'a')
    } else if i == 9 {
        (11, 'c', 'o')
    } else if i == 10 {
        (6, 's', 'q')
    } else if i == 11 {
        (8, 'p', 'r')
    } else if i == 12 {
        (7, 't', 'o')
    } else if i == 13 {
        (6, 'p', 'o')
    } else if i == 14 {
        (7, 's', 'e')
    } else if i == 15 {
        (7, 'p', 'r')
    } else {
        (0, ' ', ' ')
    }
}

/// The name of the API table at `i` has length and first characters
/// `api_name_key(i)`.
proof fn lemma_api_name_key(i: int)
    requires
        0 <= i < api_count(),
    ensures
        api_table_name(i).len() >= 2,
        api_name_key(i) == (api_table_name(i).len() as int, api_table_name(i)[0], api_table_name(i)[1]),
{
    reveal_strlit("str");
    reveal_strlit("path");
    reveal_strlit("task");
    reveal_strlit("system");
    reveal_strlit("fs");
    reveal_strlit("http");
    reveal_strlit("downloader");
    reveal_strlit("archive");
    reveal_strlit("hash");
    reveal_strlit("compression");
    reveal_strlit("sqlite");
    reveal_strlit("protobuf");
    reveal_strlit("torrent");
    reveal_strlit("portal");
    reveal_strlit("secrets");
    reveal_strlit("process");
}

/// The API tables have distinct names.
proof fn lemma_api_names_distinct(i: int, j: int)
    requires
        0 <= i < api_count(),
        0 <= j < api_count(),
        i != j,
    ensures
        api_table_name(i) != api_table_name(j),
{
    lemma_api_name_key(i);
    lemma_api_name_key(j);
}

/// The first `k` flags grant the table at `i` exactly when `i` is among
/// them, its flag is set, and (for the torrent table) torrents are available.
proof fn lemma_enabled_prefix_contains(s: ScopeView, torrent_available: bool, k: int, i: int)
    requires
        0 <= k <= api_count(),
        0 <= i < api_count(),
    ensures
        enabled_prefix(s, torrent_available, k).contains(api_table_name(i)) <==> (i < k && s.allow[i]
            && (i != 12 || torrent_available)),
    decreases k,
{
    if k > 0 {
        lemma_enabled_prefix_contains(s, torrent_available, k - 1, i);
        let rest = enabled_prefix(s, torrent_available, k - 1);
        if s.allow[k - 1] && (k - 1 != 12 || torrent_available) {
            assert(rest.push(api_table_name(k - 1)).last() == api_table_name(k - 1));
            if i != k - 1 {
                lemma_api_names_distinct(i, k - 1);
                assert(rest.push(api_table_name(k - 1)).contains(api_table_name(i)) ==> rest.contains(
                    api_table_name(i),
                )) by {
                    if rest.push(api_table_name(k - 1)).contains(api_table_name(i)) {
                        let m = choose|m: int|
                            0 <= m < rest.len() + 1 && #[trigger] rest.push(api_table_name(k - 1))[m]
                                == api_table_name(i);
                        assert(m < rest.len());
                        assert(rest[m] == api_table_name(i));
                    }
                }
                assert(rest.contains(api_table_name(i)) ==> rest.push(api_table_name(k - 1)).contains(
                    api_table_name(i),
                )) by {
                    if rest.contains(api_table_name(i)) {
                        let m = choose|m: int| 0 <= m < rest.len() && #[trigger] rest[m] == api_table_name(i);
                        assert(rest.push(api_table_name(k - 1))[m] == api_table_name(i));
                    }
                }
            } else {
                assert(rest.push(api_table_name(k - 1))[rest.len() as int] == api_table_name(i));
            }
        }
    }
}

/// A module gets the API table at `i` exactly when its scope allows that
/// API (and, for the torrent table, torrents are available).
pub proof fn lemma_enabled_api_names(s: ScopeView, torrent_available: bool, i: int)
    requires
        0 <= i < api_count(),
    ensures
        enabled_api_names(s, torrent_available).contains(api_table_name(i)) <==> (s.allow[i] && (i
            != 12 || torrent_available)),
{
    lemma_enabled_prefix_contains(s, torrent_available, api_count() as int, i);
}


/// Merging scopes, field by field: the string, path, task, filesystem,
/// http, downloader, archive, hash, compression, sqlite, torrent, portal
/// and process permissions of the result are those of either scope; the
/// system, protobuf and secrets permissions are those of the scope merged
/// into.
pub proof fn lemma_merge_named_flags(a: ModuleScope, b: ModuleScope, r: ModuleScope)
    requires
        r@ == merge_scopes(a@, b@),
    ensures
        r.allow_string_api == (a.allow_string_api || b.allow_string_api),
        r.allow_path_api == (a.allow_path_api || b.allow_path_api),
        r.allow_task_api == (a.allow_task_api || b.allow_task_api),
        r.allow_filesystem_api == (a.allow_filesystem_api || b.allow_filesystem_api),
        r.allow_http_api == (a.allow_http_api || b.allow_http_api),
        r.allow_downloader_api == (a.allow_downloader_api || b.allow_downloader_api),
        r.allow_archive_api == (a.allow_archive_api || b.allow_archive_api),
        r.allow_hash_api == (a.allow_hash_api || b.allow_hash_api),
        r.allow_compression_api == (a.allow_compression_api || b.allow_compression_api),
        r.allow_sqlite_api == (a.allow_sqlite_api || b.allow_sqlite_api),
        r.allow_torrent_api == (a.allow_torrent_api || b.allow_torrent_api),
        r.allow_portal_api == (a.allow_portal_api || b.allow_portal_api),
        r.allow_process_api == (a.allow_process_api || b.allow_process_api),
        r.allow_system_api == a.allow_system_api,
        r.allow_protobuf_api == a.allow_protobuf_api,
        r.allow_secrets_api == a.allow_secrets_api,
{
    assert(r@.allow[0] == r.allow_string_api && a@.allow[0] == a.allow_string_api && b@.allow[0] == b.allow_string_api);
    assert(r@.allow[1] == r.allow_path_api && a@.allow[1] == a.allow_path_api && b@.allow[1] == b.allow_path_api);
    assert(r@.allow[2] == r.allow_task_api && a@.allow[2] == a.allow_task_api && b@.allow[2] == b.allow_task_api);
    assert(r@.allow[3] == r.allow_system_api && a@.allow[3] == a.allow_system_api && b@.allow[3] == b.allow_system_api);
    assert(r@.allow[4] == r.allow_filesystem_api && a@.allow[4] == a.allow_filesystem_api && b@.allow[4] == b.allow_filesystem_api);
    assert(r@.allow[5] == r.allow_http_api && a@.allow[5] == a.allow_http_api && b@.allow[5] == b.allow_http_api);
    assert(r@.allow[6] == r.allow_downloader_api && a@.allow[6] == a.allow_downloader_api && b@.allow[6] == b.allow_downloader_api);
    assert(r@.allow[7] == r.allow_archive_api && a@.allow[7] == a.allow_archive_api && b@.allow[7] == b.allow_archive_api);
    assert(r@.allow[8] == r.allow_hash_api && a@.allow[8] == a.allow_hash_api && b@.allow[8] == b.allow_hash_api);
    assert(r@.allow[9] == r.allow_compression_api && a@.allow[9] == a.allow_compression_api && b@.allow[9] == b.allow_compression_api);
    assert(r@.allow[10] == r.allow_sqlite_api && a@.allow[10] == a.allow_sqlite_api && b@.allow[10] == b.allow_sqlite_api);
    assert(r@.allow[11] == r.allow_protobuf_api && a@.allow[11] == a.allow_protobuf_api && b@.allow[11] == b.allow_protobuf_api);
    assert(r@.allow[12] == r.allow_torrent_api && a@.allow[12] == a.allow_torrent_api && b@.allow[12] == b.allow_torrent_api);
    assert(r@.allow[13] == r.allow_portal_api && a@.allow[13] == a.allow_portal_api && b@.allow[13] == b.allow_portal_api);
    assert(r@.allow[14] == r.allow_secrets_api && a@.allow[14] == a.allow_secrets_api && b@.allow[14] == b.allow_secrets_api);
    assert(r@.allow[15] == r.allow_process_api && a@.allow[15] == a.allow_process_api && b@.allow[15] == b.allow_process_api);
}

proof fn lemma_merge_allow_at(base: ScopeView, extra: ModuleScope, i: int)
    requires
        0 <= i < api_count(),
    ensures
        merge_scopes(base, extra@).allow[i] == (if merged_flag(i) {
            base.allow[i] || scope_flag(extra, i)
        } else {
            base.allow[i]
        }),
{
}

/// Adding the scope `extra` to the scope `base` a module already has (as an
/// allow list does): each permission that adding joins is granted whenever
/// `extra` grants it, field by field of `extra`.
pub proof fn lemma_added_scope_flags(base: ScopeView, extra: ModuleScope)
    requires
        base.allow.len() == api_count(),
    ensures
        merge_scopes(base, extra@).allow[0] == (base.allow[0] || extra.allow_string_api),
        merge_scopes(base, extra@).allow[1] == (base.allow[1] || extra.allow_path_api),
        merge_scopes(base, extra@).allow[2] == (base.allow[2] || extra.allow_task_api),
        merge_scopes(base, extra@).allow[4] == (base.allow[4] || extra.allow_filesystem_api),
        merge_scopes(base, extra@).allow[5] == (base.allow[5] || extra.allow_http_api),
        merge_scopes(base, extra@).allow[6] == (base.allow[6] || extra.allow_downloader_api),
        merge_scopes(base, extra@).allow[7] == (base.allow[7] || extra.allow_archive_api),
        merge_scopes(base, extra@).allow[8] == (base.allow[8] || extra.allow_hash_api),
        merge_scopes(base, extra@).allow[9] == (base.allow[9] || extra.allow_compression_api),
        merge_scopes(base, extra@).allow[10] == (base.allow[10] || extra.allow_sqlite_api),
        merge_scopes(base, extra@).allow[12] == (base.allow[12] || extra.allow_torrent_api),
        merge_scopes(base, extra@).allow[13] == (base.allow[13] || extra.allow_portal_api),
        merge_scopes(base, extra@).allow[15] == (base.allow[15] || extra.allow_process_api),
        merge_scopes(base, extra@).allow[3] == base.allow[3],
        merge_scopes(base, extra@).allow[11] == base.allow[11],
        merge_scopes(base, extra@).allow[14] == base.allow[14],
{
    lemma_merge_allow_at(base, extra, 0);
    lemma_merge_allow_at(base, extra, 1);
    lemma_merge_allow_at(base, extra, 2);
    lemma_merge_allow_at(base, extra, 3);
    lemma_merge_allow_at(base, extra, 4);
    lemma_merge_allow_at(base, extra, 5);
    lemma_merge_allow_at(base, extra, 6);
    lemma_merge_allow_at(base, extra, 7);
    lemma_merge_allow_at(base, extra, 8);
    lemma_merge_allow_at(base, extra, 9);
    lemma_merge_allow_at(base, extra, 10);
    lemma_merge_allow_at(base, extra, 11);
    lemma_merge_allow_at(base, extra, 12);
    lemma_merge_allow_at(base, extra, 13);
    lemma_merge_allow_at(base, extra, 14);
    lemma_merge_allow_at(base, extra, 15);
}

} // verus!
