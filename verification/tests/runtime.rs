use agl::allow_list::AllowList;
use agl::bytes::{Bytes, BytesError, SeekPosition};
use agl::download::{plan_download, range_header, DownloadPlan, DownloadProgress};
use agl::game_tag::GameTag;
use agl::sandbox::{is_parent_of, ApiContext, ModuleContext};
use agl::scope::ModuleScope;

fn scope_with(read: &[&str], write: &[&str]) -> ModuleScope {
    let mut s = ModuleScope::new();
    s.sandbox_read_paths = read.iter().map(|p| p.to_string()).collect();
    s.sandbox_write_paths = write.iter().map(|p| p.to_string()).collect();
    s
}

fn context(scope: ModuleScope) -> ModuleContext {
    ModuleContext {
        temp_dir: "/tmp".to_string(),
        module_dir: "/data/modules/abc".to_string(),
        persistent_dir: "/data/persistent".to_string(),
        scope,
    }
}

#[test]
fn path_parents() {
    assert!(is_parent_of("/a/b", "/a/b/c"));
    assert!(is_parent_of("/a/b/", "/a//b/./c"));
    assert!(!is_parent_of("/a/b", "/a/c"));
    // Components are compared as far as both paths go.
    assert!(is_parent_of("/a/b/c", "/a/b"));
    assert!(!is_parent_of("a/b", "/a/b"));
}

#[test]
fn module_paths() {
    let ctx = context(scope_with(&["/games/read"], &["/games/write"]));
    assert!(ctx.can_read_path("/tmp/x"));
    assert!(ctx.can_write_path("/data/modules/abc/state.json"));
    assert!(ctx.can_read_path("/games/read/file"));
    assert!(!ctx.can_write_path("/games/read/file"));
    assert!(ctx.can_read_path("/games/write/file"));
    assert!(ctx.can_write_path("/games/write/file"));
    assert!(!ctx.can_read_path("/etc/passwd"));
}

#[test]
fn secrets_containers() {
    let mut scope = ModuleScope::new();
    scope.secrets_read_containers = vec!["tokens".to_string()];
    scope.secrets_write_containers = vec!["cache".to_string()];
    let ctx = context(scope);
    assert!(ctx.can_read_secrets_container("tokens"));
    assert!(!ctx.can_read_secrets_container("cache"));
    assert!(ctx.can_write_secrets_container("cache"));
    assert!(!ctx.can_write_secrets_container("tokens"));
}

#[test]
fn private_paths() {
    let api = ApiContext { private_paths: vec!["/data/secrets.db".to_string()] };
    assert!(!api.can_access_path("/data/secrets.db"));
    assert!(api.can_access_path("/data/other"));
}

#[test]
fn scope_merge() {
    let mut a = scope_with(&["/a", "/b"], &[]);
    a.allow_system_api = true;
    let mut b = scope_with(&["/b", "/c"], &["/w"]);
    b.allow_http_api = true;
    b.allow_system_api = false;
    b.allow_secrets_api = true;
    let m = a.merge(b);
    assert!(m.allow_http_api);
    assert!(m.allow_system_api);
    // Only some flags are joined.
    assert!(!m.allow_secrets_api);
    assert_eq!(m.sandbox_read_paths, vec!["/a", "/b", "/c"]);
    assert_eq!(m.sandbox_write_paths, vec!["/w"]);
    // Deduplication only removes consecutive duplicates.
    let m2 = scope_with(&["/x", "/y"], &[]).merge(scope_with(&["/x"], &[]));
    assert_eq!(m2.sandbox_read_paths, vec!["/x", "/y", "/x"]);
}

#[test]
fn enabled_apis() {
    let mut s = ModuleScope::new();
    s.allow_string_api = true;
    s.allow_filesystem_api = true;
    s.allow_torrent_api = true;
    s.allow_process_api = true;
    assert_eq!(s.enabled_apis(false), vec!["str", "fs", "process"]);
    assert_eq!(s.enabled_apis(true), vec!["str", "fs", "torrent", "process"]);
    assert!(s.flag_at(0));
    assert!(!s.flag_at(1));
}

#[test]
fn allow_list() {
    let h1 = agl::hash::Hash::digitize(b"module one");
    let h2 = agl::hash::Hash::digitize(b"module two");
    let mut list = AllowList::new();
    let mut s = ModuleScope::new();
    s.allow_hash_api = true;
    list.add_module_scope(h1, s);
    assert!(list.get_module_scope(&h2).is_none());
    assert!(list.get_module_scope(&h1).unwrap().allow_hash_api);

    let mut other = AllowList::new();
    let mut s2 = ModuleScope::new();
    s2.allow_archive_api = true;
    other.add_module_scope(h1, s2.clone());
    other.add_module_scope(h2, s2);
    list.merge_with(other);
    let got = list.get_module_scope(&h1).unwrap();
    assert!(got.allow_hash_api && got.allow_archive_api);
    assert!(list.get_module_scope(&h2).unwrap().allow_archive_api);
    assert_eq!(list.scopes().len(), 2);
}

#[test]
fn bytes_reading() {
    let mut b = Bytes::new(vec![1, 2, 3, 4, 5]);
    assert_eq!(b.len(), 5);
    assert!(!b.is_empty());
    let mut two = [0u8; 2];
    b.read_exact(&mut two).unwrap();
    assert_eq!(two, [1, 2]);
    assert_eq!(b.stream_position().unwrap(), 2);
    let mut four = [0u8; 4];
    assert_eq!(b.read_exact(&mut four), Err(BytesError::UnexpectedEof));
    assert_eq!(b.pos(), 2);
    let mut rest = [0u8; 3];
    assert_eq!(b.read(&mut rest).unwrap(), 3);
    assert_eq!(rest, [3, 4, 5]);
    let mut none = [0u8; 0];
    assert_eq!(b.read(&mut none).unwrap(), 0);
    b.rewind().unwrap();
    let mut big = [9u8; 8];
    assert_eq!(b.read(&mut big).unwrap(), 5);
    assert_eq!(big, [1, 2, 3, 4, 5, 9, 9, 9]);
    b.rewind().unwrap();
    let mut small = [0u8; 2];
    assert_eq!(b.read(&mut small).unwrap(), 2);
    assert_eq!(small, [1, 2]);
    assert_eq!(b.pos(), 2);
    b.rewind().unwrap();
    let mut all = [0u8; 5];
    assert_eq!(b.read_to_end(&mut all).unwrap(), 5);
    assert_eq!(all, [1, 2, 3, 4, 5]);
    assert_eq!(b.as_slice(), &[1, 2, 3, 4, 5]);
}

#[test]
fn seek_from_end_counts_back() {
    let mut b = Bytes::new(vec![1, 2, 3, 4, 5]);
    assert_eq!(b.seek(SeekPosition::End(-2)).unwrap(), 3);
    assert_eq!(b.stream_position().unwrap(), 3);
    assert_eq!(b.seek(SeekPosition::Start(6)), Err(BytesError::UnexpectedEof));
    assert_eq!(b.stream_position().unwrap(), 3);
}

#[test]
fn bytes_seeking() {
    let mut b = Bytes::new(vec![0; 10]);
    assert_eq!(b.seek(SeekPosition::Start(4)).unwrap(), 4);
    assert_eq!(b.seek(SeekPosition::Current(3)).unwrap(), 7);
    assert_eq!(b.seek(SeekPosition::Current(-10)), Err(BytesError::UnexpectedEof));
    assert_eq!(b.pos(), 7);
    assert_eq!(b.seek(SeekPosition::End(-2)).unwrap(), 8);
    assert_eq!(b.seek(SeekPosition::End(1)), Err(BytesError::UnexpectedEof));
    assert_eq!(b.seek(SeekPosition::End(-11)), Err(BytesError::UnexpectedEof));
    assert_eq!(b.pos(), 8);
    assert_eq!(b.seek(SeekPosition::End(0)).unwrap(), 10);
    assert_eq!(b.seek(SeekPosition::Start(11)), Err(BytesError::UnexpectedEof));
    assert_eq!(b.seek(SeekPosition::Start(10)).unwrap(), 10);
    assert!(Bytes::new(vec![]).is_empty());
}

#[test]
fn download_plans() {
    assert_eq!(range_header(0), "bytes=0-");
    assert_eq!(range_header(10312443), "bytes=10312443-");
    assert_eq!(plan_download(5, 416, None, None), DownloadPlan::Finished(5));
    assert_eq!(plan_download(100, 206, Some("50"), None), DownloadPlan::Stream(150));
    assert_eq!(plan_download(100, 206, Some("50"), Some("bytes 100-149/150")), DownloadPlan::Stream(150));
    assert_eq!(plan_download(100, 206, Some("x"), Some("bytes 100-149/*")), DownloadPlan::Stream(0));
    assert_eq!(plan_download(7, 200, Some("1"), Some("bytes */7")), DownloadPlan::Finished(7));
    assert_eq!(plan_download(0, 200, None, Some("items 1-2/3")), DownloadPlan::Stream(0));
    let mut p = DownloadProgress::new(10);
    assert_eq!(p.on_chunk(5), (15, 0, 5));
    p.total = 40;
    assert_eq!(p.on_chunk(25), (40, 40, 25));
}

#[test]
fn game_tags() {
    assert_eq!(GameTag::from_text("f2p"), GameTag::FreeToPlay);
    assert_eq!(GameTag::from_text("R18"), GameTag::AdultContent);
    assert_eq!(GameTag::from_text("18+"), GameTag::AdultContent);
    assert_eq!(GameTag::from_text("roguelike"), GameTag::Other("roguelike".to_string()));
    assert_eq!(GameTag::from_str("nope"), Err(()));
    for t in [
        GameTag::FreeToPlay,
        GameTag::Cooperative,
        GameTag::SocialFeatures,
        GameTag::ControllerSupport,
        GameTag::Gambling,
        GameTag::InGamePurchases,
        GameTag::GraphicViolence,
        GameTag::AdultContent,
    ] {
        assert_eq!(GameTag::from_text(&t.to_string()), t);
    }
    assert_eq!(GameTag::Other("coop".to_string()).to_string(), "coop");
    assert_eq!(GameTag::from_text("coop"), GameTag::Cooperative);
}

#[test]
fn enabled_apis_follow_the_flags() {
    let mut scope = ModuleScope::new();
    scope.allow_hash_api = true;
    scope.allow_torrent_api = true;
    assert_eq!(scope.enabled_apis(false), vec!["hash"]);
    assert_eq!(scope.enabled_apis(true), vec!["hash", "torrent"]);
}
