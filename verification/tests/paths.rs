use agl::path_digest::PathDigest;
use agl::path_order::{bytes_le_exec, sort_byte_strings};

#[test]
fn byte_order() {
    assert!(bytes_le_exec(b"a", b"b"));
    assert!(bytes_le_exec(b"a", b"ab"));
    assert!(bytes_le_exec(b"", b""));
    assert!(bytes_le_exec(b"ab", b"ab"));
    assert!(!bytes_le_exec(b"b", b"ab"));
    assert!(!bytes_le_exec(b"ab", b"a"));
    assert!(bytes_le_exec(b"Z", b"a"));
}

#[test]
fn sorting_byte_strings() {
    let sorted = sort_byte_strings(vec![
        b"dir/b".to_vec(),
        b"dir/a.txt".to_vec(),
        b"dir/a".to_vec(),
        b"dir/B".to_vec(),
        b"dir/a".to_vec(),
    ]);

    assert_eq!(
        sorted,
        vec![
            b"dir/B".to_vec(),
            b"dir/a".to_vec(),
            b"dir/a".to_vec(),
            b"dir/a.txt".to_vec(),
            b"dir/b".to_vec(),
        ]
    );
    assert!(sort_byte_strings(vec![]).is_empty());
}

#[test]
fn folder_walk_is_breadth_first_and_sorted() {
    let mut walk = PathDigest::new(b"root".to_vec());

    assert_eq!(walk.next_entry(), Some((b"root".to_vec(), false)));
    walk.visit(false, Some(b"root"));
    walk.on_folder(vec![b"root/sub".to_vec(), b"root/file".to_vec()]);

    assert_eq!(walk.next_entry(), Some((b"root/file".to_vec(), true)));
    walk.visit(true, Some(b"file"));
    walk.feed_content(b"content");

    assert_eq!(walk.next_entry(), Some((b"root/sub".to_vec(), true)));
    walk.visit(true, Some(b"sub"));
    walk.on_folder(vec![b"root/sub/x".to_vec()]);

    assert_eq!(walk.next_entry(), Some((b"root/sub/x".to_vec(), true)));
    walk.visit(true, None);
    walk.feed_content(b"!");

    assert_eq!(walk.next_entry(), None);

    let expected = agl::hash::Hash::digitize(b"filecontentsub!");
    assert_eq!(walk.finish(), expected);
}

#[test]
fn file_walk_hashes_the_content_only() {
    let mut walk = PathDigest::new(b"/tmp/f.txt".to_vec());

    let (_, include_name) = walk.next_entry().unwrap();
    walk.visit(include_name, Some(b"f.txt"));
    walk.feed_content(b"Hello, ");
    walk.feed_content(b"World!");

    assert_eq!(walk.next_entry(), None);
    assert_eq!(walk.finish(), agl::hash::Hash::digitize(b"Hello, World!"));
}
