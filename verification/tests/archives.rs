use agl::archive::{parse_sevenz_listing, parse_tar_listing, sevenz_listing_is_complete, Archive, ArchiveEntry, ExtractProgress};
use agl::archive_format::ArchiveFormat;
use agl::buffer::Buffer;

#[test]
fn formats_from_names() {
    assert_eq!(ArchiveFormat::from_filename("dxvk-2.6.1.tar.gz"), Some(ArchiveFormat::Tar));
    assert_eq!(ArchiveFormat::from_filename("game.tar.zstd"), Some(ArchiveFormat::Tar));
    assert_eq!(ArchiveFormat::from_filename("a.zip"), Some(ArchiveFormat::Zip));
    assert_eq!(ArchiveFormat::from_filename("a.zip.001"), Some(ArchiveFormat::Sevenz));
    assert_eq!(ArchiveFormat::from_filename("a.7z"), Some(ArchiveFormat::Sevenz));
    assert_eq!(ArchiveFormat::from_filename("a.rar"), None);
    for f in [ArchiveFormat::Tar, ArchiveFormat::Zip, ArchiveFormat::Sevenz] {
        assert_eq!(ArchiveFormat::from_str(f.name()), Ok(f));
    }
    assert_eq!(ArchiveFormat::from_str("rar"), Err("unsupported format: rar".to_string()));
}

#[test]
fn open_archives() {
    let a = Archive::open("/tmp/x.tar.xz".to_string()).unwrap();
    assert_eq!(a.format(), ArchiveFormat::Tar);
    assert_eq!(a.path(), "/tmp/x.tar.xz");
    assert!(Archive::open("/tmp/x.txt".to_string()).is_none());
    let z = Archive::open_with_format("/tmp/blob".to_string(), ArchiveFormat::Zip).unwrap();
    assert_eq!(z.format(), ArchiveFormat::Zip);
}

#[test]
fn tar_listings() {
    let out = "-rw-r--r-- user/user 120 2024-01-01 10:00 dir/a.txt\n\
               drwxr-xr-x user/user 0 2024-01-01 10:00 dir/\n\
               lrwxrwxrwx user/user 0 2024-01-01 10:00 link -> dir/a.txt\n\
               -rw-r--r-- user/user 7 2024-01-01 10:00 b.bin\n";
    let entries = parse_tar_listing(out);
    assert_eq!(
        entries,
        vec![
            ArchiveEntry { path: "dir/a.txt".to_string(), size: 120 },
            ArchiveEntry { path: "dir/".to_string(), size: 0 },
            ArchiveEntry { path: "b.bin".to_string(), size: 7 },
        ]
    );
    let a = Archive::open("x.tar".to_string()).unwrap();
    assert_eq!(a.get_entries(out).unwrap().len(), 3);
}

#[test]
fn sevenz_listings() {
    let out = "7-Zip header\n\
   Date      Time    Attr         Size   Compressed  Name\n\
------------------- ----- ------------ ------------  ------------------------\n\
2024-01-01 10:00:00 ....A          100           50  a.txt\n\
2024-01-01 10:00:00 D....            0            0  dir\n\
------------------- ----- ------------ ------------  ------------------------\n\
2024-01-01 10:00:00                100           50  1 files, 1 folders\n";
    assert!(sevenz_listing_is_complete(out));
    assert!(!sevenz_listing_is_complete("nothing here"));
    let entries = parse_sevenz_listing(out);
    assert_eq!(
        entries,
        vec![
            ArchiveEntry { path: "a.txt".to_string(), size: 100 },
            ArchiveEntry { path: "dir".to_string(), size: 0 },
        ]
    );
    let z = Archive::open("x.7z".to_string()).unwrap();
    assert_eq!(z.get_entries(out).unwrap(), entries);
}

#[test]
fn extraction_progress() {
    let entries = vec![
        ArchiveEntry { path: "a".to_string(), size: 10 },
        ArchiveEntry { path: "b".to_string(), size: 5 },
        ArchiveEntry { path: "a".to_string(), size: 3 },
    ];
    let mut p = ExtractProgress::new(&entries);
    assert_eq!(p.total(), 8);
    assert_eq!(p.current(), 0);
    let a: Vec<char> = "a".chars().collect();
    assert_eq!(p.size_of(&a), Some(3));
    assert_eq!(p.on_line(&a), Some((3, 8, 3)));
    let unknown: Vec<char> = "zzz".chars().collect();
    assert_eq!(p.on_line(&unknown), None);
    let line: Vec<char> = "- b".chars().collect();
    assert_eq!(p.on_sevenz_line(&line), Some((8, 8, 5)));
    assert_eq!(p.current(), 8);
}

#[test]
fn buffer_is_fifo() {
    let mut b = Buffer::new();
    assert!(b.is_empty());
    assert_eq!(b.write(b"hello "), 6);
    assert_eq!(b.write(b"world"), 5);
    b.flush();
    let mut first = [0u8; 4];
    assert_eq!(b.read(&mut first), 4);
    assert_eq!(&first, b"hell");
    assert_eq!(b.len(), 7);
    let mut big = [0u8; 16];
    assert_eq!(b.read(&mut big), 7);
    assert_eq!(&big[..7], b"o world");
    assert!(b.is_empty());
    b.as_mut().extend_from_slice(b"xy");
    assert_eq!(b.as_slice(), b"xy");
    assert_eq!(b.take_all(), b"xy");
}

#[test]
fn listed_extension_after_any_prefix_selects_its_format() {
    use_cases();
}

fn use_cases() {
    for prefix in ["", "a", "dir/name.zip", "x.tar"] {
        assert_eq!(agl::archive_format::ArchiveFormat::from_filename(&format!("{prefix}.zip.001")), Some(agl::archive_format::ArchiveFormat::Sevenz));
        assert_eq!(agl::archive_format::ArchiveFormat::from_filename(&format!("{prefix}.tar.zstd")), Some(agl::archive_format::ArchiveFormat::Tar));
        assert_eq!(agl::archive_format::ArchiveFormat::from_filename(&format!("{prefix}.zip")), Some(agl::archive_format::ArchiveFormat::Zip));
        assert_eq!(agl::archive_format::ArchiveFormat::from_filename(&format!("{prefix}.7z")), Some(agl::archive_format::ArchiveFormat::Sevenz));
    }
}
