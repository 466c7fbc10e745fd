use agl::json::JsonValue;
use agl::manifest::{manifest_from_json, manifest_json_would_panic};
use agl::install::{
    Installer, InstallPackagesError, ManifestResource, PackageManifest, QueuedResource,
};
use agl::storage::{
    join_path_str, normalize_url_str, resolve_resource_url, ResourceFormat, Storage,
};

fn hash_of(text: &str) -> agl::hash::Hash {
    agl::hash::Hash::digitize(text.as_bytes())
}

#[test]
fn normalize_urls() {
    assert_eq!(normalize_url_str("https://example.com/a/./b//c"), "https://example.com/a/b/c");
    assert_eq!(normalize_url_str("https://example.com/a/b/../c"), "https://example.com/a/c");
    assert_eq!(normalize_url_str("a\\b\\c"), "a/b/c");
    assert_eq!(normalize_url_str("http://host/x/y/.."), "http://host/x/..");
    assert_eq!(normalize_url_str("plain"), "plain");
}

#[test]
fn resource_urls() {
    let pkg = "https://example.com/packages/one/package.json";
    assert_eq!(resolve_resource_url(pkg, "file.txt"), "https://example.com/packages/one/file.txt");
    assert_eq!(resolve_resource_url(pkg, "../two/package.json"), "https://example.com/packages/two/package.json");
    assert_eq!(resolve_resource_url(pkg, "https://cdn.example.com/x.zip"), "https://cdn.example.com/x.zip");
}

#[test]
fn resource_formats() {
    assert_eq!(ResourceFormat::from_filename("a/b/example.tar.gz"), ResourceFormat::Archive);
    assert_eq!(ResourceFormat::from_filename("example.7z"), ResourceFormat::Archive);
    assert_eq!(ResourceFormat::from_filename("package.json"), ResourceFormat::Package);
    assert_eq!(ResourceFormat::from_filename("example_file.txt"), ResourceFormat::File);
}

#[test]
fn storage_paths() {
    let storage = Storage::with_path(String::from("/var/lib/agl"));
    assert_eq!(storage.path(), "/var/lib/agl");
    let hash = agl::hash::Hash::digitize(b"Hello, World!");
    assert_eq!(storage.resource_path(&hash), "/var/lib/agl/dd8r0kykqd2i8");
    let slashed = Storage::with_path(String::from("/tmp/"));
    assert_eq!(slashed.resource_path(&hash), "/tmp/dd8r0kykqd2i8");
    assert_eq!(join_path_str("", "x"), "x");
    assert_eq!(join_path_str("/a", "/b"), "/b");
}

fn resource(uri: &str, format: Option<ResourceFormat>, hash: Option<agl::hash::Hash>) -> ManifestResource {
    ManifestResource { uri: uri.to_string(), format, hash }
}

#[test]
fn install_flow() {
    let root = "https://example.com/pkgs/main/./package.json".to_string();
    let mut installer = Installer::new(&vec![root.clone(), "https://example.com/pkgs/main/package.json".to_string()]);
    assert!(installer.has_pending_packages());
    let manifests = installer.take_package_downloads();
    assert_eq!(manifests, vec!["https://example.com/pkgs/main/package.json".to_string()]);
    assert!(!installer.has_pending_packages());

    let main_hash = hash_of("main manifest");
    let manifest = PackageManifest {
        inputs: vec![
            ("dep".to_string(), resource("../dep/package.json", None, None)),
            ("file".to_string(), resource("file.txt", None, Some(hash_of("file")))),
        ],
        outputs: vec![("file".to_string(), resource("file.txt", Some(ResourceFormat::File), None))],
    };
    installer.on_manifest(manifests[0].clone(), main_hash, &manifest).unwrap();

    let downloads = installer.take_resource_downloads();
    // The file is queued twice (as an input and as an output); the
    // dependency goes to the packages queue.
    assert_eq!(downloads.len(), 2);
    assert!(downloads.iter().all(|d| d.url == "https://example.com/pkgs/main/file.txt"));
    assert!(installer.has_pending_packages());

    // A wrong hash fails.
    match installer.on_resource(&downloads[0], hash_of("tampered")) {
        Err(InstallPackagesError::ResourceHashMismatch { url, .. }) => {
            assert_eq!(url, "https://example.com/pkgs/main/file.txt")
        }
        other => panic!("unexpected {other:?}"),
    }
    installer.on_resource(&downloads[0], hash_of("file")).unwrap();
    installer.on_resource(&downloads[1], hash_of("file")).unwrap();

    let deps = installer.take_package_downloads();
    assert_eq!(deps, vec!["https://example.com/pkgs/dep/package.json".to_string()]);
    let dep_hash = hash_of("dep manifest");
    let dep = PackageManifest {
        inputs: vec![("back".to_string(), resource("../main/package.json", None, None))],
        outputs: vec![],
    };
    installer.on_manifest(deps[0].clone(), dep_hash, &dep).unwrap();
    // The main package was handled already: nothing more to fetch.
    assert!(installer.take_resource_downloads().is_empty());
    assert!(installer.take_package_downloads().is_empty());

    let lock = installer.finish();
    assert_eq!(lock.root, vec![main_hash]);
    assert_eq!(lock.packages.len(), 2);
    assert_eq!(lock.resources, vec![(hash_of("file"), "https://example.com/pkgs/main/file.txt".to_string())]);
    let (h, main) = &lock.packages[0];
    assert_eq!(*h, main_hash);
    assert_eq!(main.inputs.len(), 2);
    assert_eq!(main.inputs[0].0, "dep");
    assert_eq!(main.inputs[0].1.format, ResourceFormat::Package);
    assert_eq!(main.inputs[0].1.hash, dep_hash);
    assert_eq!(main.inputs[1].1.hash, hash_of("file"));
    assert_eq!(main.outputs[0].1.format, ResourceFormat::File);
    let (_, dep_info) = &lock.packages[1];
    assert_eq!(dep_info.inputs[0].1.hash, main_hash);
}

#[test]
fn duplicate_names_fail() {
    let mut installer = Installer::new(&vec!["http://h/p.json".to_string()]);
    let urls = installer.take_package_downloads();
    let hash = hash_of("p");
    let manifest = PackageManifest {
        inputs: vec![("x".to_string(), resource("a.txt", None, None))],
        outputs: vec![],
    };
    installer.on_manifest(urls[0].clone(), hash, &manifest).unwrap();
    // The same package handled twice names its input again.
    match installer.on_manifest(urls[0].clone(), hash, &manifest) {
        Err(InstallPackagesError::PackageNameAlreadyUsed { resource_name, package_url, .. }) => {
            assert_eq!(resource_name, "x");
            assert_eq!(package_url, "http://h/p.json");
        }
        other => panic!("unexpected {other:?}"),
    }
}

#[test]
fn packages_are_not_fetched_as_resources() {
    let mut installer = Installer::new(&vec!["http://h/p.json".to_string()]);
    let q = QueuedResource { url: "http://h/p.json".to_string(), format: ResourceFormat::Package, expected: None };
    installer.on_resource(&q, hash_of("ignored")).unwrap();
    let lock = installer.finish();
    assert!(lock.root.is_empty());
    assert!(lock.resources.is_empty());
}

fn manifest_entry(uri: &str, format: Option<&str>, hash: Option<&str>) -> JsonValue {
    let mut fields = vec![("uri".to_string(), JsonValue::Text(uri.to_string()))];
    if let Some(f) = format {
        fields.push(("format".to_string(), JsonValue::Text(f.to_string())));
    }
    if let Some(h) = hash {
        fields.push(("hash".to_string(), JsonValue::Text(h.to_string())));
    }
    JsonValue::Object(fields)
}

#[test]
fn manifest_is_read_from_json() {

    let inputs = JsonValue::Object(vec![
        ("a".to_string(), manifest_entry("a.txt", Some("file"), None)),
        ("b".to_string(), manifest_entry("b.json", None, Some("dd8r0kykqd2i8"))),
    ]);
    let value = JsonValue::Object(vec![("inputs".to_string(), inputs)]);

    assert!(!manifest_json_would_panic(&value));

    let manifest = manifest_from_json(&value).unwrap();

    assert_eq!(manifest.inputs.len(), 2);
    assert!(manifest.outputs.is_empty());
    assert_eq!(manifest.inputs[0].0, "a");
    assert_eq!(manifest.inputs[0].1.uri, "a.txt");
    assert_eq!(manifest.inputs[0].1.format, Some(ResourceFormat::File));
    assert_eq!(manifest.inputs[1].1.format, None);
    assert_eq!(manifest.inputs[1].1.hash.map(|h| h.to_base32()), Some("dd8r0kykqd2i8".to_string()));
}

#[test]
fn manifest_errors() {

    let unknown_format = JsonValue::Object(vec![(
        "outputs".to_string(),
        JsonValue::Object(vec![("x".to_string(), manifest_entry("x", Some("folder"), None))]),
    )]);
    assert!(manifest_from_json(&unknown_format).is_none());

    let not_a_table = JsonValue::Object(vec![("inputs".to_string(), JsonValue::Null)]);
    assert!(manifest_from_json(&not_a_table).is_none());

    // A 9-character nix-base32 text cannot be decoded without an overrun.
    let impossible = JsonValue::Object(vec![(
        "inputs".to_string(),
        JsonValue::Object(vec![("x".to_string(), manifest_entry("x", None, Some("000000000")))]),
    )]);
    assert!(manifest_json_would_panic(&impossible));

    // An earlier entry that fails stops the reading before the overrun.
    let stopped = JsonValue::Object(vec![(
        "inputs".to_string(),
        JsonValue::Object(vec![
            ("w".to_string(), JsonValue::Null),
            ("x".to_string(), manifest_entry("x", None, Some("000000000"))),
        ]),
    )]);
    assert!(!manifest_json_would_panic(&stopped));
    assert!(manifest_from_json(&stopped).is_none());
}

#[test]
fn resource_paths_differ_per_hash() {
    let storage = Storage::with_path("/store".to_string());
    let a = agl::hash::Hash::digitize(b"a");
    let b = agl::hash::Hash::digitize(b"b");
    assert_ne!(storage.resource_path(&a), storage.resource_path(&b));
    assert_eq!(storage.resource_path(&a), format!("/store/{}", a.to_base32()));
}

#[test]
fn install_cycle() {
    let p1 = "http://h/cycle/package_1.json".to_string();
    let p2 = "http://h/cycle/package_2.json".to_string();
    let (h1, h2) = (hash_of("package 1"), hash_of("package 2"));
    let mut installer = Installer::new(&vec![p1.clone()]);

    assert_eq!(installer.take_package_downloads(), vec![p1.clone()]);
    let m1 = PackageManifest {
        inputs: vec![("next".to_string(), resource("package_2.json", None, None))],
        outputs: vec![],
    };
    installer.on_manifest(p1.clone(), h1, &m1).unwrap();
    assert!(installer.take_resource_downloads().is_empty());

    assert_eq!(installer.take_package_downloads(), vec![p2.clone()]);
    let m2 = PackageManifest {
        inputs: vec![("back".to_string(), resource("package_1.json", None, None))],
        outputs: vec![],
    };
    installer.on_manifest(p2.clone(), h2, &m2).unwrap();
    assert!(installer.take_resource_downloads().is_empty());
    assert!(!installer.has_pending_packages());

    let lock = installer.finish();
    assert_eq!(lock.root, vec![h1]);
    assert_eq!(lock.packages.len(), 2);
    assert!(lock.resources.is_empty());
    assert_eq!(lock.packages[0].0, h1);
    assert_eq!(lock.packages[0].1.url, p1);
    assert_eq!(lock.packages[0].1.inputs.len(), 1);
    assert_eq!(lock.packages[0].1.inputs[0].1.hash, h2);
    assert_eq!(lock.packages[1].0, h2);
    assert_eq!(lock.packages[1].1.url, p2);
    assert_eq!(lock.packages[1].1.inputs[0].1.hash, h1);
}

#[test]
fn install_self_reference() {
    let p = "http://h/self_reference/package.json".to_string();
    let h = hash_of("self reference");
    let mut installer = Installer::new(&vec![p.clone()]);

    assert_eq!(installer.take_package_downloads(), vec![p.clone()]);
    let m = PackageManifest {
        inputs: vec![
            ("as_file".to_string(), resource("package.json", Some(ResourceFormat::File), None)),
            ("as_package".to_string(), resource("package.json", Some(ResourceFormat::Package), None)),
        ],
        outputs: vec![],
    };
    installer.on_manifest(p.clone(), h, &m).unwrap();

    let downloads = installer.take_resource_downloads();
    assert_eq!(downloads.len(), 1);
    assert_eq!(downloads[0].url, p);
    assert_eq!(downloads[0].format, ResourceFormat::File);
    installer.on_resource(&downloads[0], h).unwrap();
    assert!(!installer.has_pending_packages());

    let lock = installer.finish();
    assert_eq!(lock.root, vec![h]);
    assert_eq!(lock.packages.len(), 1);
    assert_eq!(lock.resources, vec![(h, p.clone())]);
    let info = &lock.packages[0].1;
    assert_eq!(info.url, p);
    assert_eq!(info.inputs.len(), 2);
    assert!(info.outputs.is_empty());
    assert_eq!(info.inputs[0].0, "as_file");
    assert_eq!(info.inputs[0].1.format, ResourceFormat::File);
    assert_eq!(info.inputs[0].1.hash, h);
    assert_eq!(info.inputs[1].0, "as_package");
    assert_eq!(info.inputs[1].1.format, ResourceFormat::Package);
    assert_eq!(info.inputs[1].1.hash, h);
}
