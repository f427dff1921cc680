//! Tests for content hashing, asset paths, and the dual-mode asset
//! directories.

use sunfish::embed::{
    EmbeddedDirectory, EmbeddedFile, FsDirectory, FsFile, FsOrEmbeddedFile, IncludeDir,
};
use sunfish::include_dir as included;
use sunfish::{
    asset_path, client_paths, content_type, etag_matches, hash, path_components,
    path_with_placeholders, route_matches,
};

#[test]
fn hash_of_known_input() {
    // The first sixteen hex digits of SHA-256("abc").
    assert_eq!(hash(b"abc"), "ba7816bf8f01cfea");
}

#[test]
fn hash_of_empty_input() {
    // The first sixteen hex digits of SHA-256 of the empty input.
    assert_eq!(hash(b""), "e3b0c44298fc1c14");
}

#[test]
fn path_components_of_request_paths() {
    assert_eq!(path_components("/a/b"), vec!["a".to_string(), "b".to_string()]);
    assert_eq!(path_components("/"), vec!["".to_string()]);
    assert_eq!(path_components("/index"), vec!["index".to_string()]);
    assert_eq!(
        path_components("/a//b"),
        vec!["a".to_string(), "".to_string(), "b".to_string()]
    );
}

#[test]
fn asset_path_is_hash_named_with_extension_kept() {
    let expected = format!("/assets/{}.svg", hash(b"img/logo.svg"));
    assert_eq!(asset_path("img/logo.svg"), expected);
    let expected = format!("/assets/{}.png", hash(b"crates/app/a.b/pic.png"));
    assert_eq!(asset_path("crates/app/a.b/pic.png"), expected);
}

#[test]
fn client_paths_are_hash_named() {
    let h = hash(b"my_app");
    let paths = client_paths("my_app");
    assert_eq!(paths.path_js, format!("/js/{}.js", h));
    assert_eq!(paths.path_wasm, format!("/js/{}_bg.wasm", h));
}

#[test]
fn content_type_by_suffix() {
    assert_eq!(content_type("styles.css"), Some("text/css"));
    assert_eq!(content_type("app.js"), Some("text/javascript"));
    assert_eq!(content_type("logo.svg"), Some("image/svg+xml"));
    assert_eq!(content_type("app_bg.wasm"), Some("application/wasm"));
    assert_eq!(content_type("index.html"), None);
    assert_eq!(content_type("archive.tar.css"), Some("text/css"));
}

#[test]
fn placeholder_path_of_route_manifests() {
    assert_eq!(
        path_with_placeholders("routes", "routes/foo/_/server/Cargo.toml"),
        "/foo/_"
    );
    assert_eq!(
        path_with_placeholders("routes", "routes/index/server/Cargo.toml"),
        "/"
    );
    assert_eq!(
        path_with_placeholders("/w/routes", "/w/routes/docs/index/server/Cargo.toml"),
        "/docs/"
    );
}

#[test]
fn route_matching_with_placeholders() {
    let pattern = |s: &str| sunfish::path_components(s);
    // Literal components match themselves.
    assert!(route_matches(&pattern("/docs/guide"), &pattern("/docs/guide")));
    assert!(!route_matches(&pattern("/docs/guide"), &pattern("/docs/other")));
    // `_` stands for any one component.
    assert!(route_matches(&pattern("/users/_"), &pattern("/users/42")));
    assert!(!route_matches(&pattern("/users/_"), &pattern("/users/42/edit")));
    // `index` stands for the empty component a trailing slash leaves.
    assert!(route_matches(&pattern("/docs/index"), &pattern("/docs/")));
    assert!(!route_matches(&pattern("/docs/index"), &pattern("/docs/guide")));
    // Lengths must agree.
    assert!(!route_matches(&pattern("/a"), &pattern("/a/b")));
}

#[test]
fn etag_match_decides_not_modified() {
    assert!(etag_matches(Some("h1"), Some("h1")));
    assert!(!etag_matches(Some("h1"), Some("h2")));
    assert!(!etag_matches(None, Some("h1")));
    assert!(!etag_matches(Some("h1"), None));
    assert!(!etag_matches(None, None));
}

#[test]
fn embedded_directory_read_finds_its_entry() {
    let dir = EmbeddedDirectory(vec![
        (
            "a.txt".to_string(),
            EmbeddedFile { data: b"alpha".to_vec(), hash: "h-alpha".to_string() },
        ),
        (
            "b/c.css".to_string(),
            EmbeddedFile { data: b"beta".to_vec(), hash: "h-beta".to_string() },
        ),
    ]);
    let store = IncludeDir::Embedded(dir);
    let file = store.read("b/c.css").expect("entry must be found");
    assert_eq!(file.data(), Some(b"beta".to_vec()));
    assert_eq!(file.hash(), Some("h-beta"));
    assert!(store.read("missing.txt").is_none());
}

#[test]
fn embedded_file_accessors() {
    let file = EmbeddedFile { data: b"xyz".to_vec(), hash: "h1".to_string() };
    assert_eq!(file.data(), b"xyz".to_vec());
    assert_eq!(file.hash(), Some("h1"));
    let copy = file.clone();
    assert_eq!(copy.data, b"xyz".to_vec());
    assert_eq!(copy.hash, "h1");
}

#[test]
fn fs_directory_read_misses_when_nothing_is_there() {
    let dir = FsDirectory("/nonexistent-root-for-this-test".to_string());
    assert!(dir.read("nothing.css").is_none());
}

#[test]
fn fs_file_has_no_precomputed_hash() {
    let file = FsFile("some/path.css".to_string());
    assert_eq!(file.hash(), None);
    let wrapped = FsOrEmbeddedFile::Fs(FsFile("some/path.css".to_string()));
    assert_eq!(wrapped.hash(), None);
    assert_eq!(wrapped.data(), None);
}

#[test]
fn included_directory_read_finds_its_entry() {
    let dir = included::IncludedDirectory(vec![(
        "app.js".to_string(),
        included::IncludedFile { data: b"js".to_vec(), hash: "h-js".to_string() },
    )]);
    let store = included::IncludeDir::Included(dir);
    let file = store.read("app.js").expect("entry must be found");
    assert_eq!(file.data(), Some(b"js".to_vec()));
    assert_eq!(file.hash(), Some("h-js"));
    assert!(store.read("other.js").is_none());
}

#[test]
fn included_file_accessors() {
    let file = included::IncludedFile { data: b"w".to_vec(), hash: "h2".to_string() };
    assert_eq!(file.data(), b"w".to_vec());
    assert_eq!(file.hash(), Some("h2"));
    let fs = included::FsFile("p".to_string());
    assert_eq!(fs.hash(), None);
    let dir = included::FsDirectory("/nonexistent-root-for-this-test".to_string());
    assert!(dir.read("x").is_none());
}
