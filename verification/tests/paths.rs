use s3_accessor::backend::Backend;
use s3_accessor::path::normalize_path;

fn backend_with_root(root: &str) -> Backend {
    let mut b = Backend::build();
    b.root(root);
    b.bucket("test");
    b.finish("https://s3.us-east-2.amazonaws.com", "us-east-2")
        .expect("backend must build")
}

#[test]
fn normalize_collapses_repeated_slashes() {
    assert_eq!(normalize_path("a//b"), "a/b");
    assert_eq!(normalize_path("//a///b//c"), "a/b/c");
}

#[test]
fn normalize_keeps_single_trailing_slash() {
    assert_eq!(normalize_path("a/b/"), "a/b/");
    assert_eq!(normalize_path("a//b//"), "a/b/");
    assert_eq!(normalize_path("/a/b/"), "a/b/");
}

#[test]
fn normalize_edge_cases() {
    // The trailing slash survives only when anything is left, so paths
    // made of slashes alone normalize to the empty path.
    assert_eq!(normalize_path(""), "");
    assert_eq!(normalize_path("/"), "");
    assert_eq!(normalize_path("///"), "");
    assert_eq!(normalize_path("abc"), "abc");
}

#[test]
fn normalize_is_idempotent_on_samples() {
    for p in ["", "/", "//", "a//b", "/a/b/", "a/b/c", "//x//", "x"] {
        let once = normalize_path(p);
        let twice = normalize_path(&once);
        assert_eq!(twice, once, "normalizing {:?} twice changed the result", p);
    }
}

#[test]
fn abs_key_under_root() {
    let b = backend_with_root("/a/");
    assert_eq!(b.get_abs_path("/b"), "a/b");
}

#[test]
fn abs_key_never_holds_an_empty_segment() {
    // The virtual root itself maps to the root key, not to a key with a
    // dangling empty segment.
    let b = backend_with_root("/a/");
    assert_eq!(b.get_abs_path("/"), "a/");
    assert_eq!(b.get_abs_path("///"), "a/");
}

#[test]
fn rel_path_under_root() {
    let b = backend_with_root("/a/");
    assert_eq!(b.get_rel_path("a/b"), "/b");
}

#[test]
fn abs_and_rel_with_default_root() {
    let mut builder = Backend::build();
    builder.bucket("test");
    let b = builder
        .finish("https://s3.us-east-2.amazonaws.com", "us-east-2")
        .expect("backend must build");
    assert_eq!(b.root().as_str(), "/");
    assert_eq!(b.get_abs_path("/x/y"), "x/y");
    assert_eq!(b.get_rel_path("x/y"), "/x/y");
}

#[test]
fn abs_key_of_directory_path() {
    let b = backend_with_root("/a/");
    assert_eq!(b.get_abs_path("dir/"), "a/dir/");
    assert_eq!(b.get_rel_path("a/dir/"), "/dir/");
}

#[test]
fn root_setting_is_canonicalized() {
    let b = backend_with_root("abc");
    assert_eq!(b.root().as_str(), "/abc/");
    let b2 = backend_with_root("//x//y/");
    assert_eq!(b2.root().as_str(), "/x/y/");
}
