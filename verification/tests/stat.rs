use s3_accessor::backend::{interpret_stat_response, Backend, StatAction};
use s3_accessor::error::ErrorKind;
use s3_accessor::metadata::ObjectMode;

fn backend_with_root(root: &str) -> Backend {
    let mut b = Backend::build();
    b.root(root);
    b.bucket("test");
    b.finish("https://s3.us-east-2.amazonaws.com", "us-east-2")
        .expect("backend must build")
}

#[test]
fn stat_of_virtual_root_needs_no_network_call() {
    let b = backend_with_root("/abc/");
    match b.stat_request("/") {
        StatAction::Ready(m) => {
            assert_eq!(m.mode, ObjectMode::DIR);
            assert_eq!(m.content_length, 0);
            assert!(m.complete);
            assert_eq!(m.path, "/");
        }
        StatAction::Fetch { .. } => panic!("the virtual root is answered locally"),
    }
}

#[test]
fn stat_of_empty_path_is_the_root_too() {
    let b = backend_with_root("/abc/");
    match b.stat_request("") {
        StatAction::Ready(m) => {
            assert_eq!(m.mode, ObjectMode::DIR);
            assert_eq!(m.content_length, 0);
            assert!(m.complete);
        }
        StatAction::Fetch { .. } => panic!("the virtual root is answered locally"),
    }
}

#[test]
fn stat_of_ordinary_path_issues_head() {
    let b = backend_with_root("/abc/");
    match b.stat_request("/file.txt") {
        StatAction::Fetch { key, request } => {
            assert_eq!(key, "abc/file.txt");
            assert_eq!(
                request.uri,
                "https://s3.us-east-2.amazonaws.com/test/abc/file.txt"
            );
        }
        StatAction::Ready(_) => panic!("an ordinary path needs a HEAD request"),
    }
}

#[test]
fn stat_ok_populates_metadata_from_headers() {
    let headers = vec![
        ("content-length".to_string(), "13".to_string()),
        ("content-md5".to_string(), "abcdef".to_string()),
        (
            "last-modified".to_string(),
            "Tue, 15 Nov 1994 08:12:31 GMT".to_string(),
        ),
    ];
    let m = interpret_stat_response("/file.txt", "abc/file.txt", 200, headers, Vec::new())
        .expect("a 200 head populates metadata");
    assert_eq!(m.path, "/file.txt");
    assert_eq!(m.content_length, 13);
    assert_eq!(m.content_md5.as_deref(), Some("abcdef"));
    assert_eq!(m.last_modified, Some(784887151));
    assert_eq!(m.mode, ObjectMode::FILE);
    assert!(m.complete);
}

#[test]
fn stat_ok_on_trailing_slash_key_is_a_directory() {
    let headers = vec![("content-length".to_string(), "0".to_string())];
    let m = interpret_stat_response("/dir/", "abc/dir/", 200, headers, Vec::new())
        .expect("a 200 head populates metadata");
    assert_eq!(m.mode, ObjectMode::DIR);
    assert!(m.complete);
}

#[test]
fn stat_404_on_trailing_slash_key_is_an_implicit_directory() {
    let m = interpret_stat_response("/dir/", "abc/dir/", 404, Vec::new(), Vec::new())
        .expect("a missing trailing-slash key is an implicit empty directory");
    assert_eq!(m.mode, ObjectMode::DIR);
    assert_eq!(m.content_length, 0);
    assert!(m.complete);
}

#[test]
fn stat_404_on_file_key_is_not_found() {
    let e = interpret_stat_response("/file.txt", "abc/file.txt", 404, Vec::new(), Vec::new())
        .expect_err("a missing file is a NotFound error");
    assert_eq!(e.kind(), ErrorKind::NotFound);
}

#[test]
fn stat_403_is_permission_denied() {
    let e = interpret_stat_response("/file.txt", "abc/file.txt", 403, Vec::new(), Vec::new())
        .expect_err("a forbidden head is a PermissionDenied error");
    assert_eq!(e.kind(), ErrorKind::PermissionDenied);
}

#[test]
fn stat_with_malformed_content_length_is_fatal_for_the_call() {
    let headers = vec![("content-length".to_string(), "wide".to_string())];
    let e = interpret_stat_response("/f", "abc/f", 200, headers, Vec::new())
        .expect_err("a malformed length violates the protocol contract");
    assert_eq!(e.kind(), ErrorKind::Unexpected);
}

#[test]
fn stat_with_malformed_last_modified_is_fatal_for_the_call() {
    let headers = vec![("last-modified".to_string(), "yesterday".to_string())];
    let e = interpret_stat_response("/f", "abc/f", 200, headers, Vec::new())
        .expect_err("a malformed date violates the protocol contract");
    assert_eq!(e.kind(), ErrorKind::Unexpected);
}

#[test]
fn stat_accepts_the_largest_content_length() {
    let headers = vec![(
        "content-length".to_string(),
        "18446744073709551615".to_string(),
    )];
    let m = interpret_stat_response("/f", "abc/f", 200, headers, Vec::new())
        .expect("the largest length that fits is accepted");
    assert_eq!(m.content_length, u64::MAX);
}

#[test]
fn stat_rejects_an_overflowing_content_length() {
    let headers = vec![(
        "content-length".to_string(),
        "18446744073709551616".to_string(),
    )];
    let e = interpret_stat_response("/f", "abc/f", 200, headers, Vec::new())
        .expect_err("a length that cannot fit violates the protocol contract");
    assert_eq!(e.kind(), ErrorKind::Unexpected);
}

#[test]
fn stat_without_optional_headers_leaves_defaults() {
    let m = interpret_stat_response("/f", "abc/f", 200, Vec::new(), Vec::new())
        .expect("a bare 200 head still populates metadata");
    assert_eq!(m.content_length, 0);
    assert_eq!(m.content_md5, None);
    assert_eq!(m.last_modified, None);
    assert_eq!(m.mode, ObjectMode::FILE);
    assert!(m.complete);
}
