use s3_accessor::backend::{Backend, Credential, HttpMethod};
use s3_accessor::error::ErrorKind;

#[test]
fn empty_bucket_cannot_be_built() {
    let b = Backend::build();
    let e = b
        .finish("https://s3.amazonaws.com", "us-east-1")
        .expect_err("an empty bucket is a fatal configuration error");
    assert_eq!(e.kind(), ErrorKind::BackendConfigurationInvalid);
}

#[test]
fn backend_keeps_the_resolved_pair() {
    let mut b = Backend::build();
    b.bucket("mybucket");
    let backend = b
        .finish("https://s3.eu-west-1.amazonaws.com", "eu-west-1")
        .expect("backend must build");
    assert_eq!(backend.bucket().as_str(), "mybucket");
    assert_eq!(backend.endpoint().as_str(), "https://s3.eu-west-1.amazonaws.com");
    assert_eq!(backend.region().as_str(), "eu-west-1");
    assert!(backend.credential().is_none());
}

#[test]
fn backend_keeps_the_credential() {
    let mut b = Backend::build();
    b.bucket("mybucket");
    b.credential(Credential::Hmac {
        access_key_id: "AKID".to_string(),
        secret_access_key: "SECRET-REDACTED".to_string(),
    });
    let backend = b
        .finish("https://s3.amazonaws.com", "us-east-1")
        .expect("backend must build");
    match backend.credential() {
        Some(Credential::Hmac { access_key_id, .. }) => assert_eq!(access_key_id, "AKID"),
        _ => panic!("the explicit key pair must be kept"),
    }
}

fn plain_backend() -> Backend {
    let mut b = Backend::build();
    b.bucket("test");
    b.finish("https://s3.us-east-2.amazonaws.com", "us-east-2")
        .expect("backend must build")
}

#[test]
fn get_request_has_no_range_without_bounds() {
    let b = plain_backend();
    let r = b.get_object_request("a/b", None, None);
    assert_eq!(r.method, HttpMethod::Get);
    assert_eq!(r.uri, "https://s3.us-east-2.amazonaws.com/test/a/b");
    assert!(r.headers.is_empty());
    assert_eq!(r.body_length, None);
}

#[test]
fn get_request_carries_the_range() {
    let b = plain_backend();
    let r = b.read_request("/a/b", Some(10), Some(5));
    assert_eq!(r.uri, "https://s3.us-east-2.amazonaws.com/test/a/b");
    assert_eq!(r.headers.len(), 1);
    assert_eq!(r.headers[0].name, "range");
    assert_eq!(r.headers[0].value, "bytes=10-14");
    assert!(!r.headers[0].sensitive);
}

#[test]
fn put_request_declares_the_content_length() {
    let b = plain_backend();
    let r = b.write_request("/a/b", 13);
    assert_eq!(r.method, HttpMethod::Put);
    assert_eq!(r.uri, "https://s3.us-east-2.amazonaws.com/test/a/b");
    assert_eq!(r.headers[0].name, "content-length");
    assert_eq!(r.headers[0].value, "13");
    assert_eq!(r.body_length, Some(13));
}

#[test]
fn write_reports_declared_size_on_success_only() {
    assert_eq!(Backend::write_result(200, 13), Some(13));
    assert_eq!(Backend::write_result(201, 13), Some(13));
    assert_eq!(Backend::write_result(500, 13), None);
    assert_eq!(Backend::write_result(403, 13), None);
}

#[test]
fn read_succeeds_on_full_and_partial_content() {
    assert!(Backend::read_succeeded(200));
    assert!(Backend::read_succeeded(206));
    assert!(!Backend::read_succeeded(404));
}

#[test]
fn delete_succeeds_on_no_content() {
    let b = plain_backend();
    let r = b.delete_request("/a/b");
    assert_eq!(r.method, HttpMethod::Delete);
    assert_eq!(r.uri, "https://s3.us-east-2.amazonaws.com/test/a/b");
    assert!(Backend::delete_succeeded(204));
    assert!(!Backend::delete_succeeded(200));
    assert!(!Backend::delete_succeeded(404));
}

fn sse_pairs(hs: &[s3_accessor::headers::HeaderSpec]) -> Vec<(String, String)> {
    hs.iter().map(|h| (h.name.clone(), h.value.clone())).collect()
}

#[test]
fn write_mode_attaches_kms_headers() {
    let mut b = Backend::build();
    b.bucket("test");
    b.server_side_encryption_with_customer_managed_kms_key("key-1");
    let backend = b
        .finish("https://s3.amazonaws.com", "us-east-1")
        .expect("backend must build");
    let put = backend.put_object_request("k", 1);
    let pairs = sse_pairs(&put.headers);
    assert!(pairs.contains(&(
        "x-amz-server-side-encryption".to_string(),
        "aws:kms".to_string()
    )));
    assert!(pairs.contains(&(
        "x-amz-server-side-encryption-aws-kms-key-id".to_string(),
        "key-1".to_string()
    )));
    // The store-managed headers are for writes only.
    let get = backend.get_object_request("k", None, None);
    assert!(get.headers.is_empty());
    let head = backend.head_object_request("k");
    assert!(head.headers.is_empty());
}

#[test]
fn s3_key_mode_sets_the_algorithm() {
    let mut b = Backend::build();
    b.bucket("test");
    b.server_side_encryption_with_s3_key();
    let backend = b
        .finish("https://s3.amazonaws.com", "us-east-1")
        .expect("backend must build");
    let put = backend.put_object_request("k", 1);
    let pairs = sse_pairs(&put.headers);
    assert!(pairs.contains(&(
        "x-amz-server-side-encryption".to_string(),
        "AES256".to_string()
    )));
}

#[test]
fn customer_key_headers_attach_to_reads_too() {
    // Decrypting on read requires the same per-object key used on write,
    // so the customer-key triple is attached to every operation.
    let mut b = Backend::build();
    b.bucket("test");
    b.server_side_encryption_with_customer_key("AES256", b"hello");
    let backend = b
        .finish("https://s3.amazonaws.com", "us-east-1")
        .expect("backend must build");
    let expected = vec![
        (
            "x-amz-server-side-encryption-customer-algorithm".to_string(),
            "AES256".to_string(),
        ),
        (
            "x-amz-server-side-encryption-customer-key".to_string(),
            "aGVsbG8=".to_string(),
        ),
        (
            "x-amz-server-side-encryption-customer-key-md5".to_string(),
            "XUFAKrxLKna5cZ2REBfFkg==".to_string(),
        ),
    ];
    let get = backend.get_object_request("k", None, None);
    assert_eq!(sse_pairs(&get.headers), expected);
    assert!(get.headers.iter().all(|h| h.sensitive));
    let put = backend.put_object_request("k", 1);
    // On a write the content-length comes first, then the same triple.
    assert_eq!(sse_pairs(&put.headers)[1..], expected[..]);
}

#[test]
fn empty_setting_clears_the_value() {
    let mut b = Backend::build();
    b.bucket("test");
    b.server_side_encryption("AES256");
    b.server_side_encryption("");
    let backend = b
        .finish("https://s3.amazonaws.com", "us-east-1")
        .expect("backend must build");
    let put = backend.put_object_request("k", 1);
    assert!(put.headers.iter().all(|h| h.name != "x-amz-server-side-encryption"));
}

#[test]
fn metadata_setters_populate_the_record() {
    let mut m = s3_accessor::metadata::Metadata::new();
    assert!(!m.complete);
    m.set_path("/x");
    m.set_content_length(7);
    m.set_content_md5("digest");
    m.set_last_modified(784887151);
    m.set_mode(s3_accessor::metadata::ObjectMode::FILE);
    m.set_complete();
    assert_eq!(m.path, "/x");
    assert_eq!(m.content_length, 7);
    assert_eq!(m.content_md5.as_deref(), Some("digest"));
    assert_eq!(m.last_modified, Some(784887151));
    assert_eq!(m.mode, s3_accessor::metadata::ObjectMode::FILE);
    assert!(m.complete);
}
