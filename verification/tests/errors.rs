use s3_accessor::error::{accumulate_error_body, classify_status, Error, ErrorKind, ERROR_BODY_CAP};

#[test]
fn status_404_is_not_found() {
    assert_eq!(classify_status(404), ErrorKind::NotFound);
}

#[test]
fn status_403_is_permission_denied() {
    assert_eq!(classify_status(403), ErrorKind::PermissionDenied);
}

#[test]
fn other_statuses_are_unexpected() {
    assert_eq!(classify_status(500), ErrorKind::Unexpected);
    assert_eq!(classify_status(301), ErrorKind::Unexpected);
    assert_eq!(classify_status(418), ErrorKind::Unexpected);
    assert_eq!(classify_status(0), ErrorKind::Unexpected);
}

#[test]
fn error_body_is_capped_at_4096_bytes() {
    let mut buf: Vec<u8> = Vec::new();
    let chunk = vec![7u8; 3000];
    let more = accumulate_error_body(&mut buf, &chunk);
    assert!(more);
    assert_eq!(buf.len(), 3000);
    let more = accumulate_error_body(&mut buf, &chunk);
    assert!(!more);
    assert_eq!(buf.len(), ERROR_BODY_CAP);
    assert_eq!(buf.len(), 4096);
    assert!(buf.iter().all(|&b| b == 7));
    // Once the cap is reached, further chunks change nothing.
    let more = accumulate_error_body(&mut buf, &chunk);
    assert!(!more);
    assert_eq!(buf.len(), 4096);
}

#[test]
fn error_body_keeps_the_earliest_bytes() {
    let mut buf: Vec<u8> = Vec::new();
    let first = vec![1u8; 4000];
    let second = vec![2u8; 4000];
    accumulate_error_body(&mut buf, &first);
    accumulate_error_body(&mut buf, &second);
    assert_eq!(buf.len(), 4096);
    assert!(buf[..4000].iter().all(|&b| b == 1));
    assert!(buf[4000..].iter().all(|&b| b == 2));
}

#[test]
fn small_bodies_are_kept_whole() {
    let mut buf: Vec<u8> = Vec::new();
    let more = accumulate_error_body(&mut buf, b"denied");
    assert!(more);
    assert_eq!(buf, b"denied");
}

#[test]
fn object_error_message_embeds_the_response_summary() {
    let headers = vec![("x-amz-request-id".to_string(), "abc".to_string())];
    let e = s3_accessor::backend::error_from_response("read", "a/b", 403, headers, b"denied".to_vec());
    assert_eq!(
        e.message(),
        "operation read on a/b failed: status code 403, headers: x-amz-request-id: abc; body: denied"
    );
}

#[test]
fn error_message_renders_unprintable_bytes_as_dots() {
    let e = s3_accessor::backend::error_from_response("stat", "p", 500, Vec::new(), vec![1, b'A']);
    assert_eq!(
        e.message(),
        "operation stat on p failed: status code 500, headers: body: .A"
    );
}

#[test]
fn configuration_error_message_carries_its_text() {
    let e = s3_accessor::endpoint::resolve_from_probe("https://s3.amazonaws.com", 301, &None)
        .expect_err("a 301 without the region header cannot resolve");
    assert_eq!(
        e.message(),
        "can't detect region automatically, region is empty"
    );
}

#[test]
fn object_error_keeps_the_response_summary() {
    let headers = vec![("x-amz-request-id".to_string(), "abc".to_string())];
    let body = b"denied".to_vec();
    let e = s3_accessor::backend::error_from_response("read", "a/b", 403, headers, body);
    assert_eq!(e.kind(), ErrorKind::PermissionDenied);
    match e {
        Error::Object { kind, op, path, status, headers, body } => {
            assert_eq!(kind, ErrorKind::PermissionDenied);
            assert_eq!(op, "read");
            assert_eq!(path, "a/b");
            assert_eq!(status, 403);
            assert_eq!(headers.len(), 1);
            assert_eq!(headers[0].0, "x-amz-request-id");
            assert_eq!(headers[0].1, "abc");
            assert_eq!(body, b"denied");
        }
        Error::Backend { .. } => panic!("a failed operation yields an object error"),
    }
}
