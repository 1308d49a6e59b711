use s3_accessor::backend::Backend;
use s3_accessor::endpoint::{resolve_from_probe, RegionResolution};
use s3_accessor::error::ErrorKind;

#[test]
fn explicit_region_resolves_without_probe() {
    // An explicit region with the default global endpoint resolves locally:
    // the region is substituted into the regional template and no probe is
    // asked for.
    let mut b = Backend::build();
    b.region("us-east-2");
    match b.prepare_region("test") {
        RegionResolution::Resolved { endpoint, region } => {
            assert_eq!(endpoint, "https://s3.us-east-2.amazonaws.com");
            assert_eq!(region, "us-east-2");
        }
        RegionResolution::Probe { .. } => panic!("an explicit region must not probe"),
    }
}

#[test]
fn missing_region_asks_for_probe() {
    let b = Backend::build();
    match b.prepare_region("test") {
        RegionResolution::Probe { endpoint, uri } => {
            assert_eq!(endpoint, "https://s3.amazonaws.com");
            assert_eq!(uri, "https://s3.amazonaws.com/test");
        }
        RegionResolution::Resolved { .. } => panic!("without a region a probe is owed"),
    }
}

#[test]
fn probe_moved_permanently_substitutes_template() {
    // A 301 probe answer must carry the region header; the endpoint is
    // reconstituted from the regional template.
    let r = resolve_from_probe(
        "https://s3.amazonaws.com",
        301,
        &Some("us-east-2".to_string()),
    )
    .expect("detect region must success");
    assert_eq!(r.0, "https://s3.us-east-2.amazonaws.com");
    assert_eq!(r.1, "us-east-2");
}

#[test]
fn probe_ok_keeps_endpoint_and_reads_header() {
    let r = resolve_from_probe(
        "https://s3.amazonaws.com",
        200,
        &Some("us-east-2".to_string()),
    )
    .expect("detect region must success");
    assert_eq!(r.0, "https://s3.amazonaws.com");
    assert_eq!(r.1, "us-east-2");
}

#[test]
fn probe_forbidden_still_carries_region_hint() {
    let r = resolve_from_probe(
        "https://s3.amazonaws.com",
        403,
        &Some("eu-west-1".to_string()),
    )
    .expect("even a permission-denied probe resolves");
    assert_eq!(r.0, "https://s3.amazonaws.com");
    assert_eq!(r.1, "eu-west-1");
}

#[test]
fn probe_ok_without_header_falls_back() {
    let r = resolve_from_probe("https://s3.amazonaws.com", 200, &None)
        .expect("detect region must success");
    assert_eq!(r.0, "https://s3.amazonaws.com");
    assert_eq!(r.1, "us-east-1");
}

#[test]
fn probe_moved_without_header_is_fatal() {
    let e = resolve_from_probe("https://s3.amazonaws.com", 301, &None)
        .expect_err("a 301 without the region header cannot resolve");
    assert_eq!(e.kind(), ErrorKind::BackendConfigurationInvalid);
}

#[test]
fn probe_moved_without_template_is_fatal() {
    let e = resolve_from_probe(
        "http://127.0.0.1:9000",
        301,
        &Some("us-east-2".to_string()),
    )
    .expect_err("an endpoint without a template cannot be reconstituted");
    assert_eq!(e.kind(), ErrorKind::BackendConfigurationInvalid);
}

#[test]
fn probe_unexpected_status_is_fatal_and_carries_the_code() {
    let e = resolve_from_probe("https://s3.amazonaws.com", 500, &None)
        .expect_err("an unexpected probe status cannot resolve");
    assert_eq!(e.kind(), ErrorKind::BackendConfigurationInvalid);
    assert_eq!(
        e.message(),
        "can't detect region automatically, unexpected response: status code 500"
    );
}

#[test]
fn probe_without_template_names_the_endpoint() {
    let e = resolve_from_probe("http://127.0.0.1:9000", 301, &Some("us-east-2".to_string()))
        .expect_err("an endpoint without a template cannot be reconstituted");
    assert_eq!(
        e.message(),
        "can't detect region automatically, no valid endpoint template for http://127.0.0.1:9000"
    );
}

#[test]
fn test_detect_region() {
    // endpoint = `https://s3.amazonaws.com`, region = None; the store
    // answers the probe with 301 and the bucket's region.
    let b = Backend::build();
    let (endpoint, region) = match b.prepare_region("test") {
        RegionResolution::Probe { endpoint, .. } => {
            resolve_from_probe(&endpoint, 301, &Some("us-east-2".to_string()))
                .expect("detect region must success")
        }
        RegionResolution::Resolved { endpoint, region } => (endpoint, region),
    };
    assert_eq!(endpoint, "https://s3.us-east-2.amazonaws.com");
    assert_eq!(region, "us-east-2");

    // endpoint = `https://s3.amazonaws.com`, region = `us-east-2`
    let mut b = Backend::build();
    b.region("us-east-2");
    match b.prepare_region("test") {
        RegionResolution::Resolved { endpoint, region } => {
            assert_eq!(endpoint, "https://s3.us-east-2.amazonaws.com");
            assert_eq!(region, "us-east-2");
        }
        RegionResolution::Probe { .. } => panic!("detect region must success"),
    }

    // endpoint = `https://s3.amazonaws.com` set explicitly, region set.
    let mut b = Backend::build();
    b.endpoint("https://s3.amazonaws.com");
    b.region("us-east-2");
    match b.prepare_region("test") {
        RegionResolution::Resolved { endpoint, region } => {
            assert_eq!(endpoint, "https://s3.us-east-2.amazonaws.com");
            assert_eq!(region, "us-east-2");
        }
        RegionResolution::Probe { .. } => panic!("detect region must success"),
    }

    // endpoint = `https://s3.us-east-2.amazonaws.com`, region set: no
    // template applies and the pair is taken verbatim.
    let mut b = Backend::build();
    b.endpoint("https://s3.us-east-2.amazonaws.com");
    b.region("us-east-2");
    match b.prepare_region("test") {
        RegionResolution::Resolved { endpoint, region } => {
            assert_eq!(endpoint, "https://s3.us-east-2.amazonaws.com");
            assert_eq!(region, "us-east-2");
        }
        RegionResolution::Probe { .. } => panic!("detect region must success"),
    }
}
