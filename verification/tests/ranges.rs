use s3_accessor::range::HeaderRange;

#[test]
fn range_offset_only_runs_to_end() {
    let r = HeaderRange::new(Some(10), None);
    assert_eq!(r.header_value(), "bytes=10-");
}

#[test]
fn range_size_only_takes_first_bytes() {
    let r = HeaderRange::new(None, Some(5));
    assert_eq!(r.header_value(), "bytes=0-4");
}

#[test]
fn range_offset_and_size() {
    let r = HeaderRange::new(Some(10), Some(5));
    assert_eq!(r.header_value(), "bytes=10-14");
}

#[test]
fn range_single_byte() {
    let r = HeaderRange::new(Some(0), Some(1));
    assert_eq!(r.header_value(), "bytes=0-0");
}

#[test]
fn range_large_offset() {
    let r = HeaderRange::new(Some(1048576), None);
    assert_eq!(r.header_value(), "bytes=1048576-");
}
