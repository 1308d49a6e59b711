use s3_accessor::backend::Backend;
use s3_accessor::list::{parse_listing_page, ListState, ListStep};

fn drive(stream: &mut ListState, pages: &mut Vec<(Vec<&str>, &str)>) -> (Vec<String>, Vec<String>) {
    // Runs the stream to completion, answering every Fetch from `pages`;
    // returns the yielded entries and the tokens of the fetches made.
    let mut entries = Vec::new();
    let mut fetch_tokens = Vec::new();
    loop {
        match stream.next_step() {
            ListStep::Entry(e) => entries.push(e),
            ListStep::Fetch(token) => {
                fetch_tokens.push(token);
                let (page, next) = pages.remove(0);
                stream.feed_page(page.iter().map(|s| s.to_string()).collect(), next);
            }
            ListStep::Done => return (entries, fetch_tokens),
        }
    }
}

#[test]
fn three_pages_yield_all_entries_in_order() {
    // Pages with continuation tokens T1 -> T2 -> "": every entry comes out
    // in order, and exactly two continuation calls are made.
    let mut stream = ListState::new("pre/".to_string());
    let mut pages = vec![
        (vec!["pre/a", "pre/b"], "T1"),
        (vec!["pre/c"], "T2"),
        (vec!["pre/d", "pre/e"], ""),
    ];
    let (entries, fetch_tokens) = drive(&mut stream, &mut pages);
    assert_eq!(entries, vec!["pre/a", "pre/b", "pre/c", "pre/d", "pre/e"]);
    assert_eq!(fetch_tokens, vec!["", "T1", "T2"]);
    let continuations = fetch_tokens.iter().filter(|t| !t.is_empty()).count();
    assert_eq!(continuations, 2);
    // The stream stays terminated: it is forward-only and non-restartable.
    assert!(matches!(stream.next_step(), ListStep::Done));
}

#[test]
fn single_page_without_token_terminates() {
    let mut stream = ListState::new("p/".to_string());
    let mut pages = vec![(vec!["p/x"], "")];
    let (entries, fetch_tokens) = drive(&mut stream, &mut pages);
    assert_eq!(entries, vec!["p/x"]);
    assert_eq!(fetch_tokens, vec![""]);
}

#[test]
fn empty_listing_terminates_after_one_fetch() {
    let mut stream = ListState::new("p/".to_string());
    let mut pages = vec![(vec![], "")];
    let (entries, fetch_tokens) = drive(&mut stream, &mut pages);
    assert!(entries.is_empty());
    assert_eq!(fetch_tokens.len(), 1);
}

#[test]
fn terminate_ends_the_stream() {
    let mut stream = ListState::new("p/".to_string());
    match stream.next_step() {
        ListStep::Fetch(_) => stream.terminate(),
        _ => panic!("a fresh stream fetches first"),
    }
    assert!(matches!(stream.next_step(), ListStep::Done));
}

#[test]
fn page_decodes_keys_prefixes_and_token() {
    let xml = "<ListBucketResult><Prefix>pre/</Prefix>\
               <Contents><Key>pre/a.txt</Key></Contents>\
               <Contents><Key>pre/b.txt</Key></Contents>\
               <CommonPrefixes><Prefix>pre/sub/</Prefix></CommonPrefixes>\
               <NextContinuationToken>T1</NextContinuationToken>\
               </ListBucketResult>";
    let (entries, token) = parse_listing_page(xml);
    assert_eq!(entries, vec!["pre/a.txt", "pre/b.txt", "pre/sub/"]);
    assert_eq!(token, "T1");
}

#[test]
fn page_without_token_is_the_last() {
    let xml = "<ListBucketResult>\
               <Contents><Key>x</Key></Contents>\
               </ListBucketResult>";
    let (entries, token) = parse_listing_page(xml);
    assert_eq!(entries, vec!["x"]);
    assert_eq!(token, "");
}

#[test]
fn empty_page_decodes_to_nothing() {
    let (entries, token) = parse_listing_page("<ListBucketResult></ListBucketResult>");
    assert!(entries.is_empty());
    assert_eq!(token, "");
}

#[test]
fn list_prefix_gets_a_trailing_slash() {
    let mut b = Backend::build();
    b.root("/abc/");
    b.bucket("test");
    let backend = b
        .finish("https://s3.us-east-2.amazonaws.com", "us-east-2")
        .expect("backend must build");
    let stream = backend.list_state("/dir");
    assert_eq!(stream.prefix().as_str(), "abc/dir/");
    let stream = backend.list_state("/dir/");
    assert_eq!(stream.prefix().as_str(), "abc/dir/");
}

#[test]
fn list_request_carries_the_continuation_token() {
    let mut b = Backend::build();
    b.bucket("test");
    let backend = b
        .finish("https://s3.us-east-2.amazonaws.com", "us-east-2")
        .expect("backend must build");
    let r = backend.list_objects_request("pre/", "");
    assert_eq!(
        r.uri,
        "https://s3.us-east-2.amazonaws.com/test?list-type=2&delimiter=/&prefix=pre/"
    );
    let r = backend.list_objects_request("pre/", "T1");
    assert_eq!(
        r.uri,
        "https://s3.us-east-2.amazonaws.com/test?list-type=2&delimiter=/&prefix=pre/&continuation-token=T1"
    );
}
