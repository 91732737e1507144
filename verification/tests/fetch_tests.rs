use cmr_client::fetch::FetchError;
use cmr_client::Query;

/// A JSON feed envelope holding `n` records.
fn feed_body(n: usize) -> String {
    let mut body = String::from("{\"feed\":{\"entry\":[");
    for i in 0..n {
        if i > 0 {
            body.push(',');
        }
        body.push_str(&i.to_string());
    }
    body.push_str("]}}");
    body
}

#[test]
fn test_max_page_size_is_server_ceiling() {
    assert_eq!(cmr_client::max_page_size(), 2000);
}

#[test]
fn test_limit_zero_issues_no_request() {
    let query = Query::new("collections", "CMR_OPS");
    let fetch = query.start_fetch(0);
    assert!(fetch.is_done());
    assert_eq!(fetch.next_request_size(), None);
    assert!(fetch.into_results().is_empty());
}

#[test]
fn test_single_page_within_limit() {
    let query = Query::new("collections", "CMR_OPS");
    let mut fetch = query.start_fetch(10);
    assert_eq!(fetch.next_request_size(), Some(10));
    assert!(fetch.apply_page(&feed_body(10)).is_ok());
    assert!(fetch.is_done());
    assert_eq!(fetch.next_request_size(), None);
    assert_eq!(fetch.result_count(), 10);
}

#[test]
fn test_page_size_clamped_to_maximum() {
    let query = Query::new("collections", "CMR_OPS");
    let fetch = query.start_fetch(5000);
    assert_eq!(fetch.next_request_size(), Some(2000));
}

#[test]
fn test_full_page_under_limit_continues() {
    let query = Query::new("collections", "CMR_OPS");
    let mut fetch = query.start_fetch(4000);
    assert_eq!(fetch.next_request_size(), Some(2000));
    assert!(fetch.apply_page(&feed_body(2000)).is_ok());
    assert!(!fetch.is_done());
    assert_eq!(fetch.next_request_size(), Some(2000));
}

#[test]
fn test_multi_page_request_count() {
    let query = Query::new("collections", "CMR_OPS");
    let mut fetch = query.start_fetch(4500);
    let mut requests = 0;
    while let Some(size) = fetch.next_request_size() {
        assert!(fetch.apply_page(&feed_body(size)).is_ok());
        requests += 1;
        assert!(requests <= 3);
    }
    // ceil(4500 / 2000) pages: 2000 + 2000 + 500
    assert_eq!(requests, 3);
    assert_eq!(fetch.result_count(), 4500);
}

#[test]
fn test_short_page_returns_partial_results() {
    let query = Query::new("collections", "CMR_OPS");
    let mut fetch = query.start_fetch(5000);
    assert!(fetch.apply_page(&feed_body(2000)).is_ok());
    assert!(!fetch.is_done());
    assert!(fetch.apply_page(&feed_body(300)).is_ok());
    assert!(fetch.is_done());
    assert_eq!(fetch.result_count(), 2300);
    assert_eq!(fetch.into_results().len(), 2300);
}

#[test]
fn test_empty_page_stops() {
    let query = Query::new("collections", "CMR_OPS");
    let mut fetch = query.start_fetch(50);
    assert!(fetch.apply_page(&feed_body(0)).is_ok());
    assert!(fetch.is_done());
    assert_eq!(fetch.result_count(), 0);
}

#[test]
fn test_invalid_json_is_a_decode_error() {
    let query = Query::new("collections", "CMR_OPS");
    let mut fetch = query.start_fetch(10);
    let outcome = fetch.apply_page("not json at all");
    assert!(matches!(outcome, Err(FetchError::Decode(_))));
    // the fetch state is untouched
    assert!(!fetch.is_done());
    assert_eq!(fetch.result_count(), 0);
}

#[test]
fn test_envelope_without_entries_reads_as_empty() {
    let query = Query::new("collections", "CMR_OPS");
    let mut fetch = query.start_fetch(10);
    assert!(fetch.apply_page("{\"hits\": 0}").is_ok());
    assert!(fetch.is_done());
    assert_eq!(fetch.result_count(), 0);
}

#[test]
fn test_raw_format_wraps_body_as_one_value() {
    let mut query = Query::new("collections", "CMR_OPS");
    assert!(query.set_format("xml"));
    let mut fetch = query.start_fetch(5);
    assert!(fetch.apply_page("<results></results>").is_ok());
    assert!(fetch.is_done());
    let results = fetch.into_results();
    assert_eq!(results.len(), 1);
    assert_eq!(results[0], serde_json::Value::String("<results></results>".to_owned()));
}

#[test]
fn test_entries_are_the_feed_records() {
    let query = Query::new("collections", "CMR_OPS");
    let mut fetch = query.start_fetch(3);
    assert!(fetch.apply_page("{\"feed\":{\"entry\":[{\"id\":\"a\"},{\"id\":\"b\"}]}}").is_ok());
    let results = fetch.into_results();
    assert_eq!(results.len(), 2);
    assert_eq!(results[0]["id"], serde_json::Value::String("a".to_owned()));
    assert_eq!(results[1]["id"], serde_json::Value::String("b".to_owned()));
}
