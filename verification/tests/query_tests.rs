use cmr_client::urls::attach_route_and_params;
use cmr_client::Query;

#[test]
fn test_build_url() {
    // Create a Query instance with a mock route and mode
    let query = Query::new("mock_route", "mock_mode");

    // Call build_url to get the URL string
    let url_result = query.build_url();

    // Ensure that build_url returns a valid URL string
    assert!(url_result.is_ok());
}

#[test]
fn test_new_uat_endpoint() {
    let query = Query::new("collections", "CMR_UAT");
    assert_eq!(query.base_url(), "https://cmr.uat.earthdata.nasa.gov/search/");
}

#[test]
fn test_new_sit_endpoint() {
    let query = Query::new("collections", "CMR_SIT");
    assert_eq!(query.base_url(), "https://cmr.sit.earthdata.nasa.gov/search/");
}

#[test]
fn test_new_unrecognized_mode_defaults_to_production() {
    let query = Query::new("collections", "mock_mode");
    assert_eq!(query.base_url(), "https://cmr.earthdata.nasa.gov/search/");
    let query = Query::new("collections", "");
    assert_eq!(query.base_url(), "https://cmr.earthdata.nasa.gov/search/");
}

#[test]
fn test_build_url_succeeds_on_fixed_endpoints() {
    for mode in ["CMR_OPS", "CMR_UAT", "CMR_SIT", "anything-else"] {
        let query = Query::new("granules", mode);
        let built = query.build_url();
        assert!(built.is_ok());
        assert!(built.unwrap().starts_with(query.base_url()));
    }
}

#[test]
fn test_build_url_is_deterministic() {
    let mut query = Query::new("collections", "CMR_OPS");
    query.set_param("keyword".to_owned(), "ice".to_owned());
    assert_eq!(query.build_url().unwrap(), query.build_url().unwrap());
}

#[test]
fn test_oversized_route_is_rejected() {
    let route = "r".repeat(600_000);
    let query = Query::new(&route, "CMR_OPS");
    let outcome = query.build_url();
    assert!(matches!(outcome, Err(cmr_client::urls::UrlError::TooLong)));
}

#[test]
fn test_attach_encodes_route_segment() {
    let mut u = url::Url::parse("https://example.net/base").unwrap();
    let params = Vec::new();
    assert!(attach_route_and_params(&mut u, "a b", &params));
    let segments: Vec<&str> = u.path_segments().unwrap().collect();
    assert_eq!(segments.last(), Some(&"a%20b"));
}

#[test]
fn test_built_url_path_ends_with_route() {
    let query = Query::new("collections", "CMR_OPS");
    let built = query.build_url().unwrap();
    let parsed = url::Url::parse(&built).unwrap();
    let segments: Vec<&str> = parsed.path_segments().unwrap().collect();
    assert_eq!(segments.last(), Some(&"collections"));
}

#[test]
fn test_built_url_params_appear_once_encoded() {
    let mut query = Query::new("granules", "CMR_UAT");
    query.set_param("keyword".to_owned(), "a b&c".to_owned());
    query.set_param("page".to_owned(), "2".to_owned());
    let built = query.build_url().unwrap();
    // the value is URL-encoded in the serialized string
    assert!(built.contains("keyword=a+b%26c"));
    let parsed = url::Url::parse(&built).unwrap();
    let pairs: Vec<(String, String)> = parsed.query_pairs().into_owned().collect();
    assert_eq!(
        pairs,
        vec![
            ("keyword".to_owned(), "a b&c".to_owned()),
            ("page".to_owned(), "2".to_owned()),
        ]
    );
}

#[test]
fn test_set_param_replaces_existing_key() {
    let mut query = Query::new("granules", "CMR_OPS");
    query.set_param("k".to_owned(), "1".to_owned());
    query.set_param("other".to_owned(), "x".to_owned());
    query.set_param("k".to_owned(), "2".to_owned());
    let built = query.build_url().unwrap();
    let parsed = url::Url::parse(&built).unwrap();
    let pairs: Vec<(String, String)> = parsed.query_pairs().into_owned().collect();
    assert_eq!(
        pairs,
        vec![
            ("k".to_owned(), "2".to_owned()),
            ("other".to_owned(), "x".to_owned()),
        ]
    );
}

#[test]
fn test_set_format_accepts_supported() {
    let mut query = Query::new("collections", "CMR_OPS");
    assert_eq!(query.format(), "json");
    assert!(query.set_format("xml"));
    assert_eq!(query.format(), "xml");
}

#[test]
fn test_set_format_rejects_unsupported() {
    let mut query = Query::new("collections", "CMR_OPS");
    assert!(!query.set_format("yaml"));
    assert_eq!(query.format(), "json");
}

#[test]
fn test_cursor_set_and_cleared() {
    let mut query = Query::new("collections", "CMR_OPS");
    assert!(query.cursor.is_none());
    query.set_cursor(Some("resume-here".to_owned()));
    assert_eq!(query.cursor.as_deref(), Some("resume-here"));
    query.clear_cursor();
    assert!(query.cursor.is_none());
    assert_eq!(cmr_client::query::cursor_header_name(), "cmr-search-after");
}

#[test]
fn test_attach_route_and_params_appends() {
    let mut u = url::Url::parse("https://example.net/base/").unwrap();
    let params = vec![("q".to_owned(), "v".to_owned())];
    assert!(attach_route_and_params(&mut u, "route", &params));
    let segments: Vec<&str> = u.path_segments().unwrap().collect();
    assert_eq!(segments.last(), Some(&"route"));
    let pairs: Vec<(String, String)> = u.query_pairs().into_owned().collect();
    assert_eq!(pairs, vec![("q".to_owned(), "v".to_owned())]);
}

#[test]
fn test_attach_route_fails_on_non_base_url() {
    let mut u = url::Url::parse("mailto:someone@example.net").unwrap();
    let before = u.clone();
    let params = Vec::new();
    assert!(!attach_route_and_params(&mut u, "route", &params));
    assert_eq!(u, before);
}
