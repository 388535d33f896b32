//! Tests for the retry policy, status handling and pagination.

use asc_mcp::client::{
    is_success_status, parse_u64, retry_after_secs, ApiError, PageCollector, RetryDecision,
    RetryState,
};
use asc_mcp::auth::AuthError;
use asc_mcp::models::sales::SalesTsvError;
use asc_mcp::models::{JsonApiResponse, PagedDocumentLinks};

#[test]
fn test_rate_limit_retries_then_gives_up() {
    let mut state = RetryState::new();
    assert_eq!(state.on_status(429, Some("0")), RetryDecision::Wait(0));
    assert_eq!(state.on_status(429, Some("7")), RetryDecision::Wait(7));
    assert_eq!(state.on_status(429, None), RetryDecision::Wait(5));
    assert_eq!(state.on_status(429, Some("0")), RetryDecision::GiveUp);
}

#[test]
fn test_rate_limit_retry_then_success() {
    let mut state = RetryState::new();
    assert_eq!(state.on_status(429, Some("0")), RetryDecision::Wait(0));
    assert_eq!(state.on_status(200, None), RetryDecision::Proceed);
}

#[test]
fn test_errors_are_not_retried() {
    let mut state = RetryState::new();
    assert_eq!(state.on_status(401, Some("3")), RetryDecision::Proceed);
    assert_eq!(state.on_status(500, None), RetryDecision::Proceed);
}

#[test]
fn test_retry_after_header() {
    assert_eq!(retry_after_secs(None), 5);
    assert_eq!(retry_after_secs(Some("0")), 0);
    assert_eq!(retry_after_secs(Some("120")), 120);
    assert_eq!(retry_after_secs(Some("soon")), 5);
    assert_eq!(retry_after_secs(Some(" 3")), 5);
    assert_eq!(retry_after_secs(Some("")), 5);
}

#[test]
fn test_parse_u64() {
    assert_eq!(parse_u64("42"), Some(42));
    assert_eq!(parse_u64("+42"), Some(42));
    assert_eq!(parse_u64("007"), Some(7));
    assert_eq!(parse_u64("18446744073709551615"), Some(u64::MAX));
    assert_eq!(parse_u64("18446744073709551616"), None);
    assert_eq!(parse_u64("+"), None);
    assert_eq!(parse_u64("-1"), None);
    assert_eq!(parse_u64("1_000"), None);
    assert_eq!(parse_u64(""), None);
    for s in ["0", "+9", "99999", "12a", "٣"] {
        assert_eq!(parse_u64(s), s.parse::<u64>().ok());
    }
}

#[test]
fn test_success_statuses() {
    assert!(is_success_status(200));
    assert!(is_success_status(201));
    assert!(is_success_status(299));
    assert!(!is_success_status(199));
    assert!(!is_success_status(300));
    assert!(!is_success_status(401));
    assert!(!is_success_status(404));
    assert!(!is_success_status(429));
}

fn page(ids: &[&str], next: Option<&str>) -> JsonApiResponse<Vec<String>> {
    JsonApiResponse {
        data: ids.iter().map(|s| s.to_string()).collect(),
        links: Some(PagedDocumentLinks {
            self_link: Some("https://x/v1/test".into()),
            next: next.map(String::from),
        }),
    }
}

#[test]
fn test_get_all_pages_follows_next() {
    let mut pages = PageCollector::new();
    let next = pages.add_page(page(&["rev-1"], Some("https://x/page2")));
    assert_eq!(next.as_deref(), Some("https://x/page2"));
    let next = pages.add_page(page(&["rev-2", "rev-3"], None));
    assert_eq!(next, None);
    assert_eq!(pages.into_items(), vec!["rev-1", "rev-2", "rev-3"]);
}

#[test]
fn test_page_without_links_ends_collection() {
    let mut pages = PageCollector::new();
    let next = pages.add_page(JsonApiResponse { data: vec![1u8, 2], links: None });
    assert_eq!(next, None);
    assert_eq!(pages.into_items(), vec![1, 2]);
}

#[test]
fn test_sales_error_becomes_api_error() {
    let e = ApiError::from_sales_error(&SalesTsvError::Parse("bad row".into()));
    match e {
        ApiError::SalesReport(m) => assert_eq!(m, "TSV parse error: bad row"),
        _ => panic!("expected a sales report error"),
    }
}

#[test]
fn test_auth_error_converts_to_api_error() {
    let e: ApiError = AuthError::InvalidKey("bad".into()).into();
    assert!(matches!(e, ApiError::Auth(AuthError::InvalidKey(ref m)) if m == "bad"));
}
