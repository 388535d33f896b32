//! Tests for endpoint paths, query parameters and request bodies.

use asc_mcp::client::ApiError;
use asc_mcp::client_endpoints::{
    api_url, json_quote, sales_report_query, sales_report_rows, start_build_body, Endpoint, DEFAULT_BASE_URL,
};

#[test]
fn test_endpoint_paths() {
    assert_eq!(Endpoint::CiProducts.path(), "/ciProducts");
    assert_eq!(Endpoint::CiProduct("p1".into()).path(), "/ciProducts/p1");
    assert_eq!(Endpoint::CiProductWorkflows("p1".into()).path(), "/ciProducts/p1/workflows");
    assert_eq!(Endpoint::CiWorkflow("w1".into()).path(), "/ciWorkflows/w1");
    assert_eq!(Endpoint::CiWorkflowBuildRuns("w1".into()).path(), "/ciWorkflows/w1/buildRuns");
    assert_eq!(Endpoint::CiBuildRun("r1".into()).path(), "/ciBuildRuns/r1");
    assert_eq!(Endpoint::CiBuildRuns.path(), "/ciBuildRuns");
    assert_eq!(Endpoint::CiBuildRunActions("r1".into()).path(), "/ciBuildRuns/r1/actions");
    assert_eq!(Endpoint::Apps.path(), "/apps");
    assert_eq!(Endpoint::App("app-1".into()).path(), "/apps/app-1");
    assert_eq!(
        Endpoint::AppCustomerReviews("app-1".into()).path(),
        "/apps/app-1/customerReviews"
    );
    assert_eq!(Endpoint::SalesReports.path(), "/salesReports");
}

#[test]
fn test_api_url() {
    assert_eq!(
        api_url(DEFAULT_BASE_URL, "/apps"),
        "https://api.appstoreconnect.apple.com/v1/apps"
    );
    assert_eq!(api_url("http://127.0.0.1:9", "/x"), "http://127.0.0.1:9/x");
}

#[test]
fn test_sales_report_query() {
    let q = sales_report_query("85000", "SALES", "SUMMARY", "DAILY", "2026-03-01");
    let expected = [
        ("filter[vendorNumber]", "85000"),
        ("filter[reportType]", "SALES"),
        ("filter[reportSubType]", "SUMMARY"),
        ("filter[frequency]", "DAILY"),
        ("filter[reportDate]", "2026-03-01"),
    ];
    assert_eq!(q.len(), expected.len());
    for ((k, v), (ek, ev)) in q.iter().zip(expected.iter()) {
        assert_eq!(k, ek);
        assert_eq!(v, ev);
    }
}

#[test]
fn test_start_build_body() {
    let body = start_build_body("w1", "ref-main");
    assert_eq!(
        body,
        "{\"data\":{\"relationships\":{\"sourceBranchOrTag\":{\"data\":{\"id\":\"ref-main\",\"type\":\"scmGitReferences\"}},\"workflow\":{\"data\":{\"id\":\"w1\",\"type\":\"ciWorkflows\"}}},\"type\":\"ciBuildRuns\"}}"
    );
}

#[test]
fn test_start_build_body_escapes_ids() {
    let body = start_build_body("a\"b", "c\\d");
    assert!(body.contains("\"id\":\"a\\\"b\""));
    assert!(body.contains("\"id\":\"c\\\\d\""));
}

#[test]
fn test_sales_report_rows_invalid_gzip() {
    match sales_report_rows(b"not-gzip-data") {
        Err(ApiError::SalesReport(m)) => assert!(m.starts_with("gzip decompression failed: ")),
        _ => panic!("expected a sales report error"),
    }
}

#[test]
fn test_start_build_body_is_the_json_document() {
    let body = start_build_body("wf\u{1}", "ref\n");
    let parsed: serde_json::Value = serde_json::from_str(&body).unwrap();
    assert_eq!(parsed["data"]["type"], "ciBuildRuns");
    assert_eq!(parsed["data"]["relationships"]["workflow"]["data"]["id"], "wf\u{1}");
    assert_eq!(parsed["data"]["relationships"]["workflow"]["data"]["type"], "ciWorkflows");
    assert_eq!(parsed["data"]["relationships"]["sourceBranchOrTag"]["data"]["id"], "ref\n");
    assert_eq!(
        parsed["data"]["relationships"]["sourceBranchOrTag"]["data"]["type"],
        "scmGitReferences"
    );
}

#[test]
fn test_json_quote_escapes() {
    assert_eq!(json_quote(""), "\"\"");
    assert_eq!(json_quote("plain"), "\"plain\"");
    assert_eq!(json_quote("a\"b\\c"), "\"a\\\"b\\\\c\"");
    assert_eq!(json_quote("\u{8}\u{c}\n\r\t"), "\"\\b\\f\\n\\r\\t\"");
    assert_eq!(json_quote("\u{0}\u{1f}"), "\"\\u0000\\u001f\"");
    assert_eq!(json_quote("caf\u{e9} \u{7f} \u{1f600}"), "\"caf\u{e9} \u{7f} \u{1f600}\"");
}

#[test]
fn test_json_quote_matches_serde_json() {
    let samples = [
        "",
        "w1",
        "quote\" backslash\\ slash/",
        "\u{0}\u{1}\u{7}\u{8}\u{9}\u{a}\u{b}\u{c}\u{d}\u{e}\u{1a}\u{1f} \u{7f}",
        "unicode \u{e9}\u{4e2d}\u{1f680}",
    ];
    for s in samples {
        assert_eq!(json_quote(s), serde_json::to_string(s).unwrap());
    }
}

#[test]
fn test_sales_report_rows_mismatch_text() {
    let mut enc = flate2::write::GzEncoder::new(Vec::new(), flate2::Compression::default());
    std::io::Write::write_all(&mut enc, b"Provider\tSKU\nAPPLE\tX\n").unwrap();
    let data = enc.finish().unwrap();
    match sales_report_rows(&data) {
        Err(ApiError::SalesReport(m)) => {
            assert_eq!(m, "TSV parse error: record does not match the report columns")
        },
        _ => panic!("expected a sales report error"),
    }
}
