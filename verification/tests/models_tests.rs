//! Tests for the CI status enums and the JSON:API envelope.

use asc_mcp::models::{
    ActionType, CompletionStatus, ExecutionProgress, JsonApiResponse, PagedDocumentLinks,
    ProductType,
};

#[test]
fn test_enum_unknown_names_read_as_unknown() {
    assert_eq!(ExecutionProgress::from_api_str("BIZARRE"), ExecutionProgress::Unknown);
    assert_eq!(CompletionStatus::from_api_str("BIZARRE"), CompletionStatus::Unknown);
    assert_eq!(ActionType::from_api_str("BIZARRE"), ActionType::Unknown);
    assert_eq!(ProductType::from_api_str("WIDGET"), ProductType::Unknown);
    assert_eq!(ProductType::from_api_str("app"), ProductType::Unknown);
}

#[test]
fn test_enum_known_names() {
    assert_eq!(ProductType::from_api_str("APP"), ProductType::App);
    assert_eq!(ExecutionProgress::from_api_str("COMPLETE"), ExecutionProgress::Complete);
    assert_eq!(ExecutionProgress::from_api_str("PENDING"), ExecutionProgress::Pending);
    assert_eq!(CompletionStatus::from_api_str("SUCCEEDED"), CompletionStatus::Succeeded);
    assert_eq!(ActionType::from_api_str("BUILD"), ActionType::Build);
}

#[test]
fn test_enum_names_round_trip() {
    for v in [
        ExecutionProgress::Pending,
        ExecutionProgress::Running,
        ExecutionProgress::Complete,
        ExecutionProgress::Unknown,
    ] {
        assert_eq!(ExecutionProgress::from_api_str(v.as_api_str()), v);
    }
    for v in [
        CompletionStatus::Succeeded,
        CompletionStatus::Failed,
        CompletionStatus::Errored,
        CompletionStatus::Canceled,
        CompletionStatus::Skipped,
        CompletionStatus::Unknown,
    ] {
        assert_eq!(CompletionStatus::from_api_str(v.as_api_str()), v);
    }
    for v in [ActionType::Build, ActionType::Analyze, ActionType::Test, ActionType::Archive, ActionType::Unknown] {
        assert_eq!(ActionType::from_api_str(v.as_api_str()), v);
    }
    for v in [ProductType::App, ProductType::Framework, ProductType::Unknown] {
        assert_eq!(ProductType::from_api_str(v.as_api_str()), v);
    }
    assert_eq!(CompletionStatus::Canceled.as_api_str(), "CANCELED");
    assert_eq!(ActionType::Unknown.as_api_str(), "UNKNOWN");
}

#[test]
fn test_response_parts() {
    let resp = JsonApiResponse {
        data: 7u32,
        links: Some(PagedDocumentLinks {
            self_link: Some("https://a.com/v1/test/1".into()),
            next: Some("https://a.com/v1/test?cursor=2".into()),
        }),
    };
    let (data, next) = resp.into_parts();
    assert_eq!(data, 7);
    assert!(next.unwrap().contains("cursor=2"));
    let (_, next) = JsonApiResponse { data: (), links: None }.into_parts();
    assert!(next.is_none());
}

#[test]
fn test_plain_attribute_types() {
    let app = asc_mcp::models::AppAttributes {
        name: Some("My App".into()),
        bundle_id: Some("com.example.myapp".into()),
        sku: None,
        primary_locale: Some("en-US".into()),
    };
    assert_eq!(app.clone().bundle_id.as_deref(), Some("com.example.myapp"));
    let counts = asc_mcp::models::IssueCounts {
        analyzer_warnings: Some(0),
        errors: Some(2),
        test_failures: None,
        warnings: Some(5),
    };
    assert_eq!(counts, counts.clone());
    let commit = asc_mcp::models::SourceCommit { commit_sha: Some("abc123".into()), message: None };
    assert_eq!(commit.commit_sha.as_deref(), Some("abc123"));
    let artifact = asc_mcp::models::CiArtifactAttributes {
        name: Some("build.zip".into()),
        file_type: Some("application/zip".into()),
        file_size: Some(1024),
        download_url: None,
    };
    assert_eq!(artifact.file_size, Some(1024));
    let reference = asc_mcp::models::ScmGitReferenceAttributes {
        name: Some("main".into()),
        kind: Some("BRANCH".into()),
        is_deleted: Some(false),
    };
    assert_eq!(reference.is_deleted, Some(false));
}
