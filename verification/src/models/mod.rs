//! Data models for the App Store Connect API v1 (JSON:API format).

pub mod app;
pub mod ci;
pub mod common;
pub mod sales;
pub mod scm;

pub use app::AppAttributes;
pub use ci::{
    ActionType, CiArtifactAttributes, CompletionStatus, ExecutionProgress, IssueCounts, ProductType, SourceCommit,
};
pub use common::{JsonApiResponse, PagedDocumentLinks, Resource};
pub use sales::{parse_sales_tsv, SalesReportRow, SalesTsvError};
pub use scm::ScmGitReferenceAttributes;
