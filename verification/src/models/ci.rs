//! Status enums and plain attribute types of the Xcode Cloud CI resources.
//!
//! The API writes each value in SCREAMING_SNAKE_CASE; any value this library does not
//! know reads as `Unknown`, which is written back as `UNKNOWN`.

use vstd::prelude::*;

verus! {

/// Whether two strings hold the same characters.
pub(crate) fn str_eq(a: &str, b: &str) -> (res: bool)
    ensures
        res == (a@ == b@),
{
    String::from_str(a) == String::from_str(b)
}

/// Execution progress of a build run or action.
#[derive(Debug, Clone, Copy, PartialEq, Eq, Structural)]
pub enum ExecutionProgress {
    Pending,
    Running,
    Complete,
    Unknown,
}

/// Final completion status of a build run or action.
#[derive(Debug, Clone, Copy, PartialEq, Eq, Structural)]
pub enum CompletionStatus {
    Succeeded,
    Failed,
    Errored,
    Canceled,
    Skipped,
    Unknown,
}

/// Type of a CI build action.
#[derive(Debug, Clone, Copy, PartialEq, Eq, Structural)]
pub enum ActionType {
    Build,
    Analyze,
    Test,
    Archive,
    Unknown,
}

/// Product type of a CI product.
#[derive(Debug, Clone, Copy, PartialEq, Eq, Structural)]
pub enum ProductType {
    App,
    Framework,
    Unknown,
}

impl ExecutionProgress {
    /// The API name of a value.
    pub open spec fn api_name(self) -> Seq<char> {
        match self {
            ExecutionProgress::Pending => "PENDING"@,
            ExecutionProgress::Running => "RUNNING"@,
            ExecutionProgress::Complete => "COMPLETE"@,
            ExecutionProgress::Unknown => "UNKNOWN"@,
        }
    }

    /// The value an API name reads as.
    pub open spec fn read(s: Seq<char>) -> Self {
        if s == "PENDING"@ {
            ExecutionProgress::Pending
        } else if s == "RUNNING"@ {
            ExecutionProgress::Running
        } else if s == "COMPLETE"@ {
            ExecutionProgress::Complete
        } else {
            ExecutionProgress::Unknown
        }
    }

    /// Reads an API name; unknown names read as `Unknown`.
    pub fn from_api_str(s: &str) -> (res: Self)
        ensures
            res == Self::read(s@),
    {
        if str_eq(s, "PENDING") {
            ExecutionProgress::Pending
        } else if str_eq(s, "RUNNING") {
            ExecutionProgress::Running
        } else if str_eq(s, "COMPLETE") {
            ExecutionProgress::Complete
        } else {
            ExecutionProgress::Unknown
        }
    }

    /// The API name of this value.
    pub fn as_api_str(&self) -> (res: &'static str)
        ensures
            res@ == self.api_name(),
    {
        match self {
            ExecutionProgress::Pending => "PENDING",
            ExecutionProgress::Running => "RUNNING",
            ExecutionProgress::Complete => "COMPLETE",
            ExecutionProgress::Unknown => "UNKNOWN",
        }
    }
}

impl CompletionStatus {
    /// The API name of a value.
    pub open spec fn api_name(self) -> Seq<char> {
        match self {
            CompletionStatus::Succeeded => "SUCCEEDED"@,
            CompletionStatus::Failed => "FAILED"@,
            CompletionStatus::Errored => "ERRORED"@,
            CompletionStatus::Canceled => "CANCELED"@,
            CompletionStatus::Skipped => "SKIPPED"@,
            CompletionStatus::Unknown => "UNKNOWN"@,
        }
    }

    /// The value an API name reads as.
    pub open spec fn read(s: Seq<char>) -> Self {
        if s == "SUCCEEDED"@ {
            CompletionStatus::Succeeded
        } else if s == "FAILED"@ {
            CompletionStatus::Failed
        } else if s == "ERRORED"@ {
            CompletionStatus::Errored
        } else if s == "CANCELED"@ {
            CompletionStatus::Canceled
        } else if s == "SKIPPED"@ {
            CompletionStatus::Skipped
        } else {
            CompletionStatus::Unknown
        }
    }

    /// Reads an API name; unknown names read as `Unknown`.
    pub fn from_api_str(s: &str) -> (res: Self)
        ensures
            res == Self::read(s@),
    {
        if str_eq(s, "SUCCEEDED") {
            CompletionStatus::Succeeded
        } else if str_eq(s, "FAILED") {
            CompletionStatus::Failed
        } else if str_eq(s, "ERRORED") {
            CompletionStatus::Errored
        } else if str_eq(s, "CANCELED") {
            CompletionStatus::Canceled
        } else if str_eq(s, "SKIPPED") {
            CompletionStatus::Skipped
        } else {
            CompletionStatus::Unknown
        }
    }

    /// The API name of this value.
    pub fn as_api_str(&self) -> (res: &'static str)
        ensures
            res@ == self.api_name(),
    {
        match self {
            CompletionStatus::Succeeded => "SUCCEEDED",
            CompletionStatus::Failed => "FAILED",
            CompletionStatus::Errored => "ERRORED",
            CompletionStatus::Canceled => "CANCELED",
            CompletionStatus::Skipped => "SKIPPED",
            CompletionStatus::Unknown => "UNKNOWN",
        }
    }
}

impl ActionType {
    /// The API name of a value.
    pub open spec fn api_name(self) -> Seq<char> {
        match self {
            ActionType::Build => "BUILD"@,
            ActionType::Analyze => "ANALYZE"@,
            ActionType::Test => "TEST"@,
            ActionType::Archive => "ARCHIVE"@,
            ActionType::Unknown => "UNKNOWN"@,
        }
    }

    /// The value an API name reads as.
    pub open spec fn read(s: Seq<char>) -> Self {
        if s == "BUILD"@ {
            ActionType::Build
        } else if s == "ANALYZE"@ {
            ActionType::Analyze
        } else if s == "TEST"@ {
            ActionType::Test
        } else if s == "ARCHIVE"@ {
            ActionType::Archive
        } else {
            ActionType::Unknown
        }
    }

    /// Reads an API name; unknown names read as `Unknown`.
    pub fn from_api_str(s: &str) -> (res: Self)
        ensures
            res == Self::read(s@),
    {
        if str_eq(s, "BUILD") {
            ActionType::Build
        } else if str_eq(s, "ANALYZE") {
            ActionType::Analyze
        } else if str_eq(s, "TEST") {
            ActionType::Test
        } else if str_eq(s, "ARCHIVE") {
            ActionType::Archive
        } else {
            ActionType::Unknown
        }
    }

    /// The API name of this value.
    pub fn as_api_str(&self) -> (res: &'static str)
        ensures
            res@ == self.api_name(),
    {
        match self {
            ActionType::Build => "BUILD",
            ActionType::Analyze => "ANALYZE",
            ActionType::Test => "TEST",
            ActionType::Archive => "ARCHIVE",
            ActionType::Unknown => "UNKNOWN",
        }
    }
}

impl ProductType {
    /// The API name of a value.
    pub open spec fn api_name(self) -> Seq<char> {
        match self {
            ProductType::App => "APP"@,
            ProductType::Framework => "FRAMEWORK"@,
            ProductType::Unknown => "UNKNOWN"@,
        }
    }

    /// The value an API name reads as.
    pub open spec fn read(s: Seq<char>) -> Self {
        if s == "APP"@ {
            ProductType::App
        } else if s == "FRAMEWORK"@ {
            ProductType::Framework
        } else {
            ProductType::Unknown
        }
    }

    /// Reads an API name; unknown names read as `Unknown`.
    pub fn from_api_str(s: &str) -> (res: Self)
        ensures
            res == Self::read(s@),
    {
        if str_eq(s, "APP") {
            ProductType::App
        } else if str_eq(s, "FRAMEWORK") {
            ProductType::Framework
        } else {
            ProductType::Unknown
        }
    }

    /// The API name of this value.
    pub fn as_api_str(&self) -> (res: &'static str)
        ensures
            res@ == self.api_name(),
    {
        match self {
            ProductType::App => "APP",
            ProductType::Framework => "FRAMEWORK",
            ProductType::Unknown => "UNKNOWN",
        }
    }
}

/// Writing a value and reading it back gives the same value, for every value of each
/// status enum (`Unknown` is written as `UNKNOWN`, which no other value uses).
pub proof fn lemma_api_names_round_trip(
    p: ExecutionProgress,
    c: CompletionStatus,
    a: ActionType,
    t: ProductType,
)
    ensures
        ExecutionProgress::read(p.api_name()) == p,
        CompletionStatus::read(c.api_name()) == c,
        ActionType::read(a.api_name()) == a,
        ProductType::read(t.api_name()) == t,
{
    reveal_strlit("PENDING");
    reveal_strlit("RUNNING");
    reveal_strlit("COMPLETE");
    reveal_strlit("UNKNOWN");
    reveal_strlit("SUCCEEDED");
    reveal_strlit("FAILED");
    reveal_strlit("ERRORED");
    reveal_strlit("CANCELED");
    reveal_strlit("SKIPPED");
    reveal_strlit("BUILD");
    reveal_strlit("ANALYZE");
    reveal_strlit("TEST");
    reveal_strlit("ARCHIVE");
    reveal_strlit("APP");
    reveal_strlit("FRAMEWORK");
    assert("PENDING"@[0] == 'P' && "PENDING"@[1] == 'E');
    assert("RUNNING"@[0] == 'R' && "RUNNING"@[1] == 'U');
    assert("COMPLETE"@[0] == 'C' && "COMPLETE"@[1] == 'O');
    assert("UNKNOWN"@[0] == 'U' && "UNKNOWN"@[1] == 'N');
    assert("SUCCEEDED"@[0] == 'S' && "SUCCEEDED"@[1] == 'U');
    assert("FAILED"@[0] == 'F' && "FAILED"@[1] == 'A');
    assert("ERRORED"@[0] == 'E' && "ERRORED"@[1] == 'R');
    assert("CANCELED"@[0] == 'C' && "CANCELED"@[1] == 'A');
    assert("SKIPPED"@[0] == 'S' && "SKIPPED"@[1] == 'K');
    assert("BUILD"@[0] == 'B' && "BUILD"@[1] == 'U');
    assert("ANALYZE"@[0] == 'A' && "ANALYZE"@[1] == 'N');
    assert("TEST"@[0] == 'T' && "TEST"@[1] == 'E');
    assert("ARCHIVE"@[0] == 'A' && "ARCHIVE"@[1] == 'R');
    assert("APP"@[0] == 'A' && "APP"@[1] == 'P');
    assert("FRAMEWORK"@[0] == 'F' && "FRAMEWORK"@[1] == 'R');
}

/// Each variant is written as its name in SCREAMING_SNAKE_CASE, and that name reads back as
/// the variant (`FAILED` is `Failed`, `ERRORED` is `Errored`, and so on); `UNKNOWN` reads as
/// `Unknown`.
pub proof fn lemma_api_names_are_screaming_snake_case()
    ensures
        ExecutionProgress::Pending.api_name() == "PENDING"@,
        ExecutionProgress::read("PENDING"@) == ExecutionProgress::Pending,
        ExecutionProgress::Running.api_name() == "RUNNING"@,
        ExecutionProgress::read("RUNNING"@) == ExecutionProgress::Running,
        ExecutionProgress::Complete.api_name() == "COMPLETE"@,
        ExecutionProgress::read("COMPLETE"@) == ExecutionProgress::Complete,
        ExecutionProgress::Unknown.api_name() == "UNKNOWN"@,
        ExecutionProgress::read("UNKNOWN"@) == ExecutionProgress::Unknown,
        CompletionStatus::Succeeded.api_name() == "SUCCEEDED"@,
        CompletionStatus::read("SUCCEEDED"@) == CompletionStatus::Succeeded,
        CompletionStatus::Failed.api_name() == "FAILED"@,
        CompletionStatus::read("FAILED"@) == CompletionStatus::Failed,
        CompletionStatus::Errored.api_name() == "ERRORED"@,
        CompletionStatus::read("ERRORED"@) == CompletionStatus::Errored,
        CompletionStatus::Canceled.api_name() == "CANCELED"@,
        CompletionStatus::read("CANCELED"@) == CompletionStatus::Canceled,
        CompletionStatus::Skipped.api_name() == "SKIPPED"@,
        CompletionStatus::read("SKIPPED"@) == CompletionStatus::Skipped,
        CompletionStatus::Unknown.api_name() == "UNKNOWN"@,
        CompletionStatus::read("UNKNOWN"@) == CompletionStatus::Unknown,
        ActionType::Build.api_name() == "BUILD"@,
        ActionType::read("BUILD"@) == ActionType::Build,
        ActionType::Analyze.api_name() == "ANALYZE"@,
        ActionType::read("ANALYZE"@) == ActionType::Analyze,
        ActionType::Test.api_name() == "TEST"@,
        ActionType::read("TEST"@) == ActionType::Test,
        ActionType::Archive.api_name() == "ARCHIVE"@,
        ActionType::read("ARCHIVE"@) == ActionType::Archive,
        ActionType::Unknown.api_name() == "UNKNOWN"@,
        ActionType::read("UNKNOWN"@) == ActionType::Unknown,
        ProductType::App.api_name() == "APP"@,
        ProductType::read("APP"@) == ProductType::App,
        ProductType::Framework.api_name() == "FRAMEWORK"@,
        ProductType::read("FRAMEWORK"@) == ProductType::Framework,
        ProductType::Unknown.api_name() == "UNKNOWN"@,
        ProductType::read("UNKNOWN"@) == ProductType::Unknown,
{
    reveal_strlit("ANALYZE");
    reveal_strlit("APP");
    reveal_strlit("ARCHIVE");
    reveal_strlit("BUILD");
    reveal_strlit("CANCELED");
    reveal_strlit("COMPLETE");
    reveal_strlit("ERRORED");
    reveal_strlit("FAILED");
    reveal_strlit("FRAMEWORK");
    reveal_strlit("PENDING");
    reveal_strlit("RUNNING");
    reveal_strlit("SKIPPED");
    reveal_strlit("SUCCEEDED");
    reveal_strlit("TEST");
    reveal_strlit("UNKNOWN");
    assert("ANALYZE"@[0] == 'A' && "ANALYZE"@[1] == 'N');
    assert("APP"@[0] == 'A' && "APP"@[1] == 'P');
    assert("ARCHIVE"@[0] == 'A' && "ARCHIVE"@[1] == 'R');
    assert("BUILD"@[0] == 'B' && "BUILD"@[1] == 'U');
    assert("CANCELED"@[0] == 'C' && "CANCELED"@[1] == 'A');
    assert("COMPLETE"@[0] == 'C' && "COMPLETE"@[1] == 'O');
    assert("ERRORED"@[0] == 'E' && "ERRORED"@[1] == 'R');
    assert("FAILED"@[0] == 'F' && "FAILED"@[1] == 'A');
    assert("FRAMEWORK"@[0] == 'F' && "FRAMEWORK"@[1] == 'R');
    assert("PENDING"@[0] == 'P' && "PENDING"@[1] == 'E');
    assert("RUNNING"@[0] == 'R' && "RUNNING"@[1] == 'U');
    assert("SKIPPED"@[0] == 'S' && "SKIPPED"@[1] == 'K');
    assert("SUCCEEDED"@[0] == 'S' && "SUCCEEDED"@[1] == 'U');
    assert("TEST"@[0] == 'T' && "TEST"@[1] == 'E');
    assert("UNKNOWN"@[0] == 'U' && "UNKNOWN"@[1] == 'N');
}

/// Commit information embedded in a build run.
#[derive(Debug, Clone)]
pub struct SourceCommit {
    /// The commit SHA.
    pub commit_sha: Option<String>,
    /// The commit message.
    pub message: Option<String>,
}

/// Issue count summary for a build action.
#[derive(Debug, Clone, Copy, PartialEq, Eq, Structural)]
pub struct IssueCounts {
    /// Number of analyzer warnings.
    pub analyzer_warnings: Option<i64>,
    /// Number of errors.
    pub errors: Option<i64>,
    /// Number of test failures.
    pub test_failures: Option<i64>,
    /// Number of warnings.
    pub warnings: Option<i64>,
}

/// Attributes of a CI artifact produced by a build action.
#[derive(Debug, Clone)]
pub struct CiArtifactAttributes {
    /// Display name of the artifact.
    pub name: Option<String>,
    /// MIME type of the artifact file.
    pub file_type: Option<String>,
    /// Size in bytes.
    pub file_size: Option<i64>,
    /// Direct download URL.
    pub download_url: Option<String>,
}

} // verus!
