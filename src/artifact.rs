//! The pull-request artifact that the actions mode classifies, and its
//! validation.

use vstd::prelude::*;
use vstd::string::*;

verus! {

/// Size of a pull request's diff.
#[derive(Debug, Clone, Copy, PartialEq, Eq, Structural)]
pub struct DiffStats {
    pub additions: u64,
    pub deletions: u64,
    pub changed_files: u64,
}

/// Everything the actions mode knows of one pull request.
#[derive(Debug, Clone)]
pub struct PrArtifact {
    pub schema_version: u32,
    pub pr_number: u64,
    pub pr_author: String,
    pub pr_author_id: u64,
    pub pr_title: String,
    pub pr_body: String,
    pub base_repo: String,
    pub head_repo: String,
    pub diff_stats: DiffStats,
    pub file_list: Vec<String>,
    pub diff_content: String,
    pub event_timestamp: String,
}

/// The only artifact schema understood.
pub const SCHEMA_VERSION: u32 = 1;

/// Why an artifact was refused.
#[derive(Debug, Clone, Copy, PartialEq, Eq, Structural)]
pub enum ArtifactError {
    InvalidSchemaVersion,
    MissingPrAuthor,
    MissingPrTitle,
    MissingBaseRepo,
    MissingHeadRepo,
    MissingEventTimestamp,
    InvalidPrNumber,
    InvalidPrAuthorId,
}

/// The text of an artifact error.
pub open spec fn artifact_error_text(e: ArtifactError) -> Seq<char> {
    match e {
        ArtifactError::InvalidSchemaVersion => "Invalid schema_version: expected 1"@,
        ArtifactError::MissingPrAuthor => "Missing required field: pr_author"@,
        ArtifactError::MissingPrTitle => "Missing required field: pr_title"@,
        ArtifactError::MissingBaseRepo => "Missing required field: base_repo"@,
        ArtifactError::MissingHeadRepo => "Missing required field: head_repo"@,
        ArtifactError::MissingEventTimestamp => "Missing required field: event_timestamp"@,
        ArtifactError::InvalidPrNumber => "Invalid pr_number: must be > 0"@,
        ArtifactError::InvalidPrAuthorId => "Invalid pr_author_id: must be > 0"@,
    }
}

impl ArtifactError {
    /// The error, in words.
    pub fn message(&self) -> (r: String)
        ensures
            r@ == artifact_error_text(*self),
    {
        match self {
            ArtifactError::InvalidSchemaVersion => String::from_str("Invalid schema_version: expected 1"),
            ArtifactError::MissingPrAuthor => String::from_str("Missing required field: pr_author"),
            ArtifactError::MissingPrTitle => String::from_str("Missing required field: pr_title"),
            ArtifactError::MissingBaseRepo => String::from_str("Missing required field: base_repo"),
            ArtifactError::MissingHeadRepo => String::from_str("Missing required field: head_repo"),
            ArtifactError::MissingEventTimestamp => String::from_str("Missing required field: event_timestamp"),
            ArtifactError::InvalidPrNumber => String::from_str("Invalid pr_number: must be > 0"),
            ArtifactError::InvalidPrAuthorId => String::from_str("Invalid pr_author_id: must be > 0"),
        }
    }
}

/// The first problem of an artifact, in the order the checks are made.
pub open spec fn artifact_problem(a: PrArtifact) -> Option<ArtifactError> {
    if a.schema_version != SCHEMA_VERSION {
        Some(ArtifactError::InvalidSchemaVersion)
    } else if a.pr_author@.len() == 0 {
        Some(ArtifactError::MissingPrAuthor)
    } else if a.pr_title@.len() == 0 {
        Some(ArtifactError::MissingPrTitle)
    } else if a.base_repo@.len() == 0 {
        Some(ArtifactError::MissingBaseRepo)
    } else if a.head_repo@.len() == 0 {
        Some(ArtifactError::MissingHeadRepo)
    } else if a.event_timestamp@.len() == 0 {
        Some(ArtifactError::MissingEventTimestamp)
    } else if a.pr_number == 0 {
        Some(ArtifactError::InvalidPrNumber)
    } else if a.pr_author_id == 0 {
        Some(ArtifactError::InvalidPrAuthorId)
    } else {
        None
    }
}

/// Accept an artifact of the known schema whose required texts are present
/// and whose numbers are positive.
pub fn validate_artifact(artifact: &PrArtifact) -> (r: Result<(), ArtifactError>)
    ensures
        match artifact_problem(*artifact) {
            None => r is Ok,
            Some(e) => r == Err::<(), ArtifactError>(e),
        },
{
    if artifact.schema_version != SCHEMA_VERSION {
        return Err(ArtifactError::InvalidSchemaVersion);
    }
    if artifact.pr_author.as_str().is_empty() {
        return Err(ArtifactError::MissingPrAuthor);
    }
    if artifact.pr_title.as_str().is_empty() {
        return Err(ArtifactError::MissingPrTitle);
    }
    if artifact.base_repo.as_str().is_empty() {
        return Err(ArtifactError::MissingBaseRepo);
    }
    if artifact.head_repo.as_str().is_empty() {
        return Err(ArtifactError::MissingHeadRepo);
    }
    if artifact.event_timestamp.as_str().is_empty() {
        return Err(ArtifactError::MissingEventTimestamp);
    }
    if artifact.pr_number == 0 {
        return Err(ArtifactError::InvalidPrNumber);
    }
    if artifact.pr_author_id == 0 {
        return Err(ArtifactError::InvalidPrAuthorId);
    }
    Ok(())
}

} // verus!
