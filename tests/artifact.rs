use meritocrab::artifact::{validate_artifact, ArtifactError, DiffStats, PrArtifact};

#[test]
fn test_validate_artifact_valid() {
    let artifact = PrArtifact {
        schema_version: 1,
        pr_number: 42,
        pr_author: "contributor".to_string(),
        pr_author_id: 12345678,
        pr_title: "Add feature".to_string(),
        pr_body: "This adds a feature".to_string(),
        base_repo: "owner/repo".to_string(),
        head_repo: "fork/repo".to_string(),
        diff_stats: DiffStats {
            additions: 50,
            deletions: 10,
            changed_files: 3,
        },
        file_list: vec!["src/main.rs".to_string()],
        diff_content: "diff content".to_string(),
        event_timestamp: "2026-02-13T12:00:00Z".to_string(),
    };

    assert!(validate_artifact(&artifact).is_ok());
}

#[test]
fn test_validate_artifact_invalid_schema_version() {
    let artifact = PrArtifact {
        schema_version: 2,
        pr_number: 42,
        pr_author: "contributor".to_string(),
        pr_author_id: 12345678,
        pr_title: "Add feature".to_string(),
        pr_body: "This adds a feature".to_string(),
        base_repo: "owner/repo".to_string(),
        head_repo: "fork/repo".to_string(),
        diff_stats: DiffStats {
            additions: 50,
            deletions: 10,
            changed_files: 3,
        },
        file_list: vec!["src/main.rs".to_string()],
        diff_content: "diff content".to_string(),
        event_timestamp: "2026-02-13T12:00:00Z".to_string(),
    };

    assert!(validate_artifact(&artifact).is_err());
}

#[test]
fn test_validate_artifact_missing_pr_author() {
    let artifact = PrArtifact {
        schema_version: 1,
        pr_number: 42,
        pr_author: "".to_string(),
        pr_author_id: 12345678,
        pr_title: "Add feature".to_string(),
        pr_body: "This adds a feature".to_string(),
        base_repo: "owner/repo".to_string(),
        head_repo: "fork/repo".to_string(),
        diff_stats: DiffStats {
            additions: 50,
            deletions: 10,
            changed_files: 3,
        },
        file_list: vec!["src/main.rs".to_string()],
        diff_content: "diff content".to_string(),
        event_timestamp: "2026-02-13T12:00:00Z".to_string(),
    };

    let result = validate_artifact(&artifact);
    assert!(result.is_err());
    assert!(result.unwrap_err().message().contains("pr_author"));
}

#[test]
fn test_validate_artifact_missing_pr_title() {
    let artifact = PrArtifact {
        schema_version: 1,
        pr_number: 42,
        pr_author: "contributor".to_string(),
        pr_author_id: 12345678,
        pr_title: "".to_string(),
        pr_body: "This adds a feature".to_string(),
        base_repo: "owner/repo".to_string(),
        head_repo: "fork/repo".to_string(),
        diff_stats: DiffStats {
            additions: 50,
            deletions: 10,
            changed_files: 3,
        },
        file_list: vec!["src/main.rs".to_string()],
        diff_content: "diff content".to_string(),
        event_timestamp: "2026-02-13T12:00:00Z".to_string(),
    };

    let result = validate_artifact(&artifact);
    assert!(result.is_err());
    assert!(result.unwrap_err().message().contains("pr_title"));
}

#[test]
fn test_validate_artifact_zero_pr_number() {
    let artifact = PrArtifact {
        schema_version: 1,
        pr_number: 0,
        pr_author: "contributor".to_string(),
        pr_author_id: 12345678,
        pr_title: "Add feature".to_string(),
        pr_body: "This adds a feature".to_string(),
        base_repo: "owner/repo".to_string(),
        head_repo: "fork/repo".to_string(),
        diff_stats: DiffStats {
            additions: 50,
            deletions: 10,
            changed_files: 3,
        },
        file_list: vec!["src/main.rs".to_string()],
        diff_content: "diff content".to_string(),
        event_timestamp: "2026-02-13T12:00:00Z".to_string(),
    };

    let result = validate_artifact(&artifact);
    assert!(result.is_err());
    assert!(result.unwrap_err().message().contains("pr_number"));
}

fn sample() -> PrArtifact {
    PrArtifact {
        schema_version: 1,
        pr_number: 7,
        pr_author: "a".to_string(),
        pr_author_id: 3,
        pr_title: "t".to_string(),
        pr_body: String::new(),
        base_repo: "o/r".to_string(),
        head_repo: "f/r".to_string(),
        diff_stats: DiffStats { additions: 0, deletions: 0, changed_files: 0 },
        file_list: vec![],
        diff_content: String::new(),
        event_timestamp: "2026-01-01T00:00:00Z".to_string(),
    }
}

#[test]
fn validate_artifact_reports_each_problem() {
    assert_eq!(validate_artifact(&sample()), Ok(()));
    let mut a = sample();
    a.base_repo = String::new();
    assert_eq!(validate_artifact(&a), Err(ArtifactError::MissingBaseRepo));
    let mut a = sample();
    a.head_repo = String::new();
    assert_eq!(validate_artifact(&a), Err(ArtifactError::MissingHeadRepo));
    let mut a = sample();
    a.event_timestamp = String::new();
    assert_eq!(validate_artifact(&a), Err(ArtifactError::MissingEventTimestamp));
    let mut a = sample();
    a.pr_author_id = 0;
    assert_eq!(validate_artifact(&a), Err(ArtifactError::InvalidPrAuthorId));
    assert_eq!(ArtifactError::InvalidPrAuthorId.message(), "Invalid pr_author_id: must be > 0");
    let mut a = sample();
    a.schema_version = 0;
    a.pr_author = String::new();
    assert_eq!(validate_artifact(&a), Err(ArtifactError::InvalidSchemaVersion));
}
