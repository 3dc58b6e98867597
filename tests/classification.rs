use meritocrab::llm::{
    classify_lowered, default_openai_model, evaluation_from_reply, json_span, parse_classification,
    quality_of_lower,
    parse_quality_level, Evaluation, LlmConfig, LlmError, MockEvaluator,
};
use meritocrab::policy::QualityLevel;
use meritocrab::prompt::{build_user_prompt, system_prompt, ContentType, EvalContext};
use meritocrab::roles::{resolve_role, role_from_lower, role_from_permission, trusted_role, CollaboratorRole, RoleLookup};

#[test]
fn test_collaborator_role_has_write_access() {
    assert!(CollaboratorRole::Admin.has_write_access());
    assert!(CollaboratorRole::Maintain.has_write_access());
    assert!(CollaboratorRole::Write.has_write_access());
    assert!(!CollaboratorRole::Triage.has_write_access());
    assert!(!CollaboratorRole::Read.has_write_access());
    assert!(!CollaboratorRole::NoRole.has_write_access());
}

#[test]
fn test_collaborator_role_is_maintainer() {
    assert!(CollaboratorRole::Admin.is_maintainer());
    assert!(CollaboratorRole::Maintain.is_maintainer());
    assert!(!CollaboratorRole::Write.is_maintainer());
    assert!(!CollaboratorRole::Triage.is_maintainer());
    assert!(!CollaboratorRole::Read.is_maintainer());
    assert!(!CollaboratorRole::NoRole.is_maintainer());
}

#[test]
fn api_test_collaborator_role_parsing() {
    let admin_str = "admin";
    let role = role_from_permission(admin_str);
    assert_eq!(role, CollaboratorRole::Admin);
}

#[test]
fn role_from_permission_names() {
    assert_eq!(role_from_permission("Maintain"), CollaboratorRole::Maintain);
    assert_eq!(role_from_permission("push"), CollaboratorRole::Write);
    assert_eq!(role_from_permission("WRITE"), CollaboratorRole::Write);
    assert_eq!(role_from_permission("triage"), CollaboratorRole::Triage);
    assert_eq!(role_from_permission("pull"), CollaboratorRole::Read);
    assert_eq!(role_from_permission("none"), CollaboratorRole::NoRole);
    assert_eq!(role_from_permission(""), CollaboratorRole::NoRole);
}

#[test]
fn test_evaluation_new() {
    let eval = Evaluation::new(
        QualityLevel::High,
        9500,
        "Well-structured PR with clear intent".to_string(),
    );
    assert_eq!(eval.classification, QualityLevel::High);
    assert_eq!(eval.confidence, 9500);
    assert_eq!(eval.reasoning, "Well-structured PR with clear intent");
}

#[test]
fn test_eval_context_pr() {
    let context = EvalContext {
        content_type: ContentType::PullRequest,
        title: Some("Fix bug in parser".to_string()),
        body: "This fixes the parser bug".to_string(),
        diff_summary: Some("+10 -5".to_string()),
        thread_context: None,
    };
    assert_eq!(context.content_type, ContentType::PullRequest);
    assert!(context.title.is_some());
    assert!(context.diff_summary.is_some());
}

#[test]
fn test_eval_context_comment() {
    let context = EvalContext {
        content_type: ContentType::Comment,
        title: None,
        body: "This looks good to me".to_string(),
        diff_summary: None,
        thread_context: Some("Previous discussion about implementation".to_string()),
    };
    assert_eq!(context.content_type, ContentType::Comment);
    assert!(context.thread_context.is_some());
}

#[test]
fn test_llm_config_default() {
    let config = LlmConfig::default();
    match config {
        LlmConfig::Mock { .. } => {}
        _ => panic!("Default should be Mock"),
    }
}

#[test]
fn default_models() {
    assert_eq!(default_openai_model(), "gpt-4o");
}

#[test]
fn test_parse_quality_level() {
    assert_eq!(parse_quality_level("spam").unwrap(), QualityLevel::Spam);
    assert_eq!(parse_quality_level("low").unwrap(), QualityLevel::Low);
    assert_eq!(
        parse_quality_level("acceptable").unwrap(),
        QualityLevel::Acceptable
    );
    assert_eq!(parse_quality_level("high").unwrap(), QualityLevel::High);
}

#[test]
fn test_parse_quality_level_case_insensitive() {
    assert_eq!(parse_quality_level("SPAM").unwrap(), QualityLevel::Spam);
    assert_eq!(parse_quality_level("High").unwrap(), QualityLevel::High);
}

#[test]
fn test_parse_quality_level_invalid() {
    assert!(parse_quality_level("invalid").is_err());
}

#[test]
fn openai_test_parse_classification() {
    assert_eq!(parse_classification("spam").unwrap(), QualityLevel::Spam);
    assert_eq!(parse_classification("low").unwrap(), QualityLevel::Low);
    assert_eq!(parse_classification("acceptable").unwrap(), QualityLevel::Acceptable);
    assert_eq!(parse_classification("high").unwrap(), QualityLevel::High);
}

#[test]
fn openai_test_parse_classification_case_insensitive() {
    assert_eq!(parse_classification("SPAM").unwrap(), QualityLevel::Spam);
    assert_eq!(parse_classification("High_Quality").unwrap(), QualityLevel::High);
}

#[test]
fn openai_test_parse_classification_invalid() {
    assert!(parse_classification("invalid").is_err());
}

#[test]
fn claude_test_parse_classification() {
    assert_eq!(parse_classification("spam").unwrap(), QualityLevel::Spam);
    assert_eq!(parse_classification("low").unwrap(), QualityLevel::Low);
    assert_eq!(parse_classification("acceptable").unwrap(), QualityLevel::Acceptable);
    assert_eq!(parse_classification("high").unwrap(), QualityLevel::High);
}

#[test]
fn claude_test_parse_classification_case_insensitive() {
    assert_eq!(parse_classification("SPAM").unwrap(), QualityLevel::Spam);
    assert_eq!(parse_classification("High_Quality").unwrap(), QualityLevel::High);
}

#[test]
fn claude_test_parse_classification_invalid() {
    assert!(parse_classification("invalid").is_err());
}

#[test]
fn parse_classification_error_keeps_text() {
    match parse_classification("Mediocre") {
        Err(LlmError::InvalidClassification(t)) => assert_eq!(t, "Mediocre"),
        other => panic!("unexpected {:?}", other),
    }
    assert_eq!(parse_classification("LOW_QUALITY").unwrap(), QualityLevel::Low);
}

#[test]
fn json_span_drops_surrounding_text() {
    assert_eq!(json_span("Sure! {\"a\": 1} done"), Some("{\"a\": 1}"));
    assert_eq!(json_span("{\"a\": {\"b\": 2}}"), Some("{\"a\": {\"b\": 2}}"));
    assert_eq!(json_span("no braces"), Some("no braces"));
    assert_eq!(json_span("} then {"), None);
    assert_eq!(json_span(""), Some(""));
}

#[test]
fn test_mock_evaluator_spam() {
    let evaluator = MockEvaluator::new();
    let eval = evaluator.evaluate("Click here for free money!");
    assert_eq!(eval.classification, QualityLevel::Spam);
    assert!(eval.confidence >= 9000);
    assert!(eval.reasoning.contains("spam"));
}

#[test]
fn test_mock_evaluator_low_quality() {
    let evaluator = MockEvaluator::new();
    let eval = evaluator.evaluate("wip - not ready");
    assert_eq!(eval.classification, QualityLevel::Low);
    assert!(eval.confidence >= 8000);
}

#[test]
fn test_mock_evaluator_acceptable() {
    let evaluator = MockEvaluator::new();
    let eval = evaluator.evaluate("This looks reasonable to me");
    assert_eq!(eval.classification, QualityLevel::Acceptable);
    assert!(eval.confidence >= 7000);
}

#[test]
fn test_mock_evaluator_high_quality() {
    let evaluator = MockEvaluator::new();
    let eval = evaluator.evaluate(
        "This is a comprehensive implementation with tests and documentation",
    );
    assert_eq!(eval.classification, QualityLevel::High);
    assert!(eval.confidence >= 8500);
}

#[test]
fn test_mock_evaluator_with_default() {
    let evaluator = MockEvaluator::with_default(QualityLevel::High);
    let eval = evaluator.evaluate("spam content here");
    assert_eq!(eval.classification, QualityLevel::High);
    assert_eq!(eval.confidence, 9500);
    assert_eq!(eval.reasoning, "Mock evaluation: High");
}

#[test]
fn test_mock_evaluator_short_content() {
    let evaluator = MockEvaluator::new();
    let eval = evaluator.evaluate("ok");
    assert_eq!(eval.classification, QualityLevel::Low);
}

#[test]
fn mock_evaluator_lowercases_first() {
    let evaluator = MockEvaluator::new();
    assert_eq!(evaluator.evaluate("VIAGRA deals for everyone").classification, QualityLevel::Spam);
    assert_eq!(evaluator.provider_name(), "mock");
}

#[test]
fn test_system_prompt() {
    let prompt = system_prompt();
    assert!(prompt.contains("spam"));
    assert!(prompt.contains("low"));
    assert!(prompt.contains("acceptable"));
    assert!(prompt.contains("high"));
    assert!(prompt.contains("JSON"));
}

#[test]
fn test_build_pr_prompt() {
    let context = EvalContext {
        content_type: ContentType::PullRequest,
        title: Some("Fix parser bug".to_string()),
        body: "This fixes issue #123".to_string(),
        diff_summary: Some("+10 -5 lines".to_string()),
        thread_context: None,
    };

    let prompt = build_user_prompt("PR content here", &context);
    assert!(prompt.contains("pull request"));
    assert!(prompt.contains("Fix parser bug"));
    assert!(prompt.contains("This fixes issue #123"));
    assert!(prompt.contains("+10 -5 lines"));
    assert!(prompt.contains("PR content here"));
}

#[test]
fn test_build_comment_prompt() {
    let context = EvalContext {
        content_type: ContentType::Comment,
        title: None,
        body: "Great work!".to_string(),
        diff_summary: None,
        thread_context: Some("Discussion about implementation".to_string()),
    };

    let prompt = build_user_prompt("Great work!", &context);
    assert!(prompt.contains("comment"));
    assert!(prompt.contains("Discussion about implementation"));
    assert!(prompt.contains("Great work!"));
}

#[test]
fn test_build_review_prompt() {
    let context = EvalContext {
        content_type: ContentType::Review,
        title: None,
        body: "Looks good to me".to_string(),
        diff_summary: None,
        thread_context: Some("PR about feature X".to_string()),
    };

    let prompt = build_user_prompt("Looks good to me", &context);
    assert!(prompt.contains("review"));
    assert!(prompt.contains("PR about feature X"));
    assert!(prompt.contains("Looks good to me"));
}

#[test]
fn pr_prompt_exact_text() {
    let context = EvalContext {
        content_type: ContentType::PullRequest,
        title: None,
        body: "B".to_string(),
        diff_summary: None,
        thread_context: None,
    };
    assert_eq!(
        build_user_prompt("C", &context),
        "Evaluate this pull request:\n\nDescription:\nB\n\nFull Content:\nC\n\nProvide your evaluation as JSON."
    );
}

#[test]
fn role_lookup_outcomes() {
    assert_eq!(trusted_role(&RoleLookup::Permission("admin".to_string())), Some(CollaboratorRole::Admin));
    assert_eq!(trusted_role(&RoleLookup::ApiError("Not Found".to_string())), Some(CollaboratorRole::NoRole));
    assert_eq!(trusted_role(&RoleLookup::ApiError("HTTP 404".to_string())), Some(CollaboratorRole::NoRole));
    assert_eq!(trusted_role(&RoleLookup::ApiError("HTTP 500".to_string())), None);
    assert_eq!(trusted_role(&RoleLookup::Transport("timeout".to_string())), None);
    assert!(resolve_role(&RoleLookup::Transport("timeout".to_string())).is_err());
}

#[test]
fn quality_suffix_accepted_on_every_level() {
    assert_eq!(parse_classification("spam_quality").unwrap(), QualityLevel::Spam);
    assert_eq!(parse_classification("Low_Quality").unwrap(), QualityLevel::Low);
    assert_eq!(parse_classification("ACCEPTABLE_QUALITY").unwrap(), QualityLevel::Acceptable);
    assert_eq!(parse_classification("high_quality").unwrap(), QualityLevel::High);
    assert_eq!(parse_quality_level("acceptable_quality").unwrap(), QualityLevel::Acceptable);
    assert_eq!(quality_of_lower("spam_quality"), Some(QualityLevel::Spam));
    assert_eq!(quality_of_lower("SPAM"), None);
    assert!(parse_classification("quality").is_err());
}

#[test]
fn provider_reply_confidence_is_clamped() {
    let e = evaluation_from_reply("HIGH", 12000, "r".to_string()).unwrap();
    assert_eq!((e.classification, e.confidence), (QualityLevel::High, 10000));
    let e = evaluation_from_reply("low", -3, "r".to_string()).unwrap();
    assert_eq!((e.classification, e.confidence), (QualityLevel::Low, 0));
    let e = evaluation_from_reply("acceptable", 7500, "why".to_string()).unwrap();
    assert_eq!((e.confidence, e.reasoning.as_str()), (7500, "why"));
    match evaluation_from_reply("great", 9000, "r".to_string()) {
        Err(LlmError::InvalidClassification(t)) => assert_eq!(t, "great"),
        other => panic!("unexpected {:?}", other),
    }
}

#[test]
fn lowered_text_functions() {
    assert_eq!(role_from_lower("maintain"), CollaboratorRole::Maintain);
    assert_eq!(role_from_lower("Maintain"), CollaboratorRole::NoRole);
    assert_eq!(classify_lowered("ok").0, QualityLevel::Low);
    assert_eq!(classify_lowered("buy now").0, QualityLevel::Spam);
    assert_eq!(classify_lowered("this implements the parser").0, QualityLevel::High);
    assert_eq!(classify_lowered("a plain enough comment").1, 8000);
}
