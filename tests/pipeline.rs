use meritocrab::config_cache::RepoConfigLoader;
use meritocrab::evaluation::EvaluationStatus;
use meritocrab::ledger::{CommitOutcome, CreditEventType, Decision, Ledger, LedgerError};
use meritocrab::pipeline::{
    process_comment_created, process_pr_opened, process_pr_review_submitted, route_event,
    shadow_close_delay, shadow_close_message, CommentAction, DeliveryShape, PrOpenedAction,
    ReviewOutcome, Route,
};
use meritocrab::policy::{EventType, QualityLevel, RepoConfig};
use meritocrab::roles::CollaboratorRole;

const UID: i64 = 12345;

fn ledger() -> Ledger {
    Ledger::new(RepoConfig::default())
}

fn with_credit(l: &mut Ledger, credit: i32) -> i64 {
    let c = l.lookup_or_create(UID, "owner", "repo", 1);
    l.update_credit_score(c.id, credit, 2).unwrap();
    c.id
}

#[test]
fn scenario_high_confidence_pr_applies_credit() {
    let mut l = ledger();
    let action = process_pr_opened(
        &mut l,
        Some(CollaboratorRole::Read),
        UID,
        "owner",
        "repo",
        "Add feature".to_string(),
        "Body".to_string(),
        10,
    );
    let req = match action {
        PrOpenedAction::Evaluate(req) => req,
        other => panic!("expected evaluation, got {:?}", other),
    };
    assert_eq!(req.event_type, EventType::PrOpened);
    assert_eq!(req.context.title, Some("Add feature".to_string()));
    let out = l
        .commit_evaluation(UID, "owner", "repo", req.event_type, QualityLevel::High, 9500, "{\"q\":\"high\"}".to_string(), 20)
        .unwrap();
    match out {
        CommitOutcome::Applied { credit_before, credit_after, auto_blacklisted } => {
            assert_eq!((credit_before, credit_after, auto_blacklisted), (100, 115, false));
        }
        other => panic!("unexpected {:?}", other),
    }
    assert_eq!(l.lookup(UID, "owner", "repo").unwrap().credit_score, 115);
    assert_eq!(l.events().len(), 1);
    let e = &l.events()[0];
    assert_eq!(e.event_type, CreditEventType::PrOpened);
    assert_eq!((e.delta, e.credit_before, e.credit_after), (15, 100, 115));
    assert_eq!(e.llm_evaluation, Some("{\"q\":\"high\"}".to_string()));
    assert_eq!(e.maintainer_override, None);
    assert!(l.evaluations().is_empty());
}

#[test]
fn scenario_admission_denied() {
    let mut l = ledger();
    with_credit(&mut l, 25);
    let action = process_pr_opened(&mut l, None, UID, "owner", "repo", "t".to_string(), "b".to_string(), 3);
    match action {
        PrOpenedAction::Deny { message } => {
            assert!(message.contains("50"));
            assert!(message.contains("25"));
            assert_eq!(
                message,
                "Your contribution score (25) is below the required threshold (50). Please build your score through quality comments and reviews."
            );
        }
        other => panic!("expected denial, got {:?}", other),
    }
    assert!(l.events().is_empty());
    assert_eq!(l.lookup(UID, "owner", "repo").unwrap().credit_score, 25);
}

#[test]
fn scenario_blacklisted_pr_is_shadow_closed() {
    let mut l = ledger();
    let id = with_credit(&mut l, 0);
    l.set_blacklisted(id, true, 3).unwrap();
    let action = process_pr_opened(&mut l, Some(CollaboratorRole::Read), UID, "owner", "repo", "t".to_string(), "b".to_string(), 4);
    match action {
        PrOpenedAction::ShadowClose { delay_secs } => assert!((30..=120).contains(&delay_secs)),
        other => panic!("expected shadow close, got {:?}", other),
    }
    assert!(l.events().is_empty());
    let msg = shadow_close_message();
    assert_eq!(
        msg,
        "Thank you for your contribution. Unfortunately, we are unable to accept this pull request at this time."
    );
    let lower = msg.to_lowercase();
    for word in ["blacklist", "credit", "spam", "score"] {
        assert!(!lower.contains(word));
    }
}

#[test]
fn flagged_contributor_above_threshold_is_shadow_closed() {
    let mut l = ledger();
    let id = with_credit(&mut l, 80);
    l.set_blacklisted(id, true, 3).unwrap();
    let action = process_pr_opened(&mut l, None, UID, "owner", "repo", "t".to_string(), "b".to_string(), 4);
    assert!(matches!(action, PrOpenedAction::ShadowClose { .. }));
}

#[test]
fn maintainers_bypass_credit() {
    let mut l = ledger();
    let action = process_pr_opened(&mut l, Some(CollaboratorRole::Maintain), UID, "owner", "repo", "t".to_string(), "b".to_string(), 1);
    assert!(matches!(action, PrOpenedAction::Bypass));
    assert!(l.contributors().is_empty());
}

#[test]
fn scenario_auto_blacklist_trip() {
    let mut l = ledger();
    let id = with_credit(&mut l, 25);
    let out = l
        .commit_evaluation(UID, "owner", "repo", EventType::PrOpened, QualityLevel::Spam, 9500, "{}".to_string(), 9)
        .unwrap();
    assert!(matches!(
        out,
        CommitOutcome::Applied { credit_before: 25, credit_after: 0, auto_blacklisted: true }
    ));
    let c = l.get_by_id(id).unwrap();
    assert_eq!(c.credit_score, 0);
    assert!(c.is_blacklisted);
    let events = l.events();
    assert_eq!(events.len(), 2);
    assert_eq!(events[0].event_type, CreditEventType::PrOpened);
    assert_eq!((events[0].delta, events[0].credit_before, events[0].credit_after), (-25, 25, 0));
    assert_eq!(events[1].event_type, CreditEventType::AutoBlacklist);
    assert_eq!((events[1].delta, events[1].credit_before, events[1].credit_after), (0, 0, 0));
    assert_eq!(
        events[1].maintainer_override,
        Some("Auto-blacklisted due to credit dropping to 0".to_string())
    );
    assert_eq!(events[1].event_type.as_string(), "auto_blacklist");
}

#[test]
fn no_trip_for_contributor_already_at_threshold() {
    let mut l = ledger();
    with_credit(&mut l, 0);
    let out = l
        .commit_evaluation(UID, "owner", "repo", EventType::Comment, QualityLevel::Spam, 9000, "{}".to_string(), 9)
        .unwrap();
    assert!(matches!(
        out,
        CommitOutcome::Applied { credit_before: 0, credit_after: 0, auto_blacklisted: false }
    ));
    assert_eq!(l.events().len(), 1);
}

#[test]
fn scenario_low_confidence_creates_pending_evaluation() {
    let mut l = ledger();
    l.lookup_or_create(UID, "owner", "repo", 1);
    let out = l
        .commit_evaluation(UID, "owner", "repo", EventType::PrOpened, QualityLevel::Acceptable, 7500, "{}".to_string(), 1700000000)
        .unwrap();
    match out {
        CommitOutcome::Pending { evaluation_id } => assert_eq!(evaluation_id, "eval-12345-repo-1700000000"),
        other => panic!("unexpected {:?}", other),
    }
    assert_eq!(l.lookup(UID, "owner", "repo").unwrap().credit_score, 100);
    assert!(l.events().is_empty());
    let pe = &l.evaluations()[0];
    assert_eq!(pe.status, EvaluationStatus::Pending);
    assert_eq!(pe.proposed_delta, 5);
    assert_eq!(pe.confidence, 7500);
    assert_eq!(pe.llm_classification, "Acceptable");
    let dup = l.commit_evaluation(UID, "owner", "repo", EventType::PrOpened, QualityLevel::Acceptable, 7500, "{}".to_string(), 1700000000);
    assert!(matches!(dup, Err(LedgerError::DuplicateEvaluation)));
}

#[test]
fn commit_for_unknown_contributor_fails() {
    let mut l = ledger();
    let r = l.commit_evaluation(UID, "owner", "repo", EventType::PrOpened, QualityLevel::High, 9500, "{}".to_string(), 1);
    assert!(matches!(r, Err(LedgerError::ContributorNotFound)));
}

#[test]
fn pending_evaluation_transitions() {
    let mut l = ledger();
    let id = l.lookup_or_create(UID, "owner", "repo", 1).id;
    l.commit_evaluation(UID, "owner", "repo", EventType::Comment, QualityLevel::High, 5000, "{}".to_string(), 100).unwrap();
    l.commit_evaluation(UID, "owner", "repo", EventType::PrOpened, QualityLevel::Spam, 5000, "{}".to_string(), 101).unwrap();
    let first = "eval-12345-repo-100";
    let second = "eval-12345-repo-101";

    let wrong_repo = l.decide_evaluation("owner", "other", first, Decision::Approve { note: None }, 200);
    assert!(matches!(wrong_repo, Err(LedgerError::EvaluationNotFound)));

    let approved = l.decide_evaluation("owner", "repo", first, Decision::Approve { note: None }, 200).unwrap();
    assert_eq!(approved, (100, 103));
    assert_eq!(l.evaluation_status(first), Some(EvaluationStatus::Approved));
    assert_eq!(l.evaluations()[0].final_delta, Some(3));
    let again = l.decide_evaluation("owner", "repo", first, Decision::Override { delta: 1, reason: "r".to_string() }, 201);
    assert!(matches!(again, Err(LedgerError::NotPending)));

    let overridden = l
        .decide_evaluation("owner", "repo", second, Decision::Override { delta: -200, reason: "spam ring".to_string() }, 202)
        .unwrap();
    assert_eq!(overridden, (103, 0));
    assert_eq!(l.evaluation_status(second), Some(EvaluationStatus::Overridden));
    assert_eq!(l.get_by_id(id).unwrap().credit_score, 0);
    let events = l.events();
    assert_eq!(events[0].event_type, CreditEventType::EvaluationApproved);
    assert_eq!(events[0].maintainer_override, Some("false".to_string()));
    assert_eq!(
        events[0].llm_evaluation,
        Some("{\"evaluation_id\": \"eval-12345-repo-100\", \"classification\": \"High\"}".to_string())
    );
    assert_eq!(events[1].event_type, CreditEventType::EvaluationOverridden);
    assert_eq!(events[1].maintainer_override, Some("spam ring".to_string()));
    assert!(!l.has_evaluation("eval-missing"));
    assert_eq!(l.evaluation_status("eval-missing"), None);
}

#[test]
fn review_grants_fixed_credit() {
    let mut l = ledger();
    let out = process_pr_review_submitted(&mut l, Some(CollaboratorRole::Read), UID, "owner", "repo", 5).unwrap();
    assert_eq!(out, ReviewOutcome::Credited { credit_before: 100, credit_after: 105 });
    let e = &l.events()[0];
    assert_eq!(e.event_type, CreditEventType::ReviewSubmitted);
    assert_eq!(e.event_type.as_string(), "review_submitted");
    assert_eq!(e.llm_evaluation, None);

    let privileged = process_pr_review_submitted(&mut l, Some(CollaboratorRole::Write), UID, "owner", "repo", 6).unwrap();
    assert_eq!(privileged, ReviewOutcome::Privileged);

    let mut l2 = ledger();
    with_credit(&mut l2, 0);
    let skipped = process_pr_review_submitted(&mut l2, None, UID, "owner", "repo", 7).unwrap();
    assert_eq!(skipped, ReviewOutcome::Blacklisted);
    assert!(l2.events().is_empty());
}

#[test]
fn comment_requests_classification_with_thread_context() {
    let mut l = ledger();
    match process_comment_created(&mut l, None, UID, "owner", "repo", "nice".to_string(), "Issue title".to_string(), 1) {
        CommentAction::Evaluate(req) => {
            assert_eq!(req.event_type, EventType::Comment);
            assert_eq!(req.content, "nice");
            assert_eq!(req.context.thread_context, Some("Issue title".to_string()));
        }
        other => panic!("unexpected {:?}", other),
    }
    assert!(matches!(
        process_comment_created(&mut l, Some(CollaboratorRole::Admin), UID, "owner", "repo", "x".to_string(), "t".to_string(), 2),
        CommentAction::Privileged
    ));
    let mut l2 = ledger();
    with_credit(&mut l2, 0);
    assert!(matches!(
        process_comment_created(&mut l2, None, UID, "owner", "repo", "x".to_string(), "t".to_string(), 2),
        CommentAction::Blacklisted
    ));
}

fn shape(action: Option<&str>, pr: bool, review: bool, issue: bool, comment: bool, issue_pr: bool) -> DeliveryShape {
    DeliveryShape {
        action: action.map(|a| a.to_string()),
        has_pull_request: pr,
        has_review: review,
        has_issue: issue,
        has_comment: comment,
        issue_is_pull_request: issue_pr,
    }
}

#[test]
fn routing_of_deliveries() {
    assert_eq!(route_event(&shape(Some("opened"), true, false, false, false, false)), Route::PrOpened);
    assert_eq!(route_event(&shape(Some("submitted"), true, true, false, false, false)), Route::ReviewSubmitted);
    assert_eq!(route_event(&shape(Some("opened"), true, true, false, false, false)), Route::NotProcessed);
    assert_eq!(route_event(&shape(Some("created"), false, false, true, true, true)), Route::CommentCreated);
    assert_eq!(route_event(&shape(Some("created"), false, false, true, true, false)), Route::NotProcessed);
    assert_eq!(route_event(&shape(Some("closed"), true, false, false, false, false)), Route::NotProcessed);
    assert_eq!(route_event(&shape(None, true, false, false, false, false)), Route::NotProcessed);
}

#[test]
fn shadow_close_delays_cover_the_window() {
    let samples: Vec<u64> = (0..2000).map(|_| shadow_close_delay()).collect();
    assert!(samples.iter().all(|d| (30..=120).contains(d)));
    let min = *samples.iter().min().unwrap();
    let max = *samples.iter().max().unwrap();
    assert!(max - min > 1);
}

#[test]
fn every_logged_event_obeys_the_credit_rule() {
    let mut l = ledger();
    let id = l.lookup_or_create(UID, "owner", "repo", 1).id;
    l.apply_delta(id, CreditEventType::ManualAdjustment, -500, None, Some("reset".to_string()), 2).unwrap();
    l.apply_delta(id, CreditEventType::ManualAdjustment, 40, None, None, 3).unwrap();
    l.commit_evaluation(UID, "owner", "repo", EventType::PrOpened, QualityLevel::Spam, 9900, "{}".to_string(), 4).unwrap();
    for e in l.events() {
        assert_eq!(e.credit_after, std::cmp::max(0, e.credit_before + e.delta));
    }
    for c in l.contributors() {
        assert!(c.credit_score >= 0);
    }
    assert_eq!(l.get_by_id(id).unwrap().credit_score, 15);
    let to_max = l.apply_delta(id, CreditEventType::ManualAdjustment, i32::MAX - 15, None, None, 5);
    assert_eq!(to_max.unwrap(), (15, i32::MAX));
    let overflow = l.apply_delta(id, CreditEventType::ManualAdjustment, 1, None, None, 6);
    assert!(matches!(overflow, Err(LedgerError::CreditOverflow)));
    assert!(matches!(
        l.apply_delta(999, CreditEventType::ManualAdjustment, 1, None, None, 7),
        Err(LedgerError::ContributorNotFound)
    ));
}

#[test]
fn one_contributor_per_key() {
    let mut l = ledger();
    let a = l.lookup_or_create(UID, "owner", "repo", 1);
    let b = l.lookup_or_create(UID, "owner", "repo", 2);
    let c = l.lookup_or_create(UID, "owner", "other", 3);
    assert_eq!(a.id, b.id);
    assert_ne!(a.id, c.id);
    assert_eq!(l.contributors().len(), 2);
    assert_eq!(l.count_by_repo("owner", "repo"), 1);
    assert_eq!(l.count_by_repo("owner", "none"), 0);
}

#[test]
fn write_then_read_contributor() {
    let mut l = ledger();
    let created = l.lookup_or_create(UID, "owner", "repo", 1);
    let read = l.lookup(UID, "owner", "repo").unwrap();
    assert_eq!((read.id, read.github_user_id, read.credit_score, read.is_blacklisted), (created.id, UID, 100, false));
    assert_eq!((read.repo_owner.as_str(), read.repo_name.as_str()), ("owner", "repo"));
    l.update_credit_score(created.id, 42, 9).unwrap();
    l.update_role(created.id, Some("read".to_string()), 10).unwrap();
    let read = l.get_by_id(created.id).unwrap();
    assert_eq!(read.credit_score, 42);
    assert_eq!(read.role, Some("read".to_string()));
    assert_eq!(read.created_at, 1);
    assert_eq!(read.updated_at, 10);
    assert!(matches!(l.update_credit_score(777, 1, 11), Err(LedgerError::ContributorNotFound)));
}

#[test]
fn scenario_repo_config_cache() {
    let mut loader = RepoConfigLoader::new(300);
    assert_eq!(loader.cached_config("o", "r", 0), None);
    let first = loader.record_fetch("o", "r", None, 0);
    assert_eq!(first, RepoConfig::default());
    assert_eq!(loader.cache_size(), 0);
    assert_eq!(loader.cached_config("o", "r", 10), None);
    loader.record_fetch("o", "r", None, 10);
    assert_eq!(loader.cache_size(), 0);

    let mut custom = RepoConfig::default();
    custom.pr_threshold = 70;
    assert_eq!(loader.record_fetch("o", "r", Some(custom), 20), custom);
    assert_eq!(loader.cache_size(), 1);
    assert_eq!(loader.cached_config("o", "r", 100), Some(custom));
    assert_eq!(loader.cached_config("o", "r2", 100), None);
    assert_eq!(loader.cached_config("o", "r", 320), None);

    loader.record_fetch("o", "r", Some(RepoConfig::default()), 320);
    assert_eq!(loader.cache_size(), 1);
    assert_eq!(loader.cached_config("o", "r", 321), Some(RepoConfig::default()));
    loader.record_fetch("o", "other", Some(custom), 321);
    assert_eq!(loader.cache_size(), 2);
    loader.invalidate_cache("o", "r");
    assert_eq!(loader.cache_size(), 1);
    assert_eq!(loader.cached_config("o", "r", 322), None);
    assert_eq!(loader.cached_config("o", "other", 322), Some(custom));
    loader.clear_cache();
    assert_eq!(loader.cache_size(), 0);
}

#[test]
fn blacklist_toggle_is_logged_without_credit_change() {
    let mut l = ledger();
    let id = with_credit(&mut l, 30);
    assert_eq!(l.toggle_blacklist(id, Some("abuse".to_string()), 5), Ok(true));
    assert!(l.get_by_id(id).unwrap().is_blacklisted);
    assert_eq!(l.toggle_blacklist(id, None, 6), Ok(false));
    assert!(!l.get_by_id(id).unwrap().is_blacklisted);
    let events = l.events_of(id);
    assert_eq!(events.len(), 2);
    assert_eq!(events[0].event_type, CreditEventType::BlacklistAdded);
    assert_eq!((events[0].delta, events[0].credit_before, events[0].credit_after), (0, 30, 30));
    assert_eq!(events[0].maintainer_override, Some("abuse".to_string()));
    assert_eq!(events[1].event_type, CreditEventType::BlacklistRemoved);
    assert_eq!(l.toggle_blacklist(4242, None, 7), Err(LedgerError::ContributorNotFound));
}

#[test]
fn events_of_filters_by_contributor() {
    let mut l = ledger();
    let a = l.lookup_or_create(1, "o", "r", 1).id;
    let b = l.lookup_or_create(2, "o", "r", 1).id;
    l.apply_delta(a, CreditEventType::ManualAdjustment, 1, None, None, 2).unwrap();
    l.apply_delta(b, CreditEventType::ManualAdjustment, 2, None, None, 3).unwrap();
    l.apply_delta(a, CreditEventType::ManualAdjustment, 3, None, None, 4).unwrap();
    let deltas: Vec<i32> = l.events_of(a).iter().map(|e| e.delta).collect();
    assert_eq!(deltas, vec![1, 3]);
    assert_eq!(l.events_of(b).len(), 1);
    assert!(l.events_of(99).is_empty());
}

#[test]
fn listing_ranks_by_credit_then_recency() {
    let mut l = ledger();
    let a = l.lookup_or_create(1, "o", "r", 1).id;
    let b = l.lookup_or_create(2, "o", "r", 1).id;
    let c = l.lookup_or_create(3, "o", "r", 1).id;
    l.lookup_or_create(4, "o", "elsewhere", 1);
    l.update_credit_score(a, 50, 10).unwrap();
    l.update_credit_score(b, 80, 11).unwrap();
    l.update_credit_score(c, 50, 12).unwrap();
    let ids: Vec<i64> = l.ranked_by_repo("o", "r").iter().map(|x| x.id).collect();
    assert_eq!(ids, vec![b, c, a]);
    let page: Vec<i64> = l.list_by_repo("o", "r", 2, 1).iter().map(|x| x.id).collect();
    assert_eq!(page, vec![c, a]);
    assert!(l.list_by_repo("o", "r", 5, 3).is_empty());
    assert_eq!(l.list_by_repo("o", "r", 0, 0).len(), 0);
    assert_eq!(l.list_by_repo("o", "elsewhere", 10, 0).len(), 1);
}

#[test]
fn pr_opening_leaves_existing_contributor_unchanged() {
    let mut l = ledger();
    let id = with_credit(&mut l, 25);
    let before = l.get_by_id(id).unwrap();
    let action = process_pr_opened(&mut l, None, UID, "owner", "repo", "t".to_string(), "b".to_string(), 50);
    assert!(matches!(action, PrOpenedAction::Deny { .. }));
    let after = l.get_by_id(id).unwrap();
    assert_eq!((after.credit_score, after.is_blacklisted, after.updated_at), (before.credit_score, before.is_blacklisted, before.updated_at));
    assert_eq!(l.contributors().len(), 1);
}

#[test]
fn stamps_never_go_back() {
    let mut l = ledger();
    let id = l.lookup_or_create(UID, "owner", "repo", 100).id;
    l.update_credit_score(id, 5, 50).unwrap();
    assert_eq!(l.get_by_id(id).unwrap().updated_at, 100);
    l.set_blacklisted(id, true, 150).unwrap();
    assert_eq!(l.get_by_id(id).unwrap().updated_at, 150);
}
