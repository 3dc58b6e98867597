//! The synchronous prefix of the event pipeline and the decisions that
//! follow it. Each handler takes the outcome of the role lookup (absent when
//! the lookup failed, which counts as untrusted), updates the store, and
//! returns the outside work to do: nothing, a delayed shadow close, an
//! immediate denial, or a classification request.

use vstd::prelude::*;
use vstd::string::*;
use rand::Rng;
use crate::ledger::{Contributor, CreditEventType, Ledger, LedgerError, LedgerView};
use crate::policy::{EventType, RepoConfig, check_blacklist, check_pr_gate, GateResult, clamped};
use crate::prompt::{ContentType, EvalContext};
use crate::roles::CollaboratorRole;
use crate::text::{decimal_of, decimal_string};

verus! {

/// Shortest delay before a shadow close, in seconds.
pub const SHADOW_DELAY_MIN: u64 = 30;

/// Longest delay before a shadow close, in seconds.
pub const SHADOW_DELAY_MAX: u64 = 120;

/// Credit granted for a review by an unprivileged contributor.
pub const REVIEW_DELTA: i32 = 5;

/// Relies on `rand::Rng::random_range` over an inclusive range, with the
/// thread-local generator: a value from `lo..=hi`, which is not empty.
#[verifier::external_body]
fn random_in(lo: u64, hi: u64) -> (r: u64)
    requires
        lo <= hi,
    ensures
        lo <= r <= hi,
{
    rand::rng().random_range(lo..=hi)
}

/// Draw the delay of one shadow close, afresh on every call.
pub fn shadow_close_delay() -> (r: u64)
    ensures
        SHADOW_DELAY_MIN <= r <= SHADOW_DELAY_MAX,
{
    random_in(SHADOW_DELAY_MIN, SHADOW_DELAY_MAX)
}

/// The comment posted before a shadow close. It says nothing of credit,
/// blacklists, spam or scores.
pub open spec fn shadow_close_text() -> Seq<char> {
    "Thank you for your contribution. Unfortunately, we are unable to accept this pull request at this time."@
}

pub fn shadow_close_message() -> (r: String)
    ensures
        r@ == shadow_close_text(),
{
    String::from_str(
        "Thank you for your contribution. Unfortunately, we are unable to accept this pull request at this time.",
    )
}

/// The public comment on a denied pull request.
pub open spec fn denial_text(credit: i32, threshold: i32) -> Seq<char> {
    "Your contribution score ("@ + decimal_of(credit as int) + ") is below the required threshold ("@
        + decimal_of(threshold as int)
        + "). Please build your score through quality comments and reviews."@
}

pub fn denial_message(credit: i32, threshold: i32) -> (r: String)
    ensures
        r@ == denial_text(credit, threshold),
{
    let mut m = String::from_str("Your contribution score (");
    let c = decimal_string(credit as i64);
    m.append(c.as_str());
    m.append(") is below the required threshold (");
    let t = decimal_string(threshold as i64);
    m.append(t.as_str());
    m.append("). Please build your score through quality comments and reviews.");
    assert(m@ =~= denial_text(credit, threshold));
    m
}

/// A classification to run in the background and commit afterwards.
#[derive(Debug, Clone)]
pub struct EvaluationRequest {
    pub contributor_id: i64,
    pub user_id: i64,
    pub repo_owner: String,
    pub repo_name: String,
    pub event_type: EventType,
    /// The text classified.
    pub content: String,
    pub context: EvalContext,
}

/// What follows a pull-request opening.
#[derive(Debug)]
pub enum PrOpenedAction {
    /// The author maintains the repository: nothing to do.
    Bypass,
    /// Close the pull request after `delay_secs` with the generic message.
    ShadowClose { delay_secs: u64 },
    /// Post `message` and close the pull request now.
    Deny { message: String },
    /// Classify the pull request.
    Evaluate(EvaluationRequest),
}

/// A blacklisted contributor, by flag or by credit.
pub open spec fn is_shut_out(c: Contributor, config: RepoConfig) -> bool {
    c.is_blacklisted || c.credit_score <= config.blacklist_threshold
}

/// The pull request of `uid` on `owner`/`repo` was opened.
pub fn process_pr_opened(
    ledger: &mut Ledger,
    role: Option<CollaboratorRole>,
    uid: i64,
    owner: &str,
    repo: &str,
    title: String,
    body: String,
    now: i64,
) -> (r: PrOpenedAction)
    requires
        old(ledger).wf(),
        old(ledger)@.next_id < i64::MAX - 1,
    ensures
        final(ledger).wf(),
        old(ledger)@.evolves_to(final(ledger)@),
        role matches Some(ro) && ro.spec_is_maintainer() ==> r is Bypass && final(ledger)@ == old(ledger)@,
        !(role matches Some(ro) && ro.spec_is_maintainer()) ==> {
            let v = final(ledger)@;
            let c = v.lookup(uid, owner@, repo@)->0;
            let config = v.config;
            &&& v.lookup(uid, owner@, repo@) is Some
            &&& old(ledger)@.key_present(uid, owner@, repo@) ==> v == old(ledger)@
            &&& !old(ledger)@.key_present(uid, owner@, repo@) ==> v == (LedgerView {
                contributors: old(ledger)@.contributors.push(v.contributors.last()),
                next_id: old(ledger)@.next_id + 1,
                ..old(ledger)@
            })
            &&& v.events == old(ledger)@.events
            &&& v.evaluations == old(ledger)@.evaluations
            &&& is_shut_out(c, config) ==> (r matches PrOpenedAction::ShadowClose { delay_secs }
                && SHADOW_DELAY_MIN <= delay_secs <= SHADOW_DELAY_MAX)
            &&& !is_shut_out(c, config) && c.credit_score < config.pr_threshold ==> (r matches
                PrOpenedAction::Deny { message } && message@ == denial_text(c.credit_score,
                config.pr_threshold))
            &&& !is_shut_out(c, config) && c.credit_score >= config.pr_threshold ==> (r matches
                PrOpenedAction::Evaluate(req) && req.contributor_id == c.id && req.user_id == uid
                && req.repo_owner@ == owner@ && req.repo_name@ == repo@
                && req.event_type == EventType::PrOpened && req.content == body
                && req.context.content_type == ContentType::PullRequest
                && req.context.title == Some(title) && req.context.body == body
                && req.context.diff_summary is None && req.context.thread_context is None)
        },
{
    if let Some(ro) = role {
        if ro.is_maintainer() {
            proof { Ledger::lemma_evolves_refl(ledger@); }
            return PrOpenedAction::Bypass;
        }
    }
    let c = ledger.lookup_or_create(uid, owner, repo, now);
    let config = ledger.config();
    if c.is_blacklisted || check_blacklist(c.credit_score, config.blacklist_threshold) {
        return PrOpenedAction::ShadowClose { delay_secs: shadow_close_delay() };
    }
    match check_pr_gate(c.credit_score, config.pr_threshold) {
        GateResult::Allow => {
            let content = body.clone();
            PrOpenedAction::Evaluate(EvaluationRequest {
                contributor_id: c.id,
                user_id: uid,
                repo_owner: String::from_str(owner),
                repo_name: String::from_str(repo),
                event_type: EventType::PrOpened,
                content,
                context: EvalContext {
                    content_type: ContentType::PullRequest,
                    title: Some(title),
                    body,
                    diff_summary: None,
                    thread_context: None,
                },
            })
        },
        GateResult::Deny => PrOpenedAction::Deny {
            message: denial_message(c.credit_score, config.pr_threshold),
        },
    }
}

/// A role that earns no credit for reviews and comments.
pub open spec fn is_privileged(role: Option<CollaboratorRole>) -> bool {
    role matches Some(ro) && (ro.spec_is_maintainer() || ro.spec_has_write_access())
}

fn privileged(role: Option<CollaboratorRole>) -> (r: bool)
    ensures
        r == is_privileged(role),
{
    match role {
        Some(ro) => ro.is_maintainer() || ro.has_write_access(),
        None => false,
    }
}

/// What became of a review.
#[derive(Debug, Clone, Copy, PartialEq, Eq, Structural)]
pub enum ReviewOutcome {
    /// The author of the review is privileged: no credit.
    Privileged,
    /// The author of the review is blacklisted: no credit.
    Blacklisted,
    /// The fixed review credit was applied.
    Credited { credit_before: i32, credit_after: i32 },
}

/// A review by `uid` on `owner`/`repo` was submitted. Reviews are not
/// classified: an unprivileged author who is not blacklisted gets the fixed
/// review delta under the clamped rule, logged without a classification.
pub fn process_pr_review_submitted(
    ledger: &mut Ledger,
    role: Option<CollaboratorRole>,
    uid: i64,
    owner: &str,
    repo: &str,
    now: i64,
) -> (r: Result<ReviewOutcome, LedgerError>)
    requires
        old(ledger).wf(),
        old(ledger)@.next_id < i64::MAX - 3,
    ensures
        final(ledger).wf(),
        old(ledger)@.evolves_to(final(ledger)@),
        is_privileged(role) ==> r == Ok::<ReviewOutcome, LedgerError>(ReviewOutcome::Privileged)
            && final(ledger)@ == old(ledger)@,
        !is_privileged(role) ==> {
            let v = final(ledger)@;
            let c = v.lookup(uid, owner@, repo@)->0;
            let before = old(ledger)@.arrival_credit(uid, owner@, repo@);
            let t = v.config.blacklist_threshold;
            &&& v.lookup(uid, owner@, repo@) is Some
            &&& before <= t ==> r == Ok::<ReviewOutcome, LedgerError>(ReviewOutcome::Blacklisted)
                && v.events == old(ledger)@.events && c.credit_score == before
            &&& before > t && before + REVIEW_DELTA > i32::MAX ==> r == Err::<ReviewOutcome, LedgerError>(
                LedgerError::CreditOverflow) && v.events == old(ledger)@.events
            &&& before > t && before + REVIEW_DELTA <= i32::MAX ==> {
                let after = clamped(before as int, REVIEW_DELTA as int) as i32;
                &&& r == Ok::<ReviewOutcome, LedgerError>(ReviewOutcome::Credited { credit_before: before, credit_after: after })
                &&& c.credit_score == after
                &&& v.events == old(ledger)@.events.push(v.events.last())
                &&& v.events.last().contributor_id == c.id
                &&& v.events.last().event_type == CreditEventType::ReviewSubmitted
                &&& v.events.last().delta == REVIEW_DELTA
                &&& v.events.last().credit_before == before
                &&& v.events.last().credit_after == after
                &&& v.events.last().llm_evaluation is None
                &&& v.events.last().maintainer_override is None
            }
        },
{
    if privileged(role) {
        proof { Ledger::lemma_evolves_refl(ledger@); }
        return Ok(ReviewOutcome::Privileged);
    }
    let c = ledger.lookup_or_create(uid, owner, repo, now);
    let config = ledger.config();
    if check_blacklist(c.credit_score, config.blacklist_threshold) {
        return Ok(ReviewOutcome::Blacklisted);
    }
    let ghost v1 = ledger@;
    proof {
        assert(v1.id_present(c.id)) by {
            let i = v1.key_index(uid, owner@, repo@);
            assert(v1.contributors[i] == c);
        }
        let i = v1.key_index(uid, owner@, repo@);
        let j = v1.id_index(c.id);
        if i != j {
            assert(v1.contributors[j].id == c.id);
            assert(v1.contributors[i].id == c.id);
        }
    }
    match ledger.apply_delta(c.id, CreditEventType::ReviewSubmitted, REVIEW_DELTA, None, None, now) {
        Ok((credit_before, credit_after)) => {
            proof {
                let v = ledger@;
                let c2 = Ledger::with_credit(c, credit_after, now);
                let w = v1.with_contributor(v1.id_index(c.id), c2);
                crate::laws::law_write_then_read(v1, c.id, c2);
                Ledger::lemma_replace_keeps_inv(v1, v1.id_index(c.id), c2);
                assert(w.contributors == v.contributors);
                Ledger::lemma_lookup_same_contributors(w, v, uid, owner@, repo@);
                Ledger::lemma_evolves_trans(old(ledger)@, v1, v);
            }
            Ok(ReviewOutcome::Credited { credit_before, credit_after })
        },
        Err(e) => {
            proof { Ledger::lemma_evolves_trans(old(ledger)@, v1, ledger@); }
            Err(e)
        },
    }
}

/// What follows a comment on a pull request.
#[derive(Debug)]
pub enum CommentAction {
    /// The author is privileged: no credit.
    Privileged,
    /// The author is blacklisted: the comment stays, no credit.
    Blacklisted,
    /// Classify the comment.
    Evaluate(EvaluationRequest),
}

/// A comment by `uid` on a pull request of `owner`/`repo` was created.
pub fn process_comment_created(
    ledger: &mut Ledger,
    role: Option<CollaboratorRole>,
    uid: i64,
    owner: &str,
    repo: &str,
    comment_body: String,
    issue_title: String,
    now: i64,
) -> (r: CommentAction)
    requires
        old(ledger).wf(),
        old(ledger)@.next_id < i64::MAX - 1,
    ensures
        final(ledger).wf(),
        old(ledger)@.evolves_to(final(ledger)@),
        is_privileged(role) ==> r is Privileged && final(ledger)@ == old(ledger)@,
        !is_privileged(role) ==> {
            let v = final(ledger)@;
            let c = v.lookup(uid, owner@, repo@)->0;
            &&& v.lookup(uid, owner@, repo@) is Some
            &&& old(ledger)@.key_present(uid, owner@, repo@) ==> v == old(ledger)@
            &&& !old(ledger)@.key_present(uid, owner@, repo@) ==> v == (LedgerView {
                contributors: old(ledger)@.contributors.push(v.contributors.last()),
                next_id: old(ledger)@.next_id + 1,
                ..old(ledger)@
            })
            &&& v.events == old(ledger)@.events
            &&& v.evaluations == old(ledger)@.evaluations
            &&& c.credit_score <= v.config.blacklist_threshold ==> r is Blacklisted
            &&& c.credit_score > v.config.blacklist_threshold ==> (r matches CommentAction::Evaluate(req)
                && req.contributor_id == c.id && req.user_id == uid
                && req.repo_owner@ == owner@ && req.repo_name@ == repo@
                && req.event_type == EventType::Comment && req.content == comment_body
                && req.context.content_type == ContentType::Comment
                && req.context.title is None && req.context.body == comment_body
                && req.context.diff_summary is None && req.context.thread_context == Some(issue_title))
        },
{
    if privileged(role) {
        proof { Ledger::lemma_evolves_refl(ledger@); }
        return CommentAction::Privileged;
    }
    let c = ledger.lookup_or_create(uid, owner, repo, now);
    let config = ledger.config();
    if check_blacklist(c.credit_score, config.blacklist_threshold) {
        return CommentAction::Blacklisted;
    }
    let content = comment_body.clone();
    CommentAction::Evaluate(EvaluationRequest {
        contributor_id: c.id,
        user_id: uid,
        repo_owner: String::from_str(owner),
        repo_name: String::from_str(repo),
        event_type: EventType::Comment,
        content,
        context: EvalContext {
            content_type: ContentType::Comment,
            title: None,
            body: comment_body,
            diff_summary: None,
            thread_context: Some(issue_title),
        },
    })
}

/// Which pipeline a webhook delivery enters.
#[derive(Debug, Clone, Copy, PartialEq, Eq, Structural)]
pub enum Route {
    PrOpened,
    ReviewSubmitted,
    CommentCreated,
    NotProcessed,
}

/// The shape of a delivery: its `action`, and which of the top-level
/// objects `pull_request`, `review`, `issue`, `comment` it carries, and
/// whether its issue refers to a pull request.
#[derive(Debug, Clone)]
pub struct DeliveryShape {
    pub action: Option<String>,
    pub has_pull_request: bool,
    pub has_review: bool,
    pub has_issue: bool,
    pub has_comment: bool,
    pub issue_is_pull_request: bool,
}

pub open spec fn route_of(d: DeliveryShape) -> Route {
    match d.action {
        None => Route::NotProcessed,
        Some(a) => {
            if d.has_pull_request && d.has_review && a@ == "submitted"@ {
                Route::ReviewSubmitted
            } else if d.has_pull_request && !d.has_review && a@ == "opened"@ {
                Route::PrOpened
            } else if d.has_issue && d.has_comment && a@ == "created"@ && d.issue_is_pull_request {
                Route::CommentCreated
            } else {
                Route::NotProcessed
            }
        },
    }
}

/// Select the pipeline for a delivery; anything else is acknowledged and
/// not processed.
pub fn route_event(d: &DeliveryShape) -> (r: Route)
    ensures
        r == route_of(*d),
{
    match &d.action {
        None => Route::NotProcessed,
        Some(a) => {
            let a = a.as_str();
            if d.has_pull_request && d.has_review && crate::text::str_eq(a, "submitted") {
                Route::ReviewSubmitted
            } else if d.has_pull_request && !d.has_review && crate::text::str_eq(a, "opened") {
                Route::PrOpened
            } else if d.has_issue && d.has_comment && crate::text::str_eq(a, "created")
                && d.issue_is_pull_request {
                Route::CommentCreated
            } else {
                Route::NotProcessed
            }
        },
    }
}

} // verus!
