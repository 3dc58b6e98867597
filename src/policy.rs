//! The policy engine: delta tables, clamped credit arithmetic, the
//! admission gate and the blacklist test. Everything here is pure.

use vstd::prelude::*;
use vstd::string::*;
use crate::text::{decimal_of, decimal_string};

verus! {

/// Quality verdict of the classifier on a piece of content.
#[derive(Debug, Clone, Copy, PartialEq, Eq, Structural, Hash)]
pub enum QualityLevel {
    Spam,
    Low,
    Acceptable,
    High,
}

/// Kind of contribution event that earns or costs credit.
#[derive(Debug, Clone, Copy, PartialEq, Eq, Structural, Hash)]
pub enum EventType {
    PrOpened,
    Comment,
    PrMerged,
    ReviewSubmitted,
}

/// One row of the delta table: the adjustment for each quality level.
#[derive(Debug, Clone, Copy, PartialEq, Eq, Structural)]
pub struct ScoringDelta {
    pub spam: i32,
    pub low: i32,
    pub acceptable: i32,
    pub high: i32,
}

impl ScoringDelta {
    pub open spec fn spec_get(self, quality: QualityLevel) -> i32 {
        match quality {
            QualityLevel::Spam => self.spam,
            QualityLevel::Low => self.low,
            QualityLevel::Acceptable => self.acceptable,
            QualityLevel::High => self.high,
        }
    }

    /// The adjustment for `quality`.
    pub fn get(&self, quality: QualityLevel) -> (r: i32)
        ensures
            r == self.spec_get(quality),
    {
        match quality {
            QualityLevel::Spam => self.spam,
            QualityLevel::Low => self.low,
            QualityLevel::Acceptable => self.acceptable,
            QualityLevel::High => self.high,
        }
    }

    /// A row of zeros.
    pub fn zero() -> (r: ScoringDelta)
        ensures
            r == (ScoringDelta { spam: 0, low: 0, acceptable: 0, high: 0 }),
    {
        ScoringDelta { spam: 0, low: 0, acceptable: 0, high: 0 }
    }
}

impl Default for ScoringDelta {
    fn default() -> (r: ScoringDelta)
        ensures
            r == (ScoringDelta { spam: 0, low: 0, acceptable: 0, high: 0 }),
    {
        ScoringDelta::zero()
    }
}

/// Per-repository policy: thresholds, starting credit and the four rows of
/// the delta table.
#[derive(Debug, Clone, Copy, PartialEq, Eq, Structural)]
pub struct RepoConfig {
    /// Credit of a contributor when first seen.
    pub starting_credit: i32,
    /// Minimum credit with which a pull request is admitted.
    pub pr_threshold: i32,
    /// Credit at or below which a contributor counts as blacklisted.
    pub blacklist_threshold: i32,
    pub pr_opened: ScoringDelta,
    pub comment: ScoringDelta,
    pub pr_merged: ScoringDelta,
    pub review_submitted: ScoringDelta,
}

/// The policy used where a repository sets none.
pub open spec fn default_config() -> RepoConfig {
    RepoConfig {
        starting_credit: 100,
        pr_threshold: 50,
        blacklist_threshold: 0,
        pr_opened: ScoringDelta { spam: -25i32, low: -5i32, acceptable: 5i32, high: 15i32 },
        comment: ScoringDelta { spam: -10i32, low: -2i32, acceptable: 1i32, high: 3i32 },
        pr_merged: ScoringDelta { spam: 0i32, low: 0i32, acceptable: 20i32, high: 20i32 },
        review_submitted: ScoringDelta { spam: 0i32, low: 0i32, acceptable: 5i32, high: 5i32 },
    }
}

impl RepoConfig {
    /// The default policy.
    pub fn defaults() -> (r: RepoConfig)
        ensures
            r == default_config(),
    {
        RepoConfig {
            starting_credit: 100,
            pr_threshold: 50,
            blacklist_threshold: 0,
            pr_opened: ScoringDelta { spam: -25, low: -5, acceptable: 5, high: 15 },
            comment: ScoringDelta { spam: -10, low: -2, acceptable: 1, high: 3 },
            pr_merged: ScoringDelta { spam: 0, low: 0, acceptable: 20, high: 20 },
            review_submitted: ScoringDelta { spam: 0, low: 0, acceptable: 5, high: 5 },
        }
    }

    pub open spec fn spec_scoring_delta(self, event_type: EventType) -> ScoringDelta {
        match event_type {
            EventType::PrOpened => self.pr_opened,
            EventType::Comment => self.comment,
            EventType::PrMerged => self.pr_merged,
            EventType::ReviewSubmitted => self.review_submitted,
        }
    }

    /// The row of the delta table for `event_type`.
    pub fn get_scoring_delta(&self, event_type: EventType) -> (r: &ScoringDelta)
        ensures
            *r == self.spec_scoring_delta(event_type),
    {
        match event_type {
            EventType::PrOpened => &self.pr_opened,
            EventType::Comment => &self.comment,
            EventType::PrMerged => &self.pr_merged,
            EventType::ReviewSubmitted => &self.review_submitted,
        }
    }
}

impl Default for RepoConfig {
    fn default() -> (r: RepoConfig)
        ensures
            r == default_config(),
    {
        RepoConfig::defaults()
    }
}

/// The delta that `config` assigns to an event of `event_type` judged `quality`.
pub open spec fn delta_of(config: RepoConfig, event_type: EventType, quality: QualityLevel) -> i32 {
    config.spec_scoring_delta(event_type).spec_get(quality)
}

/// Delta from the default table.
pub fn calculate_delta(event_type: EventType, quality: QualityLevel) -> (r: i32)
    ensures
        r == delta_of(default_config(), event_type, quality),
{
    let config = RepoConfig::defaults();
    calculate_delta_with_config(&config, event_type, quality)
}

/// Delta from the table of `config`.
pub fn calculate_delta_with_config(
    config: &RepoConfig,
    event_type: EventType,
    quality: QualityLevel,
) -> (r: i32)
    ensures
        r == delta_of(*config, event_type, quality),
{
    let delta = config.get_scoring_delta(event_type);
    delta.get(quality)
}

/// `max(0, credit + delta)`, over the integers.
pub open spec fn clamped(credit: int, delta: int) -> int {
    if credit + delta < 0 {
        0
    } else {
        credit + delta
    }
}

/// Apply `delta` to `current_score`, never going below zero.
pub fn apply_credit(current_score: i32, delta: i32) -> (r: i32)
    requires
        current_score + delta <= i32::MAX,
    ensures
        r == clamped(current_score as int, delta as int),
        r >= 0,
{
    let sum: i64 = current_score as i64 + delta as i64;
    if sum < 0 {
        0
    } else {
        sum as i32
    }
}

/// Outcome of the admission gate.
#[derive(Debug, Clone, Copy, PartialEq, Eq, Structural)]
pub enum GateResult {
    Allow,
    Deny,
}

/// Admit a pull request when the credit reaches the threshold.
pub fn check_pr_gate(credit_score: i32, threshold: i32) -> (r: GateResult)
    ensures
        r == (if credit_score >= threshold { GateResult::Allow } else { GateResult::Deny }),
{
    if credit_score >= threshold {
        GateResult::Allow
    } else {
        GateResult::Deny
    }
}

/// A credit at or below the threshold is a blacklisted credit.
pub fn check_blacklist(credit_score: i32, blacklist_threshold: i32) -> (r: bool)
    ensures
        r == (credit_score <= blacklist_threshold),
{
    credit_score <= blacklist_threshold
}

/// `key = value` and a line break.
pub open spec fn toml_line(key: Seq<char>, value: i32) -> Seq<char> {
    key + " = "@ + decimal_of(value as int) + "\n"@
}

/// A `[name]` table holding one row of the delta table.
pub open spec fn toml_table(name: Seq<char>, d: ScoringDelta) -> Seq<char> {
    "\n["@ + name + "]\n"@ + toml_line("spam"@, d.spam) + toml_line("low"@, d.low) + toml_line(
        "acceptable"@,
        d.acceptable,
    ) + toml_line("high"@, d.high)
}

/// The policy file text of a policy: the three scalars, then one table per
/// event type.
pub open spec fn policy_text(c: RepoConfig) -> Seq<char> {
    toml_line("starting_credit"@, c.starting_credit) + toml_line("pr_threshold"@, c.pr_threshold)
        + toml_line("blacklist_threshold"@, c.blacklist_threshold) + toml_table("pr_opened"@, c.pr_opened)
        + toml_table("comment"@, c.comment) + toml_table("pr_merged"@, c.pr_merged) + toml_table(
        "review_submitted"@,
        c.review_submitted,
    )
}

fn push_line(out: &mut String, key: &str, value: i32)
    ensures
        final(out)@ == old(out)@ + toml_line(key@, value),
{
    out.append(key);
    out.append(" = ");
    let digits = decimal_string(value as i64);
    out.append(digits.as_str());
    out.append("\n");
    assert(final(out)@ =~= old(out)@ + toml_line(key@, value));
}

fn push_table(out: &mut String, name: &str, d: &ScoringDelta)
    ensures
        final(out)@ == old(out)@ + toml_table(name@, *d),
{
    out.append("\n[");
    out.append(name);
    out.append("]\n");
    push_line(out, "spam", d.spam);
    push_line(out, "low", d.low);
    push_line(out, "acceptable", d.acceptable);
    push_line(out, "high", d.high);
    assert(final(out)@ =~= old(out)@ + toml_table(name@, *d));
}

impl RepoConfig {
    /// The policy written as a policy file.
    pub fn to_toml(&self) -> (r: String)
        ensures
            r@ == policy_text(*self),
    {
        let mut out = String::new();
        push_line(&mut out, "starting_credit", self.starting_credit);
        push_line(&mut out, "pr_threshold", self.pr_threshold);
        push_line(&mut out, "blacklist_threshold", self.blacklist_threshold);
        push_table(&mut out, "pr_opened", &self.pr_opened);
        push_table(&mut out, "comment", &self.comment);
        push_table(&mut out, "pr_merged", &self.pr_merged);
        push_table(&mut out, "review_submitted", &self.review_submitted);
        assert(out@ =~= policy_text(*self));
        out
    }
}

} // verus!
