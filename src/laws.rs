//! Laws of the store, stated over its abstract view and proved from the
//! well-formedness that every `Ledger` operation keeps and from the
//! evolution relation that every mutation establishes.

use vstd::prelude::*;
use crate::evaluation::EvaluationStatus;
use crate::ledger::{Contributor, CreditEventType, Ledger, LedgerView, same_key, has_key};
use crate::policy::clamped;

verus! {

/// Every logged event has `credit_after = max(0, credit_before + delta)`.
pub proof fn law_credit_rule(v: LedgerView, k: int)
    requires
        v.inv(),
        0 <= k < v.events.len(),
    ensures
        v.events[k].credit_after == clamped(v.events[k].credit_before as int, v.events[k].delta as int),
        v.events[k].credit_after >= 0,
{
    assert(crate::ledger::obeys_credit_rule(v.events[k]));
}

/// Every stored contributor has a non-negative credit.
pub proof fn law_credit_non_negative(v: LedgerView, i: int)
    requires
        v.inv(),
        0 <= i < v.contributors.len(),
    ensures
        v.contributors[i].credit_score >= 0,
{
}

/// A (user, owner, repo) key names at most one contributor.
pub proof fn law_key_unique(v: LedgerView, i: int, j: int, uid: i64, owner: Seq<char>, repo: Seq<char>)
    requires
        v.inv(),
        0 <= i < v.contributors.len(),
        0 <= j < v.contributors.len(),
        has_key(v.contributors[i], uid, owner, repo),
        has_key(v.contributors[j], uid, owner, repo),
    ensures
        i == j,
{
    if i != j {
        assert(same_key(v.contributors[i], v.contributors[j]));
    }
}

/// Across any sequence of store operations, a stored evaluation leaves
/// `Pending` only for `Approved` or `Overridden`, a decided evaluation never
/// changes status again, and no evaluation becomes `AutoApplied` through the
/// store: that status comes only from the direct path.
pub proof fn law_pending_transitions(a: LedgerView, b: LedgerView, i: int)
    requires
        a.evolves_to(b),
        0 <= i < b.evaluations.len(),
    ensures
        i < a.evaluations.len() && a.evaluations[i].status != EvaluationStatus::Pending
            ==> b.evaluations[i].status == a.evaluations[i].status,
        i < a.evaluations.len() && a.evaluations[i].status == EvaluationStatus::Pending
            ==> b.evaluations[i].status == EvaluationStatus::Pending
                || b.evaluations[i].status == EvaluationStatus::Approved
                || b.evaluations[i].status == EvaluationStatus::Overridden,
        b.evaluations[i].status == EvaluationStatus::AutoApplied ==> i < a.evaluations.len()
            && a.evaluations[i].status == EvaluationStatus::AutoApplied,
{
    if i < a.evaluations.len() {
        assert(crate::evaluation::status_step(a.evaluations[i].status, b.evaluations[i].status));
    }
}

/// Across any sequence of store operations, a contributor keeps its key and
/// internal id, and its `updated_at` stamp never goes back.
pub proof fn law_stamps_never_go_back(a: LedgerView, b: LedgerView, i: int)
    requires
        a.evolves_to(b),
        0 <= i < a.contributors.len(),
    ensures
        same_key(a.contributors[i], b.contributors[i]),
        a.contributors[i].id == b.contributors[i].id,
        a.contributors[i].updated_at <= b.contributors[i].updated_at,
{
}

/// Every auto-blacklist event is preceded, on the same contributor, by an
/// event whose credit before was above the blacklist threshold, and its own
/// credit after is at or below it.
pub proof fn law_auto_blacklist_provenance(v: LedgerView, k: int)
    requires
        v.inv(),
        0 <= k < v.events.len(),
        v.events[k].event_type == CreditEventType::AutoBlacklist,
    ensures
        0 < k,
        v.events[k - 1].contributor_id == v.events[k].contributor_id,
        v.events[k - 1].credit_before > v.config.blacklist_threshold,
        v.events[k].credit_after <= v.config.blacklist_threshold,
{
    assert(v.trip_recorded(k));
}

/// Writing a contributor row and reading it back by id gives what was
/// written: the credit, flag and role set, every other field as before, and
/// `updated_at` the time of the write.
pub proof fn law_write_then_read(v: LedgerView, id: i64, c: Contributor)
    requires
        v.inv(),
        v.id_present(id),
        same_key(v.contributors[v.id_index(id)], c),
        c.id == id,
        c.credit_score >= 0,
    ensures
        v.with_contributor(v.id_index(id), c).by_id(id) == Some(c),
        v.with_contributor(v.id_index(id), c).lookup(c.github_user_id, c.repo_owner@, c.repo_name@)
            == Some(c),
{
    let i = v.id_index(id);
    let w = v.with_contributor(i, c);
    Ledger::lemma_replace_keeps_inv(v, i, c);
    assert(w.contributors[i] == c);
    assert(w.id_present(id));
    let j = w.id_index(id);
    if j != i {
        assert(w.contributors[j].id == id);
    }
    assert(has_key(w.contributors[i], c.github_user_id, c.repo_owner@, c.repo_name@));
    assert(w.key_present(c.github_user_id, c.repo_owner@, c.repo_name@));
    let m = w.key_index(c.github_user_id, c.repo_owner@, c.repo_name@);
    if m != i {
        assert(same_key(w.contributors[i], w.contributors[m]));
    }
}

} // verus!
