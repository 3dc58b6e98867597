//! The state kept by the actions mode: contributors keyed by forge user id,
//! and the list of credit events. Reading and writing the files is the
//! caller's; here are the rules of a credit check and a credit update.

use vstd::prelude::*;
use vstd::string::*;
use crate::policy::{RepoConfig, clamped};

verus! {

/// One contributor of the actions-mode state.
#[derive(Debug, Clone)]
pub struct ContributorState {
    pub username: String,
    pub credit: i32,
    pub is_blacklisted: bool,
}

/// One credit event of the actions-mode state.
#[derive(Debug, Clone)]
pub struct FileCreditEvent {
    pub contributor_id: u64,
    pub event_type: String,
    pub delta: i32,
    pub credit_before: i32,
    pub credit_after: i32,
    pub pr_number: Option<u64>,
    pub evaluation_summary: Option<String>,
    pub timestamp: String,
}

/// A requested credit update.
#[derive(Debug, Clone)]
pub struct CreditUpdate {
    pub contributor_id: u64,
    pub username: String,
    pub delta: i32,
    pub event_type: String,
    pub pr_number: Option<u64>,
    pub evaluation_summary: Option<String>,
    /// Set the credit to `max(0, delta)` instead of adding `delta`.
    pub absolute: bool,
    /// Set the blacklist flag to this value instead of deriving it.
    pub set_blacklisted: Option<bool>,
}

/// What a credit check reports.
#[derive(Debug, Clone)]
pub struct CreditCheckOutput {
    pub contributor_id: u64,
    pub username: Option<String>,
    pub credit: i32,
    pub is_blacklisted: bool,
}

/// Why an update was refused.
#[derive(Debug, Clone, Copy, PartialEq, Eq, Structural)]
pub enum FileStateError {
    CreditOverflow,
}

/// The entry for `id` among `s`, if any.
spec fn state_in(s: Seq<(u64, ContributorState)>, id: u64) -> Option<ContributorState> {
    if exists|i: int| 0 <= i < s.len() && s[i].0 == id {
        Some(s[choose|i: int| 0 <= i < s.len() && s[i].0 == id].1)
    } else {
        None
    }
}

/// Two entry lists with unique ids that hold the same entries under every
/// id but `id0` (matched through `to_old` and `to_new`) agree on every
/// other id.
proof fn lemma_state_kept(
    s1: Seq<(u64, ContributorState)>,
    s2: Seq<(u64, ContributorState)>,
    id0: u64,
    k: u64,
    to_old: spec_fn(int) -> int,
    to_new: spec_fn(int) -> int,
)
    requires
        forall|i: int, j: int| 0 <= i < s1.len() && 0 <= j < s1.len() && i != j ==> (#[trigger] s1[i]).0
            != (#[trigger] s1[j]).0,
        k != id0,
        forall|x: int| 0 <= x < s2.len() && (#[trigger] s2[x]).0 != id0 ==> 0 <= to_old(x) < s1.len()
            && s1[to_old(x)] == s2[x],
        forall|y: int| 0 <= y < s1.len() && (#[trigger] s1[y]).0 != id0 ==> 0 <= to_new(y) < s2.len()
            && s2[to_new(y)] == s1[y],
    ensures
        state_in(s2, k) == state_in(s1, k),
{
    if exists|x: int| 0 <= x < s2.len() && s2[x].0 == k {
        let x = choose|x: int| 0 <= x < s2.len() && s2[x].0 == k;
        let y0 = to_old(x);
        assert(s1[y0].0 == k);
        let y = choose|y: int| 0 <= y < s1.len() && s1[y].0 == k;
        if y != y0 {
            assert(s1[y].0 == k);
        }
    } else if exists|y: int| 0 <= y < s1.len() && s1[y].0 == k {
        let y = choose|y: int| 0 <= y < s1.len() && s1[y].0 == k;
        assert(s2[to_new(y)].0 == k);
    }
}

/// The contributors and events of the actions mode; one entry per id.
#[derive(Debug)]
pub struct FileState {
    contributors: Vec<(u64, ContributorState)>,
    events: Vec<FileCreditEvent>,
}

/// Credit after an update from `before`.
pub open spec fn updated_credit(before: i32, u: CreditUpdate) -> int {
    if u.absolute {
        clamped(0, u.delta as int)
    } else {
        clamped(before as int, u.delta as int)
    }
}

/// The delta an update logs: the requested one, or, when the credit is set
/// outright, the change it makes; either way the logged event obeys the
/// clamped credit rule.
pub open spec fn logged_delta(before: i32, u: CreditUpdate) -> int {
    if u.absolute {
        updated_credit(before, u) - before
    } else {
        u.delta as int
    }
}

/// An update whose credit or logged delta would not fit an `i32`.
pub open spec fn update_overflows(before: i32, u: CreditUpdate) -> bool {
    if u.absolute {
        logged_delta(before, u) < i32::MIN || logged_delta(before, u) > i32::MAX
    } else {
        before + u.delta > i32::MAX
    }
}

/// Blacklist flag after an update that leaves the credit at `after`.
pub open spec fn updated_flag(after: int, u: CreditUpdate, config: RepoConfig) -> bool {
    match u.set_blacklisted {
        Some(b) => b,
        None => after <= config.blacklist_threshold,
    }
}

impl FileState {
    pub closed spec fn entries(&self) -> Seq<(u64, ContributorState)> {
        self.contributors@
    }

    pub closed spec fn event_log(&self) -> Seq<FileCreditEvent> {
        self.events@
    }

    pub closed spec fn wf(&self) -> bool {
        forall|i: int, j: int|
            0 <= i < self.contributors@.len() && 0 <= j < self.contributors@.len() && i != j
                ==> (#[trigger] self.contributors@[i]).0 != (#[trigger] self.contributors@[j]).0
    }

    /// The contributor with the id, if any.
    pub closed spec fn state_of(&self, id: u64) -> Option<ContributorState> {
        state_in(self.contributors@, id)
    }

    /// No contributors and no events.
    pub fn new() -> (r: FileState)
        ensures
            r.wf(),
            r.entries().len() == 0,
            r.event_log().len() == 0,
            forall|k: u64| r.state_of(k) is None,
    {
        FileState { contributors: Vec::new(), events: Vec::new() }
    }

    /// A state from stored parts; `None` when an id appears twice.
    pub fn from_parts(contributors: Vec<(u64, ContributorState)>, events: Vec<FileCreditEvent>) -> (r: Option<FileState>)
        ensures
            r matches Some(s) ==> s.wf() && s.entries() == contributors@ && s.event_log() == events@,
            r is None ==> exists|i: int, j: int| 0 <= i < j < contributors@.len() && contributors@[i].0 == contributors@[j].0,
    {
        let n = contributors.len();
        let mut i: usize = 0;
        while i < n
            invariant
                n == contributors@.len(),
                i <= n,
                forall|a: int, b: int| 0 <= a < b < i ==> contributors@[a].0 != contributors@[b].0,
            decreases n - i,
        {
            let mut j: usize = 0;
            while j < i
                invariant
                    n == contributors@.len(),
                    j <= i < n,
                    forall|b: int| 0 <= b < j ==> contributors@[b].0 != contributors@[i as int].0,
                decreases i - j,
            {
                if contributors[j].0 == contributors[i].0 {
                    return None;
                }
                j = j + 1;
            }
            i = i + 1;
        }
        let s = FileState { contributors, events };
        proof {
            assert forall|a: int, b: int| 0 <= a < s.contributors@.len() && 0 <= b < s.contributors@.len() && a != b
                implies (#[trigger] s.contributors@[a]).0 != (#[trigger] s.contributors@[b]).0 by {
                if a < b { assert(contributors@[a].0 != contributors@[b].0); }
                else { assert(contributors@[b].0 != contributors@[a].0); }
            }
        }
        Some(s)
    }

    /// The stored contributors.
    pub fn contributors(&self) -> (r: &Vec<(u64, ContributorState)>)
        ensures
            r@ == self.entries(),
    {
        &self.contributors
    }

    /// The stored events, oldest first.
    pub fn events(&self) -> (r: &Vec<FileCreditEvent>)
        ensures
            r@ == self.event_log(),
    {
        &self.events
    }

    fn position(&self, id: u64) -> (r: Option<usize>)
        requires
            self.wf(),
        ensures
            match r {
                Some(i) => i < self.entries().len() && self.entries()[i as int].0 == id
                    && self.state_of(id) == Some(self.entries()[i as int].1),
                None => self.state_of(id) is None,
            },
    {
        let n = self.contributors.len();
        let mut i: usize = 0;
        while i < n
            invariant
                self.wf(),
                n == self.entries().len(),
                i <= n,
                forall|k: int| 0 <= k < i ==> (#[trigger] self.contributors@[k]).0 != id,
            decreases n - i,
        {
            if self.contributors[i].0 == id {
                proof {
                    assert(self.contributors@[i as int].0 == id);
                    let j = choose|j: int| 0 <= j < self.contributors@.len() && self.contributors@[j].0 == id;
                    if j != i { assert(self.contributors@[j].0 == id); }
                }
                return Some(i);
            }
            i = i + 1;
        }
        None
    }

    /// The credit of a contributor; one not yet seen has the starting
    /// credit and is not blacklisted.
    pub fn check(&self, contributor_id: u64, config: &RepoConfig) -> (r: CreditCheckOutput)
        requires
            self.wf(),
        ensures
            r.contributor_id == contributor_id,
            self.state_of(contributor_id) matches Some(st) ==> r.username == Some(st.username)
                && r.credit == st.credit && r.is_blacklisted == st.is_blacklisted,
            self.state_of(contributor_id) is None ==> r.username is None && r.credit
                == config.starting_credit && !r.is_blacklisted,
    {
        match self.position(contributor_id) {
            Some(i) => CreditCheckOutput {
                contributor_id,
                username: Some(self.contributors[i].1.username.clone()),
                credit: self.contributors[i].1.credit,
                is_blacklisted: self.contributors[i].1.is_blacklisted,
            },
            None => CreditCheckOutput {
                contributor_id,
                username: None,
                credit: config.starting_credit,
                is_blacklisted: false,
            },
        }
    }

    /// Apply an update at `timestamp`: the credit moves from its current
    /// value (the starting credit for a new contributor) by the clamped
    /// rule, or is set to `max(0, delta)`; the flag is the one requested,
    /// else whether the credit is at or below the blacklist threshold. The
    /// contributor's entry is replaced and one event appended, whose delta is
    /// the change made when the credit was set outright, so that every event
    /// obeys the clamped credit rule. Returns the credit before and after.
    pub fn apply_update(&mut self, update: CreditUpdate, config: &RepoConfig, timestamp: String) -> (r: Result<(i32, i32), FileStateError>)
        requires
            old(self).wf(),
        ensures
            final(self).wf(),
            ({
                let before = match old(self).state_of(update.contributor_id) {
                    Some(st) => st.credit,
                    None => config.starting_credit,
                };
                if update_overflows(before, update) {
                    r == Err::<(i32, i32), FileStateError>(FileStateError::CreditOverflow)
                        && final(self).entries() == old(self).entries()
                        && final(self).event_log() == old(self).event_log()
                } else {
                    let after = updated_credit(before, update);
                    &&& r == Ok::<(i32, i32), FileStateError>((before, after as i32))
                    &&& final(self).state_of(update.contributor_id) matches Some(st)
                        && st.username == update.username && st.credit == after
                        && st.is_blacklisted == updated_flag(after, update, *config)
                    &&& forall|k: u64| k != update.contributor_id ==> final(self).state_of(k)
                        == old(self).state_of(k)
                    &&& final(self).event_log() == old(self).event_log().push(FileCreditEvent {
                        contributor_id: update.contributor_id,
                        event_type: update.event_type,
                        delta: logged_delta(before, update) as i32,
                        credit_before: before,
                        credit_after: after as i32,
                        pr_number: update.pr_number,
                        evaluation_summary: update.evaluation_summary,
                        timestamp,
                    })
                    &&& final(self).event_log().last().credit_after == clamped(
                        final(self).event_log().last().credit_before as int,
                        final(self).event_log().last().delta as int,
                    )
                }
            }),
    {
        let pos = self.position(update.contributor_id);
        let before = match pos {
            Some(i) => self.contributors[i].1.credit,
            None => config.starting_credit,
        };
        if !update.absolute && before as i64 + update.delta as i64 > i32::MAX as i64 {
            return Err(FileStateError::CreditOverflow);
        }
        let after: i32 = if update.absolute {
            if update.delta < 0 { 0 } else { update.delta }
        } else {
            crate::policy::apply_credit(before, update.delta)
        };
        let change: i64 = after as i64 - before as i64;
        if update.absolute && (change < i32::MIN as i64 || change > i32::MAX as i64) {
            return Err(FileStateError::CreditOverflow);
        }
        let logged: i32 = if update.absolute { change as i32 } else { update.delta };
        let flag = match update.set_blacklisted {
            Some(b) => b,
            None => after <= config.blacklist_threshold,
        };
        let id = update.contributor_id;
        let entry = ContributorState { username: update.username, credit: after, is_blacklisted: flag };
        self.events.push(FileCreditEvent {
            contributor_id: id,
            event_type: update.event_type,
            delta: logged,
            credit_before: before,
            credit_after: after,
            pr_number: update.pr_number,
            evaluation_summary: update.evaluation_summary,
            timestamp,
        });
        let ghost old_entries = self.contributors@;
        match pos {
            Some(i) => {
                self.contributors.set(i, (id, entry));
                proof {
                    let e = self.contributors@;
                    assert(e =~= old_entries.update(i as int, (id, entry)));
                    assert forall|a: int, b: int| 0 <= a < e.len() && 0 <= b < e.len() && a != b
                        implies (#[trigger] e[a]).0 != (#[trigger] e[b]).0 by {
                        assert(old_entries[a].0 != old_entries[b].0);
                    }
                    assert forall|k: u64| k != id implies self.state_of(k) == old(self).state_of(k) by {
                        lemma_state_kept(old_entries, e, id, k, |x: int| x, |y: int| y);
                    }
                    assert(e[i as int].0 == id);
                    let z = choose|z: int| 0 <= z < e.len() && e[z].0 == id;
                    if z != i { assert(e[z].0 == id); }
                }
            },
            None => {
                self.contributors.push((id, entry));
                proof {
                    let e = self.contributors@;
                    let n = old_entries.len() as int;
                    assert(e =~= old_entries.push((id, entry)));
                    assert forall|a: int, b: int| 0 <= a < e.len() && 0 <= b < e.len() && a != b
                        implies (#[trigger] e[a]).0 != (#[trigger] e[b]).0 by {
                        if a == n {
                            if old_entries[b].0 == id {
                                assert(old(self).contributors@[b].0 == id);
                            }
                        } else if b == n {
                            if old_entries[a].0 == id {
                                assert(old(self).contributors@[a].0 == id);
                            }
                        } else {
                            assert(old(self).contributors@[a].0 != old(self).contributors@[b].0);
                        }
                    }
                    assert forall|k: u64| k != id implies self.state_of(k) == old(self).state_of(k) by {
                        lemma_state_kept(old_entries, e, id, k, |x: int| x, |y: int| y);
                    }
                    assert(e[n].0 == id);
                    let z = choose|z: int| 0 <= z < e.len() && e[z].0 == id;
                    if z != n { assert(e[z].0 == id); }
                }
            },
        }
        Ok((before, after))
    }
}

} // verus!
