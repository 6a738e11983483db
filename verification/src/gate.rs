//! The approval gate: per-pending-action state correlating outstanding
//! requests to user decisions.
//!
//! A pending request is created when a gated action needs confirmation and
//! destroyed when a matching decision arrives or the session tears down.
//! An `ApproveForSession` decision additionally records the approved exec
//! command on the session-scoped allow list, so identical commands
//! auto-approve for the remainder of the session; the chosen equivalence
//! for "identical" is the exact argv vector of the command.  The allow
//! list is append-only during a session.

use vstd::prelude::*;
use crate::protocol::{FileChange, ReviewDecision};

verus! {

/// The action a pending request gates.
#[derive(Clone, Debug, PartialEq, Eq)]
pub enum PendingAction {
    Exec { command: Vec<String> },
    Patch { changes: Vec<FileChange> },
}

/// One outstanding human-approval gate awaiting a decision.
#[derive(Clone, Debug, PartialEq, Eq)]
pub struct PendingRequest {
    pub id: u64,
    pub action: PendingAction,
}

/// The outcome of matching one decision to the outstanding requests.
#[derive(Clone, Debug, PartialEq, Eq)]
pub enum Resolution {
    /// The decision matched the outstanding request holding this action.
    Resolved { action: PendingAction, decision: ReviewDecision },
    /// The decision matched no outstanding request: a protocol anomaly,
    /// ignored and reported, never fatal.
    UnknownId,
}

/// The approval gate: outstanding requests plus the session-scoped
/// allow list of exec commands approved for the whole session.
#[derive(Clone, Debug, PartialEq, Eq)]
pub struct ApprovalGate {
    pub pending: Vec<PendingRequest>,
    pub session_approved: Vec<Vec<String>>,
}

/// Whether some outstanding request carries `id`.
pub open spec fn contains_id(s: Seq<PendingRequest>, id: u64) -> bool {
    exists|i: int| 0 <= i < s.len() && s[i].id == id
}

/// The action of the first outstanding request carrying `id`, if any.
pub open spec fn find_action(s: Seq<PendingRequest>, id: u64) -> Option<PendingAction>
    decreases s.len(),
{
    if s.len() == 0 {
        None
    } else if s[0].id == id {
        Some(s[0].action)
    } else {
        find_action(s.drop_first(), id)
    }
}

/// The outstanding requests with every request carrying `id` removed,
/// order otherwise kept.
pub open spec fn without_id(s: Seq<PendingRequest>, id: u64) -> Seq<PendingRequest> {
    s.filter(|p: PendingRequest| p.id != id)
}

/// A command list contains `cmd` when some entry equals it element for
/// element.
pub open spec fn list_contains_command(l: Seq<Vec<String>>, cmd: Seq<String>) -> bool {
    exists|i: int|
        0 <= i < l.len() && l[i]@.len() == cmd.len() && (forall|j: int|
            0 <= j < cmd.len() ==> #[trigger] l[i]@[j]@ == cmd[j]@)
}

impl ApprovalGate {
    /// No two outstanding requests share an id.
    pub open spec fn wf(self) -> bool {
        forall|i: int, j: int|
            0 <= i < j < self.pending@.len() ==> #[trigger] self.pending@[i].id
                != #[trigger] self.pending@[j].id
    }

    /// A gate with no outstanding request and an empty allow list.
    pub fn new() -> (g: ApprovalGate)
        ensures
            g.pending@.len() == 0,
            g.session_approved@.len() == 0,
            g.wf(),
    {
        ApprovalGate { pending: Vec::new(), session_approved: Vec::new() }
    }

    /// Creates a pending request for a gated action.  The id must be
    /// fresh; the session core issues monotonically increasing ids.
    pub fn create(&mut self, id: u64, action: PendingAction)
        requires
            old(self).wf(),
            !contains_id(old(self).pending@, id),
        ensures
            final(self).wf(),
            final(self).pending@ == old(self).pending@.push(PendingRequest { id, action }),
            final(self).session_approved@ == old(self).session_approved@,
    {
        self.pending.push(PendingRequest { id, action });
    }

    /// Matches one decision to the outstanding requests.  A matching
    /// request is destroyed, exactly once; a decision whose id matches no
    /// outstanding request changes nothing.  `ApproveForSession` on an
    /// exec request appends the command to the session allow list, which
    /// is append-only and never otherwise touched.
    pub fn resolve(&mut self, id: u64, decision: ReviewDecision) -> (r: Resolution)
        requires
            old(self).wf(),
        ensures
            final(self).wf(),
            final(self).pending@ == without_id(old(self).pending@, id),
            match find_action(old(self).pending@, id) {
                Option::None => {
                    &&& r == Resolution::UnknownId
                    &&& final(self).pending@ == old(self).pending@
                    &&& final(self).session_approved@ == old(self).session_approved@
                },
                Option::Some(action) => {
                    &&& r == (Resolution::Resolved { action, decision })
                    &&& !contains_id(final(self).pending@, id)
                },
            },
            match find_action(old(self).pending@, id) {
                Option::Some(PendingAction::Exec { command }) => {
                    if decision == ReviewDecision::ApproveForSession {
                        &&& final(self).session_approved@.len() == old(self).session_approved@.len()
                            + 1
                        &&& final(self).session_approved@.last()@ == command@
                    } else {
                        final(self).session_approved@ == old(self).session_approved@
                    }
                },
                _ => final(self).session_approved@ == old(self).session_approved@,
            },
            forall|k: int|
                0 <= k < old(self).session_approved@.len()
                    ==> #[trigger] final(self).session_approved@[k]
                    == old(self).session_approved@[k],
    {
        let ghost pend0 = self.pending@;
        let mut j: usize = 0;
        while j < self.pending.len()
            invariant
                j <= self.pending@.len(),
                forall|k: int| 0 <= k < j ==> self.pending@[k].id != id,
                self.pending@ == pend0,
                pend0 == old(self).pending@,
                self.session_approved@ == old(self).session_approved@,
                old(self).wf(),
            decreases self.pending@.len() - j,
        {
            if self.pending[j].id == id {
                proof {
                    lemma_find_action_at_first(pend0, id, j as int);
                    assert forall|k: int|
                        0 <= k < pend0.len() && k != j implies #[trigger] pend0[k].id != id by {
                        if k > j {
                            assert(pend0[j as int].id != pend0[k].id);
                        }
                    }
                    lemma_filter_removes_at(pend0, id, j as int);
                }
                let req = self.pending.remove(j);
                proof {
                    assert(self.pending@ =~= pend0.subrange(0, j as int) + pend0.subrange(
                        j as int + 1,
                        pend0.len() as int,
                    ));
                    assert forall|i: int|
                        0 <= i < self.pending@.len() implies #[trigger] self.pending@[i].id
                        != id by {
                        if i < j {
                        } else {
                            assert(self.pending@[i] == pend0[i + 1]);
                        }
                    }
                    assert forall|a: int, b: int|
                        0 <= a < b < self.pending@.len() implies #[trigger] self.pending@[a].id
                        != #[trigger] self.pending@[b].id by {
                        let oa: int = if a < j { a } else { a + 1 };
                        let ob: int = if b < j { b } else { b + 1 };
                        assert(self.pending@[a] == pend0[oa]);
                        assert(self.pending@[b] == pend0[ob]);
                        assert(0 <= oa < ob < pend0.len());
                        assert(old(self).pending@[oa].id != old(self).pending@[ob].id);
                    }
                }
                match req.action {
                    PendingAction::Exec { command } => {
                        if matches!(decision, ReviewDecision::ApproveForSession) {
                            let copy = copy_command(&command);
                            self.session_approved.push(copy);
                        }
                        return Resolution::Resolved {
                            action: PendingAction::Exec { command },
                            decision,
                        };
                    },
                    PendingAction::Patch { changes } => {
                        return Resolution::Resolved {
                            action: PendingAction::Patch { changes },
                            decision,
                        };
                    },
                }
            }
            j = j + 1;
        }
        proof {
            assert(!contains_id(pend0, id)) by {
                if contains_id(pend0, id) {
                    let i = choose|i: int| 0 <= i < pend0.len() && pend0[i].id == id;
                    assert(pend0[i].id != id);
                }
            }
            lemma_find_action_none(pend0, id);
            lemma_filter_keeps_all(pend0, id);
        }
        Resolution::UnknownId
    }

    /// Whether `command` was approved for the whole session.
    pub fn is_session_approved(&self, command: &Vec<String>) -> (b: bool)
        ensures
            b == list_contains_command(self.session_approved@, command@),
    {
        let mut i: usize = 0;
        while i < self.session_approved.len()
            invariant
                i <= self.session_approved@.len(),
                forall|k: int|
                    0 <= k < i ==> !(#[trigger] self.session_approved@[k]@.len() == command@.len()
                        && (forall|j: int|
                            0 <= j < command@.len() ==> #[trigger] self.session_approved@[k]@[j]@
                                == command@[j]@)),
            decreases self.session_approved@.len() - i,
        {
            if commands_equal(&self.session_approved[i], command) {
                return true;
            }
            i = i + 1;
        }
        false
    }

    /// Session teardown: removes every outstanding request at once, to be
    /// treated as denied.  Returns them so the caller can report each.
    pub fn drain(&mut self) -> (drained: Vec<PendingRequest>)
        requires
            old(self).wf(),
        ensures
            final(self).wf(),
            final(self).pending@.len() == 0,
            drained@ == old(self).pending@,
            final(self).session_approved@ == old(self).session_approved@,
    {
        let drained = self.pending.split_off(0);
        proof {
            assert(drained@ =~= old(self).pending@);
            assert(self.pending@ =~= Seq::<PendingRequest>::empty());
        }
        drained
    }

    /// How many requests are outstanding.
    pub fn pending_len(&self) -> (n: usize)
        ensures
            n == self.pending@.len(),
    {
        self.pending.len()
    }
}

/// Copies a command, string by string, so the allow list and the caller
/// can each keep one.
pub fn copy_command(c: &Vec<String>) -> (r: Vec<String>)
    ensures
        r@ == c@,
{
    let mut r: Vec<String> = Vec::new();
    let mut i: usize = 0;
    while i < c.len()
        invariant
            i <= c@.len(),
            r@.len() == i,
            forall|j: int| 0 <= j < i ==> #[trigger] r@[j] == c@[j],
        decreases c@.len() - i,
    {
        r.push(c[i].clone());
        i = i + 1;
    }
    proof {
        assert(r@ =~= c@);
    }
    r
}

/// Whether two commands are equal element for element.
pub fn commands_equal(a: &Vec<String>, b: &Vec<String>) -> (r: bool)
    ensures
        r == (a@.len() == b@.len() && (forall|j: int|
            0 <= j < b@.len() ==> #[trigger] a@[j]@ == b@[j]@)),
{
    if a.len() != b.len() {
        return false;
    }
    let mut i: usize = 0;
    while i < a.len()
        invariant
            i <= a@.len(),
            a@.len() == b@.len(),
            forall|j: int| 0 <= j < i ==> #[trigger] a@[j]@ == b@[j]@,
        decreases a@.len() - i,
    {
        if !(a[i] == b[i]) {
            return false;
        }
        i = i + 1;
    }
    true
}

/// `find_action` returns the action at the first index carrying the id.
proof fn lemma_find_action_at_first(s: Seq<PendingRequest>, id: u64, j: int)
    requires
        0 <= j < s.len(),
        s[j].id == id,
        forall|k: int| 0 <= k < j ==> s[k].id != id,
    ensures
        find_action(s, id) == Some(s[j].action),
    decreases j,
{
    if j == 0 {
    } else {
        lemma_find_action_at_first(s.drop_first(), id, j - 1);
    }
}

/// `find_action` comes up empty exactly when no request carries the id.
proof fn lemma_find_action_none(s: Seq<PendingRequest>, id: u64)
    ensures
        find_action(s, id) is None <==> !contains_id(s, id),
    decreases s.len(),
{
    if s.len() == 0 {
    } else if s[0].id == id {
    } else {
        lemma_find_action_none(s.drop_first(), id);
        assert(contains_id(s, id) ==> contains_id(s.drop_first(), id)) by {
            if contains_id(s, id) {
                let i = choose|i: int| 0 <= i < s.len() && s[i].id == id;
                assert(s.drop_first()[i - 1].id == id);
            }
        }
        assert(contains_id(s.drop_first(), id) ==> contains_id(s, id)) by {
            if contains_id(s.drop_first(), id) {
                let i = choose|i: int| 0 <= i < s.drop_first().len() && s.drop_first()[i].id == id;
                assert(s[i + 1].id == id);
            }
        }
    }
}

/// Filtering away an id that no request carries keeps the sequence as it is.
proof fn lemma_filter_keeps_all(s: Seq<PendingRequest>, id: u64)
    requires
        forall|k: int| 0 <= k < s.len() ==> s[k].id != id,
    ensures
        without_id(s, id) == s,
    decreases s.len(),
{
    reveal(Seq::filter);
    if s.len() == 0 {
        assert(without_id(s, id) =~= s);
    } else {
        lemma_filter_keeps_all(s.drop_last(), id);
        assert(without_id(s, id) =~= s);
    }
}

/// Filtering away an id carried by exactly the request at `j` removes that
/// request and nothing else.
proof fn lemma_filter_removes_at(s: Seq<PendingRequest>, id: u64, j: int)
    requires
        0 <= j < s.len(),
        s[j].id == id,
        forall|k: int| 0 <= k < s.len() && k != j ==> s[k].id != id,
    ensures
        without_id(s, id) == s.subrange(0, j) + s.subrange(j + 1, s.len() as int),
    decreases s.len(),
{
    reveal(Seq::filter);
    if j == s.len() - 1 {
        lemma_filter_keeps_all(s.drop_last(), id);
        assert(without_id(s, id) =~= s.subrange(0, j) + s.subrange(j + 1, s.len() as int));
    } else {
        lemma_filter_removes_at(s.drop_last(), id, j);
        assert(without_id(s, id) =~= s.subrange(0, j) + s.subrange(j + 1, s.len() as int));
    }
}

/// Every request that survives the removal was already outstanding.
pub proof fn lemma_without_id_elems(s: Seq<PendingRequest>, id: u64)
    ensures
        forall|i: int|
            0 <= i < without_id(s, id).len() ==> exists|j: int|
                0 <= j < s.len() && s[j] == #[trigger] without_id(s, id)[i],
    decreases s.len(),
{
    reveal(Seq::filter);
    if s.len() == 0 {
    } else {
        lemma_without_id_elems(s.drop_last(), id);
        let f = without_id(s, id);
        let fd = without_id(s.drop_last(), id);
        assert forall|i: int| 0 <= i < f.len() implies exists|j: int|
            0 <= j < s.len() && s[j] == #[trigger] f[i] by {
            if i < fd.len() {
                assert(f[i] == fd[i]);
                let j = choose|j: int| 0 <= j < s.drop_last().len() && s.drop_last()[j] == fd[i];
                assert(s[j] == fd[i]);
            } else {
                assert(f[i] == s.last());
                assert(s[s.len() - 1] == f[i]);
            }
        }
    }
}

/// Gate resolution idempotence: once a request is resolved, its id is gone
/// from the outstanding requests; a later decision with the same id finds nothing and
/// (by the contract of `resolve`) changes nothing and re-triggers nothing.
pub proof fn lemma_resolution_idempotent(s: Seq<PendingRequest>, id: u64)
    ensures
        !contains_id(without_id(s, id), id),
        find_action(without_id(s, id), id) is None,
{
    assert forall|i: int| 0 <= i < without_id(s, id).len() implies #[trigger] without_id(s, id)[i].id
        != id by {
        s.lemma_filter_pred(|p: PendingRequest| p.id != id, i);
    }
    lemma_find_action_none(without_id(s, id), id);
}

} // verus!
