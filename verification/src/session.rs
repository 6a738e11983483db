//! The session core: the orchestration loop binding policy, sandbox and
//! gate together for one agent run.
//!
//! The core is a state machine from inputs to emitted events and requested
//! actions; the surrounding process performs the actions (spawning,
//! awaiting, rendering) and hands their outcomes back as further inputs.
//! The core guarantees that every begin event is followed by exactly one
//! matching end event on the same call id, that no two concurrently open
//! calls share a call id, that task start and task terminal events
//! alternate, and that a shutdown drains the approval gate and closes
//! every open call before the session's final event.

use vstd::prelude::*;
use crate::protocol::{
    Event,
    EventMsg,
    FileChange,
    InputItem,
    Op,
    ReviewDecision,
    call_id_of,
    is_begin,
    is_end,
    is_task_terminal,
};
use crate::execpolicy::{Policy, Verdict};
use crate::sandbox::SandboxPolicy;
use crate::gate::{
    ApprovalGate,
    PendingAction,
    Resolution,
    contains_id,
    find_action,
    list_contains_command,
};

verus! {

/// The kind of a correlated call.
#[derive(Clone, Copy, Debug, PartialEq, Eq, Structural)]
pub enum CallKind {
    Exec,
    Patch,
    Tool,
}

/// One call that has begun and not yet ended.
#[derive(Clone, Copy, Debug, PartialEq, Eq, Structural)]
pub struct OpenCall {
    pub call_id: u64,
    pub kind: CallKind,
}

/// The kind of call a begin event opens.
#[verifier::opaque]
pub open spec fn begin_kind(m: EventMsg) -> CallKind
    recommends
        is_begin(m),
{
    match m {
        EventMsg::ExecCommandBegin { .. } => CallKind::Exec,
        EventMsg::PatchApplyBegin { .. } => CallKind::Patch,
        _ => CallKind::Tool,
    }
}

/// The kind of call an end event closes.
#[verifier::opaque]
pub open spec fn end_kind(m: EventMsg) -> CallKind
    recommends
        is_end(m),
{
    match m {
        EventMsg::ExecCommandEnd { .. } => CallKind::Exec,
        EventMsg::PatchApplyEnd { .. } => CallKind::Patch,
        _ => CallKind::Tool,
    }
}

/// Whether some event of `h` ends the call `id`.
pub open spec fn has_end(h: Seq<EventMsg>, id: u64) -> bool {
    exists|i: int| 0 <= i < h.len() && #[trigger] is_end(h[i]) && call_id_of(h[i]) == id
}

/// Whether some call of `oc` is open under `id`.
pub open spec fn has_open(oc: Seq<OpenCall>, id: u64) -> bool {
    exists|i: int| 0 <= i < oc.len() && (#[trigger] oc[i]).call_id == id
}

/// Whether some event of `h` begins a call `id` of kind `kind`.
pub open spec fn has_begin_of_kind(h: Seq<EventMsg>, id: u64, kind: CallKind) -> bool {
    exists|i: int|
        0 <= i < h.len() && #[trigger] is_begin(h[i]) && call_id_of(h[i]) == id && begin_kind(h[i])
            == kind
}

/// No two begin events share a call id.
pub open spec fn begins_unique(h: Seq<EventMsg>) -> bool {
    forall|i: int, j: int|
        #![trigger is_begin(h[i]), is_begin(h[j])]
        0 <= i < j < h.len() && is_begin(h[i]) && is_begin(h[j]) ==> call_id_of(h[i])
            != call_id_of(h[j])
}

/// No two end events share a call id.
pub open spec fn ends_unique(h: Seq<EventMsg>) -> bool {
    forall|i: int, j: int|
        #![trigger is_end(h[i]), is_end(h[j])]
        0 <= i < j < h.len() && is_end(h[i]) && is_end(h[j]) ==> call_id_of(h[i]) != call_id_of(
            h[j],
        )
}

/// Every end event is preceded by a begin event of its call id and kind.
pub open spec fn ends_follow_begins(h: Seq<EventMsg>) -> bool {
    forall|j: int|
        0 <= j < h.len() && #[trigger] is_end(h[j]) ==> exists|i: int|
            0 <= i < j && #[trigger] is_begin(h[i]) && call_id_of(h[i]) == call_id_of(h[j])
                && begin_kind(h[i]) == end_kind(h[j])
}

/// Every open call was begun, with the right kind.
pub open spec fn open_calls_begun(h: Seq<EventMsg>, oc: Seq<OpenCall>) -> bool {
    forall|i: int| 0 <= i < oc.len() ==> has_begin_of_kind(h, (#[trigger] oc[i]).call_id, oc[i].kind)
}

/// No two open calls share a call id.
pub open spec fn open_ids_unique(oc: Seq<OpenCall>) -> bool {
    forall|i: int, j: int|
        #![trigger oc[i], oc[j]]
        0 <= i < j < oc.len() ==> oc[i].call_id != oc[j].call_id
}

/// Every call id that occurs in the history lies below the fresh bound.
pub open spec fn ids_fresh(h: Seq<EventMsg>, next: u64) -> bool {
    forall|k: int|
        #![trigger is_begin(h[k])]
        #![trigger is_end(h[k])]
        0 <= k < h.len() && (is_begin(h[k]) || is_end(h[k])) ==> call_id_of(h[k]) < next
}

/// Every open call id lies below the fresh bound.
pub open spec fn open_ids_fresh(oc: Seq<OpenCall>, next: u64) -> bool {
    forall|i: int| 0 <= i < oc.len() ==> (#[trigger] oc[i]).call_id < next
}

/// A begun call is open exactly as long as it has no end.
pub open spec fn open_iff_unended(h: Seq<EventMsg>, oc: Seq<OpenCall>) -> bool {
    forall|k: int|
        0 <= k < h.len() && #[trigger] is_begin(h[k]) ==> (has_open(oc, call_id_of(h[k]))
            <==> !has_end(h, call_id_of(h[k])))
}

/// The well-formedness of an event history `h` against the open-call
/// list `oc` and the fresh id `next`: begin ids are unique, end ids are
/// unique, every end follows a begin of its id and kind, every open call
/// was begun, open ids are unique, fresh ids really are fresh, and a
/// begun call is open exactly as long as it has no end.
pub open spec fn history_wf(h: Seq<EventMsg>, oc: Seq<OpenCall>, next: u64) -> bool {
    &&& begins_unique(h)
    &&& ends_unique(h)
    &&& ends_follow_begins(h)
    &&& open_calls_begun(h, oc)
    &&& open_ids_unique(oc)
    &&& ids_fresh(h, next)
    &&& open_ids_fresh(oc, next)
    &&& open_iff_unended(h, oc)
}

/// Whether task start and task terminal events alternate properly in `h`
/// when a task is open at the start exactly if `open0`; yields the task
/// state after `h`, or nothing if the alternation is broken.
pub open spec fn task_balance(h: Seq<EventMsg>, open0: bool) -> Option<bool>
    decreases h.len(),
{
    if h.len() == 0 {
        Some(open0)
    } else {
        match task_balance(h.drop_last(), open0) {
            Option::None => None,
            Option::Some(o) => {
                let m = h.last();
                if m is TaskStarted {
                    if o {
                        None
                    } else {
                        Some(true)
                    }
                } else if is_task_terminal(m) {
                    if o {
                        Some(false)
                    } else {
                        None
                    }
                } else {
                    Some(o)
                }
            },
        }
    }
}

/// The payloads of a sequence of events, in order.
pub open spec fn msgs_of(es: Seq<Event>) -> Seq<EventMsg> {
    es.map_values(|e: Event| e.msg)
}


/// How appending one event moves the task balance.
proof fn lemma_task_balance_push(h: Seq<EventMsg>, o: bool, m: EventMsg)
    requires
        task_balance(h, false) == Some(o),
    ensures
        task_balance(h.push(m), false) == (if m is TaskStarted {
            if o {
                None::<bool>
            } else {
                Some(true)
            }
        } else if is_task_terminal(m) {
            if o {
                Some(false)
            } else {
                None::<bool>
            }
        } else {
            Some(o)
        }),
{
    assert(h.push(m).drop_last() =~= h);
    assert(h.push(m).last() == m);
}

/// Appending an event whose id is not `id` leaves `has_end` alone.
proof fn lemma_push_has_end_same(h: Seq<EventMsg>, m: EventMsg, id: u64)
    requires
        !is_end(m) || call_id_of(m) != id,
    ensures
        has_end(h.push(m), id) == has_end(h, id),
{
    let h2 = h.push(m);
    if has_end(h2, id) {
        let e = choose|e: int| 0 <= e < h2.len() && #[trigger] is_end(h2[e]) && call_id_of(h2[e]) == id;
        assert(e < h.len());
        assert(h2[e] == h[e]);
    }
    if has_end(h, id) {
        let e = choose|e: int| 0 <= e < h.len() && #[trigger] is_end(h[e]) && call_id_of(h[e]) == id;
        assert(h2[e] == h[e]);
    }
}

/// Appending a non-begin event keeps begin ids unique.
proof fn lemma_push_keeps_begins_unique(h: Seq<EventMsg>, m: EventMsg)
    requires
        begins_unique(h),
        !is_begin(m),
    ensures
        begins_unique(h.push(m)),
{
    let h2 = h.push(m);
    assert forall|i: int, j: int|
        #![trigger is_begin(h2[i]), is_begin(h2[j])]
        0 <= i < j < h2.len() && is_begin(h2[i]) && is_begin(h2[j]) implies call_id_of(h2[i])
        != call_id_of(h2[j]) by {
        assert(h2[i] == h[i]);
        if j == h.len() as int {
            assert(h2[j] == m);
        }
        assert(h2[j] == h[j]);
    }
}

/// Appending a non-end event keeps end ids unique.
proof fn lemma_push_keeps_ends_unique(h: Seq<EventMsg>, m: EventMsg)
    requires
        ends_unique(h),
        !is_end(m),
    ensures
        ends_unique(h.push(m)),
{
    let h2 = h.push(m);
    assert forall|i: int, j: int|
        #![trigger is_end(h2[i]), is_end(h2[j])]
        0 <= i < j < h2.len() && is_end(h2[i]) && is_end(h2[j]) implies call_id_of(h2[i])
        != call_id_of(h2[j]) by {
        assert(h2[i] == h[i]);
        if j == h.len() as int {
            assert(h2[j] == m);
        }
        assert(h2[j] == h[j]);
    }
}

/// Appending a non-end event keeps every end preceded by its begin.
proof fn lemma_push_keeps_ends_follow(h: Seq<EventMsg>, m: EventMsg)
    requires
        ends_follow_begins(h),
        !is_end(m),
    ensures
        ends_follow_begins(h.push(m)),
{
    let h2 = h.push(m);
    assert forall|j: int| 0 <= j < h2.len() && #[trigger] is_end(h2[j]) implies exists|i: int|
        0 <= i < j && #[trigger] is_begin(h2[i]) && call_id_of(h2[i]) == call_id_of(h2[j])
            && begin_kind(h2[i]) == end_kind(h2[j]) by {
        if j == h.len() as int {
            assert(h2[j] == m);
        }
        assert(h2[j] == h[j]);
        let i = choose|i: int|
            0 <= i < j && #[trigger] is_begin(h[i]) && call_id_of(h[i]) == call_id_of(h[j])
                && begin_kind(h[i]) == end_kind(h[j]);
        assert(h2[i] == h[i]);
    }
}

/// Appending any event keeps every open call begun.
proof fn lemma_push_keeps_open_begun(h: Seq<EventMsg>, oc: Seq<OpenCall>, m: EventMsg)
    requires
        open_calls_begun(h, oc),
    ensures
        open_calls_begun(h.push(m), oc),
{
    let h2 = h.push(m);
    assert forall|i: int| 0 <= i < oc.len() implies has_begin_of_kind(
        h2,
        (#[trigger] oc[i]).call_id,
        oc[i].kind,
    ) by {
        let k = choose|k: int|
            0 <= k < h.len() && #[trigger] is_begin(h[k]) && call_id_of(h[k]) == oc[i].call_id
                && begin_kind(h[k]) == oc[i].kind;
        assert(h2[k] == h[k]);
    }
}

/// Appending an event below the fresh-id bound keeps ids fresh.
proof fn lemma_push_keeps_ids_fresh(h: Seq<EventMsg>, next: u64, next2: u64, m: EventMsg)
    requires
        ids_fresh(h, next),
        next <= next2,
        is_begin(m) || is_end(m) ==> call_id_of(m) < next2,
    ensures
        ids_fresh(h.push(m), next2),
{
    let h2 = h.push(m);
    assert forall|k: int|
        #![trigger is_begin(h2[k])]
        #![trigger is_end(h2[k])]
        0 <= k < h2.len() && (is_begin(h2[k]) || is_end(h2[k])) implies call_id_of(
        h2[k],
    ) < next2 by {
        if k < h.len() {
            assert(h2[k] == h[k]);
        } else {
            assert(h2[k] == m);
        }
    }
}

/// Appending an event that touches no call keeps "open iff unended".
proof fn lemma_push_plain_open_iff(h: Seq<EventMsg>, oc: Seq<OpenCall>, m: EventMsg)
    requires
        open_iff_unended(h, oc),
        !is_begin(m),
        !is_end(m),
    ensures
        open_iff_unended(h.push(m), oc),
{
    let h2 = h.push(m);
    assert forall|k: int| 0 <= k < h2.len() && #[trigger] is_begin(h2[k]) implies (has_open(
        oc,
        call_id_of(h2[k]),
    ) <==> !has_end(h2, call_id_of(h2[k]))) by {
        if k == h.len() as int {
            assert(h2[k] == m);
        }
        assert(h2[k] == h[k]);
        lemma_push_has_end_same(h, m, call_id_of(h[k]));
    }
}

/// Appending a begin event with the fresh id keeps begin ids unique.
proof fn lemma_push_fresh_begins_unique(h: Seq<EventMsg>, next: u64, m: EventMsg)
    requires
        begins_unique(h),
        ids_fresh(h, next),
        is_begin(m),
        call_id_of(m) == next,
    ensures
        begins_unique(h.push(m)),
{
    let h2 = h.push(m);
    assert forall|i: int, j: int|
        #![trigger is_begin(h2[i]), is_begin(h2[j])]
        0 <= i < j < h2.len() && is_begin(h2[i]) && is_begin(h2[j]) implies call_id_of(h2[i])
        != call_id_of(h2[j]) by {
        assert(h2[i] == h[i]);
        if j < h.len() {
            assert(h2[j] == h[j]);
        } else {
            assert(h2[j] == m);
            assert(call_id_of(h[i]) < next);
        }
    }
}

/// A begin event with the fresh id opens its call: all clauses at once.
proof fn lemma_history_push_begin(h: Seq<EventMsg>, oc: Seq<OpenCall>, next: u64, m: EventMsg)
    requires
        history_wf(h, oc, next),
        is_begin(m),
        call_id_of(m) == next,
        next < u64::MAX,
    ensures
        history_wf(
            h.push(m),
            oc.push(OpenCall { call_id: next, kind: begin_kind(m) }),
            (next + 1) as u64,
        ),
{
    let h2 = h.push(m);
    let oc2 = oc.push(OpenCall { call_id: next, kind: begin_kind(m) });
    assert(!is_end(m)) by {
        reveal(crate::protocol::is_begin);
        reveal(crate::protocol::is_end);
    }
    lemma_push_fresh_begins_unique(h, next, m);
    lemma_push_keeps_ends_unique(h, m);
    lemma_push_keeps_ends_follow(h, m);
    lemma_push_keeps_ids_fresh(h, next, (next + 1) as u64, m);
    assert(open_calls_begun(h2, oc2)) by {
        lemma_push_keeps_open_begun(h, oc, m);
        assert forall|i: int| 0 <= i < oc2.len() implies has_begin_of_kind(
            h2,
            (#[trigger] oc2[i]).call_id,
            oc2[i].kind,
        ) by {
            if i < oc.len() {
                assert(oc2[i] == oc[i]);
            } else {
                assert(oc2[i] == (OpenCall { call_id: next, kind: begin_kind(m) }));
                assert(#[trigger] is_begin(h2[h.len() as int]) && call_id_of(h2[h.len() as int])
                    == next && begin_kind(h2[h.len() as int]) == oc2[i].kind);
            }
        }
    }
    assert(open_ids_unique(oc2)) by {
        assert forall|i: int, j: int|
            #![trigger oc2[i], oc2[j]]
            0 <= i < j < oc2.len() implies oc2[i].call_id != oc2[j].call_id by {
            assert(oc2[i] == oc[i]);
            if j < oc.len() {
                assert(oc2[j] == oc[j]);
            } else {
                assert(oc2[j].call_id == next);
                assert(oc[i].call_id < next);
            }
        }
    }
    assert(open_ids_fresh(oc2, (next + 1) as u64)) by {
        assert forall|i: int| 0 <= i < oc2.len() implies (#[trigger] oc2[i]).call_id < next + 1 by {
            if i < oc.len() {
                assert(oc2[i] == oc[i]);
            } else {
                assert(oc2[i].call_id == next);
            }
        }
    }
    assert(open_iff_unended(h2, oc2)) by {
        assert forall|k: int| 0 <= k < h2.len() && #[trigger] is_begin(h2[k]) implies (has_open(
            oc2,
            call_id_of(h2[k]),
        ) <==> !has_end(h2, call_id_of(h2[k]))) by {
            let id = call_id_of(h2[k]);
            lemma_push_has_end_same(h, m, id);
            if k < h.len() {
                assert(h2[k] == h[k]);
                assert(id < next);
                if has_open(oc, id) {
                    let e = choose|e: int| 0 <= e < oc.len() && (#[trigger] oc[e]).call_id == id;
                    assert(oc2[e] == oc[e]);
                    assert(has_open(oc2, id));
                }
                if has_open(oc2, id) {
                    let e = choose|e: int| 0 <= e < oc2.len() && (#[trigger] oc2[e]).call_id == id;
                    assert(e < oc.len());
                    assert(oc2[e] == oc[e]);
                    assert(has_open(oc, id));
                }
            } else {
                assert(h2[k] == m);
                assert((#[trigger] oc2[oc.len() as int]).call_id == next);
                assert(has_open(oc2, next));
                assert(!has_end(h, next)) by {
                    if has_end(h, next) {
                        let e = choose|e: int|
                            0 <= e < h.len() && #[trigger] is_end(h[e]) && call_id_of(h[e]) == next;
                    }
                }
            }
        }
    }
}

/// The end event of the open call at `k` closes it: all clauses at once.
proof fn lemma_history_push_end(h: Seq<EventMsg>, oc: Seq<OpenCall>, next: u64, m: EventMsg, k: int)
    requires
        history_wf(h, oc, next),
        is_end(m),
        0 <= k < oc.len(),
        oc[k].call_id == call_id_of(m),
        oc[k].kind == end_kind(m),
    ensures
        history_wf(h.push(m), oc.remove(k), next),
{
    let h2 = h.push(m);
    let oc2 = oc.remove(k);
    let id = call_id_of(m);
    assert(!is_begin(m)) by {
        reveal(crate::protocol::is_begin);
        reveal(crate::protocol::is_end);
    }
    assert(has_open(oc, id));
    let b = choose|b: int|
        0 <= b < h.len() && #[trigger] is_begin(h[b]) && call_id_of(h[b]) == oc[k].call_id
            && begin_kind(h[b]) == oc[k].kind;
    assert(!has_end(h, id));
    oc.remove_ensures(k);
    lemma_push_keeps_begins_unique(h, m);
    assert(ends_unique(h2)) by {
        assert forall|i: int, j: int|
            #![trigger is_end(h2[i]), is_end(h2[j])]
            0 <= i < j < h2.len() && is_end(h2[i]) && is_end(h2[j]) implies call_id_of(h2[i])
            != call_id_of(h2[j]) by {
            assert(h2[i] == h[i]);
            if j < h.len() {
                assert(h2[j] == h[j]);
            } else {
                assert(h2[j] == m);
                if call_id_of(h[i]) == id {
                    assert(has_end(h, id));
                }
            }
        }
    }
    assert(ends_follow_begins(h2)) by {
        assert forall|j: int| 0 <= j < h2.len() && #[trigger] is_end(h2[j]) implies exists|i: int|
            0 <= i < j && #[trigger] is_begin(h2[i]) && call_id_of(h2[i]) == call_id_of(h2[j])
                && begin_kind(h2[i]) == end_kind(h2[j]) by {
            if j < h.len() {
                assert(h2[j] == h[j]);
                let i = choose|i: int|
                    0 <= i < j && #[trigger] is_begin(h[i]) && call_id_of(h[i]) == call_id_of(h[j])
                        && begin_kind(h[i]) == end_kind(h[j]);
                assert(h2[i] == h[i]);
            } else {
                assert(h2[j] == m);
                assert(h2[b] == h[b]);
                assert(0 <= b < j && is_begin(h2[b]) && call_id_of(h2[b]) == call_id_of(h2[j])
                    && begin_kind(h2[b]) == end_kind(h2[j]));
            }
        }
    }
    assert(open_calls_begun(h2, oc2)) by {
        assert forall|i: int| 0 <= i < oc2.len() implies has_begin_of_kind(
            h2,
            (#[trigger] oc2[i]).call_id,
            oc2[i].kind,
        ) by {
            let oi: int = if i < k {
                i
            } else {
                i + 1
            };
            assert(oc2[i] == oc[oi]);
            let w = choose|w: int|
                0 <= w < h.len() && #[trigger] is_begin(h[w]) && call_id_of(h[w]) == oc[oi].call_id
                    && begin_kind(h[w]) == oc[oi].kind;
            assert(h2[w] == h[w]);
        }
    }
    assert(open_ids_unique(oc2)) by {
        assert forall|i: int, j: int|
            #![trigger oc2[i], oc2[j]]
            0 <= i < j < oc2.len() implies oc2[i].call_id != oc2[j].call_id by {
            let oi: int = if i < k {
                i
            } else {
                i + 1
            };
            let oj: int = if j < k {
                j
            } else {
                j + 1
            };
            assert(oc2[i] == oc[oi]);
            assert(oc2[j] == oc[oj]);
            assert(oc[oi].call_id != oc[oj].call_id);
        }
    }
    lemma_push_keeps_ids_fresh(h, next, next, m);
    assert(open_ids_fresh(oc2, next)) by {
        assert forall|i: int| 0 <= i < oc2.len() implies (#[trigger] oc2[i]).call_id < next by {
            let oi: int = if i < k {
                i
            } else {
                i + 1
            };
            assert(oc2[i] == oc[oi]);
        }
    }
    assert(open_iff_unended(h2, oc2)) by {
        assert forall|w: int| 0 <= w < h2.len() && #[trigger] is_begin(h2[w]) implies (has_open(
            oc2,
            call_id_of(h2[w]),
        ) <==> !has_end(h2, call_id_of(h2[w]))) by {
            assert(h2[w] == h[w]);
            let wid = call_id_of(h[w]);
            if wid == id {
                assert(is_end(h2[h.len() as int]) && call_id_of(h2[h.len() as int]) == wid);
                assert(has_end(h2, wid));
                if has_open(oc2, wid) {
                    let e = choose|e: int| 0 <= e < oc2.len() && (#[trigger] oc2[e]).call_id == wid;
                    let oe: int = if e < k {
                        e
                    } else {
                        e + 1
                    };
                    assert(oc2[e] == oc[oe]);
                    assert(oc[oe].call_id != oc[k].call_id);
                }
            } else {
                lemma_push_has_end_same(h, m, wid);
                if has_open(oc2, wid) {
                    let e = choose|e: int| 0 <= e < oc2.len() && (#[trigger] oc2[e]).call_id == wid;
                    let oe: int = if e < k {
                        e
                    } else {
                        e + 1
                    };
                    assert(oc2[e] == oc[oe]);
                    assert(has_open(oc, wid));
                }
                if has_open(oc, wid) {
                    let e = choose|e: int| 0 <= e < oc.len() && (#[trigger] oc[e]).call_id == wid;
                    assert(e != k);
                    let ne: int = if e < k {
                        e
                    } else {
                        e - 1
                    };
                    assert(oc2[ne] == oc[e]);
                    assert(has_open(oc2, wid));
                }
            }
        }
    }
}

/// Begin/end pairing: in a well-formed history with no call left open,
/// every begin event is followed by exactly one end event of its call id,
/// strictly later; begin ids never repeat, so no two concurrently open
/// calls ever shared a call id.
pub proof fn lemma_begin_end_pairing(h: Seq<EventMsg>, oc: Seq<OpenCall>, next: u64, i: int)
    requires
        history_wf(h, oc, next),
        oc.len() == 0,
        0 <= i < h.len(),
        is_begin(h[i]),
    ensures
        exists|j: int|
            i < j < h.len() && #[trigger] is_end(h[j]) && call_id_of(h[j]) == call_id_of(h[i]),
        forall|j1: int, j2: int|
            #![trigger is_end(h[j1]), is_end(h[j2])]
            0 <= j1 < h.len() && 0 <= j2 < h.len() && is_end(h[j1]) && is_end(h[j2]) && call_id_of(
                h[j1],
            ) == call_id_of(h[i]) && call_id_of(h[j2]) == call_id_of(h[i]) ==> j1 == j2,
{
    let id = call_id_of(h[i]);
    assert(!has_open(oc, id));
    assert(has_end(h, id));
    let j = choose|j: int| 0 <= j < h.len() && #[trigger] is_end(h[j]) && call_id_of(h[j]) == id;
    let b = choose|b: int|
        0 <= b < j && #[trigger] is_begin(h[b]) && call_id_of(h[b]) == call_id_of(h[j])
            && begin_kind(h[b]) == end_kind(h[j]);
    assert(b == i);
    assert(i < j < h.len() && is_end(h[j]) && call_id_of(h[j]) == call_id_of(h[i]));
}


/// Whether two command argv vectors hold the same strings.
pub open spec fn same_command(a: Seq<String>, b: Seq<String>) -> bool {
    a.len() == b.len() && (forall|i: int| 0 <= i < a.len() ==> #[trigger] a[i]@ == b[i]@)
}

/// What `is_begin`, `is_end`, `call_id_of`, `begin_kind` and `end_kind`
/// say of one concrete event.
proof fn lemma_msg_class(m: EventMsg)
    ensures
        is_begin(m) == (m is ExecCommandBegin || m is PatchApplyBegin || m is McpToolCallBegin),
        is_end(m) == (m is ExecCommandEnd || m is PatchApplyEnd || m is McpToolCallEnd),
        m is ExecCommandBegin ==> call_id_of(m) == m->ExecCommandBegin_call_id && begin_kind(m)
            == CallKind::Exec,
        m is PatchApplyBegin ==> call_id_of(m) == m->PatchApplyBegin_call_id && begin_kind(m)
            == CallKind::Patch,
        m is McpToolCallBegin ==> call_id_of(m) == m->McpToolCallBegin_call_id && begin_kind(m)
            == CallKind::Tool,
        m is ExecCommandEnd ==> call_id_of(m) == m->ExecCommandEnd_call_id && end_kind(m)
            == CallKind::Exec,
        m is PatchApplyEnd ==> call_id_of(m) == m->PatchApplyEnd_call_id && end_kind(m)
            == CallKind::Patch,
        m is McpToolCallEnd ==> call_id_of(m) == m->McpToolCallEnd_call_id && end_kind(m)
            == CallKind::Tool,
{
    reveal(crate::protocol::is_begin);
    reveal(crate::protocol::is_end);
    reveal(crate::protocol::call_id_of);
    reveal(begin_kind);
    reveal(end_kind);
}

/// All history clauses survive an event that touches no call.
proof fn lemma_history_push_plain(h: Seq<EventMsg>, oc: Seq<OpenCall>, next: u64, m: EventMsg)
    requires
        history_wf(h, oc, next),
        !is_begin(m),
        !is_end(m),
    ensures
        history_wf(h.push(m), oc, next),
{
    lemma_push_keeps_begins_unique(h, m);
    lemma_push_keeps_ends_unique(h, m);
    lemma_push_keeps_ends_follow(h, m);
    lemma_push_keeps_open_begun(h, oc, m);
    lemma_push_keeps_ids_fresh(h, next, next, m);
    lemma_push_plain_open_iff(h, oc, m);
}

/// An action the session core asks its surrounding process to perform.
#[derive(Clone, Debug, PartialEq, Eq)]
pub enum SessionAction {
    /// Spawn the command under the confinement policy.
    StartExec { call_id: u64, command: Vec<String>, policy: SandboxPolicy },
    /// Apply the patch.
    StartPatch { call_id: u64, changes: Vec<FileChange> },
}

/// One agent session's orchestration state.
pub struct SessionCore {
    pub policy: Policy,
    pub sandbox: SandboxPolicy,
    pub gate: ApprovalGate,
    pub next_id: u64,
    pub open_calls: Vec<OpenCall>,
    pub task_open: bool,
    pub shut_down: bool,
    /// Every event payload the session has emitted, in order.
    pub history: Ghost<Seq<EventMsg>>,
}

impl SessionCore {
    /// The session invariant: the emitted history is well formed against
    /// the open calls and the fresh id, task events alternate, the approval
    /// state is well formed with ids below the fresh bound, and a shut-down session
    /// holds no open call, no pending request and no open task.
    pub open spec fn wf(self) -> bool {
        &&& history_wf(self.history@, self.open_calls@, self.next_id)
        &&& task_balance(self.history@, false) == Some(self.task_open)
        &&& self.gate.wf()
        &&& (forall|i: int|
            0 <= i < self.gate.pending@.len() ==> (#[trigger] self.gate.pending@[i]).id
                < self.next_id)
        &&& (self.shut_down ==> self.open_calls@.len() == 0 && self.gate.pending@.len() == 0
            && !self.task_open)
    }

    /// Appends an event that neither opens nor closes a call nor moves the
    /// task state.
    fn emit_plain(&mut self, events: &mut Vec<Event>, id: Option<u64>, msg: EventMsg)
        requires
            old(self).wf(),
            !is_begin(msg),
            !is_end(msg),
            !(msg is TaskStarted),
            !is_task_terminal(msg),
        ensures
            final(self).wf(),
            final(self).history@ == old(self).history@.push(msg),
            final(events)@ == old(events)@.push(Event { id, msg }),
            final(self).policy == old(self).policy,
            final(self).sandbox == old(self).sandbox,
            final(self).gate == old(self).gate,
            final(self).next_id == old(self).next_id,
            final(self).open_calls@ == old(self).open_calls@,
            final(self).task_open == old(self).task_open,
            final(self).shut_down == old(self).shut_down,
    {
        proof {
            lemma_history_push_plain(self.history@, self.open_calls@, self.next_id, msg);
            lemma_task_balance_push(self.history@, self.task_open, msg);
        }
        let ghost m = msg;
        self.history = Ghost(self.history@.push(m));
        events.push(Event { id, msg });
    }

    /// Appends a task start or task terminal event and moves the task
    /// state with it.
    fn emit_task(&mut self, events: &mut Vec<Event>, id: Option<u64>, msg: EventMsg)
        requires
            old(self).wf(),
            !old(self).shut_down,
            msg is TaskStarted || is_task_terminal(msg),
            msg is TaskStarted ==> !old(self).task_open,
            is_task_terminal(msg) ==> old(self).task_open,
        ensures
            final(self).wf(),
            final(self).history@ == old(self).history@.push(msg),
            final(events)@ == old(events)@.push(Event { id, msg }),
            final(self).policy == old(self).policy,
            final(self).sandbox == old(self).sandbox,
            final(self).gate == old(self).gate,
            final(self).next_id == old(self).next_id,
            final(self).open_calls@ == old(self).open_calls@,
            final(self).task_open == (msg is TaskStarted),
            final(self).shut_down == old(self).shut_down,
    {
        proof {
            lemma_msg_class(msg);
            lemma_history_push_plain(self.history@, self.open_calls@, self.next_id, msg);
            lemma_task_balance_push(self.history@, self.task_open, msg);
        }
        self.task_open = matches!(msg, EventMsg::TaskStarted);
        let ghost m = msg;
        self.history = Ghost(self.history@.push(m));
        events.push(Event { id, msg });
    }

    /// Appends a begin event under the fresh call id and opens the call.
    fn emit_begin(&mut self, events: &mut Vec<Event>, id: Option<u64>, msg: EventMsg, kind: CallKind)
        requires
            old(self).wf(),
            !old(self).shut_down,
            is_begin(msg),
            call_id_of(msg) == old(self).next_id,
            begin_kind(msg) == kind,
            old(self).next_id < u64::MAX,
        ensures
            final(self).wf(),
            final(self).history@ == old(self).history@.push(msg),
            final(events)@ == old(events)@.push(Event { id, msg }),
            final(self).policy == old(self).policy,
            final(self).sandbox == old(self).sandbox,
            final(self).gate == old(self).gate,
            final(self).next_id == old(self).next_id + 1,
            final(self).open_calls@ == old(self).open_calls@.push(
                OpenCall { call_id: old(self).next_id, kind },
            ),
            final(self).task_open == old(self).task_open,
            final(self).shut_down == old(self).shut_down,
    {
        proof {
            lemma_msg_class(msg);
            lemma_history_push_begin(self.history@, self.open_calls@, self.next_id, msg);
            lemma_task_balance_push(self.history@, self.task_open, msg);
            assert forall|i: int|
                0 <= i < self.gate.pending@.len() implies (#[trigger] self.gate.pending@[i]).id
                < self.next_id + 1 by {}
        }
        self.open_calls.push(OpenCall { call_id: self.next_id, kind });
        self.next_id = self.next_id + 1;
        let ghost m = msg;
        self.history = Ghost(self.history@.push(m));
        events.push(Event { id, msg });
    }

    /// Appends the end event of the open call at index `k` and closes it.
    fn emit_end(&mut self, events: &mut Vec<Event>, msg: EventMsg, k: usize)
        requires
            old(self).wf(),
            !old(self).shut_down,
            is_end(msg),
            k < old(self).open_calls@.len(),
            old(self).open_calls@[k as int].call_id == call_id_of(msg),
            old(self).open_calls@[k as int].kind == end_kind(msg),
        ensures
            final(self).wf(),
            final(self).history@ == old(self).history@.push(msg),
            final(events)@ == old(events)@.push(Event { id: None, msg }),
            final(self).policy == old(self).policy,
            final(self).sandbox == old(self).sandbox,
            final(self).gate == old(self).gate,
            final(self).next_id == old(self).next_id,
            final(self).open_calls@ == old(self).open_calls@.remove(k as int),
            final(self).task_open == old(self).task_open,
            final(self).shut_down == old(self).shut_down,
    {
        proof {
            lemma_msg_class(msg);
            lemma_history_push_end(self.history@, self.open_calls@, self.next_id, msg, k as int);
            lemma_task_balance_push(self.history@, self.task_open, msg);
        }
        self.open_calls.remove(k);
        let ghost m = msg;
        self.history = Ghost(self.history@.push(m));
        events.push(Event { id: None, msg });
    }
}

/// Copies a list of file changes, string by string.
fn copy_changes(c: &Vec<FileChange>) -> (r: Vec<FileChange>)
    ensures
        r@ == c@,
{
    let mut r: Vec<FileChange> = Vec::new();
    let mut i: usize = 0;
    while i < c.len()
        invariant
            i <= c@.len(),
            r@.len() == i,
            forall|j: int| 0 <= j < i ==> #[trigger] r@[j] == c@[j],
        decreases c@.len() - i,
    {
        let fc = match &c[i] {
            FileChange::Add { path } => FileChange::Add { path: path.clone() },
            FileChange::Delete { path } => FileChange::Delete { path: path.clone() },
            FileChange::Update { path } => FileChange::Update { path: path.clone() },
        };
        r.push(fc);
        i = i + 1;
    }
    proof {
        assert(r@ =~= c@);
    }
    r
}

impl SessionCore {
    /// Whether an exec proposal must pass through the approval gate: its
    /// verdict is not `Safe`, the session allow list does not hold it, and
    /// the session is not running full-auto (full-auto never prompts, but
    /// a `Forbidden` verdict is gated even there).
    pub open spec fn exec_gated(self, command: Seq<String>) -> bool {
        &&& self.policy.classify_spec(command) != Verdict::Safe
        &&& !list_contains_command(self.gate.session_approved@, command)
        &&& !(self.sandbox == SandboxPolicy::FullAuto && self.policy.classify_spec(command)
            != Verdict::Forbidden)
    }

    /// Starts one session: the policy and sandbox are fixed for its whole
    /// life, and `SessionConfigured` is the first event.
    pub fn new(policy: Policy, sandbox: SandboxPolicy, model: String) -> (r: (
        SessionCore,
        Vec<Event>,
    ))
        ensures
            r.0.wf(),
            !r.0.shut_down,
            !r.0.task_open,
            r.0.gate.pending@.len() == 0,
            r.0.gate.session_approved@.len() == 0,
            r.0.open_calls@.len() == 0,
            r.0.next_id == 1,
            r.0.policy == policy,
            r.0.sandbox == sandbox,
            r.1@.len() == 1,
            r.1@[0] == (Event { id: None, msg: EventMsg::SessionConfigured { model } }),
            r.0.history@ == msgs_of(r.1@),
    {
        let mut core = SessionCore {
            policy,
            sandbox,
            gate: ApprovalGate::new(),
            next_id: 1,
            open_calls: Vec::new(),
            task_open: false,
            shut_down: false,
            history: Ghost(Seq::empty()),
        };
        let mut events: Vec<Event> = Vec::new();
        let msg = EventMsg::SessionConfigured { model };
        proof {
            lemma_msg_class(msg);
        }
        core.emit_plain(&mut events, None, msg);
        proof {
            assert(core.history@ =~= msgs_of(events@));
        }
        (core, events)
    }

    /// A user input opens a unit of work if none is open; empty input is
    /// a no-op, and a shut-down session accepts nothing.
    pub fn on_user_input(&mut self, items: Vec<InputItem>) -> (events: Vec<Event>)
        requires
            old(self).wf(),
        ensures
            final(self).wf(),
            final(self).history@ == old(self).history@ + msgs_of(events@),
            final(self).gate == old(self).gate,
            final(self).open_calls@ == old(self).open_calls@,
            final(self).next_id == old(self).next_id,
            final(self).policy == old(self).policy,
            final(self).sandbox == old(self).sandbox,
            final(self).shut_down == old(self).shut_down,
            old(self).shut_down || items@.len() == 0 ==> *final(self) == *old(self) && events@.len()
                == 0,
            !old(self).shut_down && items@.len() > 0 && !old(self).task_open ==> events@.len() == 1
                && events@[0] == (Event { id: None, msg: EventMsg::TaskStarted })
                && final(self).task_open,
            !old(self).shut_down && items@.len() > 0 && old(self).task_open ==> *final(self)
                == *old(self) && events@.len() == 0,
    {
        let mut events: Vec<Event> = Vec::new();
        if self.shut_down || items.len() == 0 {
            proof {
                assert(self.history@ =~= self.history@ + msgs_of(events@));
            }
            return events;
        }
        if !self.task_open {
            self.emit_task(&mut events, None, EventMsg::TaskStarted);
        }
        proof {
            assert(self.history@ =~= old(self).history@ + msgs_of(events@));
        }
        events
    }

    /// Model output is forwarded as an informational event.
    pub fn on_agent_message(&mut self, message: String) -> (events: Vec<Event>)
        requires
            old(self).wf(),
        ensures
            final(self).wf(),
            final(self).history@ == old(self).history@ + msgs_of(events@),
            old(self).shut_down ==> *final(self) == *old(self) && events@.len() == 0,
            !old(self).shut_down ==> events@.len() == 1 && events@[0] == (Event {
                id: None,
                msg: EventMsg::AgentMessage { message },
            }),
    {
        let mut events: Vec<Event> = Vec::new();
        if self.shut_down {
            proof {
                assert(self.history@ =~= self.history@ + msgs_of(events@));
            }
            return events;
        }
        let msg = EventMsg::AgentMessage { message };
        proof {
            lemma_msg_class(msg);
        }
        self.emit_plain(&mut events, None, msg);
        proof {
            assert(self.history@ =~= old(self).history@ + msgs_of(events@));
        }
        events
    }

    /// Model reasoning is forwarded as an informational event.
    pub fn on_agent_reasoning(&mut self, text: String) -> (events: Vec<Event>)
        requires
            old(self).wf(),
        ensures
            final(self).wf(),
            final(self).history@ == old(self).history@ + msgs_of(events@),
            old(self).shut_down ==> *final(self) == *old(self) && events@.len() == 0,
            !old(self).shut_down ==> events@.len() == 1 && events@[0] == (Event {
                id: None,
                msg: EventMsg::AgentReasoning { text },
            }),
    {
        let mut events: Vec<Event> = Vec::new();
        if self.shut_down {
            proof {
                assert(self.history@ =~= self.history@ + msgs_of(events@));
            }
            return events;
        }
        let msg = EventMsg::AgentReasoning { text };
        proof {
            lemma_msg_class(msg);
        }
        self.emit_plain(&mut events, None, msg);
        proof {
            assert(self.history@ =~= old(self).history@ + msgs_of(events@));
        }
        events
    }

    /// The agent reports its unit of work done: the open task closes; a
    /// completion with no open task is a protocol anomaly.
    pub fn on_task_complete(&mut self) -> (events: Vec<Event>)
        requires
            old(self).wf(),
        ensures
            final(self).wf(),
            final(self).history@ == old(self).history@ + msgs_of(events@),
            old(self).shut_down ==> *final(self) == *old(self) && events@.len() == 0,
            !old(self).shut_down && old(self).task_open ==> events@.len() == 1 && events@[0]
                == (Event { id: None, msg: EventMsg::TaskComplete }) && !final(self).task_open,
            !old(self).shut_down && !old(self).task_open ==> events@.len() == 1
                && events@[0].msg is BackgroundEvent && !final(self).task_open,
    {
        let mut events: Vec<Event> = Vec::new();
        if self.shut_down {
            proof {
                assert(self.history@ =~= self.history@ + msgs_of(events@));
            }
            return events;
        }
        if self.task_open {
            self.emit_task(&mut events, None, EventMsg::TaskComplete);
        } else {
            let msg = EventMsg::BackgroundEvent {
                message: "task completion with no open task".to_owned(),
            };
            proof {
                lemma_msg_class(msg);
            }
            self.emit_plain(&mut events, None, msg);
        }
        proof {
            assert(self.history@ =~= old(self).history@ + msgs_of(events@));
        }
        events
    }

    /// A task-level fault: reported as `Error`, which still closes the
    /// task, so a front end never waits forever.
    pub fn on_task_error(&mut self, message: String) -> (events: Vec<Event>)
        requires
            old(self).wf(),
        ensures
            final(self).wf(),
            final(self).history@ == old(self).history@ + msgs_of(events@),
            old(self).shut_down ==> *final(self) == *old(self) && events@.len() == 0,
            !old(self).shut_down && old(self).task_open ==> events@.len() == 1 && events@[0]
                == (Event { id: None, msg: EventMsg::Error { message } }) && !final(self).task_open,
            !old(self).shut_down && !old(self).task_open ==> events@.len() == 1
                && events@[0].msg is BackgroundEvent && !final(self).task_open,
    {
        let mut events: Vec<Event> = Vec::new();
        if self.shut_down {
            proof {
                assert(self.history@ =~= self.history@ + msgs_of(events@));
            }
            return events;
        }
        if self.task_open {
            self.emit_task(&mut events, None, EventMsg::Error { message });
        } else {
            let msg = EventMsg::BackgroundEvent { message };
            proof {
                lemma_msg_class(msg);
            }
            self.emit_plain(&mut events, None, msg);
        }
        proof {
            assert(self.history@ =~= old(self).history@ + msgs_of(events@));
        }
        events
    }
}

/// Freshness clauses are monotone in the bound.
proof fn lemma_fresh_mono(h: Seq<EventMsg>, oc: Seq<OpenCall>, next: u64, next2: u64)
    requires
        history_wf(h, oc, next),
        next <= next2,
    ensures
        history_wf(h, oc, next2),
{
    assert forall|k: int|
        #![trigger is_begin(h[k])]
        #![trigger is_end(h[k])]
        0 <= k < h.len() && (is_begin(h[k]) || is_end(h[k])) implies call_id_of(h[k]) < next2 by {}
    assert forall|i: int| 0 <= i < oc.len() implies (#[trigger] oc[i]).call_id < next2 by {}
}

impl SessionCore {
    /// Finds the open call carrying this id and kind, if any.
    fn find_open_index(&self, call_id: u64, kind: CallKind) -> (r: Option<usize>)
        ensures
            r matches Some(k) ==> k < self.open_calls@.len() && self.open_calls@[k as int]
                == (OpenCall { call_id, kind }),
            r is None ==> forall|j: int|
                0 <= j < self.open_calls@.len() ==> #[trigger] self.open_calls@[j] != (OpenCall {
                    call_id,
                    kind,
                }),
    {
        let mut k: usize = 0;
        while k < self.open_calls.len()
            invariant
                k <= self.open_calls@.len(),
                forall|j: int|
                    0 <= j < k ==> #[trigger] self.open_calls@[j] != (OpenCall { call_id, kind }),
            decreases self.open_calls@.len() - k,
        {
            if self.open_calls[k] == (OpenCall { call_id, kind }) {
                return Some(k);
            }
            k = k + 1;
        }
        None
    }

    /// An exec proposal from the agent: classified, auto-approved where
    /// policy, allow list or full-auto say so, otherwise suspended behind
    /// a pending approval request.
    pub fn on_exec_proposal(&mut self, command: Vec<String>, cwd: String, reason: String) -> (r: (
        Vec<Event>,
        Vec<SessionAction>,
    ))
        requires
            old(self).wf(),
            old(self).next_id < u64::MAX,
        ensures
            final(self).wf(),
            final(self).history@ == old(self).history@ + msgs_of(r.0@),
            final(self).policy == old(self).policy,
            final(self).sandbox == old(self).sandbox,
            final(self).task_open == old(self).task_open,
            final(self).shut_down == old(self).shut_down,
            final(self).gate.session_approved@ == old(self).gate.session_approved@,
            old(self).shut_down ==> *final(self) == *old(self) && r.0@.len() == 0 && r.1@.len()
                == 0,
            !old(self).shut_down && !old(self).exec_gated(command@) ==> {
                &&& r.0@.len() == 1
                &&& r.0@[0] == (Event {
                    id: None,
                    msg: EventMsg::ExecCommandBegin { call_id: old(self).next_id, command },
                })
                &&& r.1@.len() == 1
                &&& (r.1@[0] matches SessionAction::StartExec { call_id, command: c2, policy }
                    && call_id == old(self).next_id && same_command(c2@, command@) && policy == old(
                    self,
                ).sandbox)
                &&& final(self).gate == old(self).gate
                &&& final(self).open_calls@ == old(self).open_calls@.push(
                    OpenCall { call_id: old(self).next_id, kind: CallKind::Exec },
                )
                &&& final(self).next_id == old(self).next_id + 1
            },
            !old(self).shut_down && old(self).exec_gated(command@) ==> {
                &&& r.0@.len() == 1
                &&& r.0@[0] == (Event {
                    id: Some(old(self).next_id),
                    msg: EventMsg::ExecApprovalRequest { command, cwd, reason },
                })
                &&& r.1@.len() == 0
                &&& final(self).open_calls@ == old(self).open_calls@
                &&& final(self).gate.pending@.len() == old(self).gate.pending@.len() + 1
                &&& (final(self).gate.pending@.last().id == old(self).next_id)
                &&& (final(self).gate.pending@.last().action matches PendingAction::Exec {
                    command: c,
                } && same_command(c@, command@))
                &&& final(self).gate.session_approved@ == old(self).gate.session_approved@
                &&& final(self).next_id == old(self).next_id + 1
            },
    {
        let mut events: Vec<Event> = Vec::new();
        let mut actions: Vec<SessionAction> = Vec::new();
        if self.shut_down {
            proof {
                assert(self.history@ =~= self.history@ + msgs_of(events@));
            }
            return (events, actions);
        }
        let verdict = self.policy.classify(&command);
        let allowed = self.gate.is_session_approved(&command);
        let auto = matches!(verdict, Verdict::Safe) || allowed || (matches!(
            self.sandbox,
            SandboxPolicy::FullAuto,
        ) && !matches!(verdict, Verdict::Forbidden));
        if auto {
            let call_id = self.next_id;
            let c2 = crate::gate::copy_command(&command);
            let msg = EventMsg::ExecCommandBegin { call_id, command };
            proof {
                lemma_msg_class(msg);
            }
            self.emit_begin(&mut events, None, msg, CallKind::Exec);
            actions.push(SessionAction::StartExec { call_id, command: c2, policy: self.sandbox });
            proof {
                assert(self.history@ =~= old(self).history@ + msgs_of(events@));
            }
        } else {
            let id = self.next_id;
            self.next_id = self.next_id + 1;
            proof {
                lemma_fresh_mono(self.history@, self.open_calls@, id, self.next_id);
                if contains_id(self.gate.pending@, id) {
                    let w = choose|w: int|
                        0 <= w < self.gate.pending@.len() && self.gate.pending@[w].id == id;
                    assert((#[trigger] self.gate.pending@[w]).id < id);
                }
            }
            let c2 = crate::gate::copy_command(&command);
            self.gate.create(id, PendingAction::Exec { command: c2 });
            proof {
                assert forall|i: int|
                    0 <= i < self.gate.pending@.len() implies (#[trigger] self.gate.pending@[i]).id
                    < self.next_id by {
                    if i < self.gate.pending@.len() - 1 {
                        assert(self.gate.pending@[i] == old(self).gate.pending@[i]);
                    }
                }
            }
            let msg = EventMsg::ExecApprovalRequest { command, cwd, reason };
            proof {
                lemma_msg_class(msg);
            }
            self.emit_plain(&mut events, Some(id), msg);
            proof {
                assert(self.history@ =~= old(self).history@ + msgs_of(events@));
            }
        }
        (events, actions)
    }

    /// A patch proposal from the agent: auto-approved only under
    /// full-auto, otherwise suspended behind a pending approval request.
    pub fn on_patch_proposal(
        &mut self,
        changes: Vec<FileChange>,
        reason: String,
        grant_root: Option<String>,
    ) -> (r: (Vec<Event>, Vec<SessionAction>))
        requires
            old(self).wf(),
            old(self).next_id < u64::MAX,
        ensures
            final(self).wf(),
            final(self).history@ == old(self).history@ + msgs_of(r.0@),
            final(self).policy == old(self).policy,
            final(self).sandbox == old(self).sandbox,
            final(self).task_open == old(self).task_open,
            final(self).shut_down == old(self).shut_down,
            final(self).gate.session_approved@ == old(self).gate.session_approved@,
            !old(self).shut_down ==> final(self).next_id == old(self).next_id + 1,
            old(self).shut_down ==> *final(self) == *old(self) && r.0@.len() == 0 && r.1@.len()
                == 0,
            !old(self).shut_down && old(self).sandbox == SandboxPolicy::FullAuto ==> {
                &&& r.0@.len() == 1
                &&& r.0@[0] == (Event {
                    id: None,
                    msg: EventMsg::PatchApplyBegin {
                        call_id: old(self).next_id,
                        auto_approved: true,
                        changes,
                    },
                })
                &&& r.1@.len() == 1
                &&& (r.1@[0] matches SessionAction::StartPatch { call_id, changes: c2 } && call_id
                    == old(self).next_id && c2@ == changes@)
                &&& final(self).gate == old(self).gate
                &&& final(self).open_calls@ == old(self).open_calls@.push(
                    OpenCall { call_id: old(self).next_id, kind: CallKind::Patch },
                )
            },
            !old(self).shut_down && old(self).sandbox != SandboxPolicy::FullAuto ==> {
                &&& r.0@.len() == 1
                &&& r.0@[0] == (Event {
                    id: Some(old(self).next_id),
                    msg: EventMsg::ApplyPatchApprovalRequest { changes, reason, grant_root },
                })
                &&& r.1@.len() == 0
                &&& final(self).open_calls@ == old(self).open_calls@
                &&& final(self).gate.pending@.len() == old(self).gate.pending@.len() + 1
                &&& (final(self).gate.pending@.last().id == old(self).next_id)
                &&& (final(self).gate.pending@.last().action matches PendingAction::Patch {
                    changes: c,
                } && c@ == changes@)
                &&& final(self).gate.session_approved@ == old(self).gate.session_approved@
            },
    {
        let mut events: Vec<Event> = Vec::new();
        let mut actions: Vec<SessionAction> = Vec::new();
        if self.shut_down {
            proof {
                assert(self.history@ =~= self.history@ + msgs_of(events@));
            }
            return (events, actions);
        }
        if matches!(self.sandbox, SandboxPolicy::FullAuto) {
            let call_id = self.next_id;
            let c2 = copy_changes(&changes);
            let msg = EventMsg::PatchApplyBegin { call_id, auto_approved: true, changes };
            proof {
                lemma_msg_class(msg);
            }
            self.emit_begin(&mut events, None, msg, CallKind::Patch);
            actions.push(SessionAction::StartPatch { call_id, changes: c2 });
            proof {
                assert(self.history@ =~= old(self).history@ + msgs_of(events@));
            }
        } else {
            let id = self.next_id;
            self.next_id = self.next_id + 1;
            proof {
                lemma_fresh_mono(self.history@, self.open_calls@, id, self.next_id);
                if contains_id(self.gate.pending@, id) {
                    let w = choose|w: int|
                        0 <= w < self.gate.pending@.len() && self.gate.pending@[w].id == id;
                    assert((#[trigger] self.gate.pending@[w]).id < id);
                }
            }
            let c2 = copy_changes(&changes);
            self.gate.create(id, PendingAction::Patch { changes: c2 });
            proof {
                assert forall|i: int|
                    0 <= i < self.gate.pending@.len() implies (#[trigger] self.gate.pending@[i]).id
                    < self.next_id by {
                    if i < self.gate.pending@.len() - 1 {
                        assert(self.gate.pending@[i] == old(self).gate.pending@[i]);
                    }
                }
            }
            let msg = EventMsg::ApplyPatchApprovalRequest { changes, reason, grant_root };
            proof {
                lemma_msg_class(msg);
            }
            self.emit_plain(&mut events, Some(id), msg);
            proof {
                assert(self.history@ =~= old(self).history@ + msgs_of(events@));
            }
        }
        (events, actions)
    }
}

impl SessionCore {
    /// A user decision arrives.  A matching pending request resolves
    /// exactly once: approval begins the gated action, denial closes the
    /// task without beginning anything, and a decision for an unknown id
    /// is reported as an anomaly and changes nothing else.  A second
    /// decision for the same id therefore finds no request and re-triggers
    /// nothing.
    #[verifier::rlimit(100)]
    pub fn on_approval_decision(&mut self, id: u64, decision: ReviewDecision) -> (r: (
        Vec<Event>,
        Vec<SessionAction>,
    ))
        requires
            old(self).wf(),
            old(self).next_id < u64::MAX,
        ensures
            final(self).wf(),
            final(self).history@ == old(self).history@ + msgs_of(r.0@),
            !contains_id(final(self).gate.pending@, id),
            final(self).policy == old(self).policy,
            final(self).sandbox == old(self).sandbox,
            final(self).shut_down == old(self).shut_down,
            forall|k: int|
                0 <= k < old(self).gate.session_approved@.len()
                    ==> #[trigger] final(self).gate.session_approved@[k]
                    == old(self).gate.session_approved@[k],
            !old(self).shut_down ==> (match find_action(old(self).gate.pending@, id) {
                Option::Some(PendingAction::Exec { command }) => {
                    if decision == ReviewDecision::ApproveForSession {
                        &&& final(self).gate.session_approved@.len() == old(
                            self,
                        ).gate.session_approved@.len() + 1
                        &&& final(self).gate.session_approved@.last()@ == command@
                    } else {
                        final(self).gate.session_approved@ == old(self).gate.session_approved@
                    }
                },
                _ => final(self).gate.session_approved@ == old(self).gate.session_approved@,
            }),
            old(self).shut_down ==> *final(self) == *old(self) && r.0@.len() == 0 && r.1@.len()
                == 0,
            !old(self).shut_down && find_action(old(self).gate.pending@, id) is None ==> {
                &&& r.0@.len() == 1
                &&& r.0@[0].msg is BackgroundEvent
                &&& r.1@.len() == 0
                &&& final(self).gate.pending@ == old(self).gate.pending@
                &&& final(self).gate.session_approved@ == old(self).gate.session_approved@
                &&& final(self).open_calls@ == old(self).open_calls@
                &&& final(self).task_open == old(self).task_open
                &&& final(self).next_id == old(self).next_id
            },
            !old(self).shut_down && find_action(old(self).gate.pending@, id) is Some && decision
                == ReviewDecision::Deny ==> {
                &&& r.1@.len() == 0
                &&& r.0@.len() == 1
                &&& (old(self).task_open ==> r.0@[0].msg is Error)
                &&& (!old(self).task_open ==> r.0@[0].msg is BackgroundEvent)
                &&& !final(self).task_open
                &&& final(self).open_calls@ == old(self).open_calls@
                &&& final(self).next_id == old(self).next_id
                &&& !is_begin(r.0@[0].msg)
            },
            !old(self).shut_down && decision != ReviewDecision::Deny ==> (find_action(
                old(self).gate.pending@,
                id,
            ) matches Some(PendingAction::Exec { command }) ==> {
                &&& r.0@.len() == 1
                &&& r.0@[0] == (Event {
                    id: None,
                    msg: EventMsg::ExecCommandBegin { call_id: old(self).next_id, command },
                })
                &&& r.1@.len() == 1
                &&& (r.1@[0] matches SessionAction::StartExec { call_id, command: c2, policy }
                    && call_id == old(self).next_id && same_command(c2@, command@) && policy == old(
                    self,
                ).sandbox)
                &&& final(self).next_id == old(self).next_id + 1
            }),
            !old(self).shut_down && decision != ReviewDecision::Deny ==> (find_action(
                old(self).gate.pending@,
                id,
            ) matches Some(PendingAction::Patch { changes }) ==> {
                &&& r.0@.len() == 1
                &&& r.0@[0] == (Event {
                    id: None,
                    msg: EventMsg::PatchApplyBegin {
                        call_id: old(self).next_id,
                        auto_approved: false,
                        changes,
                    },
                })
                &&& r.1@.len() == 1
                &&& (r.1@[0] matches SessionAction::StartPatch { call_id, changes: c2 } && call_id
                    == old(self).next_id && c2@ == changes@)
                &&& final(self).next_id == old(self).next_id + 1
            }),
    {
        let mut events: Vec<Event> = Vec::new();
        let mut actions: Vec<SessionAction> = Vec::new();
        if self.shut_down {
            proof {
                assert(self.history@ =~= self.history@ + msgs_of(events@));
                assert(!contains_id(self.gate.pending@, id));
            }
            return (events, actions);
        }
        let resolution = self.gate.resolve(id, decision);
        proof {
            crate::gate::lemma_resolution_idempotent(old(self).gate.pending@, id);
            if find_action(old(self).gate.pending@, id) is Some {
                crate::gate::lemma_without_id_elems(old(self).gate.pending@, id);
                assert forall|i: int|
                    0 <= i < self.gate.pending@.len() implies (#[trigger] self.gate.pending@[i]).id
                    < self.next_id by {
                    let j = choose|j: int|
                        0 <= j < old(self).gate.pending@.len() && old(self).gate.pending@[j]
                            == self.gate.pending@[i];
                    assert((#[trigger] old(self).gate.pending@[j]).id < self.next_id);
                }
            }
        }
        match resolution {
            Resolution::UnknownId => {
                let msg = EventMsg::BackgroundEvent {
                    message: "approval decision for an unknown request id".to_owned(),
                };
                proof {
                    lemma_msg_class(msg);
                }
                self.emit_plain(&mut events, Some(id), msg);
                proof {
                    assert(self.history@ =~= old(self).history@ + msgs_of(events@));
                }
                (events, actions)
            },
            Resolution::Resolved { action, decision: d } => {
                if matches!(d, ReviewDecision::Deny) {
                    if self.task_open {
                        let msg = EventMsg::Error {
                            message: "the gated action was denied by the user".to_owned(),
                        };
                        self.emit_task(&mut events, None, msg);
                    } else {
                        let msg = EventMsg::BackgroundEvent {
                            message: "the gated action was denied by the user".to_owned(),
                        };
                        proof {
                            lemma_msg_class(msg);
                        }
                        self.emit_plain(&mut events, None, msg);
                    }
                    proof {
                        assert(self.history@ =~= old(self).history@ + msgs_of(events@));
                        lemma_msg_class(events@[0].msg);
                    }
                    (events, actions)
                } else {
                    match action {
                        PendingAction::Exec { command } => {
                            let call_id = self.next_id;
                            let c2 = crate::gate::copy_command(&command);
                            let msg = EventMsg::ExecCommandBegin { call_id, command };
                            proof {
                                lemma_msg_class(msg);
                            }
                            self.emit_begin(&mut events, None, msg, CallKind::Exec);
                            actions.push(
                                SessionAction::StartExec {
                                    call_id,
                                    command: c2,
                                    policy: self.sandbox,
                                },
                            );
                            proof {
                                assert(self.history@ =~= old(self).history@ + msgs_of(events@));
                            }
                            (events, actions)
                        },
                        PendingAction::Patch { changes } => {
                            let call_id = self.next_id;
                            let c2 = copy_changes(&changes);
                            let msg = EventMsg::PatchApplyBegin {
                                call_id,
                                auto_approved: false,
                                changes,
                            };
                            proof {
                                lemma_msg_class(msg);
                            }
                            self.emit_begin(&mut events, None, msg, CallKind::Patch);
                            actions.push(SessionAction::StartPatch { call_id, changes: c2 });
                            proof {
                                assert(self.history@ =~= old(self).history@ + msgs_of(events@));
                            }
                            (events, actions)
                        },
                    }
                }
            },
        }
    }

    /// The surrounding process reports a spawned command finished: the
    /// open exec call closes; an unknown call id is an anomaly.
    pub fn on_exec_finished(
        &mut self,
        call_id: u64,
        exit_code: i32,
        stdout: String,
        stderr: String,
    ) -> (events: Vec<Event>)
        requires
            old(self).wf(),
        ensures
            final(self).wf(),
            final(self).history@ == old(self).history@ + msgs_of(events@),
            old(self).shut_down ==> *final(self) == *old(self) && events@.len() == 0,
            !old(self).shut_down && (exists|k: int|
                0 <= k < old(self).open_calls@.len() && old(self).open_calls@[k] == (OpenCall {
                    call_id,
                    kind: CallKind::Exec,
                })) ==> {
                &&& events@.len() == 1
                &&& events@[0] == (Event {
                    id: None,
                    msg: EventMsg::ExecCommandEnd { call_id, exit_code, stdout, stderr },
                })
                &&& final(self).open_calls@.len() + 1 == old(self).open_calls@.len()
            },
            !old(self).shut_down && !(exists|k: int|
                0 <= k < old(self).open_calls@.len() && old(self).open_calls@[k] == (OpenCall {
                    call_id,
                    kind: CallKind::Exec,
                })) ==> {
                &&& events@.len() == 1
                &&& events@[0].msg is BackgroundEvent
                &&& final(self).open_calls@ == old(self).open_calls@
            },
    {
        let mut events: Vec<Event> = Vec::new();
        if self.shut_down {
            proof {
                assert(self.history@ =~= self.history@ + msgs_of(events@));
            }
            return events;
        }
        match self.find_open_index(call_id, CallKind::Exec) {
            Some(k) => {
                let msg = EventMsg::ExecCommandEnd { call_id, exit_code, stdout, stderr };
                proof {
                    lemma_msg_class(msg);
                }
                self.emit_end(&mut events, msg, k);
            },
            None => {
                let msg = EventMsg::BackgroundEvent {
                    message: "completion for an unknown exec call id".to_owned(),
                };
                proof {
                    lemma_msg_class(msg);
                }
                self.emit_plain(&mut events, None, msg);
            },
        }
        proof {
            assert(self.history@ =~= old(self).history@ + msgs_of(events@));
        }
        events
    }

    /// The surrounding process reports a patch application finished: the
    /// open patch call closes; an unknown call id is an anomaly.
    pub fn on_patch_finished(&mut self, call_id: u64, success: bool) -> (events: Vec<Event>)
        requires
            old(self).wf(),
        ensures
            final(self).wf(),
            final(self).history@ == old(self).history@ + msgs_of(events@),
            old(self).shut_down ==> *final(self) == *old(self) && events@.len() == 0,
            !old(self).shut_down && (exists|k: int|
                0 <= k < old(self).open_calls@.len() && old(self).open_calls@[k] == (OpenCall {
                    call_id,
                    kind: CallKind::Patch,
                })) ==> {
                &&& events@.len() == 1
                &&& events@[0] == (Event {
                    id: None,
                    msg: EventMsg::PatchApplyEnd { call_id, success },
                })
                &&& final(self).open_calls@.len() + 1 == old(self).open_calls@.len()
            },
            !old(self).shut_down && !(exists|k: int|
                0 <= k < old(self).open_calls@.len() && old(self).open_calls@[k] == (OpenCall {
                    call_id,
                    kind: CallKind::Patch,
                })) ==> {
                &&& events@.len() == 1
                &&& events@[0].msg is BackgroundEvent
                &&& final(self).open_calls@ == old(self).open_calls@
            },
    {
        let mut events: Vec<Event> = Vec::new();
        if self.shut_down {
            proof {
                assert(self.history@ =~= self.history@ + msgs_of(events@));
            }
            return events;
        }
        match self.find_open_index(call_id, CallKind::Patch) {
            Some(k) => {
                let msg = EventMsg::PatchApplyEnd { call_id, success };
                proof {
                    lemma_msg_class(msg);
                }
                self.emit_end(&mut events, msg, k);
            },
            None => {
                let msg = EventMsg::BackgroundEvent {
                    message: "completion for an unknown patch call id".to_owned(),
                };
                proof {
                    lemma_msg_class(msg);
                }
                self.emit_plain(&mut events, None, msg);
            },
        }
        proof {
            assert(self.history@ =~= old(self).history@ + msgs_of(events@));
        }
        events
    }

    /// Session teardown: every outstanding pending request is resolved as
    /// denied, every open call is closed with a failing end event, an open
    /// task is closed, and `ShutdownComplete` is the session's final
    /// event.  After this the session accepts nothing.
    pub fn shutdown(&mut self) -> (events: Vec<Event>)
        requires
            old(self).wf(),
        ensures
            final(self).wf(),
            final(self).history@ == old(self).history@ + msgs_of(events@),
            final(self).shut_down,
            final(self).gate.pending@.len() == 0,
            final(self).open_calls@.len() == 0,
            !final(self).task_open,
            final(self).gate.session_approved@ == old(self).gate.session_approved@,
            final(self).policy == old(self).policy,
            final(self).sandbox == old(self).sandbox,
            old(self).shut_down ==> *final(self) == *old(self) && events@.len() == 0,
            !old(self).shut_down ==> events@.len() >= 1 && events@.last().msg
                is ShutdownComplete,
            forall|k: int| 0 <= k < events@.len() ==> !is_begin(#[trigger] events@[k].msg),
    {
        let mut events: Vec<Event> = Vec::new();
        if self.shut_down {
            proof {
                assert(self.history@ =~= self.history@ + msgs_of(events@));
            }
            return events;
        }
        let drained = self.gate.drain();
        if drained.len() > 0 {
            let msg = EventMsg::BackgroundEvent {
                message: "outstanding approval requests denied at shutdown".to_owned(),
            };
            proof {
                lemma_msg_class(msg);
            }
            self.emit_plain(&mut events, None, msg);
        }
        proof {
            assert(self.history@ =~= old(self).history@ + msgs_of(events@));
            assert forall|k: int|
                0 <= k < events@.len() implies !is_begin(#[trigger] events@[k].msg) by {
                lemma_msg_class(events@[k].msg);
            }
        }
        while self.open_calls.len() > 0
            invariant
                self.wf(),
                !self.shut_down,
                self.gate.pending@.len() == 0,
                self.gate.session_approved@ == old(self).gate.session_approved@,
                self.policy == old(self).policy,
                self.sandbox == old(self).sandbox,
                self.task_open == old(self).task_open,
                self.history@ == old(self).history@ + msgs_of(events@),
                forall|k: int| 0 <= k < events@.len() ==> !is_begin(#[trigger] events@[k].msg),
            decreases self.open_calls@.len(),
        {
            let k = self.open_calls.len() - 1;
            let oc = self.open_calls[k];
            let msg = match oc.kind {
                CallKind::Exec => EventMsg::ExecCommandEnd {
                    call_id: oc.call_id,
                    exit_code: -1,
                    stdout: String::new(),
                    stderr: "aborted at shutdown".to_owned(),
                },
                CallKind::Patch => EventMsg::PatchApplyEnd {
                    call_id: oc.call_id,
                    success: false,
                },
                CallKind::Tool => EventMsg::McpToolCallEnd {
                    call_id: oc.call_id,
                    success: false,
                    result: "aborted at shutdown".to_owned(),
                },
            };
            proof {
                lemma_msg_class(msg);
            }
            let ghost events0 = events@;
            self.emit_end(&mut events, msg, k);
            proof {
                assert(self.history@ =~= old(self).history@ + msgs_of(events@));
                assert forall|j: int|
                    0 <= j < events@.len() implies !is_begin(#[trigger] events@[j].msg) by {
                    if j < events0.len() {
                        assert(events@[j] == events0[j]);
                    }
                }
            }
        }
        if self.task_open {
            let msg = EventMsg::Error {
                message: "session shut down before the task finished".to_owned(),
            };
            proof {
                lemma_msg_class(msg);
            }
            let ghost events0 = events@;
            self.emit_task(&mut events, None, msg);
            proof {
                assert(self.history@ =~= old(self).history@ + msgs_of(events@));
                assert forall|j: int|
                    0 <= j < events@.len() implies !is_begin(#[trigger] events@[j].msg) by {
                    if j < events0.len() {
                        assert(events@[j] == events0[j]);
                    }
                }
            }
        }
        let msg = EventMsg::ShutdownComplete;
        proof {
            lemma_msg_class(msg);
        }
        let ghost events0 = events@;
        self.emit_plain(&mut events, None, msg);
        self.shut_down = true;
        proof {
            assert(self.history@ =~= old(self).history@ + msgs_of(events@));
            assert forall|j: int|
                0 <= j < events@.len() implies !is_begin(#[trigger] events@[j].msg) by {
                if j < events0.len() {
                    assert(events@[j] == events0[j]);
                }
            }
        }
        events
    }

    /// The front-end dispatcher, one `Op` at a time: a user input opens a
    /// unit of work, a decision resolves its pending request exactly once,
    /// and a shutdown denies every outstanding request, closes every open
    /// call and ends the session.
    pub fn on_op(&mut self, op: Op) -> (r: (Vec<Event>, Vec<SessionAction>))
        requires
            old(self).wf(),
            old(self).next_id < u64::MAX,
        ensures
            final(self).wf(),
            final(self).history@ == old(self).history@ + msgs_of(r.0@),
            final(self).policy == old(self).policy,
            final(self).sandbox == old(self).sandbox,
            op matches Op::UserInput { items } ==> {
                &&& r.1@.len() == 0
                &&& final(self).shut_down == old(self).shut_down
                &&& (old(self).shut_down || items@.len() == 0 ==> *final(self) == *old(self)
                    && r.0@.len() == 0)
                &&& (!old(self).shut_down && items@.len() > 0 && !old(self).task_open
                    ==> r.0@.len() == 1 && r.0@[0] == (Event { id: None, msg: EventMsg::TaskStarted })
                    && final(self).task_open)
                &&& (!old(self).shut_down && items@.len() > 0 && old(self).task_open
                    ==> *final(self) == *old(self) && r.0@.len() == 0)
            },
            op matches Op::ApprovalDecision { id, decision } ==> {
                &&& !contains_id(final(self).gate.pending@, id)
                &&& final(self).shut_down == old(self).shut_down
                &&& (old(self).shut_down ==> *final(self) == *old(self) && r.0@.len() == 0
                    && r.1@.len() == 0)
                &&& (!old(self).shut_down && find_action(old(self).gate.pending@, id) is None
                    ==> r.0@.len() == 1 && r.0@[0].msg is BackgroundEvent && r.1@.len() == 0
                    && final(self).gate.pending@ == old(self).gate.pending@)
                &&& (!old(self).shut_down && find_action(old(self).gate.pending@, id) is Some
                    && decision == ReviewDecision::Deny ==> r.0@.len() == 1 && !is_begin(
                    r.0@[0].msg,
                ) && r.1@.len() == 0 && !final(self).task_open)
                &&& (!old(self).shut_down && find_action(old(self).gate.pending@, id) is Some
                    && decision != ReviewDecision::Deny ==> r.0@.len() == 1 && is_begin(
                    r.0@[0].msg,
                ) && r.1@.len() == 1)
            },
            op is Shutdown ==> {
                &&& r.1@.len() == 0
                &&& final(self).shut_down
                &&& final(self).gate.pending@.len() == 0
                &&& final(self).open_calls@.len() == 0
                &&& !final(self).task_open
                &&& (!old(self).shut_down ==> r.0@.len() >= 1 && r.0@.last().msg
                    is ShutdownComplete)
                &&& (forall|k: int| 0 <= k < r.0@.len() ==> !is_begin(#[trigger] r.0@[k].msg))
            },
    {
        match op {
            Op::UserInput { items } => {
                let events = self.on_user_input(items);
                (events, Vec::new())
            },
            Op::ApprovalDecision { id, decision } => {
                let (events, actions) = self.on_approval_decision(id, decision);
                proof {
                    if !old(self).shut_down && find_action(old(self).gate.pending@, id) is Some
                        && decision != ReviewDecision::Deny {
                        lemma_msg_class(events@[0].msg);
                    }
                }
                (events, actions)
            },
            Op::Shutdown => {
                let events = self.shutdown();
                (events, Vec::new())
            },
        }
    }
}

/// A command approved for the session is never gated again: an exec
/// command equal, string for string, to an entry of the session allow
/// list auto-approves for the remainder of the session.
pub proof fn lemma_allow_listed_not_gated(s: SessionCore, k: int, c: Seq<String>)
    requires
        0 <= k < s.gate.session_approved@.len(),
        s.gate.session_approved@[k]@.len() == c.len(),
        forall|j: int| 0 <= j < c.len() ==> #[trigger] s.gate.session_approved@[k]@[j]@ == c[j]@,
    ensures
        !s.exec_gated(c),
{
    assert(list_contains_command(s.gate.session_approved@, c));
}

/// Begin/end pairing over one session: once no call is left open (as after
/// a shutdown), every begin event in the emitted history has exactly one
/// matching end event, strictly later, and begin ids never repeat.
pub proof fn lemma_session_begin_end_pairing(s: SessionCore, i: int)
    requires
        s.wf(),
        s.open_calls@.len() == 0,
        0 <= i < s.history@.len(),
        is_begin(s.history@[i]),
    ensures
        exists|j: int|
            i < j < s.history@.len() && #[trigger] is_end(s.history@[j]) && call_id_of(
                s.history@[j],
            ) == call_id_of(s.history@[i]),
        forall|j1: int, j2: int|
            #![trigger is_end(s.history@[j1]), is_end(s.history@[j2])]
            0 <= j1 < s.history@.len() && 0 <= j2 < s.history@.len() && is_end(s.history@[j1])
                && is_end(s.history@[j2]) && call_id_of(s.history@[j1]) == call_id_of(
                s.history@[i],
            ) && call_id_of(s.history@[j2]) == call_id_of(s.history@[i]) ==> j1 == j2,
{
    lemma_begin_end_pairing(s.history@, s.open_calls@, s.next_id, i);
}

} // verus!
