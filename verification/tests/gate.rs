use seeky::gate::{ApprovalGate, PendingAction, Resolution};
use seeky::protocol::ReviewDecision;

fn cmd(parts: &[&str]) -> Vec<String> {
    parts.iter().map(|s| s.to_string()).collect()
}

#[test]
fn resolve_matches_and_destroys_the_request() {
    let mut gate = ApprovalGate::new();
    gate.create(7, PendingAction::Exec { command: cmd(&["ls"]) });
    assert_eq!(gate.pending_len(), 1);
    let r = gate.resolve(7, ReviewDecision::Approve);
    assert_eq!(
        r,
        Resolution::Resolved {
            action: PendingAction::Exec { command: cmd(&["ls"]) },
            decision: ReviewDecision::Approve,
        }
    );
    assert_eq!(gate.pending_len(), 0);
}

#[test]
fn second_decision_for_same_id_has_no_effect() {
    let mut gate = ApprovalGate::new();
    gate.create(7, PendingAction::Patch { changes: vec![] });
    let first = gate.resolve(7, ReviewDecision::Deny);
    assert!(matches!(first, Resolution::Resolved { .. }));
    let before = gate.clone();
    let second = gate.resolve(7, ReviewDecision::Approve);
    assert_eq!(second, Resolution::UnknownId);
    assert_eq!(gate, before);
}

#[test]
fn decision_for_unknown_id_is_ignored() {
    let mut gate = ApprovalGate::new();
    gate.create(1, PendingAction::Exec { command: cmd(&["ls"]) });
    let r = gate.resolve(99, ReviewDecision::Approve);
    assert_eq!(r, Resolution::UnknownId);
    assert_eq!(gate.pending_len(), 1);
}

#[test]
fn resolving_one_request_leaves_the_others_alone() {
    let mut gate = ApprovalGate::new();
    gate.create(1, PendingAction::Exec { command: cmd(&["ls"]) });
    gate.create(2, PendingAction::Patch { changes: vec![] });
    gate.create(3, PendingAction::Exec { command: cmd(&["pwd"]) });
    let r = gate.resolve(2, ReviewDecision::Approve);
    assert!(matches!(
        r,
        Resolution::Resolved { action: PendingAction::Patch { .. }, .. }
    ));
    assert_eq!(gate.pending_len(), 2);
    assert!(matches!(gate.resolve(1, ReviewDecision::Deny), Resolution::Resolved { .. }));
    assert!(matches!(gate.resolve(3, ReviewDecision::Deny), Resolution::Resolved { .. }));
}

#[test]
fn approve_for_session_records_the_exact_command() {
    let mut gate = ApprovalGate::new();
    let c = cmd(&["cargo", "build"]);
    assert!(!gate.is_session_approved(&c));
    gate.create(4, PendingAction::Exec { command: c.clone() });
    gate.resolve(4, ReviewDecision::ApproveForSession);
    assert!(gate.is_session_approved(&c));
    assert!(!gate.is_session_approved(&cmd(&["cargo", "test"])));
    assert!(!gate.is_session_approved(&cmd(&["cargo"])));
}

#[test]
fn plain_approval_does_not_touch_the_allow_list() {
    let mut gate = ApprovalGate::new();
    let c = cmd(&["cargo", "build"]);
    gate.create(4, PendingAction::Exec { command: c.clone() });
    gate.resolve(4, ReviewDecision::Approve);
    assert!(!gate.is_session_approved(&c));
}

#[test]
fn drain_empties_the_gate_and_returns_everything() {
    let mut gate = ApprovalGate::new();
    gate.create(1, PendingAction::Exec { command: cmd(&["ls"]) });
    gate.create(2, PendingAction::Patch { changes: vec![] });
    let drained = gate.drain();
    assert_eq!(drained.len(), 2);
    assert_eq!(drained[0].id, 1);
    assert_eq!(drained[1].id, 2);
    assert_eq!(gate.pending_len(), 0);
}
