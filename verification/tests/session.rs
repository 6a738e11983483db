use seeky::execpolicy::{ArgPattern, Policy, Rule, Verdict};
use seeky::protocol::{EventMsg, FileChange, InputItem, Op, ReviewDecision};
use seeky::sandbox::SandboxPolicy;
use seeky::session::{SessionAction, SessionCore};

fn cmd(parts: &[&str]) -> Vec<String> {
    parts.iter().map(|s| s.to_string()).collect()
}

fn policy_with_safe_ls() -> Policy {
    Policy {
        rules: vec![Rule {
            program: "ls".to_string(),
            args: ArgPattern::AnyArgs,
            verdict: Verdict::Safe,
        }],
        wildcard_rules: vec![],
        known_good: vec![],
        known_bad: vec![],
    }
}

fn start(sandbox: SandboxPolicy) -> SessionCore {
    let (core, events) = SessionCore::new(policy_with_safe_ls(), sandbox, "test-model".to_string());
    assert_eq!(events.len(), 1);
    assert!(matches!(events[0].msg, EventMsg::SessionConfigured { .. }));
    core
}

#[test]
fn session_configured_is_the_first_event() {
    let core = start(SandboxPolicy::ReadOnlyFs);
    assert!(!core.task_open);
    assert!(!core.shut_down);
}

#[test]
fn user_input_opens_one_task() {
    let mut core = start(SandboxPolicy::ReadOnlyFs);
    let events = core.on_user_input(vec![InputItem::Text { text: "hello".to_string() }]);
    assert_eq!(events.len(), 1);
    assert!(matches!(events[0].msg, EventMsg::TaskStarted));
    assert!(core.task_open);
    let again = core.on_user_input(vec![InputItem::Text { text: "more".to_string() }]);
    assert!(again.is_empty());
}

#[test]
fn empty_user_input_is_a_no_op() {
    let mut core = start(SandboxPolicy::ReadOnlyFs);
    let events = core.on_user_input(vec![]);
    assert!(events.is_empty());
    assert!(!core.task_open);
}

#[test]
fn safe_command_runs_without_an_approval_request() {
    let mut core = start(SandboxPolicy::ReadOnlyFs);
    core.on_user_input(vec![InputItem::Text { text: "list".to_string() }]);
    let (events, actions) =
        core.on_exec_proposal(cmd(&["ls", "-la"]), "/work".to_string(), "listing".to_string());
    assert_eq!(events.len(), 1);
    let call_id = match &events[0].msg {
        EventMsg::ExecCommandBegin { call_id, command } => {
            assert_eq!(*command, cmd(&["ls", "-la"]));
            *call_id
        }
        other => panic!("expected ExecCommandBegin, got {other:?}"),
    };
    assert!(matches!(actions[0], SessionAction::StartExec { .. }));
    let end_events = core.on_exec_finished(call_id, 0, "files".to_string(), String::new());
    assert_eq!(end_events.len(), 1);
    match &end_events[0].msg {
        EventMsg::ExecCommandEnd { call_id: cid, exit_code, .. } => {
            assert_eq!(*cid, call_id);
            assert_eq!(*exit_code, 0);
        }
        other => panic!("expected ExecCommandEnd, got {other:?}"),
    }
}

#[test]
fn unknown_command_is_gated_behind_an_approval_request() {
    let mut core = start(SandboxPolicy::ReadOnlyFs);
    let (events, actions) =
        core.on_exec_proposal(cmd(&["make", "install"]), "/work".to_string(), "build".to_string());
    assert!(actions.is_empty());
    assert_eq!(events.len(), 1);
    assert!(matches!(events[0].msg, EventMsg::ExecApprovalRequest { .. }));
    assert!(events[0].id.is_some());
    assert_eq!(core.gate.pending.len(), 1);
}

#[test]
fn approval_begins_the_suspended_command() {
    let mut core = start(SandboxPolicy::ReadOnlyFs);
    let (events, _) =
        core.on_exec_proposal(cmd(&["make"]), "/work".to_string(), "build".to_string());
    let id = events[0].id.expect("approval request carries an id");
    let (events, actions) = core.on_approval_decision(id, ReviewDecision::Approve);
    assert_eq!(events.len(), 1);
    assert!(matches!(events[0].msg, EventMsg::ExecCommandBegin { .. }));
    assert_eq!(actions.len(), 1);
    assert_eq!(core.gate.pending.len(), 0);
}

#[test]
fn approve_for_session_auto_approves_the_identical_command() {
    let mut core = start(SandboxPolicy::ReadOnlyFs);
    let (events, _) =
        core.on_exec_proposal(cmd(&["make"]), "/work".to_string(), "build".to_string());
    let id = events[0].id.unwrap();
    core.on_approval_decision(id, ReviewDecision::ApproveForSession);
    let (events, actions) =
        core.on_exec_proposal(cmd(&["make"]), "/work".to_string(), "build again".to_string());
    assert_eq!(events.len(), 1);
    assert!(matches!(events[0].msg, EventMsg::ExecCommandBegin { .. }));
    assert_eq!(actions.len(), 1);
}

#[test]
fn full_auto_runs_inconclusive_commands_sandboxed() {
    let mut core = start(SandboxPolicy::FullAuto);
    let (events, actions) =
        core.on_exec_proposal(cmd(&["make"]), "/work".to_string(), "build".to_string());
    assert!(matches!(events[0].msg, EventMsg::ExecCommandBegin { .. }));
    match &actions[0] {
        SessionAction::StartExec { policy, .. } => assert_eq!(*policy, SandboxPolicy::FullAuto),
        other => panic!("expected StartExec, got {other:?}"),
    }
}

#[test]
fn denied_patch_never_begins_and_the_task_terminates() {
    let mut core = start(SandboxPolicy::ReadOnlyFs);
    core.on_user_input(vec![InputItem::Text { text: "patch it".to_string() }]);
    let changes = vec![FileChange::Update { path: "src/main.rs".to_string() }];
    let (events, actions) =
        core.on_patch_proposal(changes, "fixes a bug".to_string(), None);
    assert!(actions.is_empty());
    assert!(matches!(events[0].msg, EventMsg::ApplyPatchApprovalRequest { .. }));
    let id = events[0].id.expect("approval request carries an id");
    let (events, actions) = core.on_approval_decision(id, ReviewDecision::Deny);
    assert!(actions.is_empty());
    assert!(events.iter().all(|e| !matches!(e.msg, EventMsg::PatchApplyBegin { .. })));
    assert_eq!(events.len(), 1);
    assert!(matches!(events[0].msg, EventMsg::Error { .. }));
    assert!(!core.task_open);
}

#[test]
fn second_decision_for_a_resolved_id_is_an_anomaly() {
    let mut core = start(SandboxPolicy::ReadOnlyFs);
    let (events, _) =
        core.on_exec_proposal(cmd(&["make"]), "/work".to_string(), "build".to_string());
    let id = events[0].id.unwrap();
    core.on_approval_decision(id, ReviewDecision::Approve);
    let open_before = core.open_calls.len();
    let (events, actions) = core.on_approval_decision(id, ReviewDecision::Approve);
    assert!(actions.is_empty());
    assert_eq!(events.len(), 1);
    assert!(matches!(events[0].msg, EventMsg::BackgroundEvent { .. }));
    assert_eq!(core.open_calls.len(), open_before);
}

#[test]
fn shutdown_drains_the_gate_and_closes_every_call() {
    let mut core = start(SandboxPolicy::ReadOnlyFs);
    core.on_user_input(vec![InputItem::Text { text: "work".to_string() }]);
    core.on_exec_proposal(cmd(&["make"]), "/w".to_string(), "a".to_string());
    core.on_patch_proposal(vec![FileChange::Add { path: "x".to_string() }], "b".to_string(), None);
    let (begin_events, _) =
        core.on_exec_proposal(cmd(&["ls"]), "/w".to_string(), "c".to_string());
    assert!(matches!(begin_events[0].msg, EventMsg::ExecCommandBegin { .. }));
    assert_eq!(core.gate.pending.len(), 2);
    assert_eq!(core.open_calls.len(), 1);
    let events = core.shutdown();
    assert_eq!(core.gate.pending.len(), 0);
    assert_eq!(core.open_calls.len(), 0);
    assert!(core.shut_down);
    assert!(!core.task_open);
    assert!(events.iter().all(|e| !matches!(
        e.msg,
        EventMsg::ExecCommandBegin { .. }
            | EventMsg::PatchApplyBegin { .. }
            | EventMsg::McpToolCallBegin { .. }
    )));
    assert!(matches!(events.last().unwrap().msg, EventMsg::ShutdownComplete));
    assert!(events
        .iter()
        .any(|e| matches!(e.msg, EventMsg::ExecCommandEnd { .. })));
    let after = core.on_exec_proposal(cmd(&["ls"]), "/w".to_string(), "d".to_string());
    assert!(after.0.is_empty());
    assert!(after.1.is_empty());
}

#[test]
fn completion_for_an_unknown_call_id_is_an_anomaly() {
    let mut core = start(SandboxPolicy::ReadOnlyFs);
    let events = core.on_exec_finished(42, 0, String::new(), String::new());
    assert_eq!(events.len(), 1);
    assert!(matches!(events[0].msg, EventMsg::BackgroundEvent { .. }));
}

#[test]
fn task_error_still_closes_the_task() {
    let mut core = start(SandboxPolicy::ReadOnlyFs);
    core.on_user_input(vec![InputItem::Text { text: "work".to_string() }]);
    let events = core.on_task_error("internal fault".to_string());
    assert_eq!(events.len(), 1);
    assert!(matches!(events[0].msg, EventMsg::Error { .. }));
    assert!(!core.task_open);
}

#[test]
fn task_complete_closes_the_task() {
    let mut core = start(SandboxPolicy::ReadOnlyFs);
    core.on_user_input(vec![InputItem::Text { text: "work".to_string() }]);
    let events = core.on_task_complete();
    assert!(matches!(events[0].msg, EventMsg::TaskComplete));
    assert!(!core.task_open);
}

#[test]
fn ops_dispatch_through_the_session() {
    let mut core = start(SandboxPolicy::ReadOnlyFs);
    let (events, actions) = core.on_op(Op::UserInput {
        items: vec![InputItem::Text { text: "hi".to_string() }],
    });
    assert!(actions.is_empty());
    assert!(matches!(events[0].msg, EventMsg::TaskStarted));
    let (events, _) = core.on_op(Op::ApprovalDecision { id: 42, decision: ReviewDecision::Deny });
    assert!(matches!(events[0].msg, EventMsg::BackgroundEvent { .. }));
    let (events, _) = core.on_op(Op::Shutdown);
    assert!(matches!(events.last().unwrap().msg, EventMsg::ShutdownComplete));
    assert!(core.shut_down);
}

#[test]
fn agent_output_is_forwarded() {
    let mut core = start(SandboxPolicy::ReadOnlyFs);
    let events = core.on_agent_message("answer".to_string());
    assert_eq!(events.len(), 1);
    assert!(matches!(events[0].msg, EventMsg::AgentMessage { .. }));
    let events = core.on_agent_reasoning("thinking it through".to_string());
    assert!(matches!(events[0].msg, EventMsg::AgentReasoning { .. }));
}
