use seeky::protocol::{Event, EventMsg, InputItem, Op};
use seeky::tui::{
    ApprovalRequest, HistoryUpdate, InputFocus, KeyRoute, build_user_input, magnify_scroll_delta,
    route_key, toggle_focus, ui_update_for_event,
};

#[test]
fn tab_toggles_focus_unless_popup_is_open() {
    assert_eq!(route_key(true, false, InputFocus::BottomPane), KeyRoute::ToggleFocus);
    assert_eq!(route_key(true, true, InputFocus::BottomPane), KeyRoute::BottomKey);
    assert_eq!(route_key(false, false, InputFocus::HistoryPane), KeyRoute::HistoryKey);
    assert_eq!(route_key(false, true, InputFocus::BottomPane), KeyRoute::BottomKey);
}

#[test]
fn focus_toggle_swaps_panes() {
    assert_eq!(toggle_focus(InputFocus::HistoryPane), InputFocus::BottomPane);
    assert_eq!(toggle_focus(InputFocus::BottomPane), InputFocus::HistoryPane);
}

#[test]
fn empty_submission_sends_nothing() {
    assert_eq!(build_user_input(String::new(), vec![]), None);
}

#[test]
fn text_and_images_become_ordered_items() {
    let op = build_user_input(
        "hello".to_string(),
        vec!["a.png".to_string(), "b.png".to_string()],
    )
    .unwrap();
    match op {
        Op::UserInput { items } => {
            assert_eq!(items.len(), 3);
            assert_eq!(items[0], InputItem::Text { text: "hello".to_string() });
            assert_eq!(items[1], InputItem::LocalImage { path: "a.png".to_string() });
            assert_eq!(items[2], InputItem::LocalImage { path: "b.png".to_string() });
        }
        other => panic!("expected UserInput, got {other:?}"),
    }
}

#[test]
fn images_alone_still_submit() {
    let op = build_user_input(String::new(), vec!["a.png".to_string()]).unwrap();
    match op {
        Op::UserInput { items } => {
            assert_eq!(items, vec![InputItem::LocalImage { path: "a.png".to_string() }]);
        }
        other => panic!("expected UserInput, got {other:?}"),
    }
}

#[test]
fn single_line_scroll_is_kept_larger_deltas_double() {
    assert_eq!(magnify_scroll_delta(1), 1);
    assert_eq!(magnify_scroll_delta(3), 6);
    assert_eq!(magnify_scroll_delta(-2), -4);
    assert_eq!(magnify_scroll_delta(0), 0);
}

#[test]
fn task_events_move_the_running_indicator() {
    let started = ui_update_for_event(Event { id: None, msg: EventMsg::TaskStarted });
    assert_eq!(started.set_task_running, Some(true));
    assert!(started.needs_redraw);
    let complete = ui_update_for_event(Event { id: None, msg: EventMsg::TaskComplete });
    assert_eq!(complete.set_task_running, Some(false));
}

#[test]
fn error_event_stops_the_indicator_and_lands_in_history() {
    let u = ui_update_for_event(Event {
        id: None,
        msg: EventMsg::Error { message: "boom".to_string() },
    });
    assert_eq!(u.set_task_running, Some(false));
    assert_eq!(u.history, Some(HistoryUpdate::ErrorMessage { message: "boom".to_string() }));
    assert!(!u.needs_redraw);
}

#[test]
fn exec_approval_request_raises_a_prompt() {
    let u = ui_update_for_event(Event {
        id: Some(7),
        msg: EventMsg::ExecApprovalRequest {
            command: vec!["make".to_string()],
            cwd: "/w".to_string(),
            reason: "build".to_string(),
        },
    });
    assert_eq!(
        u.approval,
        Some(ApprovalRequest::Exec {
            id: Some(7),
            command: vec!["make".to_string()],
            cwd: "/w".to_string(),
            reason: "build".to_string(),
        })
    );
    assert_eq!(u.history, None);
}

#[test]
fn patch_approval_shows_the_patch_before_the_prompt() {
    let u = ui_update_for_event(Event {
        id: Some(9),
        msg: EventMsg::ApplyPatchApprovalRequest {
            changes: vec![],
            reason: "fix".to_string(),
            grant_root: None,
        },
    });
    assert_eq!(u.history, Some(HistoryUpdate::PendingPatch { changes: vec![] }));
    assert!(matches!(u.approval, Some(ApprovalRequest::ApplyPatch { id: Some(9), .. })));
    assert!(u.scroll_to_bottom);
}

#[test]
fn auto_approved_patch_does_not_scroll() {
    let u = ui_update_for_event(Event {
        id: None,
        msg: EventMsg::PatchApplyBegin { call_id: 3, auto_approved: true, changes: vec![] },
    });
    assert!(!u.scroll_to_bottom);
    let manual = ui_update_for_event(Event {
        id: None,
        msg: EventMsg::PatchApplyBegin { call_id: 4, auto_approved: false, changes: vec![] },
    });
    assert!(manual.scroll_to_bottom);
}

#[test]
fn unhandled_events_land_in_history_as_background() {
    let u = ui_update_for_event(Event {
        id: None,
        msg: EventMsg::BackgroundEvent { message: "note".to_string() },
    });
    assert_eq!(u.history, Some(HistoryUpdate::Background { message: "note".to_string() }));
}

#[test]
fn patch_summary_step_precedes_the_prompt_step() {
    let steps = seeky::tui::ui_update_steps(Event {
        id: Some(9),
        msg: EventMsg::ApplyPatchApprovalRequest {
            changes: vec![],
            reason: "fix".to_string(),
            grant_root: None,
        },
    });
    let hist = steps
        .iter()
        .position(|s| matches!(s, seeky::tui::UiStep::History(_)))
        .expect("a patch summary step");
    let prompt = steps
        .iter()
        .position(|s| matches!(s, seeky::tui::UiStep::Approval(_)))
        .expect("an approval prompt step");
    assert!(hist < prompt);
    assert_eq!(steps.len(), 4);
    assert!(matches!(steps[1], seeky::tui::UiStep::ScrollToBottom));
    assert!(matches!(steps[3], seeky::tui::UiStep::Redraw));
}

#[test]
fn step_list_is_ordered_for_plain_events() {
    let steps = seeky::tui::ui_update_steps(Event { id: None, msg: EventMsg::TaskStarted });
    assert_eq!(steps.len(), 2);
    assert!(matches!(steps[0], seeky::tui::UiStep::SetTaskRunning(true)));
    assert!(matches!(steps[1], seeky::tui::UiStep::Redraw));
    let steps = seeky::tui::ui_update_steps(Event {
        id: None,
        msg: EventMsg::AgentMessage { message: "hello".to_string() },
    });
    assert_eq!(steps.len(), 2);
    assert!(matches!(steps[0], seeky::tui::UiStep::History(_)));
    assert!(matches!(steps[1], seeky::tui::UiStep::Redraw));
}
