//! The pure decision logic of the interactive front end: focus routing,
//! input assembly, scroll magnification and the mapping from one incoming
//! event to the widget updates it calls for.  The rendering itself and the
//! channels live outside the library.

use vstd::prelude::*;
use vstd::string::StrSliceExecFns;
use crate::protocol::{Event, EventMsg, FileChange, InputItem, Op};

verus! {

/// Which pane of the chat widget holds the input focus.
#[derive(Clone, Copy, Debug, PartialEq, Eq, Structural)]
pub enum InputFocus {
    HistoryPane,
    BottomPane,
}

/// Where a key event is routed.
#[derive(Clone, Copy, Debug, PartialEq, Eq, Structural)]
pub enum KeyRoute {
    /// Tab with no command popup visible: the focus toggles.
    ToggleFocus,
    /// The history pane handles the key.
    HistoryKey,
    /// The bottom pane handles the key.
    BottomKey,
}

/// The other pane.
pub fn toggle_focus(f: InputFocus) -> (r: InputFocus)
    ensures
        f == InputFocus::HistoryPane ==> r == InputFocus::BottomPane,
        f == InputFocus::BottomPane ==> r == InputFocus::HistoryPane,
{
    match f {
        InputFocus::HistoryPane => InputFocus::BottomPane,
        InputFocus::BottomPane => InputFocus::HistoryPane,
    }
}

/// Routes one key: Tab toggles focus between the panes unless the
/// slash-command popup is visible (then the bottom pane keeps the key for
/// auto-completion); any other key goes to the focused pane.
pub fn route_key(is_tab: bool, popup_visible: bool, focus: InputFocus) -> (r: KeyRoute)
    ensures
        is_tab && !popup_visible ==> r == KeyRoute::ToggleFocus,
        !(is_tab && !popup_visible) && focus == InputFocus::HistoryPane ==> r
            == KeyRoute::HistoryKey,
        !(is_tab && !popup_visible) && focus == InputFocus::BottomPane ==> r == KeyRoute::BottomKey,
{
    if is_tab && !popup_visible {
        KeyRoute::ToggleFocus
    } else {
        match focus {
            InputFocus::HistoryPane => KeyRoute::HistoryKey,
            InputFocus::BottomPane => KeyRoute::BottomKey,
        }
    }
}

/// Assembles one user submission into the `Op` to send: the text first if
/// it is not empty, then one item per image path in order; an empty
/// submission sends nothing.
pub fn build_user_input(text: String, image_paths: Vec<String>) -> (r: Option<Op>)
    ensures
        text@.len() == 0 && image_paths@.len() == 0 <==> r is None,
        r matches Some(op) ==> (op matches Op::UserInput { items } && {
            let head: int = if text@.len() > 0 {
                1
            } else {
                0
            };
            &&& items@.len() == head + image_paths@.len()
            &&& (text@.len() > 0 ==> items@[0] == (InputItem::Text { text }))
            &&& (forall|i: int|
                0 <= i < image_paths@.len() ==> ((#[trigger] items@[head + i])
                    matches InputItem::LocalImage { path } && path@ == image_paths@[i]@))
        }),
    {
        let mut items: Vec<InputItem> = Vec::new();
        let has_text = text.as_str().unicode_len() > 0;
        if has_text {
            items.push(InputItem::Text { text });
        }
        let ghost head: int = items@.len() as int;
        let mut i: usize = 0;
        while i < image_paths.len()
            invariant
                i <= image_paths@.len(),
                head == if has_text {
                    1int
                } else {
                    0int
                },
                items@.len() == head + i,
                has_text ==> items@[0] == (InputItem::Text { text }),
                forall|j: int|
                    0 <= j < i ==> ((#[trigger] items@[head + j]) matches InputItem::LocalImage {
                        path,
                    } && path@ == image_paths@[j]@),
            decreases image_paths@.len() - i,
        {
            items.push(InputItem::LocalImage { path: image_paths[i].clone() });
            i = i + 1;
        }
        if items.len() == 0 {
            None
        } else {
            Some(Op::UserInput { items })
        }
    }

/// Magnifies a scroll wheel step: a single line scrolls a single line;
/// anything larger is doubled.
pub fn magnify_scroll_delta(delta: i32) -> (r: i32)
    requires
        -0x4000_0000 <= delta < 0x4000_0000,
    ensures
        delta == 1 ==> r == 1,
        delta != 1 ==> r == 2 * delta,
{
    if delta == 1 {
        1
    } else {
        delta * 2
    }
}

/// An approval request as the bottom pane presents it to the user.
#[derive(Clone, Debug, PartialEq, Eq)]
pub enum ApprovalRequest {
    Exec { id: Option<u64>, command: Vec<String>, cwd: String, reason: String },
    ApplyPatch { id: Option<u64>, reason: String, grant_root: Option<String> },
}

/// One update to the conversation history pane.
#[derive(Clone, Debug, PartialEq, Eq)]
pub enum HistoryUpdate {
    SessionInfo,
    AgentMessage { message: String },
    AgentReasoning { text: String },
    ErrorMessage { message: String },
    PendingPatch { changes: Vec<FileChange> },
    ActiveExec { call_id: u64, command: Vec<String> },
    CompletedExec { call_id: u64, stdout: String, stderr: String, exit_code: i32 },
    PatchApply { auto_approved: bool, changes: Vec<FileChange> },
    ActiveToolCall { call_id: u64, server: String, tool: String, arguments: String },
    CompletedToolCall { call_id: u64, success: bool, result: String },
    Background { message: String },
}

/// Everything the widget does in response to one event.
#[derive(Clone, Debug, PartialEq, Eq)]
pub struct UiUpdate {
    pub history: Option<HistoryUpdate>,
    pub approval: Option<ApprovalRequest>,
    pub set_task_running: Option<bool>,
    pub scroll_to_bottom: bool,
    pub needs_redraw: bool,
}

/// What the widget does for each event: which pane entry is added, whether
/// an approval prompt is raised, how the running-task indicator moves, and
/// whether the view scrolls or redraws.
pub open spec fn ui_update_spec(e: Event) -> UiUpdate {
    match e.msg {
        EventMsg::SessionConfigured { model: _ } => UiUpdate {
            history: Some(HistoryUpdate::SessionInfo),
            approval: None,
            set_task_running: None,
            scroll_to_bottom: false,
            needs_redraw: true,
        },
        EventMsg::AgentMessage { message } => UiUpdate {
            history: Some(HistoryUpdate::AgentMessage { message }),
            approval: None,
            set_task_running: None,
            scroll_to_bottom: false,
            needs_redraw: true,
        },
        EventMsg::AgentReasoning { text } => UiUpdate {
            history: Some(HistoryUpdate::AgentReasoning { text }),
            approval: None,
            set_task_running: None,
            scroll_to_bottom: false,
            needs_redraw: true,
        },
        EventMsg::TaskStarted => UiUpdate {
            history: None,
            approval: None,
            set_task_running: Some(true),
            scroll_to_bottom: false,
            needs_redraw: true,
        },
        EventMsg::TaskComplete => UiUpdate {
            history: None,
            approval: None,
            set_task_running: Some(false),
            scroll_to_bottom: false,
            needs_redraw: true,
        },
        EventMsg::Error { message } => UiUpdate {
            history: Some(HistoryUpdate::ErrorMessage { message }),
            approval: None,
            set_task_running: Some(false),
            scroll_to_bottom: false,
            needs_redraw: false,
        },
        EventMsg::ExecApprovalRequest { command, cwd, reason } => UiUpdate {
            history: None,
            approval: Some(ApprovalRequest::Exec { id: e.id, command, cwd, reason }),
            set_task_running: None,
            scroll_to_bottom: false,
            needs_redraw: false,
        },
        EventMsg::ApplyPatchApprovalRequest { changes, reason, grant_root } => UiUpdate {
            history: Some(HistoryUpdate::PendingPatch { changes }),
            approval: Some(ApprovalRequest::ApplyPatch { id: e.id, reason, grant_root }),
            set_task_running: None,
            scroll_to_bottom: true,
            needs_redraw: true,
        },
        EventMsg::ExecCommandBegin { call_id, command } => UiUpdate {
            history: Some(HistoryUpdate::ActiveExec { call_id, command }),
            approval: None,
            set_task_running: None,
            scroll_to_bottom: false,
            needs_redraw: true,
        },
        EventMsg::ExecCommandEnd { call_id, exit_code, stdout, stderr } => UiUpdate {
            history: Some(HistoryUpdate::CompletedExec { call_id, stdout, stderr, exit_code }),
            approval: None,
            set_task_running: None,
            scroll_to_bottom: false,
            needs_redraw: true,
        },
        EventMsg::PatchApplyBegin { call_id: _, auto_approved, changes } => UiUpdate {
            history: Some(HistoryUpdate::PatchApply { auto_approved, changes }),
            approval: None,
            set_task_running: None,
            scroll_to_bottom: !auto_approved,
            needs_redraw: true,
        },
        EventMsg::McpToolCallBegin { call_id, server, tool, arguments } => UiUpdate {
            history: Some(HistoryUpdate::ActiveToolCall { call_id, server, tool, arguments }),
            approval: None,
            set_task_running: None,
            scroll_to_bottom: false,
            needs_redraw: true,
        },
        EventMsg::McpToolCallEnd { call_id, success, result } => UiUpdate {
            history: Some(HistoryUpdate::CompletedToolCall { call_id, success, result }),
            approval: None,
            set_task_running: None,
            scroll_to_bottom: false,
            needs_redraw: true,
        },
        EventMsg::PatchApplyEnd { call_id: _, success: _ } => UiUpdate {
            history: None,
            approval: None,
            set_task_running: None,
            scroll_to_bottom: false,
            needs_redraw: true,
        },
        EventMsg::BackgroundEvent { message } => UiUpdate {
            history: Some(HistoryUpdate::Background { message }),
            approval: None,
            set_task_running: None,
            scroll_to_bottom: false,
            needs_redraw: true,
        },
        EventMsg::ShutdownComplete => UiUpdate {
            history: None,
            approval: None,
            set_task_running: Some(false),
            scroll_to_bottom: false,
            needs_redraw: true,
        },
    }
}

/// Decides, for one incoming event, everything the widget must do.
pub fn ui_update_for_event(e: Event) -> (r: UiUpdate)
    ensures
        r == ui_update_spec(e),
{
    let Event { id, msg } = e;
    match msg {
        EventMsg::SessionConfigured { model: _ } => UiUpdate {
            history: Some(HistoryUpdate::SessionInfo),
            approval: None,
            set_task_running: None,
            scroll_to_bottom: false,
            needs_redraw: true,
        },
        EventMsg::AgentMessage { message } => UiUpdate {
            history: Some(HistoryUpdate::AgentMessage { message }),
            approval: None,
            set_task_running: None,
            scroll_to_bottom: false,
            needs_redraw: true,
        },
        EventMsg::AgentReasoning { text } => UiUpdate {
            history: Some(HistoryUpdate::AgentReasoning { text }),
            approval: None,
            set_task_running: None,
            scroll_to_bottom: false,
            needs_redraw: true,
        },
        EventMsg::TaskStarted => UiUpdate {
            history: None,
            approval: None,
            set_task_running: Some(true),
            scroll_to_bottom: false,
            needs_redraw: true,
        },
        EventMsg::TaskComplete => UiUpdate {
            history: None,
            approval: None,
            set_task_running: Some(false),
            scroll_to_bottom: false,
            needs_redraw: true,
        },
        EventMsg::Error { message } => UiUpdate {
            history: Some(HistoryUpdate::ErrorMessage { message }),
            approval: None,
            set_task_running: Some(false),
            scroll_to_bottom: false,
            needs_redraw: false,
        },
        EventMsg::ExecApprovalRequest { command, cwd, reason } => UiUpdate {
            history: None,
            approval: Some(ApprovalRequest::Exec { id, command, cwd, reason }),
            set_task_running: None,
            scroll_to_bottom: false,
            needs_redraw: false,
        },
        EventMsg::ApplyPatchApprovalRequest { changes, reason, grant_root } => UiUpdate {
            history: Some(HistoryUpdate::PendingPatch { changes }),
            approval: Some(ApprovalRequest::ApplyPatch { id, reason, grant_root }),
            set_task_running: None,
            scroll_to_bottom: true,
            needs_redraw: true,
        },
        EventMsg::ExecCommandBegin { call_id, command } => UiUpdate {
            history: Some(HistoryUpdate::ActiveExec { call_id, command }),
            approval: None,
            set_task_running: None,
            scroll_to_bottom: false,
            needs_redraw: true,
        },
        EventMsg::ExecCommandEnd { call_id, exit_code, stdout, stderr } => UiUpdate {
            history: Some(HistoryUpdate::CompletedExec { call_id, stdout, stderr, exit_code }),
            approval: None,
            set_task_running: None,
            scroll_to_bottom: false,
            needs_redraw: true,
        },
        EventMsg::PatchApplyBegin { call_id: _, auto_approved, changes } => UiUpdate {
            history: Some(HistoryUpdate::PatchApply { auto_approved, changes }),
            approval: None,
            set_task_running: None,
            scroll_to_bottom: !auto_approved,
            needs_redraw: true,
        },
        EventMsg::McpToolCallBegin { call_id, server, tool, arguments } => UiUpdate {
            history: Some(HistoryUpdate::ActiveToolCall { call_id, server, tool, arguments }),
            approval: None,
            set_task_running: None,
            scroll_to_bottom: false,
            needs_redraw: true,
        },
        EventMsg::McpToolCallEnd { call_id, success, result } => UiUpdate {
            history: Some(HistoryUpdate::CompletedToolCall { call_id, success, result }),
            approval: None,
            set_task_running: None,
            scroll_to_bottom: false,
            needs_redraw: true,
        },
        EventMsg::PatchApplyEnd { call_id: _, success: _ } => UiUpdate {
            history: None,
            approval: None,
            set_task_running: None,
            scroll_to_bottom: false,
            needs_redraw: true,
        },
        EventMsg::BackgroundEvent { message } => UiUpdate {
            history: Some(HistoryUpdate::Background { message }),
            approval: None,
            set_task_running: None,
            scroll_to_bottom: false,
            needs_redraw: true,
        },
        EventMsg::ShutdownComplete => UiUpdate {
            history: None,
            approval: None,
            set_task_running: Some(false),
            scroll_to_bottom: false,
            needs_redraw: true,
        },
    }
}

/// One widget action, in the order the widget performs them.
#[derive(Clone, Debug, PartialEq, Eq)]
pub enum UiStep {
    /// Add an entry to the conversation history pane.
    History(HistoryUpdate),
    /// Scroll the history pane to the bottom.
    ScrollToBottom,
    /// Raise an approval prompt in the bottom pane.
    Approval(ApprovalRequest),
    /// Move the running-task indicator.
    SetTaskRunning(bool),
    /// Request a redraw.
    Redraw,
}

/// The steps of one update, in the order the widget applies them: the
/// history entry first, then the scroll, then the approval prompt, then
/// the indicator, then the redraw.  In particular a patch summary always
/// lands in the history strictly before its approval prompt is raised.
pub open spec fn steps_of(u: UiUpdate) -> Seq<UiStep> {
    (match u.history {
        Option::Some(h) => seq![UiStep::History(h)],
        Option::None => Seq::<UiStep>::empty(),
    }) + (if u.scroll_to_bottom {
        seq![UiStep::ScrollToBottom]
    } else {
        Seq::<UiStep>::empty()
    }) + (match u.approval {
        Option::Some(a) => seq![UiStep::Approval(a)],
        Option::None => Seq::<UiStep>::empty(),
    }) + (match u.set_task_running {
        Option::Some(b) => seq![UiStep::SetTaskRunning(b)],
        Option::None => Seq::<UiStep>::empty(),
    }) + (if u.needs_redraw {
        seq![UiStep::Redraw]
    } else {
        Seq::<UiStep>::empty()
    })
}

/// Decides, for one incoming event, everything the widget must do, as an
/// ordered list of steps; a driver applies them front to back.
pub fn ui_update_steps(e: Event) -> (steps: Vec<UiStep>)
    ensures
        steps@ == steps_of(ui_update_spec(e)),
{
    let u = ui_update_for_event(e);
    let ghost u0 = u;
    let mut steps: Vec<UiStep> = Vec::new();
    let UiUpdate { history, approval, set_task_running, scroll_to_bottom, needs_redraw } = u;
    match history {
        Some(h) => steps.push(UiStep::History(h)),
        None => (),
    }
    if scroll_to_bottom {
        steps.push(UiStep::ScrollToBottom);
    }
    match approval {
        Some(a) => steps.push(UiStep::Approval(a)),
        None => (),
    }
    match set_task_running {
        Some(b) => steps.push(UiStep::SetTaskRunning(b)),
        None => (),
    }
    if needs_redraw {
        steps.push(UiStep::Redraw);
    }
    proof {
        assert(steps@ =~= steps_of(u0));
    }
    steps
}

/// The patch summary precedes the prompt: in any update's step list,
/// every history entry stands strictly before every approval prompt.
pub proof fn lemma_history_precedes_prompt(u: UiUpdate)
    ensures
        forall|i: int, j: int|
            #![trigger steps_of(u)[i], steps_of(u)[j]]
            0 <= i < steps_of(u).len() && 0 <= j < steps_of(u).len() && steps_of(u)[i] is History
                && steps_of(u)[j] is Approval ==> i < j,
{
    let s = steps_of(u);
    assert forall|i: int| 0 <= i < s.len() && s[i] is History implies i == 0 by {}
    assert forall|j: int| 0 <= j < s.len() && s[j] is Approval implies j >= 1 || u.history
        is None by {}
}

} // verus!
