//! The enter key: what is typed goes out, a command is run, or what is selected is taken.

use vstd::prelude::*;
use crate::app::AppState;
use crate::app::clear_text;
use crate::app::is_empty;
use crate::app::typed;
use crate::approval_bar::ApprovalStatus;
use crate::approval_bar::calls_with;
use crate::approval_bar::law_calls_with_status;
use crate::changeset::Changeset;
use crate::collections::TextMap;
use crate::collections::TextSet;
use crate::completion::choose_selected_file;
use crate::completion::command_written;
use crate::completion::selected_file_chosen;
use crate::completion::write_command;
use crate::dialog::call_runs;
use crate::dialog::emptied;
use crate::dialog::first_shown;
use crate::dialog::rows_text;
use crate::dialog::text_of_rows;
use crate::dialog::update_pending_tool_to_first;
use crate::dialog::update_run_command_to_running;
use crate::events::Effect;
use crate::events::InputEvent;
use crate::events::Outbox;
use crate::events::OutputEvent;
use crate::helper_block::block_pushed;
use crate::helper_block::cleared;
use crate::helper_block::error_rows;
use crate::helper_block::push_clear_message;
use crate::helper_block::push_error_message;
use crate::helper_block::render_system_message;
use crate::helper_block::row_pushed;
use crate::helper_block::system_rows;
use crate::helper_block::tinted;
use crate::images::ImageFile;
use crate::images::ImageView;
use crate::images::MAX_ATTEMPTS;
use crate::images::all_converted;
use crate::images::convert_all_pending_paths;
use crate::images::draft;
use crate::images::image_views;
use crate::images::is_supported_format;
use crate::images::pending_converted;
use crate::images::supported;
use crate::input::Paste;
use crate::input::is_slash;
use crate::input::paste_placeholder;
use crate::input::starts_slash;
use crate::input::text_pasted;
use crate::message::BubbleColors;
use crate::message::Message;
use crate::message::MessageContent;
use crate::message::appended;
use crate::message::new_message;
use crate::message::pushed;
use crate::models::ContentPart;
use crate::models::ToolCall;
use crate::models::ToolCallResult;
use crate::models::call_views;
use crate::models::copy_calls;
use crate::models::copy_text;
use crate::models::holds_call;
use crate::models::text_of;
use crate::shell::handle_shell_kill;
use crate::shell::reports_shell;
use crate::shell::shell_command_to_tool_call_result;
use crate::shell::shell_gone;
use crate::shell::terminate_active_shell_session;
use crate::shell::terminated;
use crate::shell::trim_shell_lines;
use crate::shell::trimmed_rows;
use crate::style::Color;
use crate::style::Line;
use crate::style::SpanView;
use crate::style::Style;
use crate::style::Tone;
use crate::style::all_lines;
use crate::style::copy_lines;
use crate::style::line_views;
use crate::text::chars_of;
use crate::text::contains;
use crate::text::find_from;
use crate::text::has_prefix;
use crate::text::holds_text;
use crate::text::is_space;
use crate::text::law_ascii_space;
use crate::text::law_trim;
use crate::text::lemma_find_from;
use crate::text::lemma_next_char;
use crate::text::next_char;
use crate::text::occurs_at;
use crate::text::replace;
use crate::text::replaced;
use crate::text::replaced_from;
use crate::text::same_text;
use crate::text::skip_space;
use crate::text::starts_with;
use crate::text::string_of;
use crate::text::texts;
use crate::text::trim;
use crate::text::trim_of;
use crate::textarea::split_at_byte;
use crate::tool::PaletteChoice;
use crate::tool::cancel_asked;
use crate::tool::execute_command_palette_selection;
use crate::tool::palette_chosen;
use crate::tool::remove_opt;
use crate::tool::without_opt;
use crate::types::CommandSource;
use crate::types::DialogApprovalState;
use crate::types::HelperCommand;
use crate::types::InputState;
use crate::types::LLMTokenUsage;
use crate::types::LoadingOperation;
use crate::types::LoadingState;
use crate::types::MessageRevertState;
use crate::types::MessagesScrollingState;
use crate::types::PendingUserMessage;
use crate::types::SessionToolCallsState;
use crate::types::ShellPopupState;
use crate::types::ShellSessionState;
use crate::types::ShortcutsPanelState;
use crate::types::ShortcutsPopupMode;
use crate::types::SidePanelState;
use crate::types::ToolCallStatus;
use crate::types::UsageTrackingState;
use crate::types::UserMessageQueueState;
use crate::user_queue::PendingView;
use crate::user_queue::is_user_message;
use crate::user_queue::shell_view;

verus! {

// ----- another session -----

/// The calls after another session was chosen: none is left.
pub open spec fn calls_reset(d: DialogApprovalState, e: DialogApprovalState) -> bool {
    &&& e == (DialogApprovalState {
        message_tool_calls: None,
        message_approved_tools: e.message_approved_tools,
        message_rejected_tools: e.message_rejected_tools,
        approval_bar: e.approval_bar,
        toggle_approved_message: true,
        ..d
    })
    &&& e.message_approved_tools@.len() == 0
    &&& e.message_rejected_tools@.len() == 0
    &&& e.approval_bar.empty()
}

fn reset_calls(d: &mut DialogApprovalState)
    ensures
        calls_reset(*old(d), *final(d)),
{
    d.message_tool_calls = None;
    d.message_approved_tools.clear();
    d.message_rejected_tools.clear();
    d.approval_bar.clear();
    d.toggle_approved_message = true;
}

/// The statuses after another session was chosen: none is left.
pub open spec fn statuses_reset(s: SessionToolCallsState, t: SessionToolCallsState) -> bool {
    &&& t == (SessionToolCallsState {
        tool_call_execution_order: t.tool_call_execution_order,
        session_tool_calls_queue: t.session_tool_calls_queue,
        ..s
    })
    &&& t.tool_call_execution_order@.len() == 0
    &&& t.session_tool_calls_queue@ == Map::<Seq<char>, ToolCallStatus>::empty()
}

fn reset_statuses(s: &mut SessionToolCallsState)
    ensures
        statuses_reset(*old(s), *final(s)),
{
    s.tool_call_execution_order.clear();
    s.session_tool_calls_queue.clear();
}

/// The conversation after another session was chosen: it is empty, and the view follows its end.
pub open spec fn conversation_reset(m: MessagesScrollingState, n: MessagesScrollingState) -> bool {
    &&& n == (MessagesScrollingState {
        messages: n.messages,
        scroll: 0,
        scroll_to_bottom: true,
        stay_at_bottom: true,
        lines_stale: true,
        ..m
    })
    &&& n.messages@.len() == 0
}

fn reset_conversation(m: &mut MessagesScrollingState)
    ensures
        conversation_reset(*old(m), *final(m)),
{
    m.messages.clear();
    m.scroll = 0;
    m.scroll_to_bottom = true;
    m.stay_at_bottom = true;
    m.lines_stale = true;
}

/// The side panel after another session was chosen.
pub open spec fn panel_reset(p: SidePanelState, q: SidePanelState) -> bool {
    &&& q == (SidePanelState { changeset: q.changeset, todos: q.todos, ..p })
    &&& q.changeset.files@.len() == 0
    &&& q.todos@.len() == 0
}

/// Drops what the side panel shows of the session.
pub fn reset_panel(p: &mut SidePanelState)
    ensures
        panel_reset(*old(p), *final(p)),
{
    p.changeset = Changeset::new();
    p.todos.clear();
}

/// The usage after another session was chosen.
pub open spec fn usage_reset(u: UsageTrackingState) -> UsageTrackingState {
    UsageTrackingState {
        total_session_usage: LLMTokenUsage::zero(),
        current_message_usage: LLMTokenUsage::zero(),
        ..u
    }
}

fn reset_usage(u: &mut UsageTrackingState)
    ensures
        *final(u) == usage_reset(*old(u)),
{
    u.total_session_usage = LLMTokenUsage::zero();
    u.current_message_usage = LLMTokenUsage::zero();
}

/// The state after everything of the session before was dropped.
pub open spec fn session_reset(pre: AppState, post: AppState) -> bool {
    &&& post == (AppState {
        dialog_approval_state: post.dialog_approval_state,
        session_tool_calls_state: post.session_tool_calls_state,
        messages_scrolling_state: post.messages_scrolling_state,
        side_panel_state: post.side_panel_state,
        usage_tracking_state: usage_reset(pre.usage_tracking_state),
        ..pre
    })
    &&& calls_reset(pre.dialog_approval_state, post.dialog_approval_state)
    &&& statuses_reset(pre.session_tool_calls_state, post.session_tool_calls_state)
    &&& conversation_reset(pre.messages_scrolling_state, post.messages_scrolling_state)
    &&& panel_reset(pre.side_panel_state, post.side_panel_state)
}

fn reset_session(state: &mut AppState)
    ensures
        session_reset(*old(state), *final(state)),
{
    reset_calls(&mut state.dialog_approval_state);
    reset_statuses(&mut state.session_tool_calls_state);
    reset_conversation(&mut state.messages_scrolling_state);
    reset_panel(&mut state.side_panel_state);
    reset_usage(&mut state.usage_tracking_state);
}

/// The state in which the shortcuts popup is closed.
pub open spec fn shortcuts_closed(s: AppState) -> AppState {
    AppState {
        shortcuts_panel_state: ShortcutsPanelState {
            is_visible: false,
            ..s.shortcuts_panel_state
        },
        ..s
    }
}

/// What choosing a session does: the backend is asked for it, and the one before is dropped.
pub open spec fn session_chosen(pre: AppState, post: AppState, sent: Outbox, out: Outbox) -> bool {
    let s = pre.sessions_state;
    if s.session_selected < s.sessions@.len() {
        let info = s.sessions@[s.session_selected as int];
        &&& sent.outputs(
            out,
            |e: OutputEvent| e matches OutputEvent::SwitchToSession(id) && id@ == info.id@,
        )
        &&& exists|a: AppState, b: AppState| #[trigger]
            session_reset(pre, a) && #[trigger] block_pushed(
                a,
                b,
                system_rows("Switching to session . "@ + info.title@),
            ) && post == shortcuts_closed(b)
    } else {
        post == pre && out == sent
    }
}

fn choose_session(state: &mut AppState, out: &mut Outbox)
    ensures
        session_chosen(*old(state), *final(state), *old(out), *final(out)),
{
    let k: usize = state.sessions_state.session_selected;
    if k >= state.sessions_state.sessions.len() {
        return;
    }
    let id: String = state.sessions_state.sessions[k].id.clone();
    let mut text: String = "Switching to session . ".to_owned();
    text.push_str(state.sessions_state.sessions[k].title.as_str());
    let _sent: bool = out.send_output(OutputEvent::SwitchToSession(id));
    reset_session(state);
    let ghost a = *state;
    render_system_message(state, text.as_str());
    let ghost b = *state;
    assert(session_reset(*old(state), a));
    assert(block_pushed(
        a,
        b,
        system_rows(
            "Switching to session . "@ + old(state).sessions_state.sessions@[k as int].title@,
        ),
    ));
    state.shortcuts_panel_state.is_visible = false;
}

// ----- the bar -----

/// Whether the call is among the approved ones.
pub open spec fn is_approved(approved: Seq<ToolCall>, call: ToolCall) -> bool {
    call_views(approved).contains(call@)
}

/// The statuses after the user decided on the calls.
pub open spec fn decided(
    queue: Map<Seq<char>, ToolCallStatus>,
    calls: Seq<ToolCall>,
    approved: Seq<ToolCall>,
) -> Map<Seq<char>, ToolCallStatus>
    decreases calls.len(),
{
    if calls.len() == 0 {
        queue
    } else {
        decided(queue, calls.drop_last(), approved).insert(
            calls.last().id@,
            if is_approved(approved, calls.last()) {
                ToolCallStatus::Approved
            } else {
                ToolCallStatus::Rejected
            },
        )
    }
}

/// The identifiers of calls.
pub open spec fn call_ids(calls: Seq<ToolCall>) -> Seq<Seq<char>> {
    calls.map_values(|c: ToolCall| c.id@)
}

/// The statuses after the user decided on the calls; the first one counts as executed.
pub open spec fn calls_decided(
    pre: SessionToolCallsState,
    post: SessionToolCallsState,
    calls: Seq<ToolCall>,
    approved: Seq<ToolCall>,
) -> bool {
    &&& post == (SessionToolCallsState {
        session_tool_calls_queue: post.session_tool_calls_queue,
        tool_call_execution_order: post.tool_call_execution_order,
        ..pre
    })
    &&& texts(post.tool_call_execution_order@) == texts(pre.tool_call_execution_order@) + call_ids(
        calls,
    )
    &&& post.session_tool_calls_queue@ == (if calls.len() > 0 {
        decided(pre.session_tool_calls_queue@, calls, approved).insert(
            calls[0].id@,
            ToolCallStatus::Executed,
        )
    } else {
        pre.session_tool_calls_queue@
    })
}

fn decide_calls(s: &mut SessionToolCallsState, calls: &Vec<ToolCall>, approved: &Vec<ToolCall>)
    ensures
        calls_decided(*old(s), *final(s), calls@, approved@),
{
    let ghost queue = s.session_tool_calls_queue@;
    let ghost order = texts(s.tool_call_execution_order@);
    let ghost ids = call_ids(calls@);
    let mut i: usize = 0;
    assert(calls@.take(0) =~= Seq::<ToolCall>::empty());
    assert(order + ids.take(0) =~= order);
    while i < calls.len()
        invariant
            i <= calls@.len(),
            ids == call_ids(calls@),
            ids.len() == calls@.len(),
            *s == (SessionToolCallsState {
                session_tool_calls_queue: s.session_tool_calls_queue,
                tool_call_execution_order: s.tool_call_execution_order,
                ..*old(s)
            }),
            texts(s.tool_call_execution_order@) == order + ids.take(i as int),
            s.session_tool_calls_queue@ == decided(queue, calls@.take(i as int), approved@),
        decreases calls@.len() - i,
    {
        let status: ToolCallStatus = if holds_call(approved, &calls[i]) {
            ToolCallStatus::Approved
        } else {
            ToolCallStatus::Rejected
        };
        let id: String = calls[i].id.clone();
        proof {
            crate::text::lemma_texts_push(s.tool_call_execution_order@, id);
            assert(ids[i as int] == id@);
            assert((order + ids.take(i as int)).push(id@) =~= order + ids.take(i + 1));
            assert(calls@.take(i + 1).drop_last() =~= calls@.take(i as int));
            assert(calls@.take(i + 1).last() == calls@[i as int]);
        }
        s.tool_call_execution_order.push(id);
        s.session_tool_calls_queue.insert(calls[i].id.clone(), status);
        i += 1;
    }
    assert(calls@.take(i as int) =~= calls@);
    assert(ids.take(i as int) =~= ids);
    if calls.len() > 0 {
        s.session_tool_calls_queue.insert(calls[0].id.clone(), ToolCallStatus::Executed);
    }
}

/// The dialog after the decisions in the bar were taken over.
pub open spec fn decisions_noted(d: DialogApprovalState, e: DialogApprovalState) -> bool {
    &&& e == (DialogApprovalState {
        message_approved_tools: e.message_approved_tools,
        message_rejected_tools: e.message_rejected_tools,
        ..d
    })
    &&& e.message_approved_tools@ == calls_with(d.approval_bar.actions@, ApprovalStatus::Approved)
    &&& e.message_rejected_tools@ == calls_with(d.approval_bar.actions@, ApprovalStatus::Rejected)
}

/// Notes which calls of the bar are approved and which rejected.
pub fn note_decisions(d: &mut DialogApprovalState)
    ensures
        decisions_noted(*old(d), *final(d)),
{
    let approved: Vec<ToolCall> = d.approval_bar.tool_calls_with(ApprovalStatus::Approved);
    let rejected: Vec<ToolCall> = d.approval_bar.tool_calls_with(ApprovalStatus::Rejected);
    d.message_approved_tools = approved;
    d.message_rejected_tools = rejected;
}

/// What starting with the first call does: an approved one is run, a rejected one refused.
pub open spec fn first_started(
    pre: AppState,
    post: AppState,
    call: ToolCall,
    approved: bool,
    sent: Outbox,
    out: Outbox,
) -> bool {
    exists|a: AppState| #[trigger]
        first_shown(pre, a, call, approved) && if approved {
            call_runs(a, post, call) && sent.outputs(
                out,
                |e: OutputEvent| e == OutputEvent::AcceptTool(call),
            )
        } else {
            post == a && sent.inputs(
                out,
                |e: InputEvent|
                    {
                        &&& e matches InputEvent::HandleReject(t, stop, color)
                        &&& text_of(t) == Some("Tool call rejected"@)
                        &&& stop
                        &&& color is None
                    },
            )
        }
}

/// Starts with the first call.
pub fn start_first(state: &mut AppState, call: &ToolCall, approved: bool, out: &mut Outbox)
    ensures
        first_started(*old(state), *final(state), *call, approved, *old(out), *final(out)),
{
    update_pending_tool_to_first(state, call, approved);
    let ghost a = *state;
    assert(first_shown(*old(state), a, *call, approved));
    if approved {
        update_run_command_to_running(state, call);
        let _sent: bool = out.send_output(OutputEvent::AcceptTool(call.clone()));
    } else {
        let _sent: bool = out.send_input(
            InputEvent::HandleReject(Some("Tool call rejected".to_owned()), true, None),
        );
    }
}

/// The state before the first call is started.
pub open spec fn bar_decided(pre: AppState, post: AppState, calls: Seq<ToolCall>) -> bool {
    exists|d: DialogApprovalState| #[trigger]
        decisions_noted(pre.dialog_approval_state, d) && calls_decided(
            pre.session_tool_calls_state,
            post.session_tool_calls_state,
            calls,
            d.message_approved_tools@,
        ) && post == (AppState {
            dialog_approval_state: DialogApprovalState {
                dialog_command: if calls.len() > 0 {
                    Some(calls[0])
                } else {
                    d.dialog_command
                },
                ..d
            },
            session_tool_calls_state: post.session_tool_calls_state,
            ..pre
        })
}

/// Takes the decisions of the bar over for the calls.
pub fn decide_bar(state: &mut AppState, calls: &Vec<ToolCall>)
    ensures
        bar_decided(*old(state), *final(state), calls@),
{
    note_decisions(&mut state.dialog_approval_state);
    let ghost d = state.dialog_approval_state;
    decide_calls(
        &mut state.session_tool_calls_state,
        calls,
        &state.dialog_approval_state.message_approved_tools,
    );
    if calls.len() > 0 {
        state.dialog_approval_state.dialog_command = Some(calls[0].clone());
    }
    assert(decisions_noted(old(state).dialog_approval_state, d));
}

/// The dialog and the bar after the decisions were taken over: the bar is closed, and so is the
/// dialog, unless it is to stay open.
pub open spec fn bar_closed(s: AppState, t: AppState, open: bool) -> bool {
    let e = t.dialog_approval_state;
    &&& t == (AppState {
        dialog_approval_state: DialogApprovalState {
            message_tool_calls: None,
            is_dialog_open: open,
            approval_bar: e.approval_bar,
            ..s.dialog_approval_state
        },
        ..s
    })
    &&& e.approval_bar.empty()
}

fn close_bar(d: &mut DialogApprovalState, open: bool)
    ensures
        *final(d) == (DialogApprovalState {
            message_tool_calls: None,
            is_dialog_open: open,
            approval_bar: final(d).approval_bar,
            ..*old(d)
        }),
        final(d).approval_bar.empty(),
{
    d.message_tool_calls = None;
    d.is_dialog_open = open;
    d.approval_bar.clear();
}

/// The dialog and the bar are closed.
pub open spec fn bar_shut(s: AppState, t: AppState) -> bool {
    bar_closed(s, t, false)
}

/// The dialog and the bar after the calls were started.
pub open spec fn bar_left(s: AppState, t: AppState, calls: Seq<ToolCall>, approved: Seq<ToolCall>)
    -> bool {
    bar_closed(s, t, first_rejected(calls, approved))
}

/// Whether there is a first call and it is not approved.
pub open spec fn first_rejected(calls: Seq<ToolCall>, approved: Seq<ToolCall>) -> bool {
    calls.len() > 0 && !is_approved(approved, calls[0])
}

/// What enter in the bar does: the decisions are taken over for the calls of the message in their
/// order, the first call is started, whichever is selected, and the bar closes. Where the first call
/// is rejected, the dialog stays open for the rejection that is under way.
pub open spec fn bar_submitted(pre: AppState, post: AppState, sent: Outbox, out: Outbox) -> bool {
    match pre.dialog_approval_state.message_tool_calls {
        None => exists|a: AppState|
            a == (AppState { dialog_approval_state: a.dialog_approval_state, ..pre })
                && decisions_noted(pre.dialog_approval_state, a.dialog_approval_state)
                && #[trigger] bar_shut(a, post) && out == sent,
        Some(calls) => exists|a: AppState, b: AppState| #[trigger]
            bar_decided(pre, a, calls@) && (if calls@.len() > 0 {
                first_started(
                    a,
                    b,
                    calls@[0],
                    is_approved(a.dialog_approval_state.message_approved_tools@, calls@[0]),
                    sent,
                    out,
                )
            } else {
                b == a && out == sent
            }) && #[trigger] bar_left(
                b,
                post,
                calls@,
                a.dialog_approval_state.message_approved_tools@,
            ),
    }
}

fn submit_bar(state: &mut AppState, out: &mut Outbox)
    ensures
        bar_submitted(*old(state), *final(state), *old(out), *final(out)),
{
    let calls: Option<Vec<ToolCall>> = match &state.dialog_approval_state.message_tool_calls {
        Some(v) => Some(copy_calls(v)),
        None => None,
    };
    match calls {
        None => {
            note_decisions(&mut state.dialog_approval_state);
            let ghost a = *state;
            close_bar(&mut state.dialog_approval_state, false);
            assert(bar_shut(a, *state));
        },
        Some(v) => {
            decide_bar(state, &v);
            let ghost a = *state;
            assert(bar_decided(*old(state), a, v@));
            let mut rejected: bool = false;
            if v.len() > 0 {
                let ok: bool = holds_call(
                    &state.dialog_approval_state.message_approved_tools,
                    &v[0],
                );
                start_first(state, &v[0], ok, out);
                rejected = !ok;
            }
            let ghost b = *state;
            close_bar(&mut state.dialog_approval_state, rejected);
            assert(bar_left(b, *state, v@, a.dialog_approval_state.message_approved_tools@));
        },
    }
}

/// Behind enter in the bar the first call of the message is the one that is dealt with; where it is
/// rejected, the dialog is open, so that the rejection is processed.
pub proof fn law_rejected_first_is_open(pre: AppState, post: AppState, sent: Outbox, out: Outbox)
    requires
        bar_submitted(pre, post, sent, out),
        pre.dialog_approval_state.message_tool_calls is Some,
        pre.dialog_approval_state.message_tool_calls->0@.len() > 0,
    ensures
        ({
            let first = pre.dialog_approval_state.message_tool_calls->0@[0];
            let d = post.dialog_approval_state;
            &&& d.dialog_command == Some(first)
            &&& d.is_dialog_open == !is_approved(d.message_approved_tools@, first)
            &&& d.approval_bar.empty()
        }),
{
}

/// The calls that were decided on keep their order behind those of before.
pub proof fn law_order_kept(
    pre: SessionToolCallsState,
    post: SessionToolCallsState,
    calls: Seq<ToolCall>,
    approved: Seq<ToolCall>,
    i: int,
)
    requires
        calls_decided(pre, post, calls, approved),
        0 <= i < calls.len(),
    ensures
        texts(post.tool_call_execution_order@)[pre.tool_call_execution_order@.len() + i]
            == calls[i].id@,
{
    assert(texts(pre.tool_call_execution_order@).len() == pre.tool_call_execution_order@.len());
}

// ----- what is typed -----

/// What is known outside when the enter key is pressed.
#[derive(Debug)]
pub struct Submission {
    /// How many rows the conversation has on the screen.
    pub area_height: usize,
    /// The working directory.
    pub cwd: String,
    /// The images that the text names.
    pub known: TextMap<ImageFile>,
    /// The text that goes out, without secrets.
    pub redacted: String,
    /// The attached images, as parts of a message.
    pub image_parts: Vec<ContentPart>,
    /// The paths of attached images at which there is no file.
    pub missing: TextSet,
    /// The chosen entry of the command palette.
    pub choice: Option<PaletteChoice>,
}

/// The text with the first waiting paste whose placeholder it holds.
pub open spec fn paste_expanded(text: Seq<char>, pastes: Seq<(String, String)>, k: int) -> Seq<char>
    decreases pastes.len() - k,
{
    if k < 0 || k >= pastes.len() {
        text
    } else if holds_text(text, pastes[k].0@) {
        replaced(text, pastes[k].0@, pastes[k].1@)
    } else {
        paste_expanded(text, pastes, k + 1)
    }
}

/// The text that goes out, before secrets are taken out of it: image paths are placeholders, and
/// pasted texts stand in full.
pub open spec fn outgoing(i: InputState, known: Map<Seq<char>, ImageFile>) -> Seq<char> {
    let text = paste_expanded(
        all_converted(draft(i), known, MAX_ATTEMPTS as nat).area.text,
        i.pending_pastes@,
        0,
    );
    match (i.pasted_placeholder, i.pasted_long_text) {
        (Some(p), Some(t)) => if holds_text(text, p@) {
            replaced(text, p@, t@)
        } else {
            text
        },
        _ => text,
    }
}

fn expand_paste(text: String, pastes: &Vec<(String, String)>) -> (r: String)
    ensures
        r@ == paste_expanded(text@, pastes@, 0),
{
    let mut k: usize = 0;
    while k < pastes.len()
        invariant
            k <= pastes@.len(),
            paste_expanded(text@, pastes@, 0) == paste_expanded(text@, pastes@, k as int),
        decreases pastes@.len() - k,
    {
        if contains(text.as_str(), pastes[k].0.as_str()) {
            return replace(text.as_str(), pastes[k].0.as_str(), pastes[k].1.as_str());
        }
        k += 1;
    }
    text
}

/// The text that goes out if enter is pressed, before secrets are taken out of it.
pub fn outgoing_text(i: &InputState, known: &TextMap<ImageFile>) -> (r: String)
    ensures
        r@ == outgoing(*i, known@),
{
    let converted: String = crate::images::converted_text(i, known);
    let text: String = expand_paste(converted, &i.pending_pastes);
    match (&i.pasted_placeholder, &i.pasted_long_text) {
        (Some(p), Some(t)) => if contains(text.as_str(), p.as_str()) {
            replace(text.as_str(), p.as_str(), t.as_str())
        } else {
            text
        },
        _ => text,
    }
}

/// A text in which the placeholder of a paste stands once has the pasted text in its place.
proof fn lemma_replaced_once(before: Seq<char>, p: Seq<char>, after: Seq<char>, t: Seq<char>)
    requires
        p.len() > 0,
        forall|j: int| occurs_at(before + p + after, p, j) ==> j == before.len(),
    ensures
        holds_text(before + p + after, p),
        replaced(before + p + after, p, t) == before + t + after,
{
    let s = before + p + after;
    let k = before.len() as int;
    assert(s.subrange(k, k + p.len()) =~= p);
    assert(occurs_at(s, p, k));
    lemma_find_from(s, p, 0);
    lemma_find_from(s, p, k + p.len());
    assert(find_from(s, p, 0) == Some(k));
    assert(find_from(s, p, k + p.len()) is None);
    assert(s.subrange(0, k) =~= before);
    assert(s.subrange(k + p.len(), s.len() as int) =~= after);
    assert(replaced_from(s, p, t, k + p.len()) == after);
}

/// A long text that was pasted goes out in full, as if it had been typed where it was pasted; here
/// its placeholder stands nowhere else, and the text names no image that is known.
pub proof fn law_paste_comes_back(
    pre: InputState,
    post: InputState,
    p: Paste,
    known: Map<Seq<char>, ImageFile>,
)
    requires
        text_pasted(pre, post, p),
        p.text@.len() > p.max_chars,
        pre.pending_pastes@.len() == 0,
        pre.pasted_placeholder is None,
        forall|j: int|
            occurs_at(post.text_area@.text, paste_placeholder(p.text@.len()), j) ==> j
                == split_at_byte(pre.text_area@.text, pre.text_area@.cursor).0.len(),
        all_converted(draft(post), known, MAX_ATTEMPTS as nat).area.text == post.text_area@.text,
    ensures
        outgoing(post, known) == typed(pre.text_area@, p.text@).text,
{
    let mark = paste_placeholder(p.text@.len());
    reveal_strlit("[Pasted Content ");
    let halves = split_at_byte(pre.text_area@.text, pre.text_area@.cursor);
    assert(post.text_area@.text == halves.0 + mark + halves.1);
    lemma_replaced_once(halves.0, mark, halves.1, p.text@);
}

// ----- the end of the view -----

/// How far a conversation of `n` messages can be scrolled, two rows for each message, on a screen
/// with the given height of which the input takes three rows.
pub open spec fn last_scroll(n: nat, height: usize) -> usize {
    let visible = if height > 4 {
        height - 3
    } else {
        1
    };
    let r = 2 * n - visible;
    if r < 0 {
        0
    } else if r > usize::MAX {
        usize::MAX
    } else {
        r as usize
    }
}

fn find_last_scroll(n: usize, height: usize) -> (r: usize)
    ensures
        r == last_scroll(n as nat, height),
{
    let visible: usize = if height > 4 {
        height - 3
    } else {
        1
    };
    if n >= visible {
        let more: usize = n - visible;
        if more > usize::MAX - n {
            usize::MAX
        } else {
            more + n
        }
    } else if n >= visible - n {
        n - (visible - n)
    } else {
        0
    }
}

/// The conversation after a message went out: where the view was at the end, it stays there.
pub open spec fn end_followed(m: MessagesScrollingState, height: usize, at_end: bool)
    -> MessagesScrollingState {
    if at_end {
        MessagesScrollingState {
            scroll: last_scroll(m.messages@.len(), height),
            scroll_to_bottom: true,
            stay_at_bottom: true,
            ..m
        }
    } else {
        m
    }
}

fn follow_end(m: &mut MessagesScrollingState, height: usize, at_end: bool)
    ensures
        *final(m) == end_followed(*old(m), height, at_end),
{
    if at_end {
        let n: usize = m.messages.len();
        m.scroll = find_last_scroll(n, height);
        m.scroll_to_bottom = true;
        m.stay_at_bottom = true;
    }
}

/// What showing a text in the user's name does, without sending it.
pub open spec fn submitted_with(
    pre: AppState,
    post: AppState,
    text: String,
    color: Option<Color>,
    height: usize,
) -> bool {
    let m = pre.messages_scrolling_state;
    let n = post.messages_scrolling_state;
    let at_end = m.scroll == last_scroll(m.messages@.len(), height);
    &&& post == (AppState {
        shell_popup_state: ShellPopupState { shell_tool_calls: None, ..pre.shell_popup_state },
        messages_scrolling_state: n,
        ..pre.with_text(post.input_state.text_area)
    })
    &&& post.input_state.text_area@ == emptied(pre.input_state.text_area@)
    &&& pushed(
        m.messages@,
        n.messages@,
        |c: MessageContent|
            c == MessageContent::SubmittedWith(
                text,
                match color {
                    Some(k) => Some(Style::plain().fg(k)),
                    None => None,
                },
            ),
    )
    &&& n == end_followed(
        MessagesScrollingState {
            messages: n.messages,
            content_changed_while_scrolled_up: m.content_changed_while_scrolled_up || !at_end,
            ..m
        },
        height,
        at_end,
    )
}

fn push_submitted(
    m: &mut MessagesScrollingState,
    text: String,
    color: Option<Color>,
    height: usize,
)
    ensures
        ({
            let at_end = old(m).scroll == last_scroll(old(m).messages@.len(), height);
            &&& pushed(
                old(m).messages@,
                final(m).messages@,
                |c: MessageContent|
                    c == MessageContent::SubmittedWith(
                        text,
                        match color {
                            Some(k) => Some(Style::plain().fg(k)),
                            None => None,
                        },
                    ),
            )
            &&& *final(m) == end_followed(
                MessagesScrollingState {
                    messages: final(m).messages,
                    content_changed_while_scrolled_up: old(m).content_changed_while_scrolled_up
                        || !at_end,
                    ..*old(m)
                },
                height,
                at_end,
            )
        }),
{
    let n: usize = m.messages.len();
    let at_end: bool = m.scroll == find_last_scroll(n, height);
    let style: Option<Style> = match color {
        Some(k) => Some(Style::plain().fg(k)),
        None => None,
    };
    m.messages.push(Message::new(MessageContent::SubmittedWith(text, style)));
    assert(m.messages@.drop_last() =~= old(m).messages@);
    if !at_end {
        m.content_changed_while_scrolled_up = true;
    }
    follow_end(m, height, at_end);
}

/// Shows a text in the user's name, without sending it.
pub fn handle_input_submitted_with(
    state: &mut AppState,
    s: String,
    color: Option<Color>,
    message_area_height: usize,
)
    ensures
        submitted_with(*old(state), *final(state), s, color, message_area_height),
{
    state.shell_popup_state.shell_tool_calls = None;
    push_submitted(&mut state.messages_scrolling_state, s, color, message_area_height);
    clear_text(&mut state.input_state.text_area);
}

// ----- enter in the shell -----

/// What enter in the shell does: the text goes to the command that runs, or is a command to run.
pub open spec fn shell_entered(pre: AppState, post: AppState, sent: Outbox, out: Outbox) -> bool {
    let text = pre.input_state.text_area@.text;
    if pre.shell_popup_state.active_shell_command is Some {
        &&& post == (AppState {
            shell_popup_state: ShellPopupState {
                waiting_for_shell_input: false,
                ..pre.shell_popup_state
            },
            ..pre.with_text(post.input_state.text_area)
        })
        &&& post.input_state.text_area@ == emptied(pre.input_state.text_area@)
        &&& sent.affects(out, |e: Effect| e matches Effect::ShellInput(t) && t@ == text)
    } else if trim_of(text).len() > 0 {
        &&& post == pre.with_input(
            InputState {
                text_area: post.input_state.text_area,
                show_helper_dropdown: false,
                ..pre.input_state
            },
        )
        &&& post.input_state.text_area@ == emptied(pre.input_state.text_area@)
        &&& sent.inputs(out, |e: InputEvent| e matches InputEvent::RunShellCommand(t) && t@ == text)
    } else {
        post == pre && out == sent
    }
}

fn enter_in_shell(state: &mut AppState, out: &mut Outbox)
    ensures
        shell_entered(*old(state), *final(state), *old(out), *final(out)),
{
    let text: String = state.input_state.text_area.text().to_owned();
    if state.shell_popup_state.active_shell_command.is_some() {
        out.ask(Effect::ShellInput(text));
        clear_text(&mut state.input_state.text_area);
        state.shell_popup_state.waiting_for_shell_input = false;
        return;
    }
    let t: String = trim(text.as_str());
    if !is_empty(t.as_str()) {
        let _sent: bool = out.send_input(InputEvent::RunShellCommand(text));
        clear_text(&mut state.input_state.text_area);
        state.input_state.show_helper_dropdown = false;
    }
}

// ----- commands -----

/// The second word of a text.
pub open spec fn second_word(s: Seq<char>) -> Option<Seq<char>> {
    let i = skip_space(s, 0);
    let e = crate::banner::word_end(s, i);
    let j = skip_space(s, e);
    let f = crate::banner::word_end(s, j);
    if j < f {
        Some(s.subrange(j, f))
    } else {
        None
    }
}

fn find_word_end(v: &Vec<char>, i: usize) -> (e: usize)
    requires
        i <= v@.len(),
    ensures
        e == crate::banner::word_end(v@, i as int),
        i <= e <= v@.len(),
{
    let mut e: usize = i;
    while e < v.len() && !crate::text::is_white(v[e])
        invariant
            i <= e <= v@.len(),
            crate::banner::word_end(v@, i as int) == crate::banner::word_end(v@, e as int),
        decreases v@.len() - e,
    {
        e += 1;
    }
    e
}

fn find_second_word(s: &str) -> (r: Option<String>)
    ensures
        text_of(r) == second_word(s@),
{
    let v: Vec<char> = chars_of(s);
    let i: usize = crate::text::skip_white(&v, 0);
    let e: usize = find_word_end(&v, i);
    let j: usize = crate::text::skip_white(&v, e);
    let f: usize = find_word_end(&v, j);
    if j < f {
        Some(string_of(&v, j, f))
    } else {
        None
    }
}

/// The state with an empty input and no offers on the screen.
pub open spec fn input_taken(pre: AppState, post: AppState) -> bool {
    &&& post == pre.with_input(
        InputState {
            text_area: post.input_state.text_area,
            show_helper_dropdown: false,
            ..pre.input_state
        },
    )
    &&& post.input_state.text_area@ == emptied(pre.input_state.text_area@)
}

fn take_input(state: &mut AppState)
    ensures
        input_taken(*old(state), *final(state)),
{
    clear_text(&mut state.input_state.text_area);
    state.input_state.show_helper_dropdown = false;
}

/// What the command that turns approving on or off does: it needs the name of a tool.
pub open spec fn toggle_entered(pre: AppState, post: AppState, sent: Outbox, out: Outbox) -> bool {
    match second_word(pre.input_state.text_area@.text) {
        Some(name) => input_taken(pre, post) && sent.affects(
            out,
            |e: Effect| e matches Effect::ToggleToolApproval(t) && t@ == name,
        ),
        None => out == sent && exists|mid: AppState| #[trigger]
            block_pushed(
                pre,
                mid,
                error_rows("Usage: /toggle_auto_approve <tool_name>"@, false),
            ) && input_taken(mid, post),
    }
}

fn enter_toggle(state: &mut AppState, out: &mut Outbox)
    ensures
        toggle_entered(*old(state), *final(state), *old(out), *final(out)),
{
    match find_second_word(state.input_state.text_area.text()) {
        Some(name) => {
            out.ask(Effect::ToggleToolApproval(name));
        },
        None => {
            push_error_message(state, "Usage: /toggle_auto_approve <tool_name>", None);
            let ghost mid = *state;
            assert(block_pushed(
                *old(state),
                mid,
                error_rows("Usage: /toggle_auto_approve <tool_name>"@, false),
            ));
        },
    }
    take_input(state);
}

/// What is said of a tool whose approving was turned on or off.
pub open spec fn approval_toggled(
    pre: AppState,
    post: AppState,
    tool: Seq<char>,
    result: Result<bool, String>,
) -> bool {
    match result {
        Ok(on) => {
            let text = "Auto-approve "@ + (if on {
                "enabled"@
            } else {
                "disabled"@
            }) + " for "@ + tool + " tool"@;
            row_pushed(
                pre,
                post,
                seq![
                    tinted(""@, Color::Theme(Tone::Yellow)),
                    tinted(text, Color::Theme(Tone::Yellow)),
                ],
            )
        },
        Err(e) => block_pushed(
            pre,
            post,
            error_rows("Failed to toggle auto-approve for "@ + tool + ": "@ + e@, false),
        ),
    }
}

/// Says how approving a tool was turned on or off.
pub fn handle_tool_approval_toggled(
    state: &mut AppState,
    tool: &str,
    result: Result<bool, String>,
)
    ensures
        approval_toggled(*old(state), *final(state), tool@, result),
{
    match result {
        Ok(on) => {
            let mut text: String = "Auto-approve ".to_owned();
            text.push_str(
                if on {
                    "enabled"
                } else {
                    "disabled"
                },
            );
            text.push_str(" for ");
            text.push_str(tool);
            text.push_str(" tool");
            crate::helper_block::push_styled_message(
                state,
                text.as_str(),
                Color::Theme(Tone::Yellow),
                "",
                Color::Theme(Tone::Yellow),
            );
        },
        Err(e) => {
            let mut text: String = "Failed to toggle auto-approve for ".to_owned();
            text.push_str(tool);
            text.push_str(": ");
            text.push_str(e.as_str());
            push_error_message(state, text.as_str(), None);
        },
    }
}

/// Whether the input offers something that enter takes.
pub open spec fn has_offer(i: InputState) -> bool {
    i.file_search.is_file_mode || i.filtered_helpers@.len() > 0
}

/// What enter does with an offer: a file goes into the text, and so does a command of the user; any
/// other command is run.
pub open spec fn offer_taken(pre: AppState, post: AppState, sent: Outbox, out: Outbox) -> bool {
    let i = pre.input_state;
    let k = post.input_state;
    if i.file_search.is_file_mode {
        post == pre.with_input(k) && selected_file_chosen(i, k) && out == sent
    } else if i.helper_selected < i.filtered_helpers@.len() {
        let h = i.filtered_helpers@[i.helper_selected as int];
        if h.source is Custom {
            post == pre.with_input(k) && command_written(i, k, h.command@.push(' ')) && out == sent
        } else {
            post == pre && sent.affects(
                out,
                |e: Effect| e matches Effect::Command(t) && t@ == h.command@,
            )
        }
    } else {
        post == pre && out == sent
    }
}

fn take_offer(state: &mut AppState, out: &mut Outbox)
    ensures
        offer_taken(*old(state), *final(state), *old(out), *final(out)),
{
    if state.input_state.file_search.is_active() {
        choose_selected_file(&mut state.input_state);
        return;
    }
    let k: usize = state.input_state.helper_selected;
    if k < state.input_state.filtered_helpers.len() {
        let command: String = state.input_state.filtered_helpers[k].command.clone();
        let custom: bool = match &state.input_state.filtered_helpers[k].source {
            CommandSource::Custom { .. } => true,
            _ => false,
        };
        if custom {
            write_command(&mut state.input_state, command.as_str(), true);
        } else {
            out.ask(Effect::Command(command));
        }
    }
}

/// Whether the command has a prompt and the text gives arguments to it.
pub open spec fn prompts(h: HelperCommand, text: Seq<char>) -> bool {
    !(h.source is BuiltIn) && has_prefix(text, h.command@.push(' '))
}

/// The first command from the `k`th on that has a prompt and gets arguments.
pub open spec fn first_prompt(helpers: Seq<HelperCommand>, text: Seq<char>, k: int) -> Option<
    Seq<char>,
>
    decreases helpers.len() - k,
{
    if k < 0 || k >= helpers.len() {
        None
    } else if prompts(helpers[k], text) {
        Some(helpers[k].command@)
    } else {
        first_prompt(helpers, text, k + 1)
    }
}

/// The first command from the `k`th on with the name.
pub open spec fn first_named(helpers: Seq<HelperCommand>, name: Seq<char>, k: int) -> Option<
    Seq<char>,
>
    decreases helpers.len() - k,
{
    if k < 0 || k >= helpers.len() {
        None
    } else if helpers[k].command@ == name {
        Some(helpers[k].command@)
    } else {
        first_named(helpers, name, k + 1)
    }
}

/// The command that a text names: one that takes arguments, one with a prompt and arguments, or one
/// by its name alone.
pub open spec fn named_command(helpers: Seq<HelperCommand>, text: Seq<char>) -> Option<Seq<char>> {
    let e = next_char(text, ' ', 0);
    let word = text.take(e);
    let name = trim_of(text);
    if e < text.len() && (word == "/editor"@ || word == "/toggle_auto_approve"@) {
        Some(word)
    } else if is_slash(name) {
        match first_prompt(helpers, text, 0) {
            Some(c) => Some(c),
            None => first_named(helpers, name, 0),
        }
    } else {
        None
    }
}

fn is_prompt(h: &HelperCommand, text: &str) -> (r: bool)
    ensures
        r == prompts(*h, text@),
{
    let mut start: String = h.command.clone();
    start.push(' ');
    match &h.source {
        CommandSource::BuiltIn => false,
        _ => starts_with(text, start.as_str()),
    }
}

fn find_prompt(helpers: &Vec<HelperCommand>, text: &str) -> (r: Option<String>)
    ensures
        text_of(r) == first_prompt(helpers@, text@, 0),
{
    let mut k: usize = 0;
    while k < helpers.len()
        invariant
            k <= helpers@.len(),
            first_prompt(helpers@, text@, 0) == first_prompt(helpers@, text@, k as int),
        decreases helpers@.len() - k,
    {
        if is_prompt(&helpers[k], text) {
            return Some(helpers[k].command.clone());
        }
        k += 1;
    }
    None
}

fn find_named(helpers: &Vec<HelperCommand>, name: &str) -> (r: Option<String>)
    ensures
        text_of(r) == first_named(helpers@, name@, 0),
{
    let mut k: usize = 0;
    while k < helpers.len()
        invariant
            k <= helpers@.len(),
            first_named(helpers@, name@, 0) == first_named(helpers@, name@, k as int),
        decreases helpers@.len() - k,
    {
        if same_text(helpers[k].command.as_str(), name) {
            return Some(helpers[k].command.clone());
        }
        k += 1;
    }
    None
}

/// The command that a text names.
pub fn find_command(helpers: &Vec<HelperCommand>, text: &str) -> (r: Option<String>)
    ensures
        text_of(r) == named_command(helpers@, text@),
{
    let v: Vec<char> = chars_of(text);
    let e: usize = crate::text::find_char(&v, ' ', 0);
    let word: String = string_of(&v, 0, e);
    assert(word@ =~= text@.take(e as int));
    if e < v.len() && (same_text(word.as_str(), "/editor") || same_text(
        word.as_str(),
        "/toggle_auto_approve",
    )) {
        return Some(word);
    }
    let name: String = trim(text);
    if !starts_slash(name.as_str()) {
        return None;
    }
    match find_prompt(helpers, text) {
        Some(c) => Some(c),
        None => find_named(helpers, name.as_str()),
    }
}

// ----- sending -----

/// The rows of the shell's history, without its last one, the prompt.
pub open spec fn visit_rows(s: AppState) -> Seq<Seq<SpanView>> {
    let rows = trimmed_rows(line_views(s.shell_runtime_state.history_lines@));
    if rows.len() > 0 {
        rows.drop_last()
    } else {
        rows
    }
}

/// A report of the shell went out as the result of the call that it was opened for.
pub open spec fn history_answered(s: AppState, sent: Outbox, out: Outbox) -> bool {
    let rows = trimmed_rows(line_views(s.shell_runtime_state.history_lines@));
    if rows.len() > 0 {
        crate::dialog::shell_answered(s, sent, out)
    } else {
        out == sent
    }
}

/// Whether a shell that a call opened is in the background.
pub open spec fn call_shell_behind(p: ShellPopupState) -> bool {
    p.is_tool_call_shell_command && p.active_shell_command is Some && !p.is_expanded
}

/// What sending a message does to a shell that a call opened: the stream is stopped, the shell's
/// history goes out as the call's result, and the shell is ended.
pub open spec fn call_shell_ended(pre: AppState, post: AppState, sent: Outbox, out: Outbox)
    -> bool {
    if call_shell_behind(pre.shell_popup_state) {
        exists|a: Outbox, b: Outbox, mid: AppState| #[trigger]
            cancel_asked(sent, a) && #[trigger] history_answered(pre, a, b) && #[trigger] terminated(
                pre,
                mid,
                b,
                out,
            ) && post == (AppState {
                shell_popup_state: ShellPopupState {
                    is_tool_call_shell_command: false,
                    ..mid.shell_popup_state
                },
                ..mid
            })
    } else {
        post == pre && out == sent
    }
}

fn answer_history(state: &AppState, out: &mut Outbox)
    ensures
        history_answered(*state, *old(out), *final(out)),
{
    let history: Vec<Line> = trim_shell_lines(all_lines(&state.shell_runtime_state.history_lines));
    assert(line_views(history@).len() == history@.len());
    if history.len() > 0 {
        let text: String = text_of_rows(&history);
        let result: ToolCallResult = shell_command_to_tool_call_result(
            state,
            copy_text(&state.shell_popup_state.pending_command_value),
            Some(text),
        );
        let none: Vec<ToolCall> = Vec::new();
        let _sent: bool = out.send_output(OutputEvent::SendToolResult(result, false, none));
    }
}

fn end_call_shell(state: &mut AppState, out: &mut Outbox)
    ensures
        call_shell_ended(*old(state), *final(state), *old(out), *final(out)),
{
    if state.shell_popup_state.is_tool_call_shell_command
        && state.shell_popup_state.active_shell_command.is_some()
        && !state.shell_popup_state.is_expanded {
        out.ask(Effect::CancelStream);
        let ghost a = *out;
        answer_history(state, out);
        let ghost b = *out;
        terminate_active_shell_session(state, out);
        let ghost mid = *state;
        assert(cancel_asked(*old(out), a));
        assert(history_answered(*old(state), a, b));
        assert(terminated(*old(state), mid, b, *out));
        state.shell_popup_state.is_tool_call_shell_command = false;
    }
}

/// Whether a shell that the user opened is in the background.
pub open spec fn own_shell_behind(p: ShellPopupState) -> bool {
    p.ondemand_shell_mode && p.active_shell_command is Some && !p.is_expanded
}

/// Whether the content shows what the user did in the shell.
pub open spec fn shows_visit(c: MessageContent, rows: Seq<Seq<SpanView>>, width: usize) -> bool {
    c matches MessageContent::RenderRefreshedTerminal(t, l, b, w) && t@ == "Shell history"@
        && line_views(l@) == rows && w == width && visit_bubble(b)
}

pub open spec fn visit_bubble(b: Option<BubbleColors>) -> bool {
    b matches Some(k) && k.border_color == Color::Theme(Tone::Magenta) && k.title_color
        == Color::Theme(Tone::Magenta) && k.content_color == Color::Reset && k.tool_type@
        == "Shell"@
}

/// The popup with another report that goes out with the next message.
pub open spec fn report_added(p: ShellPopupState, q: ShellPopupState, r: ToolCallResult) -> bool {
    &&& q == (ShellPopupState { shell_tool_calls: q.shell_tool_calls, ..p })
    &&& shell_view(q.shell_tool_calls) == Some(
        (match p.shell_tool_calls {
            Some(v) => v@,
            None => Seq::empty(),
        }).push(r),
    )
}

fn add_report(p: &mut ShellPopupState, r: ToolCallResult)
    ensures
        report_added(*old(p), *final(p), r),
{
    let mut calls: Option<Vec<ToolCallResult>> = None;
    std::mem::swap(&mut calls, &mut p.shell_tool_calls);
    let mut all: Vec<ToolCallResult> = match calls {
        Some(v) => v,
        None => Vec::new(),
    };
    proof {
        if old(p).shell_tool_calls is None {
            assert(all@ =~= Seq::<ToolCallResult>::empty());
        }
    }
    all.push(r);
    p.shell_tool_calls = Some(all);
}

/// The state after what the user did in the shell was put into the conversation and reported.
pub open spec fn visit_shown(pre: AppState, post: AppState) -> bool {
    let rows = visit_rows(pre);
    if rows.len() > 0 {
        &&& post == (AppState {
            messages_scrolling_state: MessagesScrollingState {
                messages: post.messages_scrolling_state.messages,
                ..pre.messages_scrolling_state
            },
            shell_popup_state: post.shell_popup_state,
            ..pre
        })
        &&& pushed(
            pre.messages_scrolling_state.messages@,
            post.messages_scrolling_state.messages@,
            |c: MessageContent|
                shows_visit(c, rows, pre.terminal_ui_state.terminal_size.width as usize),
        )
        &&& exists|r: ToolCallResult| #[trigger]
            report_added(pre.shell_popup_state, post.shell_popup_state, r) && reports_shell(
                r,
                pre.dialog_approval_state.dialog_command,
                pre.shell_popup_state.active_shell_command,
                Some("/bin/bash (Interactive Session)"@),
                Some(rows_text(rows)),
            )
    } else {
        post == pre
    }
}

fn show_visit(state: &mut AppState)
    ensures
        visit_shown(*old(state), *final(state)),
{
    let history: Vec<Line> = trim_shell_lines(all_lines(&state.shell_runtime_state.history_lines));
    let ghost all = line_views(history@);
    assert(all.len() == history@.len());
    let n: usize = if history.len() > 0 {
        history.len() - 1
    } else {
        0
    };
    let rows: Vec<Line> = copy_lines(&history, 0, n);
    proof {
        if history@.len() > 0 {
            assert(line_views(rows@) =~= all.drop_last());
        } else {
            assert(line_views(rows@) =~= all);
        }
        assert(line_views(rows@) == visit_rows(*state));
        assert(line_views(rows@).len() == rows@.len());
    }
    if rows.len() == 0 {
        return;
    }
    let text: String = text_of_rows(&rows);
    let result: ToolCallResult = shell_command_to_tool_call_result(
        state,
        Some("/bin/bash (Interactive Session)".to_owned()),
        Some(text),
    );
    let content: MessageContent = MessageContent::RenderRefreshedTerminal(
        "Shell history".to_owned(),
        rows,
        Some(
            BubbleColors {
                border_color: Color::Theme(Tone::Magenta),
                title_color: Color::Theme(Tone::Magenta),
                content_color: Color::Reset,
                tool_type: "Shell".to_owned(),
            },
        ),
        state.terminal_ui_state.terminal_size.width as usize,
    );
    state.messages_scrolling_state.messages.push(Message::new(content));
    assert(state.messages_scrolling_state.messages@.drop_last()
        =~= old(state).messages_scrolling_state.messages@);
    add_report(&mut state.shell_popup_state, result);
    assert(report_added(old(state).shell_popup_state, state.shell_popup_state, result));
}

/// The state after a shell that the user opened was put away: its bubble and its history are gone.
pub open spec fn shell_put_away(pre: AppState, post: AppState) -> bool {
    &&& post == (AppState {
        messages_scrolling_state: MessagesScrollingState {
            messages: post.messages_scrolling_state.messages,
            ..pre.messages_scrolling_state
        },
        shell_session_state: ShellSessionState {
            interactive_shell_message_id: None,
            ..pre.shell_session_state
        },
        shell_popup_state: ShellPopupState {
            active_shell_command: None,
            active_shell_command_output: None,
            is_visible: false,
            is_expanded: false,
            ondemand_shell_mode: false,
            ..pre.shell_popup_state
        },
        shell_runtime_state: post.shell_runtime_state,
        ..pre
    })
    &&& post.messages_scrolling_state.messages@ == without_opt(
        pre.messages_scrolling_state.messages@,
        pre.shell_session_state.interactive_shell_message_id,
    )
    &&& post.shell_runtime_state.screen == pre.shell_runtime_state.screen
    &&& post.shell_runtime_state.scroll == pre.shell_runtime_state.scroll
    &&& post.shell_runtime_state.history_lines@.len() == 0
}

fn put_popup_away(p: &mut ShellPopupState)
    ensures
        *final(p) == (ShellPopupState {
            active_shell_command: None,
            active_shell_command_output: None,
            is_visible: false,
            is_expanded: false,
            ondemand_shell_mode: false,
            ..*old(p)
        }),
{
    p.active_shell_command = None;
    p.active_shell_command_output = None;
    p.is_visible = false;
    p.is_expanded = false;
    p.ondemand_shell_mode = false;
}

fn put_shell_away(state: &mut AppState)
    ensures
        shell_put_away(*old(state), *final(state)),
{
    let id: Option<u128> = state.shell_session_state.interactive_shell_message_id;
    remove_opt(&mut state.messages_scrolling_state.messages, id);
    state.shell_session_state.interactive_shell_message_id = None;
    put_popup_away(&mut state.shell_popup_state);
    state.shell_runtime_state.history_lines.clear();
}

/// What sending a message does to a shell in the background: it is ended, and what the user did in
/// one that they opened goes out with the message.
pub open spec fn shell_wrapped_up(pre: AppState, post: AppState, sent: Outbox, out: Outbox)
    -> bool {
    if own_shell_behind(pre.shell_popup_state) {
        exists|a: AppState, b: AppState| #[trigger]
            visit_shown(pre, a) && #[trigger] shell_put_away(a, b) && shell_gone(b, post)
                && sent.affects(out, |e: Effect| e is KillShell)
    } else {
        terminated(pre, post, sent, out)
    }
}

fn wrap_up_shell(state: &mut AppState, out: &mut Outbox)
    ensures
        shell_wrapped_up(*old(state), *final(state), *old(out), *final(out)),
{
    if state.shell_popup_state.ondemand_shell_mode
        && state.shell_popup_state.active_shell_command.is_some()
        && !state.shell_popup_state.is_expanded {
        show_visit(state);
        let ghost a = *state;
        put_shell_away(state);
        let ghost b = *state;
        assert(visit_shown(*old(state), a) && shell_put_away(a, b));
        out.ask(Effect::KillShell);
        handle_shell_kill(state, out);
    } else {
        terminate_active_shell_session(state, out);
    }
}

/// The model that answers: the one that is known to, else the configured one.
pub open spec fn active_limit(s: AppState) -> u64 {
    match s.model_switcher_state.current_model {
        Some(m) => m.context_limit,
        None => s.configuration_state.model.context_limit,
    }
}

/// Whether the conversation leaves room for another message: its tokens take up less than 91.5 of
/// 100 parts of what the model can hold.
pub open spec fn leaves_room(tokens: u32, limit: u64) -> bool {
    let max = limit % 0x1_0000_0000;
    let used = if tokens as int <= max as int {
        tokens as int
    } else {
        max as int
    };
    max == 0 || 200 * used < 183 * max
}

fn has_room(tokens: u32, limit: u64) -> (r: bool)
    ensures
        r == leaves_room(tokens, limit),
{
    let max: u64 = limit % 0x1_0000_0000;
    let used: u64 = if (tokens as u64) <= max {
        tokens as u64
    } else {
        max
    };
    max == 0 || 200 * used < 183 * max
}

/// A small letter of ASCII as a capital one.
pub open spec fn capital_letter(c: char) -> char {
    if 'a' <= c <= 'z' {
        ((c as u32) - 32) as char
    } else {
        c
    }
}

/// The text with capital letters in place of the small ones of ASCII.
pub open spec fn capital_letters(s: Seq<char>) -> Seq<char> {
    s.map_values(|c: char| capital_letter(c))
}

fn to_capitals(s: &str) -> (r: String)
    ensures
        r@ == capital_letters(s@),
{
    let v: Vec<char> = chars_of(s);
    let mut r: String = String::new();
    let mut i: usize = 0;
    assert(r@ =~= capital_letters(s@).take(0));
    while i < v.len()
        invariant
            i <= v@.len(),
            v@ == s@,
            capital_letters(s@).len() == v@.len(),
            r@ == capital_letters(s@).take(i as int),
        decreases v@.len() - i,
    {
        let c: char = v[i];
        let d: char = if 'a' <= c && c <= 'z' {
            ((c as u8) - 32) as char
        } else {
            c
        };
        proof {
            assert(capital_letters(s@)[i as int] == capital_letter(c));
            assert(capital_letters(s@).take(i + 1) =~= capital_letters(s@).take(i as int).push(
                capital_letter(c),
            ));
        }
        r.push(d);
        i += 1;
    }
    assert(capital_letters(s@).take(i as int) =~= capital_letters(s@));
    r
}

/// What is wrong with an attached image.
pub open spec fn image_error(i: ImageView, missing: Set<Seq<char>>) -> Option<Seq<char>> {
    if missing.contains(i.path) {
        Some("Image file not found: "@ + i.path)
    } else if !supported(i.extension) {
        Some(
            "Unsupported image format: "@ + i.filename + " ("@ + capital_letters(i.extension->0)
                + "). Supported formats: JPEG, PNG, GIF, WebP"@,
        )
    } else {
        None
    }
}

fn find_image_error(i: &crate::types::AttachedImage, missing: &TextSet) -> (r: Option<String>)
    ensures
        text_of(r) == image_error(i@, missing@),
{
    if missing.contains(i.path.as_str()) {
        let mut t: String = "Image file not found: ".to_owned();
        t.push_str(i.path.as_str());
        return Some(t);
    }
    if !is_supported_format(&i.extension) {
        match &i.extension {
            Some(e) => {
                let mut t: String = "Unsupported image format: ".to_owned();
                t.push_str(i.filename.as_str());
                t.push_str(" (");
                t.push_str(to_capitals(e.as_str()).as_str());
                t.push_str("). Supported formats: JPEG, PNG, GIF, WebP");
                return Some(t);
            },
            None => {},
        }
    }
    None
}

/// What is wrong with the first `n` attached images.
pub open spec fn image_errors(v: Seq<ImageView>, missing: Set<Seq<char>>, n: int) -> Seq<Seq<char>>
    decreases n,
{
    if n <= 0 || n > v.len() {
        Seq::empty()
    } else {
        match image_error(v[n - 1], missing) {
            Some(t) => image_errors(v, missing, n - 1).push(t),
            None => image_errors(v, missing, n - 1),
        }
    }
}

/// The state after errors were shown, one after the other.
pub open spec fn errors_shown(pre: AppState, post: AppState, errors: Seq<Seq<char>>) -> bool
    decreases errors.len(),
{
    if errors.len() == 0 {
        post == pre
    } else {
        exists|mid: AppState|
            errors_shown(pre, mid, errors.drop_last()) && #[trigger] block_pushed(
                mid,
                post,
                error_rows(errors.last(), false),
            )
    }
}

fn list_image_errors(images: &Vec<crate::types::AttachedImage>, missing: &TextSet) -> (r: Vec<
    String,
>)
    ensures
        texts(r@) == image_errors(image_views(images@), missing@, images@.len() as int),
{
    let ghost all = image_views(images@);
    let mut r: Vec<String> = Vec::new();
    let mut i: usize = 0;
    assert(texts(r@) =~= Seq::<Seq<char>>::empty());
    while i < images.len()
        invariant
            i <= images@.len(),
            all == image_views(images@),
            all.len() == images@.len(),
            texts(r@) == image_errors(all, missing@, i as int),
        decreases images@.len() - i,
    {
        assert(all[i as int] == images@[i as int]@);
        match find_image_error(&images[i], missing) {
            Some(t) => {
                proof {
                    crate::text::lemma_texts_push(r@, t);
                }
                r.push(t);
            },
            None => {},
        }
        i += 1;
    }
    r
}

fn show_errors(state: &mut AppState, errors: &Vec<String>)
    ensures
        errors_shown(*old(state), *final(state), texts(errors@)),
{
    let ghost all = texts(errors@);
    let mut i: usize = 0;
    assert(all.take(0) =~= Seq::<Seq<char>>::empty());
    while i < errors.len()
        invariant
            i <= errors@.len(),
            all == texts(errors@),
            all.len() == errors@.len(),
            errors_shown(*old(state), *state, all.take(i as int)),
        decreases errors@.len() - i,
    {
        let ghost mid = *state;
        push_error_message(state, errors[i].as_str(), None);
        proof {
            assert(all[i as int] == errors@[i as int]@);
            assert(all.take(i + 1).drop_last() =~= all.take(i as int));
            assert(all.take(i + 1).last() == all[i as int]);
            assert(block_pushed(mid, *state, error_rows(all.take(i + 1).last(), false)));
        }
        i += 1;
    }
    assert(all.take(i as int) =~= all);
}

/// The message that goes out.
pub open spec fn outgoing_message(s: AppState, f: Submission) -> PendingView {
    PendingView {
        input: f.redacted@,
        shell: shell_view(s.shell_popup_state.shell_tool_calls),
        images: f.image_parts@,
        text: f.redacted@,
    }
}

/// The message is to be shown by an event.
pub open spec fn echo_asked(sent: Outbox, out: Outbox, text: Seq<char>) -> bool {
    sent.inputs(out, |e: InputEvent| e matches InputEvent::AddUserMessage(t) && t@ == text)
}

/// What happens to the message: while something is under way, or others wait, it waits behind them;
/// else it goes out, and is shown by an event.
pub open spec fn message_sent(
    pre: AppState,
    post: AppState,
    f: Submission,
    sent: Outbox,
    out: Outbox,
) -> bool {
    let q = pre.user_message_queue_state.pending_user_messages@;
    let m = outgoing_message(pre, f);
    if pre.loading_state.loading_manager@ != Set::<LoadingOperation>::empty() || q.len() > 0 {
        let p = post.user_message_queue_state.pending_user_messages@;
        &&& out == sent
        &&& post == (AppState {
            user_message_queue_state: post.user_message_queue_state,
            shell_popup_state: ShellPopupState { shell_tool_calls: None, ..pre.shell_popup_state },
            ..pre
        })
        &&& p.len() == q.len() + 1
        &&& p.drop_last() == q
        &&& p.last()@ == m
    } else {
        let revert = pre.message_revert_state.pending_revert_index;
        &&& post == (AppState {
            message_revert_state: MessageRevertState {
                pending_revert_index: None,
                ..pre.message_revert_state
            },
            shell_popup_state: ShellPopupState { shell_tool_calls: None, ..pre.shell_popup_state },
            ..pre
        })
        &&& message_posted(m, revert, sent, out)
    }
}

/// The message goes to the backend and is to be shown.
pub open spec fn message_posted(
    m: PendingView,
    revert: Option<usize>,
    sent: Outbox,
    out: Outbox,
) -> bool {
    exists|a: Outbox|
        sent.outputs(a, |e: OutputEvent| is_user_message(e, m, revert)) && #[trigger] echo_asked(
            a,
            out,
            m.text,
        )
}

fn queue_message(q: &mut UserMessageQueueState, m: PendingUserMessage)
    ensures
        ({
            let p = final(q).pending_user_messages@;
            &&& p.len() == old(q).pending_user_messages@.len() + 1
            &&& p.drop_last() == old(q).pending_user_messages@
            &&& p.last() == m
        }),
{
    q.pending_user_messages.push_back(m);
    assert(q.pending_user_messages@.drop_last() =~= old(q).pending_user_messages@);
}

fn take_reports(p: &mut ShellPopupState) -> (r: Option<Vec<ToolCallResult>>)
    ensures
        *final(p) == (ShellPopupState { shell_tool_calls: None, ..*old(p) }),
        r == old(p).shell_tool_calls,
{
    let mut r: Option<Vec<ToolCallResult>> = None;
    std::mem::swap(&mut r, &mut p.shell_tool_calls);
    r
}

fn post_message(
    text: &String,
    reports: Option<Vec<ToolCallResult>>,
    images: Vec<ContentPart>,
    revert: Option<usize>,
    out: &mut Outbox,
)
    ensures
        message_posted(
            (PendingView {
                input: text@,
                shell: shell_view(reports),
                images: images@,
                text: text@,
            }),
            revert,
            *old(out),
            *final(out),
        ),
{
    let _sent: bool = out.send_output(
        OutputEvent::UserMessage(text.clone(), reports, images, revert),
    );
    let ghost a = *out;
    let _sent: bool = out.send_input(InputEvent::AddUserMessage(text.clone()));
    proof {
        let m = PendingView {
            input: text@,
            shell: shell_view(reports),
            images: images@,
            text: text@,
        };
        assert(old(out).outputs(a, |e: OutputEvent| is_user_message(e, m, revert)));
        assert(echo_asked(a, *out, m.text));
    }
}

fn send_message(state: &mut AppState, f: &Submission, out: &mut Outbox)
    ensures
        message_sent(*old(state), *final(state), *f, *old(out), *final(out)),
{
    let images: Vec<ContentPart> = f.image_parts.clone();
    assert(images@ =~= f.image_parts@);
    let reports: Option<Vec<ToolCallResult>> = take_reports(&mut state.shell_popup_state);
    if state.loading_state.loading_manager.is_loading()
        || state.user_message_queue_state.pending_user_messages.len() > 0 {
        let m: PendingUserMessage = PendingUserMessage::new(
            f.redacted.clone(),
            reports,
            images,
            f.redacted.clone(),
        );
        queue_message(&mut state.user_message_queue_state, m);
    } else {
        let revert: Option<usize> = state.message_revert_state.pending_revert_index;
        state.message_revert_state.pending_revert_index = None;
        post_message(&f.redacted, reports, images, revert, out);
        assert(message_posted(outgoing_message(*old(state), *f), revert, *old(out), *out));
    }
}

/// An empty row.
pub open spec fn is_blank(c: MessageContent) -> bool {
    c matches MessageContent::PlainText(t) && t@.len() == 0
}

/// What is shown for a message that the model has no room for.
pub open spec fn overload_notice(text: Seq<char>) -> Seq<spec_fn(MessageContent) -> bool> {
    seq![
        |c: MessageContent| c matches MessageContent::UserMessage(t) && t@ == text,
        |c: MessageContent| is_blank(c),
        |c: MessageContent|
            crate::helper_block::is_info(
                c,
                "Approaching max context limit this will overload the model and might not work as expected. ctrl+g for more"@,
                Some(Style::plain().fg(Color::Theme(Tone::Yellow))),
            ),
        |c: MessageContent| is_blank(c),
        |c: MessageContent|
            crate::helper_block::is_info(
                c,
                "Start a new session or /summarize to export compressed summary to be resued"@,
                Some(Style::plain().fg(Color::Theme(Tone::Green))),
            ),
        |c: MessageContent| is_blank(c),
    ]
}

/// The conversation with a message that the model has no room for: it is shown and not sent.
pub open spec fn overload_shown(pre: Seq<Message>, post: Seq<Message>, text: Seq<char>) -> bool {
    if pre.len() == 0 {
        appended(pre, post, overload_notice(text))
    } else {
        exists|mid: Seq<Message>|
            pushed(pre, mid, |c: MessageContent| is_blank(c)) && #[trigger] appended(
                mid,
                post,
                overload_notice(text),
            )
    }
}

fn push_blank(messages: &mut Vec<Message>)
    ensures
        pushed(old(messages)@, final(messages)@, |c: MessageContent| is_blank(c)),
        final(messages)@ == old(messages)@.push(final(messages)@.last()),
{
    let none: String = String::new();
    assert(none@ =~= Seq::<char>::empty());
    messages.push(Message::new(MessageContent::PlainText(none)));
    assert(messages@.drop_last() =~= old(messages)@);
}

fn push_notice(messages: &mut Vec<Message>, text: &str)
    ensures
        appended(old(messages)@, final(messages)@, overload_notice(text@)),
{
    let ghost pre = messages@;
    let ghost n = pre.len() as int;
    messages.push(Message::new(MessageContent::UserMessage(text.to_owned())));
    push_blank(messages);
    messages.push(
        Message::new(
            MessageContent::Info(
                "Approaching max context limit this will overload the model and might not work as expected. ctrl+g for more".to_owned(),
                Some(Style::plain().fg(Color::Theme(Tone::Yellow))),
            ),
        ),
    );
    push_blank(messages);
    messages.push(
        Message::new(
            MessageContent::Info(
                "Start a new session or /summarize to export compressed summary to be resued".to_owned(),
                Some(Style::plain().fg(Color::Theme(Tone::Green))),
            ),
        ),
    );
    push_blank(messages);
    proof {
        let post = messages@;
        let ps = overload_notice(text@);
        assert(post.take(n) =~= pre);
        assert forall|i: int| 0 <= i < ps.len() implies crate::message::new_message(
            post[pre.len() + i],
            #[trigger] ps[i],
        ) by {
            assert(i == 0 || i == 1 || i == 2 || i == 3 || i == 4 || i == 5);
        }
    }
}

fn show_overload(messages: &mut Vec<Message>, text: &str)
    ensures
        overload_shown(old(messages)@, final(messages)@, text@),
{
    if messages.len() > 0 {
        push_blank(messages);
        let ghost mid = messages@;
        push_notice(messages, text);
        assert(appended(mid, messages@, overload_notice(text@)));
    } else {
        push_notice(messages, text);
    }
}

/// What happens to what was typed, once it is put together: where the model has room, it goes out,
/// and what is wrong with its images is shown; else it is only shown.
pub open spec fn delivered(
    pre: AppState,
    post: AppState,
    f: Submission,
    sent: Outbox,
    out: Outbox,
) -> bool {
    if leaves_room(
        pre.usage_tracking_state.current_message_usage.prompt_tokens,
        active_limit(pre),
    ) {
        let v = image_views(pre.input_state.attached_images@);
        exists|mid: AppState|
            errors_shown(pre, mid, image_errors(v, f.missing@, v.len() as int))
                && #[trigger] message_sent(mid, post, f, sent, out)
    } else {
        &&& out == sent
        &&& post == pre.with_messages(
            MessagesScrollingState {
                messages: post.messages_scrolling_state.messages,
                ..pre.messages_scrolling_state
            },
        )
        &&& overload_shown(
            pre.messages_scrolling_state.messages@,
            post.messages_scrolling_state.messages@,
            f.redacted@,
        )
    }
}

fn deliver(state: &mut AppState, f: &Submission, out: &mut Outbox)
    ensures
        delivered(*old(state), *final(state), *f, *old(out), *final(out)),
{
    let limit: u64 = match &state.model_switcher_state.current_model {
        Some(m) => m.context_limit,
        None => state.configuration_state.model.context_limit,
    };
    if has_room(state.usage_tracking_state.current_message_usage.prompt_tokens, limit) {
        let errors: Vec<String> = list_image_errors(&state.input_state.attached_images, &f.missing);
        assert(image_views(state.input_state.attached_images@).len()
            == state.input_state.attached_images@.len());
        show_errors(state, &errors);
        let ghost mid = *state;
        send_message(state, f, out);
        assert(message_sent(mid, *state, *f, *old(out), *out));
    } else {
        show_overload(&mut state.messages_scrolling_state.messages, f.redacted.as_str());
    }
}

/// The input after a message went out: nothing is left in it.
pub open spec fn draft_dropped(pre: InputState, post: InputState) -> bool {
    &&& post == (InputState {
        text_area: post.text_area,
        attached_images: post.attached_images,
        pending_path_start: None,
        pending_pastes: post.pending_pastes,
        pasted_long_text: None,
        pasted_placeholder: None,
        ..pre
    })
    &&& post.text_area@ == emptied(pre.text_area@)
    &&& post.attached_images@.len() == 0
    &&& post.pending_pastes@.len() == 0
}

fn drop_draft(i: &mut InputState)
    ensures
        draft_dropped(*old(i), *final(i)),
{
    clear_text(&mut i.text_area);
    i.attached_images.clear();
    i.pending_path_start = None;
    i.pending_pastes.clear();
    i.pasted_long_text = None;
    i.pasted_placeholder = None;
}

/// The state after a message went out.
pub open spec fn wrapped_up(
    pre: AppState,
    post: AppState,
    height: usize,
    at_end: bool,
) -> bool {
    &&& post == (AppState {
        input_state: post.input_state,
        shell_popup_state: ShellPopupState { shell_tool_calls: None, ..pre.shell_popup_state },
        messages_scrolling_state: end_followed(pre.messages_scrolling_state, height, at_end),
        loading_state: LoadingState { spinner_frame: 0, ..pre.loading_state },
        ..pre
    })
    &&& draft_dropped(pre.input_state, post.input_state)
}

fn wrap_up(state: &mut AppState, height: usize, at_end: bool)
    ensures
        wrapped_up(*old(state), *final(state), height, at_end),
{
    drop_draft(&mut state.input_state);
    state.shell_popup_state.shell_tool_calls = None;
    follow_end(&mut state.messages_scrolling_state, height, at_end);
    state.loading_state.spinner_frame = 0;
}

/// What sending what is typed does: image paths become placeholders, a shell in the background is
/// wrapped up, the message is delivered, and the input is emptied.
pub open spec fn message_submitted(
    pre: AppState,
    post: AppState,
    f: Submission,
    sent: Outbox,
    out: Outbox,
) -> bool {
    let m = pre.messages_scrolling_state;
    let at_end = m.scroll == last_scroll(m.messages@.len(), f.area_height);
    exists|a: AppState, b: AppState, c: AppState, d: AppState, x: Outbox, y: Outbox|
        a == pre.with_input(a.input_state) && pending_converted(
            pre.input_state,
            a.input_state,
            f.known@,
        ) && #[trigger] call_shell_ended(a, b, sent, x) && #[trigger] shell_wrapped_up(b, c, x, y)
            && #[trigger] delivered(c, d, f, y, out) && wrapped_up(d, post, f.area_height, at_end)
}

fn submit_message(state: &mut AppState, f: &Submission, out: &mut Outbox)
    ensures
        message_submitted(*old(state), *final(state), *f, *old(out), *final(out)),
{
    convert_all_pending_paths(&mut state.input_state, &f.known);
    let ghost a = *state;
    let n: usize = state.messages_scrolling_state.messages.len();
    let at_end: bool = state.messages_scrolling_state.scroll == find_last_scroll(n, f.area_height);
    end_call_shell(state, out);
    let ghost b = *state;
    let ghost x = *out;
    wrap_up_shell(state, out);
    let ghost c = *state;
    let ghost y = *out;
    deliver(state, f, out);
    let ghost d = *state;
    wrap_up(state, f.area_height, at_end);
    assert(call_shell_ended(a, b, *old(out), x) && shell_wrapped_up(b, c, x, y) && delivered(
        c,
        d,
        *f,
        y,
        *out,
    ));
}

/// What enter does with a text that is no offer: it names a command, or it goes out; an empty one
/// without images does nothing.
pub open spec fn text_entered(
    pre: AppState,
    post: AppState,
    f: Submission,
    sent: Outbox,
    out: Outbox,
) -> bool {
    let i = pre.input_state;
    let text = i.text_area@.text;
    match named_command(i.helpers@, text) {
        Some(name) => post == pre && sent.affects(
            out,
            |e: Effect| e matches Effect::Command(t) && t@ == name,
        ),
        None => if trim_of(text).len() > 0 || i.attached_images@.len() > 0 {
            message_submitted(pre, post, f, sent, out)
        } else {
            post == pre && out == sent
        },
    }
}

fn enter_text(state: &mut AppState, f: &Submission, out: &mut Outbox)
    ensures
        text_entered(*old(state), *final(state), *f, *old(out), *final(out)),
{
    match find_command(&state.input_state.helpers, state.input_state.text_area.text()) {
        Some(name) => {
            out.ask(Effect::Command(name));
        },
        None => {
            let t: String = trim(state.input_state.text_area.text());
            if !is_empty(t.as_str()) || state.input_state.attached_images.len() > 0 {
                submit_message(state, f, out);
            }
        },
    }
}

/// The state after enter in the dialog: the calls go to the bar from now on.
pub open spec fn dialog_kept(pre: AppState, post: AppState) -> bool {
    &&& post == (AppState {
        dialog_approval_state: DialogApprovalState {
            toggle_approved_message: true,
            is_dialog_open: true,
            dialog_selected: 0,
            dialog_focused: false,
            ..pre.dialog_approval_state
        },
        ..pre.with_text(post.input_state.text_area)
    })
    &&& post.input_state.text_area@ == emptied(pre.input_state.text_area@)
}

fn keep_dialog_state(d: &mut DialogApprovalState)
    ensures
        *final(d) == (DialogApprovalState {
            toggle_approved_message: true,
            is_dialog_open: true,
            dialog_selected: 0,
            dialog_focused: false,
            ..*old(d)
        }),
{
    d.toggle_approved_message = true;
    d.is_dialog_open = true;
    d.dialog_selected = 0;
    d.dialog_focused = false;
}

fn keep_dialog(state: &mut AppState)
    ensures
        dialog_kept(*old(state), *final(state)),
{
    keep_dialog_state(&mut state.dialog_approval_state);
    clear_text(&mut state.input_state.text_area);
}

/// What enter in the input does.
pub open spec fn input_submitted(
    pre: AppState,
    post: AppState,
    f: Submission,
    sent: Outbox,
    out: Outbox,
) -> bool {
    let i = pre.input_state;
    let name = trim_of(i.text_area@.text);
    if pre.shell_popup_state.is_expanded {
        shell_entered(pre, post, sent, out)
    } else if name == "clear"@ {
        cleared(pre, post, f.cwd@) && out == sent
    } else if has_prefix(name, "/toggle_auto_approve"@) {
        toggle_entered(pre, post, sent, out)
    } else if pre.dialog_approval_state.is_dialog_open {
        exists|mid: AppState| #[trigger]
            dialog_kept(pre, mid) && text_entered(mid, post, f, sent, out)
    } else if i.show_helper_dropdown && has_offer(i) {
        offer_taken(pre, post, sent, out)
    } else {
        text_entered(
            pre.with_input(InputState { show_helper_dropdown: false, ..i }),
            post,
            f,
            sent,
            out,
        )
    }
}

/// Enter in the input.
pub fn handle_input_submitted(state: &mut AppState, f: &Submission, out: &mut Outbox)
    ensures
        input_submitted(*old(state), *final(state), *f, *old(out), *final(out)),
{
    if state.shell_popup_state.is_expanded {
        enter_in_shell(state, out);
        return;
    }
    let name: String = trim(state.input_state.text_area.text());
    if same_text(name.as_str(), "clear") {
        push_clear_message(state, f.cwd.as_str());
        return;
    }
    if starts_with(name.as_str(), "/toggle_auto_approve") {
        enter_toggle(state, out);
        return;
    }
    if state.dialog_approval_state.is_dialog_open {
        keep_dialog(state);
        let ghost mid = *state;
        assert(dialog_kept(*old(state), mid));
        enter_text(state, f, out);
        return;
    }
    if state.input_state.show_helper_dropdown && (state.input_state.file_search.is_active()
        || state.input_state.filtered_helpers.len() > 0) {
        take_offer(state, out);
        return;
    }
    state.input_state.show_helper_dropdown = false;
    enter_text(state, f, out);
}

/// What the enter key does: it takes what is selected in a popup or the bar, folds a section of the
/// side panel while nothing is typed, or submits the input.
pub open spec fn enter_pressed(
    pre: AppState,
    post: AppState,
    f: Submission,
    sent: Outbox,
    out: Outbox,
) -> bool {
    let p = pre.side_panel_state;
    if pre.profile_switcher_state.show_profile_switcher {
        post == pre && sent.inputs(out, |e: InputEvent| e is ProfileSwitcherSelect)
    } else if pre.shortcuts_panel_state.is_visible && pre.shortcuts_panel_state.mode
        == ShortcutsPopupMode::Commands {
        palette_chosen(pre, post, f.choice, sent, out)
    } else if pre.shortcuts_panel_state.is_visible && pre.shortcuts_panel_state.mode
        == ShortcutsPopupMode::Sessions {
        session_chosen(pre, post, sent, out)
    } else if pre.rulebook_switcher_state.show_rulebook_switcher {
        post == pre && sent.inputs(out, |e: InputEvent| e is RulebookSwitcherConfirm)
    } else if pre.dialog_approval_state.approval_bar.shown() {
        bar_submitted(pre, post, sent, out)
    } else if p.is_shown && !pre.dialog_approval_state.is_dialog_open
        && pre.input_state.text_area@.text.len() == 0 {
        post == (AppState {
            side_panel_state: SidePanelState {
                collapsed_sections: p.collapsed_sections.toggled(p.focused_section),
                ..p
            },
            ..pre
        }) && out == sent
    } else if !pre.input_state.is_pasting {
        input_submitted(pre, post, f, sent, out)
    } else {
        post == pre && out == sent
    }
}

/// The enter key, whatever is on the screen.
pub fn handle_input_submitted_event(state: &mut AppState, f: Submission, out: &mut Outbox)
    ensures
        enter_pressed(*old(state), *final(state), f, *old(out), *final(out)),
{
    if state.profile_switcher_state.show_profile_switcher {
        let _sent: bool = out.send_input(InputEvent::ProfileSwitcherSelect);
        return;
    }
    if state.shortcuts_panel_state.is_visible && state.shortcuts_panel_state.mode
        == ShortcutsPopupMode::Commands {
        execute_command_palette_selection(state, f.choice, out);
        return;
    }
    if state.shortcuts_panel_state.is_visible && state.shortcuts_panel_state.mode
        == ShortcutsPopupMode::Sessions {
        choose_session(state, out);
        return;
    }
    if state.rulebook_switcher_state.show_rulebook_switcher {
        let _sent: bool = out.send_input(InputEvent::RulebookSwitcherConfirm);
        return;
    }
    if state.dialog_approval_state.approval_bar.is_visible() {
        submit_bar(state, out);
        return;
    }
    if state.side_panel_state.is_shown && !state.dialog_approval_state.is_dialog_open && is_empty(
        state.input_state.text_area.text(),
    ) {
        let section: crate::changeset::SidePanelSection = state.side_panel_state.focused_section;
        state.side_panel_state.collapsed_sections.toggle(section);
        return;
    }
    if !state.input_state.is_pasting {
        handle_input_submitted(state, &f, out);
    }
}

/// Once a message was submitted, nothing of it is left in the input.
pub proof fn law_submitted_is_gone(
    pre: AppState,
    post: AppState,
    f: Submission,
    sent: Outbox,
    out: Outbox,
)
    requires
        message_submitted(pre, post, f, sent, out),
    ensures
        post.input_state.text_area@.text.len() == 0,
        post.input_state.attached_images@.len() == 0,
        post.input_state.pending_pastes@.len() == 0,
        post.input_state.pasted_placeholder is None,
        post.shell_popup_state.shell_tool_calls is None,
{
}

/// A message that the model has no room for is not sent.
pub proof fn law_overload_is_not_sent(
    pre: AppState,
    post: AppState,
    f: Submission,
    sent: Outbox,
    out: Outbox,
)
    requires
        delivered(pre, post, f, sent, out),
        !leaves_room(
            pre.usage_tracking_state.current_message_usage.prompt_tokens,
            active_limit(pre),
        ),
    ensures
        out == sent,
        post.user_message_queue_state == pre.user_message_queue_state,
{
}

/// While something is under way, a message waits behind those that wait already, and nothing goes
/// out.
pub proof fn law_busy_message_waits(
    pre: AppState,
    post: AppState,
    f: Submission,
    sent: Outbox,
    out: Outbox,
)
    requires
        message_sent(pre, post, f, sent, out),
        pre.loading_state.loading_manager@ != Set::<LoadingOperation>::empty(),
    ensures
        out == sent,
        post.user_message_queue_state.pending_user_messages@.drop_last()
            == pre.user_message_queue_state.pending_user_messages@,
        post.user_message_queue_state.pending_user_messages@.last()@ == outgoing_message(pre, f),
{
}

// ----- what holds of what is submitted -----

/// A message goes out with exactly the text, the images and the shell reports that it was submitted
/// with, and where it has to wait, it waits with exactly these, behind all that waits already. The
/// reports are used up either way.
pub proof fn law_sent_as_submitted(
    pre: AppState,
    post: AppState,
    f: Submission,
    sent: Outbox,
    out: Outbox,
)
    requires
        message_sent(pre, post, f, sent, out),
    ensures
        post.shell_popup_state.shell_tool_calls is None,
        ({
            let q = pre.user_message_queue_state.pending_user_messages@;
            let p = post.user_message_queue_state.pending_user_messages@;
            let reports = pre.shell_popup_state.shell_tool_calls;
            if pre.loading_state.loading_manager@.is_empty() && q.len() == 0 {
                &&& p.len() == 0
                &&& post.message_revert_state.pending_revert_index is None
                &&& sent.output@.len() < sent.output_room ==> {
                    &&& out.output@.len() == sent.output@.len() + 1
                    &&& out.output@.drop_last() == sent.output@
                    &&& out.output@.last() matches OutputEvent::UserMessage(t, s, images, revert)
                    &&& t@ == f.redacted@
                    &&& images@ == f.image_parts@
                    &&& (s is Some) == (reports is Some)
                    &&& s is Some ==> s->0@ == reports->0@
                    &&& revert == pre.message_revert_state.pending_revert_index
                }
                &&& sent.input@.len() < sent.input_room ==> {
                    &&& out.input@.len() == sent.input@.len() + 1
                    &&& out.input@.drop_last() == sent.input@
                    &&& out.input@.last() matches InputEvent::AddUserMessage(t)
                    &&& t@ == f.redacted@
                }
            } else {
                &&& out == sent
                &&& p.len() == q.len() + 1
                &&& forall|i: int| 0 <= i < q.len() ==> #[trigger] p[i] == q[i]
                &&& p.last().final_input@ == f.redacted@
                &&& p.last().user_message_text@ == f.redacted@
                &&& p.last().image_parts@ == f.image_parts@
                &&& (p.last().shell_tool_calls is Some) == (reports is Some)
                &&& reports is Some ==> p.last().shell_tool_calls->0@ == reports->0@
            }
        }),
{
    let p = post.user_message_queue_state.pending_user_messages@;
    let q = pre.user_message_queue_state.pending_user_messages@;
    assert(pre.loading_state.loading_manager@.is_empty() <==> pre.loading_state.loading_manager@
        =~= Set::<LoadingOperation>::empty());
    if p.drop_last() == q {
        assert(forall|i: int| 0 <= i < q.len() ==> #[trigger] p[i] == p.drop_last()[i]);
    }
}

/// Showing what is wrong with images touches the conversation alone.
proof fn lemma_errors_shown(pre: AppState, post: AppState, errors: Seq<Seq<char>>)
    requires
        errors_shown(pre, post, errors),
    ensures
        post == pre.with_messages(post.messages_scrolling_state),
    decreases errors.len(),
{
    if errors.len() > 0 {
        let mid = choose|mid: AppState|
            errors_shown(pre, mid, errors.drop_last()) && #[trigger] block_pushed(
                mid,
                post,
                error_rows(errors.last(), false),
            );
        lemma_errors_shown(pre, mid, errors.drop_last());
    }
}

/// A submitted message gets through where no shell is open, nothing is under way, nothing waits,
/// and the conversation takes up less than 91.5 of 100 parts of what the model can hold: one message
/// goes out, with the text, the images and the waiting shell reports, and nothing else does.
pub proof fn law_submitted_gets_through(
    pre: AppState,
    post: AppState,
    f: Submission,
    sent: Outbox,
    out: Outbox,
    limit: u64,
)
    requires
        message_submitted(pre, post, f, sent, out),
        pre.shell_popup_state.active_shell_command is None,
        pre.loading_state.loading_manager@.is_empty(),
        pre.user_message_queue_state.pending_user_messages@.len() == 0,
        limit == (match pre.model_switcher_state.current_model {
            Some(m) => m.context_limit,
            None => pre.configuration_state.model.context_limit,
        }),
        0 < limit < 0x1_0000_0000,
        200 * pre.usage_tracking_state.current_message_usage.prompt_tokens < 183 * limit,
        sent.output@.len() < sent.output_room,
    ensures
        out.output@.len() == sent.output@.len() + 1,
        out.output@.drop_last() == sent.output@,
        ({
            &&& out.output@.last() matches OutputEvent::UserMessage(t, s, images, revert)
            &&& t@ == f.redacted@
            &&& images@ == f.image_parts@
            &&& (s is Some) == (pre.shell_popup_state.shell_tool_calls is Some)
            &&& s is Some ==> s->0@ == pre.shell_popup_state.shell_tool_calls->0@
            &&& revert == pre.message_revert_state.pending_revert_index
        }),
        out.effects@ == sent.effects@,
        post.user_message_queue_state.pending_user_messages@.len() == 0,
{
    let m = pre.messages_scrolling_state;
    let at_end = m.scroll == last_scroll(m.messages@.len(), f.area_height);
    let (a, b, c, d, x, y) = choose|
        a: AppState,
        b: AppState,
        c: AppState,
        d: AppState,
        x: Outbox,
        y: Outbox,
    |
        a == pre.with_input(a.input_state) && pending_converted(
            pre.input_state,
            a.input_state,
            f.known@,
        ) && #[trigger] call_shell_ended(a, b, sent, x) && #[trigger] shell_wrapped_up(b, c, x, y)
            && #[trigger] delivered(c, d, f, y, out) && wrapped_up(d, post, f.area_height, at_end);
    assert(b == a && x == sent);
    assert(c == b && y == x);
    assert(leaves_room(
        c.usage_tracking_state.current_message_usage.prompt_tokens,
        active_limit(c),
    ));
    let v = image_views(c.input_state.attached_images@);
    let errors = image_errors(v, f.missing@, v.len() as int);
    let mid = choose|mid: AppState|
        errors_shown(c, mid, errors) && #[trigger] message_sent(mid, d, f, y, out);
    lemma_errors_shown(c, mid, errors);
    law_sent_as_submitted(mid, d, f, y, out);
}

/// A conversation that takes up 91.5 of 100 parts or more of what the model can hold leaves no room,
/// and one that takes up less does. A model without a limit always has room.
pub proof fn law_room(tokens: u32, limit: u64)
    requires
        limit < 0x1_0000_0000,
    ensures
        limit == 0 ==> leaves_room(tokens, limit),
        limit > 0 ==> (leaves_room(tokens, limit) <==> 200 * tokens < 183 * limit),
{
}

proof fn lemma_decided(
    queue: Map<Seq<char>, ToolCallStatus>,
    calls: Seq<ToolCall>,
    approved: Seq<ToolCall>,
)
    ensures
        forall|id: Seq<char>|
            (forall|i: int| 0 <= i < calls.len() ==> (#[trigger] calls[i]).id@ != id) ==> {
                &&& #[trigger] decided(queue, calls, approved).contains_key(id)
                    == queue.contains_key(id)
                &&& queue.contains_key(id) ==> decided(queue, calls, approved)[id] == queue[id]
            },
        forall|i: int|
            0 <= i < calls.len() && (forall|j: int|
                i < j < calls.len() ==> (#[trigger] calls[j]).id@ != calls[i].id@) ==> {
                &&& decided(queue, calls, approved).contains_key((#[trigger] calls[i]).id@)
                &&& decided(queue, calls, approved)[calls[i].id@] == if is_approved(
                    approved,
                    calls[i],
                ) {
                    ToolCallStatus::Approved
                } else {
                    ToolCallStatus::Rejected
                }
            },
    decreases calls.len(),
{
    if calls.len() > 0 {
        let rest = calls.drop_last();
        lemma_decided(queue, rest, approved);
        let n = calls.len() - 1;
        assert(calls[n] == calls.last());
        assert forall|id: Seq<char>|
            (forall|i: int| 0 <= i < calls.len() ==> (#[trigger] calls[i]).id@ != id) implies {
            &&& #[trigger] decided(queue, calls, approved).contains_key(id) == queue.contains_key(
                id,
            )
            &&& queue.contains_key(id) ==> decided(queue, calls, approved)[id] == queue[id]
        } by {
            assert(forall|i: int| 0 <= i < rest.len() ==> (#[trigger] rest[i]) == calls[i]);
            assert(calls[n].id@ != id);
            assert(decided(queue, rest, approved).contains_key(id) == queue.contains_key(id));
        }
        assert forall|i: int|
            0 <= i < calls.len() && (forall|j: int|
                i < j < calls.len() ==> (#[trigger] calls[j]).id@ != calls[i].id@) implies {
            &&& decided(queue, calls, approved).contains_key((#[trigger] calls[i]).id@)
            &&& decided(queue, calls, approved)[calls[i].id@] == if is_approved(
                approved,
                calls[i],
            ) {
                ToolCallStatus::Approved
            } else {
                ToolCallStatus::Rejected
            }
        } by {
            if i < n {
                assert(rest[i] == calls[i]);
                assert(calls[n].id@ != calls[i].id@);
                assert(forall|j: int| 0 <= j < rest.len() ==> (#[trigger] rest[j]) == calls[j]);
            }
        }
    }
}

/// What the user decided in the bar is taken over: the approved calls are the bar's approved ones,
/// the rejected calls its rejected ones. Of calls with an identifier each, the first counts as
/// executed, every other one as approved where it is among the approved ones and as rejected where
/// it is not, and no other call changes its status.
pub proof fn law_decisions_are_taken_over(
    pre: AppState,
    post: AppState,
    sent: Outbox,
    out: Outbox,
    c: ToolCall,
)
    requires
        bar_submitted(pre, post, sent, out),
    ensures
        ({
            let bar = pre.dialog_approval_state.approval_bar.actions@;
            let e = post.dialog_approval_state;
            &&& e.message_approved_tools@.contains(c) <==> exists|i: int|
                0 <= i < bar.len() && (#[trigger] bar[i]).status == ApprovalStatus::Approved
                    && bar[i].tool_call == c
            &&& e.message_rejected_tools@.contains(c) <==> exists|i: int|
                0 <= i < bar.len() && (#[trigger] bar[i]).status == ApprovalStatus::Rejected
                    && bar[i].tool_call == c
            &&& e.approval_bar.actions@.len() == 0
            &&& e.message_tool_calls is None
        }),
        pre.dialog_approval_state.message_tool_calls matches Some(calls) ==> {
            let before = pre.session_tool_calls_state.session_tool_calls_queue@;
            let after = post.session_tool_calls_state.session_tool_calls_queue@;
            let approved = post.dialog_approval_state.message_approved_tools@;
            (forall|i: int, j: int|
                0 <= i < j < calls@.len() ==> (#[trigger] calls@[i]).id@ != (
                #[trigger] calls@[j]).id@) ==> {
                &&& forall|i: int|
                    0 <= i < calls@.len() ==> {
                        &&& after.contains_key((#[trigger] calls@[i]).id@)
                        &&& i == 0 ==> after[calls@[i].id@] == ToolCallStatus::Executed
                        &&& i > 0 && (exists|k: int|
                            0 <= k < approved.len() && (#[trigger] approved[k])@ == calls@[i]@)
                            ==> after[calls@[i].id@] == ToolCallStatus::Approved
                        &&& i > 0 && !(exists|k: int|
                            0 <= k < approved.len() && (#[trigger] approved[k])@ == calls@[i]@)
                            ==> after[calls@[i].id@] == ToolCallStatus::Rejected
                    }
                &&& forall|id: Seq<char>|
                    (forall|i: int| 0 <= i < calls@.len() ==> (#[trigger] calls@[i]).id@ != id)
                        ==> {
                        &&& #[trigger] after.contains_key(id) == before.contains_key(id)
                        &&& before.contains_key(id) ==> after[id] == before[id]
                    }
            }
        },
{
    let bar = pre.dialog_approval_state.approval_bar.actions@;
    law_calls_with_status(bar, ApprovalStatus::Approved, c);
    law_calls_with_status(bar, ApprovalStatus::Rejected, c);
    match pre.dialog_approval_state.message_tool_calls {
        None => {},
        Some(calls) => {
            let approved = post.dialog_approval_state.message_approved_tools@;
            let before = pre.session_tool_calls_state.session_tool_calls_queue@;
            let after = post.session_tool_calls_state.session_tool_calls_queue@;
            lemma_decided(before, calls@, approved);
            assert(calls_decided(
                pre.session_tool_calls_state,
                post.session_tool_calls_state,
                calls@,
                approved,
            ));
            assert forall|i: int| 0 <= i < calls@.len() implies is_approved(
                approved,
                #[trigger] calls@[i],
            ) == exists|k: int| 0 <= k < approved.len() && (#[trigger] approved[k])@ == calls@[i]@ by {
                let views = call_views(approved);
                assert(forall|k: int| 0 <= k < approved.len() ==> views[k] == #[trigger] approved[
                    k
                ]@);
                if views.contains(calls@[i]@) {
                    let k = choose|k: int| 0 <= k < views.len() && views[k] == calls@[i]@;
                    assert(approved[k]@ == calls@[i]@);
                }
            }
        },
    }
}

/// Enter in the bar starts with the first call of the message. Where the bar's user approved it, it
/// goes out as it is; else its rejection does, and nothing goes to the backend.
pub proof fn law_first_call_starts(pre: AppState, post: AppState, sent: Outbox, out: Outbox)
    requires
        bar_submitted(pre, post, sent, out),
        pre.dialog_approval_state.message_tool_calls is Some,
        pre.dialog_approval_state.message_tool_calls->0@.len() > 0,
    ensures
        ({
            let first = pre.dialog_approval_state.message_tool_calls->0@[0];
            let bar = pre.dialog_approval_state.approval_bar.actions@;
            if exists|i: int|
                0 <= i < bar.len() && (#[trigger] bar[i]).status == ApprovalStatus::Approved
                    && bar[i].tool_call@ == first@ {
                &&& out.input@ == sent.input@
                &&& sent.output@.len() < sent.output_room ==> out.output@ == sent.output@.push(
                    OutputEvent::AcceptTool(first),
                )
            } else {
                &&& out.output@ == sent.output@
                &&& sent.input@.len() < sent.input_room ==> {
                    &&& out.input@.len() == sent.input@.len() + 1
                    &&& out.input@.drop_last() == sent.input@
                    &&& out.input@.last() matches InputEvent::HandleReject(t, stop, color)
                    &&& t is Some
                    &&& t->0@ == "Tool call rejected"@
                    &&& stop
                    &&& color is None
                }
            }
        }),
{
    let first = pre.dialog_approval_state.message_tool_calls->0@[0];
    let bar = pre.dialog_approval_state.approval_bar.actions@;
    let approved = calls_with(bar, ApprovalStatus::Approved);
    let views = call_views(approved);
    assert(forall|k: int| 0 <= k < approved.len() ==> views[k] == #[trigger] approved[k]@);
    if is_approved(approved, first) {
        let k = choose|k: int| 0 <= k < views.len() && views[k] == first@;
        assert(approved.contains(approved[k]));
        law_calls_with_status(bar, ApprovalStatus::Approved, approved[k]);
        assert(out.output@.len() > 0 ==> out.output@ =~= out.output@.drop_last().push(
            out.output@.last(),
        ));
    } else {
        assert forall|i: int|
            0 <= i < bar.len() && (#[trigger] bar[i]).status
                == ApprovalStatus::Approved implies bar[i].tool_call@ != first@ by {
            law_calls_with_status(bar, ApprovalStatus::Approved, bar[i].tool_call);
            let k = choose|k: int| 0 <= k < approved.len() && approved[k] == bar[i].tool_call;
            assert(views[k] == bar[i].tool_call@);
        }
    }
}

/// What is typed in the shell goes to the running command as it is, an empty text too; where none
/// runs, it is a command to run, unless it is white space alone.
pub proof fn law_shell_gets_the_text(
    pre: AppState,
    post: AppState,
    f: Submission,
    sent: Outbox,
    out: Outbox,
)
    requires
        input_submitted(pre, post, f, sent, out),
        pre.shell_popup_state.is_expanded,
    ensures
        out.output@ == sent.output@,
        pre.shell_popup_state.active_shell_command is Some ==> {
            &&& out.effects@.len() == sent.effects@.len() + 1
            &&& out.effects@.last() matches Effect::ShellInput(t)
            &&& t@ == pre.input_state.text_area@.text
        },
        pre.shell_popup_state.active_shell_command is None && (exists|i: int|
            0 <= i < pre.input_state.text_area@.text.len() && !is_space(
                #[trigger] pre.input_state.text_area@.text[i],
            )) ==> {
            &&& out.effects@ == sent.effects@
            &&& post.input_state.text_area@.text.len() == 0
            &&& sent.input@.len() < sent.input_room ==> {
                &&& out.input@.len() == sent.input@.len() + 1
                &&& out.input@.last() matches InputEvent::RunShellCommand(t)
                &&& t@ == pre.input_state.text_area@.text
            }
        },
        pre.shell_popup_state.active_shell_command is None && (forall|i: int|
            0 <= i < pre.input_state.text_area@.text.len() ==> is_space(
                #[trigger] pre.input_state.text_area@.text[i],
            )) ==> post == pre && out == sent,
{
    let text = pre.input_state.text_area@.text;
    let from = law_trim(text);
    if trim_of(text).len() > 0 {
        assert(trim_of(text)[0] == text[from]);
    }
}

proof fn lemma_first_named(helpers: Seq<HelperCommand>, name: Seq<char>, k: int)
    requires
        0 <= k,
    ensures
        first_named(helpers, name, k) is Some <==> exists|i: int|
            k <= i < helpers.len() && (#[trigger] helpers[i]).command@ == name,
        first_named(helpers, name, k) is Some ==> first_named(helpers, name, k)->0 == name,
    decreases helpers.len() - k,
{
    if k < helpers.len() {
        lemma_first_named(helpers, name, k + 1);
        if helpers[k].command@ == name {
            assert(k <= k < helpers.len());
        }
    }
}

/// A text that does not start with a slash, behind the white space in front of it, names no
/// command: where it holds anything but white space, it is submitted as a message.
pub proof fn law_plain_text_is_a_message(
    pre: AppState,
    post: AppState,
    f: Submission,
    sent: Outbox,
    out: Outbox,
    k: int,
)
    requires
        text_entered(pre, post, f, sent, out),
        0 <= k < pre.input_state.text_area@.text.len(),
        forall|i: int| 0 <= i < k ==> is_space(#[trigger] pre.input_state.text_area@.text[i]),
        !is_space(pre.input_state.text_area@.text[k]),
        pre.input_state.text_area@.text[k] != '/',
    ensures
        message_submitted(pre, post, f, sent, out),
{
    lemma_plain_text(pre.input_state.helpers@, pre.input_state.text_area@.text, k);
}

proof fn lemma_plain_text(helpers: Seq<HelperCommand>, text: Seq<char>, k: int)
    requires
        0 <= k < text.len(),
        forall|i: int| 0 <= i < k ==> is_space(#[trigger] text[i]),
        !is_space(text[k]),
        text[k] != '/',
    ensures
        trim_of(text).len() > 0,
        named_command(helpers, text) is None,
{
    let from = law_trim(text);
    let name = trim_of(text);
    if name.len() == 0 {
        assert(is_space(text[k]));
    }
    assert(name[0] == text[from]);
    if from < k {
        assert(is_space(text[from]));
    }
    assert(from == k);
    reveal_strlit("/editor");
    reveal_strlit("/toggle_auto_approve");
    law_ascii_space('/');
    assert(text[0] != '/');
    let e = next_char(text, ' ', 0);
    lemma_next_char(text, ' ', 0);
    if e > 0 {
        assert(text.take(e)[0] == text[0]);
    }
    assert("/editor"@[0] == '/');
    assert("/toggle_auto_approve"@[0] == '/');
    assert("/editor"@.len() > 0);
    assert("/toggle_auto_approve"@.len() > 0);
}

/// The name of a slash command alone, with white space around it or not, runs the command, and
/// nothing is sent to the backend. (A command with a prompt comes first where the text gives it
/// arguments.)
pub proof fn law_named_command_runs(
    pre: AppState,
    post: AppState,
    f: Submission,
    sent: Outbox,
    out: Outbox,
    k: int,
)
    requires
        text_entered(pre, post, f, sent, out),
        0 <= k < pre.input_state.helpers@.len(),
        pre.input_state.text_area@.text == pre.input_state.helpers@[k].command@,
        pre.input_state.text_area@.text.len() > 0,
        pre.input_state.text_area@.text[0] == '/',
        forall|i: int|
            0 <= i < pre.input_state.text_area@.text.len() ==> !is_space(
                #[trigger] pre.input_state.text_area@.text[i],
            ),
    ensures
        post == pre,
        out.output@ == sent.output@,
        out.input@ == sent.input@,
        out.effects@.len() == sent.effects@.len() + 1,
        ({
            &&& out.effects@.last() matches Effect::Command(t)
            &&& t@ == pre.input_state.text_area@.text
        }),
{
    lemma_bare_name(pre.input_state.helpers@, pre.input_state.text_area@.text, k);
}

proof fn lemma_bare_name(helpers: Seq<HelperCommand>, text: Seq<char>, k: int)
    requires
        0 <= k < helpers.len(),
        text == helpers[k].command@,
        text.len() > 0,
        text[0] == '/',
        forall|i: int| 0 <= i < text.len() ==> !is_space(#[trigger] text[i]),
    ensures
        named_command(helpers, text) == Some(text),
{
    let from = law_trim(text);
    if from > 0 {
        assert(is_space(text[0]));
    }
    if from + trim_of(text).len() < text.len() {
        assert(is_space(text[text.len() - 1]));
    }
    assert(trim_of(text) =~= text);
    lemma_next_char(text, ' ', 0);
    law_ascii_space(' ');
    if next_char(text, ' ', 0) < text.len() {
        assert(is_space(text[next_char(text, ' ', 0)]));
    }
    lemma_no_prompt(helpers, text, 0);
    lemma_first_named(helpers, text, 0);
}

proof fn lemma_no_prompt(helpers: Seq<HelperCommand>, text: Seq<char>, k: int)
    requires
        0 <= k,
        forall|i: int| 0 <= i < text.len() ==> !is_space(#[trigger] text[i]),
    ensures
        first_prompt(helpers, text, k) is None,
    decreases helpers.len() - k,
{
    if k < helpers.len() {
        let p = helpers[k].command@.push(' ');
        if has_prefix(text, p) {
            law_ascii_space(' ');
            assert(text.subrange(0, p.len() as int)[p.len() - 1] == text[p.len() - 1]);
            assert(p[p.len() - 1] == ' ');
            assert(is_space(text[p.len() - 1]));
        }
        lemma_no_prompt(helpers, text, k + 1);
    }
}

/// The last scroll position: no row is left below it, and none is passed over.
pub proof fn law_last_scroll(n: nat, height: usize)
    requires
        2 * n <= usize::MAX,
    ensures
        height > 4 && 2 * n > height - 3 ==> last_scroll(n, height) + (height - 3) == 2 * n,
        height > 4 && 2 * n <= height - 3 ==> last_scroll(n, height) == 0,
        height <= 4 && n > 0 ==> last_scroll(n, height) == 2 * n - 1,
{
}

/// Choosing another session leaves nothing of the one before: no message, no call, no status, no
/// file and no token; and the backend is asked for the chosen one.
pub proof fn law_session_starts_afresh(pre: AppState, post: AppState, sent: Outbox, out: Outbox)
    requires
        session_chosen(pre, post, sent, out),
        pre.sessions_state.session_selected < pre.sessions_state.sessions@.len(),
    ensures
        post.messages_scrolling_state.messages@.len() == 1,
        post.dialog_approval_state.message_tool_calls is None,
        post.dialog_approval_state.message_approved_tools@.len() == 0,
        post.dialog_approval_state.message_rejected_tools@.len() == 0,
        post.dialog_approval_state.approval_bar.actions@.len() == 0,
        post.session_tool_calls_state.session_tool_calls_queue@.dom().is_empty(),
        post.session_tool_calls_state.tool_call_execution_order@.len() == 0,
        post.side_panel_state.changeset.files@.len() == 0,
        post.side_panel_state.todos@.len() == 0,
        post.usage_tracking_state.total_session_usage.total_tokens == 0,
        post.usage_tracking_state.current_message_usage.total_tokens == 0,
        !post.shortcuts_panel_state.is_visible,
        sent.output@.len() < sent.output_room ==> {
            &&& out.output@.len() == sent.output@.len() + 1
            &&& out.output@.last() matches OutputEvent::SwitchToSession(id)
            &&& id@ == pre.sessions_state.sessions@[pre.sessions_state.session_selected as int].id@
        },
{
}

/// The enter key goes to the topmost of what is open: a popup in front gets it before the bar, the
/// bar before the input. Only the input sends a message.
pub proof fn law_enter_goes_to_the_topmost(
    pre: AppState,
    post: AppState,
    f: Submission,
    sent: Outbox,
    out: Outbox,
)
    requires
        enter_pressed(pre, post, f, sent, out),
    ensures
        pre.profile_switcher_state.show_profile_switcher ==> {
            &&& post == pre
            &&& out.output@ == sent.output@
            &&& sent.input@.len() < sent.input_room ==> out.input@.len() == sent.input@.len() + 1
                && out.input@.last() is ProfileSwitcherSelect
        },
        !pre.profile_switcher_state.show_profile_switcher && !pre.shortcuts_panel_state.is_visible
            && pre.rulebook_switcher_state.show_rulebook_switcher ==> {
            &&& post == pre
            &&& out.output@ == sent.output@
            &&& sent.input@.len() < sent.input_room ==> out.input@.len() == sent.input@.len() + 1
                && out.input@.last() is RulebookSwitcherConfirm
        },
        !pre.profile_switcher_state.show_profile_switcher && !pre.shortcuts_panel_state.is_visible
            && !pre.rulebook_switcher_state.show_rulebook_switcher
            && pre.dialog_approval_state.approval_bar.actions@.len() > 0 ==> bar_submitted(
            pre,
            post,
            sent,
            out,
        ),
        !pre.profile_switcher_state.show_profile_switcher && !pre.shortcuts_panel_state.is_visible
            && !pre.rulebook_switcher_state.show_rulebook_switcher
            && pre.dialog_approval_state.approval_bar.actions@.len() == 0
            && pre.input_state.text_area@.text.len() > 0 && !pre.input_state.is_pasting
            ==> input_submitted(pre, post, f, sent, out),
        !pre.profile_switcher_state.show_profile_switcher && !pre.shortcuts_panel_state.is_visible
            && !pre.rulebook_switcher_state.show_rulebook_switcher
            && pre.dialog_approval_state.approval_bar.actions@.len() == 0
            && pre.input_state.text_area@.text.len() > 0 && pre.input_state.is_pasting ==> post
            == pre && out == sent,
{
}

/// A text that is typed with nothing open is a message: what enter does with it, where it holds
/// anything but white space, does not start with a slash and is not the word `clear`, is to submit
/// it.
pub proof fn law_typed_text_is_submitted(
    pre: AppState,
    post: AppState,
    f: Submission,
    sent: Outbox,
    out: Outbox,
    k: int,
)
    requires
        input_submitted(pre, post, f, sent, out),
        !pre.shell_popup_state.is_expanded,
        !pre.dialog_approval_state.is_dialog_open,
        !pre.input_state.show_helper_dropdown,
        0 <= k < pre.input_state.text_area@.text.len(),
        forall|i: int| 0 <= i < k ==> is_space(#[trigger] pre.input_state.text_area@.text[i]),
        !is_space(pre.input_state.text_area@.text[k]),
        pre.input_state.text_area@.text[k] != '/',
        trim_of(pre.input_state.text_area@.text) != "clear"@,
    ensures
        message_submitted(
            pre.with_input(InputState { show_helper_dropdown: false, ..pre.input_state }),
            post,
            f,
            sent,
            out,
        ),
{
    let text = pre.input_state.text_area@.text;
    let name = trim_of(text);
    lemma_plain_text(pre.input_state.helpers@, text, k);
    let from = law_trim(text);
    assert(name[0] == text[from]);
    if from < k {
        assert(is_space(text[from]));
    }
    assert(!has_prefix(name, "/toggle_auto_approve"@)) by {
        reveal_strlit("/toggle_auto_approve");
        let p = "/toggle_auto_approve"@;
        if has_prefix(name, p) {
            assert(name.subrange(0, p.len() as int)[0] == name[0]);
            assert(p[0] == '/');
        }
    }
}

/// Each image that is missing, or that the model does not take, is said to be so, one after the
/// other; the others are not spoken of.
pub proof fn law_image_errors(v: Seq<ImageView>, missing: Set<Seq<char>>, n: int)
    requires
        0 <= n < v.len(),
    ensures
        missing.contains(v[n].path) ==> image_errors(v, missing, n + 1) == image_errors(
            v,
            missing,
            n,
        ).push("Image file not found: "@ + v[n].path),
        !missing.contains(v[n].path) && v[n].extension is None ==> image_errors(v, missing, n + 1)
            == image_errors(v, missing, n),
        !missing.contains(v[n].path) && v[n].extension is Some && (v[n].extension->0 == "png"@
            || v[n].extension->0 == "jpg"@ || v[n].extension->0 == "jpeg"@ || v[n].extension->0
            == "gif"@ || v[n].extension->0 == "webp"@) ==> image_errors(v, missing, n + 1)
            == image_errors(v, missing, n),
        image_errors(v, missing, 0).len() == 0,
{
    if v[n].extension is Some {
        crate::images::law_supported(v[n].extension->0);
    }
}

proof fn lemma_word_goes_on(s: Seq<char>, i: int, e: int)
    requires
        0 <= i <= e <= s.len(),
        forall|j: int| i <= j < e ==> !is_space(#[trigger] s[j]),
        e < s.len() ==> is_space(s[e]),
    ensures
        crate::banner::word_end(s, i) == e,
    decreases e - i,
{
    if i < e {
        lemma_word_goes_on(s, i + 1, e);
    }
}

proof fn lemma_space_goes_on(s: Seq<char>, i: int, e: int)
    requires
        0 <= i <= e <= s.len(),
        forall|j: int| i <= j < e ==> is_space(#[trigger] s[j]),
        e < s.len() ==> !is_space(s[e]),
    ensures
        skip_space(s, i) == e,
    decreases e - i,
{
    if i < e {
        lemma_space_goes_on(s, i + 1, e);
    }
}

/// The second word of a text is what stands behind the white space behind the first word, up to the
/// next white space.
pub proof fn law_second_word(s: Seq<char>, i: int, e: int, j: int, k: int)
    requires
        0 <= i < e < j < k <= s.len(),
        forall|x: int| 0 <= x < i ==> is_space(#[trigger] s[x]),
        forall|x: int| i <= x < e ==> !is_space(#[trigger] s[x]),
        forall|x: int| e <= x < j ==> is_space(#[trigger] s[x]),
        forall|x: int| j <= x < k ==> !is_space(#[trigger] s[x]),
        k < s.len() ==> is_space(s[k]),
    ensures
        second_word(s) == Some(s.subrange(j, k)),
{
    lemma_space_goes_on(s, 0, i);
    lemma_word_goes_on(s, i, e);
    lemma_space_goes_on(s, e, j);
    lemma_word_goes_on(s, j, k);
}

/// What the user did in a shell of their own, which is in the background when a message is
/// submitted, is put behind the reports that wait, and the shell is gone.
pub proof fn law_visit_is_reported(pre: AppState, post: AppState, sent: Outbox, out: Outbox)
    requires
        shell_wrapped_up(pre, post, sent, out),
        pre.shell_popup_state.ondemand_shell_mode,
        pre.shell_popup_state.active_shell_command is Some,
        !pre.shell_popup_state.is_expanded,
    ensures
        post.shell_popup_state.active_shell_command is None,
        !post.shell_popup_state.ondemand_shell_mode,
        post.shell_runtime_state.history_lines@.len() == 0,
        out.output@ == sent.output@,
        out.effects@.len() == sent.effects@.len() + 1,
        out.effects@.last() is KillShell,
        ({
            let rows = trimmed_rows(line_views(pre.shell_runtime_state.history_lines@));
            let before = match pre.shell_popup_state.shell_tool_calls {
                Some(v) => v@,
                None => Seq::empty(),
            };
            &&& rows.len() > 1 ==> {
                &&& post.shell_popup_state.shell_tool_calls is Some
                &&& post.shell_popup_state.shell_tool_calls->0@.len() == before.len() + 1
                &&& post.shell_popup_state.shell_tool_calls->0@.drop_last() == before
            }
            &&& rows.len() <= 1 ==> post.shell_popup_state.shell_tool_calls
                == pre.shell_popup_state.shell_tool_calls
        }),
{
    let (a, b) = choose|a: AppState, b: AppState| #[trigger]
        visit_shown(pre, a) && #[trigger] shell_put_away(a, b) && shell_gone(b, post)
            && sent.affects(out, |e: Effect| e is KillShell);
    let rows = trimmed_rows(line_views(pre.shell_runtime_state.history_lines@));
    let before = match pre.shell_popup_state.shell_tool_calls {
        Some(v) => v@,
        None => Seq::empty(),
    };
    if rows.len() > 1 {
        let after = a.shell_popup_state.shell_tool_calls->0@;
        assert(after.drop_last() =~= before);
    }
}

/// A text that is submitted in the user's name is shown as it is, as the last message, and what was
/// typed is gone; nothing is sent.
pub proof fn law_submitted_with(
    pre: AppState,
    post: AppState,
    text: String,
    color: Option<Color>,
    height: usize,
)
    requires
        submitted_with(pre, post, text, color, height),
    ensures
        post.messages_scrolling_state.messages@.len()
            == pre.messages_scrolling_state.messages@.len() + 1,
        post.messages_scrolling_state.messages@.drop_last()
            == pre.messages_scrolling_state.messages@,
        ({
            &&& post.messages_scrolling_state.messages@.last().content matches
                MessageContent::SubmittedWith(t, style)
            &&& t == text
            &&& (style is Some) == (color is Some)
            &&& color is Some ==> style->0.fg == color
        }),
        post.input_state.text_area@.text.len() == 0,
        post.shell_popup_state.shell_tool_calls is None,
{
}

/// Enter with a list in view takes the selected entry: a file goes into the text, a command of the
/// user's own is written out with a space behind it, and any other command is run under its name.
pub proof fn law_offer_is_taken(pre: AppState, post: AppState, sent: Outbox, out: Outbox)
    requires
        offer_taken(pre, post, sent, out),
    ensures
        out.output@ == sent.output@,
        out.input@ == sent.input@,
        pre.input_state.file_search.is_file_mode ==> out == sent,
        ({
            let i = pre.input_state;
            !i.file_search.is_file_mode && i.helper_selected < i.filtered_helpers@.len() ==> {
                let h = i.filtered_helpers@[i.helper_selected as int];
                &&& h.source is Custom ==> out == sent && post.input_state.text_area@.text
                    == h.command@.push(' ')
                &&& !(h.source is Custom) ==> {
                    &&& post == pre
                    &&& out.effects@.len() == sent.effects@.len() + 1
                    &&& out.effects@.last() matches Effect::Command(t)
                    &&& t@ == h.command@
                }
            }
        }),
{
}

/// A message that the model has no room for is still shown: the user's text stands in the
/// conversation behind everything before, which stays.
pub proof fn law_overload_shows_the_text(pre: Seq<Message>, post: Seq<Message>, text: Seq<char>)
    requires
        overload_shown(pre, post, text),
    ensures
        post.len() > pre.len(),
        post.take(pre.len() as int) == pre,
        exists|k: int|
            {
                &&& pre.len() <= k < post.len()
                &&& (#[trigger] post[k]).content matches MessageContent::UserMessage(t)
                &&& t@ == text
            },
{
    let ps = overload_notice(text);
    if pre.len() == 0 {
        assert(new_message(post[pre.len() as int + 0], ps[0]));
        assert(post[0].content is UserMessage);
    } else {
        let mid = choose|mid: Seq<Message>|
            pushed(pre, mid, |c: MessageContent| is_blank(c)) && #[trigger] appended(mid, post, ps);
        assert(new_message(post[mid.len() as int + 0], ps[0]));
        assert(post[mid.len() as int].content is UserMessage);
        assert(post.take(pre.len() as int) =~= pre) by {
            assert(forall|i: int| 0 <= i < pre.len() ==> post[i] == post.take(mid.len() as int)[i]);
            assert(forall|i: int| 0 <= i < pre.len() ==> mid[i] == mid.drop_last()[i]);
        }
    }
}

/// A waiting paste comes back in place of its placeholder: the first of the waiting ones whose
/// placeholder the text holds; a text that holds none stays as it is.
pub proof fn law_paste_is_expanded(
    text: Seq<char>,
    pastes: Seq<(String, String)>,
    from: int,
    k: int,
)
    requires
        0 <= from <= k <= pastes.len(),
        forall|j: int| from <= j < k ==> !holds_text(text, (#[trigger] pastes[j]).0@),
    ensures
        k == pastes.len() ==> paste_expanded(text, pastes, from) == text,
        k < pastes.len() && holds_text(text, pastes[k].0@) ==> paste_expanded(text, pastes, from)
            == replaced(text, pastes[k].0@, pastes[k].1@),
    decreases k - from,
{
    if from < k {
        assert(!holds_text(text, pastes[from].0@));
        law_paste_is_expanded(text, pastes, from + 1, k);
    }
}

/// Where the view was at the end of the conversation, it follows the end after a message; where it
/// was not, it stays.
pub proof fn law_end_is_followed(m: MessagesScrollingState, height: usize, at_end: bool)
    ensures
        !at_end ==> end_followed(m, height, at_end) == m,
        at_end ==> {
            &&& end_followed(m, height, at_end).stay_at_bottom
            &&& end_followed(m, height, at_end).scroll_to_bottom
            &&& end_followed(m, height, at_end).messages == m.messages
        },
{
}

/// A command that takes an argument is named by its word, whatever stands behind the space.
pub proof fn law_command_with_argument(helpers: Seq<HelperCommand>, rest: Seq<char>)
    ensures
        named_command(helpers, "/editor"@ + seq![' '] + rest) == Some("/editor"@),
{
    reveal_strlit("/editor");
    let w = "/editor"@;
    let text = w + seq![' '] + rest;
    lemma_next_char(text, ' ', 0);
    assert(text[7] == ' ');
    assert(forall|i: int| 0 <= i < 7 ==> text[i] == w[i]);
    assert(w[0] == '/' && w[1] == 'e' && w[2] == 'd' && w[3] == 'i' && w[4] == 't' && w[5] == 'o'
        && w[6] == 'r');
    assert(next_char(text, ' ', 0) == 7);
    assert(text.take(7) =~= w);
}

} // verus!
