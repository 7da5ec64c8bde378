//! The dialog in which the user approves a tool call, and the escape key.

use vstd::prelude::*;
use crate::app::AppState;
use crate::app::clear_text;
use crate::approval_bar::law_with_calls;
use crate::approval_bar::with_calls;
use crate::collections::TextMap;
use crate::events::Effect;
use crate::events::InputEvent;
use crate::events::Outbox;
use crate::events::OutputEvent;
use crate::helper_block::push_styled_message;
use crate::helper_block::row_pushed;
use crate::helper_block::tinted;
use crate::message::Message;
use crate::message::MessageContent;
use crate::message::RunCommandState;
use crate::message::find_message;
use crate::message::fresh_id;
use crate::message::id_in;
use crate::message::message_at;
use crate::message::parse_id;
use crate::message::pushed;
use crate::message::set_content;
use crate::models::ToolCall;
use crate::models::ToolCallResult;
use crate::models::copy_calls;
use crate::models::copy_text;
use crate::models::text_of;
use crate::shell::background_shell_session;
use crate::shell::backgrounded;
use crate::shell::call_at;
use crate::shell::command_text;
use crate::shell::find_call;
use crate::shell::reports_shell;
use crate::shell::shell_command_to_tool_call_result;
use crate::shell::shown_command;
use crate::shell::terminate_active_shell_session;
use crate::shell::terminated;
use crate::shell::trim_shell_lines;
use crate::shell::trimmed_rows;
use crate::style::Color;
use crate::style::Line;
use crate::style::SpanView;
use crate::style::Tone;
use crate::style::all_lines;
use crate::style::line_views;
use crate::style::row_text;
use crate::text::join;
use crate::text::joined;
use crate::text::texts;
use crate::textarea::TextAreaView;
use crate::tool::block_created;
use crate::tool::cancel_asked;
use crate::tool::clear_asked;
use crate::tool::create_pending_block_for_selected_tool;
use crate::tool::force_layout;
use crate::tool::is_foreground_command_tool;
use crate::tool::laid_out_anew;
use crate::tool::pending_content;
use crate::tool::remove_opt;
use crate::tool::remove_running;
use crate::tool::runs_command;
use crate::tool::shows_command;
use crate::tool::shows_pending;
use crate::tool::without_opt;
use crate::tool::without_running;
use crate::types::CommandPaletteState;
use crate::types::DialogApprovalState;
use crate::types::LoadingState;
use crate::types::MessageInteractionState;
use crate::types::MessagesScrollingState;
use crate::types::ProfileSwitcherState;
use crate::types::RulebookSwitcherState;
use crate::types::SelectionState;
use crate::types::SessionToolCallsState;
use crate::types::ShellPopupState;
use crate::types::ShortcutsPanelState;
use crate::types::ToolCallState;
use crate::types::ToolCallStatus;

verus! {

// ----- the block of a call that runs -----

/// The content of a command's block once it runs; another kind of content stays as it is.
pub open spec fn runs_now(pre: MessageContent, post: MessageContent) -> bool {
    match pre {
        MessageContent::RenderRunCommandBlock(command, _, _) => post
            == MessageContent::RenderRunCommandBlock(command, None, RunCommandState::Running),
        _ => post == pre,
    }
}

/// The conversation after the block of a command says that it runs.
pub open spec fn block_runs(
    pre: MessagesScrollingState,
    post: MessagesScrollingState,
    pending: Option<u128>,
) -> bool {
    match pending {
        None => post == pre,
        Some(id) => {
            &&& post == (MessagesScrollingState {
                messages: post.messages,
                lines_stale: true,
                ..pre
            })
            &&& match message_at(pre.messages@, id, 0) {
                None => post.messages@ == pre.messages@,
                Some(i) => {
                    &&& 0 <= i < pre.messages@.len()
                    &&& post.messages@.len() == pre.messages@.len()
                    &&& post.messages@ == pre.messages@.update(
                        i,
                        Message { content: post.messages@[i].content, ..pre.messages@[i] },
                    )
                    &&& runs_now(pre.messages@[i].content, post.messages@[i].content)
                },
            }
        },
    }
}

/// The state after the block of a call says that it runs, where the call runs a command.
pub open spec fn call_runs(pre: AppState, post: AppState, call: ToolCall) -> bool {
    if runs_command(call.function.bare_name@) {
        &&& post == pre.with_messages(post.messages_scrolling_state)
        &&& block_runs(
            pre.messages_scrolling_state,
            post.messages_scrolling_state,
            pre.tool_call_state.pending_bash_message_id,
        )
    } else {
        post == pre
    }
}

fn running_content(c: &MessageContent) -> (r: Option<MessageContent>)
    ensures
        match r {
            Some(n) => runs_now(*c, n),
            None => runs_now(*c, *c),
        },
{
    match c {
        MessageContent::RenderRunCommandBlock(command, _, _) => Some(
            MessageContent::RenderRunCommandBlock(command.clone(), None, RunCommandState::Running),
        ),
        _ => None,
    }
}

fn show_running(m: &mut MessagesScrollingState, pending: Option<u128>)
    ensures
        block_runs(*old(m), *final(m), pending),
{
    match pending {
        Some(id) => {
            match find_message(&m.messages, id) {
                Some(i) => {
                    let ghost before = m.messages@;
                    match running_content(&m.messages[i].content) {
                        Some(c) => {
                            set_content(&mut m.messages, i, c);
                        },
                        None => {
                            assert(before =~= before.update(i as int, before[i as int]));
                        },
                    }
                },
                None => {},
            }
            m.lines_stale = true;
        },
        None => {},
    }
}

/// Says in the block of a command that it runs.
pub fn update_run_command_to_running(state: &mut AppState, tool_call: &ToolCall)
    ensures
        call_runs(*old(state), *final(state), *tool_call),
{
    if is_foreground_command_tool(tool_call.function.bare_name.as_str()) {
        let pending: Option<u128> = state.tool_call_state.pending_bash_message_id;
        show_running(&mut state.messages_scrolling_state, pending);
    }
}

/// Whether the content shows the first of several calls, which runs or was rejected.
pub open spec fn shows_first(c: MessageContent, call: ToolCall, approved: bool) -> bool {
    if runs_command(call.function.bare_name@) {
        shows_command(
            c,
            shown_command(call.function.arguments@),
            None,
            if approved {
                RunCommandState::Running
            } else {
                RunCommandState::Rejected
            },
        )
    } else {
        c == MessageContent::RenderPendingBorderBlock(call, approved)
    }
}

fn first_content(call: &ToolCall, approved: bool) -> (c: MessageContent)
    ensures
        shows_first(c, *call, approved),
{
    if is_foreground_command_tool(call.function.bare_name.as_str()) {
        MessageContent::RenderRunCommandBlock(
            command_text(call),
            None,
            if approved {
                RunCommandState::Running
            } else {
                RunCommandState::Rejected
            },
        )
    } else {
        MessageContent::RenderPendingBorderBlock(call.clone(), approved)
    }
}

/// The state after the first of several calls is shown in place of the one that waited.
pub open spec fn first_shown(
    pre: AppState,
    post: AppState,
    call: ToolCall,
    approved: bool,
) -> bool {
    let m = pre.messages_scrolling_state;
    let n = post.messages_scrolling_state;
    &&& post == (AppState {
        messages_scrolling_state: MessagesScrollingState {
            messages: n.messages,
            lines_stale: true,
            ..m
        },
        tool_call_state: ToolCallState {
            pending_bash_message_id: Some(n.messages@.last().id),
            ..pre.tool_call_state
        },
        ..pre
    })
    &&& pushed(
        without_opt(m.messages@, pre.tool_call_state.pending_bash_message_id),
        n.messages@,
        |c: MessageContent| shows_first(c, call, approved),
    )
}

fn replace_pending(m: &mut MessagesScrollingState, pending: Option<u128>, content: MessageContent)
    -> (id: u128)
    ensures
        *final(m) == (MessagesScrollingState {
            messages: final(m).messages,
            lines_stale: true,
            ..*old(m)
        }),
        pushed(
            without_opt(old(m).messages@, pending),
            final(m).messages@,
            |c: MessageContent| c == content,
        ),
        id == final(m).messages@.last().id,
{
    remove_opt(&mut m.messages, pending);
    let ghost before = m.messages@;
    let message: Message = Message::new(content);
    let id: u128 = message.id;
    m.messages.push(message);
    assert(m.messages@.drop_last() =~= before);
    m.lines_stale = true;
    id
}

/// Shows the first of several calls, which is run or was rejected, whichever is selected.
pub fn update_pending_tool_to_first(
    state: &mut AppState,
    first_tool: &ToolCall,
    is_approved: bool,
)
    ensures
        first_shown(*old(state), *final(state), *first_tool, is_approved),
{
    let content: MessageContent = first_content(first_tool, is_approved);
    let pending: Option<u128> = state.tool_call_state.pending_bash_message_id;
    let id: u128 = replace_pending(&mut state.messages_scrolling_state, pending, content);
    state.tool_call_state.pending_bash_message_id = Some(id);
}

// ----- escape -----

/// Whether the content shows that a call was rejected or skipped.
pub open spec fn shows_rejected(
    c: MessageContent,
    call: ToolCall,
    message: Option<Seq<char>>,
    color: Option<Color>,
    run: RunCommandState,
) -> bool {
    if runs_command(call.function.bare_name@) {
        shows_command(c, shown_command(call.function.arguments@), message, run)
    } else {
        c matches MessageContent::RenderRejectedBlock(k, t, h) && k == call && text_of(t) == message
            && h == color
    }
}

fn rejected_content(
    call: &ToolCall,
    message: &Option<String>,
    color: Option<Color>,
    run: RunCommandState,
) -> (c: MessageContent)
    ensures
        shows_rejected(c, *call, text_of(*message), color, run),
{
    if is_foreground_command_tool(call.function.bare_name.as_str()) {
        MessageContent::RenderRunCommandBlock(command_text(call), copy_text(message), run)
    } else {
        MessageContent::RenderRejectedBlock(call.clone(), copy_text(message), color)
    }
}

/// The state of a command that is not run: skipped where the reason is yellow, else rejected.
pub open spec fn refused_state(color: Option<Color>) -> RunCommandState {
    if color == Some(Color::Theme(Tone::Yellow)) {
        RunCommandState::Skipped
    } else {
        RunCommandState::Rejected
    }
}

fn find_refused_state(color: Option<Color>) -> (r: RunCommandState)
    ensures
        r == refused_state(color),
{
    match color {
        Some(c) => if c == Color::Theme(Tone::Yellow) {
            RunCommandState::Skipped
        } else {
            RunCommandState::Rejected
        },
        None => RunCommandState::Rejected,
    }
}

/// The dialog after it was closed.
pub open spec fn dialog_closed(d: DialogApprovalState) -> DialogApprovalState {
    DialogApprovalState {
        is_dialog_open: false,
        dialog_command: None,
        dialog_focused: false,
        ..d
    }
}

fn close_dialog(d: &mut DialogApprovalState)
    ensures
        *final(d) == dialog_closed(*old(d)),
{
    d.is_dialog_open = false;
    d.dialog_command = None;
    d.dialog_focused = false;
}

/// What stands in the input after it was emptied.
pub open spec fn emptied(t: TextAreaView) -> TextAreaView {
    TextAreaView { text: Seq::empty(), cursor: 0, ..t }
}

/// The conversation after a call was rejected: its block gives way to one that says so.
pub open spec fn rejection_shown(
    pre: Seq<Message>,
    post: Seq<Message>,
    call: ToolCall,
    pending: Option<u128>,
    message: Option<Seq<char>>,
    color: Option<Color>,
) -> bool {
    pushed(
        without_opt(without_opt(pre, id_in(call.id@)), pending),
        post,
        |c: MessageContent| shows_rejected(c, call, message, color, refused_state(color)),
    )
}

/// What escape does while the dialog is open.
pub open spec fn dialog_left(
    pre: AppState,
    post: AppState,
    message: Option<Seq<char>>,
    stop: bool,
    color: Option<Color>,
    sent: Outbox,
    out: Outbox,
) -> bool {
    let m = pre.messages_scrolling_state;
    let n = post.messages_scrolling_state;
    &&& post == (AppState {
        dialog_approval_state: dialog_closed(pre.dialog_approval_state),
        messages_scrolling_state: MessagesScrollingState { messages: n.messages, ..m },
        ..pre.with_text(post.input_state.text_area)
    })
    &&& post.input_state.text_area@ == emptied(pre.input_state.text_area@)
    &&& match pre.dialog_approval_state.dialog_command {
        Some(call) => {
            &&& sent.outputs(out, |e: OutputEvent| e == OutputEvent::RejectTool(call, stop))
            &&& rejection_shown(
                m.messages@,
                n.messages@,
                call,
                pre.tool_call_state.pending_bash_message_id,
                message,
                color,
            )
        },
        None => n.messages@ == m.messages@ && out == sent,
    }
}

fn show_rejection(
    messages: &mut Vec<Message>,
    call: &ToolCall,
    pending: Option<u128>,
    message: &Option<String>,
    color: Option<Color>,
)
    ensures
        rejection_shown(
            old(messages)@,
            final(messages)@,
            *call,
            pending,
            text_of(*message),
            color,
        ),
{
    remove_opt(messages, parse_id(call.id.as_str()));
    remove_opt(messages, pending);
    let ghost before = messages@;
    messages.push(
        Message::new(rejected_content(call, message, color, find_refused_state(color))),
    );
    assert(messages@.drop_last() =~= before);
}

fn leave_dialog(
    state: &mut AppState,
    message: &Option<String>,
    stop: bool,
    color: Option<Color>,
    out: &mut Outbox,
)
    ensures
        dialog_left(
            *old(state),
            *final(state),
            text_of(*message),
            stop,
            color,
            *old(out),
            *final(out),
        ),
{
    let call: Option<ToolCall> = match &state.dialog_approval_state.dialog_command {
        Some(c) => Some(c.clone()),
        None => None,
    };
    match &call {
        Some(c) => {
            let _sent: bool = out.send_output(OutputEvent::RejectTool(c.clone(), stop));
            let pending: Option<u128> = state.tool_call_state.pending_bash_message_id;
            show_rejection(
                &mut state.messages_scrolling_state.messages,
                c,
                pending,
                message,
                color,
            );
        },
        None => {},
    }
    close_dialog(&mut state.dialog_approval_state);
    clear_text(&mut state.input_state.text_area);
}

/// The texts of rows, one line for each.
pub open spec fn rows_text(rows: Seq<Seq<SpanView>>) -> Seq<char> {
    joined(rows.map_values(|r: Seq<SpanView>| row_text(r)), "\n"@)
}

/// The texts of rows, one line for each.
pub fn text_of_rows(rows: &Vec<Line>) -> (r: String)
    ensures
        r@ == rows_text(line_views(rows@)),
{
    let mut v: Vec<String> = Vec::new();
    let mut i: usize = 0;
    let ghost all = line_views(rows@).map_values(|r: Seq<SpanView>| row_text(r));
    assert(texts(v@) =~= all.take(0));
    while i < rows.len()
        invariant
            i <= rows@.len(),
            all == line_views(rows@).map_values(|r: Seq<SpanView>| row_text(r)),
            all.len() == rows@.len(),
            v@.len() == i,
            texts(v@) == all.take(i as int),
        decreases rows@.len() - i,
    {
        let t: String = rows[i].text();
        proof {
            crate::text::lemma_texts_push(v@, t);
            assert(all[i as int] == t@);
            assert(all.take(i + 1) =~= all.take(i as int).push(all[i as int]));
        }
        v.push(t);
        i += 1;
    }
    assert(v@.take(v@.len() as int) =~= v@);
    assert(all.take(i as int) =~= all);
    join(&v, v.len(), "\n")
}

/// The popup after the shell that resolved a call was closed.
pub open spec fn shell_resolved(p: ShellPopupState) -> ShellPopupState {
    ShellPopupState {
        is_tool_call_shell_command: false,
        is_visible: false,
        is_expanded: false,
        pending_command_executed: false,
        pending_command_value: None,
        pending_command_output: None,
        pending_command_output_count: 0,
        ..p
    }
}

fn resolve_popup(p: &mut ShellPopupState)
    ensures
        *final(p) == shell_resolved(*old(p)),
{
    p.is_tool_call_shell_command = false;
    p.is_visible = false;
    p.is_expanded = false;
    p.pending_command_executed = false;
    p.pending_command_value = None;
    p.pending_command_output = None;
    p.pending_command_output_count = 0;
}

/// What stands in the input after the shell was left.
pub open spec fn left_shell(t: TextAreaView) -> TextAreaView {
    TextAreaView { shell_mode: false, ..emptied(t) }
}

/// A report of the shell went out as the result of the call.
pub open spec fn shell_answered(s: AppState, sent: Outbox, out: Outbox) -> bool {
    sent.outputs(
        out,
        |e: OutputEvent|
            {
                &&& e matches OutputEvent::SendToolResult(r, stop, rest)
                &&& !stop
                &&& rest@.len() == 0
                &&& reports_shell(
                    r,
                    s.dialog_approval_state.dialog_command,
                    s.shell_popup_state.active_shell_command,
                    text_of(s.shell_popup_state.pending_command_value),
                    Some(rows_text(trimmed_rows(line_views(s.shell_runtime_state.history_lines@)))),
                )
            },
    )
}

/// The state after the shell that resolved a call was closed.
pub open spec fn shell_left(pre: AppState, post: AppState) -> bool {
    &&& post == (AppState {
        shell_popup_state: shell_resolved(pre.shell_popup_state),
        dialog_approval_state: DialogApprovalState {
            dialog_command: None,
            ..pre.dialog_approval_state
        },
        messages_scrolling_state: MessagesScrollingState {
            lines_stale: true,
            ..pre.messages_scrolling_state
        },
        ..pre.with_text(post.input_state.text_area)
    })
    &&& post.input_state.text_area@ == left_shell(pre.input_state.text_area@)
}

/// What escape does in the shell: one that a call opened reports what it has shown and is ended;
/// any other goes to the background.
pub open spec fn shell_escaped(pre: AppState, post: AppState, sent: Outbox, out: Outbox) -> bool {
    if pre.dialog_approval_state.dialog_command is Some {
        exists|a: Outbox, mid: AppState| #[trigger]
            shell_answered(pre, sent, a) && #[trigger] terminated(pre, mid, a, out) && shell_left(
                mid,
                post,
            )
    } else {
        backgrounded(pre, post) && out == sent
    }
}

fn close_resolved(state: &mut AppState)
    ensures
        shell_left(*old(state), *final(state)),
{
    resolve_popup(&mut state.shell_popup_state);
    state.dialog_approval_state.dialog_command = None;
    state.messages_scrolling_state.lines_stale = true;
    state.input_state.text_area.set_shell_mode(false);
    clear_text(&mut state.input_state.text_area);
}

fn escape_shell(state: &mut AppState, out: &mut Outbox)
    ensures
        shell_escaped(*old(state), *final(state), *old(out), *final(out)),
{
    if state.dialog_approval_state.dialog_command.is_some() {
        let history: Vec<Line> = trim_shell_lines(
            all_lines(&state.shell_runtime_state.history_lines),
        );
        let text: String = text_of_rows(&history);
        let result: ToolCallResult = shell_command_to_tool_call_result(
            state,
            copy_text(&state.shell_popup_state.pending_command_value),
            Some(text),
        );
        let none: Vec<ToolCall> = Vec::new();
        let _sent: bool = out.send_output(OutputEvent::SendToolResult(result, false, none));
        let ghost a = *out;
        assert(shell_answered(*old(state), *old(out), a));
        terminate_active_shell_session(state, out);
        let ghost mid = *state;
        assert(terminated(*old(state), mid, a, *out));
        close_resolved(state);
    } else {
        background_shell_session(state);
    }
}

/// The state in which no tool streams.
pub open spec fn stream_stopped(s: AppState) -> AppState {
    AppState { tool_call_state: ToolCallState { is_streaming: false, ..s.tool_call_state }, ..s }
}

/// The state without the collapsed messages.
pub open spec fn collapsed_left(s: AppState) -> AppState {
    AppState {
        messages_scrolling_state: MessagesScrollingState {
            show_collapsed_messages: false,
            ..s.messages_scrolling_state
        },
        message_interaction_state: MessageInteractionState {
            selection: SelectionState::none(),
            ..s.message_interaction_state
        },
        ..s
    }
}

fn leave_collapsed(state: &mut AppState)
    ensures
        *final(state) == collapsed_left(*old(state)),
{
    state.messages_scrolling_state.show_collapsed_messages = false;
    state.message_interaction_state.selection = SelectionState::none();
}

/// What escape leaves, once the stream is stopped: the collapsed messages, the completions, the
/// dialog, the shell, or what is typed.
pub open spec fn place_left(
    pre: AppState,
    post: AppState,
    streaming: bool,
    message: Option<Seq<char>>,
    stop: bool,
    color: Option<Color>,
    sent: Outbox,
    out: Outbox,
) -> bool {
    if pre.messages_scrolling_state.show_collapsed_messages {
        post == collapsed_left(pre) && out == sent
    } else if pre.input_state.show_helper_dropdown {
        post == pre.with_input(
            crate::types::InputState { show_helper_dropdown: false, ..pre.input_state },
        ) && out == sent
    } else if pre.dialog_approval_state.is_dialog_open {
        dialog_left(pre, post, message, stop, color, sent, out)
    } else if pre.shell_popup_state.is_expanded {
        shell_escaped(pre, post, sent, out)
    } else {
        &&& post == (AppState {
            tool_call_state: ToolCallState {
                cancel_requested: streaming || pre.tool_call_state.cancel_requested,
                ..pre.tool_call_state
            },
            ..pre.with_text(post.input_state.text_area)
        })
        &&& post.input_state.text_area@ == emptied(pre.input_state.text_area@)
        &&& out == sent
    }
}

fn leave_place(
    state: &mut AppState,
    streaming: bool,
    message: &Option<String>,
    stop: bool,
    color: Option<Color>,
    out: &mut Outbox,
)
    ensures
        place_left(
            *old(state),
            *final(state),
            streaming,
            text_of(*message),
            stop,
            color,
            *old(out),
            *final(out),
        ),
{
    if state.messages_scrolling_state.show_collapsed_messages {
        leave_collapsed(state);
    } else if state.input_state.show_helper_dropdown {
        state.input_state.show_helper_dropdown = false;
    } else if state.dialog_approval_state.is_dialog_open {
        leave_dialog(state, message, stop, color, out);
    } else if state.shell_popup_state.is_expanded {
        escape_shell(state, out);
    } else {
        let cancel: bool = streaming || state.tool_call_state.cancel_requested;
        state.tool_call_state.cancel_requested = cancel;
        clear_text(&mut state.input_state.text_area);
    }
}

/// The conversation after escape: nothing of a running tool or a call that waits is shown. Where
/// something was cancelled, the view goes to the end.
pub open spec fn after_escape(
    pre: AppState,
    post: AppState,
    cancelled: bool,
) -> bool {
    let m = pre.messages_scrolling_state;
    let n = post.messages_scrolling_state;
    &&& post == pre.with_messages(n)
    &&& n == (if cancelled {
        MessagesScrollingState {
            messages: n.messages,
            lines_stale: true,
            stay_at_bottom: true,
            ..m
        }
    } else {
        MessagesScrollingState { messages: n.messages, ..m }
    })
    &&& n.messages@ == without_running(m.messages@, pre.tool_call_state)
}

fn finish_escape(state: &mut AppState, cancelled: bool)
    ensures
        after_escape(*old(state), *final(state), cancelled),
{
    remove_running(&mut state.messages_scrolling_state.messages, &state.tool_call_state);
    if cancelled {
        state.messages_scrolling_state.lines_stale = true;
        state.messages_scrolling_state.stay_at_bottom = true;
    }
}

/// Whether escape cancels something, not only closes a popup or empties the input.
pub open spec fn cancels(s: AppState) -> bool {
    s.tool_call_state.is_streaming || s.dialog_approval_state.is_dialog_open
        || s.shell_popup_state.is_expanded
}

/// What escape does: the terminal is cleared, the stream is stopped, and one place is left.
pub open spec fn escaped(
    pre: AppState,
    post: AppState,
    message: Option<Seq<char>>,
    stop: bool,
    color: Option<Color>,
    sent: Outbox,
    out: Outbox,
) -> bool {
    exists|a: Outbox, b: Outbox, mid: AppState| #[trigger]
        clear_asked(sent, a) && #[trigger] cancel_asked(a, b) && place_left(
            stream_stopped(pre),
            mid,
            pre.tool_call_state.is_streaming,
            message,
            stop,
            color,
            b,
            out,
        ) && #[trigger] after_escape(mid, post, cancels(pre))
}

/// The escape key, or a call that is rejected for the given reason.
pub fn handle_esc(
    state: &mut AppState,
    message: Option<String>,
    should_stop: bool,
    color: Option<Color>,
    out: &mut Outbox,
)
    ensures
        escaped(
            *old(state),
            *final(state),
            text_of(message),
            should_stop,
            color,
            *old(out),
            *final(out),
        ),
{
    let _sent: bool = out.send_input(InputEvent::EmergencyClearTerminal);
    let ghost a = *out;
    out.ask(Effect::CancelStream);
    let ghost b = *out;
    assert(clear_asked(*old(out), a) && cancel_asked(a, b));
    let streaming: bool = state.tool_call_state.is_streaming;
    let cancelled: bool = streaming || state.dialog_approval_state.is_dialog_open
        || state.shell_popup_state.is_expanded;
    state.tool_call_state.is_streaming = false;
    leave_place(state, streaming, &message, should_stop, color, out);
    let ghost mid = *state;
    finish_escape(state, cancelled);
    assert(after_escape(mid, *state, cancels(*old(state))));
}

/// The state after the selection was given up.
pub open spec fn deselected(s: AppState) -> AppState {
    if s.message_interaction_state.selection.active {
        AppState {
            message_interaction_state: MessageInteractionState {
                selection: SelectionState::none(),
                ..s.message_interaction_state
            },
            ..s
        }
    } else {
        s
    }
}

/// The state before the calls that wait are rejected: the ones of the message are forgotten, and
/// the latest command is kept.
pub open spec fn calls_given_up(pre: AppState, post: AppState) -> bool {
    let d = pre.dialog_approval_state;
    &&& post == (AppState {
        dialog_approval_state: DialogApprovalState { message_tool_calls: None, ..d },
        session_tool_calls_state: SessionToolCallsState {
            tool_call_execution_order: post.session_tool_calls_state.tool_call_execution_order,
            ..pre.session_tool_calls_state
        },
        tool_call_state: ToolCallState {
            latest_tool_call: match d.dialog_command {
                Some(call) => if runs_command(call.function.bare_name@) {
                    Some(call)
                } else {
                    pre.tool_call_state.latest_tool_call
                },
                None => pre.tool_call_state.latest_tool_call,
            },
            ..pre.tool_call_state
        },
        ..pre
    })
    &&& post.session_tool_calls_state.tool_call_execution_order@.len() == 0
}

/// What the escape key does: it closes the topmost popup; without one, it rejects the calls that
/// wait.
pub open spec fn esc_pressed(pre: AppState, post: AppState, sent: Outbox, out: Outbox) -> bool {
    let s = deselected(pre);
    if s.rulebook_switcher_state.show_rulebook_switcher {
        post == (AppState {
            rulebook_switcher_state: RulebookSwitcherState {
                show_rulebook_switcher: false,
                ..s.rulebook_switcher_state
            },
            ..s
        }) && out == sent
    } else if s.shortcuts_panel_state.is_visible {
        &&& post == (AppState {
            shortcuts_panel_state: ShortcutsPanelState {
                is_visible: false,
                ..s.shortcuts_panel_state
            },
            command_palette_state: CommandPaletteState {
                search: post.command_palette_state.search,
                ..s.command_palette_state
            },
            ..s
        })
        &&& post.command_palette_state.search@.len() == 0
        &&& out == sent
    } else if s.profile_switcher_state.show_profile_switcher {
        post == (AppState {
            profile_switcher_state: ProfileSwitcherState {
                show_profile_switcher: false,
                ..s.profile_switcher_state
            },
            ..s
        }) && out == sent
    } else if s.messages_scrolling_state.show_collapsed_messages {
        post == collapsed_left(s) && out == sent
    } else {
        exists|mid: AppState| #[trigger]
            calls_given_up(s, mid) && escaped(
                mid,
                post,
                Some("Tool calls rejected"@),
                true,
                None,
                sent,
                out,
            )
    }
}

fn give_calls_up(state: &mut AppState)
    ensures
        calls_given_up(*old(state), *final(state)),
{
    state.dialog_approval_state.message_tool_calls = None;
    state.session_tool_calls_state.tool_call_execution_order.clear();
    let call: Option<ToolCall> = match &state.dialog_approval_state.dialog_command {
        Some(c) => if is_foreground_command_tool(c.function.bare_name.as_str()) {
            Some(c.clone())
        } else {
            None
        },
        None => None,
    };
    if call.is_some() {
        state.tool_call_state.latest_tool_call = call;
    }
}

/// The escape key.
pub fn handle_esc_event(state: &mut AppState, out: &mut Outbox)
    ensures
        esc_pressed(*old(state), *final(state), *old(out), *final(out)),
{
    if state.message_interaction_state.selection.active {
        state.message_interaction_state.selection = SelectionState::none();
    }
    let ghost s = *state;
    assert(s == deselected(*old(state)));
    if state.rulebook_switcher_state.show_rulebook_switcher {
        state.rulebook_switcher_state.show_rulebook_switcher = false;
    } else if state.shortcuts_panel_state.is_visible {
        state.shortcuts_panel_state.is_visible = false;
        state.command_palette_state.search = String::new();
    } else if state.profile_switcher_state.show_profile_switcher {
        state.profile_switcher_state.show_profile_switcher = false;
    } else if state.messages_scrolling_state.show_collapsed_messages {
        leave_collapsed(state);
    } else {
        give_calls_up(state);
        let ghost mid = *state;
        assert(calls_given_up(s, mid));
        handle_esc(state, Some("Tool calls rejected".to_owned()), true, None, out);
    }
}

/// Nothing of a running tool or a call that waits is left in the conversation after escape.
pub proof fn law_escape_clears(pre: AppState, post: AppState, cancelled: bool, id: u128)
    requires
        after_escape(pre, post, cancelled),
        pre.tool_call_state.streaming_tool_result_id == Some(id)
            || pre.tool_call_state.pending_bash_message_id == Some(id),
    ensures
        message_at(post.messages_scrolling_state.messages@, id, 0) is None,
{
    let m = pre.messages_scrolling_state.messages@;
    let a = crate::tool::id_or_zero(pre.tool_call_state.streaming_tool_result_id);
    let b = crate::tool::id_or_zero(pre.tool_call_state.pending_bash_message_id);
    crate::message::law_without(m, a);
    crate::message::law_without(crate::message::without(m, a), b);
    lemma_without_keeps(crate::message::without(m, a), b, a);
    lemma_not_there(post.messages_scrolling_state.messages@, id, 0);
}

proof fn lemma_without_keeps(messages: Seq<Message>, id: u128, gone: u128)
    requires
        forall|i: int| 0 <= i < messages.len() ==> (#[trigger] messages[i]).id != gone,
    ensures
        forall|i: int|
            0 <= i < crate::message::without(messages, id).len() ==> (
            #[trigger] crate::message::without(messages, id)[i]).id != gone,
    decreases messages.len(),
{
    if messages.len() > 0 {
        lemma_without_keeps(messages.drop_last(), id, gone);
    }
}

proof fn lemma_not_there(messages: Seq<Message>, id: u128, from: int)
    requires
        0 <= from,
        forall|i: int| 0 <= i < messages.len() ==> (#[trigger] messages[i]).id != id,
    ensures
        message_at(messages, id, from) is None,
    decreases messages.len() - from,
{
    if from < messages.len() {
        lemma_not_there(messages, id, from + 1);
    }
}

// ----- a call that asks for an approval -----

/// The calls without those with the identifier, in their order.
pub open spec fn without_call(calls: Seq<ToolCall>, id: Seq<char>) -> Seq<ToolCall>
    decreases calls.len(),
{
    if calls.len() == 0 {
        Seq::empty()
    } else if calls.last().id@ == id {
        without_call(calls.drop_last(), id)
    } else {
        without_call(calls.drop_last(), id).push(calls.last())
    }
}

fn remove_call(calls: &mut Vec<ToolCall>, id: &str)
    ensures
        final(calls)@ == without_call(old(calls)@, id@),
{
    let mut kept: Vec<ToolCall> = Vec::new();
    let mut i: usize = 0;
    assert(calls@.take(0) =~= Seq::<ToolCall>::empty());
    while i < calls.len()
        invariant
            i <= calls@.len(),
            calls@ == old(calls)@,
            kept@ == without_call(calls@.take(i as int), id@),
        decreases calls@.len() - i,
    {
        assert(calls@.take(i + 1).drop_last() =~= calls@.take(i as int));
        if !crate::text::same_text(calls[i].id.as_str(), id) {
            kept.push(calls[i].clone());
        }
        i += 1;
    }
    assert(calls@.take(i as int) =~= calls@);
    *calls = kept;
}

/// How far the call is, where that is known.
pub open spec fn status_of(queue: Map<Seq<char>, ToolCallStatus>, id: Seq<char>) -> Option<
    ToolCallStatus,
> {
    if queue.contains_key(id) {
        Some(queue[id])
    } else {
        None
    }
}

fn find_status(queue: &TextMap<ToolCallStatus>, id: &str) -> (r: Option<ToolCallStatus>)
    ensures
        r == status_of(queue@, id@),
{
    match queue.get(id) {
        Some(s) => Some(*s),
        None => None,
    }
}

/// What happens to a call that was executed before: the conversation says so.
pub open spec fn call_repeated(pre: AppState, post: AppState, call: ToolCall) -> bool {
    let m = pre.messages_scrolling_state;
    let n = post.messages_scrolling_state;
    &&& post == (AppState {
        messages_scrolling_state: MessagesScrollingState { messages: n.messages, ..m },
        dialog_approval_state: DialogApprovalState {
            is_dialog_open: false,
            dialog_command: None,
            ..pre.dialog_approval_state
        },
        ..pre
    })
    &&& pushed(
        m.messages@,
        n.messages@,
        |c: MessageContent|
            shows_rejected(
                c,
                call,
                Some("Tool call already executed"@),
                None,
                RunCommandState::Error,
            ),
    )
}

fn refuse_repeated(state: &mut AppState, call: &ToolCall)
    ensures
        call_repeated(*old(state), *final(state), *call),
{
    let reason: Option<String> = Some("Tool call already executed".to_owned());
    let content: MessageContent = rejected_content(call, &reason, None, RunCommandState::Error);
    state.messages_scrolling_state.messages.push(Message::new(content));
    assert(state.messages_scrolling_state.messages@.drop_last()
        =~= old(state).messages_scrolling_state.messages@);
    state.dialog_approval_state.is_dialog_open = false;
    state.dialog_approval_state.dialog_command = None;
}

/// Whether the identifier is one for the block of the call: that of the call itself where it runs a
/// command and its identifier can be read, else a new one.
pub open spec fn block_id(id: u128, call: ToolCall) -> bool {
    if runs_command(call.function.bare_name@) && id_in(call.id@) is Some {
        id_in(call.id@) == Some(id)
    } else {
        id != 0
    }
}

fn choose_block_id(call: &ToolCall) -> (id: u128)
    ensures
        block_id(id, *call),
{
    if is_foreground_command_tool(call.function.bare_name.as_str()) {
        match parse_id(call.id.as_str()) {
            Some(id) => id,
            None => fresh_id(),
        }
    } else {
        fresh_id()
    }
}

/// The tools' state after a call asks for an approval.
pub open spec fn call_waits(t: ToolCallState, call: ToolCall, id: u128) -> ToolCallState {
    ToolCallState {
        latest_tool_call: if runs_command(call.function.bare_name@) {
            Some(call)
        } else {
            t.latest_tool_call
        },
        pending_bash_message_id: Some(id),
        is_streaming: false,
        ..t
    }
}

/// The dialog after a call asks for an approval: it opens unless the bar takes its place.
pub open spec fn dialog_asks(d: DialogApprovalState, call: ToolCall) -> DialogApprovalState {
    DialogApprovalState {
        dialog_command: Some(call),
        is_dialog_open: d.is_dialog_open || !d.toggle_approved_message,
        dialog_focused: false,
        ..d
    }
}

/// The state after a call asks for an approval: its block is shown.
pub open spec fn call_asks(pre: AppState, post: AppState, call: ToolCall, approved: bool) -> bool {
    let m = pre.messages_scrolling_state;
    let n = post.messages_scrolling_state;
    let last = n.messages@.last();
    &&& post == (AppState {
        messages_scrolling_state: MessagesScrollingState {
            messages: n.messages,
            lines_stale: true,
            ..m
        },
        tool_call_state: call_waits(pre.tool_call_state, call, last.id),
        dialog_approval_state: dialog_asks(pre.dialog_approval_state, call),
        loading_state: LoadingState { is_loading: false, ..pre.loading_state },
        ..pre
    })
    &&& n.messages@.len() == m.messages@.len() + 1
    &&& n.messages@.drop_last() == m.messages@
    &&& block_id(last.id, call)
    &&& last.is_collapsed is None
    &&& shows_pending(
        last.content,
        call,
        approved,
        RunCommandState::Pending,
        pre.tool_call_state.subagent_pause_info@,
    )
}

fn show_waiting(m: &mut MessagesScrollingState, id: u128, content: MessageContent)
    ensures
        *final(m) == (MessagesScrollingState {
            messages: final(m).messages,
            lines_stale: true,
            ..*old(m)
        }),
        final(m).messages@ == old(m).messages@.push(Message { id, content, is_collapsed: None }),
{
    m.messages.push(Message::with_id(id, content));
    m.lines_stale = true;
}

fn wait_for_call(t: &mut ToolCallState, call: &ToolCall, id: u128)
    ensures
        *final(t) == call_waits(*old(t), *call, id),
{
    if is_foreground_command_tool(call.function.bare_name.as_str()) {
        t.latest_tool_call = Some(call.clone());
    }
    t.pending_bash_message_id = Some(id);
    t.is_streaming = false;
}

fn open_dialog(d: &mut DialogApprovalState, call: &ToolCall)
    ensures
        *final(d) == dialog_asks(*old(d), *call),
{
    d.dialog_command = Some(call.clone());
    if !d.toggle_approved_message {
        d.is_dialog_open = true;
    }
    d.dialog_focused = false;
}

fn ask_for_call(state: &mut AppState, call: &ToolCall, approved: bool)
    ensures
        call_asks(*old(state), *final(state), *call, approved),
{
    let id: u128 = choose_block_id(call);
    let content: MessageContent = pending_content(
        call,
        approved,
        RunCommandState::Pending,
        &state.tool_call_state.subagent_pause_info,
    );
    show_waiting(&mut state.messages_scrolling_state, id, content);
    wait_for_call(&mut state.tool_call_state, call, id);
    open_dialog(&mut state.dialog_approval_state, call);
    state.loading_state.is_loading = false;
    assert(state.messages_scrolling_state.messages@.drop_last()
        =~= old(state).messages_scrolling_state.messages@);
}

/// The statuses after the call was dealt with.
pub open spec fn dealt_with(
    pre: SessionToolCallsState,
    post: SessionToolCallsState,
    id: Seq<char>,
) -> bool {
    &&& post == (SessionToolCallsState {
        session_tool_calls_queue: post.session_tool_calls_queue,
        ..pre
    })
    &&& post.session_tool_calls_queue@ == pre.session_tool_calls_queue@.insert(
        id,
        ToolCallStatus::Executed,
    )
}

fn deal_with(s: &mut SessionToolCallsState, id: &String)
    ensures
        dealt_with(*old(s), *final(s), id@),
{
    s.session_tool_calls_queue.insert(id.clone(), ToolCallStatus::Executed);
}

/// Why a call is not run.
pub open spec fn refusal(skipped: bool) -> Seq<char> {
    if skipped {
        "Tool call skipped due to sequential execution failure"@
    } else {
        "Tool call rejected"@
    }
}

/// The colour of the reason why a call is not run.
pub open spec fn refusal_color(skipped: bool) -> Option<Color> {
    if skipped {
        Some(Color::Theme(Tone::Yellow))
    } else {
        None
    }
}

/// What happens to a call that the user rejected before, or that is skipped.
pub open spec fn call_refused(
    pre: AppState,
    post: AppState,
    call: ToolCall,
    skipped: bool,
    sent: Outbox,
    out: Outbox,
) -> bool {
    let d = pre.dialog_approval_state;
    let e = post.dialog_approval_state;
    &&& post == (AppState {
        dialog_approval_state: DialogApprovalState {
            message_rejected_tools: e.message_rejected_tools,
            is_dialog_open: true,
            ..d
        },
        session_tool_calls_state: post.session_tool_calls_state,
        ..pre
    })
    &&& e.message_rejected_tools@ == (if skipped {
        d.message_rejected_tools@
    } else {
        without_call(d.message_rejected_tools@, call.id@)
    })
    &&& dealt_with(pre.session_tool_calls_state, post.session_tool_calls_state, call.id@)
    &&& sent.inputs(
        out,
        |x: InputEvent|
            {
                &&& x matches InputEvent::HandleReject(t, stop, color)
                &&& text_of(t) == Some(refusal(skipped))
                &&& stop == !skipped
                &&& color == refusal_color(skipped)
            },
    )
}

fn refuse_call(state: &mut AppState, call: &ToolCall, skipped: bool, out: &mut Outbox)
    ensures
        call_refused(*old(state), *final(state), *call, skipped, *old(out), *final(out)),
{
    if !skipped {
        remove_call(&mut state.dialog_approval_state.message_rejected_tools, call.id.as_str());
    }
    state.dialog_approval_state.is_dialog_open = true;
    let (reason, color): (String, Option<Color>) = if skipped {
        (
            "Tool call skipped due to sequential execution failure".to_owned(),
            Some(Color::Theme(Tone::Yellow)),
        )
    } else {
        ("Tool call rejected".to_owned(), None)
    };
    let _sent: bool = out.send_input(InputEvent::HandleReject(Some(reason), !skipped, color));
    deal_with(&mut state.session_tool_calls_state, &call.id);
}

/// The dialog after a call was accepted.
pub open spec fn dialog_accepted(d: DialogApprovalState, e: DialogApprovalState, id: Seq<char>)
    -> bool {
    &&& e == (DialogApprovalState {
        message_approved_tools: e.message_approved_tools,
        dialog_selected: 0,
        ..dialog_closed(d)
    })
    &&& e.message_approved_tools@ == without_call(d.message_approved_tools@, id)
}

fn accept_dialog(d: &mut DialogApprovalState, id: &str)
    ensures
        dialog_accepted(*old(d), *final(d), id@),
{
    remove_call(&mut d.message_approved_tools, id);
    close_dialog(d);
    d.dialog_selected = 0;
}

/// What happens to a call that is approved already: it is run.
pub open spec fn call_accepted(
    pre: AppState,
    post: AppState,
    call: ToolCall,
    sent: Outbox,
    out: Outbox,
) -> bool {
    exists|mid: AppState| #[trigger]
        call_runs(pre, mid, call) && post == (AppState {
            dialog_approval_state: post.dialog_approval_state,
            session_tool_calls_state: post.session_tool_calls_state,
            ..mid
        }) && dialog_accepted(
            mid.dialog_approval_state,
            post.dialog_approval_state,
            call.id@,
        ) && dealt_with(mid.session_tool_calls_state, post.session_tool_calls_state, call.id@)
            && sent.outputs(out, |e: OutputEvent| e == OutputEvent::AcceptTool(call))
}

fn accept_call(state: &mut AppState, call: &ToolCall, out: &mut Outbox)
    ensures
        call_accepted(*old(state), *final(state), *call, *old(out), *final(out)),
{
    update_run_command_to_running(state, call);
    let ghost mid = *state;
    let _sent: bool = out.send_output(OutputEvent::AcceptTool(call.clone()));
    deal_with(&mut state.session_tool_calls_state, &call.id);
    accept_dialog(&mut state.dialog_approval_state, call.id.as_str());
    assert(call_runs(*old(state), mid, *call));
}

/// The calls that go to the bar: those of the message, else the one that asks.
pub open spec fn calls_to_add(d: DialogApprovalState, call: ToolCall) -> Seq<ToolCall> {
    match d.message_tool_calls {
        Some(calls) => calls@,
        None => seq![call],
    }
}

/// The state after calls were put in the bar.
pub open spec fn bar_filled(pre: AppState, post: AppState, calls: Seq<ToolCall>) -> bool {
    let b = pre.dialog_approval_state.approval_bar;
    let c = post.dialog_approval_state.approval_bar;
    &&& post == crate::tool::with_bar(pre, c)
    &&& c.actions@ == with_calls(b.actions@, calls)
    &&& c.selected == b.selected
    &&& c.esc_pending == b.esc_pending
}

/// The state after the blocks of the calls before gave way to that of the selected call.
pub open spec fn block_replaced(pre: AppState, post: AppState, before: Option<u128>) -> bool {
    exists|bare: AppState, shown: AppState|
        bare == (AppState {
            messages_scrolling_state: MessagesScrollingState {
                messages: bare.messages_scrolling_state.messages,
                ..pre.messages_scrolling_state
            },
            tool_call_state: ToolCallState {
                pending_bash_message_id: None,
                ..pre.tool_call_state
            },
            ..pre
        }) && bare.messages_scrolling_state.messages@ == without_opt(
            without_opt(
                pre.messages_scrolling_state.messages@,
                pre.tool_call_state.pending_bash_message_id,
            ),
            before,
        ) && #[trigger] block_created(bare, shown) && post == shown.with_messages(
            laid_out_anew(shown.messages_scrolling_state),
        )
}

fn replace_block(state: &mut AppState, before: Option<u128>)
    ensures
        block_replaced(*old(state), *final(state), before),
{
    let pending: Option<u128> = state.tool_call_state.pending_bash_message_id;
    remove_opt(&mut state.messages_scrolling_state.messages, pending);
    remove_opt(&mut state.messages_scrolling_state.messages, before);
    state.tool_call_state.pending_bash_message_id = None;
    let ghost bare = *state;
    create_pending_block_for_selected_tool(state);
    let ghost shown = *state;
    force_layout(&mut state.messages_scrolling_state);
    assert(block_created(bare, shown));
}

/// What happens to a call that waits for the user. Where the bar takes the place of the dialog, the
/// calls go to it: the first one comes into view; with calls in the bar already, the selected one
/// is shown. `before` is the block that waited before.
pub open spec fn call_offered(
    pre: AppState,
    post: AppState,
    call: ToolCall,
    before: Option<u128>,
) -> bool {
    let d = pre.dialog_approval_state;
    let calls = calls_to_add(d, call);
    if calls.len() > 0 && d.toggle_approved_message {
        exists|mid: AppState| #[trigger]
            bar_filled(pre, mid, calls) && if d.approval_bar.shown() {
                block_replaced(mid, post, before)
            } else {
                post == mid.with_messages(
                    (MessagesScrollingState {
                        scroll_to_last_message_start: true,
                        stay_at_bottom: false,
                        ..mid.messages_scrolling_state
                    }),
                )
            }
    } else {
        post == pre
    }
}

fn offer_call(state: &mut AppState, call: &ToolCall, before: Option<u128>)
    ensures
        call_offered(*old(state), *final(state), *call, before),
{
    let calls: Vec<ToolCall> = match &state.dialog_approval_state.message_tool_calls {
        Some(v) => copy_calls(v),
        None => {
            let mut v: Vec<ToolCall> = Vec::new();
            v.push(call.clone());
            assert(v@ =~= seq![*call]);
            v
        },
    };
    if calls.len() > 0 && state.dialog_approval_state.toggle_approved_message {
        let shown: bool = state.dialog_approval_state.approval_bar.is_visible();
        state.dialog_approval_state.approval_bar.add_actions(&calls);
        let ghost mid = *state;
        assert(bar_filled(*old(state), mid, calls@));
        if shown {
            replace_block(state, before);
        } else {
            crate::tool::go_to_message_start(&mut state.messages_scrolling_state);
        }
    }
}

/// What happens to a call after it asks: a rejected or skipped one is refused, an approved one is
/// run, and any other waits for the user.
pub open spec fn call_decided(
    pre: AppState,
    post: AppState,
    call: ToolCall,
    approved: bool,
    before: Option<u128>,
    sent: Outbox,
    out: Outbox,
) -> bool {
    let d = pre.dialog_approval_state;
    let skipped = status_of(pre.session_tool_calls_state.session_tool_calls_queue@, call.id@)
        == Some(ToolCallStatus::Skipped);
    if skipped || call_at(d.message_rejected_tools@, call.id@, 0) is Some {
        call_refused(pre, post, call, skipped, sent, out)
    } else if approved || call_at(d.message_approved_tools@, call.id@, 0) is Some {
        call_accepted(pre, post, call, sent, out)
    } else {
        call_offered(pre, post, call, before) && out == sent
    }
}

fn decide_call(
    state: &mut AppState,
    call: &ToolCall,
    approved: bool,
    before: Option<u128>,
    out: &mut Outbox,
)
    ensures
        call_decided(
            *old(state),
            *final(state),
            *call,
            approved,
            before,
            *old(out),
            *final(out),
        ),
{
    let skipped: bool = match find_status(
        &state.session_tool_calls_state.session_tool_calls_queue,
        call.id.as_str(),
    ) {
        Some(s) => s == ToolCallStatus::Skipped,
        None => false,
    };
    let rejected: bool = find_call(
        &state.dialog_approval_state.message_rejected_tools,
        call.id.as_str(),
    ).is_some();
    let accepted: bool = approved || find_call(
        &state.dialog_approval_state.message_approved_tools,
        call.id.as_str(),
    ).is_some();
    if skipped || rejected {
        refuse_call(state, call, skipped, out);
    } else if accepted {
        accept_call(state, call, out);
    } else {
        offer_call(state, call, before);
    }
}

/// What a call that asks for an approval does. While the user is in the shell with a command of
/// the model, it is ignored; one that was executed before is refused.
pub open spec fn confirmation_shown(
    pre: AppState,
    post: AppState,
    call: ToolCall,
    approved: bool,
    sent: Outbox,
    out: Outbox,
) -> bool {
    if pre.tool_call_state.latest_tool_call is Some && pre.shell_popup_state.is_expanded {
        post == pre && out == sent
    } else if status_of(pre.session_tool_calls_state.session_tool_calls_queue@, call.id@) == Some(
        ToolCallStatus::Executed,
    ) {
        call_repeated(pre, post, call) && out == sent
    } else {
        exists|mid: AppState| #[trigger]
            call_asks(pre, mid, call, approved) && call_decided(
                mid,
                post,
                call,
                approved,
                pre.tool_call_state.pending_bash_message_id,
                sent,
                out,
            )
    }
}

/// A call asks for an approval; whether it is approved by itself is known.
pub fn handle_show_confirmation_dialog(
    state: &mut AppState,
    tool_call: ToolCall,
    is_auto_approved: bool,
    out: &mut Outbox,
)
    ensures
        confirmation_shown(
            *old(state),
            *final(state),
            tool_call,
            is_auto_approved,
            *old(out),
            *final(out),
        ),
{
    if state.tool_call_state.latest_tool_call.is_some() && state.shell_popup_state.is_expanded {
        return;
    }
    let done: bool = match find_status(
        &state.session_tool_calls_state.session_tool_calls_queue,
        tool_call.id.as_str(),
    ) {
        Some(s) => s == ToolCallStatus::Executed,
        None => false,
    };
    if done {
        refuse_repeated(state, &tool_call);
        return;
    }
    let before: Option<u128> = state.tool_call_state.pending_bash_message_id;
    ask_for_call(state, &tool_call, is_auto_approved);
    let ghost mid = *state;
    assert(call_asks(*old(state), mid, tool_call, is_auto_approved));
    decide_call(state, &tool_call, is_auto_approved, before, out);
}

/// A call is run at most once: one that was executed is not accepted again.
pub proof fn law_executed_once(
    pre: AppState,
    post: AppState,
    call: ToolCall,
    approved: bool,
    sent: Outbox,
    out: Outbox,
)
    requires
        confirmation_shown(pre, post, call, approved, sent, out),
        status_of(pre.session_tool_calls_state.session_tool_calls_queue@, call.id@) == Some(
            ToolCallStatus::Executed,
        ),
    ensures
        out == sent,
{
}

/// A call that was accepted or refused counts as executed from then on.
pub proof fn law_decided_is_executed(
    pre: AppState,
    post: AppState,
    call: ToolCall,
    approved: bool,
    before: Option<u128>,
    sent: Outbox,
    out: Outbox,
)
    requires
        call_decided(pre, post, call, approved, before, sent, out),
        approved || status_of(pre.session_tool_calls_state.session_tool_calls_queue@, call.id@)
            == Some(ToolCallStatus::Skipped),
    ensures
        status_of(post.session_tool_calls_state.session_tool_calls_queue@, call.id@) == Some(
            ToolCallStatus::Executed,
        ),
{
}

/// A call is found by its identifier wherever it stands.
proof fn lemma_call_found(calls: Seq<ToolCall>, id: Seq<char>, from: int)
    requires
        0 <= from,
    ensures
        call_at(calls, id, from) is Some <==> exists|i: int|
            from <= i < calls.len() && (#[trigger] calls[i]).id@ == id,
    decreases calls.len() - from,
{
    if from < calls.len() {
        lemma_call_found(calls, id, from + 1);
        if calls[from].id@ == id {
            assert(from <= from < calls.len());
        }
    }
}

/// Taking a call out of a list leaves none with its identifier, and every other one.
pub proof fn law_without_call(calls: Seq<ToolCall>, id: Seq<char>)
    ensures
        forall|i: int|
            0 <= i < without_call(calls, id).len() ==> (#[trigger] without_call(
                calls,
                id,
            )[i]).id@ != id && calls.contains(without_call(calls, id)[i]),
        forall|i: int|
            0 <= i < calls.len() && (#[trigger] calls[i]).id@ != id ==> without_call(
                calls,
                id,
            ).contains(calls[i]),
    decreases calls.len(),
{
    if calls.len() > 0 {
        let rest = calls.drop_last();
        let w = without_call(rest, id);
        law_without_call(rest, id);
        assert forall|i: int| 0 <= i < without_call(calls, id).len() implies (
        #[trigger] without_call(calls, id)[i]).id@ != id && calls.contains(
            without_call(calls, id)[i],
        ) by {
            if i < w.len() {
                let k = choose|k: int| 0 <= k < rest.len() && rest[k] == w[i];
                assert(calls[k] == w[i]);
            } else {
                assert(calls[calls.len() - 1] == calls.last());
            }
        }
        assert forall|i: int| 0 <= i < calls.len() && (
        #[trigger] calls[i]).id@ != id implies without_call(calls, id).contains(calls[i]) by {
            if i < rest.len() {
                assert(rest[i] == calls[i]);
                let k = choose|k: int| 0 <= k < w.len() && w[k] == rest[i];
                assert(without_call(calls, id)[k] == calls[i]);
            } else {
                assert(without_call(calls, id)[w.len() as int] == calls[i]);
            }
        }
    }
}

/// A call that the user rejected is never run, whatever else holds of it. Unless it is ignored or
/// was dealt with before, its rejection goes out, the dialog stays open, and the call leaves the
/// rejected ones, which lose no other.
pub proof fn law_rejected_is_refused(
    pre: AppState,
    post: AppState,
    call: ToolCall,
    approved: bool,
    sent: Outbox,
    out: Outbox,
    i: int,
)
    requires
        confirmation_shown(pre, post, call, approved, sent, out),
        0 <= i < pre.dialog_approval_state.message_rejected_tools@.len(),
        pre.dialog_approval_state.message_rejected_tools@[i].id@ == call.id@,
    ensures
        out.output@ == sent.output@,
        ({
            let queue = pre.session_tool_calls_state.session_tool_calls_queue@;
            let d = pre.dialog_approval_state;
            let e = post.dialog_approval_state;
            ||| pre.tool_call_state.latest_tool_call is Some && pre.shell_popup_state.is_expanded
            ||| queue.contains_key(call.id@) && (queue[call.id@] == ToolCallStatus::Executed
                || queue[call.id@] == ToolCallStatus::Skipped)
            ||| {
                &&& e.is_dialog_open
                &&& e.dialog_command == Some(call)
                &&& forall|k: int|
                    0 <= k < e.message_rejected_tools@.len() ==> (
                    #[trigger] e.message_rejected_tools@[k]).id@ != call.id@
                &&& forall|k: int|
                    0 <= k < d.message_rejected_tools@.len() && (
                    #[trigger] d.message_rejected_tools@[k]).id@ != call.id@
                        ==> e.message_rejected_tools@.contains(d.message_rejected_tools@[k])
                &&& sent.input@.len() < sent.input_room ==> {
                    &&& out.input@.len() == sent.input@.len() + 1
                    &&& out.input@.drop_last() == sent.input@
                    &&& out.input@.last() matches InputEvent::HandleReject(t, stop, color)
                    &&& t is Some
                    &&& t->0@ == "Tool call rejected"@
                    &&& stop
                    &&& color is None
                }
            }
        }),
{
    lemma_call_found(pre.dialog_approval_state.message_rejected_tools@, call.id@, 0);
    law_without_call(pre.dialog_approval_state.message_rejected_tools@, call.id@);
}

/// A call that is skipped, because one before it failed, is never run either: the reason goes out,
/// and the others go on.
pub proof fn law_skipped_is_refused(
    pre: AppState,
    post: AppState,
    call: ToolCall,
    approved: bool,
    sent: Outbox,
    out: Outbox,
)
    requires
        confirmation_shown(pre, post, call, approved, sent, out),
        pre.session_tool_calls_state.session_tool_calls_queue@.contains_key(call.id@),
        pre.session_tool_calls_state.session_tool_calls_queue@[call.id@]
            == ToolCallStatus::Skipped,
    ensures
        out.output@ == sent.output@,
        pre.tool_call_state.latest_tool_call is None || !pre.shell_popup_state.is_expanded ==> {
            &&& post.session_tool_calls_state.session_tool_calls_queue@.contains_key(call.id@)
            &&& post.session_tool_calls_state.session_tool_calls_queue@[call.id@]
                == ToolCallStatus::Executed
            &&& sent.input@.len() < sent.input_room ==> {
                &&& out.input@.len() == sent.input@.len() + 1
                &&& out.input@.drop_last() == sent.input@
                &&& out.input@.last() matches InputEvent::HandleReject(t, stop, color)
                &&& t is Some
                &&& t->0@ == "Tool call skipped due to sequential execution failure"@
                &&& !stop
                &&& color == Some(Color::Theme(Tone::Yellow))
            }
        },
{
}

/// A call that is approved, by itself or by the user, and neither rejected nor dealt with, is run:
/// it goes out as it came, the dialog closes, and the call counts as executed.
pub proof fn law_approved_is_run(
    pre: AppState,
    post: AppState,
    call: ToolCall,
    approved: bool,
    sent: Outbox,
    out: Outbox,
)
    requires
        confirmation_shown(pre, post, call, approved, sent, out),
        pre.tool_call_state.latest_tool_call is None || !pre.shell_popup_state.is_expanded,
        pre.session_tool_calls_state.session_tool_calls_queue@.contains_key(call.id@)
            ==> pre.session_tool_calls_state.session_tool_calls_queue@[call.id@]
            != ToolCallStatus::Executed
            && pre.session_tool_calls_state.session_tool_calls_queue@[call.id@]
            != ToolCallStatus::Skipped,
        forall|k: int|
            0 <= k < pre.dialog_approval_state.message_rejected_tools@.len() ==> (
            #[trigger] pre.dialog_approval_state.message_rejected_tools@[k]).id@ != call.id@,
        approved || exists|k: int|
            0 <= k < pre.dialog_approval_state.message_approved_tools@.len() && (
            #[trigger] pre.dialog_approval_state.message_approved_tools@[k]).id@ == call.id@,
    ensures
        sent.output@.len() < sent.output_room ==> out.output@ == sent.output@.push(
            OutputEvent::AcceptTool(call),
        ),
        out.input@ == sent.input@,
        !post.dialog_approval_state.is_dialog_open,
        post.dialog_approval_state.dialog_command is None,
        post.session_tool_calls_state.session_tool_calls_queue@.contains_key(call.id@),
        post.session_tool_calls_state.session_tool_calls_queue@[call.id@]
            == ToolCallStatus::Executed,
        forall|k: int|
            0 <= k < post.dialog_approval_state.message_approved_tools@.len() ==> (
            #[trigger] post.dialog_approval_state.message_approved_tools@[k]).id@ != call.id@,
{
    lemma_call_found(pre.dialog_approval_state.message_rejected_tools@, call.id@, 0);
    lemma_call_found(pre.dialog_approval_state.message_approved_tools@, call.id@, 0);
    law_without_call(pre.dialog_approval_state.message_approved_tools@, call.id@);
    assert(out.output@.len() > 0 ==> out.output@ =~= out.output@.drop_last().push(
        out.output@.last(),
    ));
}

/// Only an approved call is run: where anything goes to the backend, it is the call itself, which
/// was approved, not rejected, and not dealt with before.
pub proof fn law_only_approved_runs(
    pre: AppState,
    post: AppState,
    call: ToolCall,
    approved: bool,
    sent: Outbox,
    out: Outbox,
)
    requires
        confirmation_shown(pre, post, call, approved, sent, out),
        out.output@ != sent.output@,
    ensures
        out.output@ == sent.output@.push(OutputEvent::AcceptTool(call)),
        approved || exists|k: int|
            0 <= k < pre.dialog_approval_state.message_approved_tools@.len() && (
            #[trigger] pre.dialog_approval_state.message_approved_tools@[k]).id@ == call.id@,
        forall|k: int|
            0 <= k < pre.dialog_approval_state.message_rejected_tools@.len() ==> (
            #[trigger] pre.dialog_approval_state.message_rejected_tools@[k]).id@ != call.id@,
        pre.session_tool_calls_state.session_tool_calls_queue@.contains_key(call.id@)
            ==> pre.session_tool_calls_state.session_tool_calls_queue@[call.id@]
            != ToolCallStatus::Executed
            && pre.session_tool_calls_state.session_tool_calls_queue@[call.id@]
            != ToolCallStatus::Skipped,
{
    lemma_call_found(pre.dialog_approval_state.message_rejected_tools@, call.id@, 0);
    lemma_call_found(pre.dialog_approval_state.message_approved_tools@, call.id@, 0);
    assert(out.output@ =~= out.output@.drop_last().push(out.output@.last()));
}

/// A call that nobody decided on waits: nothing is sent and its status stays. Without the bar the
/// dialog opens on it; with the bar it is in the bar, unless other calls of its message are.
pub proof fn law_undecided_waits(
    pre: AppState,
    post: AppState,
    call: ToolCall,
    sent: Outbox,
    out: Outbox,
)
    requires
        confirmation_shown(pre, post, call, false, sent, out),
        pre.tool_call_state.latest_tool_call is None || !pre.shell_popup_state.is_expanded,
        !pre.session_tool_calls_state.session_tool_calls_queue@.contains_key(call.id@),
        forall|k: int|
            0 <= k < pre.dialog_approval_state.message_rejected_tools@.len() ==> (
            #[trigger] pre.dialog_approval_state.message_rejected_tools@[k]).id@ != call.id@,
        forall|k: int|
            0 <= k < pre.dialog_approval_state.message_approved_tools@.len() ==> (
            #[trigger] pre.dialog_approval_state.message_approved_tools@[k]).id@ != call.id@,
    ensures
        out == sent,
        post.session_tool_calls_state == pre.session_tool_calls_state,
        post.dialog_approval_state.message_approved_tools
            == pre.dialog_approval_state.message_approved_tools,
        post.dialog_approval_state.message_rejected_tools
            == pre.dialog_approval_state.message_rejected_tools,
        !pre.dialog_approval_state.toggle_approved_message
            ==> post.dialog_approval_state.is_dialog_open
            && post.dialog_approval_state.dialog_command == Some(call),
        pre.dialog_approval_state.toggle_approved_message
            && pre.dialog_approval_state.message_tool_calls is None ==> exists|k: int|
            0 <= k < post.dialog_approval_state.approval_bar.actions@.len() && (
            #[trigger] post.dialog_approval_state.approval_bar.actions@[k]).tool_call.id@
                == call.id@,
        pre.dialog_approval_state.toggle_approved_message
            && pre.dialog_approval_state.message_tool_calls is Some ==> forall|j: int|
            0 <= j < pre.dialog_approval_state.message_tool_calls->0@.len() ==> exists|k: int|
                0 <= k < post.dialog_approval_state.approval_bar.actions@.len() && (
                #[trigger] post.dialog_approval_state.approval_bar.actions@[k]).tool_call.id@ == (
                #[trigger] pre.dialog_approval_state.message_tool_calls->0@[j]).id@,
{
    let d = pre.dialog_approval_state;
    lemma_call_found(d.message_rejected_tools@, call.id@, 0);
    lemma_call_found(d.message_approved_tools@, call.id@, 0);
    let calls = calls_to_add(d, call);
    law_with_calls(d.approval_bar.actions@, calls);
    let a = choose|a: AppState| #[trigger]
        call_asks(pre, a, call, false) && call_decided(
            a,
            post,
            call,
            false,
            pre.tool_call_state.pending_bash_message_id,
            sent,
            out,
        );
    assert(calls_to_add(a.dialog_approval_state, call) == calls);
    if d.toggle_approved_message && calls.len() > 0 {
        let bar = post.dialog_approval_state.approval_bar;
        assert(bar.actions@ == with_calls(d.approval_bar.actions@, calls));
        if d.message_tool_calls is None {
            assert(calls[0] == call);
        }
    }
}

/// What a change of the dialog's focus does.
pub open spec fn focus_toggled(pre: AppState, post: AppState) -> bool {
    let d = pre.dialog_approval_state;
    if d.is_dialog_open {
        row_pushed(
            AppState {
                dialog_approval_state: DialogApprovalState {
                    dialog_focused: !d.dialog_focused,
                    ..d
                },
                ..pre
            },
            post,
            seq![
                tinted(""@, Color::Theme(Tone::Cyan)),
                tinted(
                    if d.dialog_focused {
                        "🎯 Chat view focused"@
                    } else {
                        "🎯 Dialog focused"@
                    },
                    Color::Theme(Tone::DarkGray),
                ),
            ],
        )
    } else {
        post == pre
    }
}

/// Moves the focus to the dialog or away from it.
pub fn handle_toggle_dialog_focus(state: &mut AppState)
    ensures
        focus_toggled(*old(state), *final(state)),
{
    if state.dialog_approval_state.is_dialog_open {
        let focused: bool = !state.dialog_approval_state.dialog_focused;
        state.dialog_approval_state.dialog_focused = focused;
        let text: &str = if focused {
            "🎯 Dialog focused"
        } else {
            "🎯 Chat view focused"
        };
        push_styled_message(
            state,
            text,
            Color::Theme(Tone::DarkGray),
            "",
            Color::Theme(Tone::Cyan),
        );
    }
}

// ----- what holds of escape -----

/// Escape stops the stream whatever else it leaves: the first thing asked for is to cancel it.
pub proof fn law_escape_cancels(
    pre: AppState,
    post: AppState,
    message: Option<Seq<char>>,
    stop: bool,
    color: Option<Color>,
    sent: Outbox,
    out: Outbox,
)
    requires
        escaped(pre, post, message, stop, color, sent, out),
    ensures
        !post.tool_call_state.is_streaming,
        out.effects@.len() > sent.effects@.len(),
        out.effects@[sent.effects@.len() as int] is CancelStream,
        forall|i: int| 0 <= i < sent.effects@.len() ==> #[trigger] out.effects@[i]
            == sent.effects@[i],
{
    let (a, b, mid) = choose|a: Outbox, b: Outbox, mid: AppState| #[trigger]
        clear_asked(sent, a) && #[trigger] cancel_asked(a, b) && place_left(
            stream_stopped(pre),
            mid,
            pre.tool_call_state.is_streaming,
            message,
            stop,
            color,
            b,
            out,
        ) && #[trigger] after_escape(mid, post, cancels(pre));
    let e = b.effects@;
    assert(e.drop_last() == sent.effects@);
    assert(forall|i: int| 0 <= i < sent.effects@.len() ==> #[trigger] e[i] == e.drop_last()[i]);
    assert(out.effects@ == e || (out.effects@.len() > e.len() && out.effects@.drop_last() == e));
    if out.effects@ != e {
        assert(forall|i: int|
            0 <= i < e.len() ==> #[trigger] out.effects@[i] == out.effects@.drop_last()[i]);
    }
}

/// Escape from the dialog rejects its call, and says whether to stop: the rejection goes to the
/// backend, the dialog closes, and what was typed is gone.
pub proof fn law_escape_rejects(
    pre: AppState,
    post: AppState,
    message: Option<Seq<char>>,
    stop: bool,
    color: Option<Color>,
    sent: Outbox,
    out: Outbox,
)
    requires
        escaped(pre, post, message, stop, color, sent, out),
        !pre.messages_scrolling_state.show_collapsed_messages,
        !pre.input_state.show_helper_dropdown,
        pre.dialog_approval_state.is_dialog_open,
    ensures
        !post.dialog_approval_state.is_dialog_open,
        post.dialog_approval_state.dialog_command is None,
        post.input_state.text_area@.text.len() == 0,
        post.input_state.text_area@.cursor == 0,
        pre.dialog_approval_state.dialog_command matches Some(call) ==> sent.output@.len()
            < sent.output_room ==> out.output@ == sent.output@.push(
            OutputEvent::RejectTool(call, stop),
        ),
        pre.dialog_approval_state.dialog_command is None ==> out.output@ == sent.output@,
{
    if pre.dialog_approval_state.dialog_command is Some && sent.output@.len() < sent.output_room {
        assert(out.output@ =~= out.output@.drop_last().push(out.output@.last()));
    }
}

/// Escape from the shell that a call opened answers the call: the result goes to the backend for
/// that call, and the shell is closed.
pub proof fn law_escape_answers_the_call(
    pre: AppState,
    post: AppState,
    message: Option<Seq<char>>,
    stop: bool,
    color: Option<Color>,
    sent: Outbox,
    out: Outbox,
)
    requires
        escaped(pre, post, message, stop, color, sent, out),
        !pre.messages_scrolling_state.show_collapsed_messages,
        !pre.input_state.show_helper_dropdown,
        !pre.dialog_approval_state.is_dialog_open,
        pre.shell_popup_state.is_expanded,
        pre.dialog_approval_state.dialog_command is Some,
    ensures
        !post.shell_popup_state.is_expanded,
        !post.shell_popup_state.is_visible,
        post.shell_popup_state.active_shell_command is None,
        post.dialog_approval_state.dialog_command is None,
        !post.input_state.text_area@.shell_mode,
        post.input_state.text_area@.text.len() == 0,
        sent.output@.len() < sent.output_room ==> {
            &&& out.output@.len() == sent.output@.len() + 1
            &&& out.output@.drop_last() == sent.output@
            &&& out.output@.last() matches OutputEvent::SendToolResult(r, halt, rest)
            &&& r.call.id@ == pre.dialog_approval_state.dialog_command->0.id@
            &&& r.call.function.name@ == pre.dialog_approval_state.dialog_command->0.function.name@
            &&& r.status == crate::models::ToolCallResultStatus::Success
            &&& !halt
            &&& rest@.len() == 0
        },
{
}

/// Escape where nothing is open empties the input, asks for nothing but the cancelling, and
/// remembers that a stream was cancelled.
pub proof fn law_escape_empties_the_input(
    pre: AppState,
    post: AppState,
    message: Option<Seq<char>>,
    stop: bool,
    color: Option<Color>,
    sent: Outbox,
    out: Outbox,
)
    requires
        escaped(pre, post, message, stop, color, sent, out),
        !pre.messages_scrolling_state.show_collapsed_messages,
        !pre.input_state.show_helper_dropdown,
        !pre.dialog_approval_state.is_dialog_open,
        !pre.shell_popup_state.is_expanded,
    ensures
        out.output@ == sent.output@,
        post.input_state.text_area@.text.len() == 0,
        pre.tool_call_state.is_streaming ==> post.tool_call_state.cancel_requested,
        !pre.tool_call_state.is_streaming ==> post.tool_call_state.cancel_requested
            == pre.tool_call_state.cancel_requested,
        post.dialog_approval_state == pre.dialog_approval_state,
        post.shell_popup_state == pre.shell_popup_state,
{
}

/// The escape key closes one popup at a time, the topmost one, and sends nothing while one is open.
pub proof fn law_escape_closes_the_topmost(
    pre: AppState,
    post: AppState,
    sent: Outbox,
    out: Outbox,
)
    requires
        esc_pressed(pre, post, sent, out),
    ensures
        pre.rulebook_switcher_state.show_rulebook_switcher ==> {
            &&& out == sent
            &&& !post.rulebook_switcher_state.show_rulebook_switcher
            &&& post.shortcuts_panel_state == pre.shortcuts_panel_state
            &&& post.profile_switcher_state == pre.profile_switcher_state
            &&& post.dialog_approval_state == pre.dialog_approval_state
        },
        !pre.rulebook_switcher_state.show_rulebook_switcher
            && pre.shortcuts_panel_state.is_visible ==> {
            &&& out == sent
            &&& !post.shortcuts_panel_state.is_visible
            &&& post.profile_switcher_state == pre.profile_switcher_state
            &&& post.dialog_approval_state == pre.dialog_approval_state
        },
        !pre.rulebook_switcher_state.show_rulebook_switcher
            && !pre.shortcuts_panel_state.is_visible
            && pre.profile_switcher_state.show_profile_switcher ==> {
            &&& out == sent
            &&& !post.profile_switcher_state.show_profile_switcher
            &&& post.dialog_approval_state == pre.dialog_approval_state
        },
        !pre.rulebook_switcher_state.show_rulebook_switcher
            && !pre.shortcuts_panel_state.is_visible
            && !pre.profile_switcher_state.show_profile_switcher
            && pre.messages_scrolling_state.show_collapsed_messages ==> {
            &&& out == sent
            &&& !post.messages_scrolling_state.show_collapsed_messages
            &&& post.dialog_approval_state == pre.dialog_approval_state
        },
{
}

/// Without a popup the escape key gives up all calls that wait, and the dialog's call is rejected
/// for good.
pub proof fn law_escape_gives_calls_up(pre: AppState, post: AppState, sent: Outbox, out: Outbox)
    requires
        esc_pressed(pre, post, sent, out),
        !pre.rulebook_switcher_state.show_rulebook_switcher,
        !pre.shortcuts_panel_state.is_visible,
        !pre.profile_switcher_state.show_profile_switcher,
        !pre.messages_scrolling_state.show_collapsed_messages,
        !pre.input_state.show_helper_dropdown,
        pre.dialog_approval_state.is_dialog_open,
    ensures
        post.dialog_approval_state.message_tool_calls is None,
        !post.dialog_approval_state.is_dialog_open,
        post.session_tool_calls_state.tool_call_execution_order@.len() == 0,
        pre.dialog_approval_state.dialog_command is Some && sent.output@.len()
            < sent.output_room ==> out.output@ == sent.output@.push(
            OutputEvent::RejectTool(pre.dialog_approval_state.dialog_command->0, true),
        ),
        pre.dialog_approval_state.dialog_command is None ==> out.output@ == sent.output@,
{
    let s = deselected(pre);
    let reason = Some("Tool calls rejected"@);
    let mid = choose|mid: AppState| #[trigger]
        calls_given_up(s, mid) && escaped(mid, post, reason, true, None, sent, out);
    law_escape_rejects(mid, post, reason, true, None, sent, out);
    lemma_escape_keeps(mid, post, reason, true, None, sent, out);
}

proof fn lemma_escape_keeps(
    pre: AppState,
    post: AppState,
    message: Option<Seq<char>>,
    stop: bool,
    color: Option<Color>,
    sent: Outbox,
    out: Outbox,
)
    requires
        escaped(pre, post, message, stop, color, sent, out),
        !pre.messages_scrolling_state.show_collapsed_messages,
        !pre.input_state.show_helper_dropdown,
        pre.dialog_approval_state.is_dialog_open,
    ensures
        post.dialog_approval_state.message_tool_calls
            == pre.dialog_approval_state.message_tool_calls,
        post.session_tool_calls_state == pre.session_tool_calls_state,
{
}

/// A call that is rejected is shown as rejected, or as skipped where the reason is yellow, with the
/// reason; its block that waited is gone.
pub proof fn law_rejection_is_shown(
    pre: Seq<Message>,
    post: Seq<Message>,
    call: ToolCall,
    pending: Option<u128>,
    message: Option<Seq<char>>,
    color: Option<Color>,
)
    requires
        rejection_shown(pre, post, call, pending, message, color),
    ensures
        post.len() > 0,
        forall|i: int| 0 <= i < post.len() - 1 ==> Some((#[trigger] post[i]).id) != pending,
        match post.last().content {
            MessageContent::RenderRunCommandBlock(_, reason, state) => {
                &&& text_of(reason) == message
                &&& color == Some(Color::Theme(Tone::Yellow)) ==> state == RunCommandState::Skipped
                &&& color is None ==> state == RunCommandState::Rejected
            },
            MessageContent::RenderRejectedBlock(k, reason, c) => k == call && text_of(reason)
                == message && c == color,
            _ => false,
        },
{
    match pending {
        Some(id) => {
            let m = without_opt(pre, id_in(call.id@));
            crate::message::law_without(m, id);
            assert(forall|i: int|
                0 <= i < post.len() - 1 ==> #[trigger] post[i] == post.drop_last()[i]);
        },
        None => {},
    }
}

/// A call that is asked for again after it was executed is not run again: the conversation says so,
/// and the dialog closes.
pub proof fn law_repeated_is_refused(pre: AppState, post: AppState, call: ToolCall)
    requires
        call_repeated(pre, post, call),
    ensures
        !post.dialog_approval_state.is_dialog_open,
        post.dialog_approval_state.dialog_command is None,
        post.messages_scrolling_state.messages@.drop_last()
            == pre.messages_scrolling_state.messages@,
        match post.messages_scrolling_state.messages@.last().content {
            MessageContent::RenderRunCommandBlock(_, reason, state) => text_of(reason) == Some(
                "Tool call already executed"@,
            ) && state == RunCommandState::Error,
            MessageContent::RenderRejectedBlock(k, reason, _) => k == call && text_of(reason)
                == Some("Tool call already executed"@),
            _ => false,
        },
{
}

/// The block of a command that runs says so, without a result, and no other message changes.
pub proof fn law_running_is_shown(
    pre: MessagesScrollingState,
    post: MessagesScrollingState,
    id: u128,
    i: int,
)
    requires
        block_runs(pre, post, Some(id)),
        0 <= i < pre.messages@.len(),
    ensures
        post.messages@.len() == pre.messages@.len(),
        pre.messages@[i].id != id ==> post.messages@[i] == pre.messages@[i],
        pre.messages@[i].id == id && (forall|j: int|
            0 <= j < i ==> (#[trigger] pre.messages@[j]).id != id)
            && pre.messages@[i].content is RenderRunCommandBlock ==> {
            &&& post.messages@[i].content matches MessageContent::RenderRunCommandBlock(
                command,
                result,
                state,
            )
            &&& command == pre.messages@[i].content->RenderRunCommandBlock_0
            &&& result is None
            &&& state == RunCommandState::Running
        },
{
    crate::message::law_message_at(pre.messages@, id, 0);
    assert(pre.messages@[i].id == pre.messages@[i].id);
}


/// A call that asks is shown behind everything before, in a block of its own, which is the one that
/// waits from then on; the call is the dialog's.
pub proof fn law_asking_call_is_shown(pre: AppState, post: AppState, call: ToolCall, approved: bool)
    requires
        call_asks(pre, post, call, approved),
    ensures
        post.messages_scrolling_state.messages@.len()
            == pre.messages_scrolling_state.messages@.len() + 1,
        post.messages_scrolling_state.messages@.drop_last()
            == pre.messages_scrolling_state.messages@,
        post.tool_call_state.pending_bash_message_id == Some(
            post.messages_scrolling_state.messages@.last().id,
        ),
        post.dialog_approval_state.dialog_command == Some(call),
        call.function.bare_name@ == "run_command"@ || call.function.bare_name@
            == "run_remote_command"@ ==> post.tool_call_state.latest_tool_call == Some(call)
            && post.messages_scrolling_state.messages@.last().content is RenderRunCommandBlock,
        !post.tool_call_state.is_streaming,
        !post.loading_state.is_loading,
        post.dialog_approval_state.message_approved_tools
            == pre.dialog_approval_state.message_approved_tools,
        post.dialog_approval_state.message_rejected_tools
            == pre.dialog_approval_state.message_rejected_tools,
{
}

} // verus!
