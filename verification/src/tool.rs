//! Tool calls: what waits for an approval, what a running tool reports, and what came of it.

use std::collections::HashMap;
use vstd::prelude::*;
use crate::app::AppState;
use crate::approval_bar::ApprovalAction;
use crate::approval_bar::ApprovalBar;
use crate::approval_bar::ApprovalStatus;
use crate::approval_bar::all_with;
use crate::arguments::Field;
use crate::arguments::as_text;
use crate::arguments::field;
use crate::arguments::field_views;
use crate::arguments::json_object;
use crate::arguments::parse_arguments;
use crate::collections::TextMap;
use crate::events::Effect;
use crate::events::InputEvent;
use crate::events::Outbox;
use crate::events::ToolCallProgress;
use crate::message::Message;
use crate::message::MessageContent;
use crate::message::RunCommandState;
use crate::message::TaskPauseInfo;
use crate::message::TaskUpdate;
use crate::message::ToolCallStreamInfo;
use crate::message::find_message;
use crate::message::fresh_id;
use crate::message::law_without_keeps_the_others;
use crate::message::message_at;
use crate::message::pushed;
use crate::message::remove_message;
use crate::message::set_content;
use crate::message::without;
use crate::models::ToolCall;
use crate::models::ToolCallResult;
use crate::models::ToolCallResultStatus;
use crate::models::copy_text;
use crate::models::text_of;
use crate::shell::call_command;
use crate::shell::command_text;
use crate::shell::extract_command_from_tool_call;
use crate::shell::shown_command;
use crate::shell_screen::Terminal;
use crate::shell_screen::is_fresh_screen;
use crate::text::chars_of;
use crate::text::contains;
use crate::text::holds_text;
use crate::text::replace;
use crate::text::replaced;
use crate::text::same_text;
use crate::text::string_of;
use crate::text::texts;
use crate::text::trim;
use crate::text::trim_of;
use crate::types::DialogApprovalState;
use crate::types::LoadingState;
use crate::types::MessagesScrollingState;
use crate::types::SessionToolCallsState;
use crate::types::ShellPopupState;
use crate::types::ShellRuntimeState;
use crate::types::ToolCallState;
use crate::types::ToolCallStatus;
use crate::user_queue::shell_view;

verus! {

// ----- kinds of tools -----

/// Whether the tool runs a command in the foreground.
pub open spec fn runs_command(name: Seq<char>) -> bool {
    name == "run_command"@ || name == "run_remote_command"@
}

/// Whether the tool runs a command in the foreground.
pub fn is_foreground_command_tool(name: &str) -> (r: bool)
    ensures
        r == runs_command(name@),
{
    same_text(name, "run_command") || same_text(name, "run_remote_command")
}

// ----- the block of a call that waits -----

/// What is known of the paused task that the arguments name.
pub open spec fn pause_of(
    fields: Seq<(Seq<char>, crate::arguments::FieldView)>,
    known: Map<Seq<char>, TaskPauseInfo>,
) -> Option<TaskPauseInfo> {
    match as_text(field(fields, "task_id"@)) {
        Some(id) => if known.contains_key(id) {
            Some(known[id])
        } else {
            None
        },
        None => None,
    }
}

/// What is known of the paused task that the call goes on with.
pub open spec fn call_pause(arguments: Seq<char>, known: Map<Seq<char>, TaskPauseInfo>) -> Option<
    TaskPauseInfo,
> {
    match json_object(arguments) {
        Ok(fields) => pause_of(fields, known),
        Err(_) => None,
    }
}

/// What is known of the paused task that the arguments name.
pub fn pause_in_fields(fields: &Vec<Field>, known: &TextMap<TaskPauseInfo>) -> (r: Option<
    TaskPauseInfo,
>)
    ensures
        r == pause_of(field_views(fields@), known@),
{
    match crate::arguments::text_value(crate::arguments::get(fields, "task_id")) {
        Some(id) => match known.get(id.as_str()) {
            Some(info) => Some(info.clone()),
            None => None,
        },
        None => None,
    }
}

fn find_pause(call: &ToolCall, known: &TextMap<TaskPauseInfo>) -> (r: Option<TaskPauseInfo>)
    ensures
        r == call_pause(call.function.arguments@, known@),
{
    match parse_arguments(call.function.arguments.as_str()) {
        Ok(fields) => pause_in_fields(&fields, known),
        Err(_) => None,
    }
}

/// Whether the content shows a call that waits: a command in the given state, a paused task, or
/// any other tool.
pub open spec fn shows_pending(
    c: MessageContent,
    call: ToolCall,
    approved: bool,
    run: RunCommandState,
    known: Map<Seq<char>, TaskPauseInfo>,
) -> bool {
    if runs_command(call.function.bare_name@) {
        shows_command(c, shown_command(call.function.arguments@), None, run)
    } else if call.function.bare_name@ == "resume_subagent_task"@ {
        c == MessageContent::RenderSubagentResumePendingBlock(
            call,
            approved,
            call_pause(call.function.arguments@, known),
        )
    } else {
        c == MessageContent::RenderPendingBorderBlock(call, approved)
    }
}

/// Whether the content shows a command, its result and its state.
pub open spec fn shows_command(
    c: MessageContent,
    command: Seq<char>,
    result: Option<Seq<char>>,
    run: RunCommandState,
) -> bool {
    c matches MessageContent::RenderRunCommandBlock(t, r, s) && t@ == command && text_of(r)
        == result && s == run
}

/// The content that shows a call that waits.
pub fn pending_content(
    call: &ToolCall,
    approved: bool,
    run: RunCommandState,
    known: &TextMap<TaskPauseInfo>,
) -> (c: MessageContent)
    ensures
        shows_pending(c, *call, approved, run, known@),
{
    if is_foreground_command_tool(call.function.bare_name.as_str()) {
        MessageContent::RenderRunCommandBlock(command_text(call), None, run)
    } else if same_text(call.function.bare_name.as_str(), "resume_subagent_task") {
        MessageContent::RenderSubagentResumePendingBlock(
            call.clone(),
            approved,
            find_pause(call, known),
        )
    } else {
        MessageContent::RenderPendingBorderBlock(call.clone(), approved)
    }
}

/// The state of a command that waits, by what the user decided.
pub open spec fn waiting_state(status: ApprovalStatus) -> RunCommandState {
    match status {
        ApprovalStatus::Approved => RunCommandState::Pending,
        ApprovalStatus::Rejected => RunCommandState::Rejected,
    }
}

/// The selected call of the bar.
pub open spec fn selected_action(bar: ApprovalBar) -> Option<ApprovalAction> {
    if bar.selected < bar.actions@.len() {
        Some(bar.actions@[bar.selected as int])
    } else {
        None
    }
}

/// The state after the selected call got a block of its own.
pub open spec fn block_created(pre: AppState, post: AppState) -> bool {
    match selected_action(pre.dialog_approval_state.approval_bar) {
        None => post == pre,
        Some(a) => {
            let m = pre.messages_scrolling_state;
            let n = post.messages_scrolling_state;
            &&& post == (AppState {
                messages_scrolling_state: MessagesScrollingState { messages: n.messages, ..m },
                tool_call_state: ToolCallState {
                    pending_bash_message_id: Some(n.messages@.last().id),
                    ..pre.tool_call_state
                },
                dialog_approval_state: DialogApprovalState {
                    dialog_command: Some(a.tool_call),
                    ..pre.dialog_approval_state
                },
                ..pre
            })
            &&& pushed(
                m.messages@,
                n.messages@,
                |c: MessageContent|
                    shows_pending(
                        c,
                        a.tool_call,
                        a.status == ApprovalStatus::Approved,
                        waiting_state(a.status),
                        pre.tool_call_state.subagent_pause_info@,
                    ),
            )
        },
    }
}

/// Shows the selected call of the bar. A block that is there is left alone.
pub fn create_pending_block_for_selected_tool(state: &mut AppState)
    ensures
        block_created(*old(state), *final(state)),
{
    let k: usize = state.dialog_approval_state.approval_bar.selected;
    if k < state.dialog_approval_state.approval_bar.actions.len() {
        let status: ApprovalStatus = state.dialog_approval_state.approval_bar.actions[k].status;
        let call: ToolCall = state.dialog_approval_state.approval_bar.actions[k].tool_call.clone();
        let run: RunCommandState = match status {
            ApprovalStatus::Approved => RunCommandState::Pending,
            ApprovalStatus::Rejected => RunCommandState::Rejected,
        };
        let content: MessageContent = pending_content(
            &call,
            status == ApprovalStatus::Approved,
            run,
            &state.tool_call_state.subagent_pause_info,
        );
        let m: Message = Message::new(content);
        state.tool_call_state.pending_bash_message_id = Some(m.id);
        state.messages_scrolling_state.messages.push(m);
        assert(state.messages_scrolling_state.messages@.drop_last()
            =~= old(state).messages_scrolling_state.messages@);
        state.dialog_approval_state.dialog_command = Some(call);
    }
}

/// The messages without the one with the identifier, where there is one.
pub open spec fn without_opt(messages: Seq<Message>, id: Option<u128>) -> Seq<Message> {
    match id {
        Some(k) => without(messages, k),
        None => messages,
    }
}

/// Takes the message with the identifier out, where there is one.
pub fn remove_opt(messages: &mut Vec<Message>, id: Option<u128>)
    ensures
        final(messages)@ == without_opt(old(messages)@, id),
{
    match id {
        Some(k) => {
            remove_message(messages, k);
        },
        None => {},
    }
}

/// The conversation with its rows to be laid out anew at once.
pub open spec fn laid_out_anew(m: MessagesScrollingState) -> MessagesScrollingState {
    MessagesScrollingState {
        assembled_lines_cache: None,
        message_lines_cache: None,
        collapsed_message_lines_cache: None,
        lines_stale: true,
        ..m
    }
}

/// Has the conversation laid out anew at once.
pub fn force_layout(m: &mut MessagesScrollingState)
    ensures
        *final(m) == laid_out_anew(*old(m)),
{
    m.assembled_lines_cache = None;
    m.message_lines_cache = None;
    m.collapsed_message_lines_cache = None;
    m.lines_stale = true;
}

/// The state before the block of the selected call is made anew.
pub open spec fn block_removed(s: AppState, messages: Vec<Message>) -> AppState {
    s.with_messages(MessagesScrollingState { messages, ..s.messages_scrolling_state })
}

/// The state after the block of the selected call was made anew. The view stays where it is.
pub open spec fn display_updated(pre: AppState, post: AppState) -> bool {
    exists|bare: AppState, shown: AppState|
        bare == block_removed(pre, bare.messages_scrolling_state.messages)
            && bare.messages_scrolling_state.messages@ == without_opt(
            pre.messages_scrolling_state.messages@,
            pre.tool_call_state.pending_bash_message_id,
        ) && #[trigger] block_created(bare, shown) && post == shown.with_messages(
            (MessagesScrollingState {
                stay_at_bottom: false,
                ..laid_out_anew(shown.messages_scrolling_state)
            }),
        )
}

fn update_pending_tool_display(state: &mut AppState)
    ensures
        display_updated(*old(state), *final(state)),
{
    let pending: Option<u128> = state.tool_call_state.pending_bash_message_id;
    remove_opt(&mut state.messages_scrolling_state.messages, pending);
    let ghost bare = *state;
    create_pending_block_for_selected_tool(state);
    let ghost shown = *state;
    force_layout(&mut state.messages_scrolling_state);
    state.messages_scrolling_state.stay_at_bottom = false;
    assert(block_created(bare, shown));
}

// ----- the approval bar -----

/// The state with another bar.
pub open spec fn with_bar(s: AppState, bar: ApprovalBar) -> AppState {
    AppState {
        dialog_approval_state: DialogApprovalState { approval_bar: bar, ..s.dialog_approval_state },
        ..s
    }
}

/// Approves every call of the bar.
pub fn handle_approval_bar_approve_all(state: &mut AppState)
    ensures
        all_set(*old(state), *final(state), ApprovalStatus::Approved),
{
    state.dialog_approval_state.approval_bar.approve_all();
}

/// Rejects every call of the bar.
pub fn handle_approval_bar_reject_all(state: &mut AppState)
    ensures
        all_set(*old(state), *final(state), ApprovalStatus::Rejected),
{
    state.dialog_approval_state.approval_bar.reject_all();
}

/// The state after every call of the bar got one status.
pub open spec fn all_set(pre: AppState, post: AppState, status: ApprovalStatus) -> bool {
    let b = pre.dialog_approval_state.approval_bar;
    let c = post.dialog_approval_state.approval_bar;
    &&& post == with_bar(pre, c)
    &&& c.actions@ == all_with(b.actions@, status)
    &&& c.selected == b.selected
    &&& c.esc_pending == b.esc_pending
}

/// The state after the selected call got a status.
pub open spec fn selected_set(pre: AppState, post: AppState, status: ApprovalStatus) -> bool {
    let b = pre.dialog_approval_state.approval_bar;
    let c = post.dialog_approval_state.approval_bar;
    &&& post == with_bar(pre, c)
    &&& c.actions@ == (match selected_action(b) {
        Some(a) => b.actions@.update(b.selected as int, ApprovalAction { status, ..a }),
        None => b.actions@,
    })
    &&& c.selected == b.selected
    &&& c.esc_pending == b.esc_pending
}

/// Approves the selected call.
pub fn handle_approval_bar_approve_selected(state: &mut AppState)
    ensures
        selected_set(*old(state), *final(state), ApprovalStatus::Approved),
{
    state.dialog_approval_state.approval_bar.set_selected(ApprovalStatus::Approved);
}

/// Rejects the selected call.
pub fn handle_approval_bar_reject_selected(state: &mut AppState)
    ensures
        selected_set(*old(state), *final(state), ApprovalStatus::Rejected),
{
    state.dialog_approval_state.approval_bar.set_selected(ApprovalStatus::Rejected);
}

/// The state after the selected call was turned round.
pub open spec fn selected_toggled(pre: AppState, post: AppState) -> bool {
    match selected_action(pre.dialog_approval_state.approval_bar) {
        Some(a) => selected_set(pre, post, crate::approval_bar::flipped(a.status)),
        None => selected_set(pre, post, ApprovalStatus::Approved),
    }
}

/// Turns the selected call round.
pub fn handle_toggle_approval_status(state: &mut AppState)
    ensures
        selected_toggled(*old(state), *final(state)),
{
    state.dialog_approval_state.approval_bar.toggle_selected();
}

/// Turns the selected call round.
pub fn handle_approval_popup_toggle_approval(state: &mut AppState)
    ensures
        selected_toggled(*old(state), *final(state)),
{
    state.dialog_approval_state.approval_bar.toggle_selected();
}

/// The bar with another call selected.
pub open spec fn bar_at(bar: ApprovalBar, selected: int) -> ApprovalBar {
    ApprovalBar { selected: selected as usize, ..bar }
}

/// The state after another call was selected and the view goes to the start of the last message.
pub open spec fn moved_to_start(pre: AppState, selected: int) -> AppState {
    AppState {
        messages_scrolling_state: MessagesScrollingState {
            scroll_to_last_message_start: true,
            stay_at_bottom: false,
            ..pre.messages_scrolling_state
        },
        ..with_bar(pre, bar_at(pre.dialog_approval_state.approval_bar, selected))
    }
}

/// Has the view go to the start of the last message.
pub fn go_to_message_start(m: &mut MessagesScrollingState)
    ensures
        *final(m) == (MessagesScrollingState {
            scroll_to_last_message_start: true,
            stay_at_bottom: false,
            ..*old(m)
        }),
{
    m.scroll_to_last_message_start = true;
    m.stay_at_bottom = false;
}

/// Selects the next call.
pub fn handle_approval_popup_next_tab(state: &mut AppState)
    ensures
        *final(state) == moved_to_start(
            *old(state),
            old(state).dialog_approval_state.approval_bar.next_index(),
        ),
{
    state.dialog_approval_state.approval_bar.select_next();
    go_to_message_start(&mut state.messages_scrolling_state);
}

/// Selects the call before.
pub fn handle_approval_popup_prev_tab(state: &mut AppState)
    ensures
        *final(state) == moved_to_start(
            *old(state),
            old(state).dialog_approval_state.approval_bar.prev_index(),
        ),
{
    state.dialog_approval_state.approval_bar.select_prev();
    go_to_message_start(&mut state.messages_scrolling_state);
}

/// The state without calls in the bar.
pub open spec fn bar_emptied(pre: AppState, post: AppState) -> bool {
    let c = post.dialog_approval_state.approval_bar;
    post == with_bar(pre, c) && c.empty()
}

/// Gives all calls up.
pub fn handle_approval_popup_escape(state: &mut AppState)
    ensures
        bar_emptied(*old(state), *final(state)),
{
    state.dialog_approval_state.approval_bar.clear();
}

/// Gives all calls up.
pub fn handle_approval_bar_collapse(state: &mut AppState)
    ensures
        bar_emptied(*old(state), *final(state)),
{
    state.dialog_approval_state.approval_bar.clear();
}

/// The state after the selected call was turned round and shown.
pub open spec fn turned_round(pre: AppState, post: AppState) -> bool {
    exists|mid: AppState| selected_toggled(pre, mid) && #[trigger] display_updated(mid, post)
}

/// The state after the call at the given place was selected and shown.
pub open spec fn call_shown(pre: AppState, post: AppState, k: int) -> bool {
    display_updated(with_bar(pre, bar_at(pre.dialog_approval_state.approval_bar, k)), post)
}

/// The state after a call was selected by its place, counted from one: it is shown, where it was not
/// selected before.
pub open spec fn call_selected(pre: AppState, post: AppState, index: usize) -> bool {
    let bar = pre.dialog_approval_state.approval_bar;
    let k = place_selected(bar, index);
    if k == bar.selected {
        post == pre
    } else {
        call_shown(pre, post, k)
    }
}

/// Turns the selected call round and shows it.
pub fn handle_approval_bar_toggle_selected(state: &mut AppState)
    ensures
        turned_round(*old(state), *final(state)),
{
    state.dialog_approval_state.approval_bar.toggle_selected();
    let ghost mid = *state;
    update_pending_tool_display(state);
    assert(selected_toggled(*old(state), mid) && display_updated(mid, *state));
}

/// Selects the next call and shows it.
pub fn handle_approval_bar_next_action(state: &mut AppState)
    ensures
        call_shown(
            *old(state),
            *final(state),
            old(state).dialog_approval_state.approval_bar.next_index(),
        ),
{
    state.dialog_approval_state.approval_bar.select_next();
    update_pending_tool_display(state);
}

/// Selects the call before and shows it.
pub fn handle_approval_bar_prev_action(state: &mut AppState)
    ensures
        call_shown(
            *old(state),
            *final(state),
            old(state).dialog_approval_state.approval_bar.prev_index(),
        ),
{
    state.dialog_approval_state.approval_bar.select_prev();
    update_pending_tool_display(state);
}

/// Which call is selected by its place, counted from one.
pub open spec fn place_selected(bar: ApprovalBar, index: usize) -> int {
    if 1 <= index <= bar.actions@.len() {
        index - 1
    } else {
        bar.selected as int
    }
}

/// Selects a call by its place and shows it, where it was not selected before.
pub fn handle_approval_bar_select_action(state: &mut AppState, index: usize)
    ensures
        call_selected(*old(state), *final(state), index),
{
    let before: usize = state.dialog_approval_state.approval_bar.selected;
    state.dialog_approval_state.approval_bar.select_action(index);
    if before != state.dialog_approval_state.approval_bar.selected {
        update_pending_tool_display(state);
    }
}

// ----- streaming -----

/// The marker of a command that waits for input.
pub open spec fn stall_marker() -> Seq<char> {
    "__INTERACTIVE_STALL__"@
}

/// The text without the colons at its start.
pub open spec fn without_colons(s: Seq<char>) -> Seq<char>
    decreases s.len(),
{
    if s.len() > 0 && s[0] == ':' {
        without_colons(s.drop_first())
    } else {
        s
    }
}

/// What the report of a command that waits for input says.
pub open spec fn stall_text(message: Seq<char>) -> Seq<char> {
    trim_of(without_colons(replaced(message, stall_marker(), Seq::empty())))
}

fn read_stall(message: &str) -> (r: String)
    ensures
        r@ == stall_text(message@),
{
    let none: String = String::new();
    assert(none@ =~= Seq::<char>::empty());
    let rest: String = replace(message, "__INTERACTIVE_STALL__", none.as_str());
    let v: Vec<char> = chars_of(rest.as_str());
    let mut i: usize = 0;
    assert(v@.skip(0) =~= v@);
    while i < v.len() && v[i] == ':'
        invariant
            i <= v@.len(),
            v@ == rest@,
            without_colons(rest@) == without_colons(v@.skip(i as int)),
        decreases v@.len() - i,
    {
        assert(v@.skip(i as int).drop_first() =~= v@.skip(i + 1));
        i += 1;
    }
    let text: String = string_of(&v, i, v.len());
    assert(text@ =~= v@.skip(i as int));
    trim(text.as_str())
}

/// Whether the content got the warning that the command waits for input; another kind of content
/// stays as it is.
pub open spec fn warned(pre: MessageContent, post: MessageContent, text: Seq<char>) -> bool {
    match pre {
        MessageContent::RenderPendingBorderBlock(call, auto) => {
            post matches MessageContent::RenderPendingBorderBlockWithStallWarning(c, a, t) && c
                == call && a == auto && t@ == seq![' '] + text
        },
        MessageContent::RenderRunCommandBlock(command, result, _) => {
            post matches MessageContent::RenderRunCommandBlock(c, r, s) && c == command && r
                == result && (s matches RunCommandState::RunningWithStallWarning(t) && t@ == text)
        },
        _ => post == pre,
    }
}

/// The conversation after the message of the running command got the warning.
pub open spec fn stall_shown(
    pre: MessagesScrollingState,
    post: MessagesScrollingState,
    pending: Option<u128>,
    text: Seq<char>,
) -> bool {
    &&& post == (MessagesScrollingState { messages: post.messages, lines_stale: true, ..pre })
    &&& match pending {
        None => post.messages@ == pre.messages@,
        Some(id) => match message_at(pre.messages@, id, 0) {
            None => post.messages@ == pre.messages@,
            Some(i) => {
                &&& 0 <= i < pre.messages@.len()
                &&& post.messages@.len() == pre.messages@.len()
                &&& post.messages@ == pre.messages@.update(
                    i,
                    Message { content: post.messages@[i].content, ..pre.messages@[i] },
                )
                &&& warned(pre.messages@[i].content, post.messages@[i].content, text)
            },
        },
    }
}

fn warned_content(c: &MessageContent, text: &str) -> (r: Option<MessageContent>)
    ensures
        match r {
            Some(n) => warned(*c, n, text@),
            None => warned(*c, *c, text@),
        },
{
    match c {
        MessageContent::RenderPendingBorderBlock(call, auto) => {
            let mut t: String = String::new();
            t.push(' ');
            t.push_str(text);
            assert(t@ =~= seq![' '] + text@);
            Some(
                MessageContent::RenderPendingBorderBlockWithStallWarning(call.clone(), *auto, t),
            )
        },
        MessageContent::RenderRunCommandBlock(command, result, _) => {
            Some(
                MessageContent::RenderRunCommandBlock(
                    command.clone(),
                    copy_text(result),
                    RunCommandState::RunningWithStallWarning(text.to_owned()),
                ),
            )
        },
        _ => None,
    }
}

fn show_stall(m: &mut MessagesScrollingState, pending: Option<u128>, text: &str)
    ensures
        stall_shown(*old(m), *final(m), pending, text@),
{
    match pending {
        Some(id) => {
            match find_message(&m.messages, id) {
                Some(i) => {
                    let ghost before = m.messages@;
                    match warned_content(&m.messages[i].content, text) {
                        Some(c) => {
                            set_content(&mut m.messages, i, c);
                        },
                        None => {
                            assert(before =~= before.update(i as int, before[i as int]));
                        },
                    }
                },
                None => {},
            }
        },
        None => {},
    }
    m.lines_stale = true;
}

/// The conversation after a running tool's message was replaced by one with the given identifier
/// and content of which `p` holds. The message that waited is gone.
pub open spec fn stream_shown(
    pre: MessagesScrollingState,
    post: MessagesScrollingState,
    pending: Option<u128>,
    id: u128,
    p: spec_fn(MessageContent) -> bool,
) -> bool {
    &&& post == (MessagesScrollingState {
        messages: post.messages,
        lines_stale: true,
        content_changed_while_scrolled_up: !pre.stay_at_bottom
            || pre.content_changed_while_scrolled_up,
        ..pre
    })
    &&& post.messages@.len() > 0
    &&& post.messages@ == without(without_opt(pre.messages@, pending), id).push(
        Message { id, content: post.messages@.last().content, is_collapsed: None },
    )
    &&& p(post.messages@.last().content)
}

fn show_stream(
    m: &mut MessagesScrollingState,
    pending: Option<u128>,
    id: u128,
    content: MessageContent,
)
    ensures
        stream_shown(*old(m), *final(m), pending, id, |c: MessageContent| c == content),
{
    remove_opt(&mut m.messages, pending);
    remove_message(&mut m.messages, id);
    m.messages.push(Message::with_id(id, content));
    m.lines_stale = true;
    if !m.stay_at_bottom {
        m.content_changed_while_scrolled_up = true;
    }
}

/// What the tool has reported so far, with another report behind it.
pub open spec fn buffered(results: Map<u128, String>, id: u128, message: Seq<char>) -> Seq<char> {
    let before = if results.contains_key(id) {
        results[id]@
    } else {
        Seq::empty()
    };
    before + message + seq!['\n']
}

/// The tool's state while it streams.
pub open spec fn streaming(pre: ToolCallState, post: ToolCallState, id: u128) -> bool {
    post == (ToolCallState {
        is_streaming: true,
        streaming_tool_result_id: Some(id),
        streaming_tool_results: post.streaming_tool_results,
        ..pre
    })
}

/// The reports with another one for the tool.
pub open spec fn result_set(
    pre: Map<u128, String>,
    post: Map<u128, String>,
    id: u128,
    text: Seq<char>,
) -> bool {
    post.contains_key(id) && post[id]@ == text && post == pre.insert(id, post[id])
}

fn buffer_report(t: &mut ToolCallState, id: u128, message: &str) -> (r: String)
    ensures
        streaming(*old(t), *final(t), id),
        result_set(
            old(t).streaming_tool_results@,
            final(t).streaming_tool_results@,
            id,
            buffered(old(t).streaming_tool_results@, id, message@),
        ),
        r@ == buffered(old(t).streaming_tool_results@, id, message@),
{
    broadcast use vstd::std_specs::hash::group_hash_axioms;

    let mut text: String = match t.streaming_tool_results.get(&id) {
        Some(s) => s.clone(),
        None => String::new(),
    };
    text.push_str(message);
    text.push('\n');
    proof {
        let before = if old(t).streaming_tool_results@.contains_key(id) {
            old(t).streaming_tool_results@[id]@
        } else {
            Seq::<char>::empty()
        };
        assert(text@ =~= before + message@ + seq!['\n']);
    }
    t.is_streaming = true;
    t.streaming_tool_result_id = Some(id);
    let r: String = text.clone();
    let _old: Option<String> = t.streaming_tool_results.insert(id, text);
    r
}

/// Whether the content shows what the running tool has reported: under its command where it runs
/// one.
pub open spec fn shows_stream(c: MessageContent, dialog: Option<ToolCall>, text: Seq<char>) -> bool {
    match dialog {
        Some(call) => if runs_command(call.function.bare_name@) {
            shows_command(
                c,
                match call_command(call.function.arguments@) {
                    Ok(t) => t,
                    Err(_) => "command"@,
                },
                Some(text),
                RunCommandState::Running,
            )
        } else {
            shows_block(c, text, "Tool Streaming"@, "Result"@, "Streaming"@)
        },
        None => shows_block(c, text, "Tool Streaming"@, "Result"@, "Streaming"@),
    }
}

/// Whether the content shows a text in a border.
pub open spec fn shows_block(
    c: MessageContent,
    text: Seq<char>,
    outside: Seq<char>,
    inside: Seq<char>,
    kind: Seq<char>,
) -> bool {
    c matches MessageContent::RenderStreamingBorderBlock(t, a, b, k) && t@ == text && a@ == outside
        && b@ == inside && k@ == kind
}

fn stream_content(dialog: &Option<ToolCall>, text: String) -> (c: MessageContent)
    ensures
        shows_stream(c, *dialog, text@),
{
    match dialog {
        Some(call) => if is_foreground_command_tool(call.function.bare_name.as_str()) {
            let command: String = match extract_command_from_tool_call(call) {
                Ok(t) => t,
                Err(_) => "command".to_owned(),
            };
            MessageContent::RenderRunCommandBlock(command, Some(text), RunCommandState::Running)
        } else {
            block_content(text, "Tool Streaming", "Result", "Streaming")
        },
        None => block_content(text, "Tool Streaming", "Result", "Streaming"),
    }
}

fn block_content(text: String, outside: &str, inside: &str, kind: &str) -> (c: MessageContent)
    ensures
        shows_block(c, text@, outside@, inside@, kind@),
{
    MessageContent::RenderStreamingBorderBlock(
        text,
        outside.to_owned(),
        inside.to_owned(),
        kind.to_owned(),
    )
}

/// The loading state while something is shown as being loaded.
pub open spec fn loading(s: LoadingState) -> LoadingState {
    LoadingState { is_loading: true, ..s }
}

/// The state while a tool streams.
pub open spec fn tool_streams(pre: AppState, post: AppState) -> AppState {
    AppState {
        loading_state: loading(pre.loading_state),
        tool_call_state: post.tool_call_state,
        messages_scrolling_state: post.messages_scrolling_state,
        ..pre
    }
}

/// Whether a report of the tool is ignored: the tool is done, or the user has cancelled it.
pub open spec fn report_ignored(s: AppState, id: u128) -> bool {
    s.tool_call_state.completed_tool_calls@.contains(id) || s.tool_call_state.cancel_requested
}

/// The identifiers of the tasks that are waited for, of the first `n`.
pub open spec fn targets(tasks: Seq<TaskUpdate>, n: int) -> Seq<Seq<char>>
    decreases n,
{
    if n <= 0 || n > tasks.len() {
        Seq::empty()
    } else if tasks[n - 1].is_target {
        targets(tasks, n - 1).push(tasks[n - 1].task_id@)
    } else {
        targets(tasks, n - 1)
    }
}

fn target_ids(tasks: &Vec<TaskUpdate>) -> (r: Vec<String>)
    ensures
        texts(r@) == targets(tasks@, tasks@.len() as int),
{
    let mut r: Vec<String> = Vec::new();
    let mut i: usize = 0;
    assert(texts(r@) =~= Seq::<Seq<char>>::empty());
    while i < tasks.len()
        invariant
            i <= tasks@.len(),
            texts(r@) == targets(tasks@, i as int),
        decreases tasks@.len() - i,
    {
        if tasks[i].is_target {
            let id: String = tasks[i].task_id.clone();
            proof {
                crate::text::lemma_texts_push(r@, id);
            }
            r.push(id);
        }
        i += 1;
    }
    r
}

/// What is known of paused tasks after the first `n` reports.
pub open spec fn paused(
    known: Map<Seq<char>, TaskPauseInfo>,
    tasks: Seq<TaskUpdate>,
    n: int,
) -> Map<Seq<char>, TaskPauseInfo>
    decreases n,
{
    if n <= 0 || n > tasks.len() {
        known
    } else {
        let before = paused(known, tasks, n - 1);
        let t = tasks[n - 1];
        match t.pause_info {
            Some(info) => if t.status@ == "Paused"@ {
                before.insert(t.task_id@, info)
            } else {
                before
            },
            None => before,
        }
    }
}

fn note_paused(known: &mut TextMap<TaskPauseInfo>, tasks: &Vec<TaskUpdate>)
    ensures
        final(known)@ == paused(old(known)@, tasks@, tasks@.len() as int),
{
    let ghost before = known@;
    let mut i: usize = 0;
    while i < tasks.len()
        invariant
            i <= tasks@.len(),
            known@ == paused(before, tasks@, i as int),
        decreases tasks@.len() - i,
    {
        match &tasks[i].pause_info {
            Some(info) => {
                if same_text(tasks[i].status.as_str(), "Paused") {
                    known.insert(tasks[i].task_id.clone(), info.clone());
                }
            },
            None => {},
        }
        i += 1;
    }
}

/// Whether the content shows the tasks that are waited for.
pub open spec fn shows_tasks(c: MessageContent, tasks: Vec<TaskUpdate>, progress: Option<u64>)
    -> bool {
    c matches MessageContent::RenderTaskWaitBlock(t, p, ids) && t == tasks && p == (match progress {
        Some(bits) => bits,
        None => 0,
    }) && texts(ids@) == targets(tasks@, tasks@.len() as int)
}

/// What a report on tasks does: it takes the place of the one before.
pub open spec fn wait_taken(pre: AppState, post: AppState, r: ToolCallProgress) -> bool {
    let t = pre.tool_call_state;
    let u = post.tool_call_state;
    &&& post == tool_streams(pre, post)
    &&& match r.task_updates {
        Some(tasks) => {
            &&& u == (ToolCallState {
                is_streaming: true,
                streaming_tool_result_id: Some(r.id),
                subagent_pause_info: u.subagent_pause_info,
                ..t
            })
            &&& u.subagent_pause_info@ == paused(
                t.subagent_pause_info@,
                tasks@,
                tasks@.len() as int,
            )
            &&& stream_shown(
                pre.messages_scrolling_state,
                post.messages_scrolling_state,
                t.pending_bash_message_id,
                r.id,
                |c: MessageContent| shows_tasks(c, tasks, r.progress),
            )
        },
        None => {
            &&& streaming(t, u, r.id)
            &&& result_set(
                t.streaming_tool_results@,
                u.streaming_tool_results@,
                r.id,
                r.message@,
            )
            &&& stream_shown(
                pre.messages_scrolling_state,
                post.messages_scrolling_state,
                t.pending_bash_message_id,
                r.id,
                |c: MessageContent|
                    shows_block(c, r.message@, "Wait for Tasks"@, "Progress"@, "TaskWait"@),
            )
        },
    }
}

fn wait_for_tasks(t: &mut ToolCallState, id: u128, tasks: &Vec<TaskUpdate>)
    ensures
        *final(t) == (ToolCallState {
            is_streaming: true,
            streaming_tool_result_id: Some(id),
            subagent_pause_info: final(t).subagent_pause_info,
            ..*old(t)
        }),
        final(t).subagent_pause_info@ == paused(
            old(t).subagent_pause_info@,
            tasks@,
            tasks@.len() as int,
        ),
{
    t.is_streaming = true;
    t.streaming_tool_result_id = Some(id);
    note_paused(&mut t.subagent_pause_info, tasks);
}

fn replace_report(t: &mut ToolCallState, id: u128, message: &str)
    ensures
        streaming(*old(t), *final(t), id),
        result_set(
            old(t).streaming_tool_results@,
            final(t).streaming_tool_results@,
            id,
            message@,
        ),
{
    broadcast use vstd::std_specs::hash::group_hash_axioms;

    t.is_streaming = true;
    t.streaming_tool_result_id = Some(id);
    let _old: Option<String> = t.streaming_tool_results.insert(id, message.to_owned());
}

fn handle_task_wait_progress(state: &mut AppState, progress: ToolCallProgress)
    ensures
        wait_taken(*old(state), *final(state), progress),
{
    let pending: Option<u128> = state.tool_call_state.pending_bash_message_id;
    let id: u128 = progress.id;
    let content: MessageContent = match progress.task_updates {
        Some(tasks) => {
            let ids: Vec<String> = target_ids(&tasks);
            let bits: u64 = match progress.progress {
                Some(b) => b,
                None => 0,
            };
            wait_for_tasks(&mut state.tool_call_state, id, &tasks);
            MessageContent::RenderTaskWaitBlock(tasks, bits, ids)
        },
        None => {
            replace_report(&mut state.tool_call_state, id, progress.message.as_str());
            block_content(progress.message, "Wait for Tasks", "Progress", "TaskWait")
        },
    };
    show_stream(&mut state.messages_scrolling_state, pending, id, content);
    state.loading_state.is_loading = true;
}

/// What a report of a running tool does. Reports of a tool that is done or cancelled are ignored.
/// One that says that the command waits for input is shown as a warning. One on tasks takes the
/// place of the one before; any other is put behind those before.
pub open spec fn report_taken(pre: AppState, post: AppState, r: ToolCallProgress) -> bool {
    let t = pre.tool_call_state;
    let u = post.tool_call_state;
    if report_ignored(pre, r.id) {
        post == pre
    } else if holds_text(r.message@, stall_marker()) {
        &&& post == pre.with_messages(post.messages_scrolling_state)
        &&& stall_shown(
            pre.messages_scrolling_state,
            post.messages_scrolling_state,
            t.pending_bash_message_id,
            stall_text(r.message@),
        )
    } else if r.is_task_wait {
        wait_taken(pre, post, r)
    } else {
        let text = buffered(t.streaming_tool_results@, r.id, r.message@);
        &&& post == tool_streams(pre, post)
        &&& streaming(t, u, r.id)
        &&& result_set(t.streaming_tool_results@, u.streaming_tool_results@, r.id, text)
        &&& stream_shown(
            pre.messages_scrolling_state,
            post.messages_scrolling_state,
            t.pending_bash_message_id,
            r.id,
            |c: MessageContent|
                shows_stream(c, pre.dialog_approval_state.dialog_command, text),
        )
    }
}

/// The command that a call runs, where there is a call and it runs one.
pub open spec fn command_of(call: Option<ToolCall>) -> Option<Seq<char>> {
    match call {
        Some(c) => match call_command(c.function.arguments@) {
            Ok(text) => Some(text),
            Err(_) => None,
        },
        None => None,
    }
}

/// The command that runs: that of the call in the dialog, or else of the latest call, or else what
/// stands for a command.
pub open spec fn running_command(s: AppState) -> Seq<char> {
    match command_of(s.dialog_approval_state.dialog_command) {
        Some(c) => c,
        None => match command_of(s.tool_call_state.latest_tool_call) {
            Some(c) => c,
            None => "command"@,
        },
    }
}

/// The command that a report says waits for input; none where the report is ignored or says
/// something else.
pub open spec fn stalled_command(s: AppState, r: ToolCallProgress) -> Option<Seq<char>> {
    if !report_ignored(s, r.id) && holds_text(r.message@, stall_marker()) {
        Some(running_command(s))
    } else {
        None
    }
}

fn find_command(call: &Option<ToolCall>) -> (r: Option<String>)
    ensures
        text_of(r) == command_of(*call),
{
    match call {
        Some(c) => match extract_command_from_tool_call(c) {
            Ok(text) => Some(text),
            Err(_) => None,
        },
        None => None,
    }
}

fn find_running_command(state: &AppState) -> (r: String)
    ensures
        r@ == running_command(*state),
{
    match find_command(&state.dialog_approval_state.dialog_command) {
        Some(c) => c,
        None => match find_command(&state.tool_call_state.latest_tool_call) {
            Some(c) => c,
            None => "command".to_owned(),
        },
    }
}

/// Takes over a report of a running tool. Gives the command that waits for input, where the report
/// says that it does: it is to go on in a shell.
pub fn handle_stream_tool_result(state: &mut AppState, progress: ToolCallProgress) -> (r: Option<
    String,
>)
    ensures
        report_taken(*old(state), *final(state), progress),
        text_of(r) == stalled_command(*old(state), progress),
{
    if is_report_ignored(&state.tool_call_state, progress.id) {
        return None;
    }
    let pending: Option<u128> = state.tool_call_state.pending_bash_message_id;
    if contains(progress.message.as_str(), "__INTERACTIVE_STALL__") {
        let text: String = read_stall(progress.message.as_str());
        let command: String = find_running_command(state);
        show_stall(&mut state.messages_scrolling_state, pending, text.as_str());
        return Some(command);
    }
    if progress.is_task_wait {
        handle_task_wait_progress(state, progress);
        return None;
    }
    let text: String = buffer_report(
        &mut state.tool_call_state,
        progress.id,
        progress.message.as_str(),
    );
    let content: MessageContent = stream_content(
        &state.dialog_approval_state.dialog_command,
        text,
    );
    show_stream(&mut state.messages_scrolling_state, pending, progress.id, content);
    state.loading_state.is_loading = true;
    None
}

fn is_report_ignored(t: &ToolCallState, id: u128) -> (r: bool)
    ensures
        r == (t.completed_tool_calls@.contains(id) || t.cancel_requested),
{
    broadcast use vstd::std_specs::hash::group_hash_axioms;

    t.completed_tool_calls.contains(&id) || t.cancel_requested
}

/// A tool that is done says nothing more: its reports change nothing.
pub proof fn law_done_is_silent(pre: AppState, post: AppState, r: ToolCallProgress)
    requires
        report_taken(pre, post, r),
        pre.tool_call_state.completed_tool_calls@.contains(r.id),
    ensures
        post == pre,
{
}

/// However often a tool reports, it has one message.
pub proof fn law_one_stream_message(pre: AppState, post: AppState, r: ToolCallProgress)
    requires
        report_taken(pre, post, r),
        !report_ignored(pre, r.id),
        !holds_text(r.message@, stall_marker()),
    ensures
        forall|i: int|
            0 <= i < post.messages_scrolling_state.messages@.len() - 1 ==> (
            #[trigger] post.messages_scrolling_state.messages@[i]).id != r.id,
        post.messages_scrolling_state.messages@.last().id == r.id,
{
    let base = without_opt(
        pre.messages_scrolling_state.messages@,
        pre.tool_call_state.pending_bash_message_id,
    );
    crate::message::law_without(base, r.id);
    let n = post.messages_scrolling_state.messages@;
    assert forall|i: int| 0 <= i < n.len() - 1 implies (#[trigger] n[i]).id != r.id by {
        assert(n[i] == without(base, r.id)[i]);
    }
}

// ----- the calls of a message -----

/// Whether the call still has to be decided: it is not executed yet and needs an approval.
pub open spec fn undecided(
    c: (ToolCall, bool),
    queue: Map<Seq<char>, ToolCallStatus>,
) -> bool {
    c.1 && !(queue.contains_key(c.0.id@) && queue[c.0.id@] == ToolCallStatus::Executed)
}

/// The calls that still have to be decided.
pub open spec fn undecided_calls(
    calls: Seq<(ToolCall, bool)>,
    queue: Map<Seq<char>, ToolCallStatus>,
) -> Seq<ToolCall>
    decreases calls.len(),
{
    if calls.len() == 0 {
        Seq::empty()
    } else if undecided(calls.last(), queue) {
        undecided_calls(calls.drop_last(), queue).push(calls.last().0)
    } else {
        undecided_calls(calls.drop_last(), queue)
    }
}

fn find_undecided(calls: &Vec<(ToolCall, bool)>, queue: &TextMap<ToolCallStatus>) -> (r: Vec<
    ToolCall,
>)
    ensures
        r@ == undecided_calls(calls@, queue@),
{
    let mut r: Vec<ToolCall> = Vec::new();
    let mut i: usize = 0;
    assert(calls@.take(0) =~= Seq::<(ToolCall, bool)>::empty());
    while i < calls.len()
        invariant
            i <= calls@.len(),
            r@ == undecided_calls(calls@.take(i as int), queue@),
        decreases calls@.len() - i,
    {
        assert(calls@.take(i + 1).drop_last() =~= calls@.take(i as int));
        let executed: bool = match queue.get(calls[i].0.id.as_str()) {
            Some(s) => *s == ToolCallStatus::Executed,
            None => false,
        };
        if calls[i].1 && !executed {
            r.push(calls[i].0.clone());
        }
        i += 1;
    }
    assert(calls@.take(i as int) =~= calls@);
    r
}

/// The state after the model has written its tool calls: the preview is gone, and the calls that
/// still have to be decided are known. While a command of a call runs in the shell, the calls of
/// its message stay known instead.
pub open spec fn calls_taken(pre: AppState, post: AppState, calls: Seq<(ToolCall, bool)>) -> bool {
    let open_calls = undecided_calls(calls, pre.session_tool_calls_state.session_tool_calls_queue@);
    let preview = pre.tool_call_state.tool_call_stream_preview_id;
    let m = pre.messages_scrolling_state;
    let n = post.messages_scrolling_state;
    let d = post.dialog_approval_state;
    let q = post.session_tool_calls_state;
    &&& post == (AppState {
        messages_scrolling_state: MessagesScrollingState {
            messages: n.messages,
            lines_stale: preview is Some || m.lines_stale,
            ..m
        },
        tool_call_state: ToolCallState {
            tool_call_stream_preview_id: None,
            ..pre.tool_call_state
        },
        dialog_approval_state: DialogApprovalState {
            message_tool_calls: d.message_tool_calls,
            ..pre.dialog_approval_state
        },
        session_tool_calls_state: SessionToolCallsState {
            last_message_tool_calls: q.last_message_tool_calls,
            ..pre.session_tool_calls_state
        },
        ..pre
    })
    &&& n.messages@ == without_opt(m.messages@, preview)
    &&& d.message_tool_calls is Some
    &&& d.message_tool_calls->0@ == open_calls
    &&& if !pre.shell_popup_state.is_expanded || pre.dialog_approval_state.dialog_command is None {
        q.last_message_tool_calls@ == open_calls
    } else {
        q.last_message_tool_calls == pre.session_tool_calls_state.last_message_tool_calls
    }
}

fn drop_preview(m: &mut MessagesScrollingState, preview: Option<u128>)
    ensures
        *final(m) == (MessagesScrollingState {
            messages: final(m).messages,
            lines_stale: preview is Some || old(m).lines_stale,
            ..*old(m)
        }),
        final(m).messages@ == without_opt(old(m).messages@, preview),
{
    remove_opt(&mut m.messages, preview);
    if preview.is_some() {
        m.lines_stale = true;
    }
}

/// Takes over the tool calls that the model has written, each with whether it needs an approval.
pub fn handle_message_tool_calls(state: &mut AppState, tool_calls: Vec<(ToolCall, bool)>)
    ensures
        calls_taken(*old(state), *final(state), tool_calls@),
{
    let preview: Option<u128> = state.tool_call_state.tool_call_stream_preview_id;
    drop_preview(&mut state.messages_scrolling_state, preview);
    state.tool_call_state.tool_call_stream_preview_id = None;
    let open_calls: Vec<ToolCall> = find_undecided(
        &tool_calls,
        &state.session_tool_calls_state.session_tool_calls_queue,
    );
    if !state.shell_popup_state.is_expanded
        || state.dialog_approval_state.dialog_command.is_none() {
        state.session_tool_calls_state.last_message_tool_calls = crate::models::copy_calls(
            &open_calls,
        );
    }
    state.dialog_approval_state.message_tool_calls = Some(open_calls);
}

/// The state while the model writes tool calls: one message shows how far it is.
pub open spec fn preview_shown(pre: AppState, post: AppState, infos: Vec<ToolCallStreamInfo>)
    -> bool {
    let t = pre.tool_call_state;
    let id = post.tool_call_state.tool_call_stream_preview_id;
    &&& id is Some
    &&& t.tool_call_stream_preview_id is Some ==> id == t.tool_call_stream_preview_id
    &&& t.tool_call_stream_preview_id is None ==> id->0 != 0
    &&& post == (AppState {
        loading_state: loading(pre.loading_state),
        tool_call_state: ToolCallState {
            tool_call_stream_preview_id: id,
            is_streaming: true,
            ..t
        },
        messages_scrolling_state: post.messages_scrolling_state,
        ..pre
    })
    &&& stream_shown(
        pre.messages_scrolling_state,
        post.messages_scrolling_state,
        None,
        id->0,
        |c: MessageContent| c == MessageContent::RenderToolCallStreamBlock(infos),
    )
}

fn start_preview(t: &mut ToolCallState) -> (id: u128)
    ensures
        *final(t) == (ToolCallState {
            tool_call_stream_preview_id: Some(id),
            is_streaming: true,
            ..*old(t)
        }),
        old(t).tool_call_stream_preview_id is Some ==> old(t).tool_call_stream_preview_id == Some(
            id,
        ),
        old(t).tool_call_stream_preview_id is None ==> id != 0,
{
    let id: u128 = match t.tool_call_stream_preview_id {
        Some(id) => id,
        None => fresh_id(),
    };
    t.tool_call_stream_preview_id = Some(id);
    t.is_streaming = true;
    id
}

/// Shows how far the model is with its tool calls.
pub fn handle_stream_tool_call_progress(state: &mut AppState, infos: Vec<ToolCallStreamInfo>)
    ensures
        preview_shown(*old(state), *final(state), infos),
{
    let id: u128 = start_preview(&mut state.tool_call_state);
    show_stream(
        &mut state.messages_scrolling_state,
        None,
        id,
        MessageContent::RenderToolCallStreamBlock(infos),
    );
    state.loading_state.is_loading = true;
}

// ----- running a command again -----

/// The shell that a call's command is run in again.
pub open spec fn retry_popup(p: ShellPopupState, q: ShellPopupState) -> bool {
    &&& q == (ShellPopupState {
        is_visible: true,
        is_expanded: true,
        ondemand_shell_mode: false,
        shell_tool_calls: q.shell_tool_calls,
        active_shell_command: None,
        active_shell_command_output: None,
        ..p
    })
    &&& reports_ready(p, q)
}

/// The list of reports is there; where there was none, it is empty.
pub open spec fn reports_ready(p: ShellPopupState, q: ShellPopupState) -> bool {
    if p.shell_tool_calls is Some {
        q.shell_tool_calls == p.shell_tool_calls
    } else {
        shell_view(q.shell_tool_calls) == Some(Seq::<ToolCallResult>::empty())
    }
}

fn ready_reports(p: &mut ShellPopupState)
    ensures
        *final(p) == (ShellPopupState {
            ondemand_shell_mode: false,
            shell_tool_calls: final(p).shell_tool_calls,
            ..*old(p)
        }),
        reports_ready(*old(p), *final(p)),
{
    p.ondemand_shell_mode = false;
    if p.shell_tool_calls.is_none() {
        let none: Vec<ToolCallResult> = Vec::new();
        assert(none@ =~= Seq::<ToolCallResult>::empty());
        p.shell_tool_calls = Some(none);
    }
}

fn ready_popup(p: &mut ShellPopupState)
    ensures
        retry_popup(*old(p), *final(p)),
{
    ready_reports(p);
    p.is_visible = true;
    p.is_expanded = true;
    p.active_shell_command = None;
    p.active_shell_command_output = None;
}

/// The number less `by`, but at least one.
pub open spec fn less_but_one(n: u16, by: int) -> u16 {
    if n - by >= 1 {
        (n - by) as u16
    } else {
        1
    }
}

/// A fresh screen for the terminal's size.
pub open spec fn fresh_runtime(r: ShellRuntimeState, s: ShellRuntimeState, rows: u16, cols: u16)
    -> bool {
    &&& is_fresh_screen(s.screen@, rows, cols, 0)
    &&& s.history_lines@.len() == 0
    &&& s.scroll == r.scroll
}

fn reset_runtime(r: &mut ShellRuntimeState, rows: u16, cols: u16)
    requires
        rows > 0,
        cols > 0,
    ensures
        fresh_runtime(*old(r), *final(r), rows, cols),
{
    r.history_lines.clear();
    r.screen = Terminal::new(rows, cols, 0);
}

/// What stands in the input before the shell is opened.
pub open spec fn dialog_retry(d: DialogApprovalState, call: ToolCall) -> DialogApprovalState {
    DialogApprovalState { is_dialog_open: false, dialog_command: Some(call), ..d }
}

/// The state after the latest command was prepared to be run again.
pub open spec fn retry_prepared(pre: AppState, post: AppState, call: ToolCall) -> bool {
    let size = pre.terminal_ui_state.terminal_size;
    &&& post == (AppState {
        shell_popup_state: post.shell_popup_state,
        shell_runtime_state: post.shell_runtime_state,
        dialog_approval_state: dialog_retry(pre.dialog_approval_state, call),
        ..pre.with_text(post.input_state.text_area)
    })
    &&& retry_popup(pre.shell_popup_state, post.shell_popup_state)
    &&& fresh_runtime(
        pre.shell_runtime_state,
        post.shell_runtime_state,
        less_but_one(size.height, 2),
        less_but_one(size.width, 4),
    )
    &&& post.input_state.text_area@ == crate::shell::in_shell_mode(
        pre.input_state.text_area@,
        true,
    )
}

/// The terminal is to be cleared.
pub open spec fn clear_asked(sent: Outbox, out: Outbox) -> bool {
    sent.inputs(out, |e: InputEvent| e is EmergencyClearTerminal)
}

/// The stream of the model is to be stopped.
pub open spec fn cancel_asked(sent: Outbox, out: Outbox) -> bool {
    sent.affects(out, |e: Effect| e is CancelStream)
}

/// What running the latest command again does: the terminal is cleared and the stream stopped; where
/// the call runs a command, the shell is prepared and the command sent to it.
pub open spec fn retried(pre: AppState, post: AppState, sent: Outbox, out: Outbox) -> bool {
    match pre.tool_call_state.latest_tool_call {
        None => post == pre && out == sent,
        Some(call) => exists|a: Outbox, b: Outbox| #[trigger]
            clear_asked(sent, a) && #[trigger] cancel_asked(a, b) && match call_command(call.function.arguments@) {
                Ok(command) => retry_prepared(pre, post, call) && b.inputs(
                    out,
                    |e: InputEvent|
                        e matches InputEvent::RunShellWithCommand(c) && c@ == command,
                ),
                Err(_) => post == pre && out == b,
            },
    }
}

fn prepare_retry(state: &mut AppState, call: ToolCall)
    ensures
        retry_prepared(*old(state), *final(state), call),
{
    let size: crate::geometry::Size = state.terminal_ui_state.terminal_size;
    let rows: u16 = if size.height >= 3 {
        size.height - 2
    } else {
        1
    };
    let cols: u16 = if size.width >= 5 {
        size.width - 4
    } else {
        1
    };
    ready_popup(&mut state.shell_popup_state);
    reset_runtime(&mut state.shell_runtime_state, rows, cols);
    open_call(&mut state.dialog_approval_state, call);
    state.input_state.text_area.set_shell_mode(true);
}

fn open_call(d: &mut DialogApprovalState, call: ToolCall)
    ensures
        *final(d) == dialog_retry(*old(d), call),
{
    d.is_dialog_open = false;
    d.dialog_command = Some(call);
}

/// Runs the latest command again, in a shell that the user can type into.
pub fn handle_retry_tool_call(state: &mut AppState, out: &mut Outbox)
    ensures
        retried(*old(state), *final(state), *old(out), *final(out)),
{
    let call: ToolCall = match &state.tool_call_state.latest_tool_call {
        Some(c) => c.clone(),
        None => {
            return;
        },
    };
    let _sent: bool = out.send_input(InputEvent::EmergencyClearTerminal);
    let ghost a = *out;
    out.ask(Effect::CancelStream);
    let ghost b = *out;
    assert(clear_asked(*old(out), a) && cancel_asked(a, b));
    match extract_command_from_tool_call(&call) {
        Ok(command) => {
            prepare_retry(state, call);
            let _sent: bool = out.send_input(InputEvent::RunShellWithCommand(command));
        },
        Err(_) => {},
    }
}

/// Takes the last message away before a request is sent again, unless it is the only one.
pub fn handle_retry_mechanism(state: &mut AppState)
    ensures
        last_dropped(*old(state), *final(state)),
{
    let n: usize = state.messages_scrolling_state.messages.len();
    if n >= 2 {
        state.messages_scrolling_state.messages.truncate(n - 1);
        assert(state.messages_scrolling_state.messages@
            =~= old(state).messages_scrolling_state.messages@.drop_last());
    }
}

/// The state without its last message, unless it is the only one.
pub open spec fn last_dropped(pre: AppState, post: AppState) -> bool {
    let m = pre.messages_scrolling_state;
    &&& post == pre.with_messages(
        MessagesScrollingState { messages: post.messages_scrolling_state.messages, ..m },
    )
    &&& post.messages_scrolling_state.messages@ == (if m.messages@.len() >= 2 {
        m.messages@.drop_last()
    } else {
        m.messages@
    })
}

/// The state after a command that waits for input was given to the shell.
pub open spec fn stall_prepared(pre: AppState, post: AppState) -> bool {
    let latest = pre.tool_call_state.latest_tool_call;
    let q = post.shell_popup_state;
    &&& post == (AppState {
        shell_popup_state: q,
        dialog_approval_state: DialogApprovalState {
            is_dialog_open: false,
            dialog_command: if latest is Some {
                latest
            } else {
                pre.dialog_approval_state.dialog_command
            },
            ..pre.dialog_approval_state
        },
        ..pre
    })
    &&& q == (ShellPopupState {
        ondemand_shell_mode: false,
        shell_tool_calls: q.shell_tool_calls,
        ..pre.shell_popup_state
    })
    &&& reports_ready(pre.shell_popup_state, q)
}

/// A command waits for input: it goes on in a shell that the user can type into.
pub fn handle_interactive_stall_detected(state: &mut AppState, command: String, out: &mut Outbox)
    ensures
        stall_prepared(*old(state), *final(state)),
        old(out).inputs(
            *final(out),
            |e: InputEvent| e == InputEvent::RunShellWithCommand(command),
        ),
{
    let latest: Option<ToolCall> = match &state.tool_call_state.latest_tool_call {
        Some(c) => Some(c.clone()),
        None => None,
    };
    match latest {
        Some(call) => {
            open_call(&mut state.dialog_approval_state, call);
        },
        None => {
            state.dialog_approval_state.is_dialog_open = false;
        },
    }
    ready_reports(&mut state.shell_popup_state);
    let _sent: bool = out.send_input(InputEvent::RunShellWithCommand(command));
}

/// What a report of a running tool does in all: where it says that the command waits for input, the
/// command goes on in a shell.
pub open spec fn report_handled(
    pre: AppState,
    post: AppState,
    r: ToolCallProgress,
    sent: Outbox,
    out: Outbox,
) -> bool {
    exists|mid: AppState| #[trigger]
        report_taken(pre, mid, r) && match stalled_command(pre, r) {
            Some(c) => stall_prepared(mid, post) && sent.inputs(
                out,
                |e: InputEvent| e matches InputEvent::RunShellWithCommand(k) && k@ == c,
            ),
            None => post == mid && out == sent,
        }
}

/// Takes over a report of a running tool, and has a command that waits for input go on in a shell.
pub fn handle_report(state: &mut AppState, progress: ToolCallProgress, out: &mut Outbox)
    ensures
        report_handled(*old(state), *final(state), progress, *old(out), *final(out)),
{
    let stalled: Option<String> = handle_stream_tool_result(state, progress);
    let ghost mid = *state;
    assert(report_taken(*old(state), mid, progress));
    match stalled {
        Some(command) => {
            let ghost c = command@;
            handle_interactive_stall_detected(state, command, out);
            assert(old(out).inputs(
                *out,
                |e: InputEvent| e matches InputEvent::RunShellWithCommand(k) && k@ == c,
            ));
        },
        None => {},
    }
}

/// A command that waits for input goes on in a shell, where there is room for the request; a report
/// that says anything else starts none.
pub proof fn law_stalled_command_goes_on(
    pre: AppState,
    post: AppState,
    r: ToolCallProgress,
    sent: Outbox,
    out: Outbox,
)
    requires
        report_handled(pre, post, r, sent, out),
    ensures
        !report_ignored(pre, r.id) && holds_text(r.message@, stall_marker()) ==> sent.inputs(
            out,
            |e: InputEvent|
                e matches InputEvent::RunShellWithCommand(k) && k@ == running_command(pre),
        ) && !post.dialog_approval_state.is_dialog_open,
        report_ignored(pre, r.id) ==> post == pre && out == sent,
        !holds_text(r.message@, stall_marker()) ==> out == sent,
{
    match stalled_command(pre, r) {
        Some(c) => {
            assert((|e: InputEvent| e matches InputEvent::RunShellWithCommand(k) && k@ == c)
                =~= (|e: InputEvent|
                e matches InputEvent::RunShellWithCommand(k) && k@ == running_command(pre)));
        },
        None => {},
    }
}

// ----- the end of a call -----

/// The identifier, or zero where there is none.
pub open spec fn id_or_zero(id: Option<u128>) -> u128 {
    match id {
        Some(k) => k,
        None => 0,
    }
}

/// The tool's state after it is done.
pub open spec fn stream_done(t: ToolCallState, u: ToolCallState) -> bool {
    &&& u == (ToolCallState {
        is_streaming: false,
        completed_tool_calls: u.completed_tool_calls,
        streaming_tool_results: u.streaming_tool_results,
        latest_tool_call: None,
        pending_bash_message_id: None,
        ..t
    })
    &&& u.completed_tool_calls@ == (match t.streaming_tool_result_id {
        Some(id) => t.completed_tool_calls@.insert(id),
        None => t.completed_tool_calls@,
    })
    &&& u.streaming_tool_results@ == Map::<u128, String>::empty()
}

/// The messages without those of a running tool and of a call that waits.
pub open spec fn without_running(messages: Seq<Message>, t: ToolCallState) -> Seq<Message> {
    without(
        without(messages, id_or_zero(t.streaming_tool_result_id)),
        id_or_zero(t.pending_bash_message_id),
    )
}

/// Takes the messages of a running tool and of a call that waits out.
pub fn remove_running(messages: &mut Vec<Message>, t: &ToolCallState)
    ensures
        final(messages)@ == without_running(old(messages)@, *t),
{
    let a: u128 = match t.streaming_tool_result_id {
        Some(k) => k,
        None => 0,
    };
    let b: u128 = match t.pending_bash_message_id {
        Some(k) => k,
        None => 0,
    };
    remove_message(messages, a);
    remove_message(messages, b);
}

fn end_stream(t: &mut ToolCallState)
    ensures
        stream_done(*old(t), *final(t)),
{
    broadcast use vstd::std_specs::hash::group_hash_axioms;

    t.is_streaming = false;
    match t.streaming_tool_result_id {
        Some(id) => {
            let _new: bool = t.completed_tool_calls.insert(id);
        },
        None => {},
    }
    t.streaming_tool_results = HashMap::new();
    t.latest_tool_call = None;
    t.pending_bash_message_id = None;
}

/// The state after the running tool is done: nothing of it is shown any more.
pub open spec fn results_cleared(pre: AppState, post: AppState) -> bool {
    &&& post == (AppState {
        tool_call_state: post.tool_call_state,
        messages_scrolling_state: MessagesScrollingState {
            messages: post.messages_scrolling_state.messages,
            ..pre.messages_scrolling_state
        },
        ..pre
    })
    &&& stream_done(pre.tool_call_state, post.tool_call_state)
    &&& post.messages_scrolling_state.messages@ == without_running(
        pre.messages_scrolling_state.messages@,
        pre.tool_call_state,
    )
}

/// The running tool is done.
pub fn clear_streaming_tool_results(state: &mut AppState)
    ensures
        results_cleared(*old(state), *final(state)),
{
    remove_running(&mut state.messages_scrolling_state.messages, &state.tool_call_state);
    end_stream(&mut state.tool_call_state);
}

/// Once a tool is done, its reports are ignored.
pub proof fn law_done_is_ignored(pre: AppState, post: AppState, id: u128)
    requires
        results_cleared(pre, post),
        pre.tool_call_state.streaming_tool_result_id == Some(id),
    ensures
        report_ignored(post, id),
{
}

/// Where the text is.
pub open spec fn text_at(v: Seq<Seq<char>>, s: Seq<char>, from: int) -> Option<int>
    decreases v.len() - from,
{
    if from < 0 || from >= v.len() {
        None
    } else if v[from] == s {
        Some(from)
    } else {
        text_at(v, s, from + 1)
    }
}

/// The statuses with the same one for each of the identifiers from `from` on.
pub open spec fn skipped_from(
    m: Map<Seq<char>, ToolCallStatus>,
    order: Seq<Seq<char>>,
    from: int,
) -> Map<Seq<char>, ToolCallStatus>
    decreases order.len() - from,
{
    if from < 0 || from >= order.len() {
        m
    } else {
        skipped_from(m.insert(order[from], ToolCallStatus::Skipped), order, from + 1)
    }
}

/// The statuses after a call ended: where it failed, those behind it are skipped.
pub open spec fn after_result(
    m: Map<Seq<char>, ToolCallStatus>,
    order: Seq<Seq<char>>,
    r: ToolCallResult,
) -> Map<Seq<char>, ToolCallStatus> {
    if r.status == ToolCallResultStatus::Error {
        match text_at(order, r.call.id@, 0) {
            Some(i) => skipped_from(m, order, i + 1),
            None => m,
        }
    } else {
        m
    }
}

fn skip_rest(s: &mut SessionToolCallsState, r: &ToolCallResult)
    ensures
        *final(s) == (SessionToolCallsState {
            session_tool_calls_queue: final(s).session_tool_calls_queue,
            ..*old(s)
        }),
        final(s).session_tool_calls_queue@ == after_result(
            old(s).session_tool_calls_queue@,
            texts(old(s).tool_call_execution_order@),
            *r,
        ),
{
    if r.status != ToolCallResultStatus::Error {
        return;
    }
    let ghost order = texts(s.tool_call_execution_order@);
    let ghost before = s.session_tool_calls_queue@;
    let n: usize = s.tool_call_execution_order.len();
    assert(order.len() == n);
    let mut i: usize = 0;
    while i < n && !same_text(s.tool_call_execution_order[i].as_str(), r.call.id.as_str())
        invariant
            i <= n,
            n == s.tool_call_execution_order@.len(),
            order == texts(s.tool_call_execution_order@),
            order.len() == n,
            *s == *old(s),
            text_at(order, r.call.id@, 0) == text_at(order, r.call.id@, i as int),
        ensures
            i <= n,
            *s == *old(s),
            i < n ==> text_at(order, r.call.id@, 0) == Some(i as int),
            i == n ==> text_at(order, r.call.id@, 0) is None,
        decreases n - i,
    {
        i += 1;
    }
    if i >= n {
        return;
    }
    let mut j: usize = i + 1;
    while j < n
        invariant
            i < j <= n,
            n == s.tool_call_execution_order@.len(),
            order == texts(s.tool_call_execution_order@),
            order.len() == n,
            *s == (SessionToolCallsState {
                session_tool_calls_queue: s.session_tool_calls_queue,
                ..*old(s)
            }),
            skipped_from(before, order, i + 1) == skipped_from(
                s.session_tool_calls_queue@,
                order,
                j as int,
            ),
        decreases n - j,
    {
        let id: String = s.tool_call_execution_order[j].clone();
        assert(order[j as int] == id@);
        s.session_tool_calls_queue.insert(id, ToolCallStatus::Skipped);
        j += 1;
    }
}

/// The state after a call ended.
pub open spec fn queue_updated(pre: AppState, post: AppState, r: ToolCallResult) -> bool {
    let q = post.session_tool_calls_state;
    &&& post == (AppState {
        session_tool_calls_state: SessionToolCallsState {
            session_tool_calls_queue: q.session_tool_calls_queue,
            ..pre.session_tool_calls_state
        },
        ..pre
    })
    &&& q.session_tool_calls_queue@ == after_result(
        pre.session_tool_calls_state.session_tool_calls_queue@,
        texts(pre.session_tool_calls_state.tool_call_execution_order@),
        r,
    )
}

/// Where a call failed, the calls behind it are skipped.
pub fn update_session_tool_calls_queue(state: &mut AppState, tool_call_result: &ToolCallResult)
    ensures
        queue_updated(*old(state), *final(state), *tool_call_result),
{
    skip_rest(&mut state.session_tool_calls_state, tool_call_result);
}

/// A call that stands behind the one that failed is skipped; any other keeps its status.
pub proof fn law_skipped(
    m: Map<Seq<char>, ToolCallStatus>,
    order: Seq<Seq<char>>,
    from: int,
    id: Seq<char>,
)
    requires
        0 <= from <= order.len(),
    ensures
        order.skip(from).contains(id) ==> skipped_from(m, order, from).contains_key(id)
            && skipped_from(m, order, from)[id] == ToolCallStatus::Skipped,
        !order.skip(from).contains(id) ==> (skipped_from(m, order, from).contains_key(id)
            <==> m.contains_key(id)) && (m.contains_key(id) ==> skipped_from(m, order, from)[id]
            == m[id]),
    decreases order.len() - from,
{
    let rest = order.skip(from);
    if from < order.len() {
        let next = m.insert(order[from], ToolCallStatus::Skipped);
        law_skipped(next, order, from + 1, id);
        let tail = order.skip(from + 1);
        if rest.contains(id) && order[from] != id {
            let k = choose|k: int| 0 <= k < rest.len() && rest[k] == id;
            assert(tail[k - 1] == id);
        }
        if tail.contains(id) {
            let k = choose|k: int| 0 <= k < tail.len() && tail[k] == id;
            assert(rest[k + 1] == id);
        }
        if order[from] == id {
            assert(rest[0] == id);
        }
    } else if rest.contains(id) {
        let k = choose|k: int| 0 <= k < rest.len() && rest[k] == id;
        assert(false);
    }
}

// ----- the command palette -----

/// What an entry of the command palette does.
#[derive(Debug)]
pub enum PaletteChoice {
    /// A slash command.
    Command(String),
    Profiles,
    Rulebooks,
    Shortcuts,
    Shell,
    Nothing,
}

/// What is to be shown for the entry.
pub open spec fn palette_event(c: PaletteChoice, e: InputEvent) -> bool {
    match c {
        PaletteChoice::Profiles => e is ShowProfileSwitcher,
        PaletteChoice::Rulebooks => e is ShowRulebookSwitcher,
        PaletteChoice::Shortcuts => e is ShowShortcuts,
        PaletteChoice::Shell => e is ShellMode,
        _ => false,
    }
}

/// What choosing an entry does: the palette closes. A slash command is run; any other entry opens
/// what it stands for and leaves an empty input. Without an entry, nothing happens.
pub open spec fn palette_chosen(
    pre: AppState,
    post: AppState,
    choice: Option<PaletteChoice>,
    sent: Outbox,
    out: Outbox,
) -> bool {
    match choice {
        None => post == pre && out == sent,
        Some(c) => {
            let shut = crate::types::CommandPaletteState {
                is_visible: false,
                search: post.command_palette_state.search,
                ..pre.command_palette_state
            };
            &&& post.command_palette_state == shut
            &&& post.command_palette_state.search@.len() == 0
            &&& match c {
                PaletteChoice::Command(id) => {
                    &&& post == (AppState { command_palette_state: shut, ..pre })
                    &&& sent.affects(out, |e: Effect| e == Effect::Command(id))
                },
                _ => {
                    &&& post == (AppState {
                        command_palette_state: shut,
                        input_state: crate::types::InputState {
                            text_area: post.input_state.text_area,
                            show_helper_dropdown: false,
                            ..pre.input_state
                        },
                        ..pre
                    })
                    &&& post.input_state.text_area@ == (crate::textarea::TextAreaView {
                        text: Seq::empty(),
                        cursor: 0,
                        ..pre.input_state.text_area@
                    })
                    &&& if c is Nothing {
                        out == sent
                    } else {
                        sent.inputs(out, |e: InputEvent| palette_event(c, e))
                    }
                },
            }
        },
    }
}

fn shut_palette(p: &mut crate::types::CommandPaletteState)
    ensures
        *final(p) == (crate::types::CommandPaletteState {
            is_visible: false,
            search: final(p).search,
            ..*old(p)
        }),
        final(p).search@.len() == 0,
{
    p.is_visible = false;
    p.search = String::new();
}

fn empty_input(i: &mut crate::types::InputState)
    ensures
        *final(i) == (crate::types::InputState {
            text_area: final(i).text_area,
            show_helper_dropdown: false,
            ..*old(i)
        }),
        final(i).text_area@ == (crate::textarea::TextAreaView {
            text: Seq::empty(),
            cursor: 0,
            ..old(i).text_area@
        }),
{
    crate::app::clear_text(&mut i.text_area);
    i.show_helper_dropdown = false;
}

/// Does what the chosen entry of the command palette stands for.
pub fn execute_command_palette_selection(
    state: &mut AppState,
    choice: Option<PaletteChoice>,
    out: &mut Outbox,
)
    ensures
        palette_chosen(*old(state), *final(state), choice, *old(out), *final(out)),
{
    let c: PaletteChoice = match choice {
        Some(c) => c,
        None => {
            return;
        },
    };
    shut_palette(&mut state.command_palette_state);
    match c {
        PaletteChoice::Command(id) => {
            out.ask(Effect::Command(id));
        },
        other => {
            match other {
                PaletteChoice::Profiles => {
                    let _sent: bool = out.send_input(InputEvent::ShowProfileSwitcher);
                },
                PaletteChoice::Rulebooks => {
                    let _sent: bool = out.send_input(InputEvent::ShowRulebookSwitcher);
                },
                PaletteChoice::Shortcuts => {
                    let _sent: bool = out.send_input(InputEvent::ShowShortcuts);
                },
                PaletteChoice::Shell => {
                    let _sent: bool = out.send_input(InputEvent::ShellMode);
                },
                _ => {},
            }
            empty_input(&mut state.input_state);
        },
    }
}

// ----- what holds of running tools and their calls -----

/// What a running tool reports is kept in full: a report is put behind those before it, on a line of
/// its own, and no other tool's reports change. Reports of a tool that is done, or that was
/// cancelled, change nothing.
pub proof fn law_reports_add_up(pre: AppState, post: AppState, r: ToolCallProgress)
    requires
        report_taken(pre, post, r),
    ensures
        ({
            let before = pre.tool_call_state.streaming_tool_results@;
            let after = post.tool_call_state.streaming_tool_results@;
            let ignored = pre.tool_call_state.completed_tool_calls@.contains(r.id)
                || pre.tool_call_state.cancel_requested;
            &&& ignored ==> post == pre
            &&& !ignored && !holds_text(r.message@, "__INTERACTIVE_STALL__"@) && !r.is_task_wait
                ==> {
                &&& after.contains_key(r.id)
                &&& before.contains_key(r.id) ==> after[r.id]@ == before[r.id]@ + r.message@ + seq![
                    '\n',
                ]
                &&& !before.contains_key(r.id) ==> after[r.id]@ == r.message@ + seq!['\n']
                &&& forall|k: u128|
                    k != r.id ==> {
                        &&& #[trigger] after.contains_key(k) == before.contains_key(k)
                        &&& before.contains_key(k) ==> after[k] == before[k]
                    }
                &&& post.tool_call_state.is_streaming
                &&& post.tool_call_state.streaming_tool_result_id == Some(r.id)
                &&& post.loading_state.is_loading
            }
        }),
{
    if !pre.tool_call_state.streaming_tool_results@.contains_key(r.id) {
        assert(Seq::<char>::empty() + r.message@ + seq!['\n'] =~= r.message@ + seq!['\n']);
    }
}

/// A report takes the place of the tool's message and of the one that waited, and touches no other
/// message of the conversation.
pub proof fn law_report_keeps_the_rest(
    pre: AppState,
    post: AppState,
    r: ToolCallProgress,
    m: Message,
)
    requires
        report_taken(pre, post, r),
        !holds_text(r.message@, "__INTERACTIVE_STALL__"@),
        pre.messages_scrolling_state.messages@.contains(m),
        m.id != r.id,
        pre.tool_call_state.pending_bash_message_id != Some(m.id),
    ensures
        post.messages_scrolling_state.messages@.contains(m),
{
    let a = pre.messages_scrolling_state.messages@;
    let b = post.messages_scrolling_state.messages@;
    if !report_ignored(pre, r.id) {
        match pre.tool_call_state.pending_bash_message_id {
            Some(id) => law_without_keeps_the_others(a, id, m),
            None => {},
        }
        let c = without_opt(a, pre.tool_call_state.pending_bash_message_id);
        law_without_keeps_the_others(c, r.id, m);
        let d = without(c, r.id);
        let k = choose|k: int| 0 <= k < d.len() && d[k] == m;
        assert(b[k] == m);
    }
}

proof fn lemma_text_at(v: Seq<Seq<char>>, s: Seq<char>, from: int)
    requires
        0 <= from,
    ensures
        match text_at(v, s, from) {
            Some(k) => from <= k < v.len() && v[k] == s && forall|j: int|
                from <= j < k ==> #[trigger] v[j] != s,
            None => forall|j: int| from <= j < v.len() ==> #[trigger] v[j] != s,
        },
    decreases v.len() - from,
{
    if from < v.len() && v[from] != s {
        lemma_text_at(v, s, from + 1);
    }
}

/// Where a call fails, every call behind it in the order of execution is skipped, and no other call
/// changes its status; where it does not fail, or is in no order, none does.
pub proof fn law_failure_skips_the_rest(
    pre: AppState,
    post: AppState,
    r: ToolCallResult,
    i: int,
    id: Seq<char>,
)
    requires
        queue_updated(pre, post, r),
    ensures
        ({
            let order = pre.session_tool_calls_state.tool_call_execution_order@;
            let before = pre.session_tool_calls_state.session_tool_calls_queue@;
            let after = post.session_tool_calls_state.session_tool_calls_queue@;
            &&& r.status != ToolCallResultStatus::Error ==> after == before
            &&& (forall|j: int| 0 <= j < order.len() ==> (#[trigger] order[j])@ != r.call.id@)
                ==> after == before
            &&& r.status == ToolCallResultStatus::Error && 0 <= i < order.len() && order[i]@
                == r.call.id@ && (forall|j: int|
                0 <= j < i ==> (#[trigger] order[j])@ != r.call.id@) ==> {
                &&& (exists|j: int| i < j < order.len() && (#[trigger] order[j])@ == id)
                    ==> after.contains_key(id) && after[id] == ToolCallStatus::Skipped
                &&& !(exists|j: int| i < j < order.len() && (#[trigger] order[j])@ == id) ==> {
                    &&& after.contains_key(id) == before.contains_key(id)
                    &&& before.contains_key(id) ==> after[id] == before[id]
                }
            }
        }),
{
    let order = pre.session_tool_calls_state.tool_call_execution_order@;
    let before = pre.session_tool_calls_state.session_tool_calls_queue@;
    let ids = texts(order);
    lemma_text_at(ids, r.call.id@, 0);
    assert(forall|j: int| 0 <= j < order.len() ==> #[trigger] ids[j] == order[j]@);
    match text_at(ids, r.call.id@, 0) {
        Some(k) => {
            law_skipped(before, ids, k + 1, id);
            let rest = ids.skip(k + 1);
            if rest.contains(id) {
                let x = choose|x: int| 0 <= x < rest.len() && rest[x] == id;
                assert(order[k + 1 + x]@ == id);
            }
            if exists|j: int| k < j < order.len() && (#[trigger] order[j])@ == id {
                let j = choose|j: int| k < j < order.len() && (#[trigger] order[j])@ == id;
                assert(rest[j - k - 1] == id);
            }
            assert(order[k]@ == r.call.id@);
            if 0 <= i < order.len() {
                assert(ids[i] == order[i]@);
            }
        },
        None => {
            if 0 <= i < order.len() {
                assert(ids[i] == order[i]@);
            }
        },
    }
}

/// The calls that still have to be decided: of two lists, one behind the other, those of the first
/// and then those of the second; a single call has to be where it needs an approval and was not
/// executed.
pub proof fn law_undecided_calls(
    a: Seq<(ToolCall, bool)>,
    b: Seq<(ToolCall, bool)>,
    call: ToolCall,
    asks: bool,
    queue: Map<Seq<char>, ToolCallStatus>,
)
    ensures
        undecided_calls(a + b, queue) == undecided_calls(a, queue) + undecided_calls(b, queue),
        asks && !(queue.contains_key(call.id@) && queue[call.id@] == ToolCallStatus::Executed)
            ==> undecided_calls(seq![(call, asks)], queue) == seq![call],
        !asks || (queue.contains_key(call.id@) && queue[call.id@] == ToolCallStatus::Executed)
            ==> undecided_calls(seq![(call, asks)], queue).len() == 0,
    decreases b.len(),
{
    let one = seq![(call, asks)];
    assert(one.drop_last() =~= Seq::<(ToolCall, bool)>::empty());
    assert(undecided_calls(Seq::<(ToolCall, bool)>::empty(), queue) =~= Seq::<ToolCall>::empty());
    if b.len() == 0 {
        assert(a + b =~= a);
    } else {
        law_undecided_calls(a, b.drop_last(), call, asks, queue);
        assert((a + b).drop_last() =~= a + b.drop_last());
        assert(undecided_calls(a + b, queue) =~= undecided_calls(a, queue) + undecided_calls(
            b,
            queue,
        ));
    }
}

/// A decision on the selected call touches no other call, and one on all touches all; neither takes
/// a call out or puts one in. Turning the selected call round twice changes nothing.
pub proof fn law_decisions_in_the_bar(
    pre: AppState,
    post: AppState,
    status: ApprovalStatus,
    i: int,
)
    requires
        0 <= i < pre.dialog_approval_state.approval_bar.actions@.len(),
    ensures
        ({
            let b = pre.dialog_approval_state.approval_bar;
            let c = post.dialog_approval_state.approval_bar;
            &&& all_set(pre, post, status) ==> {
                &&& c.actions@.len() == b.actions@.len()
                &&& c.actions@[i].status == status
                &&& c.actions@[i].tool_call == b.actions@[i].tool_call
            }
            &&& selected_set(pre, post, status) ==> {
                &&& c.actions@.len() == b.actions@.len()
                &&& c.actions@[i].tool_call == b.actions@[i].tool_call
                &&& i == b.selected ==> c.actions@[i].status == status
                &&& i != b.selected ==> c.actions@[i] == b.actions@[i]
            }
            &&& selected_toggled(pre, post) ==> {
                &&& c.actions@.len() == b.actions@.len()
                &&& c.actions@[i].tool_call == b.actions@[i].tool_call
                &&& i == b.selected ==> c.actions@[i].status != b.actions@[i].status
                &&& i != b.selected ==> c.actions@[i] == b.actions@[i]
            }
        }),
{
}

/// Once a tool is done, nothing of it is left: no message of it or of the call that waited, no
/// report; the tool counts as done, and so do those before it. The other messages stay.
pub proof fn law_nothing_left_of_a_tool(pre: AppState, post: AppState, m: Message)
    requires
        results_cleared(pre, post),
    ensures
        !post.tool_call_state.is_streaming,
        post.tool_call_state.pending_bash_message_id is None,
        post.tool_call_state.streaming_tool_results@.dom().is_empty(),
        forall|id: u128|
            pre.tool_call_state.completed_tool_calls@.contains(id)
                ==> #[trigger] post.tool_call_state.completed_tool_calls@.contains(id),
        pre.tool_call_state.streaming_tool_result_id matches Some(id)
            ==> post.tool_call_state.completed_tool_calls@.contains(id),
        pre.tool_call_state.streaming_tool_result_id == Some(m.id)
            || pre.tool_call_state.pending_bash_message_id == Some(m.id)
            ==> !post.messages_scrolling_state.messages@.contains(m),
        m.id != 0 && pre.tool_call_state.streaming_tool_result_id != Some(m.id)
            && pre.tool_call_state.pending_bash_message_id != Some(m.id) ==> (
        post.messages_scrolling_state.messages@.contains(m)
            <==> pre.messages_scrolling_state.messages@.contains(m)),
{
    let a = pre.messages_scrolling_state.messages@;
    let x = id_or_zero(pre.tool_call_state.streaming_tool_result_id);
    law_without_keeps_the_others(a, x, m);
    law_without_keeps_the_others(
        without(a, x),
        id_or_zero(pre.tool_call_state.pending_bash_message_id),
        m,
    );
}

/// Running a command again stops the stream and sends the command of the latest call to a shell, as
/// it is; without a call nothing happens.
pub proof fn law_retry_runs_the_command(
    pre: AppState,
    post: AppState,
    sent: Outbox,
    out: Outbox,
    command: Seq<char>,
)
    requires
        retried(pre, post, sent, out),
    ensures
        out.output@ == sent.output@,
        pre.tool_call_state.latest_tool_call is None ==> post == pre && out == sent,
        pre.tool_call_state.latest_tool_call matches Some(call) ==> {
            &&& out.effects@.len() == sent.effects@.len() + 1
            &&& out.effects@.last() is CancelStream
            &&& call_command(call.function.arguments@) == Ok::<Seq<char>, Seq<char>>(command) ==> {
                &&& post.dialog_approval_state.dialog_command == Some(call)
                &&& !post.dialog_approval_state.is_dialog_open
                &&& sent.input@.len() + 1 < sent.input_room ==> {
                    &&& out.input@.len() == sent.input@.len() + 2
                    &&& out.input@.last() matches InputEvent::RunShellWithCommand(c)
                    &&& c@ == command
                }
            }
        },
{
}

/// Without its colons at the start a text ends as it did and starts with something else.
pub proof fn law_without_colons(s: Seq<char>)
    ensures
        ({
            let r = without_colons(s);
            &&& r.len() <= s.len()
            &&& r == s.skip(s.len() - r.len())
            &&& r.len() > 0 ==> r[0] != ':'
            &&& forall|i: int| 0 <= i < s.len() - r.len() ==> #[trigger] s[i] == ':'
        }),
    decreases s.len(),
{
    if s.len() > 0 && s[0] == ':' {
        let t = s.drop_first();
        law_without_colons(t);
        let r = without_colons(s);
        assert(t.skip(t.len() - r.len()) =~= s.skip(s.len() - r.len()));
        assert forall|i: int| 0 <= i < s.len() - r.len() implies #[trigger] s[i] == ':' by {
            if i > 0 {
                assert(t[i - 1] == s[i]);
            }
        }
    } else {
        assert(s.skip(0) =~= s);
    }
}

/// A report on tasks names those that are waited for, in their order, and remembers what is known of
/// those that are paused: the latest of each, and nothing of the others.
pub proof fn law_tasks(tasks: Seq<TaskUpdate>, known: Map<Seq<char>, TaskPauseInfo>, n: int)
    requires
        0 <= n < tasks.len(),
    ensures
        tasks[n].is_target ==> targets(tasks, n + 1) == targets(tasks, n).push(tasks[n].task_id@),
        !tasks[n].is_target ==> targets(tasks, n + 1) == targets(tasks, n),
        targets(tasks, 0).len() == 0,
        tasks[n].pause_info is Some && tasks[n].status@ == "Paused"@ ==> {
            &&& paused(known, tasks, n + 1).contains_key(tasks[n].task_id@)
            &&& paused(known, tasks, n + 1)[tasks[n].task_id@] == tasks[n].pause_info->0
        },
        tasks[n].pause_info is None || tasks[n].status@ != "Paused"@ ==> paused(known, tasks, n + 1)
            == paused(known, tasks, n),
        paused(known, tasks, 0) == known,
{
}

/// A call that waits is shown as what it is: a command with its text and without a result, any other
/// call as it came, and with whether it is approved.
pub proof fn law_pending_shows_the_call(
    c: MessageContent,
    call: ToolCall,
    approved: bool,
    run: RunCommandState,
    known: Map<Seq<char>, TaskPauseInfo>,
)
    requires
        shows_pending(c, call, approved, run, known),
    ensures
        match c {
            MessageContent::RenderRunCommandBlock(_, result, state) => result is None && state
                == run && (call.function.bare_name@ == "run_command"@ || call.function.bare_name@
                == "run_remote_command"@),
            MessageContent::RenderSubagentResumePendingBlock(k, a, _) => k == call && a
                == approved && call.function.bare_name@ == "resume_subagent_task"@,
            MessageContent::RenderPendingBorderBlock(k, a) => k == call && a == approved,
            _ => false,
        },
{
}

/// The entry that is chosen in the palette is the one that is done: a command is run under its name,
/// any other entry opens what it stands for. The palette closes, and without an entry nothing
/// happens.
pub proof fn law_palette_does_what_was_chosen(
    pre: AppState,
    post: AppState,
    choice: Option<PaletteChoice>,
    sent: Outbox,
    out: Outbox,
)
    requires
        palette_chosen(pre, post, choice, sent, out),
    ensures
        out.output@ == sent.output@,
        choice is None ==> post == pre && out == sent,
        choice is Some ==> !post.command_palette_state.is_visible
            && post.command_palette_state.search@.len() == 0,
        choice matches Some(PaletteChoice::Command(id)) ==> out.effects@.len()
            == sent.effects@.len() + 1 && out.effects@.last() == Effect::Command(id),
        choice is Some && !(choice->0 is Command) && !(choice->0 is Nothing) && sent.input@.len()
            < sent.input_room ==> {
            &&& out.input@.len() == sent.input@.len() + 1
            &&& choice->0 is Profiles <==> out.input@.last() is ShowProfileSwitcher
            &&& choice->0 is Rulebooks <==> out.input@.last() is ShowRulebookSwitcher
            &&& choice->0 is Shortcuts <==> out.input@.last() is ShowShortcuts
            &&& choice->0 is Shell <==> out.input@.last() is ShellMode
        },
{
}

/// Selecting a call by its number selects exactly that one, and a number that no call has selects
/// none; the calls and what was decided of them stay.
pub proof fn law_call_is_selected(pre: AppState, post: AppState, index: usize)
    requires
        call_selected(pre, post, index),
    ensures
        ({
            let a = pre.dialog_approval_state.approval_bar;
            let b = post.dialog_approval_state.approval_bar;
            &&& b.actions@ == a.actions@
            &&& 1 <= index <= a.actions@.len() ==> b.selected == index - 1
            &&& !(1 <= index <= a.actions@.len()) ==> b.selected == a.selected
        }),
{
}

/// A report that a command waits for input says what stands behind the marker and its colon, without
/// the white space around it.
pub proof fn law_stall_text(t: Seq<char>)
    requires
        t.len() > 0,
        t[0] != ':',
        forall|i: int|
            !crate::text::occurs_at(seq![':'] + t, "__INTERACTIVE_STALL__"@, i),
    ensures
        stall_text("__INTERACTIVE_STALL__"@ + seq![':'] + t) == trim_of(t),
{
    let p = "__INTERACTIVE_STALL__"@;
    let none = Seq::<char>::empty();
    let rest = seq![':'] + t;
    reveal_strlit("__INTERACTIVE_STALL__");
    assert(p + seq![':'] + t =~= none + p + rest);
    crate::text::law_replaced_first(none, rest, p, none);
    crate::text::law_replaced_nothing(rest, p, none);
    assert(none + none + rest =~= rest);
    assert(rest.drop_first() =~= t);
    assert(without_colons(t) == t);
    assert(without_colons(rest) == without_colons(rest.drop_first()));
}

/// While a call is written, what is known of it is shown in one message, which keeps its place by its
/// identifier; once the calls are there, that message is gone, and the calls that are to be decided
/// are those of the message.
pub proof fn law_preview_of_calls(
    pre: AppState,
    post: AppState,
    infos: Vec<ToolCallStreamInfo>,
    calls: Seq<(ToolCall, bool)>,
)
    ensures
        preview_shown(pre, post, infos) ==> {
            &&& post.messages_scrolling_state.messages@.len() > 0
            &&& post.messages_scrolling_state.messages@.last().content
                == MessageContent::RenderToolCallStreamBlock(infos)
            &&& post.tool_call_state.tool_call_stream_preview_id == Some(
                post.messages_scrolling_state.messages@.last().id,
            )
            &&& pre.tool_call_state.tool_call_stream_preview_id is Some
                ==> post.tool_call_state.tool_call_stream_preview_id
                == pre.tool_call_state.tool_call_stream_preview_id
        },
        calls_taken(pre, post, calls) ==> {
            &&& post.tool_call_state.tool_call_stream_preview_id is None
            &&& !pre.shell_popup_state.is_expanded
                ==> post.session_tool_calls_state.last_message_tool_calls@
                == post.dialog_approval_state.message_tool_calls->0@
        },
{
}

} // verus!
