//! What an event does to the client.

use vstd::prelude::*;
use crate::app::AppState;
use crate::app::is_empty;
use crate::approval_bar::ApprovalStatus;
use crate::collections::TextMap;
use crate::collections::TextSet;
use crate::completion::Directory;
use crate::completion::can_complete;
use crate::completion::can_tab;
use crate::dialog::confirmation_shown;
use crate::dialog::esc_pressed;
use crate::dialog::escaped;
use crate::dialog::focus_toggled;
use crate::dialog::handle_esc;
use crate::dialog::handle_esc_event;
use crate::dialog::handle_show_confirmation_dialog;
use crate::dialog::handle_toggle_dialog_focus;
use crate::events::Effect;
use crate::events::InputEvent;
use crate::events::Outbox;
use crate::events::OutputEvent;
use crate::events::ReviewAction;
use crate::file_changes::handle_file_changes_popup_mouse_click;
use crate::file_changes::popup_clicked;
use crate::geometry::Size;
use crate::helper_block::block_pushed;
use crate::helper_block::error_rows;
use crate::helper_block::push_styled_message;
use crate::helper_block::row_pushed;
use crate::helper_block::tinted;
use crate::images::ClipboardImage;
use crate::images::ImageFile;
use crate::input::Paste;
use crate::input::backspace_event;
use crate::input::char_event;
use crate::input::char_typed;
use crate::input::cursor_moved;
use crate::input::handle_clipboard_image_paste;
use crate::input::handle_cursor_left;
use crate::input::handle_cursor_right;
use crate::input::handle_input_backspace_event;
use crate::input::handle_input_changed;
use crate::input::handle_input_changed_event;
use crate::input::handle_input_cursor_end;
use crate::input::handle_input_cursor_next_word;
use crate::input::handle_input_cursor_prev_word;
use crate::input::handle_input_cursor_start;
use crate::input::handle_input_delete;
use crate::input::handle_input_delete_word;
use crate::input::handle_paste;
use crate::input::image_pasted;
use crate::input::input_cleared;
use crate::input::moved_left;
use crate::input::moved_right;
use crate::input::pasted;
use crate::input::word_deleted;
use crate::layers::Layer;
use crate::layers::in_approval_bar;
use crate::layers::in_ask_user;
use crate::layers::in_file_changes;
use crate::layers::in_message_actions;
use crate::layers::in_model_switcher;
use crate::layers::in_plan_prompt;
use crate::layers::in_plan_review;
use crate::layers::in_shell;
use crate::layers::layer_of;
use crate::layers::passes_switch;
use crate::layers::route;
use crate::layers::take_approval_bar;
use crate::layers::take_ask_user;
use crate::layers::take_file_changes;
use crate::layers::take_message_actions;
use crate::layers::take_model_switcher;
use crate::layers::take_plan_prompt;
use crate::layers::take_plan_review;
use crate::layers::take_shell;
use crate::message::MessageContent;
use crate::misc::assistant_said;
use crate::misc::error_taken;
use crate::misc::handle_assistant_message;
use crate::misc::handle_attempt_quit;
use crate::misc::handle_auto_approve_current_tool;
use crate::misc::handle_billing_info_loaded;
use crate::misc::handle_board_tasks_error;
use crate::misc::handle_board_tasks_loaded;
use crate::misc::handle_ctrl_s;
use crate::misc::handle_end_loading_operation;
use crate::misc::handle_error;
use crate::misc::handle_get_status;
use crate::misc::handle_refresh_board_tasks;
use crate::misc::handle_resized;
use crate::misc::handle_set_banner_message;
use crate::misc::handle_set_sessions;
use crate::misc::handle_start_loading_operation;
use crate::misc::handle_stream_model;
use crate::misc::handle_tab;
use crate::misc::handle_toggle_auto_approve;
use crate::misc::handle_toggle_cursor_visible;
use crate::misc::handle_toggle_mouse_capture;
use crate::misc::loading_ended;
use crate::misc::loading_of;
use crate::misc::quit_attempted;
use crate::misc::sessions_shown;
use crate::misc::tabbed;
use crate::misc::tasks_refreshed;
use crate::misc::terminal_resized;
use crate::model_switcher::customs_ensured;
use crate::model_switcher::handle_available_models_loaded;
use crate::model_switcher::handle_model_switcher_cancel;
use crate::model_switcher::handle_model_switcher_select;
use crate::model_switcher::handle_recent_models_updated;
use crate::model_switcher::handle_show_model_switcher;
use crate::model_switcher::model_chosen;
use crate::model_switcher::models_loaded;
use crate::model_switcher::switcher_closed;
use crate::model_switcher::switcher_shown;
use crate::model_switcher::with_switcher;
use crate::models::Model;
use crate::models::ToolCall;
use crate::models::text_of;
use crate::navigation::Measures;
use crate::navigation::dropdown_down;
use crate::navigation::dropdown_up;
use crate::navigation::handle_down_navigation;
use crate::navigation::handle_dropdown_down;
use crate::navigation::handle_dropdown_up;
use crate::navigation::handle_page_down;
use crate::navigation::handle_page_up;
use crate::navigation::handle_up_navigation;
use crate::navigation::moved;
use crate::navigation::paged_down;
use crate::navigation::paged_up;
use crate::popups::collapsed_toggled;
use crate::popups::file_changes_shown;
use crate::popups::handle_command_palette_search_backspace;
use crate::popups::handle_command_palette_search_input_changed;
use crate::popups::handle_current_rulebooks_loaded;
use crate::popups::handle_profile_switch_complete;
use crate::popups::handle_profile_switch_failed;
use crate::popups::handle_profile_switch_progress;
use crate::popups::handle_profile_switch_requested;
use crate::popups::handle_profile_switcher_cancel;
use crate::popups::handle_profile_switcher_select;
use crate::popups::handle_profiles_loaded;
use crate::popups::handle_rulebook_search_backspace;
use crate::popups::handle_rulebook_search_input_changed;
use crate::popups::handle_rulebook_switcher_cancel;
use crate::popups::handle_rulebook_switcher_confirm;
use crate::popups::handle_rulebook_switcher_deselect_all;
use crate::popups::handle_rulebook_switcher_select;
use crate::popups::handle_rulebook_switcher_select_all;
use crate::popups::handle_rulebook_switcher_toggle;
use crate::popups::handle_rulebooks_loaded;
use crate::popups::handle_shortcuts_cancel;
use crate::popups::handle_show_command_palette;
use crate::popups::handle_show_file_changes_popup;
use crate::popups::handle_show_profile_switcher;
use crate::popups::handle_show_rulebook_switcher;
use crate::popups::handle_show_shortcuts;
use crate::popups::handle_side_panel_mouse_click;
use crate::popups::handle_side_panel_next_section;
use crate::popups::handle_side_panel_toggle_section;
use crate::popups::handle_toggle_collapsed_messages;
use crate::popups::handle_toggle_more_shortcuts;
use crate::popups::handle_toggle_side_panel;
use crate::popups::palette_deleted;
use crate::popups::palette_shown;
use crate::popups::palette_typed;
use crate::popups::panel_clicked;
use crate::popups::panel_toggled;
use crate::popups::profile_chosen;
use crate::popups::profiles_shown;
use crate::popups::rulebook_search_deleted;
use crate::popups::rulebook_search_typed;
use crate::popups::rulebook_toggled;
use crate::popups::rulebooks_confirmed;
use crate::popups::rulebooks_shown;
use crate::popups::rulebooks_taken;
use crate::popups::section_folded;
use crate::popups::section_passed;
use crate::popups::selection_set;
use crate::popups::shortcuts_shown;
use crate::popups::switch_completed;
use crate::popups::switch_failed;
use crate::popups::switch_progressed;
use crate::popups::switch_requested;
use crate::popups::uris;
use crate::popups::with_panel;
use crate::popups::with_profiles;
use crate::popups::with_rulebooks;
use crate::shell::can_show_output;
use crate::shell::can_write;
use crate::shell::command_done;
use crate::shell::command_prepared;
use crate::shell::completed;
use crate::shell::handle_run_shell_command;
use crate::shell::handle_run_shell_with_command;
use crate::shell::handle_shell_clear;
use crate::shell::handle_shell_completed;
use crate::shell::handle_shell_error;
use crate::shell::handle_shell_kill;
use crate::shell::handle_shell_mode;
use crate::shell::handle_shell_output;
use crate::shell::handle_shell_waiting_for_input;
use crate::shell::in_shell_mode;
use crate::shell::kill_asked;
use crate::shell::line_feeds;
use crate::shell::output_taken;
use crate::shell::redraw_screen;
use crate::shell::screen_redrawn;
use crate::shell::shell_cleared;
use crate::shell::shell_gone;
use crate::shell::shell_mode_entered;
use crate::shell::spawn_asked;
use crate::style::Color;
use crate::submit::Submission;
use crate::submit::enter_pressed;
use crate::submit::handle_input_submitted_event;
use crate::submit::handle_input_submitted_with;
use crate::submit::shortcuts_closed;
use crate::submit::submitted_with;
use crate::text::texts;
use crate::text_selection::drag_ended;
use crate::text_selection::drag_started;
use crate::text_selection::dragged;
use crate::text_selection::handle_drag;
use crate::text_selection::handle_drag_end;
use crate::text_selection::handle_drag_start;
use crate::text_selection::handle_scroll_during_selection;
use crate::text_selection::selection_scrolled;
use crate::text_selection::with_interaction;
use crate::tool::all_set;
use crate::tool::bar_emptied;
use crate::tool::call_selected;
use crate::tool::call_shown;
use crate::tool::calls_taken;
use crate::tool::handle_approval_bar_approve_all;
use crate::tool::handle_approval_bar_approve_selected;
use crate::tool::handle_approval_bar_collapse;
use crate::tool::handle_approval_bar_next_action;
use crate::tool::handle_approval_bar_prev_action;
use crate::tool::handle_approval_bar_reject_all;
use crate::tool::handle_approval_bar_reject_selected;
use crate::tool::handle_approval_bar_select_action;
use crate::tool::handle_approval_popup_escape;
use crate::tool::handle_approval_popup_next_tab;
use crate::tool::handle_approval_popup_prev_tab;
use crate::tool::handle_approval_popup_toggle_approval;
use crate::tool::handle_interactive_stall_detected;
use crate::tool::handle_message_tool_calls;
use crate::tool::handle_report;
use crate::tool::handle_retry_tool_call;
use crate::tool::handle_stream_tool_call_progress;
use crate::tool::handle_toggle_approval_status;
use crate::tool::moved_to_start;
use crate::tool::preview_shown;
use crate::tool::report_handled;
use crate::tool::retried;
use crate::tool::selected_set;
use crate::tool::selected_toggled;
use crate::tool::stall_prepared;
use crate::types::BannerState;
use crate::types::DialogApprovalState;
use crate::types::HelperCommand;
use crate::types::InputState;
use crate::types::LoadingOperation;
use crate::types::MessageInteractionState;
use crate::types::ModelSwitcherState;
use crate::types::PlanModeState;
use crate::types::ProfileSwitcherState;
use crate::types::RulebookSwitcherState;
use crate::types::SelectionState;
use crate::types::SessionsState;
use crate::types::ShellPopupState;
use crate::types::SidePanelState;
use crate::types::TaskProgress;
use crate::types::TodoItem;
use crate::user_queue::flush_pending_user_messages_if_idle;
use crate::user_queue::handle_add_user_message;
use crate::user_queue::queue_flushed;
use crate::user_queue::user_message_added;

verus! {

/// What the handling of an event may need to know of the world.
#[derive(Debug)]
pub struct Facts {
    /// The time, in milliseconds.
    pub now: u64,
    /// Whether the backend reports the event.
    pub backend: bool,
    /// How much room the conversation has and takes.
    pub measures: Measures,
    /// The size of the terminal.
    pub size: Size,
    /// The slash commands that fit what is typed.
    pub helpers: Vec<HelperCommand>,
    /// The images that the text names.
    pub known: TextMap<ImageFile>,
    pub submission: Submission,
    pub paste: Paste,
    pub clipboard: Result<ClipboardImage, String>,
    /// The working directory.
    pub directory: Option<Directory>,
    pub cwd: String,
    /// The models that the switcher's search leaves.
    pub models: Vec<usize>,
    /// The order in which they are listed.
    pub model_order: Vec<usize>,
    /// How many tokens a model holds of which only the name is known.
    pub model_limit: u64,
    /// What stands in the error of a request that is too long, and what is shown for it.
    pub limit_error: String,
    pub limit_message: String,
    /// The board that the messages speak of.
    pub board: Option<String>,
    /// The command and the output of the shell, without control sequences.
    pub shell_command: Option<String>,
    pub shell_output: Option<String>,
    /// What the terminal takes for the end of a line.
    pub enter: String,
}

/// Whether the event can be handled: what a shell writes goes onto a screen that takes it, and the tab
/// key searches for no more than can be counted.
pub open spec fn can_take(s: AppState, e: InputEvent, f: Facts) -> bool {
    &&& e is ShellOutput ==> can_write(s)
    &&& e is Tab ==> can_complete(s.input_state, f.directory)
}

impl Facts {
    /// The time and the sizes; nothing else is known.
    pub fn new(now: u64, measures: Measures, size: Size) -> (f: Facts)
        ensures
            f.now == now,
            !f.backend,
            f.measures == measures,
            f.size == size,
            f.helpers@.len() == 0,
            f.known@ == Map::<Seq<char>, ImageFile>::empty(),
            f.submission.area_height == measures.height,
            f.submission.cwd@ == Seq::<char>::empty(),
            f.submission.known@ == Map::<Seq<char>, ImageFile>::empty(),
            f.submission.redacted@ == Seq::<char>::empty(),
            f.submission.image_parts@.len() == 0,
            f.submission.missing@ == Set::<Seq<char>>::empty(),
            f.submission.choice is None,
            f.paste.image is None,
            f.paste.text@ == Seq::<char>::empty(),
            f.paste.direct is None,
            f.paste.extracted@.len() == 0,
            f.paste.named is None,
            f.paste.max_chars == 0,
            f.clipboard is Err,
            f.clipboard->Err_0@ == Seq::<char>::empty(),
            f.directory is None,
            f.cwd@ == Seq::<char>::empty(),
            f.models@.len() == 0,
            f.model_order@.len() == 0,
            f.model_limit == 0,
            f.limit_error@ == Seq::<char>::empty(),
            f.limit_message@ == Seq::<char>::empty(),
            f.board is None,
            f.shell_command is None,
            f.shell_output is None,
            f.enter@ == Seq::<char>::empty(),
    {
        Facts {
            now,
            backend: false,
            submission: Submission {
                area_height: measures.height,
                cwd: String::new(),
                known: TextMap::new(),
                redacted: String::new(),
                image_parts: Vec::new(),
                missing: TextSet::new(),
                choice: None,
            },
            measures,
            size,
            helpers: Vec::new(),
            known: TextMap::new(),
            paste: Paste {
                image: None,
                text: String::new(),
                direct: None,
                extracted: Vec::new(),
                named: None,
                max_chars: 0,
            },
            clipboard: Err(String::new()),
            directory: None,
            cwd: String::new(),
            models: Vec::new(),
            model_order: Vec::new(),
            model_limit: 0,
            limit_error: String::new(),
            limit_message: String::new(),
            board: None,
            shell_command: None,
            shell_output: None,
            enter: String::new(),
        }
    }
}

// ----- typing -----

/// What an event does that types into the input; another event is handed on.
pub open spec fn typing_done(
    pre: AppState,
    post: AppState,
    e: InputEvent,
    f: Facts,
    sent: Outbox,
    out: Outbox,
) -> bool {
    match e {
        InputEvent::InputChanged(c) => char_event(
            pre,
            post,
            c,
            f.helpers@,
            f.known@,
            sent,
            out,
        ),
        InputEvent::InputBackspace(t) => backspace_event(pre, post, t, sent, out),
        InputEvent::InputChangedNewline => char_typed(
            pre,
            post,
            '\n',
            f.helpers@,
            f.known@,
            sent,
            out,
        ),
        InputEvent::InputSubmitted => enter_pressed(pre, post, f.submission, sent, out),
        InputEvent::InputSubmittedWith(s) => submitted_with(
            pre,
            post,
            s,
            None,
            f.measures.height,
        ) && out == sent,
        InputEvent::InputSubmittedWithColor(s, c) => submitted_with(
            pre,
            post,
            s,
            Some(c),
            f.measures.height,
        ) && out == sent,
        InputEvent::HandlePaste(_) => pasted(pre, post, f.paste) && out == sent,
        InputEvent::HandleClipboardImagePaste => image_pasted(pre, post, f.clipboard) && out
            == sent,
        InputEvent::InputDelete => input_cleared(pre, post) && out == sent,
        InputEvent::InputDeleteWord(t) => word_deleted(pre, post, t, sent, out),
        InputEvent::InputCursorStart(at)
        | InputEvent::InputCursorEnd(at)
        | InputEvent::InputCursorPrevWord(at)
        | InputEvent::InputCursorNextWord(at) => cursor_moved(pre, post, at) && out == sent,
        InputEvent::CursorLeft(at) => moved_left(pre, post, at) && out == sent,
        InputEvent::CursorRight(at) => moved_right(pre, post, at) && out == sent,
        _ => moving_done(pre, post, e, f, sent, out),
    }
}

fn do_typing(state: &mut AppState, event: InputEvent, f: Facts, out: &mut Outbox)
    requires
        can_take(*old(state), event, f),
    ensures
        typing_done(*old(state), *final(state), event, f, *old(out), *final(out)),
{
    match event {
        InputEvent::InputChanged(c) => {
            handle_input_changed_event(state, c, f.helpers, &f.known, out);
        },
        InputEvent::InputBackspace(t) => {
            handle_input_backspace_event(state, &t, out);
        },
        InputEvent::InputChangedNewline => {
            handle_input_changed(state, '\n', f.helpers, &f.known, out);
        },
        InputEvent::InputSubmitted => {
            handle_input_submitted_event(state, f.submission, out);
        },
        InputEvent::InputSubmittedWith(s) => {
            handle_input_submitted_with(state, s, None, f.measures.height);
        },
        InputEvent::InputSubmittedWithColor(s, c) => {
            handle_input_submitted_with(state, s, Some(c), f.measures.height);
        },
        InputEvent::HandlePaste(_) => {
            let _done: bool = handle_paste(state, f.paste);
        },
        InputEvent::HandleClipboardImagePaste => {
            handle_clipboard_image_paste(state, f.clipboard);
        },
        InputEvent::InputDelete => {
            handle_input_delete(state);
        },
        InputEvent::InputDeleteWord(t) => {
            handle_input_delete_word(state, &t, out);
        },
        InputEvent::InputCursorStart(at) => {
            handle_input_cursor_start(state, at);
        },
        InputEvent::InputCursorEnd(at) => {
            handle_input_cursor_end(state, at);
        },
        InputEvent::InputCursorPrevWord(at) => {
            handle_input_cursor_prev_word(state, at);
        },
        InputEvent::InputCursorNextWord(at) => {
            handle_input_cursor_next_word(state, at);
        },
        InputEvent::CursorLeft(at) => {
            handle_cursor_left(state, at);
        },
        InputEvent::CursorRight(at) => {
            handle_cursor_right(state, at);
        },
        other => {
            do_moving(state, other, f, out);
        },
    }
}

// ----- moving -----

/// The state after the view was scrolled by the wheel: what is being selected grows with it.
pub open spec fn wheeled(s: AppState, f: Measures, up: bool) -> AppState {
    let mid = moved(s, f, up);
    let direction = (if up {
        0 - 1
    } else {
        1
    }) as i32;
    if mid.message_interaction_state.selection.active {
        with_interaction(mid, selection_scrolled(mid, direction))
    } else {
        mid
    }
}

/// What an event does that moves a selection or the view; another event is handed on.
pub open spec fn moving_done(
    pre: AppState,
    post: AppState,
    e: InputEvent,
    f: Facts,
    sent: Outbox,
    out: Outbox,
) -> bool {
    let m = pre.messages_scrolling_state;
    match e {
        InputEvent::Up => post == moved(pre, f.measures, true) && out == sent,
        InputEvent::Down => post == moved(pre, f.measures, false) && out == sent,
        InputEvent::ScrollUp => post == wheeled(pre, f.measures, true) && out == sent,
        InputEvent::ScrollDown => post == wheeled(pre, f.measures, false) && out == sent,
        InputEvent::PageUp => post == pre.with_messages(paged_up(m, f.measures.height)) && out
            == sent,
        InputEvent::PageDown => post == pre.with_messages(paged_down(m, f.measures)) && out
            == sent,
        InputEvent::DropdownUp => post == pre.with_input(dropdown_up(pre.input_state)) && out
            == sent,
        InputEvent::DropdownDown => post == pre.with_input(dropdown_down(pre.input_state)) && out
            == sent,
        InputEvent::Tab => tabbed(pre, post, f.directory, f.now, f.measures) && out == sent,
        _ => calls_done(pre, post, e, f, sent, out),
    }
}

fn do_moving(state: &mut AppState, event: InputEvent, f: Facts, out: &mut Outbox)
    requires
        can_take(*old(state), event, f),
    ensures
        moving_done(*old(state), *final(state), event, f, *old(out), *final(out)),
{
    match event {
        InputEvent::Up => {
            handle_up_navigation(state, &f.measures);
        },
        InputEvent::Down => {
            handle_down_navigation(state, &f.measures);
        },
        InputEvent::ScrollUp => {
            handle_up_navigation(state, &f.measures);
            if state.message_interaction_state.selection.active {
                handle_scroll_during_selection(state, -1);
            }
        },
        InputEvent::ScrollDown => {
            handle_down_navigation(state, &f.measures);
            if state.message_interaction_state.selection.active {
                handle_scroll_during_selection(state, 1);
            }
        },
        InputEvent::PageUp => {
            handle_page_up(&mut state.messages_scrolling_state, f.measures.height);
        },
        InputEvent::PageDown => {
            handle_page_down(&mut state.messages_scrolling_state, &f.measures);
        },
        InputEvent::DropdownUp => {
            handle_dropdown_up(state);
        },
        InputEvent::DropdownDown => {
            handle_dropdown_down(state);
        },
        InputEvent::Tab => {
            handle_tab(state, f.directory, f.now, &f.measures);
        },
        other => {
            do_calls(state, other, f, out);
        },
    }
}

// ----- tool calls -----

/// What an event does that is about tool calls; another event is handed on.
pub open spec fn calls_done(
    pre: AppState,
    post: AppState,
    e: InputEvent,
    f: Facts,
    sent: Outbox,
    out: Outbox,
) -> bool {
    let bar = pre.dialog_approval_state.approval_bar;
    match e {
        InputEvent::HandleEsc => esc_pressed(pre, post, sent, out),
        InputEvent::HandleReject(message, stop, color) => escaped(
            pre,
            post,
            text_of(message),
            stop,
            color,
            sent,
            out,
        ),
        InputEvent::ShowConfirmationDialog(call, auto) => confirmation_shown(
            pre,
            post,
            call,
            auto,
            sent,
            out,
        ),
        InputEvent::ToggleDialogFocus => focus_toggled(pre, post) && out == sent,
        InputEvent::StreamToolResult(progress) => report_handled(pre, post, progress, sent, out),
        InputEvent::MessageToolCalls(calls) => calls_taken(pre, post, calls@) && out == sent,
        InputEvent::StreamToolCallProgress(infos) => preview_shown(pre, post, infos) && out
            == sent,
        InputEvent::RetryLastToolCall => retried(pre, post, sent, out),
        InputEvent::InteractiveStallDetected(command) => stall_prepared(pre, post) && sent.inputs(
            out,
            |o: InputEvent| o == InputEvent::RunShellWithCommand(command),
        ),
        InputEvent::ToggleApprovalStatus
        | InputEvent::ApprovalPopupToggleApproval => selected_toggled(pre, post) && out == sent,
        InputEvent::ApprovalPopupNextTab => post == moved_to_start(pre, bar.next_index()) && out
            == sent,
        InputEvent::ApprovalPopupPrevTab => post == moved_to_start(pre, bar.prev_index()) && out
            == sent,
        InputEvent::ApprovalPopupEscape
        | InputEvent::ApprovalBarCollapse => bar_emptied(pre, post) && out == sent,
        InputEvent::ApprovalBarApproveAll => all_set(pre, post, ApprovalStatus::Approved) && out
            == sent,
        InputEvent::ApprovalBarRejectAll => all_set(pre, post, ApprovalStatus::Rejected) && out
            == sent,
        InputEvent::ApprovalBarSelectAction(index) => call_selected(pre, post, index) && out
            == sent,
        InputEvent::ApprovalBarApproveSelected => selected_set(
            pre,
            post,
            ApprovalStatus::Approved,
        ) && out == sent,
        InputEvent::ApprovalBarRejectSelected => selected_set(
            pre,
            post,
            ApprovalStatus::Rejected,
        ) && out == sent,
        InputEvent::ApprovalBarNextAction => call_shown(pre, post, bar.next_index()) && out
            == sent,
        InputEvent::ApprovalBarPrevAction => call_shown(pre, post, bar.prev_index()) && out
            == sent,
        _ => shell_done(pre, post, e, f, sent, out),
    }
}

fn do_calls(state: &mut AppState, event: InputEvent, f: Facts, out: &mut Outbox)
    requires
        can_take(*old(state), event, f),
    ensures
        calls_done(*old(state), *final(state), event, f, *old(out), *final(out)),
{
    match event {
        InputEvent::HandleEsc => {
            handle_esc_event(state, out);
        },
        InputEvent::HandleReject(message, stop, color) => {
            handle_esc(state, message, stop, color, out);
        },
        InputEvent::ShowConfirmationDialog(call, auto) => {
            handle_show_confirmation_dialog(state, call, auto, out);
        },
        InputEvent::ToggleDialogFocus => {
            handle_toggle_dialog_focus(state);
        },
        InputEvent::StreamToolResult(progress) => {
            handle_report(state, progress, out);
        },
        InputEvent::MessageToolCalls(calls) => {
            handle_message_tool_calls(state, calls);
        },
        InputEvent::StreamToolCallProgress(infos) => {
            handle_stream_tool_call_progress(state, infos);
        },
        InputEvent::RetryLastToolCall => {
            handle_retry_tool_call(state, out);
        },
        InputEvent::InteractiveStallDetected(command) => {
            handle_interactive_stall_detected(state, command, out);
        },
        InputEvent::ToggleApprovalStatus => {
            handle_toggle_approval_status(state);
        },
        InputEvent::ApprovalPopupNextTab => {
            handle_approval_popup_next_tab(state);
        },
        InputEvent::ApprovalPopupPrevTab => {
            handle_approval_popup_prev_tab(state);
        },
        InputEvent::ApprovalPopupToggleApproval => {
            handle_approval_popup_toggle_approval(state);
        },
        InputEvent::ApprovalPopupEscape => {
            handle_approval_popup_escape(state);
        },
        InputEvent::ApprovalBarApproveAll => {
            handle_approval_bar_approve_all(state);
        },
        InputEvent::ApprovalBarRejectAll => {
            handle_approval_bar_reject_all(state);
        },
        InputEvent::ApprovalBarSelectAction(index) => {
            handle_approval_bar_select_action(state, index);
        },
        InputEvent::ApprovalBarApproveSelected => {
            handle_approval_bar_approve_selected(state);
        },
        InputEvent::ApprovalBarRejectSelected => {
            handle_approval_bar_reject_selected(state);
        },
        InputEvent::ApprovalBarNextAction => {
            handle_approval_bar_next_action(state);
        },
        InputEvent::ApprovalBarPrevAction => {
            handle_approval_bar_prev_action(state);
        },
        InputEvent::ApprovalBarCollapse => {
            handle_approval_bar_collapse(state);
        },
        other => {
            do_shell(state, other, f, out);
        },
    }
}

// ----- the shell -----

/// A program is to be run in a terminal of its own.
pub open spec fn program_asked(s: AppState, command: String, sent: Outbox, out: Outbox) -> bool {
    sent.affects(
        out,
        |o: Effect|
            o matches Effect::SpawnShell(c, t) && c == command && text_of(t) == (
            if s.shell_popup_state.is_tool_call_shell_command {
                text_of(s.shell_popup_state.pending_command_value)
            } else {
                None
            }),
    )
}

/// The state in which the shell waits for input.
pub open spec fn shell_waits(pre: AppState, post: AppState) -> bool {
    &&& post == (AppState {
        shell_popup_state: ShellPopupState {
            waiting_for_shell_input: true,
            ..pre.shell_popup_state
        },
        ..pre.with_text(post.input_state.text_area)
    })
    &&& post.input_state.text_area@ == in_shell_mode(pre.input_state.text_area@, true)
}

/// What an event does that is about the shell; another event is handed on. A command that is done
/// says so.
pub open spec fn shell_done(
    pre: AppState,
    post: AppState,
    e: InputEvent,
    f: Facts,
    sent: Outbox,
    out: Outbox,
) -> bool {
    match e {
        InputEvent::RunShellCommand(command) => post == pre && program_asked(
            pre,
            command,
            sent,
            out,
        ),
        InputEvent::RunShellWithCommand(command) => command_prepared(pre, post, command@)
            && spawn_asked(sent, out, command@),
        InputEvent::ShellMode => shell_mode_entered(pre, post, sent, out),
        InputEvent::ShellOutput(data, log) => output_taken(pre, post, data@, log)
            && if command_done(pre, data@) {
            sent.inputs(out, |o: InputEvent| o == InputEvent::ShellCompleted(0))
        } else {
            out == sent
        },
        InputEvent::ShellError(line) => block_pushed(
            pre,
            post,
            error_rows(line_feeds(line@), false),
        ) && out == sent,
        InputEvent::ShellWaitingForInput => shell_waits(pre, post) && out == sent,
        InputEvent::ShellCompleted(_) => completed(
            pre,
            post,
            text_of(f.shell_command),
            text_of(f.shell_output),
            sent,
            out,
        ),
        InputEvent::ShellClear => shell_cleared(pre, post) && out == sent,
        InputEvent::ShellKill => shell_gone(pre, post) && kill_asked(pre, sent, out),
        _ => profiles_done(pre, post, e, f, sent, out),
    }
}

fn do_shell(state: &mut AppState, event: InputEvent, f: Facts, out: &mut Outbox)
    requires
        can_take(*old(state), event, f),
    ensures
        shell_done(*old(state), *final(state), event, f, *old(out), *final(out)),
{
    match event {
        InputEvent::RunShellCommand(command) => {
            handle_run_shell_command(state, command, out);
        },
        InputEvent::RunShellWithCommand(command) => {
            handle_run_shell_with_command(state, command, out);
        },
        InputEvent::ShellMode => {
            handle_shell_mode(state, out);
        },
        InputEvent::ShellOutput(data, log) => {
            let done: bool = handle_shell_output(state, data, log);
            if done {
                let _sent: bool = out.send_input(InputEvent::ShellCompleted(0));
            }
        },
        InputEvent::ShellError(line) => {
            handle_shell_error(state, line);
        },
        InputEvent::ShellWaitingForInput => {
            handle_shell_waiting_for_input(state);
        },
        InputEvent::ShellCompleted(_) => {
            handle_shell_completed(state, f.shell_command, f.shell_output, out);
        },
        InputEvent::ShellClear => {
            handle_shell_clear(state);
        },
        InputEvent::ShellKill => {
            handle_shell_kill(state, out);
        },
        other => {
            do_profiles(state, other, f, out);
        },
    }
}

// ----- profiles and rulebooks -----

/// What an event does that is about profiles or rulebooks; another event is handed on.
pub open spec fn profiles_done(
    pre: AppState,
    post: AppState,
    e: InputEvent,
    f: Facts,
    sent: Outbox,
    out: Outbox,
) -> bool {
    let p = pre.profile_switcher_state;
    let r = pre.rulebook_switcher_state;
    match e {
        InputEvent::ShowProfileSwitcher => post == profiles_shown(pre) && out == sent,
        InputEvent::ProfileSwitcherSelect => profile_chosen(pre, post, sent, out),
        InputEvent::ProfileSwitcherCancel => post == with_profiles(
            pre,
            ProfileSwitcherState { show_profile_switcher: false, ..p },
        ) && out == sent,
        InputEvent::ProfilesLoaded(profiles, _) => post == with_profiles(
            pre,
            ProfileSwitcherState { available_profiles: profiles, ..p },
        ) && out == sent,
        InputEvent::ProfileSwitchRequested(profile) => switch_requested(pre, post, profile@) && out
            == sent,
        InputEvent::ProfileSwitchProgress(message) => switch_progressed(pre, post, message) && out
            == sent,
        InputEvent::ProfileSwitchComplete(profile) => switch_completed(
            pre,
            post,
            profile,
            f.cwd@,
        ) && out == sent,
        InputEvent::ProfileSwitchFailed(error) => switch_failed(pre, post, error@) && out == sent,
        InputEvent::ShowRulebookSwitcher => rulebooks_shown(pre, post, sent, out),
        InputEvent::RulebookSwitcherSelect | InputEvent::RulebookSwitcherToggle => {
            &&& post == with_rulebooks(pre, post.rulebook_switcher_state)
            &&& rulebook_toggled(r, post.rulebook_switcher_state)
            &&& out == sent
        },
        InputEvent::RulebookSwitcherCancel => post == with_rulebooks(
            pre,
            RulebookSwitcherState { show_rulebook_switcher: false, ..r },
        ) && out == sent,
        InputEvent::RulebookSwitcherConfirm => rulebooks_confirmed(pre, post, sent, out),
        InputEvent::RulebookSwitcherSelectAll => {
            &&& if r.show_rulebook_switcher {
                selection_set(pre, post, uris(r.filtered_rulebooks@).to_set())
            } else {
                post == pre
            }
            &&& out == sent
        },
        InputEvent::RulebookSwitcherDeselectAll => {
            &&& if r.show_rulebook_switcher {
                selection_set(pre, post, Set::empty())
            } else {
                post == pre
            }
            &&& out == sent
        },
        InputEvent::RulebookSearchInputChanged(c) => rulebook_search_typed(pre, post, c) && out
            == sent,
        InputEvent::RulebookSearchBackspace => rulebook_search_deleted(pre, post) && out == sent,
        InputEvent::RulebooksLoaded(rulebooks) => rulebooks_taken(pre, post, rulebooks) && out
            == sent,
        InputEvent::CurrentRulebooksLoaded(v) => selection_set(pre, post, texts(v@).to_set())
            && out == sent,
        _ => panels_done(pre, post, e, f, sent, out),
    }
}

fn do_profiles(state: &mut AppState, event: InputEvent, f: Facts, out: &mut Outbox)
    ensures
        profiles_done(*old(state), *final(state), event, f, *old(out), *final(out)),
{
    match event {
        InputEvent::ShowProfileSwitcher => {
            handle_show_profile_switcher(state);
        },
        InputEvent::ProfileSwitcherSelect => {
            handle_profile_switcher_select(state, out);
        },
        InputEvent::ProfileSwitcherCancel => {
            handle_profile_switcher_cancel(state);
        },
        InputEvent::ProfilesLoaded(profiles, current) => {
            handle_profiles_loaded(state, profiles, current);
        },
        InputEvent::ProfileSwitchRequested(profile) => {
            handle_profile_switch_requested(state, profile);
        },
        InputEvent::ProfileSwitchProgress(message) => {
            handle_profile_switch_progress(state, message);
        },
        InputEvent::ProfileSwitchComplete(profile) => {
            handle_profile_switch_complete(state, profile, f.cwd.as_str());
        },
        InputEvent::ProfileSwitchFailed(error) => {
            handle_profile_switch_failed(state, error);
        },
        InputEvent::ShowRulebookSwitcher => {
            handle_show_rulebook_switcher(state, out);
        },
        InputEvent::RulebookSwitcherSelect => {
            handle_rulebook_switcher_select(state);
        },
        InputEvent::RulebookSwitcherToggle => {
            handle_rulebook_switcher_toggle(state);
        },
        InputEvent::RulebookSwitcherCancel => {
            handle_rulebook_switcher_cancel(state);
        },
        InputEvent::RulebookSwitcherConfirm => {
            handle_rulebook_switcher_confirm(state, out);
        },
        InputEvent::RulebookSwitcherSelectAll => {
            handle_rulebook_switcher_select_all(state);
        },
        InputEvent::RulebookSwitcherDeselectAll => {
            handle_rulebook_switcher_deselect_all(state);
        },
        InputEvent::RulebookSearchInputChanged(c) => {
            handle_rulebook_search_input_changed(state, c);
        },
        InputEvent::RulebookSearchBackspace => {
            handle_rulebook_search_backspace(state);
        },
        InputEvent::RulebooksLoaded(rulebooks) => {
            handle_rulebooks_loaded(state, rulebooks);
        },
        InputEvent::CurrentRulebooksLoaded(v) => {
            handle_current_rulebooks_loaded(state, v);
        },
        other => {
            do_panels(state, other, f, out);
        },
    }
}

// ----- the palette, models and the side panel -----

/// The state after the collapsed messages were shown or hidden.
pub open spec fn collapsed_shown(s: AppState, f: Measures) -> AppState {
    AppState {
        message_interaction_state: MessageInteractionState {
            selection: SelectionState::none(),
            ..s.message_interaction_state
        },
        messages_scrolling_state: collapsed_toggled(s.messages_scrolling_state, f),
        ..s
    }
}

/// What an event does that is about the palette, the models or the side panel; another event is
/// handed on.
pub open spec fn panels_done(
    pre: AppState,
    post: AppState,
    e: InputEvent,
    f: Facts,
    sent: Outbox,
    out: Outbox,
) -> bool {
    let m = pre.model_switcher_state;
    let d = pre.dialog_approval_state;
    let p = pre.side_panel_state;
    match e {
        InputEvent::ShowCommandPalette => palette_shown(pre, post) && out == sent,
        InputEvent::CommandPaletteSearchInputChanged(c) => palette_typed(pre, post, c) && out
            == sent,
        InputEvent::CommandPaletteSearchBackspace => palette_deleted(pre, post) && out == sent,
        InputEvent::ShowShortcuts => post == shortcuts_shown(pre) && out == sent,
        InputEvent::ShortcutsCancel => post == shortcuts_closed(pre) && out == sent,
        InputEvent::ToggleCollapsedMessages => post == collapsed_shown(pre, f.measures) && out
            == sent,
        InputEvent::ShowFileChangesPopup => file_changes_shown(pre, post) && out == sent,
        InputEvent::ToggleMoreShortcuts => post == (AppState {
            dialog_approval_state: DialogApprovalState { show_shortcuts: !d.show_shortcuts, ..d },
            ..pre
        }) && out == sent,
        InputEvent::ShowModelSwitcher => switcher_shown(pre, post, sent, out),
        InputEvent::AvailableModelsLoaded(models) => models_loaded(
            pre,
            post,
            models@,
            f.model_limit,
            sent,
            out,
        ),
        InputEvent::ModelSwitcherSelect => model_chosen(pre, post, f.models@, sent, out),
        InputEvent::ModelSwitcherCancel => {
            &&& post == with_switcher(pre, post.model_switcher_state)
            &&& switcher_closed(m, post.model_switcher_state, m.current_model)
            &&& out == sent
        },
        InputEvent::RecentModelsUpdated(recent) => customs_ensured(
            with_switcher(pre, ModelSwitcherState { recent_models: recent, ..m }),
            post,
            f.model_limit,
        ) && out == sent,
        InputEvent::ToggleSidePanel => panel_toggled(pre, post, sent, out),
        InputEvent::SidePanelNextSection => post == section_passed(pre) && out == sent,
        InputEvent::SidePanelToggleSection => post == (if p.is_shown {
            with_panel(pre, section_folded(p, p.focused_section))
        } else {
            pre
        }) && out == sent,
        InputEvent::SetSessionId(id) => post == with_panel(
            pre,
            SidePanelState { session_id: id, ..p },
        ) && out == sent,
        _ => mouse_done(pre, post, e, f, sent, out),
    }
}

fn do_panels(state: &mut AppState, event: InputEvent, f: Facts, out: &mut Outbox)
    ensures
        panels_done(*old(state), *final(state), event, f, *old(out), *final(out)),
{
    match event {
        InputEvent::ShowCommandPalette => {
            handle_show_command_palette(state);
        },
        InputEvent::CommandPaletteSearchInputChanged(c) => {
            handle_command_palette_search_input_changed(state, c);
        },
        InputEvent::CommandPaletteSearchBackspace => {
            handle_command_palette_search_backspace(state);
        },
        InputEvent::ShowShortcuts => {
            handle_show_shortcuts(state);
        },
        InputEvent::ShortcutsCancel => {
            handle_shortcuts_cancel(state);
        },
        InputEvent::ToggleCollapsedMessages => {
            handle_toggle_collapsed_messages(state, &f.measures);
        },
        InputEvent::ShowFileChangesPopup => {
            handle_show_file_changes_popup(state);
        },
        InputEvent::ToggleMoreShortcuts => {
            handle_toggle_more_shortcuts(state);
        },
        InputEvent::ShowModelSwitcher => {
            handle_show_model_switcher(state, out);
        },
        InputEvent::AvailableModelsLoaded(models) => {
            handle_available_models_loaded(state, &models, f.model_limit, out);
        },
        InputEvent::ModelSwitcherSelect => {
            handle_model_switcher_select(state, &f.models, out);
        },
        InputEvent::ModelSwitcherCancel => {
            handle_model_switcher_cancel(state);
        },
        InputEvent::RecentModelsUpdated(recent) => {
            handle_recent_models_updated(state, recent, f.model_limit);
        },
        InputEvent::ToggleSidePanel => {
            handle_toggle_side_panel(state, out);
        },
        InputEvent::SidePanelNextSection => {
            handle_side_panel_next_section(state);
        },
        InputEvent::SidePanelToggleSection => {
            handle_side_panel_toggle_section(state);
        },
        InputEvent::SetSessionId(id) => {
            state.side_panel_state.session_id = id;
        },
        other => {
            do_mouse(state, other, f, out);
        },
    }
}

// ----- the mouse -----

/// The banner is to heed a click.
pub open spec fn banner_told(sent: Outbox, out: Outbox, col: u16, row: u16) -> bool {
    sent.affects(out, |o: Effect| o == Effect::ClickBanner(col, row))
}

/// What a press of the mouse does behind the banner: among the collapsed messages it starts to
/// select, in the popup with the changed files it opens one, else it reaches the side panel and
/// starts to select.
pub open spec fn pressed(
    pre: AppState,
    post: AppState,
    col: u16,
    row: u16,
    size: Size,
    sent: Outbox,
    out: Outbox,
) -> bool {
    if pre.messages_scrolling_state.show_collapsed_messages {
        drag_started(pre, post, col, row, sent, out)
    } else if pre.file_changes_popup_state.is_visible {
        popup_clicked(pre, post, size.width, size.height, col, row) && out == sent
    } else {
        exists|mid: AppState| #[trigger]
            panel_clicked(pre, mid, col, row) && drag_started(mid, post, col, row, sent, out)
    }
}

fn press(state: &mut AppState, col: u16, row: u16, size: Size, out: &mut Outbox)
    ensures
        pressed(*old(state), *final(state), col, row, size, *old(out), *final(out)),
{
    if state.messages_scrolling_state.show_collapsed_messages {
        handle_drag_start(state, col, row, out);
    } else if state.file_changes_popup_state.is_visible {
        handle_file_changes_popup_mouse_click(state, size.width, size.height, col, row);
    } else {
        handle_side_panel_mouse_click(state, col, row);
        assert(panel_clicked(*old(state), *state, col, row));
        handle_drag_start(state, col, row, out);
    }
}

/// What a press of the mouse does: the banner heeds it, and so does what lies behind the banner.
pub open spec fn clicked(
    pre: AppState,
    post: AppState,
    col: u16,
    row: u16,
    size: Size,
    sent: Outbox,
    out: Outbox,
) -> bool {
    exists|mid: Outbox| #[trigger]
        banner_told(sent, mid, col, row) && pressed(pre, post, col, row, size, mid, out)
}

fn click(state: &mut AppState, col: u16, row: u16, size: Size, out: &mut Outbox)
    ensures
        clicked(*old(state), *final(state), col, row, size, *old(out), *final(out)),
{
    out.ask(Effect::ClickBanner(col, row));
    assert(banner_told(*old(out), *out, col, row));
    press(state, col, row, size, out);
}

/// What an event of the mouse does; another event is handed on.
pub open spec fn mouse_done(
    pre: AppState,
    post: AppState,
    e: InputEvent,
    f: Facts,
    sent: Outbox,
    out: Outbox,
) -> bool {
    match e {
        InputEvent::MouseClick(col, row) | InputEvent::MouseDragStart(col, row) => clicked(
            pre,
            post,
            col,
            row,
            f.size,
            sent,
            out,
        ),
        InputEvent::MouseDrag(col, row) => dragged(pre, post, col, row, sent, out),
        InputEvent::MouseDragEnd(col, row) => drag_ended(pre, post, col, row, sent, out),
        InputEvent::MouseMove(_, row) => post == with_interaction(
            pre,
            MessageInteractionState { hover_row: Some(row), ..pre.message_interaction_state },
        ) && out == sent,
        _ => plans_done(pre, post, e, f, sent, out),
    }
}

fn do_mouse(state: &mut AppState, event: InputEvent, f: Facts, out: &mut Outbox)
    ensures
        mouse_done(*old(state), *final(state), event, f, *old(out), *final(out)),
{
    match event {
        InputEvent::MouseClick(col, row) | InputEvent::MouseDragStart(col, row) => {
            click(state, col, row, f.size, out);
        },
        InputEvent::MouseDrag(col, row) => {
            handle_drag(state, col, row, out);
        },
        InputEvent::MouseDragEnd(col, row) => {
            handle_drag_end(state, col, row, out);
        },
        InputEvent::MouseMove(_, row) => {
            state.message_interaction_state.hover_row = Some(row);
        },
        other => {
            do_plans(state, other, f, out);
        },
    }
}

// ----- plans -----

/// What a change of the plan mode does: it is said when it starts.
pub open spec fn plan_mode_set(pre: AppState, post: AppState, on: bool) -> bool {
    let mid = AppState {
        plan_mode_state: PlanModeState { is_active: on, ..pre.plan_mode_state },
        ..pre
    };
    if on && !pre.plan_mode_state.is_active {
        row_pushed(
            mid,
            post,
            seq![
                tinted("⚙ "@, Color::Cyan),
                tinted(" Plan mode activated - what are we working on today?"@, Color::Cyan),
            ],
        )
    } else {
        post == mid
    }
}

fn set_plan_mode(state: &mut AppState, on: bool)
    ensures
        plan_mode_set(*old(state), *final(state), on),
{
    let before: bool = state.plan_mode_state.is_active;
    state.plan_mode_state.is_active = on;
    if on && !before {
        push_styled_message(
            state,
            " Plan mode activated - what are we working on today?",
            Color::Cyan,
            "⚙ ",
            Color::Cyan,
        );
    }
}

/// What an event asks of the review of a plan while it is not in view.
pub open spec fn late_review(e: InputEvent) -> Option<ReviewAction> {
    match e {
        InputEvent::PlanReviewClose => Some(ReviewAction::Close),
        InputEvent::PlanReviewCursorUp => Some(ReviewAction::CursorUp),
        InputEvent::PlanReviewCursorDown => Some(ReviewAction::CursorDown),
        InputEvent::PlanReviewNextComment => Some(ReviewAction::NextComment),
        InputEvent::PlanReviewPrevComment => Some(ReviewAction::PrevComment),
        InputEvent::PlanReviewPageUp => Some(ReviewAction::PageUp),
        InputEvent::PlanReviewPageDown => Some(ReviewAction::PageDown),
        _ => None,
    }
}

fn find_late_review(e: &InputEvent) -> (r: Option<ReviewAction>)
    ensures
        r == late_review(*e),
{
    match e {
        InputEvent::PlanReviewClose => Some(ReviewAction::Close),
        InputEvent::PlanReviewCursorUp => Some(ReviewAction::CursorUp),
        InputEvent::PlanReviewCursorDown => Some(ReviewAction::CursorDown),
        InputEvent::PlanReviewNextComment => Some(ReviewAction::NextComment),
        InputEvent::PlanReviewPrevComment => Some(ReviewAction::PrevComment),
        InputEvent::PlanReviewPageUp => Some(ReviewAction::PageUp),
        InputEvent::PlanReviewPageDown => Some(ReviewAction::PageDown),
        _ => None,
    }
}

/// The review of a plan is to do something.
pub open spec fn review_told(a: ReviewAction, sent: Outbox, out: Outbox) -> bool {
    sent.affects(out, |o: Effect| o == Effect::PlanReview(a))
}

/// What an event does that is about plans; another event is handed on. The key for the review of a
/// plan opens the palette where nothing is planned.
pub open spec fn plans_done(
    pre: AppState,
    post: AppState,
    e: InputEvent,
    f: Facts,
    sent: Outbox,
    out: Outbox,
) -> bool {
    match e {
        InputEvent::PlanModeChanged(on) => plan_mode_set(pre, post, on) && out == sent,
        InputEvent::ExistingPlanFound(prompt) => post == (AppState {
            plan_mode_state: PlanModeState {
                existing_prompt: Some(prompt),
                ..pre.plan_mode_state
            },
            ..pre
        }) && out == sent,
        InputEvent::TogglePlanReview => if pre.plan_review_state.is_visible {
            post == pre && review_told(ReviewAction::Close, sent, out)
        } else if pre.plan_mode_state.is_active {
            post == pre && review_told(ReviewAction::Open, sent, out)
        } else {
            palette_shown(pre, post) && out == sent
        },
        _ => match late_review(e) {
            Some(a) => post == pre && review_told(a, sent, out),
            None => rest_done(pre, post, e, f, sent, out),
        },
    }
}

fn do_plans(state: &mut AppState, event: InputEvent, f: Facts, out: &mut Outbox)
    ensures
        plans_done(*old(state), *final(state), event, f, *old(out), *final(out)),
{
    match event {
        InputEvent::PlanModeChanged(on) => {
            set_plan_mode(state, on);
        },
        InputEvent::ExistingPlanFound(prompt) => {
            state.plan_mode_state.existing_prompt = Some(prompt);
        },
        InputEvent::TogglePlanReview => {
            if state.plan_review_state.is_visible {
                out.ask(Effect::PlanReview(ReviewAction::Close));
            } else if state.plan_mode_state.is_active {
                out.ask(Effect::PlanReview(ReviewAction::Open));
            } else {
                handle_show_command_palette(state);
            }
        },
        other => match find_late_review(&other) {
            Some(a) => {
                out.ask(Effect::PlanReview(a));
            },
            None => {
                do_rest(state, other, f, out);
            },
        },
    }
}

// ----- the rest -----

/// Whether the event tells of a message that is being written, or of what messages cost.
pub open spec fn tells(e: InputEvent) -> bool {
    match e {
        InputEvent::StreamAssistantMessage(_, _)
        | InputEvent::HasUserMessage
        | InputEvent::StreamUsage(_)
        | InputEvent::RequestTotalUsage
        | InputEvent::TotalUsage(_) => true,
        _ => false,
    }
}

/// The session's identifier is to be copied, where there is one.
pub open spec fn session_id_asked(s: AppState, sent: Outbox, out: Outbox) -> bool {
    let id = s.side_panel_state.session_id@;
    if id.len() == 0 {
        out == sent
    } else {
        sent.affects(out, |o: Effect| o matches Effect::CopySessionId(t) && t@ == id)
    }
}

/// What every other event does. An event that a popup takes while it is in view does nothing while
/// it is not.
pub open spec fn rest_done(
    pre: AppState,
    post: AppState,
    e: InputEvent,
    f: Facts,
    sent: Outbox,
    out: Outbox,
) -> bool {
    let p = pre.side_panel_state;
    match e {
        InputEvent::AddUserMessage(text) => user_message_added(pre, post, text@) && out == sent,
        InputEvent::AssistantMessage(text) => assistant_said(pre, post, text) && out == sent,
        InputEvent::Error(error) => error_taken(
            pre,
            post,
            error@,
            f.limit_error@,
            f.limit_message@,
        ) && out == sent,
        InputEvent::Resized(width, height) => terminal_resized(pre, post, width, height) && out
            == sent,
        InputEvent::ToggleCursorVisible => post == pre.with_input(
            InputState {
                cursor_visible: !pre.input_state.cursor_visible,
                ..pre.input_state
            },
        ) && out == sent,
        InputEvent::ToggleAutoApprove => post == pre && sent.affects(
            out,
            |o: Effect| o is ToggleAutoApprove,
        ),
        InputEvent::AutoApproveCurrentTool => post == pre && sent.affects(
            out,
            |o: Effect| o is ListAutoApproved,
        ),
        InputEvent::HandleCtrlS => post == pre && sent.inputs(
            out,
            |o: InputEvent|
                if pre.rulebook_switcher_state.show_rulebook_switcher {
                    o is RulebookSwitcherSelectAll
                } else {
                    o is ShowShortcuts
                },
        ),
        InputEvent::AttemptQuit => quit_attempted(pre, post, f.now, sent, out),
        InputEvent::ToggleMouseCapture => post == pre && sent.affects(
            out,
            |o: Effect| o is ToggleMouseCapture,
        ),
        InputEvent::FileChangesRevertFile => post == pre && session_id_asked(pre, sent, out),
        InputEvent::SetSessions(sessions) => sessions_shown(pre, post, sessions, sent, out),
        InputEvent::SetBannerMessage(text, style) => post == (AppState {
            banner_state: BannerState {
                message: Some(
                    crate::banner::BannerMessage {
                        text,
                        created_at: f.now,
                        style,
                        persistent: false,
                        action: None,
                    },
                ),
                ..pre.banner_state
            },
            ..pre
        }) && out == sent,
        InputEvent::StartLoadingOperation(op) => {
            &&& post == (AppState { loading_state: post.loading_state, ..pre })
            &&& loading_of(
                pre.loading_state,
                post.loading_state,
                pre.loading_state.loading_manager@.insert(op),
            )
            &&& out == sent
        },
        InputEvent::EndLoadingOperation(op) => loading_ended(pre, post, op) && out == sent,
        InputEvent::GetStatus(info) => post == (AppState {
            sessions_state: SessionsState { account_info: info, ..pre.sessions_state },
            ..pre
        }) && out == sent,
        InputEvent::StreamModel(model) => post == with_switcher(
            pre,
            ModelSwitcherState { current_model: Some(model), ..pre.model_switcher_state },
        ) && out == sent,
        InputEvent::BillingInfoLoaded(info) => post == with_panel(
            pre,
            SidePanelState { billing_info: Some(info), ..p },
        ) && out == sent,
        InputEvent::RefreshBoardTasks => tasks_refreshed(pre, post, f.board, sent, out),
        InputEvent::BoardTasksLoaded(items, progress) => post == with_panel(
            pre,
            SidePanelState { todos: items, task_progress: Some(progress), ..p },
        ) && out == sent,
        _ => post == pre && (if tells(e) {
            sent.affects(out, |o: Effect| o == Effect::Tell(e))
        } else {
            out == sent
        }),
    }
}

fn does_tell(e: &InputEvent) -> (r: bool)
    ensures
        r == tells(*e),
{
    match e {
        InputEvent::StreamAssistantMessage(_, _)
        | InputEvent::HasUserMessage
        | InputEvent::StreamUsage(_)
        | InputEvent::RequestTotalUsage
        | InputEvent::TotalUsage(_) => true,
        _ => false,
    }
}

fn do_rest(state: &mut AppState, event: InputEvent, f: Facts, out: &mut Outbox)
    ensures
        rest_done(*old(state), *final(state), event, f, *old(out), *final(out)),
{
    match event {
        InputEvent::AddUserMessage(text) => {
            handle_add_user_message(state, text);
        },
        InputEvent::AssistantMessage(text) => {
            handle_assistant_message(state, text);
        },
        InputEvent::Error(error) => {
            handle_error(state, error, f.limit_error.as_str(), f.limit_message.as_str());
        },
        InputEvent::Resized(width, height) => {
            handle_resized(state, width, height);
        },
        InputEvent::ToggleCursorVisible => {
            handle_toggle_cursor_visible(state);
        },
        InputEvent::ToggleAutoApprove => {
            handle_toggle_auto_approve(out);
        },
        InputEvent::AutoApproveCurrentTool => {
            handle_auto_approve_current_tool(out);
        },
        InputEvent::HandleCtrlS => {
            handle_ctrl_s(state, out);
        },
        InputEvent::AttemptQuit => {
            handle_attempt_quit(state, f.now, out);
        },
        InputEvent::ToggleMouseCapture => {
            handle_toggle_mouse_capture(out);
        },
        InputEvent::FileChangesRevertFile => {
            if !is_empty(state.side_panel_state.session_id.as_str()) {
                out.ask(Effect::CopySessionId(state.side_panel_state.session_id.clone()));
            }
        },
        InputEvent::SetSessions(sessions) => {
            handle_set_sessions(state, sessions, out);
        },
        InputEvent::SetBannerMessage(text, style) => {
            handle_set_banner_message(state, text, style, f.now);
        },
        InputEvent::StartLoadingOperation(op) => {
            handle_start_loading_operation(state, op);
        },
        InputEvent::EndLoadingOperation(op) => {
            handle_end_loading_operation(state, op);
        },
        InputEvent::GetStatus(info) => {
            handle_get_status(state, info);
        },
        InputEvent::StreamModel(model) => {
            handle_stream_model(state, model);
        },
        InputEvent::BillingInfoLoaded(info) => {
            handle_billing_info_loaded(state, info);
        },
        InputEvent::RefreshBoardTasks => {
            handle_refresh_board_tasks(state, &f.board, out);
        },
        InputEvent::BoardTasksLoaded(items, progress) => {
            handle_board_tasks_loaded(state, items, progress);
        },
        InputEvent::BoardTasksError(err) => {
            handle_board_tasks_error(state, err);
        },
        other => {
            if does_tell(&other) {
                out.ask(Effect::Tell(other));
            }
        },
    }
}

/// Takes over when the session's identifier was copied.
pub fn handle_session_id_copied(state: &mut AppState, now: u64)
    ensures
        *final(state) == with_panel(
            *old(state),
            SidePanelState {
                session_id_copied_at: Some(now),
                ..old(state).side_panel_state
            },
        ),
{
    state.side_panel_state.session_id_copied_at = Some(now);
}

// ----- all of it -----

/// How often the view is to be adjusted behind an event that no popup took.
pub open spec fn passes(e: InputEvent) -> u8 {
    match e {
        InputEvent::PageUp
        | InputEvent::PageDown
        | InputEvent::ShellWaitingForInput
        | InputEvent::ShellCompleted(_)
        | InputEvent::ShellClear => 2,
        _ => 1,
    }
}

fn count_passes(e: &InputEvent) -> (r: u8)
    ensures
        r == passes(*e),
{
    match e {
        InputEvent::PageUp
        | InputEvent::PageDown
        | InputEvent::ShellWaitingForInput
        | InputEvent::ShellCompleted(_)
        | InputEvent::ShellClear => 2,
        _ => 1,
    }
}

/// What an event does that no popup takes: it is handled, and what waits is sent where nothing is
/// under way.
pub open spec fn handled(
    pre: AppState,
    post: AppState,
    e: InputEvent,
    f: Facts,
    sent: Outbox,
    out: Outbox,
) -> bool {
    exists|mid: AppState, so_far: Outbox| #[trigger]
        typing_done(pre, mid, e, f, sent, so_far) && #[trigger] queue_flushed(
            mid,
            post,
            so_far,
            out,
        )
}

/// What an event does.
pub open spec fn updated(
    pre: AppState,
    post: AppState,
    e: InputEvent,
    f: Facts,
    sent: Outbox,
    out: Outbox,
) -> bool {
    match layer_of(pre, e, f.backend) {
        Layer::Blocked => post == pre && out == sent,
        Layer::MessageActions => in_message_actions(pre, post, e, sent, out),
        Layer::PlanPrompt => in_plan_prompt(pre, post, e, sent, out),
        Layer::PlanReview => in_plan_review(pre, post, e, sent, out),
        Layer::FileChanges => in_file_changes(pre, post, e, f.size, sent, out),
        Layer::AskUser => in_ask_user(pre, post, e, sent, out),
        Layer::Questions => in_ask_user(pre, post, e, sent, out),
        Layer::ModelSwitcher => in_model_switcher(
            pre,
            post,
            e,
            f.models@,
            f.model_order@,
            sent,
            out,
        ),
        Layer::ApprovalBar => in_approval_bar(pre, post, e, sent, out),
        Layer::Shell => in_shell(pre, post, e, f.enter@, sent, out),
        Layer::Normal => handled(pre, post, e, f, sent, out),
    }
}

fn handle(state: &mut AppState, event: InputEvent, f: Facts, out: &mut Outbox)
    requires
        can_take(*old(state), event, f),
    ensures
        handled(*old(state), *final(state), event, f, *old(out), *final(out)),
{
    do_typing(state, event, f, out);
    let ghost mid = *state;
    let ghost so_far = *out;
    flush_pending_user_messages_if_idle(state, out);
    assert(typing_done(*old(state), mid, event, f, *old(out), so_far));
    assert(queue_flushed(mid, *state, so_far, *out));
}

/// Takes an event. Says how often the view is to be adjusted afterwards, with what the conversation
/// takes by then.
pub fn update(state: &mut AppState, event: InputEvent, f: Facts, out: &mut Outbox) -> (owed: u8)
    requires
        layer_of(*old(state), event, f.backend) == Layer::Normal ==> can_take(
            *old(state),
            event,
            f,
        ),
    ensures
        updated(*old(state), *final(state), event, f, *old(out), *final(out)),
        owed == (if layer_of(*old(state), event, f.backend) == Layer::Normal {
            passes(event)
        } else {
            0
        }),
{
    match route(state, &event, f.backend) {
        Layer::Blocked => {},
        Layer::MessageActions => {
            take_message_actions(state, &event, out);
        },
        Layer::PlanPrompt => {
            take_plan_prompt(state, &event, out);
        },
        Layer::PlanReview => {
            take_plan_review(state, &event, out);
        },
        Layer::FileChanges => {
            take_file_changes(state, &event, f.size, out);
        },
        Layer::AskUser | Layer::Questions => {
            take_ask_user(state, event, out);
        },
        Layer::ModelSwitcher => {
            take_model_switcher(state, &event, &f.models, &f.model_order, out);
        },
        Layer::ApprovalBar => {
            take_approval_bar(state, &event, out);
        },
        Layer::Shell => {
            take_shell(state, &event, f.enter.as_str(), out);
        },
        Layer::Normal => {
            let owed: u8 = count_passes(&event);
            handle(state, event, f, out);
            return owed;
        },
    }
    0
}

/// What taking an event does where it may be more than can be handled. What a shell writes onto a
/// screen that may not take it is written onto the screen drawn anew; a search for more than can be
/// counted is left out.
pub open spec fn taken(
    pre: AppState,
    post: AppState,
    e: InputEvent,
    f: Facts,
    sent: Outbox,
    out: Outbox,
    owed: Option<u8>,
) -> bool {
    if layer_of(pre, e, f.backend) != Layer::Normal {
        updated(pre, post, e, f, sent, out) && owed == Some(0u8)
    } else if can_take(pre, e, f) {
        updated(pre, post, e, f, sent, out) && owed == Some(passes(e))
    } else if e is ShellOutput {
        exists|mid: AppState| #[trigger]
            screen_redrawn(pre, mid) && updated(mid, post, e, f, sent, out) && owed == Some(
                passes(e),
            )
    } else {
        post == pre && out == sent && owed is None
    }
}

/// Takes an event, whatever there is to handle. Says how often the view is to be adjusted afterwards;
/// nothing where the event was left out.
pub fn take_event(state: &mut AppState, event: InputEvent, f: Facts, out: &mut Outbox) -> (owed:
    Option<u8>)
    ensures
        taken(*old(state), *final(state), event, f, *old(out), *final(out), owed),
{
    let normal: bool = match route(state, &event, f.backend) {
        Layer::Normal => true,
        _ => false,
    };
    if normal {
        match &event {
            InputEvent::ShellOutput(_, _) => {
                if !can_show_output(state) {
                    redraw_screen(state);
                    assert(screen_redrawn(*old(state), *state));
                }
            },
            InputEvent::Tab => {
                if !can_tab(&state.input_state, &f.directory) {
                    return None;
                }
            },
            _ => {},
        }
    }
    Some(update(state, event, f, out))
}

/// An event that nobody takes changes nothing.
pub proof fn law_blocked_is_inert(
    pre: AppState,
    post: AppState,
    e: InputEvent,
    f: Facts,
    sent: Outbox,
    out: Outbox,
)
    requires
        updated(pre, post, e, f, sent, out),
        layer_of(pre, e, f.backend) == Layer::Blocked,
    ensures
        post == pre,
        out == sent,
{
}

/// While the profile is being switched, an event that tells neither of the switch, nor of what there
/// is to choose from, nor of the wish to quit leaves everything as it is.
pub proof fn law_switch_is_inert(
    pre: AppState,
    post: AppState,
    e: InputEvent,
    f: Facts,
    sent: Outbox,
    out: Outbox,
)
    requires
        updated(pre, post, e, f, sent, out),
        pre.profile_switcher_state.switching_in_progress,
        !passes_switch(e),
    ensures
        post == pre,
        out == sent,
{
    crate::layers::law_switch_blocks(pre, e, f.backend);
}

/// Behind an event that no popup took, with nothing under way, at most one message waits; none does
/// where there is room for it.
pub proof fn law_idle_sends(
    pre: AppState,
    post: AppState,
    e: InputEvent,
    f: Facts,
    sent: Outbox,
    out: Outbox,
)
    requires
        handled(pre, post, e, f, sent, out),
        post.loading_state.loading_manager@ == Set::<LoadingOperation>::empty(),
    ensures
        post.user_message_queue_state.pending_user_messages@.len() <= 1,
        out.output@.len() < out.output_room
            ==> post.user_message_queue_state.pending_user_messages@.len() == 0,
{
    let (mid, so_far) = choose|mid: AppState, so_far: Outbox| #[trigger]
        typing_done(pre, mid, e, f, sent, so_far) && #[trigger] queue_flushed(
            mid,
            post,
            so_far,
            out,
        );
    assert(queue_flushed(mid, post, so_far, out));
}

// ----- what holds of events -----

/// Sending what waits runs no call: what goes to the backend is a message of the user.
proof fn lemma_flush_accepts_nothing(pre: AppState, post: AppState, sent: Outbox, out: Outbox)
    requires
        queue_flushed(pre, post, sent, out),
    ensures
        out.output@.len() >= sent.output@.len(),
        forall|k: int|
            0 <= k < sent.output@.len() ==> #[trigger] out.output@[k] == sent.output@[k],
        forall|k: int|
            sent.output@.len() <= k < out.output@.len() ==> (
            #[trigger] out.output@[k]) is UserMessage,
        post.dialog_approval_state == pre.dialog_approval_state,
        post.session_tool_calls_state == pre.session_tool_calls_state,
{
    if out.output@ != sent.output@ {
        assert(out.output@.drop_last() == sent.output@);
        assert(forall|k: int|
            0 <= k < sent.output@.len() ==> #[trigger] out.output@[k] == out.output@.drop_last()[k]);
    }
}

/// However a call that the user rejected comes up again, the client does not run it.
pub proof fn law_rejected_call_never_runs(
    pre: AppState,
    post: AppState,
    call: ToolCall,
    auto: bool,
    f: Facts,
    sent: Outbox,
    out: Outbox,
    i: int,
    k: int,
)
    requires
        handled(pre, post, InputEvent::ShowConfirmationDialog(call, auto), f, sent, out),
        0 <= i < pre.dialog_approval_state.message_rejected_tools@.len(),
        pre.dialog_approval_state.message_rejected_tools@[i].id@ == call.id@,
        sent.output@.len() <= k < out.output@.len(),
    ensures
        !(out.output@[k] is AcceptTool),
{
    let e = InputEvent::ShowConfirmationDialog(call, auto);
    let (mid, so_far) = choose|mid: AppState, so_far: Outbox| #[trigger]
        typing_done(pre, mid, e, f, sent, so_far) && #[trigger] queue_flushed(
            mid,
            post,
            so_far,
            out,
        );
    assert(confirmation_shown(pre, mid, call, auto, sent, so_far));
    crate::dialog::law_rejected_is_refused(pre, mid, call, auto, sent, so_far, i);
    lemma_flush_accepts_nothing(mid, post, so_far, out);
}

/// The rejection that goes round rejects the dialog's call, and stops where it says so.
pub proof fn law_rejection_reaches_the_backend(
    pre: AppState,
    post: AppState,
    message: Option<String>,
    stop: bool,
    color: Option<Color>,
    f: Facts,
    sent: Outbox,
    out: Outbox,
)
    requires
        handled(pre, post, InputEvent::HandleReject(message, stop, color), f, sent, out),
        !pre.messages_scrolling_state.show_collapsed_messages,
        !pre.input_state.show_helper_dropdown,
        pre.dialog_approval_state.is_dialog_open,
        pre.dialog_approval_state.dialog_command is Some,
        sent.output@.len() < sent.output_room,
    ensures
        !post.dialog_approval_state.is_dialog_open,
        out.output@.len() > sent.output@.len(),
        out.output@[sent.output@.len() as int] == OutputEvent::RejectTool(
            pre.dialog_approval_state.dialog_command->0,
            stop,
        ),
{
    let e = InputEvent::HandleReject(message, stop, color);
    let (mid, so_far) = choose|mid: AppState, so_far: Outbox| #[trigger]
        typing_done(pre, mid, e, f, sent, so_far) && #[trigger] queue_flushed(
            mid,
            post,
            so_far,
            out,
        );
    assert(escaped(pre, mid, text_of(message), stop, color, sent, so_far));
    crate::dialog::law_escape_rejects(pre, mid, text_of(message), stop, color, sent, so_far);
    lemma_flush_accepts_nothing(mid, post, so_far, out);
}

/// The keys of the bar do what they say: all calls are approved or rejected, or the selected one is,
/// and nothing else changes in the bar.
pub proof fn law_keys_of_the_bar(
    pre: AppState,
    post: AppState,
    e: InputEvent,
    f: Facts,
    sent: Outbox,
    out: Outbox,
    i: int,
)
    requires
        handled(pre, post, e, f, sent, out),
        0 <= i < pre.dialog_approval_state.approval_bar.actions@.len(),
    ensures
        ({
            let a = pre.dialog_approval_state.approval_bar;
            let b = post.dialog_approval_state.approval_bar;
            &&& e is ApprovalBarApproveAll ==> b.actions@.len() == a.actions@.len()
                && b.actions@[i].status == ApprovalStatus::Approved && b.actions@[i].tool_call
                == a.actions@[i].tool_call
            &&& e is ApprovalBarRejectAll ==> b.actions@.len() == a.actions@.len()
                && b.actions@[i].status == ApprovalStatus::Rejected && b.actions@[i].tool_call
                == a.actions@[i].tool_call
            &&& e is ApprovalBarApproveSelected && i == a.selected ==> b.actions@[i].status
                == ApprovalStatus::Approved
            &&& e is ApprovalBarRejectSelected && i == a.selected ==> b.actions@[i].status
                == ApprovalStatus::Rejected
            &&& (e is ApprovalBarApproveSelected || e is ApprovalBarRejectSelected) && i
                != a.selected ==> b.actions@[i] == a.actions@[i]
        }),
{
    if e is ApprovalBarApproveAll || e is ApprovalBarRejectAll || e is ApprovalBarApproveSelected
        || e is ApprovalBarRejectSelected {
        let (mid, so_far) = choose|mid: AppState, so_far: Outbox| #[trigger]
            typing_done(pre, mid, e, f, sent, so_far) && #[trigger] queue_flushed(
                mid,
                post,
                so_far,
                out,
            );
        assert(calls_done(pre, mid, e, f, sent, so_far));
        lemma_flush_accepts_nothing(mid, post, so_far, out);
        crate::tool::law_decisions_in_the_bar(pre, mid, ApprovalStatus::Approved, i);
        crate::tool::law_decisions_in_the_bar(pre, mid, ApprovalStatus::Rejected, i);
    }
}

/// A message of the model is the last one of the conversation, as it came.
pub proof fn law_assistant_message(
    pre: AppState,
    post: AppState,
    text: String,
    f: Facts,
    sent: Outbox,
    out: Outbox,
)
    requires
        typing_done(pre, post, InputEvent::AssistantMessage(text), f, sent, out),
    ensures
        out == sent,
        post.messages_scrolling_state.messages@.len()
            == pre.messages_scrolling_state.messages@.len() + 1,
        post.messages_scrolling_state.messages@.drop_last()
            == pre.messages_scrolling_state.messages@,
        post.messages_scrolling_state.messages@.last().content
            == MessageContent::AssistantMessage(text),
{
    assert(rest_done(pre, post, InputEvent::AssistantMessage(text), f, sent, out));
}

/// A message of the user that is to be shown is the last one of the conversation, as it came.
pub proof fn law_user_message(
    pre: AppState,
    post: AppState,
    text: String,
    f: Facts,
    sent: Outbox,
    out: Outbox,
)
    requires
        typing_done(pre, post, InputEvent::AddUserMessage(text), f, sent, out),
    ensures
        out == sent,
        post.messages_scrolling_state.messages@.len()
            == pre.messages_scrolling_state.messages@.len() + 1,
        post.messages_scrolling_state.messages@.drop_last()
            == pre.messages_scrolling_state.messages@,
        ({
            &&& post.messages_scrolling_state.messages@.last().content matches
                MessageContent::UserMessage(t)
            &&& t@ == text@
        }),
{
    assert(rest_done(pre, post, InputEvent::AddUserMessage(text), f, sent, out));
}

/// An operation that starts is under way, with those that were, and the client counts as loading.
pub proof fn law_operation_starts(
    pre: AppState,
    post: AppState,
    op: LoadingOperation,
    other: LoadingOperation,
    f: Facts,
    sent: Outbox,
    out: Outbox,
)
    requires
        typing_done(pre, post, InputEvent::StartLoadingOperation(op), f, sent, out),
    ensures
        out == sent,
        post.loading_state.is_loading,
        post.loading_state.loading_manager@.contains(op),
        pre.loading_state.loading_manager@.contains(other)
            ==> post.loading_state.loading_manager@.contains(other),
{
    assert(rest_done(pre, post, InputEvent::StartLoadingOperation(op), f, sent, out));
    assert(post.loading_state.loading_manager@.contains(op));
}

/// The model that answers is the current one from then on.
pub proof fn law_model_is_told(
    pre: AppState,
    post: AppState,
    model: Model,
    f: Facts,
    sent: Outbox,
    out: Outbox,
)
    requires
        typing_done(pre, post, InputEvent::StreamModel(model), f, sent, out),
    ensures
        out == sent,
        post.model_switcher_state.current_model == Some(model),
        post.messages_scrolling_state == pre.messages_scrolling_state,
{
    assert(rest_done(pre, post, InputEvent::StreamModel(model), f, sent, out));
}

/// The terminal has the size that it is told to have.
pub proof fn law_size_is_told(
    pre: AppState,
    post: AppState,
    width: u16,
    height: u16,
    f: Facts,
    sent: Outbox,
    out: Outbox,
)
    requires
        typing_done(pre, post, InputEvent::Resized(width, height), f, sent, out),
    ensures
        out == sent,
        post.terminal_ui_state.terminal_size.width == width,
        post.terminal_ui_state.terminal_size.height == height,
        post.messages_scrolling_state == pre.messages_scrolling_state,
        post.input_state == pre.input_state,
{
    assert(rest_done(pre, post, InputEvent::Resized(width, height), f, sent, out));
}

/// The tasks that are told are those that the side panel shows.
pub proof fn law_tasks_are_told(
    pre: AppState,
    post: AppState,
    items: Vec<TodoItem>,
    progress: TaskProgress,
    f: Facts,
    sent: Outbox,
    out: Outbox,
)
    requires
        typing_done(pre, post, InputEvent::BoardTasksLoaded(items, progress), f, sent, out),
    ensures
        out == sent,
        post.side_panel_state.todos == items,
        post.side_panel_state.task_progress == Some(progress),
        post.side_panel_state.changeset == pre.side_panel_state.changeset,
{
    assert(rest_done(pre, post, InputEvent::BoardTasksLoaded(items, progress), f, sent, out));
}

/// A banner is shown with its text and style from the time on at which it came, and does not persist.
pub proof fn law_banner_is_told(
    pre: AppState,
    post: AppState,
    text: String,
    style: crate::banner::BannerStyle,
    f: Facts,
    sent: Outbox,
    out: Outbox,
)
    requires
        typing_done(pre, post, InputEvent::SetBannerMessage(text, style), f, sent, out),
    ensures
        out == sent,
        post.banner_state.message is Some,
        post.banner_state.message->0.text == text,
        post.banner_state.message->0.style == style,
        post.banner_state.message->0.created_at == f.now,
        !post.banner_state.message->0.persistent,
{
    assert(rest_done(pre, post, InputEvent::SetBannerMessage(text, style), f, sent, out));
}

/// The keys that move the view move it their way, and nothing else: up never goes down, and down
/// never up.
pub proof fn law_view_goes_its_way(
    pre: AppState,
    post: AppState,
    e: InputEvent,
    f: Facts,
    sent: Outbox,
    out: Outbox,
)
    requires
        typing_done(pre, post, e, f, sent, out),
        e is PageUp || e is PageDown,
        pre.messages_scrolling_state.message_lines_cache is None,
        pre.messages_scrolling_state.scroll + f.measures.height <= f.measures.total_lines,
    ensures
        out == sent,
        e is PageUp ==> post.messages_scrolling_state.scroll <= pre.messages_scrolling_state.scroll,
        e is PageUp && pre.messages_scrolling_state.scroll > 0
            ==> post.messages_scrolling_state.scroll < pre.messages_scrolling_state.scroll,
        e is PageDown ==> post.messages_scrolling_state.scroll
            >= pre.messages_scrolling_state.scroll,
        e is PageDown && pre.messages_scrolling_state.scroll + f.measures.height
            < f.measures.total_lines ==> post.messages_scrolling_state.scroll
            > pre.messages_scrolling_state.scroll,
        post.messages_scrolling_state.messages == pre.messages_scrolling_state.messages,
        post.input_state == pre.input_state,
{
}

/// Deleting the whole input leaves nothing of its text.
pub proof fn law_input_is_deleted(
    pre: AppState,
    post: AppState,
    f: Facts,
    sent: Outbox,
    out: Outbox,
)
    requires
        typing_done(pre, post, InputEvent::InputDelete, f, sent, out),
    ensures
        out == sent,
        post.input_state.text_area@.text.len() == 0,
        post.input_state.text_area@.cursor == 0,
        post.messages_scrolling_state == pre.messages_scrolling_state,
{
}

/// The calls of a message that still have to be decided are the ones that the client knows of from
/// then on.
pub proof fn law_calls_of_a_message(
    pre: AppState,
    post: AppState,
    calls: Vec<(ToolCall, bool)>,
    f: Facts,
    sent: Outbox,
    out: Outbox,
)
    requires
        typing_done(pre, post, InputEvent::MessageToolCalls(calls), f, sent, out),
    ensures
        out == sent,
        post.dialog_approval_state.message_tool_calls is Some,
        post.dialog_approval_state.message_tool_calls->0@ == crate::tool::undecided_calls(
            calls@,
            pre.session_tool_calls_state.session_tool_calls_queue@,
        ),
        post.tool_call_state.tool_call_stream_preview_id is None,
{
    assert(calls_done(pre, post, InputEvent::MessageToolCalls(calls), f, sent, out));
}

/// A shell that is ended is gone, and is asked to end where one ran.
pub proof fn law_shell_is_killed(
    pre: AppState,
    post: AppState,
    f: Facts,
    sent: Outbox,
    out: Outbox,
)
    requires
        typing_done(pre, post, InputEvent::ShellKill, f, sent, out),
    ensures
        post.shell_popup_state.active_shell_command is None,
        post.shell_session_state.interactive_shell_message_id is None,
        pre.shell_popup_state.active_shell_command is Some ==> out.effects@.len()
            == sent.effects@.len() + 1 && out.effects@.last() is KillShell,
        pre.shell_popup_state.active_shell_command is None ==> out == sent,
{
    assert(shell_done(pre, post, InputEvent::ShellKill, f, sent, out));
}

} // verus!
