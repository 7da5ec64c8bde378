use stakpak_tui::app::AppState;
use stakpak_tui::app::AppStateOptions;
use stakpak_tui::approval_bar::ApprovalStatus;
use stakpak_tui::banner::BannerStyle;
use stakpak_tui::changeset::FileEdit;
use stakpak_tui::changeset::FileState;
use stakpak_tui::collections::TextMap;
use stakpak_tui::collections::TextSet;
use stakpak_tui::completion::handle_file_selection;
use stakpak_tui::dialog::handle_esc;
use stakpak_tui::dialog::handle_show_confirmation_dialog;
use stakpak_tui::dropdown::Dropdown;
use stakpak_tui::dropdown::get_file_icon;
use stakpak_tui::dropdown::render_file_search_dropdown;
use stakpak_tui::dropdown::render_helper_dropdown;
use stakpak_tui::event_loop::LoopAction;
use stakpak_tui::event_loop::ScrollBatch;
use stakpak_tui::event_loop::Start;
use stakpak_tui::event_loop::classify;
use stakpak_tui::event_loop::handle_editor_failed;
use stakpak_tui::event_loop::message_area;
use stakpak_tui::event_loop::message_area_with_bar;
use stakpak_tui::event_loop::start;
use stakpak_tui::event_loop::take_editor_request;
use stakpak_tui::event_loop::take_plan_status;
use stakpak_tui::event_loop::take_tool_result;
use stakpak_tui::event_loop::tick;
use stakpak_tui::event_loop::toggle_mouse_capture;
use stakpak_tui::events::Effect;
use stakpak_tui::events::EditedText;
use stakpak_tui::events::InputEvent;
use stakpak_tui::events::Outbox;
use stakpak_tui::events::OutputEvent;
use stakpak_tui::events::ReviewAction;
use stakpak_tui::events::ToolCallProgress;
use stakpak_tui::file_changes::Reverted;
use stakpak_tui::file_changes::handle_file_changes_popup_navigate;
use stakpak_tui::file_changes::handle_file_changes_popup_revert;
use stakpak_tui::file_changes::handle_file_changes_popup_revert_all;
use stakpak_tui::file_changes::handle_file_changes_popup_search_input;
use stakpak_tui::file_changes::handle_file_reverted;
use stakpak_tui::file_changes::handle_files_reverted;
use stakpak_tui::file_changes::handle_file_changes_popup_mouse_click;
use stakpak_tui::file_changes::render_file_changes_popup;
use stakpak_tui::geometry::Rect;
use stakpak_tui::geometry::Size;
use stakpak_tui::images::ImageFile;
use stakpak_tui::images::detect_and_convert_paths;
use stakpak_tui::input::Paste;
use stakpak_tui::input::handle_input_changed;
use stakpak_tui::input::handle_paste;
use stakpak_tui::layers::Layer;
use stakpak_tui::layers::route;
use stakpak_tui::message::Message;
use stakpak_tui::message::MessageContent;
use stakpak_tui::message_actions::handle_message_action_popup_execute;
use stakpak_tui::message_actions::handle_message_action_popup_navigate;
use stakpak_tui::message_actions::handle_reverted_since;
use stakpak_tui::misc::handle_attempt_quit;
use stakpak_tui::misc::handle_end_loading_operation;
use stakpak_tui::misc::handle_error;
use stakpak_tui::misc::handle_refresh_board_tasks;
use stakpak_tui::misc::handle_set_banner_message;
use stakpak_tui::misc::handle_start_loading_operation;
use stakpak_tui::misc::handle_tab;
use stakpak_tui::model_switcher::handle_available_models_loaded;
use stakpak_tui::model_switcher::handle_model_switcher_select;
use stakpak_tui::model_switcher::handle_recent_models_updated;
use stakpak_tui::model_switcher::handle_show_model_switcher;
use stakpak_tui::model_switcher::pass_model;
use stakpak_tui::models::FunctionCall;
use stakpak_tui::models::Model;
use stakpak_tui::models::ToolCall;
use stakpak_tui::models::ToolCallResult;
use stakpak_tui::models::ToolCallResultStatus;
use stakpak_tui::navigation::Measures;
use stakpak_tui::navigation::adjust_scroll;
use stakpak_tui::navigation::handle_dropdown_down;
use stakpak_tui::navigation::handle_dropdown_up;
use stakpak_tui::navigation::handle_page_up;
use stakpak_tui::popups::handle_profile_switcher_select;
use stakpak_tui::popups::handle_rulebook_switcher_confirm;
use stakpak_tui::popups::handle_rulebook_switcher_toggle;
use stakpak_tui::popups::handle_rulebooks_loaded;
use stakpak_tui::popups::handle_show_profile_switcher;
use stakpak_tui::popups::handle_toggle_collapsed_messages;
use stakpak_tui::shell::can_show_output;
use stakpak_tui::shell::command_in_fields;
use stakpak_tui::shell::extract_command_from_tool_call;
use stakpak_tui::shell::handle_run_shell_with_command;
use stakpak_tui::shell::handle_shell_completed;
use stakpak_tui::shell::handle_shell_kill;
use stakpak_tui::shell::handle_shell_output;
use stakpak_tui::shell::handle_shell_started;
use stakpak_tui::shell::looks_like_prompt;
use stakpak_tui::shell::shell_command_to_tool_call_result;
use stakpak_tui::shell::trim_shell_lines;
use stakpak_tui::style::Line;
use stakpak_tui::style::Span;
use stakpak_tui::submit::Submission;
use stakpak_tui::submit::handle_input_submitted_event;
use stakpak_tui::submit::outgoing_text;
use stakpak_tui::text_selection::handle_copied;
use stakpak_tui::text_selection::handle_drag;
use stakpak_tui::text_selection::handle_drag_end;
use stakpak_tui::text_selection::handle_drag_start;
use stakpak_tui::text_selection::tick_selection_auto_scroll;
use stakpak_tui::tool::handle_approval_bar_reject_all;
use stakpak_tui::tool::handle_message_tool_calls;
use stakpak_tui::tool::handle_retry_tool_call;
use stakpak_tui::tool::handle_report;
use stakpak_tui::tool::handle_stream_tool_result;
use stakpak_tui::tool::update_session_tool_calls_queue;
use stakpak_tui::tool_result::DiskFacts;
use stakpak_tui::types::CommandSource;
use stakpak_tui::types::HelperCommand;
use stakpak_tui::types::ListRuleBook;
use stakpak_tui::types::LoadingOperation;
use stakpak_tui::types::PlanStatus;
use stakpak_tui::types::ShellCommand;
use stakpak_tui::types::ShortcutsPopupMode;
use stakpak_tui::types::Toast;
use stakpak_tui::types::ToolCallStatus;
use stakpak_tui::update::Facts;
use stakpak_tui::update::take_event;
use stakpak_tui::update::update;

fn build_state() -> AppState {
    AppState::new(AppStateOptions {
        latest_version: None,
        is_git_repo: false,
        allowed_tools: None,
        model: Model::custom("large", "acme", 200_000),
        editor_command: None,
        auth_display_info: (None, None, None),
        board_agent_id: None,
        init_prompt_content: None,
        recent_models: Vec::new(),
        helpers: Vec::new(),
        interactive_commands: Vec::new(),
        now: 0,
    })
}

fn outbox() -> Outbox {
    Outbox::new(16, 16)
}

fn measures(height: usize, total_lines: usize) -> Measures {
    Measures {
        height,
        total_lines,
        last_message_lines: 2,
        collapsed_lines: 0,
        step: 1,
        commands: 0,
    }
}

fn facts() -> Facts {
    Facts::new(0, measures(10, 0), Size { width: 80, height: 24 })
}

fn call(id: &str, name: &str, arguments: &str) -> ToolCall {
    ToolCall {
        id: id.to_string(),
        call_type: "function".to_string(),
        function: FunctionCall {
            name: name.to_string(),
            bare_name: name.to_string(),
            arguments: arguments.to_string(),
        },
        metadata: None,
    }
}

fn command_call(id: &str) -> ToolCall {
    call(id, "run_command", "{\"command\":\"ls\"}")
}

fn result(id: &str, status: ToolCallResultStatus) -> ToolCallResult {
    ToolCallResult { call: command_call(id), result: "done".to_string(), status }
}

fn helper(name: &str) -> HelperCommand {
    HelperCommand {
        command: name.to_string(),
        description: "does it".to_string(),
        source: CommandSource::BuiltIn,
    }
}

fn strings(v: &[&str]) -> Vec<String> {
    v.iter().map(|s| s.to_string()).collect()
}

fn rows(m: &Message) -> Vec<String> {
    match &m.content {
        MessageContent::Styled(l) => vec![l.text()],
        MessageContent::StyledBlock(v) => v.iter().map(|l| l.text()).collect(),
        MessageContent::Plain(t, _) => vec![t.clone()],
        MessageContent::Info(t, _) => vec![t.clone()],
        MessageContent::UserMessage(t) => vec![t.clone()],
        _ => Vec::new(),
    }
}

fn all_rows(s: &AppState) -> String {
    let all: Vec<String> = s.messages_scrolling_state.messages.iter().flat_map(rows).collect();
    all.join("\n")
}

fn line(t: &str) -> Line {
    Line::of(Span::raw(t))
}

fn no_disk() -> DiskFacts {
    DiskFacts { content: None, exists: false, backup: None }
}

fn edit(added: usize, removed: usize) -> FileEdit {
    FileEdit {
        summary: "Edited file".to_string(),
        lines_added: added,
        lines_removed: removed,
        diff_preview: None,
        tool_call: None,
        user_message_index: 0,
    }
}

fn with_files(names: &[&str]) -> AppState {
    let mut s = build_state();
    for name in names {
        s.side_panel_state.changeset.track_file(name, name.to_string(), edit(2, 1), false);
    }
    s.file_changes_popup_state.is_visible = true;
    s
}

fn report(id: u128, message: &str) -> ToolCallProgress {
    ToolCallProgress {
        id,
        message: message.to_string(),
        is_task_wait: false,
        task_updates: None,
        progress: None,
    }
}

// ----- submitting and pasting -----

fn submission(text: &str) -> Submission {
    Submission {
        area_height: 10,
        cwd: "/work".to_string(),
        known: TextMap::new(),
        redacted: text.to_string(),
        image_parts: Vec::new(),
        missing: TextSet::new(),
        choice: None,
    }
}

fn paste(text: &str) -> Paste {
    Paste {
        image: None,
        text: text.to_string(),
        direct: None,
        extracted: Vec::new(),
        named: None,
        max_chars: 10,
    }
}

#[test]
fn a_message_goes_out_and_leaves_the_input() {
    let mut s = build_state();
    let mut out = outbox();
    s.set_input("hello there");
    handle_input_submitted_event(&mut s, submission("hello there"), &mut out);
    assert_eq!(s.input(), "");
    assert_eq!(out.output.len(), 1);
    match &out.output[0] {
        OutputEvent::UserMessage(text, calls, parts, revert) => {
            assert_eq!(text, "hello there");
            assert!(calls.is_none());
            assert!(parts.is_empty());
            assert!(revert.is_none());
        }
        _ => panic!("a message goes out"),
    }
}

#[test]
fn a_message_waits_while_something_is_under_way() {
    let mut s = build_state();
    let mut out = outbox();
    handle_start_loading_operation(&mut s, LoadingOperation::LlmRequest);
    s.set_input("later");
    handle_input_submitted_event(&mut s, submission("later"), &mut out);
    assert!(out.output.is_empty());
    assert_eq!(s.user_message_queue_state.pending_user_messages.len(), 1);
    handle_end_loading_operation(&mut s, LoadingOperation::LlmRequest);
    let _ = update(&mut s, InputEvent::ToggleCursorVisible, facts(), &mut out);
    assert_eq!(out.output.len(), 1);
    assert!(s.user_message_queue_state.pending_user_messages.is_empty());
}

#[test]
fn a_message_without_room_is_not_sent() {
    let mut s = build_state();
    let mut out = outbox();
    s.usage_tracking_state.current_message_usage.prompt_tokens = 190_000;
    s.set_input("too much");
    handle_input_submitted_event(&mut s, submission("too much"), &mut out);
    assert!(out.output.is_empty());
    assert!(s.user_message_queue_state.pending_user_messages.is_empty());
}

#[test]
fn a_shell_in_the_background_is_ended_with_the_message() {
    let mut s = build_state();
    let mut out = outbox();
    let shell = ShellCommand { id: "1".to_string(), command: "bash".to_string() };
    handle_shell_started(&mut s, shell, 24, 80);
    s.shell_popup_state.ondemand_shell_mode = true;
    s.shell_popup_state.is_expanded = false;
    s.shell_runtime_state.history_lines = vec![line("$ ls"), line("file"), line("$")];
    s.set_input("done");
    handle_input_submitted_event(&mut s, submission("done"), &mut out);
    assert_eq!(out.effects.iter().filter(|e| matches!(e, Effect::KillShell)).count(), 1);
    assert!(s.shell_popup_state.active_shell_command.is_none());
    match &out.output[0] {
        OutputEvent::UserMessage(text, Some(calls), _, _) => {
            assert_eq!(text, "done");
            assert_eq!(calls.len(), 1);
            assert_eq!(calls[0].result, "$ ls");
        }
        _ => panic!("the visit goes out with the message"),
    }
}

#[test]
fn an_empty_input_is_not_sent() {
    let mut s = build_state();
    let mut out = outbox();
    s.set_input("   ");
    handle_input_submitted_event(&mut s, submission("   "), &mut out);
    assert!(out.output.is_empty());
}

#[test]
fn a_long_paste_goes_out_in_full() {
    let mut s = build_state();
    s.insert_str("see  now");
    s.set_cursor_position(4);
    let _ = handle_paste(&mut s, paste("twelve chars"));
    assert_eq!(s.input(), "see [Pasted Content 12 chars] now");
    assert_eq!(outgoing_text(&s.input_state, &TextMap::new()), "see twelve chars now");
}

#[test]
fn a_short_paste_is_typed() {
    let mut s = build_state();
    let _ = handle_paste(&mut s, paste("short"));
    assert_eq!(s.input(), "short");
    assert!(s.input_state.pending_pastes.is_empty());
}

#[test]
fn image_paths_become_placeholders() {
    let mut s = build_state();
    s.set_input("see /tmp/pic.png ");
    let mut known: TextMap<ImageFile> = TextMap::new();
    known.insert(
        "/tmp/pic.png".to_string(),
        ImageFile {
            path: "/tmp/pic.png".to_string(),
            stem: Some("pic".to_string()),
            extension: Some("png".to_string()),
            width: 4,
            height: 3,
        },
    );
    detect_and_convert_paths(&mut s.input_state, &known);
    assert_eq!(s.input(), "see [Image pic 4x3 JPEG] ");
    assert_eq!(s.input_state.attached_images.len(), 1);
    assert_eq!(s.input_state.attached_images[0].start_pos, 4);
}

#[test]
fn a_slash_offers_commands() {
    let mut s = build_state();
    let mut out = outbox();
    let fresh = vec![helper("/help"), helper("/clear")];
    handle_input_changed(&mut s, '/', fresh, &TextMap::new(), &mut out);
    assert_eq!(s.input(), "/");
    assert!(s.input_state.show_helper_dropdown);
    assert!(out.effects.iter().any(|e| matches!(e, Effect::SearchFiles(t, 1) if t == "/")));
}

#[test]
fn a_chosen_file_takes_the_place_of_its_name() {
    let mut s = build_state();
    s.set_input("see @ma");
    s.set_cursor_position(7);
    s.input_state.file_search.trigger_char = Some('@');
    handle_file_selection(&mut s.input_state, "src/main.rs");
    assert!(s.input().starts_with("see src/main.rs") || s.input().starts_with("see @src/main.rs"));
    assert!(!s.input_state.show_helper_dropdown);
}

#[test]
fn the_backspace_takes_over_the_edit() {
    let mut s = build_state();
    let mut out = outbox();
    s.insert_str("ab");
    let edited = EditedText { text: "a".to_string(), cursor: 1 };
    let _ = update(&mut s, InputEvent::InputBackspace(edited), facts(), &mut out);
    assert_eq!((s.input(), s.cursor_position()), ("a", 1));
}

// ----- tools -----

#[test]
fn a_call_is_asked_about_and_run_once() {
    let mut s = build_state();
    let mut out = outbox();
    let c = command_call("c1");
    handle_message_tool_calls(&mut s, vec![(c.clone(), false)]);
    handle_show_confirmation_dialog(&mut s, c.clone(), true, &mut out);
    let accepted = |o: &Outbox| {
        o.output.iter().filter(|e| matches!(e, OutputEvent::AcceptTool(_))).count()
    };
    assert_eq!(accepted(&out), 1);
    assert!(matches!(
        s.session_tool_calls_state.session_tool_calls_queue.get("c1"),
        Some(ToolCallStatus::Executed)
    ));
    handle_show_confirmation_dialog(&mut s, c, true, &mut out);
    assert_eq!(accepted(&out), 1);
}

#[test]
fn the_message_of_a_command_has_the_number_of_its_call() {
    let mut s = build_state();
    let mut out = outbox();
    let c = command_call("00000000-0000-0000-0000-0000000000ff");
    handle_show_confirmation_dialog(&mut s, c, true, &mut out);
    assert_eq!(s.tool_call_state.pending_bash_message_id, Some(0xff));
}

#[test]
fn a_tool_has_one_message_however_often_it_reports() {
    let mut s = build_state();
    handle_stream_tool_result(&mut s, report(7, "one"));
    handle_stream_tool_result(&mut s, report(7, "two"));
    let v = &s.messages_scrolling_state.messages;
    assert_eq!(v.iter().filter(|m| m.id == 7).count(), 1);
    assert!(matches!(&v[0].content, MessageContent::RenderStreamingBorderBlock(t, _, _, _)
        if t.contains("one") && t.contains("two")));
    s.tool_call_state.completed_tool_calls.insert(9);
    handle_stream_tool_result(&mut s, report(9, "late"));
    assert!(s.messages_scrolling_state.messages.iter().all(|m| m.id != 9));
}

#[test]
fn a_command_that_waits_for_input_goes_on_in_a_shell() {
    let mut s = build_state();
    let c = command_call("c1");
    s.dialog_approval_state.dialog_command = Some(c.clone());
    let expected = extract_command_from_tool_call(&c).unwrap();
    let stall = "__INTERACTIVE_STALL__: waits";
    assert_eq!(handle_stream_tool_result(&mut s, report(7, "one")), None);
    assert_eq!(handle_stream_tool_result(&mut s, report(7, stall)), Some(expected.clone()));
    s.dialog_approval_state.dialog_command = None;
    assert_eq!(handle_stream_tool_result(&mut s, report(7, stall)), Some("command".to_string()));
    s.tool_call_state.latest_tool_call = Some(c);
    let mut out = outbox();
    handle_report(&mut s, report(7, stall), &mut out);
    assert!(matches!(&out.input[..], [InputEvent::RunShellWithCommand(k)] if *k == expected));
    assert!(s.dialog_approval_state.dialog_command.is_some());
    let mut out = outbox();
    s.tool_call_state.completed_tool_calls.insert(7);
    handle_report(&mut s, report(7, stall), &mut out);
    assert!(out.input.is_empty());
    s.tool_call_state.cancel_requested = true;
    assert_eq!(handle_stream_tool_result(&mut s, report(8, stall)), None);
}

#[test]
fn calls_behind_a_failed_one_are_skipped() {
    let mut s = build_state();
    for id in ["a", "b", "c"] {
        s.session_tool_calls_state.tool_call_execution_order.push(id.to_string());
        s.session_tool_calls_state
            .session_tool_calls_queue
            .insert(id.to_string(), ToolCallStatus::Pending);
    }
    update_session_tool_calls_queue(&mut s, &result("b", ToolCallResultStatus::Error));
    let status = |id: &str| *s.session_tool_calls_state.session_tool_calls_queue.get(id).unwrap();
    assert!(status("a") == ToolCallStatus::Pending);
    assert!(status("c") == ToolCallStatus::Skipped);
}

#[test]
fn every_result_is_shown_twice() {
    let mut s = build_state();
    let mut out = outbox();
    take_tool_result(&mut s, &result("a", ToolCallResultStatus::Success), no_disk(), &mut out);
    let v = &s.messages_scrolling_state.messages;
    assert_eq!(v.len(), 2);
    assert_eq!(v.iter().filter(|m| m.is_collapsed == Some(true)).count(), 1);
    assert!(out.input.iter().any(|e| matches!(e, InputEvent::RefreshBoardTasks)));
}

#[test]
fn a_written_file_is_tracked() {
    let mut s = build_state();
    let mut out = outbox();
    let r = ToolCallResult {
        call: call("w", "create", "{\"path\":\"src/n.rs\",\"file_text\":\"a\\nb\\n\"}"),
        result: "created".to_string(),
        status: ToolCallResultStatus::Success,
    };
    let disk = DiskFacts {
        content: Some("a\nb\n".to_string()),
        exists: true,
        backup: None,
    };
    take_tool_result(&mut s, &r, disk, &mut out);
    let files = &s.side_panel_state.changeset.files;
    assert_eq!(files.len(), 1);
    assert_eq!(files[0].path, "src/n.rs");
    assert_eq!(files[0].display_name, "n.rs");
    assert!(files[0].state == FileState::Created);
    assert_eq!(files[0].total_lines_added(), 2);
}

#[test]
fn nothing_runs_once_everything_was_rejected() {
    let mut s = build_state();
    s.dialog_approval_state
        .approval_bar
        .add_actions(&vec![command_call("a"), command_call("b")]);
    handle_approval_bar_reject_all(&mut s);
    let bar = &s.dialog_approval_state.approval_bar;
    assert!(bar.tool_calls_with(ApprovalStatus::Approved).is_empty());
    assert_eq!(bar.tool_calls_with(ApprovalStatus::Rejected).len(), 2);
}

#[test]
fn escape_leaves_nothing_that_waits() {
    let mut s = build_state();
    let mut out = outbox();
    let c = command_call("c1");
    handle_message_tool_calls(&mut s, vec![(c.clone(), false)]);
    s.dialog_approval_state.toggle_approved_message = false;
    handle_show_confirmation_dialog(&mut s, c, false, &mut out);
    assert!(s.dialog_approval_state.is_dialog_open);
    let pending = s.tool_call_state.pending_bash_message_id.unwrap();
    assert!(s.messages_scrolling_state.messages.iter().any(|m| m.id == pending));
    handle_esc(&mut s, Some("no".to_string()), true, None, &mut out);
    assert!(!s.dialog_approval_state.is_dialog_open);
    assert!(s.messages_scrolling_state.messages.iter().all(|m| m.id != pending));
    assert!(matches!(&out.output[..], [OutputEvent::RejectTool(c, true)] if c.id == "c1"));
    assert!(out.effects.iter().any(|e| matches!(e, Effect::CancelStream)));
    assert!(s.messages_scrolling_state.messages.iter().all(|m| !matches!(
        m.content,
        MessageContent::RenderPendingBorderBlock(_, _)
    )));
}

#[test]
fn a_rejected_first_call_is_told_to_the_backend() {
    let mut s = build_state();
    let mut out = outbox();
    let calls = vec![command_call("a"), command_call("b")];
    handle_message_tool_calls(&mut s, vec![(calls[0].clone(), false), (calls[1].clone(), false)]);
    s.dialog_approval_state.message_tool_calls = Some(calls.clone());
    s.dialog_approval_state.approval_bar.clear();
    s.dialog_approval_state.approval_bar.add_actions(&calls);
    handle_approval_bar_reject_all(&mut s);
    handle_input_submitted_event(&mut s, submission(""), &mut out);
    assert!(s.dialog_approval_state.is_dialog_open);
    let reject = out.input.pop().unwrap();
    assert!(matches!(reject, InputEvent::HandleReject(Some(_), true, None)));
    let _ = update(&mut s, reject, facts(), &mut out);
    assert!(out.output.iter().any(|e| matches!(e, OutputEvent::RejectTool(c, true) if c.id == "a")));
    assert!(!s.dialog_approval_state.is_dialog_open);
}

// ----- the shell -----

#[test]
fn output_behind_a_smaller_screen_is_shown() {
    let mut s = build_state();
    let mut out = outbox();
    let shell = ShellCommand { id: "1".to_string(), command: "bash".to_string() };
    handle_shell_started(&mut s, shell, 10, 40);
    let wrote = InputEvent::ShellOutput("one\r\n".to_string(), String::new());
    assert_eq!(take_event(&mut s, wrote, facts(), &mut out), Some(1));
    let _ = update(&mut s, InputEvent::Resized(20, 6), facts(), &mut out);
    assert!(!can_show_output(&s));
    let wrote = InputEvent::ShellOutput("two".to_string(), String::new());
    assert!(take_event(&mut s, wrote, facts(), &mut out).is_some());
    assert!(can_show_output(&s));
    let id = s.shell_session_state.interactive_shell_message_id.unwrap();
    let m = s.messages_scrolling_state.messages.iter().find(|m| m.id == id).unwrap();
    match &m.content {
        MessageContent::RenderRefreshedTerminal(_, rows, _, _) => {
            let rows: Vec<String> = rows.iter().map(|l| l.text()).collect();
            assert_eq!(rows, ["one", "two"]);
        }
        _ => panic!("the shell is shown"),
    }
}

#[test]
fn the_command_of_a_call_is_read_from_its_arguments() {
    assert_eq!(
        extract_command_from_tool_call(&call("a", "run", "{\"command\":\"ls -l\"}")),
        Ok("ls -l".to_string())
    );
    assert!(extract_command_from_tool_call(&call("a", "run", "{\"x\":1}")).is_err());
    assert!(extract_command_from_tool_call(&call("a", "run", "no json")).is_err());
    assert!(command_in_fields(&Vec::new()).is_err());
}

#[test]
fn blank_rows_at_the_end_are_dropped() {
    let v = trim_shell_lines(vec![line(""), line("a"), line(" "), line("")]);
    assert_eq!(v.len(), 2);
    assert_eq!(v[1].text(), "a");
    assert!(trim_shell_lines(vec![line(""), line("  ")]).is_empty());
}

#[test]
fn prompts_end_in_a_sign() {
    assert!(looks_like_prompt("user@host:~$ "));
    assert!(looks_like_prompt("# "));
    assert!(looks_like_prompt("sh>"));
    assert!(!looks_like_prompt("output"));
    assert!(!looks_like_prompt(""));
}

#[test]
fn a_shell_command_gives_one_result() {
    let mut s = build_state();
    let mut out = outbox();
    s.dialog_approval_state.dialog_command = Some(command_call("c1"));
    handle_run_shell_with_command(&mut s, "ls".to_string(), &mut out);
    assert!(out.effects.iter().any(|e| matches!(e, Effect::SpawnShell(_, _))));
    let shell = ShellCommand { id: "1".to_string(), command: "ls".to_string() };
    handle_shell_started(&mut s, shell, 24, 80);
    assert!(s.shell_popup_state.active_shell_command.is_some());
    let done = handle_shell_output(&mut s, "file\r\n".to_string(), "file\n".to_string());
    assert!(!done);
    assert!(s.shell_session_state.interactive_shell_message_id.is_some());
    handle_shell_completed(
        &mut s,
        Some("ls".to_string()),
        Some("file".to_string()),
        &mut out,
    );
    let results = out
        .output
        .iter()
        .filter(|e| matches!(e, OutputEvent::SendToolResult(_, _, _)))
        .count();
    assert_eq!(results, 1);
    assert!(s.shell_popup_state.active_shell_command.is_none());
}

#[test]
fn a_visit_to_the_shell_is_reported_as_a_call() {
    let mut s = build_state();
    let r = shell_command_to_tool_call_result(&s, Some("ls".to_string()), None);
    let number = r.call.id.strip_prefix("tool_").expect("the call has a number");
    assert_eq!(number.len(), 36);
    assert_eq!(number.matches('-').count(), 4);
    assert_eq!(r.call.function.name, "run_command");
    assert_eq!(r.call.function.arguments, "{\"command\": \"ls\"}");
    s.dialog_approval_state.dialog_command = Some(command_call("c1"));
    assert_eq!(r.result, "Interactive shell exited");
    let r = shell_command_to_tool_call_result(&s, None, Some("out\nmore\n$ ".to_string()));
    assert_eq!(r.call.id, "c1");
    assert_eq!(r.result, "out\nmore");
    let r = shell_command_to_tool_call_result(&s, None, Some("$ ".to_string()));
    assert_eq!(r.result, "Command completed (no output)");
}

#[test]
fn killing_the_shell_asks_for_it_once() {
    let mut s = build_state();
    let mut out = outbox();
    handle_shell_kill(&mut s, &mut out);
    assert!(out.effects.is_empty());
    let shell = ShellCommand { id: "1".to_string(), command: String::new() };
    handle_shell_started(&mut s, shell, 24, 80);
    handle_shell_kill(&mut s, &mut out);
    assert!(matches!(out.effects[..], [Effect::KillShell]));
    assert!(s.shell_popup_state.active_shell_command.is_none());
}

#[test]
fn the_last_call_can_be_run_again() {
    let mut s = build_state();
    let mut out = outbox();
    handle_retry_tool_call(&mut s, &mut out);
    assert!(out.input.is_empty());
    s.tool_call_state.latest_tool_call = Some(command_call("c1"));
    handle_retry_tool_call(&mut s, &mut out);
    assert!(out.input.iter().any(|e| matches!(e, InputEvent::RunShellWithCommand(c) if c == "ls")));
}

// ----- moving about -----

#[test]
fn down_and_up_come_back() {
    let mut s = build_state();
    s.input_state.filtered_helpers = vec![helper("/a"), helper("/b"), helper("/c")];
    s.input_state.show_helper_dropdown = true;
    s.set_input("/");
    handle_dropdown_down(&mut s);
    assert_eq!(s.input_state.helper_selected, 1);
    handle_dropdown_up(&mut s);
    assert_eq!(s.input_state.helper_selected, 0);
    handle_dropdown_up(&mut s);
    assert_eq!(s.input_state.helper_selected, 0);
    for _ in 0..5 {
        handle_dropdown_down(&mut s);
    }
    assert_eq!(s.input_state.helper_selected, 2);
}

#[test]
fn the_view_stays_in_the_conversation() {
    let mut s = build_state();
    let m = &mut s.messages_scrolling_state;
    m.stay_at_bottom = true;
    adjust_scroll(m, &measures(10, 35));
    assert_eq!(m.scroll, 25);
    handle_page_up(m, 10);
    assert_eq!(m.scroll, 18);
    assert!(!m.stay_at_bottom);
    adjust_scroll(m, &measures(10, 35));
    assert_eq!(m.scroll, 18);
    adjust_scroll(m, &measures(10, 12));
    assert_eq!(m.scroll, 2);
    adjust_scroll(m, &measures(10, 12));
    assert_eq!(m.scroll, 2);
    adjust_scroll(m, &measures(10, 3));
    assert_eq!(m.scroll, 0);
}

#[test]
fn steps_up_and_down_cancel() {
    let mut b = ScrollBatch::new();
    assert!(b.take(&InputEvent::ScrollUp));
    assert!(b.take(&InputEvent::ScrollUp));
    assert!(b.take(&InputEvent::ScrollDown));
    assert!(!b.take(&InputEvent::Quit));
    let (e, n) = b.combined();
    assert!(matches!(e, InputEvent::ScrollUp));
    assert_eq!(n, 1);
    b.take(&InputEvent::ScrollDown);
    assert_eq!(b.combined().1, 0);
}

#[test]
fn the_pages_of_the_help_come_round() {
    let mut s = build_state();
    s.shortcuts_panel_state.is_visible = true;
    s.shortcuts_panel_state.mode = ShortcutsPopupMode::Commands;
    for _ in 0..3 {
        handle_tab(&mut s, None, 0, &measures(10, 0));
    }
    assert!(s.shortcuts_panel_state.mode == ShortcutsPopupMode::Commands);
}

#[test]
fn two_attempts_within_two_seconds_quit() {
    let mut s = build_state();
    let mut out = outbox();
    s.insert_str("draft");
    handle_attempt_quit(&mut s, 1_000, &mut out);
    assert_eq!(s.input(), "");
    assert!(out.input.is_empty());
    handle_attempt_quit(&mut s, 3_000, &mut out);
    assert!(matches!(out.input[..], [InputEvent::Quit]));
    let mut out = outbox();
    handle_attempt_quit(&mut s, 10_000, &mut out);
    handle_attempt_quit(&mut s, 12_001, &mut out);
    assert!(out.input.is_empty());
    tick(&mut s, 14_002);
    assert!(!s.quit_intent_state.ctrl_c_pressed_once);
    assert_eq!(s.loading_state.spinner_frame, 1);
}

#[test]
fn collapsed_messages_are_shown_and_left() {
    let mut s = build_state();
    s.messages_scrolling_state
        .messages
        .push(Message::collapsed(MessageContent::PlainText("x".to_string())));
    handle_toggle_collapsed_messages(&mut s, &measures(10, 1));
    assert!(s.messages_scrolling_state.show_collapsed_messages);
    handle_toggle_collapsed_messages(&mut s, &measures(10, 1));
    assert!(!s.messages_scrolling_state.show_collapsed_messages);
}

// ----- popups -----

#[test]
fn choosing_the_profile_in_use_switches_nothing() {
    let mut s = build_state();
    let mut out = outbox();
    s.profile_switcher_state.available_profiles = strings(&["one", "two"]);
    s.profile_switcher_state.current_profile_name = "one".to_string();
    handle_show_profile_switcher(&mut s);
    assert!(s.profile_switcher_state.show_profile_switcher);
    s.profile_switcher_state.selected_index = 0;
    handle_profile_switcher_select(&mut s, &mut out);
    assert!(out.output.is_empty());
    s.profile_switcher_state.show_profile_switcher = true;
    s.profile_switcher_state.selected_index = 1;
    handle_profile_switcher_select(&mut s, &mut out);
    assert!(matches!(&out.output[..], [OutputEvent::RequestProfileSwitch(p)] if p == "two"));
}

#[test]
fn nothing_gets_through_while_the_profile_is_switched() {
    let mut s = build_state();
    s.profile_switcher_state.switching_in_progress = true;
    assert!(route(&s, &InputEvent::InputChanged('a'), false) == Layer::Blocked);
    assert!(route(&s, &InputEvent::AttemptQuit, false) != Layer::Blocked);
    let failed = InputEvent::ProfileSwitchFailed("no".to_string());
    assert!(route(&s, &failed, true) != Layer::Blocked);
    let mut out = outbox();
    let owed = update(&mut s, InputEvent::InputChanged('a'), facts(), &mut out);
    assert_eq!(owed, 0);
    assert_eq!(s.input(), "");
}

#[test]
fn popups_take_keys_but_not_reports() {
    let mut s = build_state();
    s.file_changes_popup_state.is_visible = true;
    assert!(route(&s, &InputEvent::Up, false) == Layer::FileChanges);
    assert!(route(&s, &InputEvent::HasUserMessage, true) == Layer::Normal);
    s.message_interaction_state.show_message_action_popup = true;
    assert!(route(&s, &InputEvent::Up, false) == Layer::MessageActions);
}

#[test]
fn toggling_a_rulebook_twice_changes_nothing() {
    let mut s = build_state();
    let mut out = outbox();
    let book = |uri: &str| ListRuleBook {
        uri: uri.to_string(),
        description: String::new(),
        tags: Vec::new(),
    };
    handle_rulebooks_loaded(&mut s, vec![book("stakpak://a"), book("stakpak://b")]);
    s.rulebook_switcher_state.show_rulebook_switcher = true;
    s.rulebook_switcher_state.selected_rulebooks.clear();
    s.rulebook_switcher_state.is_selected = 1;
    handle_rulebook_switcher_toggle(&mut s);
    assert!(s.rulebook_switcher_state.selected_rulebooks.contains("stakpak://b"));
    handle_rulebook_switcher_toggle(&mut s);
    assert_eq!(s.rulebook_switcher_state.selected_rulebooks.len(), 0);
    handle_rulebook_switcher_toggle(&mut s);
    handle_rulebook_switcher_confirm(&mut s, &mut out);
    assert!(matches!(
        &out.output[..],
        [OutputEvent::RequestRulebookUpdate(v)] if v == &strings(&["stakpak://b"])
    ));
}

#[test]
fn models_stand_by_provider() {
    let mut s = build_state();
    let mut out = outbox();
    let model = |id: &str, provider: &str| Model::custom(id, provider, 1000);
    s.model_switcher_state.recent_models = strings(&["mine/own"]);
    handle_show_model_switcher(&mut s, &mut out);
    handle_available_models_loaded(
        &mut s,
        &vec![model("z", "openai"), model("a", "acme"), model("b", "acme")],
        9000,
        &mut out,
    );
    let shown: Vec<(&str, &str)> = s
        .model_switcher_state
        .available_models
        .iter()
        .map(|m| (m.provider.as_str(), m.id.as_str()))
        .collect();
    assert_eq!(shown.len(), 4);
    assert!(shown.contains(&("mine", "own")));
    let a = shown.iter().position(|p| *p == ("acme", "a")).unwrap();
    let b = shown.iter().position(|p| *p == ("acme", "b")).unwrap();
    let z = shown.iter().position(|p| *p == ("openai", "z")).unwrap();
    assert!(a < b && b < z);
}

#[test]
fn the_model_in_use_is_noted_among_five() {
    let mut s = build_state();
    let mut out = outbox();
    handle_recent_models_updated(&mut s, strings(&["p/1", "p/2", "p/3", "p/4", "p/5"]), 9000);
    s.model_switcher_state.current_model = Some(Model::custom("new", "p", 1000));
    handle_available_models_loaded(&mut s, &Vec::new(), 9000, &mut out);
    let noted = strings(&["p/new", "p/1", "p/2", "p/3", "p/4"]);
    assert_eq!(s.model_switcher_state.recent_models, noted);
    assert!(out.output.iter().any(|e| matches!(e, OutputEvent::SaveRecentModels(v)
        if v == &noted)));
}

#[test]
fn a_chosen_model_is_switched_to() {
    let mut s = build_state();
    let mut out = outbox();
    s.model_switcher_state.is_visible = true;
    s.model_switcher_state.available_models = vec![Model::custom("new", "p", 1000)];
    handle_model_switcher_select(&mut s, &Vec::new(), &mut out);
    assert!(out.output.is_empty());
    handle_model_switcher_select(&mut s, &vec![0], &mut out);
    assert!(!s.model_switcher_state.is_visible);
    assert!(matches!(&out.output[..], [OutputEvent::SwitchToModel(m)] if m.id == "new"));
}

#[test]
fn models_are_passed_in_the_order_shown() {
    let mut s = build_state();
    s.model_switcher_state.is_selected = 4;
    pass_model(&mut s, &vec![4, 2, 7], false);
    assert_eq!(s.model_switcher_state.is_selected, 2);
    pass_model(&mut s, &vec![4, 2, 7], true);
    assert_eq!(s.model_switcher_state.is_selected, 4);
}

#[test]
fn the_popup_of_an_own_message_goes_round() {
    let mut s = build_state();
    let mut out = outbox();
    handle_message_action_popup_navigate(&mut s, 1);
    assert_eq!(s.message_interaction_state.message_action_popup_selected, 1);
    handle_message_action_popup_navigate(&mut s, 1);
    assert_eq!(s.message_interaction_state.message_action_popup_selected, 0);
    handle_message_action_popup_navigate(&mut s, -1);
    assert_eq!(s.message_interaction_state.message_action_popup_selected, 1);
    handle_message_action_popup_navigate(&mut s, -1);
    s.message_interaction_state.show_message_action_popup = true;
    s.message_interaction_state.message_action_target_text = Some("mine".to_string());
    handle_message_action_popup_execute(&mut s, &mut out);
    assert!(matches!(&out.effects[..], [Effect::CopyToClipboard(t)] if t == "mine"));
    assert!(!s.message_interaction_state.show_message_action_popup);
    handle_reverted_since(&mut s, Ok((1, 2)));
    assert!(matches!(&s.toast, Some(Toast::Success(t))
        if t == "Reverted 1 file(s), deleted 2 created file(s)"));
}

#[test]
fn files_are_searched_and_reverted() {
    let mut s = with_files(&["src/a.rs", "src/b.rs", "doc.md"]);
    let mut out = outbox();
    handle_file_changes_popup_navigate(&mut s, 1);
    assert_eq!(s.file_changes_popup_state.is_selected, 1);
    handle_file_changes_popup_navigate(&mut s, 1);
    handle_file_changes_popup_navigate(&mut s, 1);
    assert!(s.file_changes_popup_state.is_selected < 3);
    for c in "DOC".chars() {
        handle_file_changes_popup_search_input(&mut s, c);
    }
    assert_eq!(s.file_changes_popup_state.is_selected, 0);
    handle_file_changes_popup_revert(&mut s, &mut out);
    assert!(matches!(&out.effects[..], [Effect::RevertFile(p)] if p == "doc.md"));
    handle_file_reverted(&mut s, "doc.md", Ok(("done".to_string(), true)));
    assert!(s.side_panel_state.changeset.files[2].state == FileState::Reverted);
    s.file_changes_popup_state.search.clear();
    handle_file_changes_popup_revert_all(&mut s, &mut out);
    match &out.effects[1] {
        Effect::RevertAll(paths) => assert_eq!(paths.len(), 2),
        _ => panic!("all files are reverted"),
    }
    handle_files_reverted(
        &mut s,
        &vec![Reverted { path: "src/a.rs".to_string(), done: true, exists: false }],
    );
    assert!(s.side_panel_state.changeset.files[0].state == FileState::Deleted);
}

#[test]
fn the_popup_of_changed_files_is_laid_out() {
    let s = with_files(&["src/a.rs", "src/b.rs"]);
    let screen = Rect { x: 0, y: 0, width: 100, height: 40 };
    let p = render_file_changes_popup(screen, &s);
    assert!(p.area.width <= 100 && p.area.height <= 40);
    assert_eq!(p.title_area.x, p.footer_area.x);
    assert!(p.title_area.y < p.search_area.y);
    assert!(p.search_area.y < p.files_area.y);
    assert!(p.files_area.y < p.footer_area.y);
    assert_eq!(p.footer_area.height, 1);
    let shown: Vec<String> = p.files.iter().map(|l| l.text()).collect();
    assert!(shown[0].contains("src/a.rs"));
    assert!(shown[0].contains("+2"));
    assert!(shown[0].contains("-1"));
    assert!(shown[1].contains("src/b.rs"));
}

#[test]
fn a_click_meets_the_file_that_is_drawn_there() {
    let mut s = with_files(&["src/a.rs", "src/b.rs"]);
    let screen = Rect { x: 0, y: 0, width: 100, height: 50 };
    let p = render_file_changes_popup(screen, &s);
    assert_eq!((p.area.x, p.area.width, p.area.y, p.area.height), (10, 80, 15, 20));
    assert_eq!(p.files_area.y, 20);
    handle_file_changes_popup_mouse_click(&mut s, 100, 50, 12, 20);
    assert_eq!(s.side_panel_state.pending_editor_open.as_deref(), Some("src/a.rs"));
    handle_file_changes_popup_mouse_click(&mut s, 100, 50, 89, 21);
    assert_eq!(s.side_panel_state.pending_editor_open.as_deref(), Some("src/b.rs"));
    s.side_panel_state.pending_editor_open = None;
    handle_file_changes_popup_mouse_click(&mut s, 100, 50, 90, 20);
    handle_file_changes_popup_mouse_click(&mut s, 100, 50, 9, 20);
    handle_file_changes_popup_mouse_click(&mut s, 100, 50, 12, 19);
    handle_file_changes_popup_mouse_click(&mut s, 100, 50, 12, 33);
    assert_eq!(s.side_panel_state.pending_editor_open, None);
}

#[test]
fn a_popup_without_room_still_lists_files() {
    let s = with_files(&["a", "b", "c", "d"]);
    for height in 5..60 {
        let screen = Rect { x: 0, y: 0, width: 80, height };
        let p = render_file_changes_popup(screen, &s);
        let inner = p.area.height - 2;
        let fixed = 5;
        let expected = if inner >= fixed + 3 { inner - fixed } else { inner.min(3) };
        assert_eq!(p.files_area.height, expected);
        assert_eq!(p.files.len(), expected.min(4) as usize);
        let rows = [p.title_area, p.search_area, p.files_area, p.footer_area];
        let mut y = p.area.y + 1;
        for (row, most) in rows.iter().zip([1, 3, u16::MAX, 1]) {
            assert_eq!(row.y, y);
            assert!(row.height <= most);
            y += row.height;
        }
        assert_eq!(y, p.area.y + 1 + inner);
    }
}

#[test]
fn the_search_gives_way_first_where_rows_do_not_fit() {
    let mut s = with_files(&["a", "b", "c", "d"]);
    for width in 2..90 {
        for height in 5..32 {
            let screen = Rect { x: 0, y: 0, width, height };
            let p = render_file_changes_popup(screen, &s);
            let expected = match p.area.height - 2 {
                0 => [0, 0, 0, 0],
                1 => [0, 0, 1, 0],
                2 => [0, 0, 2, 0],
                3 => [0, 0, 3, 0],
                4 => [0, 0, 3, 1],
                5 => [1, 0, 3, 1],
                6 => [1, 1, 3, 1],
                7 => [1, 2, 3, 1],
                inner => [1, 3, inner - 5, 1],
            };
            let rows = [p.title_area, p.search_area, p.files_area, p.footer_area];
            assert_eq!(rows.map(|r| r.height), expected, "in {width} by {height}");
        }
    }
    // On a screen of 24 rows the list starts one row higher than on a large one.
    let p = render_file_changes_popup(Rect { x: 0, y: 0, width: 80, height: 24 }, &s);
    assert_eq!(p.files_area.y, p.area.y + 4);
    handle_file_changes_popup_mouse_click(&mut s, 80, 24, 40, p.files_area.y + 1);
    assert_eq!(s.side_panel_state.pending_editor_open.as_deref(), Some("b"));
}

// ----- selecting text -----

#[test]
fn a_drag_selects_and_copies() {
    let mut s = build_state();
    let mut out = outbox();
    s.message_interaction_state.message_area_y = 1;
    s.message_interaction_state.message_area_height = 10;
    s.messages_scrolling_state.assembled_lines_cache =
        Some((0..20).map(|i| line(&format!("row {i}"))).collect());
    handle_drag_start(&mut s, 2, 3, &mut out);
    assert!(s.message_interaction_state.selection.active);
    assert_eq!(s.message_interaction_state.selection.start_line, Some(2));
    handle_drag(&mut s, 5, 6, &mut out);
    assert_eq!(s.message_interaction_state.selection.end_line, Some(5));
    handle_drag_end(&mut s, 5, 6, &mut out);
    assert!(!s.message_interaction_state.selection.active);
    assert_eq!(s.message_interaction_state.selection_auto_scroll, 0);
    assert!(out.effects.iter().any(|e| matches!(e, Effect::CopySelection(_, _))));
    handle_copied(&mut s, true);
    assert!(s.toast.is_some());
}

#[test]
fn the_view_scrolls_under_a_drag_at_its_edge() {
    let mut s = build_state();
    let mut out = outbox();
    s.message_interaction_state.message_area_height = 10;
    s.messages_scrolling_state.assembled_lines_cache =
        Some((0..40).map(|i| line(&format!("row {i}"))).collect());
    s.messages_scrolling_state.scroll = 5;
    handle_drag_start(&mut s, 0, 4, &mut out);
    handle_drag(&mut s, 0, 0, &mut out);
    assert!(s.message_interaction_state.selection_auto_scroll < 0);
    for _ in 0..20 {
        tick_selection_auto_scroll(&mut s);
    }
    assert_eq!(s.messages_scrolling_state.scroll, 0);
}

// ----- the event loop -----

#[test]
fn events_are_told_apart() {
    assert!(classify(&InputEvent::Quit, false) == LoopAction::Quit);
    assert!(classify(&InputEvent::ScrollUp, false) == LoopAction::BatchScrolls);
    assert!(classify(&InputEvent::ScrollUp, true) == LoopAction::Update);
    assert!(classify(&InputEvent::ShellClear, true) == LoopAction::ToShell);
    assert!(classify(&InputEvent::Up, false) == LoopAction::Update);
    let r = InputEvent::ToolResult(result("a", ToolCallResultStatus::Success));
    assert!(classify(&r, true) == LoopAction::TakeResult);
}

#[test]
fn the_first_prompt_is_sent_where_it_is_asked_for() {
    let mut s = build_state();
    let mut out = outbox();
    s.configuration_state.init_prompt_content = Some("look round".to_string());
    start(
        &mut s,
        Start {
            banner: None,
            size: Size { width: 80, height: 24 },
            profile: "default".to_string(),
            rulebook_config: None,
            cwd: "/work".to_string(),
            send_init_prompt: true,
        },
        &mut out,
    );
    assert_eq!(s.profile_switcher_state.current_profile_name, "default");
    assert_eq!(s.terminal_ui_state.terminal_size.width, 80);
    assert!(out.output.iter().any(|e| matches!(e, OutputEvent::UserMessage(t, _, _, _)
        if t.contains("look round"))));
    assert!(all_rows(&s).contains("/work"));
}

#[test]
fn a_plan_is_opened_for_review_once() {
    let mut s = build_state();
    let mut out = outbox();
    take_plan_status(&mut s, PlanStatus::PendingReview, &mut out);
    take_plan_status(&mut s, PlanStatus::PendingReview, &mut out);
    assert!(matches!(out.effects[..], [Effect::PlanReview(ReviewAction::Open)]));
    take_plan_status(&mut s, PlanStatus::Drafting, &mut out);
    take_plan_status(&mut s, PlanStatus::PendingReview, &mut out);
    assert_eq!(out.effects.len(), 2);
}

#[test]
fn the_conversation_gets_what_the_rest_leaves() {
    let s = build_state();
    let (width, height) = message_area(&s, Size { width: 80, height: 24 }, 0);
    assert!(width <= 80);
    // One row, three for the input and two for the hint are below.
    assert_eq!(height, 24 - 6);
    for rows in 0..8 {
        let (_, height) = message_area(&s, Size { width: 80, height: rows }, 0);
        assert_eq!(height, rows.min(1).max(rows.saturating_sub(6)) as usize);
        let (_, height) = message_area_with_bar(&s, Size { width: 80, height: rows }, 0, 9);
        assert_eq!(height, rows.min(1) as usize);
    }
}

#[test]
fn the_editor_is_asked_for_once() {
    let mut s = build_state();
    s.side_panel_state.pending_editor_open = Some("a.rs".to_string());
    assert_eq!(take_editor_request(&mut s), Some("a.rs".to_string()));
    assert_eq!(take_editor_request(&mut s), None);
    handle_editor_failed(&mut s, "no editor");
    assert!(all_rows(&s).contains("no editor"));
    let on = s.terminal_ui_state.mouse_capture_enabled;
    assert_eq!(toggle_mouse_capture(&mut s), !on);
}

#[test]
fn tasks_of_the_board_are_fetched() {
    let mut s = build_state();
    let mut out = outbox();
    handle_refresh_board_tasks(&mut s, &None, &mut out);
    assert!(out.effects.is_empty());
    handle_refresh_board_tasks(&mut s, &Some("agent".to_string()), &mut out);
    assert!(matches!(&out.effects[..], [Effect::FetchTasks(t)] if t == "agent"));
    assert_eq!(s.side_panel_state.board_agent_id, Some("agent".to_string()));
}

#[test]
fn a_banner_is_put_up() {
    let mut s = build_state();
    handle_set_banner_message(&mut s, "hear".to_string(), BannerStyle::Info, 5);
    let b = s.banner_state.message.unwrap();
    assert_eq!((b.text.as_str(), b.created_at), ("hear", 5));
}

#[test]
fn errors_are_told_apart() {
    let mut s = build_state();
    handle_error(&mut s, "Unknown(\"no route\")".to_string(), "limit", "none left");
    assert!(all_rows(&s).contains("no route"));
    let mut s = build_state();
    handle_error(&mut s, "the limit".to_string(), "limit", "none left");
    assert!(all_rows(&s).contains("none left"));
    let mut s = build_state();
    handle_error(&mut s, "FREE_PLAN".to_string(), "limit", "none left");
    assert!(all_rows(&s).contains("Free plan limit reached."));
}

// ----- the lists -----

#[test]
fn commands_are_listed_under_the_input() {
    let mut s = build_state();
    let place = Rect { x: 0, y: 10, width: 60, height: 8 };
    assert!(render_helper_dropdown(&s, place).is_none());
    s.set_input("/");
    s.input_state.show_helper_dropdown = true;
    s.input_state.filtered_helpers = vec![helper("/help"), helper("/clear")];
    let d = render_helper_dropdown(&s, place).expect("there are commands");
    let shown: Vec<String> = d.rows.iter().map(|l| l.text()).collect();
    assert!(shown.iter().any(|r| r.contains("/help")));
    assert!(shown.iter().any(|r| r.contains("/clear")));
}

#[test]
fn files_are_listed_with_a_mark() {
    let mut s = build_state();
    let place = Rect { x: 0, y: 10, width: 60, height: 8 };
    assert!(matches!(render_file_search_dropdown(&s, place), Dropdown::Nothing));
    s.input_state.show_helper_dropdown = true;
    s.input_state.filtered_files = strings(&["src/main.rs", "notes.md"]);
    s.input_state.file_search.is_file_mode = true;
    s.input_state.file_search.filtered_files = strings(&["src/main.rs", "notes.md"]);
    s.input_state.file_search.trigger_char = Some('@');
    match render_file_search_dropdown(&s, place) {
        Dropdown::Files(d) => {
            assert_eq!(d.rows.len(), 2);
            assert!(d.rows[0].text().contains("src/main.rs"));
            assert!(d.rows[0].text().contains(get_file_icon("main.rs")));
        }
        _ => panic!("files are listed"),
    }
    assert_ne!(get_file_icon("a.rs"), get_file_icon("a.md"));
}
