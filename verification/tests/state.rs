use stakpak_tui::app::AppState;
use stakpak_tui::app::AppStateOptions;
use stakpak_tui::approval_bar::ApprovalBar;
use stakpak_tui::approval_bar::ApprovalStatus;
use stakpak_tui::changeset::Changeset;
use stakpak_tui::changeset::FileEdit;
use stakpak_tui::changeset::FileState;
use stakpak_tui::changeset::SectionFlags;
use stakpak_tui::changeset::SidePanelSection;
use stakpak_tui::changeset::reverted_state;
use stakpak_tui::events::Effect;
use stakpak_tui::events::InputEvent;
use stakpak_tui::events::Outbox;
use stakpak_tui::events::OutputEvent;
use stakpak_tui::geometry::Rect;
use stakpak_tui::helper_block::get_stakpak_version;
use stakpak_tui::helper_block::push_clear_message;
use stakpak_tui::helper_block::push_error_message;
use stakpak_tui::helper_block::push_help_message;
use stakpak_tui::helper_block::push_issue_message;
use stakpak_tui::helper_block::push_memorize_message;
use stakpak_tui::helper_block::push_status_message;
use stakpak_tui::helper_block::push_support_message;
use stakpak_tui::helper_block::push_usage_message;
use stakpak_tui::helper_block::render_system_message;
use stakpak_tui::helper_block::version_message;
use stakpak_tui::helper_block::welcome_messages;
use stakpak_tui::message::Message;
use stakpak_tui::message::MessageContent;
use stakpak_tui::message::find_message;
use stakpak_tui::message::remove_message;
use stakpak_tui::message::set_content_of;
use stakpak_tui::models::FunctionCall;
use stakpak_tui::models::Model;
use stakpak_tui::models::ToolCall;
use stakpak_tui::shell_screen::Terminal;
use stakpak_tui::style::Color;
use stakpak_tui::style::Line;
use stakpak_tui::types::CommandSource;
use stakpak_tui::types::FileSearchResult;
use stakpak_tui::types::HelperCommand;
use stakpak_tui::types::LoadingOperation;
use stakpak_tui::types::LoadingStateManager;
use stakpak_tui::types::LoadingType;
use stakpak_tui::types::PlanMetadata;
use stakpak_tui::types::PlanStatus;
use stakpak_tui::types::RenderMetrics;

fn build_state() -> AppState {
    AppState::new(AppStateOptions {
        latest_version: None,
        is_git_repo: false,
        allowed_tools: None,
        model: Model::custom("", "", 0),
        editor_command: None,
        auth_display_info: (None, None, None),
        board_agent_id: None,
        init_prompt_content: None,
        recent_models: Vec::new(),
        helpers: Vec::new(),
        interactive_commands: Vec::new(),
        now: 0,
    })
}

fn call(id: &str) -> ToolCall {
    ToolCall {
        id: id.to_string(),
        call_type: "function".to_string(),
        function: FunctionCall {
            name: "run_command".to_string(),
            bare_name: "run_command".to_string(),
            arguments: "{}".to_string(),
        },
        metadata: None,
    }
}

fn ids(v: &[ToolCall]) -> Vec<&str> {
    v.iter().map(|c| c.id.as_str()).collect()
}

fn rows(m: &Message) -> Vec<String> {
    match &m.content {
        MessageContent::Styled(l) => vec![l.text()],
        MessageContent::StyledBlock(v) => v.iter().map(|l| l.text()).collect(),
        MessageContent::Plain(t, _) => vec![t.clone()],
        MessageContent::Info(t, _) => vec![t.clone()],
        _ => Vec::new(),
    }
}

fn all_rows(s: &AppState) -> Vec<String> {
    s.messages_scrolling_state.messages.iter().flat_map(rows).collect()
}

fn texts(v: &[Line]) -> Vec<String> {
    v.iter().map(|l| l.text()).collect()
}

#[test]
fn a_fresh_state_is_empty() {
    let s = build_state();
    assert_eq!(s.input(), "");
    assert_eq!(s.cursor_position(), 0);
    assert!(s.messages_scrolling_state.messages.is_empty());
    assert!(!s.loading_state.is_loading);
    assert!(!s.is_input_blocked());
    assert_eq!(s.side_panel_state.editor_command, "nano");
}

#[test]
fn typing_goes_to_the_cursor() {
    let mut s = build_state();
    s.insert_str("hllo");
    s.set_cursor_position(1);
    s.insert_char('é');
    assert_eq!((s.input(), s.cursor_position()), ("héllo", 3));
    s.set_input("new");
    assert_eq!(s.input(), "new");
    s.clear_input();
    assert_eq!((s.input(), s.cursor_position()), ("", 0));
}

#[test]
fn matching_files_are_offered() {
    let mut s = build_state();
    s.set_input("@ma");
    s.set_cursor_position(3);
    s.file_search_done(FileSearchResult {
        filtered_helpers: Vec::new(),
        filtered_files: vec!["main.rs".to_string()],
        cursor_position: 3,
        input: "@ma".to_string(),
    });
    assert_eq!(s.input_state.filtered_files, vec!["main.rs".to_string()]);
    assert!(s.input_state.show_helper_dropdown);
}

#[test]
fn the_plan_of_the_session_is_followed() {
    let mut s = build_state();
    let plan = |status, version| PlanMetadata { title: "T".to_string(), status, version };
    s.plan_mode_state.is_active = true;
    let r = s.poll_plan_file(Some(("h1".to_string(), Some(plan(PlanStatus::Drafting, 1)))));
    assert!(r == Some((None, PlanStatus::Drafting)));
    assert_eq!(s.plan_mode_state.content_hash, Some("h1".to_string()));
    assert_eq!(s.plan_mode_state.metadata.as_ref().map(|m| m.version), Some(1));
    let again = s.poll_plan_file(Some(("h1".to_string(), None)));
    assert!(again.is_none());
    let ready = plan(PlanStatus::PendingReview, 2);
    let r = s.poll_plan_file(Some(("h2".to_string(), Some(ready))));
    assert!(r == Some((Some(PlanStatus::Drafting), PlanStatus::PendingReview)));
    assert!(s.poll_plan_file(None).is_none());
    assert_eq!(s.plan_mode_state.content_hash, None);
}

#[test]
fn every_call_is_approved_or_rejected() {
    let mut bar = ApprovalBar::new();
    assert!(!bar.is_visible());
    bar.add_actions(&vec![call("a"), call("b"), call("c")]);
    assert!(bar.is_visible());
    assert_eq!(ids(&bar.tool_calls_with(ApprovalStatus::Approved)), ["a", "b", "c"]);
    bar.select_next();
    bar.toggle_selected();
    assert_eq!(ids(&bar.tool_calls_with(ApprovalStatus::Approved)), ["a", "c"]);
    assert_eq!(ids(&bar.tool_calls_with(ApprovalStatus::Rejected)), ["b"]);
    bar.reject_all();
    assert!(bar.tool_calls_with(ApprovalStatus::Approved).is_empty());
    bar.approve_all();
    assert!(bar.tool_calls_with(ApprovalStatus::Rejected).is_empty());
    bar.clear();
    assert!(!bar.is_visible());
}

#[test]
fn the_bar_goes_round() {
    let mut bar = ApprovalBar::new();
    bar.add_action(call("a"));
    bar.add_action(call("b"));
    bar.select_prev();
    assert_eq!(bar.selected, 1);
    bar.select_next();
    assert_eq!(bar.selected, 0);
    bar.select_action(3);
    assert_eq!(bar.selected, 0);
    bar.select_action(2);
    bar.set_selected(ApprovalStatus::Rejected);
    assert_eq!(ids(&bar.tool_calls_with(ApprovalStatus::Rejected)), ["b"]);
}

#[test]
fn sections_come_round() {
    let start = SidePanelSection::Context;
    let mut s = start;
    for _ in 0..4 {
        s = s.next();
    }
    assert!(s == start);
    let mut flags = SectionFlags { context: false, billing: false, tasks: true, changeset: false };
    flags.toggle(SidePanelSection::Tasks);
    assert!(!flags.get(SidePanelSection::Tasks));
    flags.toggle(SidePanelSection::Tasks);
    assert!(flags.get(SidePanelSection::Tasks));
    assert!(!flags.get(SidePanelSection::Context));
}

fn edit(added: usize) -> FileEdit {
    FileEdit {
        summary: "Edited file".to_string(),
        lines_added: added,
        lines_removed: 1,
        diff_preview: None,
        tool_call: None,
        user_message_index: 0,
    }
}

#[test]
fn edits_of_a_file_are_kept_together() {
    let mut c = Changeset::new();
    c.track_file("a/b.rs", "b.rs".to_string(), edit(3), false);
    c.track_file("a/b.rs", "b.rs".to_string(), edit(4), false);
    c.track_file("n.rs", "n.rs".to_string(), edit(1), true);
    assert_eq!(c.file_count(), 2);
    assert_eq!(c.find("a/b.rs"), Some(0));
    assert_eq!(c.find("x"), None);
    assert_eq!(c.files[0].edits.len(), 2);
    assert_eq!(c.files[0].total_lines_added(), 7);
    assert_eq!(c.files[0].total_lines_removed(), 2);
    assert!(c.files[1].state == FileState::Created);
    c.mark_removed("n.rs", "n.rs".to_string(), Some("/tmp/n".to_string()));
    assert!(c.files[1].state == FileState::Removed);
    c.set_original_backup("a/b.rs", "/tmp/b".to_string());
    assert_eq!(c.files[0].original_backup, Some("/tmp/b".to_string()));
    assert!(reverted_state(FileState::Created, false) == FileState::Deleted);
}

#[test]
fn render_times_are_averaged() {
    let mut m = RenderMetrics::new();
    m.record_render(100, 1, 2, 3);
    assert_eq!(m.avg_render_time_us, 100);
    m.record_render(200, 1, 2, 3);
    assert_eq!(m.avg_render_time_us, 110);
    assert_eq!(m.last_render_time_us, 200);
    assert_eq!(m.render_count, 2);
    m.reset();
    assert_eq!(m.render_count, 0);
}

#[test]
fn an_operation_that_ended_is_over() {
    let mut m = LoadingStateManager::new();
    assert!(!m.is_loading());
    m.start_operation(LoadingOperation::SessionsList);
    m.start_operation(LoadingOperation::LlmRequest);
    assert!(m.is_loading());
    assert!(m.get_loading_type() == LoadingType::Sessions);
    m.end_operation(LoadingOperation::SessionsList);
    assert!(m.is_loading());
    assert!(m.get_loading_type() == LoadingType::Llm);
    m.clear_all();
    assert!(!m.is_loading());
}

#[test]
fn messages_have_identifiers_of_their_own() {
    let a = Message::new(MessageContent::PlainText("a".to_string()));
    let b = Message::new(MessageContent::PlainText("b".to_string()));
    assert_ne!(a.id, 0);
    assert_ne!(a.id, b.id);
    let (x, y) = (a.id, b.id);
    let mut v = vec![a, b];
    assert_eq!(find_message(&v, y), Some(1));
    set_content_of(&mut v, y, MessageContent::PlainText("c".to_string()));
    assert!(matches!(&v[1].content, MessageContent::PlainText(t) if t == "c"));
    remove_message(&mut v, x);
    assert_eq!(v.len(), 1);
    assert_eq!(find_message(&v, x), None);
    remove_message(&mut v, 0);
    assert_eq!(v.len(), 1);
}

#[test]
fn a_full_channel_takes_nothing() {
    let mut out = Outbox::new(1, 1);
    assert!(out.send_output(OutputEvent::RequestAvailableModels));
    assert!(!out.send_output(OutputEvent::RequestAvailableModels));
    assert!(out.send_input(InputEvent::Quit));
    assert!(!out.send_input(InputEvent::Quit));
    out.ask(Effect::KillShell);
    assert_eq!((out.output.len(), out.input.len(), out.effects.len()), (1, 1, 1));
}

#[test]
fn a_rectangle_holds_its_cells() {
    let r = Rect::new(2, 3, 4, 1);
    assert!(r.contains(2, 3));
    assert!(r.contains(5, 3));
    assert!(!r.contains(6, 3));
    assert!(!r.contains(2, 4));
}

#[test]
fn the_emulator_draws_the_screen() {
    let t = Terminal::new(3, 10, 100);
    let t = t.process(b"one\r\n\x1b[31mtwo\x1b[0m");
    let (t, c) = t.capture();
    assert_eq!(texts(&c.lines), ["one", "two", ""]);
    assert_eq!((c.rows, c.scrollback), (3, 0));
    let red = c.lines[1].spans.iter().find(|s| s.content.contains("two")).unwrap();
    assert_eq!(red.style.fg, Some(Color::Indexed(1)));
    let t = t.process(b"\r\nthree\r\nfour");
    let (t, c) = t.capture();
    assert_eq!(texts(&c.lines), ["two", "three", "four"]);
    assert_eq!((c.rows, c.scrollback), (3, 1));
    let (_, c) = t.set_size(2, 10).capture();
    assert_eq!(c.rows, 2);
}

#[test]
fn a_small_screen_is_drawn_anew_to_take_output() {
    let t = Terminal::new(1, 1, 0);
    assert!(!t.can_read());
    let (t, c) = t.capture();
    assert_eq!((c.rows, c.lines.len()), (1, 1));
    let t = t.redraw();
    assert!(t.can_read());
    let (t, c) = t.process("漢字 wraps\u{17D8}".as_bytes()).capture();
    assert_eq!((c.rows, c.lines.len()), (2, 2));
    assert_eq!(c.scrollback, 0);
    assert!(!t.set_size(2, 65528).can_read());
}

#[test]
fn a_screen_that_grows_can_be_written_to() {
    let t = Terminal::new(3, 10, 0).process(b"\x1b[3;9H\x1b7one");
    let (_, c) = t.set_size(5, 20).process(b"\x1b8two").capture();
    assert_eq!(c.rows, 5);
    assert!(texts(&c.lines).iter().any(|l| l.contains("two")));
}

#[test]
fn a_screen_that_shrinks_is_cut_and_can_be_drawn_anew() {
    let t = Terminal::new(4, 10, 100).process(b"one\r\ntwo\r\nthree");
    let t = t.set_size(2, 10);
    assert!(!t.can_read());
    let (t, c) = t.capture();
    assert_eq!(texts(&c.lines), ["one", "two"]);
    assert_eq!(c.scrollback, 0);
    let t = t.redraw();
    assert!(t.can_read());
    let (_, c) = t.capture();
    assert_eq!(texts(&c.lines), ["two", "three"]);
    assert_eq!(c.scrollback, 1);
    let t = Terminal::new(3, 10, 100).process("\x1b[3;9H漢\x1b7\x1b[Hone\r\ntwo".as_bytes());
    let (t, c) = t.set_size(2, 9).redraw().process(b"\x1b8!").capture();
    assert_eq!((c.rows, c.lines.len()), (2, 2));
    assert!(texts(&c.lines).iter().any(|l| l.contains('!')));
    let (_, c) = t.set_size(2, 4).redraw().process(b"\x1b[2J\x1b[Hone").capture();
    assert_eq!(texts(&c.lines), ["one", ""]);
}

#[test]
fn the_status_names_the_directory() {
    let mut s = build_state();
    push_status_message(&mut s, "/work/here");
    assert!(all_rows(&s).iter().any(|r| r.contains("/work/here")));
    let mut s = build_state();
    push_memorize_message(&mut s);
    push_usage_message(&mut s);
    assert_eq!(s.messages_scrolling_state.messages.len(), 2);
}

#[test]
fn usage_is_grouped_by_thousands() {
    let mut s = build_state();
    s.usage_tracking_state.total_session_usage.prompt_tokens = 1234567;
    s.usage_tracking_state.total_session_usage.total_tokens = 1234567;
    push_usage_message(&mut s);
    assert!(all_rows(&s).iter().any(|r| r.contains("1,234,567")));
}

#[test]
fn help_lists_every_command() {
    let mut s = build_state();
    let commands = vec![
        HelperCommand {
            command: "/one".to_string(),
            description: "the first".to_string(),
            source: CommandSource::BuiltIn,
        },
        HelperCommand {
            command: "/two".to_string(),
            description: "the second".to_string(),
            source: CommandSource::BuiltIn,
        },
    ];
    push_help_message(&mut s, &commands);
    let all = all_rows(&s).join("\n");
    assert!(all.contains("/one"));
    assert!(all.contains("the second"));
}

#[test]
fn errors_are_shown_in_the_conversation() {
    let mut s = build_state();
    push_error_message(&mut s, "it broke", None);
    assert!(all_rows(&s).iter().any(|r| r.contains("it broke")));
    render_system_message(&mut s, "a note");
    assert!(all_rows(&s).iter().any(|r| r.contains("a note")));
    push_issue_message(&mut s, &None);
    push_support_message(&mut s, &Some("no browser".to_string()));
    let all = all_rows(&s).join("\n");
    assert!(all.contains("https://github.com/stakpak/cli/issues/new"));
    assert!(all.contains("no browser"));
}

#[test]
fn a_new_version_is_announced() {
    assert!(get_stakpak_version().starts_with('v') || !get_stakpak_version().is_empty());
    let newer = version_message(Some("v99.0.0".to_string()));
    assert!(rows(&newer).join("").contains("v99.0.0"));
    let s = build_state();
    let welcome = welcome_messages(Some("v99.0.0".to_string()), &s, "/work");
    let all: Vec<String> = welcome.iter().flat_map(rows).collect();
    assert!(all.iter().any(|r| r.contains("/work")));
    let mut s = build_state();
    push_error_message(&mut s, "old", None);
    push_clear_message(&mut s, "/work");
    assert!(!all_rows(&s).iter().any(|r| r.contains("old")));
}
