use stakpak_tui::app::AppState;
use stakpak_tui::app::AppStateOptions;
use stakpak_tui::ask_user::AskUserOption;
use stakpak_tui::ask_user::AskUserQuestion;
use stakpak_tui::ask_user::handle_show_ask_user_popup;
use stakpak_tui::events::InputEvent;
use stakpak_tui::events::Outbox;
use stakpak_tui::events::OutputEvent;
use stakpak_tui::geometry::Size;
use stakpak_tui::message::MessageContent;
use stakpak_tui::models::ContentPart;
use stakpak_tui::models::FunctionCall;
use stakpak_tui::models::Model;
use stakpak_tui::models::ToolCall;
use stakpak_tui::models::ToolCallResult;
use stakpak_tui::models::ToolCallResultStatus;
use stakpak_tui::navigation::Measures;
use stakpak_tui::types::LoadingOperation;
use stakpak_tui::types::PendingUserMessage;
use stakpak_tui::update::Facts;
use stakpak_tui::update::update;
use stakpak_tui::user_queue::flush_pending_user_messages_if_idle;

fn build_state() -> AppState {
    AppState::new(AppStateOptions {
        latest_version: None,
        is_git_repo: false,
        allowed_tools: None,
        model: Model::custom("", "", 0),
        editor_command: None,
        auth_display_info: (None, None, None),
        board_agent_id: None,
        init_prompt_content: None,
        recent_models: Vec::new(),
        helpers: Vec::new(),
        interactive_commands: Vec::new(),
        now: 0,
    })
}

fn facts() -> Facts {
    Facts::new(
        0,
        Measures {
            height: 10,
            total_lines: 0,
            last_message_lines: 0,
            collapsed_lines: 0,
            step: 1,
            commands: 0,
        },
        Size { width: 80, height: 24 },
    )
}

fn next_output(out: &mut Outbox) -> Option<OutputEvent> {
    if out.output.is_empty() {
        None
    } else {
        Some(out.output.remove(0))
    }
}

fn next_input(out: &mut Outbox) -> Option<InputEvent> {
    if out.input.is_empty() {
        None
    } else {
        Some(out.input.remove(0))
    }
}

fn make_tool_result(id: &str) -> ToolCallResult {
    ToolCallResult {
        call: ToolCall {
            id: id.to_string(),
            call_type: "function".to_string(),
            function: FunctionCall {
                name: "run_command".to_string(),
                bare_name: "run_command".to_string(),
                arguments: "{}".to_string(),
            },
            metadata: None,
        },
        result: format!("result-{id}"),
        status: ToolCallResultStatus::Success,
    }
}

fn make_image_part(label: &str) -> ContentPart {
    ContentPart {
        part_type: "text".to_string(),
        text: Some(label.to_string()),
        image_url: None,
    }
}

#[test]
fn pending_user_message_merge_combines_all_parts() {
    let mut first = PendingUserMessage::new(
        "first".to_string(),
        Some(vec![make_tool_result("t1")]),
        vec![ContentPart {
            part_type: "text".to_string(),
            text: Some("img-1".to_string()),
            image_url: None,
        }],
        "first".to_string(),
    );

    let second = PendingUserMessage::new(
        "second".to_string(),
        Some(vec![make_tool_result("t2")]),
        vec![ContentPart {
            part_type: "text".to_string(),
            text: Some("img-2".to_string()),
            image_url: None,
        }],
        "second".to_string(),
    );

    first.merge_from(second);

    assert_eq!(first.final_input, "first\n\nsecond");
    assert_eq!(first.user_message_text, "first\n\nsecond");
    assert_eq!(first.image_parts.len(), 2);
    assert_eq!(
        first
            .shell_tool_calls
            .as_ref()
            .map(std::vec::Vec::len)
            .unwrap_or_default(),
        2
    );
}

#[test]
fn pending_user_message_merge_skips_empty_text_with_no_extra_separator() {
    let mut first = PendingUserMessage::new("".to_string(), None, Vec::new(), "".to_string());

    let second = PendingUserMessage::new(
        "second".to_string(),
        None,
        vec![ContentPart {
            part_type: "text".to_string(),
            text: Some("img-2".to_string()),
            image_url: None,
        }],
        "second".to_string(),
    );

    first.merge_from(second);

    assert_eq!(first.final_input, "second");
    assert_eq!(first.user_message_text, "second");
    assert_eq!(first.image_parts.len(), 1);
}

#[test]
fn pending_user_message_merge_adopts_incoming_tool_calls_when_initially_none() {
    let mut first =
        PendingUserMessage::new("first".to_string(), None, Vec::new(), "first".to_string());

    let second = PendingUserMessage::new(
        "second".to_string(),
        Some(vec![make_tool_result("t2")]),
        Vec::new(),
        "second".to_string(),
    );

    first.merge_from(second);

    assert_eq!(
        first
            .shell_tool_calls
            .as_ref()
            .map(std::vec::Vec::len)
            .unwrap_or_default(),
        1
    );
}

#[test]
fn flush_pending_messages_merges_queue_into_single_user_message() {
    let mut state = build_state();
    state
        .user_message_queue_state
        .pending_user_messages
        .push_back(PendingUserMessage::new(
            "first".to_string(),
            Some(vec![make_tool_result("t1")]),
            vec![make_image_part("img-1")],
            "first".to_string(),
        ));
    state
        .user_message_queue_state
        .pending_user_messages
        .push_back(PendingUserMessage::new(
            "second".to_string(),
            Some(vec![make_tool_result("t2")]),
            vec![make_image_part("img-2")],
            "second".to_string(),
        ));

    let mut out = Outbox::new(8, 8);

    flush_pending_user_messages_if_idle(&mut state, &mut out);

    match next_output(&mut out) {
        Some(OutputEvent::UserMessage(text, Some(tool_calls), image_parts, _revert_index)) => {
            assert_eq!(text, "first\n\nsecond");
            assert_eq!(tool_calls.len(), 2);
            assert_eq!(image_parts.len(), 2);
        }
        other => panic!("unexpected output event: {:?}", other),
    }

    match next_input(&mut out) {
        Some(InputEvent::AddUserMessage(text)) => {
            assert_eq!(text, "first\n\nsecond");
        }
        other => panic!("unexpected input event: {:?}", other),
    }

    assert!(
        state
            .user_message_queue_state
            .pending_user_messages
            .is_empty()
    );
}

#[test]
fn flush_pending_messages_does_not_run_when_busy() {
    let mut state = build_state();
    state
        .loading_state
        .loading_manager
        .start_operation(LoadingOperation::StreamProcessing);
    state.loading_state.is_loading = true;

    state
        .user_message_queue_state
        .pending_user_messages
        .push_back(PendingUserMessage::new(
            "queued".to_string(),
            None,
            Vec::new(),
            "queued".to_string(),
        ));

    let mut out = Outbox::new(1, 1);

    flush_pending_user_messages_if_idle(&mut state, &mut out);

    assert!(out.output.is_empty());
    assert!(out.input.is_empty());
    assert_eq!(
        state.user_message_queue_state.pending_user_messages.len(),
        1
    );
}

#[test]
fn flush_pending_messages_requeues_when_output_channel_is_full() {
    let mut state = build_state();
    state
        .user_message_queue_state
        .pending_user_messages
        .push_back(PendingUserMessage::new(
            "queued".to_string(),
            Some(vec![make_tool_result("t1")]),
            vec![make_image_part("img-1")],
            "queued".to_string(),
        ));

    let mut out = Outbox::new(1, 1);

    let sent = out.send_output(OutputEvent::RequestTotalUsage);
    assert!(sent);

    flush_pending_user_messages_if_idle(&mut state, &mut out);

    assert_eq!(
        state.user_message_queue_state.pending_user_messages.len(),
        1
    );
    match state.user_message_queue_state.pending_user_messages.front() {
        Some(message) => {
            assert_eq!(message.final_input, "queued");
            assert_eq!(message.user_message_text, "queued");
        }
        None => panic!("expected queued pending message"),
    }

    match next_output(&mut out) {
        Some(OutputEvent::RequestTotalUsage) => {}
        other => panic!("unexpected output event: {:?}", other),
    }
    assert!(out.input.is_empty());
}

#[test]
fn flush_pending_messages_falls_back_to_local_user_message_when_input_channel_is_full() {
    let mut state = build_state();
    state
        .user_message_queue_state
        .pending_user_messages
        .push_back(PendingUserMessage::new(
            "queued".to_string(),
            None,
            Vec::new(),
            "queued".to_string(),
        ));

    let mut out = Outbox::new(1, 1);

    let sent = out.send_input(InputEvent::ToggleCursorVisible);
    assert!(sent);

    flush_pending_user_messages_if_idle(&mut state, &mut out);

    match next_output(&mut out) {
        Some(OutputEvent::UserMessage(text, _, _, _)) => {
            assert_eq!(text, "queued");
        }
        other => panic!("unexpected output event: {:?}", other),
    }

    match next_input(&mut out) {
        Some(InputEvent::ToggleCursorVisible) => {}
        other => panic!("unexpected input event: {:?}", other),
    }
    assert!(out.input.is_empty());

    assert!(
        state.messages_scrolling_state.messages
            .iter()
            .any(|message| matches!(&message.content, MessageContent::UserMessage(text) if text == "queued"))
    );
}

#[test]
fn update_invokes_flush_when_idle() {
    let mut state = build_state();
    state
        .user_message_queue_state
        .pending_user_messages
        .push_back(PendingUserMessage::new(
            "from-update".to_string(),
            None,
            Vec::new(),
            "from-update".to_string(),
        ));

    let mut out = Outbox::new(8, 8);

    update(&mut state, InputEvent::ToggleCursorVisible, facts(), &mut out);

    match next_output(&mut out) {
        Some(OutputEvent::UserMessage(text, _, _, _)) => assert_eq!(text, "from-update"),
        other => panic!("unexpected output event: {:?}", other),
    }

    match next_input(&mut out) {
        Some(InputEvent::AddUserMessage(text)) => assert_eq!(text, "from-update"),
        other => panic!("unexpected input event: {:?}", other),
    }
    assert!(
        state
            .user_message_queue_state
            .pending_user_messages
            .is_empty()
    );
}

#[test]
fn ask_user_arrows_navigate_options_via_update() {
    let mut state = build_state();
    let mut out = Outbox::new(8, 8);

    // Set up ask_user popup with 3 options
    let questions = vec![AskUserQuestion {
        label: "Pick".to_string(),
        question: "Pick one".to_string(),
        options: vec![
            AskUserOption {
                value: "a".to_string(),
                label: "A".to_string(),
                description: None,
                selected: false,
            },
            AskUserOption {
                value: "b".to_string(),
                label: "B".to_string(),
                description: None,
                selected: false,
            },
            AskUserOption {
                value: "c".to_string(),
                label: "C".to_string(),
                description: None,
                selected: false,
            },
        ],
        allow_custom: false,
        multi_select: false,
    }];
    let tool_call = ToolCall {
        id: "tc_1".to_string(),
        call_type: "function".to_string(),
        function: FunctionCall {
            name: "ask_user".to_string(),
            bare_name: "ask_user".to_string(),
            arguments: "{}".to_string(),
        },
        metadata: None,
    };
    handle_show_ask_user_popup(&mut state, tool_call, questions);
    assert!(state.ask_user_state.is_visible);
    assert_eq!(state.ask_user_state.selected_option, 0);

    // Down arrow — should move to next option
    update(&mut state, InputEvent::Down, facts(), &mut out);
    assert_eq!(
        state.ask_user_state.selected_option, 1,
        "Down should move to next option"
    );

    // Down arrow again
    update(&mut state, InputEvent::Down, facts(), &mut out);
    assert_eq!(
        state.ask_user_state.selected_option, 2,
        "Down should move to next option again"
    );

    // Up arrow — should move back
    update(&mut state, InputEvent::Up, facts(), &mut out);
    assert_eq!(
        state.ask_user_state.selected_option, 1,
        "Up should move to prev option"
    );
}

#[test]
fn ask_user_left_right_navigate_tabs_via_update() {
    let mut state = build_state();
    let mut out = Outbox::new(8, 8);

    // Set up ask_user popup with 2 questions
    let questions = vec![
        AskUserQuestion {
            label: "Q1".to_string(),
            question: "First?".to_string(),
            options: vec![AskUserOption {
                value: "a".to_string(),
                label: "A".to_string(),
                description: None,
                selected: false,
            }],
            allow_custom: false,
            multi_select: false,
        },
        AskUserQuestion {
            label: "Q2".to_string(),
            question: "Second?".to_string(),
            options: vec![AskUserOption {
                value: "b".to_string(),
                label: "B".to_string(),
                description: None,
                selected: false,
            }],
            allow_custom: false,
            multi_select: false,
        },
    ];
    let tool_call = ToolCall {
        id: "tc_2".to_string(),
        call_type: "function".to_string(),
        function: FunctionCall {
            name: "ask_user".to_string(),
            bare_name: "ask_user".to_string(),
            arguments: "{}".to_string(),
        },
        metadata: None,
    };
    handle_show_ask_user_popup(&mut state, tool_call, questions);
    assert_eq!(state.ask_user_state.current_tab, 0);

    // Right arrow — should move to next tab
    update(&mut state, InputEvent::CursorRight(0), facts(), &mut out);
    assert_eq!(
        state.ask_user_state.current_tab, 1,
        "Right should move to next tab"
    );

    // Left arrow — should move back
    update(&mut state, InputEvent::CursorLeft(0), facts(), &mut out);
    assert_eq!(
        state.ask_user_state.current_tab, 0,
        "Left should move to prev tab"
    );
}

#[test]
fn ask_user_arrows_always_navigate_options() {
    let mut state = build_state();
    let mut out = Outbox::new(8, 8);

    let questions = vec![AskUserQuestion {
        label: "Pick".to_string(),
        question: "Pick one".to_string(),
        options: vec![
            AskUserOption {
                value: "a".to_string(),
                label: "A".to_string(),
                description: None,
                selected: false,
            },
            AskUserOption {
                value: "b".to_string(),
                label: "B".to_string(),
                description: None,
                selected: false,
            },
        ],
        allow_custom: false,
        multi_select: false,
    }];
    let tool_call = ToolCall {
        id: "tc_3".to_string(),
        call_type: "function".to_string(),
        function: FunctionCall {
            name: "ask_user".to_string(),
            bare_name: "ask_user".to_string(),
            arguments: "{}".to_string(),
        },
        metadata: None,
    };
    handle_show_ask_user_popup(&mut state, tool_call, questions);

    // stay_at_bottom defaults to true
    assert!(state.messages_scrolling_state.stay_at_bottom);

    // Down navigates from option 0 → 1
    update(&mut state, InputEvent::Down, facts(), &mut out);
    assert_eq!(
        state.ask_user_state.selected_option, 1,
        "Down should navigate to option 1"
    );

    // Down at bottom boundary — clamped, does NOT fall through to scroll
    update(&mut state, InputEvent::Down, facts(), &mut out);
    assert_eq!(
        state.ask_user_state.selected_option, 1,
        "Down at bottom should clamp at last option"
    );
    // stay_at_bottom is unchanged — arrows no longer affect scroll state
    assert!(
        state.messages_scrolling_state.stay_at_bottom,
        "Down at boundary should NOT affect stay_at_bottom"
    );

    // Up navigates from option 1 → 0
    update(&mut state, InputEvent::Up, facts(), &mut out);
    assert_eq!(
        state.ask_user_state.selected_option, 0,
        "Up should navigate to option 0"
    );

    // Up at top boundary — clamped, does NOT fall through to scroll
    update(&mut state, InputEvent::Up, facts(), &mut out);
    assert_eq!(
        state.ask_user_state.selected_option, 0,
        "Up at top should clamp at first option"
    );
    assert!(
        state.messages_scrolling_state.stay_at_bottom,
        "Up at boundary should NOT affect stay_at_bottom"
    );

    // Even when stay_at_bottom is false, arrows still navigate options
    state.messages_scrolling_state.stay_at_bottom = false;
    update(&mut state, InputEvent::Down, facts(), &mut out);
    assert_eq!(
        state.ask_user_state.selected_option, 1,
        "Down should navigate even when scrolled up"
    );
}
