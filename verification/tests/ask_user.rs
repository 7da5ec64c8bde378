use stakpak_tui::app::AppState;
use stakpak_tui::app::AppStateOptions;
use stakpak_tui::ask_user::AskUserAnswer;
use stakpak_tui::ask_user::AskUserOption;
use stakpak_tui::ask_user::AskUserQuestion;
use stakpak_tui::ask_user::AskUserResult;
use stakpak_tui::ask_user::get_total_options;
use stakpak_tui::ask_user::handle_ask_user_cancel;
use stakpak_tui::ask_user::handle_ask_user_confirm_question;
use stakpak_tui::ask_user::handle_ask_user_custom_input_backspace;
use stakpak_tui::ask_user::handle_ask_user_custom_input_changed;
use stakpak_tui::ask_user::handle_ask_user_custom_input_delete;
use stakpak_tui::ask_user::handle_ask_user_custom_input_paste;
use stakpak_tui::ask_user::handle_ask_user_next_option;
use stakpak_tui::ask_user::handle_ask_user_next_tab;
use stakpak_tui::ask_user::handle_ask_user_prev_option;
use stakpak_tui::ask_user::handle_ask_user_prev_tab;
use stakpak_tui::ask_user::handle_ask_user_select_option;
use stakpak_tui::ask_user::handle_ask_user_submit;
use stakpak_tui::ask_user::handle_show_ask_user_popup;
use stakpak_tui::ask_user::is_custom_input_selected;
use stakpak_tui::ask_user::say_or_fail;
use stakpak_tui::ask_user::send_empty_questions_error;
use stakpak_tui::events::Outbox;
use stakpak_tui::events::OutputEvent;
use stakpak_tui::models::FunctionCall;
use stakpak_tui::models::Model;
use stakpak_tui::models::ToolCall;
use stakpak_tui::models::ToolCallResultStatus;

/// A client that has just started.
fn create_test_state() -> AppState {
    AppState::new(AppStateOptions {
        latest_version: None,
        is_git_repo: false,
        allowed_tools: None,
        model: Model::custom("", "", 0),
        editor_command: None,
        auth_display_info: (None, None, None),
        board_agent_id: None,
        init_prompt_content: None,
        recent_models: Vec::new(),
        helpers: Vec::new(),
        interactive_commands: Vec::new(),
        now: 0,
    })
}

/// The answers that a JSON text holds.
fn parse_result(text: &str) -> AskUserResult {
    let v: serde_json::Value = serde_json::from_str(text).unwrap();
    let string = |v: &serde_json::Value| v.as_str().unwrap().to_string();
    let answers = v["answers"].as_array().unwrap().iter().map(|a| AskUserAnswer {
        question_label: string(&a["question_label"]),
        answer: string(&a["answer"]),
        is_custom: a["is_custom"].as_bool().unwrap(),
        selected_values: a["selected_values"].as_array().unwrap().iter().map(string).collect(),
    });
    AskUserResult {
        answers: answers.collect(),
        completed: v["completed"].as_bool().unwrap(),
        reason: v["reason"].as_str().map(|s| s.to_string()),
    }
}

/// Helper to create test questions
fn create_test_questions() -> Vec<AskUserQuestion> {
    vec![
        AskUserQuestion {
            label: "Environment".to_string(),
            question: "Which environment?".to_string(),
            options: vec![
                AskUserOption {
                    value: "dev".to_string(),
                    label: "Development".to_string(),
                    description: Some("For testing".to_string()),
                    selected: false,
                },
                AskUserOption {
                    value: "prod".to_string(),
                    label: "Production".to_string(),
                    description: None,
                    selected: false,
                },
            ],
            allow_custom: true,
            multi_select: false,
        },
        AskUserQuestion {
            label: "Confirm".to_string(),
            question: "Are you sure?".to_string(),
            options: vec![
                AskUserOption {
                    value: "yes".to_string(),
                    label: "Yes".to_string(),
                    description: None,
                    selected: false,
                },
                AskUserOption {
                    value: "no".to_string(),
                    label: "No".to_string(),
                    description: None,
                    selected: false,
                },
            ],
            allow_custom: false,
            multi_select: false,
        },
    ]
}

/// Helper to create a test tool call
fn create_test_tool_call() -> ToolCall {
    ToolCall {
        id: "call_test123".to_string(),
        call_type: "function".to_string(),
        function: FunctionCall {
            name: "ask_user".to_string(),
            bare_name: "ask_user".to_string(),
            arguments: "{}".to_string(),
        },
        metadata: None,
    }
}

#[test]
fn test_show_ask_user_popup() {
    let mut state = create_test_state();
    let questions = create_test_questions();
    let tool_call = create_test_tool_call();

    assert!(!state.ask_user_state.is_visible);
    assert!(state.ask_user_state.questions.is_empty());

    handle_show_ask_user_popup(&mut state, tool_call.clone(), questions.clone());

    assert!(state.ask_user_state.is_visible);
    assert_eq!(state.ask_user_state.questions.len(), 2);
    assert_eq!(state.ask_user_state.current_tab, 0);
    assert_eq!(state.ask_user_state.selected_option, 0);
    assert!(state.ask_user_state.tool_call.is_some());
}

#[test]
fn test_show_ask_user_popup_empty_questions() {
    let mut state = create_test_state();
    let tool_call = create_test_tool_call();

    handle_show_ask_user_popup(&mut state, tool_call, vec![]);

    // Should not show popup with empty questions
    assert!(!state.ask_user_state.is_visible);
}

#[test]
fn test_tab_navigation() {
    let mut state = create_test_state();
    let questions = create_test_questions();
    let tool_call = create_test_tool_call();

    handle_show_ask_user_popup(&mut state, tool_call, questions);

    // Start at tab 0
    assert_eq!(state.ask_user_state.current_tab, 0);

    // Navigate to next tab
    handle_ask_user_next_tab(&mut state);
    assert_eq!(state.ask_user_state.current_tab, 1);

    // Navigate to Submit tab (index 2 for 2 questions)
    handle_ask_user_next_tab(&mut state);
    assert_eq!(state.ask_user_state.current_tab, 2);

    // Can't go beyond Submit
    handle_ask_user_next_tab(&mut state);
    assert_eq!(state.ask_user_state.current_tab, 2);

    // Navigate back
    handle_ask_user_prev_tab(&mut state);
    assert_eq!(state.ask_user_state.current_tab, 1);

    handle_ask_user_prev_tab(&mut state);
    assert_eq!(state.ask_user_state.current_tab, 0);

    // Can't go before first question
    handle_ask_user_prev_tab(&mut state);
    assert_eq!(state.ask_user_state.current_tab, 0);
}

#[test]
fn test_option_navigation() {
    let mut state = create_test_state();
    let questions = create_test_questions();
    let tool_call = create_test_tool_call();

    handle_show_ask_user_popup(&mut state, tool_call, questions);

    // First question has 2 options + custom = 3 total
    assert_eq!(state.ask_user_state.selected_option, 0);

    handle_ask_user_next_option(&mut state);
    assert_eq!(state.ask_user_state.selected_option, 1);

    handle_ask_user_next_option(&mut state);
    assert_eq!(state.ask_user_state.selected_option, 2); // custom option

    // Can't go beyond last option
    handle_ask_user_next_option(&mut state);
    assert_eq!(state.ask_user_state.selected_option, 2);

    // Navigate back
    handle_ask_user_prev_option(&mut state);
    assert_eq!(state.ask_user_state.selected_option, 1);

    handle_ask_user_prev_option(&mut state);
    assert_eq!(state.ask_user_state.selected_option, 0);

    // Can't go before first option
    handle_ask_user_prev_option(&mut state);
    assert_eq!(state.ask_user_state.selected_option, 0);
}

#[test]
fn test_option_navigation_no_custom() {
    let mut state = create_test_state();
    let questions = create_test_questions();
    let tool_call = create_test_tool_call();

    handle_show_ask_user_popup(&mut state, tool_call, questions);

    // Navigate to second question (no custom option)
    handle_ask_user_next_tab(&mut state);
    assert_eq!(state.ask_user_state.current_tab, 1);
    assert_eq!(state.ask_user_state.selected_option, 0);

    // Second question has 2 options only (no custom)
    handle_ask_user_next_option(&mut state);
    assert_eq!(state.ask_user_state.selected_option, 1);

    // Can't go beyond (no custom option)
    handle_ask_user_next_option(&mut state);
    assert_eq!(state.ask_user_state.selected_option, 1);
}

#[test]
fn test_select_predefined_option() {
    let mut state = create_test_state();
    let questions = create_test_questions();
    let tool_call = create_test_tool_call();
    let mut out = Outbox::new(10, 10);

    handle_show_ask_user_popup(&mut state, tool_call, questions);

    // Select first option (dev) via Space — should NOT auto-advance
    handle_ask_user_select_option(&mut state, &mut out);

    // Should have recorded the answer
    assert!(state.ask_user_state.answers.get("Environment").is_some());
    let answer = state.ask_user_state.answers.get("Environment").unwrap();
    assert_eq!(answer.answer, "dev");
    assert!(!answer.is_custom);

    // Should stay on the same tab (no auto-advance)
    assert_eq!(state.ask_user_state.current_tab, 0);

    // Now confirm via Enter — should advance to next question
    handle_ask_user_confirm_question(&mut state, &mut out);
    assert_eq!(state.ask_user_state.current_tab, 1);
}

#[test]
fn test_select_custom_option() {
    let mut state = create_test_state();
    let questions = create_test_questions();
    let tool_call = create_test_tool_call();
    let mut out = Outbox::new(10, 10);

    handle_show_ask_user_popup(&mut state, tool_call, questions);

    // Navigate to custom option (index 2)
    handle_ask_user_next_option(&mut state);
    handle_ask_user_next_option(&mut state);
    assert_eq!(state.ask_user_state.selected_option, 2);

    // Type custom input
    handle_ask_user_custom_input_changed(&mut state, 's');
    handle_ask_user_custom_input_changed(&mut state, 't');
    handle_ask_user_custom_input_changed(&mut state, 'a');
    handle_ask_user_custom_input_changed(&mut state, 'g');
    handle_ask_user_custom_input_changed(&mut state, 'i');
    handle_ask_user_custom_input_changed(&mut state, 'n');
    handle_ask_user_custom_input_changed(&mut state, 'g');

    assert_eq!(state.ask_user_state.custom_input, "staging");

    // Select the custom option
    handle_ask_user_select_option(&mut state, &mut out);

    // Should have recorded custom answer
    assert!(state.ask_user_state.answers.get("Environment").is_some());
    let answer = state.ask_user_state.answers.get("Environment").unwrap();
    assert_eq!(answer.answer, "staging");
    assert!(answer.is_custom);
}

#[test]
fn test_custom_input_backspace() {
    let mut state = create_test_state();
    let questions = create_test_questions();
    let tool_call = create_test_tool_call();

    handle_show_ask_user_popup(&mut state, tool_call, questions);

    // Navigate to custom option
    handle_ask_user_next_option(&mut state);
    handle_ask_user_next_option(&mut state);

    // Type and then backspace
    handle_ask_user_custom_input_changed(&mut state, 'a');
    handle_ask_user_custom_input_changed(&mut state, 'b');
    handle_ask_user_custom_input_changed(&mut state, 'c');
    assert_eq!(state.ask_user_state.custom_input, "abc");

    handle_ask_user_custom_input_backspace(&mut state);
    assert_eq!(state.ask_user_state.custom_input, "ab");

    handle_ask_user_custom_input_backspace(&mut state);
    handle_ask_user_custom_input_backspace(&mut state);
    assert_eq!(state.ask_user_state.custom_input, "");

    // Backspace on empty is safe
    handle_ask_user_custom_input_backspace(&mut state);
    assert_eq!(state.ask_user_state.custom_input, "");
}

#[test]
fn test_custom_input_delete_clears_all() {
    let mut state = create_test_state();
    let questions = create_test_questions();
    let tool_call = create_test_tool_call();

    handle_show_ask_user_popup(&mut state, tool_call, questions);

    // Navigate to custom option
    handle_ask_user_next_option(&mut state);
    handle_ask_user_next_option(&mut state);

    // Type some input
    handle_ask_user_custom_input_changed(&mut state, 't');
    handle_ask_user_custom_input_changed(&mut state, 'e');
    handle_ask_user_custom_input_changed(&mut state, 's');
    handle_ask_user_custom_input_changed(&mut state, 't');
    assert_eq!(state.ask_user_state.custom_input, "test");

    // Delete clears everything
    handle_ask_user_custom_input_delete(&mut state);
    assert_eq!(state.ask_user_state.custom_input, "");
}

#[test]
fn test_is_custom_input_selected() {
    let mut state = create_test_state();
    let questions = create_test_questions();
    let tool_call = create_test_tool_call();

    // Not selected when popup not shown
    assert!(!is_custom_input_selected(&state));

    handle_show_ask_user_popup(&mut state, tool_call, questions);

    // Not selected at option 0
    assert!(!is_custom_input_selected(&state));

    // Navigate to custom option
    handle_ask_user_next_option(&mut state);
    handle_ask_user_next_option(&mut state);
    assert!(is_custom_input_selected(&state));

    // Navigate to second question (no custom)
    handle_ask_user_next_tab(&mut state);
    state.ask_user_state.selected_option = 1; // Last option
    assert!(!is_custom_input_selected(&state)); // Second question has no custom
}

#[test]
fn test_submit_with_all_required_answered() {
    let mut state = create_test_state();
    let questions = create_test_questions();
    let tool_call = create_test_tool_call();
    let mut out = Outbox::new(10, 10);

    handle_show_ask_user_popup(&mut state, tool_call, questions);

    // Answer both required questions
    state.ask_user_state.answers.insert(
        "Environment".to_string(),
        AskUserAnswer {
            question_label: "Environment".to_string(),
            answer: "dev".to_string(),
            is_custom: false,
            selected_values: vec![],
        },
    );
    state.ask_user_state.answers.insert(
        "Confirm".to_string(),
        AskUserAnswer {
            question_label: "Confirm".to_string(),
            answer: "yes".to_string(),
            is_custom: false,
            selected_values: vec![],
        },
    );

    // Go to Submit tab
    state.ask_user_state.current_tab = 2;

    // Submit
    handle_ask_user_submit(&mut state, &mut out);

    // Popup should be closed
    assert!(!state.ask_user_state.is_visible);
    assert!(state.ask_user_state.questions.is_empty());
    assert!(state.ask_user_state.answers.is_empty());

    // Should have sent response
    let event = out.output.pop().unwrap();
    match event {
        OutputEvent::AskUserResponse(result) => {
            // Result should be valid JSON
            let parsed = parse_result(&result.result);
            assert_eq!(result.status, ToolCallResultStatus::Success);
            assert!(parsed.completed);
            assert!(parsed.reason.is_none());
            assert_eq!(parsed.answers.len(), 2);
        }
        _ => panic!("Expected AskUserResponse event"),
    }
}

#[test]
fn test_submit_with_partial_answers() {
    let mut state = create_test_state();
    let questions = create_test_questions();
    let tool_call = create_test_tool_call();
    let mut out = Outbox::new(10, 10);

    handle_show_ask_user_popup(&mut state, tool_call, questions);

    // Only answer first question
    state.ask_user_state.answers.insert(
        "Environment".to_string(),
        AskUserAnswer {
            question_label: "Environment".to_string(),
            answer: "dev".to_string(),
            is_custom: false,
            selected_values: vec![],
        },
    );

    // Go to Submit tab
    state.ask_user_state.current_tab = 2;

    // Try to submit — should succeed even with unanswered questions
    handle_ask_user_submit(&mut state, &mut out);

    // Should have sent response
    let event = out.output.pop().unwrap();
    match event {
        OutputEvent::AskUserResponse(result) => {
            // Result should be valid JSON
            let parsed = parse_result(&result.result);
            assert_eq!(result.status, ToolCallResultStatus::Success);
            assert!(parsed.completed);
            assert_eq!(parsed.answers.len(), 1);
            assert_eq!(parsed.answers[0].answer, "dev");
        }
        _ => panic!("Expected AskUserResponse event"),
    }
    assert!(!state.ask_user_state.is_visible); // Popup closed
}

#[test]
fn test_cancel() {
    let mut state = create_test_state();
    let questions = create_test_questions();
    let tool_call = create_test_tool_call();
    let mut out = Outbox::new(10, 10);

    handle_show_ask_user_popup(&mut state, tool_call, questions);

    // Cancel
    handle_ask_user_cancel(&mut state, &mut out);

    // Popup should be closed
    assert!(!state.ask_user_state.is_visible);

    // Should have sent cancelled response
    let event = out.output.pop().unwrap();
    match event {
        OutputEvent::AskUserResponse(result) => {
            // Result should be valid JSON
            let parsed = parse_result(&result.result);
            assert_eq!(result.status, ToolCallResultStatus::Cancelled);
            assert!(!parsed.completed);
            assert!(parsed.reason.is_some());
            assert!(parsed.reason.unwrap().contains("cancelled"));
        }
        _ => panic!("Expected AskUserResponse event"),
    }
}

#[test]
fn test_handlers_no_op_when_popup_not_visible() {
    let mut state = create_test_state();
    let mut out = Outbox::new(10, 10);

    // All these should be no-ops when popup is not visible
    handle_ask_user_next_tab(&mut state);
    handle_ask_user_prev_tab(&mut state);
    handle_ask_user_next_option(&mut state);
    handle_ask_user_prev_option(&mut state);
    handle_ask_user_select_option(&mut state, &mut out);
    handle_ask_user_custom_input_changed(&mut state, 'x');
    handle_ask_user_custom_input_backspace(&mut state);
    handle_ask_user_custom_input_delete(&mut state);
    handle_ask_user_submit(&mut state, &mut out);
    handle_ask_user_cancel(&mut state, &mut out);

    // State should be unchanged
    assert!(!state.ask_user_state.is_visible);
    assert!(state.ask_user_state.questions.is_empty());
}

#[test]
fn test_option_navigation_on_submit_tab_no_op() {
    let mut state = create_test_state();
    let questions = create_test_questions();
    let tool_call = create_test_tool_call();

    handle_show_ask_user_popup(&mut state, tool_call, questions);

    // Navigate to Submit tab
    state.ask_user_state.current_tab = 2;

    // Option navigation should be no-op on Submit tab
    handle_ask_user_next_option(&mut state);
    assert_eq!(state.ask_user_state.selected_option, 0);

    handle_ask_user_prev_option(&mut state);
    assert_eq!(state.ask_user_state.selected_option, 0);
}

// ========== Multi-select tests ==========

/// Helper to create a multi-select question
fn create_multi_select_questions() -> Vec<AskUserQuestion> {
    vec![AskUserQuestion {
        label: "Scope".to_string(),
        question: "Which repos should I include?".to_string(),
        options: vec![
            AskUserOption {
                value: "repo:api".to_string(),
                label: "~/projects/api".to_string(),
                description: None,
                selected: true,
            },
            AskUserOption {
                value: "repo:web".to_string(),
                label: "~/projects/web".to_string(),
                description: None,
                selected: true,
            },
            AskUserOption {
                value: "repo:dotfiles".to_string(),
                label: "~/projects/dotfiles".to_string(),
                description: None,
                selected: false,
            },
        ],
        allow_custom: false,
        multi_select: true,
    }]
}

#[test]
fn test_multi_select_defaults_initialized() {
    let mut state = create_test_state();
    let questions = create_multi_select_questions();
    let tool_call = create_test_tool_call();

    handle_show_ask_user_popup(&mut state, tool_call, questions);

    // Should have pre-populated multi-select state from option.selected
    let selections = state.ask_user_state.multi_selections.get("Scope").unwrap();
    assert_eq!(selections.len(), 2);
    assert!(selections.contains(&"repo:api".to_string()));
    assert!(selections.contains(&"repo:web".to_string()));

    // Should also have pre-populated the answer
    let answer = state.ask_user_state.answers.get("Scope").unwrap();
    assert_eq!(answer.selected_values.len(), 2);
}

#[test]
fn test_multi_select_toggle_on() {
    let mut state = create_test_state();
    let questions = create_multi_select_questions();
    let tool_call = create_test_tool_call();
    let mut out = Outbox::new(10, 10);

    handle_show_ask_user_popup(&mut state, tool_call, questions);

    // Navigate to dotfiles (index 2, currently unselected)
    handle_ask_user_next_option(&mut state);
    handle_ask_user_next_option(&mut state);
    assert_eq!(state.ask_user_state.selected_option, 2);

    // Toggle it on
    handle_ask_user_select_option(&mut state, &mut out);

    let selections = state.ask_user_state.multi_selections.get("Scope").unwrap();
    assert_eq!(selections.len(), 3);
    assert!(selections.contains(&"repo:dotfiles".to_string()));

    // Should NOT auto-advance (still on same tab)
    assert_eq!(state.ask_user_state.current_tab, 0);
}

#[test]
fn test_multi_select_toggle_off() {
    let mut state = create_test_state();
    let questions = create_multi_select_questions();
    let tool_call = create_test_tool_call();
    let mut out = Outbox::new(10, 10);

    handle_show_ask_user_popup(&mut state, tool_call, questions);

    // api is at index 0, currently selected by default
    assert_eq!(state.ask_user_state.selected_option, 0);

    // Toggle it off
    handle_ask_user_select_option(&mut state, &mut out);

    let selections = state.ask_user_state.multi_selections.get("Scope").unwrap();
    assert_eq!(selections.len(), 1);
    assert!(!selections.contains(&"repo:api".to_string()));
    assert!(selections.contains(&"repo:web".to_string()));
}

#[test]
fn test_multi_select_deselect_all_removes_answer() {
    let mut state = create_test_state();
    // Use a question with only one default selected
    let questions = vec![AskUserQuestion {
        label: "Pick".to_string(),
        question: "Pick items".to_string(),
        options: vec![AskUserOption {
            value: "a".to_string(),
            label: "A".to_string(),
            description: None,
            selected: true,
        }],
        allow_custom: false,
        multi_select: true,
    }];
    let tool_call = create_test_tool_call();
    let mut out = Outbox::new(10, 10);

    handle_show_ask_user_popup(&mut state, tool_call, questions);

    // Initially "a" is selected
    assert!(state.ask_user_state.answers.get("Pick").is_some());

    // Toggle off the only selection
    handle_ask_user_select_option(&mut state, &mut out);

    // Answer should be removed
    assert!(!state.ask_user_state.answers.get("Pick").is_some());
}

#[test]
fn test_multi_select_submit() {
    let mut state = create_test_state();
    let questions = create_multi_select_questions();
    let tool_call = create_test_tool_call();
    let mut out = Outbox::new(10, 10);

    handle_show_ask_user_popup(&mut state, tool_call, questions);

    // Defaults are already set (api + web selected)
    // Navigate to Submit tab
    state.ask_user_state.current_tab = 1; // 1 question + submit tab

    handle_ask_user_submit(&mut state, &mut out);

    assert!(!state.ask_user_state.is_visible);

    let event = out.output.pop().unwrap();
    match event {
        OutputEvent::AskUserResponse(result) => {
            // Result should be valid JSON
            let parsed = parse_result(&result.result);
            assert_eq!(result.status, ToolCallResultStatus::Success);
            assert!(parsed.completed);
            assert_eq!(parsed.answers.len(), 1);
            assert_eq!(parsed.answers[0].selected_values.len(), 2);
            assert!(
                parsed.answers[0]
                    .selected_values
                    .contains(&"repo:api".to_string())
            );
            assert!(
                parsed.answers[0]
                    .selected_values
                    .contains(&"repo:web".to_string())
            );
        }
        _ => panic!("Expected AskUserResponse event"),
    }
}

#[test]
fn test_multi_select_no_custom_option() {
    let mut state = create_test_state();
    // Multi-select with allow_custom = true should still not show custom
    let questions = vec![AskUserQuestion {
        label: "Pick".to_string(),
        question: "Pick items".to_string(),
        options: vec![
            AskUserOption {
                value: "a".to_string(),
                label: "A".to_string(),
                description: None,
                selected: false,
            },
            AskUserOption {
                value: "b".to_string(),
                label: "B".to_string(),
                description: None,
                selected: false,
            },
        ],
        allow_custom: true, // should be ignored for multi-select
        multi_select: true,
    }];
    let tool_call = create_test_tool_call();

    handle_show_ask_user_popup(&mut state, tool_call, questions);

    // Total options should be 2 (no custom slot)
    let q = &state.ask_user_state.questions[0];
    assert_eq!(get_total_options(q), 2);

    // Can't navigate beyond last option
    handle_ask_user_next_option(&mut state);
    assert_eq!(state.ask_user_state.selected_option, 1);
    handle_ask_user_next_option(&mut state);
    assert_eq!(state.ask_user_state.selected_option, 1); // stuck at 1, no custom slot
}

// ========== The user and the questions together ==========

#[test]
fn empty_questions_are_answered_with_an_error() {
    let mut out = Outbox::new(10, 10);
    send_empty_questions_error(create_test_tool_call(), &mut out);
    match out.output.pop().unwrap() {
        OutputEvent::AskUserResponse(sent) => {
            let result = parse_result(&sent.result);
            assert_eq!(sent.call.id, "call_test123");
            assert_eq!(sent.status, ToolCallResultStatus::Error);
            assert!(!result.completed);
            assert!(result.answers.is_empty());
            assert_eq!(
                result.reason.as_deref(),
                Some("ask_user tool was called with no questions")
            );
        }
        _ => panic!("Expected AskUserResponse event"),
    }
}

#[test]
fn toggling_a_choice_twice_changes_nothing() {
    let mut state = create_test_state();
    let mut out = Outbox::new(10, 10);
    handle_show_ask_user_popup(
        &mut state,
        create_test_tool_call(),
        create_multi_select_questions(),
    );
    handle_ask_user_select_option(&mut state, &mut out);
    handle_ask_user_select_option(&mut state, &mut out);
    let selections = state.ask_user_state.multi_selections.get("Scope").unwrap();
    assert_eq!(selections.len(), 2);
    assert!(selections.contains(&"repo:api".to_string()));
    assert!(selections.contains(&"repo:web".to_string()));
}

#[test]
fn a_paste_goes_into_the_own_answer_and_comes_back() {
    let mut state = create_test_state();
    let mut out = Outbox::new(10, 10);
    handle_show_ask_user_popup(&mut state, create_test_tool_call(), create_test_questions());
    handle_ask_user_next_option(&mut state);
    handle_ask_user_next_option(&mut state);
    handle_ask_user_custom_input_paste(&mut state, "my own");
    handle_ask_user_confirm_question(&mut state, &mut out);
    assert_eq!(state.ask_user_state.current_tab, 1);
    handle_ask_user_prev_tab(&mut state);
    assert_eq!(state.ask_user_state.selected_option, 2);
    assert_eq!(state.ask_user_state.custom_input, "my own");
}

#[test]
fn confirming_the_last_page_submits() {
    let mut state = create_test_state();
    let mut out = Outbox::new(10, 10);
    handle_show_ask_user_popup(&mut state, create_test_tool_call(), create_test_questions());
    handle_ask_user_confirm_question(&mut state, &mut out);
    handle_ask_user_confirm_question(&mut state, &mut out);
    assert_eq!(state.ask_user_state.current_tab, 2);
    handle_ask_user_confirm_question(&mut state, &mut out);
    assert!(!state.ask_user_state.is_visible);
    match out.output.pop().unwrap() {
        OutputEvent::AskUserResponse(sent) => {
            assert_eq!(sent.status, ToolCallResultStatus::Success);
            assert!(parse_result(&sent.result).completed);
        }
        _ => panic!("Expected AskUserResponse event"),
    }
}

#[test]
fn answers_go_out_without_secrets() {
    let mut state = create_test_state();
    let mut out = Outbox::new(10, 10);
    handle_show_ask_user_popup(&mut state, create_test_tool_call(), create_test_questions());
    handle_ask_user_next_option(&mut state);
    handle_ask_user_next_option(&mut state);
    handle_ask_user_custom_input_paste(&mut state, "a \"word\"");
    handle_ask_user_confirm_question(&mut state, &mut out);
    state
        .configuration_state
        .hidden_texts
        .insert("a \"word\"".to_string(), "[hidden]".to_string());
    handle_ask_user_submit(&mut state, &mut out);
    match out.output.pop().unwrap() {
        OutputEvent::AskUserResponse(sent) => {
            let result = parse_result(&sent.result);
            assert_eq!(result.answers.len(), 1);
            assert_eq!(result.answers[0].question_label, "Environment");
            assert_eq!(result.answers[0].answer, "[hidden]");
            assert!(result.answers[0].is_custom);
        }
        _ => panic!("Expected AskUserResponse event"),
    }
}

#[test]
fn an_answer_that_cannot_be_written_is_an_error() {
    assert_eq!(say_or_fail(Ok("{}".to_string())), "{}");
    assert_eq!(
        say_or_fail(Err("why".to_string())),
        "{\"error\": \"Failed to serialize result: why\"}"
    );
}
