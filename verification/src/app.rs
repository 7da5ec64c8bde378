//! The client's state, and what does not belong to one part of it.

use std::collections::HashMap;
use std::collections::HashSet;
use std::collections::VecDeque;
use vstd::prelude::*;
use crate::approval_bar::ApprovalBar;
use crate::changeset::Changeset;
use crate::changeset::SectionFlags;
use crate::changeset::SidePanelSection;
use crate::collections::TextMap;
use crate::collections::TextSet;
use crate::file_search::FileSearch;
use crate::geometry::Size;
use crate::message::Message;
use crate::message::MessageContent;
use crate::message::pushed;
use crate::models::Model;
use crate::shell_screen::Terminal;
use crate::text::same_text;
use crate::textarea::TextArea;
use crate::textarea::TextAreaView;
use crate::types::AskUserState;
use crate::types::BannerState;
use crate::types::CommandPaletteState;
use crate::types::CommandSource;
use crate::types::ConfigurationState;
use crate::types::DialogApprovalState;
use crate::types::FileChangesPopupState;
use crate::types::FileSearchResult;
use crate::types::HelperCommand;
use crate::types::InputState;
use crate::types::LLMTokenUsage;
use crate::types::LoadingState;
use crate::types::LoadingStateManager;
use crate::types::LoadingType;
use crate::types::MessageInteractionState;
use crate::types::MessageRevertState;
use crate::types::MessagesScrollingState;
use crate::types::ModelSwitcherMode;
use crate::types::ModelSwitcherState;
use crate::types::PlanMetadata;
use crate::types::PlanModeState;
use crate::types::PlanReviewState;
use crate::types::PlanStatus;
use crate::types::ProfileSwitcherState;
use crate::types::QuitIntentState;
use crate::types::RenderMetrics;
use crate::types::RulebookSwitcherState;
use crate::types::SelectionState;
use crate::types::SessionToolCallsState;
use crate::types::SessionsState;
use crate::types::ShellPopupState;
use crate::types::ShellRuntimeState;
use crate::types::ShellSessionState;
use crate::types::ShortcutsPanelState;
use crate::types::ShortcutsPopupMode;
use crate::types::SidePanelState;
use crate::types::TerminalUiState;
use crate::types::Toast;
use crate::types::ToolCallState;
use crate::types::UsageTrackingState;
use crate::types::UserMessageQueueState;

verus! {

/// The client's state.
pub struct AppState {
    pub input_state: InputState,
    pub messages_scrolling_state: MessagesScrollingState,
    pub loading_state: LoadingState,
    pub shell_popup_state: ShellPopupState,
    pub tool_call_state: ToolCallState,
    pub dialog_approval_state: DialogApprovalState,
    pub sessions_state: SessionsState,
    pub session_tool_calls_state: SessionToolCallsState,
    pub profile_switcher_state: ProfileSwitcherState,
    pub rulebook_switcher_state: RulebookSwitcherState,
    pub model_switcher_state: ModelSwitcherState,
    pub command_palette_state: CommandPaletteState,
    pub shortcuts_panel_state: ShortcutsPanelState,
    pub file_changes_popup_state: FileChangesPopupState,
    pub usage_tracking_state: UsageTrackingState,
    pub configuration_state: ConfigurationState,
    pub quit_intent_state: QuitIntentState,
    pub terminal_ui_state: TerminalUiState,
    pub shell_runtime_state: ShellRuntimeState,
    pub shell_session_state: ShellSessionState,
    pub banner_state: BannerState,
    pub toast: Option<Toast>,
    pub message_interaction_state: MessageInteractionState,
    pub side_panel_state: SidePanelState,
    pub user_message_queue_state: UserMessageQueueState,
    pub message_revert_state: MessageRevertState,
    pub plan_mode_state: PlanModeState,
    pub plan_review_state: PlanReviewState,
    pub ask_user_state: AskUserState,
}

/// What the client starts with.
#[derive(Debug)]
pub struct AppStateOptions {
    pub latest_version: Option<String>,
    pub is_git_repo: bool,
    pub allowed_tools: Option<Vec<String>>,
    pub model: Model,
    /// The editor that was found.
    pub editor_command: Option<String>,
    /// The configured provider, the provider that signs in, and the name of the subscription.
    pub auth_display_info: (Option<String>, Option<String>, Option<String>),
    pub board_agent_id: Option<String>,
    pub init_prompt_content: Option<String>,
    /// The models that were used last, the latest first.
    pub recent_models: Vec<String>,
    /// The slash commands.
    pub helpers: Vec<HelperCommand>,
    /// The commands that run in a shell of their own.
    pub interactive_commands: Vec<String>,
    /// The time, in milliseconds.
    pub now: u64,
}

// ----- slash commands -----

/// Whether one of the commands has the name.
pub open spec fn has_command(helpers: Seq<HelperCommand>, name: Seq<char>) -> bool {
    exists|i: int| 0 <= i < helpers.len() && (#[trigger] helpers[i]).command@ == name
}

/// Whether one of the commands has the name.
pub fn knows_command(helpers: &Vec<HelperCommand>, name: &str) -> (r: bool)
    ensures
        r == has_command(helpers@, name@),
{
    let mut i: usize = 0;
    while i < helpers.len()
        invariant
            i <= helpers@.len(),
            forall|j: int| 0 <= j < i ==> (#[trigger] helpers@[j]).command@ != name@,
        decreases helpers@.len() - i,
    {
        if same_text(helpers[i].command.as_str(), name) {
            return true;
        }
        i += 1;
    }
    false
}

/// The commands of the list whose name is not among the names of `taken`.
pub open spec fn not_taken(list: Seq<HelperCommand>, taken: Seq<HelperCommand>) -> Seq<
    HelperCommand,
>
    decreases list.len(),
{
    if list.len() == 0 {
        Seq::empty()
    } else if has_command(taken, list.last().command@) {
        not_taken(list.drop_last(), taken)
    } else {
        not_taken(list.drop_last(), taken).push(list.last())
    }
}

/// The built-in commands, then those with a fixed prompt, then the user's own. A command whose name
/// an earlier kind has is left out.
pub open spec fn merged_helpers(
    builtin: Seq<HelperCommand>,
    predefined: Seq<HelperCommand>,
    custom: Seq<HelperCommand>,
) -> Seq<HelperCommand> {
    let known = builtin + not_taken(predefined, builtin);
    known + not_taken(custom, known)
}

fn add_not_taken(helpers: &mut Vec<HelperCommand>, list: Vec<HelperCommand>)
    ensures
        final(helpers)@ == old(helpers)@ + not_taken(list@, old(helpers)@),
{
    let taken: Vec<HelperCommand> = helpers.clone();
    assert(taken@ =~= helpers@);
    let mut i: usize = 0;
    assert(list@.take(0) =~= Seq::<HelperCommand>::empty());
    assert(helpers@ =~= taken@ + not_taken(list@.take(0), taken@));
    while i < list.len()
        invariant
            i <= list@.len(),
            helpers@ == taken@ + not_taken(list@.take(i as int), taken@),
        decreases list@.len() - i,
    {
        assert(list@.take(i + 1).drop_last() =~= list@.take(i as int));
        if !knows_command(&taken, list[i].command.as_str()) {
            helpers.push(list[i].clone());
        }
        i += 1;
        assert(helpers@ =~= taken@ + not_taken(list@.take(i as int), taken@));
    }
    assert(list@.take(i as int) =~= list@);
}

/// A command with a fixed prompt; its name gets a slash in front.
pub fn predefined_command(name: &str, description: String, prompt_content: String) -> (r:
    HelperCommand)
    ensures
        r.command@ == seq!['/'] + name@,
        r.description == description,
        r.source == (CommandSource::BuiltInWithPrompt { prompt_content }),
{
    let mut command: String = String::new();
    command.push('/');
    command.push_str(name);
    assert(command@ =~= seq!['/'] + name@);
    HelperCommand {
        command,
        description,
        source: CommandSource::BuiltInWithPrompt { prompt_content },
    }
}

/// All slash commands: the built-in ones, those with a fixed prompt, and the user's own.
pub fn get_helper_commands(
    builtin: Vec<HelperCommand>,
    predefined: Vec<HelperCommand>,
    custom: Vec<HelperCommand>,
) -> (r: Vec<HelperCommand>)
    ensures
        r@ == merged_helpers(builtin@, predefined@, custom@),
{
    let mut helpers: Vec<HelperCommand> = builtin;
    add_not_taken(&mut helpers, predefined);
    add_not_taken(&mut helpers, custom);
    helpers
}

/// A command of the user never takes the place of another one: every built-in command stays first.
pub proof fn law_builtin_first(
    builtin: Seq<HelperCommand>,
    predefined: Seq<HelperCommand>,
    custom: Seq<HelperCommand>,
)
    ensures
        merged_helpers(builtin, predefined, custom).take(builtin.len() as int) == builtin,
        forall|i: int|
            builtin.len() <= i < merged_helpers(builtin, predefined, custom).len() ==> !has_command(
                builtin,
                (#[trigger] merged_helpers(builtin, predefined, custom)[i]).command@,
            ),
{
    let known = builtin + not_taken(predefined, builtin);
    let all = merged_helpers(builtin, predefined, custom);
    lemma_not_taken(predefined, builtin);
    lemma_not_taken(custom, known);
    assert(all.take(builtin.len() as int) =~= builtin);
    assert forall|i: int| builtin.len() <= i < all.len() implies !has_command(
        builtin,
        (#[trigger] all[i]).command@,
    ) by {
        if i < known.len() {
            assert(all[i] == not_taken(predefined, builtin)[i - builtin.len()]);
        } else {
            let c = not_taken(custom, known)[i - known.len()];
            assert(all[i] == c);
            if has_command(builtin, c.command@) {
                let j = choose|j: int|
                    0 <= j < builtin.len() && (#[trigger] builtin[j]).command@ == c.command@;
                assert(known[j].command@ == c.command@);
            }
        }
    }
}

proof fn lemma_not_taken(list: Seq<HelperCommand>, taken: Seq<HelperCommand>)
    ensures
        forall|i: int|
            0 <= i < not_taken(list, taken).len() ==> !has_command(
                taken,
                (#[trigger] not_taken(list, taken)[i]).command@,
            ),
    decreases list.len(),
{
    if list.len() > 0 {
        lemma_not_taken(list.drop_last(), taken);
    }
}

// ----- the start -----

/// The state that a client starts with.
pub open spec fn is_fresh(s: AppState, o: AppStateOptions) -> bool {
    &&& fresh_input(s.input_state, o)
    &&& fresh_messages(s.messages_scrolling_state)
    &&& fresh_tools(s)
    &&& fresh_shell(s)
    &&& fresh_popups(s, o)
    &&& fresh_rest(s, o)
}

pub open spec fn fresh_input(i: InputState, o: AppStateOptions) -> bool {
    &&& i.text_area@ == (TextAreaView {
        text: Seq::empty(),
        cursor: 0,
        shell_mode: false,
        session_empty: false,
        selecting: false,
    })
    &&& i.cursor_visible
    &&& i.helpers == o.helpers
    &&& !i.show_helper_dropdown
    &&& i.helper_selected == 0
    &&& i.helper_scroll == 0
    &&& i.filtered_helpers@.len() == 0
    &&& i.filtered_files@.len() == 0
    &&& i.file_search.file_suggestions@.len() == 0
    &&& i.file_search.filtered_files@.len() == 0
    &&& !i.file_search.is_file_mode
    &&& i.file_search.trigger_char is None
    &&& !i.is_pasting
    &&& i.pasted_long_text is None
    &&& i.pasted_placeholder is None
    &&& i.pending_pastes@.len() == 0
    &&& i.attached_images@.len() == 0
    &&& i.pending_path_start is None
    &&& i.interactive_commands == o.interactive_commands
}

pub open spec fn fresh_messages(m: MessagesScrollingState) -> bool {
    &&& m.messages@.len() == 0
    &&& m.scroll == 0
    &&& !m.scroll_to_bottom
    &&& !m.scroll_to_last_message_start
    &&& m.stay_at_bottom
    &&& m.block_stay_at_bottom_frames == 0
    &&& m.scroll_lines_from_end is None
    &&& !m.content_changed_while_scrolled_up
    &&& m.message_lines_cache is None
    &&& m.collapsed_message_lines_cache is None
    &&& m.assembled_lines_cache is None
    &&& !m.lines_stale
    &&& !m.show_collapsed_messages
    &&& m.collapsed_messages_scroll == 0
    &&& m.collapsed_messages_selected == 0
    &&& !m.has_user_messages
    &&& m.render_metrics.is_new()
    &&& m.line_to_message_map@.len() == 0
}

pub open spec fn fresh_tools(s: AppState) -> bool {
    let t = s.tool_call_state;
    let q = s.session_tool_calls_state;
    let d = s.dialog_approval_state;
    &&& t.pending_bash_message_id is None
    &&& t.streaming_tool_results@ == Map::<u128, String>::empty()
    &&& t.streaming_tool_result_id is None
    &&& t.completed_tool_calls@ == Set::<u128>::empty()
    &&& !t.is_streaming
    &&& !t.cancel_requested
    &&& t.latest_tool_call is None
    &&& t.tool_call_stream_preview_id is None
    &&& t.retry_attempts == 0
    &&& t.max_retry_attempts == 3
    &&& t.last_user_message_for_retry is None
    &&& !t.is_retrying
    &&& t.subagent_pause_info@ == Map::<Seq<char>, crate::message::TaskPauseInfo>::empty()
    &&& q.session_tool_calls_queue@ == Map::<Seq<char>, crate::types::ToolCallStatus>::empty()
    &&& q.tool_call_execution_order@.len() == 0
    &&& q.last_message_tool_calls@.len() == 0
    &&& !d.is_dialog_open
    &&& d.dialog_command is None
    &&& d.dialog_selected == 0
    &&& d.dialog_message_id is None
    &&& !d.dialog_focused
    &&& d.approval_bar.empty()
    &&& d.message_tool_calls is None
    &&& d.message_approved_tools@.len() == 0
    &&& d.message_rejected_tools@.len() == 0
    &&& d.toggle_approved_message
    &&& !d.show_shortcuts
}

pub open spec fn fresh_shell(s: AppState) -> bool {
    let p = s.shell_popup_state;
    &&& !p.is_visible
    &&& !p.is_expanded
    &&& p.scroll == 0
    &&& !p.needs_terminal_clear
    &&& p.cursor_visible
    &&& p.cursor_blink_timer == 0
    &&& p.active_shell_command is None
    &&& p.active_shell_command_output is None
    &&& !p.waiting_for_shell_input
    &&& p.shell_tool_calls is None
    &&& !p.is_loading
    &&& p.pending_command_value is None
    &&& !p.pending_command_executed
    &&& p.pending_command_output is None
    &&& p.pending_command_output_count == 0
    &&& !p.is_tool_call_shell_command
    &&& !p.ondemand_shell_mode
    &&& !p.shell_initial_prompt_shown
    &&& !p.shell_command_typed
    &&& crate::shell_screen::is_fresh_screen(s.shell_runtime_state.screen@, 24, 80, 1000)
    &&& s.shell_runtime_state.scroll == 0
    &&& s.shell_runtime_state.history_lines@.len() == 0
    &&& s.shell_session_state.interactive_shell_message_id is None
    &&& !s.shell_session_state.shell_interaction_occurred
}

pub open spec fn fresh_popups(s: AppState, o: AppStateOptions) -> bool {
    &&& s.sessions_state.sessions@.len() == 0
    &&& s.sessions_state.session_selected == 0
    &&& s.sessions_state.account_info@.len() == 0
    &&& !s.profile_switcher_state.show_profile_switcher
    &&& s.profile_switcher_state.available_profiles@.len() == 0
    &&& s.profile_switcher_state.selected_index == 0
    &&& s.profile_switcher_state.current_profile_name@ == "default"@
    &&& !s.profile_switcher_state.switching_in_progress
    &&& s.profile_switcher_state.switch_status_message is None
    &&& !s.rulebook_switcher_state.show_rulebook_switcher
    &&& s.rulebook_switcher_state.available_rulebooks@.len() == 0
    &&& s.rulebook_switcher_state.selected_rulebooks@ == Set::<Seq<char>>::empty()
    &&& s.rulebook_switcher_state.is_selected == 0
    &&& s.rulebook_switcher_state.rulebook_search_input@.len() == 0
    &&& s.rulebook_switcher_state.filtered_rulebooks@.len() == 0
    &&& s.rulebook_switcher_state.rulebook_config is None
    &&& !s.model_switcher_state.is_visible
    &&& s.model_switcher_state.is_selected == 0
    &&& s.model_switcher_state.mode == ModelSwitcherMode::All
    &&& s.model_switcher_state.search@.len() == 0
    &&& s.model_switcher_state.available_models@.len() == 0
    &&& s.model_switcher_state.current_model is None
    &&& s.model_switcher_state.recent_models == o.recent_models
    &&& !s.command_palette_state.is_visible
    &&& s.command_palette_state.is_selected == 0
    &&& s.command_palette_state.scroll == 0
    &&& s.command_palette_state.search@.len() == 0
    &&& !s.shortcuts_panel_state.is_visible
    &&& s.shortcuts_panel_state.scroll == 0
    &&& s.shortcuts_panel_state.mode == ShortcutsPopupMode::Commands
    &&& !s.file_changes_popup_state.is_visible
    &&& s.file_changes_popup_state.is_selected == 0
    &&& s.file_changes_popup_state.scroll == 0
    &&& s.file_changes_popup_state.search@.len() == 0
}

pub open spec fn fresh_rest(s: AppState, o: AppStateOptions) -> bool {
    let p = s.side_panel_state;
    let m = s.message_interaction_state;
    let a = s.ask_user_state;
    &&& !s.loading_state.is_loading
    &&& s.loading_state.loading_type == LoadingType::Llm
    &&& s.loading_state.spinner_frame == 0
    &&& s.loading_state.loading_manager@ == Set::<crate::types::LoadingOperation>::empty()
    &&& s.usage_tracking_state.current_message_usage == LLMTokenUsage::zero()
    &&& s.usage_tracking_state.total_session_usage == LLMTokenUsage::zero()
    &&& s.usage_tracking_state.context_usage_percent == 0
    &&& s.configuration_state.latest_version == o.latest_version
    &&& s.configuration_state.is_git_repo == o.is_git_repo
    &&& s.configuration_state.allowed_tools == o.allowed_tools
    &&& s.configuration_state.model == o.model
    &&& s.configuration_state.auth_display_info == o.auth_display_info
    &&& s.configuration_state.init_prompt_content == o.init_prompt_content
    &&& s.configuration_state.hidden_texts@ == Map::<Seq<char>, String>::empty()
    &&& !s.quit_intent_state.ctrl_c_pressed_once
    &&& s.quit_intent_state.ctrl_c_timer is None
    &&& !s.terminal_ui_state.mouse_capture_enabled
    &&& s.terminal_ui_state.terminal_size == (Size { width: 0, height: 0 })
    &&& s.banner_state.message is None
    &&& s.banner_state.area is None
    &&& s.banner_state.click_regions@.len() == 0
    &&& s.banner_state.dismiss_region is None
    &&& s.toast is None
    &&& !m.show_message_action_popup
    &&& m.message_action_popup_selected == 0
    &&& m.message_action_popup_position is None
    &&& m.message_action_target_message_id is None
    &&& m.message_action_target_text is None
    &&& m.message_area_y == 0
    &&& m.message_area_x == 0
    &&& m.message_area_height == 0
    &&& m.hover_row is None
    &&& m.collapsed_popup_area_y == 0
    &&& m.collapsed_popup_area_x == 0
    &&& m.collapsed_popup_area_height == 0
    &&& m.selection == SelectionState::none()
    &&& m.selection_auto_scroll == 0
    &&& m.input_content_area is None
    &&& !p.is_shown
    &&& p.focused_section == SidePanelSection::Context
    &&& p.collapsed_sections == (SectionFlags {
        context: false,
        billing: false,
        tasks: false,
        changeset: false,
    })
    &&& p.areas@.len() == 0
    &&& p.session_id@.len() == 0
    &&& p.session_id_copied_at is None
    &&& p.changeset.files@.len() == 0
    &&& p.todos@.len() == 0
    &&& p.task_progress is None
    &&& !p.auto_shown
    &&& p.board_agent_id == o.board_agent_id
    &&& p.editor_command@ == (match o.editor_command {
        Some(e) => e@,
        None => "nano"@,
    })
    &&& p.pending_editor_open is None
    &&& p.billing_info is None
    &&& s.user_message_queue_state.pending_user_messages@.len() == 0
    &&& s.message_revert_state.user_message_count == 0
    &&& s.message_revert_state.pending_revert_index is None
    &&& !s.plan_mode_state.is_active
    &&& s.plan_mode_state.metadata is None
    &&& s.plan_mode_state.content_hash is None
    &&& s.plan_mode_state.previous_status is None
    &&& !s.plan_mode_state.review_auto_opened
    &&& s.plan_mode_state.existing_prompt is None
    &&& !s.plan_review_state.is_visible
    &&& !s.plan_review_state.show_comment_modal
    &&& s.plan_review_state.confirm is None
    &&& !a.is_visible
    &&& a.questions@.len() == 0
    &&& a.answers@ == Map::<Seq<char>, crate::ask_user::AskUserAnswer>::empty()
    &&& a.current_tab == 0
    &&& a.selected_option == 0
    &&& a.custom_input@.len() == 0
    &&& a.tool_call is None
    &&& a.message_id is None
    &&& a.is_focused
    &&& a.multi_selections@ == Map::<Seq<char>, Vec<String>>::empty()
}

fn empty_text() -> (r: String)
    ensures
        r@.len() == 0,
{
    String::new()
}

impl MessagesScrollingState {
    /// No message yet.
    pub fn new() -> (r: MessagesScrollingState)
        ensures
            fresh_messages(r),
    {
        MessagesScrollingState {
            messages: Vec::new(),
            scroll: 0,
            scroll_to_bottom: false,
            scroll_to_last_message_start: false,
            stay_at_bottom: true,
            block_stay_at_bottom_frames: 0,
            scroll_lines_from_end: None,
            content_changed_while_scrolled_up: false,
            message_lines_cache: None,
            collapsed_message_lines_cache: None,
            assembled_lines_cache: None,
            lines_stale: false,
            show_collapsed_messages: false,
            collapsed_messages_scroll: 0,
            collapsed_messages_selected: 0,
            has_user_messages: false,
            render_metrics: RenderMetrics::new(),
            line_to_message_map: Vec::new(),
        }
    }
}

impl AppState {
    /// The state that a client starts with.
    pub fn new(options: AppStateOptions) -> (s: AppState)
        ensures
            is_fresh(s, options),
    {
        let editor_command: String = match options.editor_command {
            Some(e) => e,
            None => "nano".to_owned(),
        };
        AppState {
            input_state: InputState {
                text_area: TextArea::new(),
                cursor_visible: true,
                helpers: options.helpers,
                show_helper_dropdown: false,
                helper_selected: 0,
                helper_scroll: 0,
                filtered_helpers: Vec::new(),
                filtered_files: Vec::new(),
                file_search: FileSearch::new(options.now),
                is_pasting: false,
                pasted_long_text: None,
                pasted_placeholder: None,
                pending_pastes: Vec::new(),
                attached_images: Vec::new(),
                pending_path_start: None,
                interactive_commands: options.interactive_commands,
            },
            messages_scrolling_state: MessagesScrollingState::new(),
            loading_state: LoadingState {
                is_loading: false,
                loading_type: LoadingType::Llm,
                spinner_frame: 0,
                loading_manager: LoadingStateManager::new(),
            },
            shell_popup_state: ShellPopupState {
                is_visible: false,
                is_expanded: false,
                scroll: 0,
                needs_terminal_clear: false,
                cursor_visible: true,
                cursor_blink_timer: 0,
                active_shell_command: None,
                active_shell_command_output: None,
                waiting_for_shell_input: false,
                shell_tool_calls: None,
                is_loading: false,
                pending_command_value: None,
                pending_command_executed: false,
                pending_command_output: None,
                pending_command_output_count: 0,
                is_tool_call_shell_command: false,
                ondemand_shell_mode: false,
                shell_initial_prompt_shown: false,
                shell_command_typed: false,
            },
            tool_call_state: ToolCallState {
                pending_bash_message_id: None,
                streaming_tool_results: HashMap::new(),
                streaming_tool_result_id: None,
                completed_tool_calls: HashSet::new(),
                is_streaming: false,
                cancel_requested: false,
                latest_tool_call: None,
                tool_call_stream_preview_id: None,
                retry_attempts: 0,
                max_retry_attempts: 3,
                last_user_message_for_retry: None,
                is_retrying: false,
                subagent_pause_info: TextMap::new(),
            },
            dialog_approval_state: DialogApprovalState {
                is_dialog_open: false,
                dialog_command: None,
                dialog_selected: 0,
                dialog_message_id: None,
                dialog_focused: false,
                approval_bar: ApprovalBar::new(),
                message_tool_calls: None,
                message_approved_tools: Vec::new(),
                message_rejected_tools: Vec::new(),
                toggle_approved_message: true,
                show_shortcuts: false,
            },
            sessions_state: SessionsState {
                sessions: Vec::new(),
                session_selected: 0,
                account_info: empty_text(),
            },
            session_tool_calls_state: SessionToolCallsState {
                session_tool_calls_queue: TextMap::new(),
                tool_call_execution_order: Vec::new(),
                last_message_tool_calls: Vec::new(),
            },
            profile_switcher_state: ProfileSwitcherState {
                show_profile_switcher: false,
                available_profiles: Vec::new(),
                selected_index: 0,
                current_profile_name: "default".to_owned(),
                switching_in_progress: false,
                switch_status_message: None,
            },
            rulebook_switcher_state: RulebookSwitcherState {
                show_rulebook_switcher: false,
                available_rulebooks: Vec::new(),
                selected_rulebooks: TextSet::new(),
                is_selected: 0,
                rulebook_search_input: empty_text(),
                filtered_rulebooks: Vec::new(),
                rulebook_config: None,
            },
            model_switcher_state: ModelSwitcherState {
                is_visible: false,
                is_selected: 0,
                mode: ModelSwitcherMode::All,
                search: empty_text(),
                available_models: Vec::new(),
                current_model: None,
                recent_models: options.recent_models,
            },
            command_palette_state: CommandPaletteState {
                is_visible: false,
                is_selected: 0,
                scroll: 0,
                search: empty_text(),
            },
            shortcuts_panel_state: ShortcutsPanelState {
                is_visible: false,
                scroll: 0,
                mode: ShortcutsPopupMode::Commands,
            },
            file_changes_popup_state: FileChangesPopupState {
                is_visible: false,
                is_selected: 0,
                scroll: 0,
                search: empty_text(),
            },
            usage_tracking_state: UsageTrackingState {
                current_message_usage: LLMTokenUsage::zero(),
                total_session_usage: LLMTokenUsage::zero(),
                context_usage_percent: 0,
            },
            configuration_state: ConfigurationState {
                latest_version: options.latest_version,
                is_git_repo: options.is_git_repo,
                allowed_tools: options.allowed_tools,
                model: options.model,
                auth_display_info: options.auth_display_info,
                init_prompt_content: options.init_prompt_content,
                hidden_texts: TextMap::new(),
            },
            quit_intent_state: QuitIntentState { ctrl_c_pressed_once: false, ctrl_c_timer: None },
            terminal_ui_state: TerminalUiState {
                mouse_capture_enabled: false,
                terminal_size: Size { width: 0, height: 0 },
            },
            shell_runtime_state: ShellRuntimeState {
                screen: Terminal::new(24, 80, 1000),
                scroll: 0,
                history_lines: Vec::new(),
            },
            shell_session_state: ShellSessionState {
                interactive_shell_message_id: None,
                shell_interaction_occurred: false,
            },
            banner_state: BannerState {
                message: None,
                area: None,
                click_regions: Vec::new(),
                dismiss_region: None,
            },
            toast: None,
            message_interaction_state: MessageInteractionState {
                show_message_action_popup: false,
                message_action_popup_selected: 0,
                message_action_popup_position: None,
                message_action_target_message_id: None,
                message_action_target_text: None,
                message_area_y: 0,
                message_area_x: 0,
                message_area_height: 0,
                hover_row: None,
                collapsed_popup_area_y: 0,
                collapsed_popup_area_x: 0,
                collapsed_popup_area_height: 0,
                selection: SelectionState::none(),
                selection_auto_scroll: 0,
                input_content_area: None,
            },
            side_panel_state: SidePanelState {
                is_shown: false,
                focused_section: SidePanelSection::Context,
                collapsed_sections: SectionFlags {
                    context: false,
                    billing: false,
                    tasks: false,
                    changeset: false,
                },
                areas: Vec::new(),
                session_id: empty_text(),
                session_id_copied_at: None,
                changeset: Changeset::new(),
                todos: Vec::new(),
                task_progress: None,
                auto_shown: false,
                board_agent_id: options.board_agent_id,
                editor_command,
                pending_editor_open: None,
                billing_info: None,
            },
            user_message_queue_state: UserMessageQueueState {
                pending_user_messages: VecDeque::new(),
            },
            message_revert_state: MessageRevertState {
                user_message_count: 0,
                pending_revert_index: None,
            },
            plan_mode_state: PlanModeState {
                is_active: false,
                metadata: None,
                content_hash: None,
                previous_status: None,
                review_auto_opened: false,
                existing_prompt: None,
            },
            plan_review_state: PlanReviewState {
                is_visible: false,
                scroll: 0,
                cursor_line: 0,
                content: empty_text(),
                lines: Vec::new(),
                show_comment_modal: false,
                comment_input: empty_text(),
                selected_comment: None,
                confirm: None,
            },
            ask_user_state: AskUserState {
                is_visible: false,
                questions: Vec::new(),
                answers: TextMap::new(),
                current_tab: 0,
                selected_option: 0,
                custom_input: empty_text(),
                tool_call: None,
                message_id: None,
                is_focused: true,
                multi_selections: TextMap::new(),
            },
        }
    }

    /// The state with another conversation.
    pub open spec fn with_messages(self, m: MessagesScrollingState) -> AppState {
        AppState { messages_scrolling_state: m, ..self }
    }

    /// The state with another input.
    pub open spec fn with_input(self, i: InputState) -> AppState {
        AppState { input_state: i, ..self }
    }

    /// The state with another text in the input.
    pub open spec fn with_text(self, t: TextArea) -> AppState {
        AppState { input_state: InputState { text_area: t, ..self.input_state }, ..self }
    }

    // ----- the input -----

    /// The text of the input.
    pub fn input(&self) -> (r: &str)
        ensures
            r@ == self.input_state.text_area@.text,
    {
        self.input_state.text_area.text()
    }

    /// The byte offset of the input's cursor.
    pub fn cursor_position(&self) -> (r: usize)
        ensures
            r == self.input_state.text_area@.cursor,
            crate::text::boundary(self.input_state.text_area@.text, r as int),
    {
        self.input_state.text_area.cursor()
    }

    /// Puts a text in place of the input's, with the cursor at its end.
    pub fn set_input(&mut self, input: &str)
        ensures
            *final(self) == old(self).with_text(final(self).input_state.text_area),
            final(self).input_state.text_area@ == (TextAreaView {
                text: input@,
                cursor: crate::text::utf8_len(input@) as int,
                ..old(self).input_state.text_area@
            }),
    {
        self.input_state.text_area.set_text(input);
    }

    /// Moves the input's cursor.
    pub fn set_cursor_position(&mut self, pos: usize)
        ensures
            *final(self) == old(self).with_text(final(self).input_state.text_area),
            final(self).input_state.text_area@ == (TextAreaView {
                cursor: if crate::text::boundary(
                    old(self).input_state.text_area@.text,
                    pos as int,
                ) {
                    pos as int
                } else {
                    crate::text::utf8_len(old(self).input_state.text_area@.text) as int
                },
                ..old(self).input_state.text_area@
            }),
    {
        self.input_state.text_area.set_cursor(pos);
    }

    /// Types a text at the cursor.
    pub fn insert_str(&mut self, s: &str)
        ensures
            *final(self) == old(self).with_text(final(self).input_state.text_area),
            final(self).input_state.text_area@ == typed(old(self).input_state.text_area@, s@),
    {
        self.input_state.text_area.insert_str(s);
    }

    /// Types a character at the cursor.
    pub fn insert_char(&mut self, c: char)
        ensures
            *final(self) == old(self).with_text(final(self).input_state.text_area),
            final(self).input_state.text_area@ == typed(
                old(self).input_state.text_area@,
                seq![c],
            ),
    {
        let mut s: String = String::new();
        s.push(c);
        assert(s@ =~= seq![c]);
        self.input_state.text_area.insert_str(s.as_str());
    }

    /// Empties the input.
    pub fn clear_input(&mut self)
        ensures
            *final(self) == old(self).with_text(final(self).input_state.text_area),
            final(self).input_state.text_area@ == (TextAreaView {
                text: Seq::empty(),
                cursor: 0,
                ..old(self).input_state.text_area@
            }),
    {
        clear_text(&mut self.input_state.text_area);
    }

    /// Whether what the user does is ignored, as the profile is being switched.
    pub fn is_input_blocked(&self) -> (r: bool)
        ensures
            r == self.profile_switcher_state.switching_in_progress,
    {
        self.profile_switcher_state.switching_in_progress
    }

    /// Tells the input whether the session is empty: there is no message and nothing is typed.
    pub fn update_session_empty_status(&mut self)
        ensures
            *final(self) == old(self).with_text(final(self).input_state.text_area),
            final(self).input_state.text_area@ == (TextAreaView {
                session_empty: !old(self).messages_scrolling_state.has_user_messages && old(
                    self,
                ).input_state.text_area@.text.len() == 0,
                ..old(self).input_state.text_area@
            }),
    {
        let empty: bool = !self.messages_scrolling_state.has_user_messages && is_empty(
            self.input_state.text_area.text(),
        );
        self.input_state.text_area.set_session_empty(empty);
    }

    // ----- the conversation -----

    /// Puts a new message behind the others.
    pub fn push_message(&mut self, content: MessageContent)
        ensures
            *final(self) == old(self).with_messages(final(self).messages_scrolling_state),
            message_pushed(
                old(self).messages_scrolling_state,
                final(self).messages_scrolling_state,
                |c: MessageContent| c == content,
            ),
    {
        self.messages_scrolling_state.messages.push(Message::new(content));
        self.messages_scrolling_state.lines_stale = true;
        assert(self.messages_scrolling_state.messages@.drop_last()
            =~= old(self).messages_scrolling_state.messages@);
    }

    /// The side panel opens by itself once.
    pub fn auto_show_side_panel(&mut self)
        ensures
            *final(self) == panel_auto_shown(*old(self)),
    {
        if !self.side_panel_state.auto_shown && !self.side_panel_state.is_shown {
            self.side_panel_state.is_shown = true;
            self.side_panel_state.auto_shown = true;
        }
    }

    // ----- plans -----

    /// Takes over what the plan file holds: its hash, and what its head says. Gives the old and the
    /// new status where the status changed.
    pub fn poll_plan_file(&mut self, content: Option<(String, Option<PlanMetadata>)>) -> (r: Option<
        (Option<PlanStatus>, PlanStatus),
    >)
        ensures
            *final(self) == (AppState { plan_mode_state: final(self).plan_mode_state, ..*old(self) }),
            plan_polled(old(self).plan_mode_state, final(self).plan_mode_state, content, r),
    {
        if !self.plan_mode_state.is_active {
            return None;
        }
        match content {
            None => {
                if self.plan_mode_state.metadata.is_some() {
                    self.plan_mode_state.metadata = None;
                    self.plan_mode_state.content_hash = None;
                }
                None
            },
            Some((hash, metadata)) => {
                let known: bool = match &self.plan_mode_state.content_hash {
                    Some(h) => same_text(h.as_str(), hash.as_str()),
                    None => false,
                };
                if known {
                    return None;
                }
                self.plan_mode_state.content_hash = Some(hash);
                let status: Option<PlanStatus> = match &metadata {
                    Some(m) => Some(m.status),
                    None => None,
                };
                self.plan_mode_state.metadata = metadata;
                match status {
                    Some(new_status) => {
                        let old_status: Option<PlanStatus> = self.plan_mode_state.previous_status;
                        let changed: bool = match old_status {
                            Some(o) => o != new_status,
                            None => true,
                        };
                        if changed {
                            self.plan_mode_state.previous_status = Some(new_status);
                            return Some((old_status, new_status));
                        }
                        None
                    },
                    None => None,
                }
            },
        }
    }

    // ----- completions -----

    /// Takes over what a search for files gave.
    pub fn file_search_done(&mut self, result: FileSearchResult)
        requires
            crate::text::boundary(
                result.input@,
                crate::file_search::safe_pos(result.input@, result.cursor_position as int),
            ),
        ensures
            *final(self) == old(self).with_input(final(self).input_state),
            search_taken(*old(self), final(self).input_state, result),
    {
        let empty: bool = is_empty(self.input_state.text_area.text());
        let found: bool = result.filtered_files.len() > 0;
        let copy: Vec<String> = result.filtered_files.clone();
        assert(copy@ =~= result.filtered_files@);
        let n: usize = result.filtered_files.len();
        self.input_state.filtered_files = result.filtered_files;
        self.input_state.file_search.filtered_files = copy;
        self.input_state.file_search.is_file_mode = found;
        self.input_state.file_search.trigger_char = if found {
            Some('@')
        } else {
            None
        };
        let triggered: bool = crate::file_search::find_at_trigger(
            result.input.as_str(),
            result.cursor_position,
        ).is_some();
        if triggered && !self.shell_popup_state.waiting_for_shell_input {
            self.input_state.show_helper_dropdown = true;
        }
        if found && self.input_state.helper_selected >= n {
            self.input_state.helper_selected = 0;
        }
        if empty {
            self.input_state.show_helper_dropdown = false;
        }
    }
}

/// The text area after a text was typed at its cursor.
pub open spec fn typed(t: TextAreaView, s: Seq<char>) -> TextAreaView {
    TextAreaView {
        text: crate::textarea::spliced(t.text, t.cursor, t.cursor, s),
        cursor: t.cursor + crate::text::utf8_len(s),
        ..t
    }
}

/// Empties a text area.
pub fn clear_text(t: &mut TextArea)
    ensures
        final(t)@ == (TextAreaView { text: Seq::empty(), cursor: 0, ..old(t)@ }),
{
    let empty: String = String::new();
    assert(empty@ =~= Seq::<char>::empty());
    t.set_text(empty.as_str());
}

/// Whether the text has no character.
pub fn is_empty(s: &str) -> (r: bool)
    ensures
        r == (s@.len() == 0),
{
    crate::text::chars_of(s).len() == 0
}

/// The conversation after a new message, with content of which `p` holds.
pub open spec fn message_pushed(
    pre: MessagesScrollingState,
    post: MessagesScrollingState,
    p: spec_fn(MessageContent) -> bool,
) -> bool {
    &&& pushed(pre.messages@, post.messages@, p)
    &&& post == (MessagesScrollingState { messages: post.messages, lines_stale: true, ..pre })
}

/// The state after the side panel had the chance to open by itself.
pub open spec fn panel_auto_shown(s: AppState) -> AppState {
    if !s.side_panel_state.auto_shown && !s.side_panel_state.is_shown {
        AppState {
            side_panel_state: SidePanelState {
                is_shown: true,
                auto_shown: true,
                ..s.side_panel_state
            },
            ..s
        }
    } else {
        s
    }
}

/// What a look at the plan file does. Outside plan mode nothing happens. A file that is gone clears
/// what is known of it; one with a known hash changes nothing. Else the head counts, and a status
/// that differs from the last one is reported.
pub open spec fn plan_polled(
    pre: PlanModeState,
    post: PlanModeState,
    content: Option<(String, Option<PlanMetadata>)>,
    r: Option<(Option<PlanStatus>, PlanStatus)>,
) -> bool {
    if !pre.is_active {
        post == pre && r is None
    } else {
        match content {
            None => {
                &&& r is None
                &&& post == (if pre.metadata is Some {
                    PlanModeState { metadata: None, content_hash: None, ..pre }
                } else {
                    pre
                })
            },
            Some((hash, metadata)) => if crate::models::text_of(pre.content_hash) == Some(hash@) {
                post == pre && r is None
            } else {
                let next = PlanModeState { content_hash: Some(hash), metadata, ..pre };
                match metadata {
                    Some(m) => if pre.previous_status != Some(m.status) {
                        &&& post == (PlanModeState { previous_status: Some(m.status), ..next })
                        &&& r == Some((pre.previous_status, m.status))
                    } else {
                        post == next && r is None
                    },
                    None => post == next && r is None,
                }
            },
        }
    }
}

/// What a search for files does to the input.
pub open spec fn search_taken(pre: AppState, post: InputState, result: FileSearchResult) -> bool {
    let i = pre.input_state;
    let n = result.filtered_files@.len();
    let before = crate::file_search::before_byte(result.input@, result.cursor_position as int);
    let triggered = crate::file_search::last_trigger(before, before.len() as int) is Some;
    &&& post.filtered_files == result.filtered_files
    &&& post.file_search.filtered_files@ == result.filtered_files@
    &&& post == (InputState {
        filtered_files: result.filtered_files,
        file_search: FileSearch {
            filtered_files: post.file_search.filtered_files,
            is_file_mode: n > 0,
            trigger_char: if n > 0 {
                Some('@')
            } else {
                None
            },
            ..i.file_search
        },
        show_helper_dropdown: if i.text_area@.text.len() == 0 {
            false
        } else if triggered && !pre.shell_popup_state.waiting_for_shell_input {
            true
        } else {
            i.show_helper_dropdown
        },
        helper_selected: if n > 0 && i.helper_selected >= n {
            0
        } else {
            i.helper_selected
        },
        ..i
    })
}

/// What is typed comes in at the cursor: the characters in front of it and behind it stay, and the
/// cursor stands right behind what was typed.
pub proof fn law_typed_at_the_cursor(t: TextAreaView, s: Seq<char>, n: int)
    requires
        0 <= n <= t.text.len(),
        t.cursor == crate::text::utf8_len(t.text.take(n)),
    ensures
        typed(t, s).text.len() == t.text.len() + s.len(),
        typed(t, s).text.take(n) == t.text.take(n),
        typed(t, s).text.subrange(n, n + s.len()) == s,
        typed(t, s).text.skip(n + s.len()) == t.text.skip(n),
        typed(t, s).cursor == crate::text::utf8_len(typed(t, s).text.take(n + s.len())),
{
    crate::textarea::law_spliced(t.text, n, n, s);
    crate::textarea::law_inserted(t.text, n, s);
}

/// A change of the plan's status is told once: when the plan's text is a new one and its status is
/// another than the last that was told. Nothing is told while no plan is made, or while the text
/// stays the same.
pub proof fn law_plan_status_is_told_once(
    pre: PlanModeState,
    post: PlanModeState,
    content: Option<(String, Option<PlanMetadata>)>,
    r: Option<(Option<PlanStatus>, PlanStatus)>,
)
    requires
        plan_polled(pre, post, content, r),
    ensures
        !pre.is_active ==> post == pre && r is None,
        content is None ==> r is None,
        content matches Some((hash, _)) ==> pre.content_hash is Some && pre.content_hash->0@ == hash@
            ==> post == pre && r is None,
        content matches Some((hash, metadata)) ==> pre.is_active && !(pre.content_hash is Some
            && pre.content_hash->0@ == hash@) ==> {
            &&& post.content_hash == Some(hash)
            &&& post.metadata == metadata
            &&& metadata is None ==> r is None
            &&& metadata is Some && pre.previous_status == Some(metadata->0.status) ==> r is None
            &&& metadata is Some && pre.previous_status != Some(metadata->0.status) ==> {
                &&& r == Some((pre.previous_status, metadata->0.status))
                &&& post.previous_status == Some(metadata->0.status)
            }
        },
{
}

/// The files that a search found are those that are offered, all of them and in their order, and the
/// text stays as it is.
pub proof fn law_found_files_are_offered(
    pre: AppState,
    post: InputState,
    result: FileSearchResult,
    i: int,
)
    requires
        search_taken(pre, post, result),
        0 <= i < result.filtered_files@.len(),
    ensures
        post.filtered_files@.len() == result.filtered_files@.len(),
        post.filtered_files@[i] == result.filtered_files@[i],
        post.file_search.filtered_files@[i] == result.filtered_files@[i],
        post.file_search.is_file_mode,
        post.file_search.trigger_char == Some('@'),
        post.helper_selected < result.filtered_files@.len(),
        post.text_area == pre.input_state.text_area,
        pre.input_state.text_area@.text.len() == 0 ==> !post.show_helper_dropdown,
{
}

} // verus!
