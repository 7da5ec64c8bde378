//! The parts of the client's state.

use std::collections::HashMap;
use std::collections::HashSet;
use std::collections::VecDeque;
use vstd::prelude::*;
use crate::approval_bar::ApprovalBar;
use crate::ask_user::AskUserAnswer;
use crate::ask_user::AskUserQuestion;
use crate::banner::BannerMessage;
use crate::changeset::Changeset;
use crate::changeset::SectionFlags;
use crate::changeset::SidePanelSection;
use crate::collections::TextMap;
use crate::collections::TextSet;
use crate::file_search::FileSearch;
use crate::geometry::Rect;
use crate::geometry::Size;
use crate::message::Message;
use crate::message::TaskPauseInfo;
use crate::models::ContentPart;
use crate::models::Model;
use crate::models::ToolCall;
use crate::models::ToolCallResult;
use crate::shell_screen::Terminal;
use crate::style::Line;
use crate::textarea::TextArea;

verus! {

// ----- rendering -----

/// How long rendering takes, for benchmarks.
#[derive(Debug)]
pub struct RenderMetrics {
    /// The time of the last render cycle in microseconds.
    pub last_render_time_us: u64,
    /// How many messages hit the cache in it.
    pub cache_hits: usize,
    /// How many messages missed the cache in it.
    pub cache_misses: usize,
    /// How many lines it rendered.
    pub total_lines: usize,
    /// The rolling average of the time in microseconds.
    pub avg_render_time_us: u64,
    /// How many render cycles the average covers.
    pub render_count: u64,
}

impl RenderMetrics {
    /// Metrics before the first render cycle.
    pub fn new() -> (r: RenderMetrics)
        ensures
            r.is_new(),
    {
        RenderMetrics {
            last_render_time_us: 0,
            cache_hits: 0,
            cache_misses: 0,
            total_lines: 0,
            avg_render_time_us: 0,
            render_count: 0,
        }
    }

    /// Whether nothing is recorded.
    pub open spec fn is_new(&self) -> bool {
        &&& self.last_render_time_us == 0
        &&& self.cache_hits == 0
        &&& self.cache_misses == 0
        &&& self.total_lines == 0
        &&& self.avg_render_time_us == 0
        &&& self.render_count == 0
    }

    /// Records a render cycle. The average moves a tenth of the way to the new time; the first time
    /// is the average.
    pub fn record_render(
        &mut self,
        render_time_us: u64,
        cache_hits: usize,
        cache_misses: usize,
        total_lines: usize,
    )
        requires
            old(self).render_count < u64::MAX,
            old(self).render_count > 0 ==> old(self).avg_render_time_us * 9 + render_time_us <= u64::MAX,
        ensures
            final(self).last_render_time_us == render_time_us,
            final(self).cache_hits == cache_hits,
            final(self).cache_misses == cache_misses,
            final(self).total_lines == total_lines,
            final(self).render_count == old(self).render_count + 1,
            final(self).avg_render_time_us == (if old(self).render_count == 0 {
                render_time_us as int
            } else {
                (old(self).avg_render_time_us * 9 + render_time_us) / 10
            }),
    {
        self.last_render_time_us = render_time_us;
        self.cache_hits = cache_hits;
        self.cache_misses = cache_misses;
        self.total_lines = total_lines;
        self.render_count = self.render_count + 1;
        if self.render_count == 1 {
            self.avg_render_time_us = render_time_us;
        } else {
            self.avg_render_time_us = (self.avg_render_time_us * 9 + render_time_us) / 10;
        }
    }

    /// Forgets what was recorded.
    pub fn reset(&mut self)
        ensures
            final(self).is_new(),
    {
        *self = RenderMetrics::new();
    }
}

/// The average stays between the smaller and the larger of the old average and the new time.
pub proof fn law_average_between(average: int, time: int)
    requires
        0 <= average,
        0 <= time,
    ensures
        average <= time ==> average <= (average * 9 + time) / 10 <= time,
        time <= average ==> time <= (average * 9 + time) / 10 <= average,
{
}

// ----- input -----

/// Where a slash command comes from.
#[derive(Debug)]
pub enum CommandSource {
    BuiltIn,
    /// A command of the program whose prompt is fixed. `{input}` in it stands for the arguments.
    BuiltInWithPrompt { prompt_content: String },
    /// A command of the user, read from a file.
    Custom { prompt_content: String },
}

impl Clone for CommandSource {
    fn clone(&self) -> (r: CommandSource)
        ensures
            r == *self,
    {
        match self {
            CommandSource::BuiltIn => CommandSource::BuiltIn,
            CommandSource::BuiltInWithPrompt { prompt_content } => {
                CommandSource::BuiltInWithPrompt { prompt_content: prompt_content.clone() }
            },
            CommandSource::Custom { prompt_content } => {
                CommandSource::Custom { prompt_content: prompt_content.clone() }
            },
        }
    }
}

/// A slash command that the input offers.
#[derive(Debug)]
pub struct HelperCommand {
    pub command: String,
    pub description: String,
    pub source: CommandSource,
}

impl Clone for HelperCommand {
    fn clone(&self) -> (r: HelperCommand)
        ensures
            r == *self,
    {
        HelperCommand {
            command: self.command.clone(),
            description: self.description.clone(),
            source: self.source.clone(),
        }
    }
}

/// What a search for files gave.
#[derive(Debug)]
pub struct FileSearchResult {
    pub filtered_helpers: Vec<HelperCommand>,
    pub filtered_files: Vec<String>,
    pub cursor_position: usize,
    pub input: String,
}

/// An image that the input holds a placeholder for. The positions are byte offsets.
#[derive(Debug)]
pub struct AttachedImage {
    pub placeholder: String,
    pub path: String,
    pub filename: String,
    /// What follows the last dot of the file's name.
    pub extension: Option<String>,
    pub dimensions: (u32, u32),
    pub start_pos: usize,
    pub end_pos: usize,
}

/// What the user is typing, and what the input offers.
#[derive(Debug)]
pub struct InputState {
    pub text_area: TextArea,
    pub cursor_visible: bool,
    pub helpers: Vec<HelperCommand>,
    pub show_helper_dropdown: bool,
    pub helper_selected: usize,
    pub helper_scroll: usize,
    pub filtered_helpers: Vec<HelperCommand>,
    pub filtered_files: Vec<String>,
    pub file_search: FileSearch,
    pub is_pasting: bool,
    pub pasted_long_text: Option<String>,
    pub pasted_placeholder: Option<String>,
    pub pending_pastes: Vec<(String, String)>,
    pub attached_images: Vec<AttachedImage>,
    pub pending_path_start: Option<usize>,
    pub interactive_commands: Vec<String>,
}

// ----- loading -----

/// What is being waited for.
#[derive(Clone, Copy, Debug, PartialEq, Eq, Structural)]
pub enum LoadingType {
    Llm,
    Sessions,
}

/// Something that takes time.
#[derive(Clone, Copy, Debug, PartialEq, Eq, Structural)]
pub enum LoadingOperation {
    LlmRequest,
    ToolExecution,
    SessionsList,
    StreamProcessing,
    LocalContext,
    Rulebooks,
    CheckpointResume,
}

/// The operations that are under way.
#[derive(Debug)]
pub struct LoadingStateManager {
    llm_request: bool,
    tool_execution: bool,
    sessions_list: bool,
    stream_processing: bool,
    local_context: bool,
    rulebooks: bool,
    checkpoint_resume: bool,
}

impl View for LoadingStateManager {
    type V = Set<LoadingOperation>;

    closed spec fn view(&self) -> Set<LoadingOperation> {
        Set::new(|op: LoadingOperation| self.active(op))
    }
}

impl LoadingStateManager {
    spec fn active(&self, op: LoadingOperation) -> bool {
        match op {
            LoadingOperation::LlmRequest => self.llm_request,
            LoadingOperation::ToolExecution => self.tool_execution,
            LoadingOperation::SessionsList => self.sessions_list,
            LoadingOperation::StreamProcessing => self.stream_processing,
            LoadingOperation::LocalContext => self.local_context,
            LoadingOperation::Rulebooks => self.rulebooks,
            LoadingOperation::CheckpointResume => self.checkpoint_resume,
        }
    }

    /// No operation is under way.
    pub fn new() -> (r: LoadingStateManager)
        ensures
            r@ == Set::<LoadingOperation>::empty(),
    {
        let r: LoadingStateManager = LoadingStateManager {
            llm_request: false,
            tool_execution: false,
            sessions_list: false,
            stream_processing: false,
            local_context: false,
            rulebooks: false,
            checkpoint_resume: false,
        };
        assert(r@ =~= Set::<LoadingOperation>::empty());
        r
    }

    fn set(&mut self, op: LoadingOperation, on: bool)
        ensures
            forall|o: LoadingOperation| #[trigger]
                final(self).active(o) == (if o == op {
                    on
                } else {
                    old(self).active(o)
                }),
    {
        match op {
            LoadingOperation::LlmRequest => {
                self.llm_request = on;
            },
            LoadingOperation::ToolExecution => {
                self.tool_execution = on;
            },
            LoadingOperation::SessionsList => {
                self.sessions_list = on;
            },
            LoadingOperation::StreamProcessing => {
                self.stream_processing = on;
            },
            LoadingOperation::LocalContext => {
                self.local_context = on;
            },
            LoadingOperation::Rulebooks => {
                self.rulebooks = on;
            },
            LoadingOperation::CheckpointResume => {
                self.checkpoint_resume = on;
            },
        }
    }

    /// The operation is under way.
    pub fn start_operation(&mut self, operation: LoadingOperation)
        ensures
            final(self)@ == old(self)@.insert(operation),
    {
        self.set(operation, true);
        assert(self@ =~= old(self)@.insert(operation));
    }

    /// The operation is over.
    pub fn end_operation(&mut self, operation: LoadingOperation)
        ensures
            final(self)@ == old(self)@.remove(operation),
    {
        self.set(operation, false);
        assert(self@ =~= old(self)@.remove(operation));
    }

    /// Whether any operation is under way.
    pub fn is_loading(&self) -> (r: bool)
        ensures
            r == (self@ != Set::<LoadingOperation>::empty()),
    {
        let r: bool = self.llm_request || self.tool_execution || self.sessions_list
            || self.stream_processing || self.local_context || self.rulebooks
            || self.checkpoint_resume;
        proof {
            if r {
                let op = if self.llm_request {
                    LoadingOperation::LlmRequest
                } else if self.tool_execution {
                    LoadingOperation::ToolExecution
                } else if self.sessions_list {
                    LoadingOperation::SessionsList
                } else if self.stream_processing {
                    LoadingOperation::StreamProcessing
                } else if self.local_context {
                    LoadingOperation::LocalContext
                } else if self.rulebooks {
                    LoadingOperation::Rulebooks
                } else {
                    LoadingOperation::CheckpointResume
                };
                assert(self@.contains(op));
            } else {
                assert(self@ =~= Set::<LoadingOperation>::empty());
            }
        }
        r
    }

    /// What is being waited for: the list of sessions while it is under way, else the model.
    pub fn get_loading_type(&self) -> (r: LoadingType)
        ensures
            r == (if self@.contains(LoadingOperation::SessionsList) {
                LoadingType::Sessions
            } else {
                LoadingType::Llm
            }),
    {
        if self.sessions_list {
            LoadingType::Sessions
        } else {
            LoadingType::Llm
        }
    }

    /// All operations are over.
    pub fn clear_all(&mut self)
        ensures
            final(self)@ == Set::<LoadingOperation>::empty(),
    {
        *self = LoadingStateManager::new();
    }
}

/// An operation that ended is not under way, and the others are as before it started.
pub proof fn law_start_end(ops: Set<LoadingOperation>, op: LoadingOperation)
    ensures
        ops.insert(op).remove(op) == ops.remove(op),
        !ops.contains(op) ==> ops.insert(op).remove(op) == ops,
        ops.insert(op).insert(op) == ops.insert(op),
{
    assert(ops.insert(op).remove(op) =~= ops.remove(op));
    if !ops.contains(op) {
        assert(ops.insert(op).remove(op) =~= ops);
    }
    assert(ops.insert(op).insert(op) =~= ops.insert(op));
}

/// Whether something is being waited for.
#[derive(Debug)]
pub struct LoadingState {
    pub is_loading: bool,
    pub loading_type: LoadingType,
    pub spinner_frame: usize,
    pub loading_manager: LoadingStateManager,
}

// ----- messages -----

/// Which message the rendered lines `start..end` belong to.
#[derive(Debug)]
pub struct LineOwner {
    pub start: usize,
    pub end: usize,
    pub id: u128,
    pub is_user: bool,
    pub text: String,
    pub user_index: usize,
}

/// The conversation and how far it is scrolled.
#[derive(Debug)]
pub struct MessagesScrollingState {
    pub messages: Vec<Message>,
    pub scroll: usize,
    pub scroll_to_bottom: bool,
    pub scroll_to_last_message_start: bool,
    pub stay_at_bottom: bool,
    /// For so many frames more, the view does not follow the end.
    pub block_stay_at_bottom_frames: u8,
    /// While the view does not follow the end: how many lines before the end it starts.
    pub scroll_lines_from_end: Option<usize>,
    pub content_changed_while_scrolled_up: bool,
    /// How many lines the conversation took when it was last laid out.
    pub message_lines_cache: Option<usize>,
    /// The lines of the collapsed messages when they were last laid out.
    pub collapsed_message_lines_cache: Option<Vec<Line>>,
    /// The lines of the conversation when it was last laid out.
    pub assembled_lines_cache: Option<Vec<Line>>,
    /// Whether the laid-out lines may be out of date.
    pub lines_stale: bool,
    pub show_collapsed_messages: bool,
    pub collapsed_messages_scroll: usize,
    pub collapsed_messages_selected: usize,
    pub has_user_messages: bool,
    pub render_metrics: RenderMetrics,
    pub line_to_message_map: Vec<LineOwner>,
}

// ----- side panel -----

/// An entry of the task list.
#[derive(Debug)]
pub struct TodoItem {
    pub text: String,
    pub status: String,
}

/// How many tasks are done, and how many there are.
#[derive(Clone, Copy, Debug, PartialEq, Eq, Structural)]
pub struct TaskProgress {
    pub completed: usize,
    pub total: usize,
}

#[derive(Debug)]
pub struct SidePanelState {
    pub is_shown: bool,
    pub focused_section: SidePanelSection,
    pub collapsed_sections: SectionFlags,
    pub areas: Vec<(SidePanelSection, Rect)>,
    pub session_id: String,
    /// When the session's identifier was copied, in milliseconds.
    pub session_id_copied_at: Option<u64>,
    pub changeset: Changeset,
    pub todos: Vec<TodoItem>,
    pub task_progress: Option<TaskProgress>,
    pub auto_shown: bool,
    pub board_agent_id: Option<String>,
    pub editor_command: String,
    pub pending_editor_open: Option<String>,
    pub billing_info: Option<String>,
}

// ----- shell -----

/// The shell command that runs.
#[derive(Debug)]
pub struct ShellCommand {
    pub id: String,
    pub command: String,
}

/// The shell's popup and the command that runs in it.
#[derive(Debug)]
pub struct ShellPopupState {
    pub is_visible: bool,
    pub is_expanded: bool,
    pub scroll: usize,
    pub needs_terminal_clear: bool,
    pub cursor_visible: bool,
    pub cursor_blink_timer: u8,
    pub active_shell_command: Option<ShellCommand>,
    pub active_shell_command_output: Option<String>,
    pub waiting_for_shell_input: bool,
    pub shell_tool_calls: Option<Vec<ToolCallResult>>,
    pub is_loading: bool,
    pub pending_command_value: Option<String>,
    pub pending_command_executed: bool,
    pub pending_command_output: Option<String>,
    pub pending_command_output_count: usize,
    pub is_tool_call_shell_command: bool,
    pub ondemand_shell_mode: bool,
    pub shell_initial_prompt_shown: bool,
    pub shell_command_typed: bool,
}

/// The shell's screen and what it has shown.
pub struct ShellRuntimeState {
    pub screen: Terminal,
    pub scroll: u16,
    pub history_lines: Vec<Line>,
}

#[derive(Debug)]
pub struct ShellSessionState {
    pub interactive_shell_message_id: Option<u128>,
    pub shell_interaction_occurred: bool,
}

// ----- tool calls -----

/// How far a tool call is.
#[derive(Clone, Copy, Debug, PartialEq, Eq, Structural)]
pub enum ToolCallStatus {
    Approved,
    Rejected,
    Executed,
    Skipped,
    Pending,
}

/// Tool calls that run, and what they have said so far.
#[derive(Debug)]
pub struct ToolCallState {
    pub pending_bash_message_id: Option<u128>,
    pub streaming_tool_results: HashMap<u128, String>,
    pub streaming_tool_result_id: Option<u128>,
    pub completed_tool_calls: HashSet<u128>,
    pub is_streaming: bool,
    /// The user asked for a cancellation whose end has not arrived yet.
    pub cancel_requested: bool,
    pub latest_tool_call: Option<ToolCall>,
    pub tool_call_stream_preview_id: Option<u128>,
    pub retry_attempts: usize,
    pub max_retry_attempts: usize,
    pub last_user_message_for_retry: Option<String>,
    pub is_retrying: bool,
    pub subagent_pause_info: TextMap<TaskPauseInfo>,
}

#[derive(Debug)]
pub struct SessionToolCallsState {
    pub session_tool_calls_queue: TextMap<ToolCallStatus>,
    pub tool_call_execution_order: Vec<String>,
    pub last_message_tool_calls: Vec<ToolCall>,
}

/// The dialog and the bar in which the user approves tool calls.
#[derive(Debug)]
pub struct DialogApprovalState {
    pub is_dialog_open: bool,
    pub dialog_command: Option<ToolCall>,
    pub dialog_selected: usize,
    pub dialog_message_id: Option<u128>,
    pub dialog_focused: bool,
    pub approval_bar: ApprovalBar,
    pub message_tool_calls: Option<Vec<ToolCall>>,
    pub message_approved_tools: Vec<ToolCall>,
    pub message_rejected_tools: Vec<ToolCall>,
    pub toggle_approved_message: bool,
    pub show_shortcuts: bool,
}

// ----- popups -----

#[derive(Debug)]
pub struct SessionInfo {
    pub title: String,
    pub id: String,
    pub updated_at: String,
    pub checkpoints: Vec<String>,
}

#[derive(Debug)]
pub struct SessionsState {
    pub sessions: Vec<SessionInfo>,
    pub session_selected: usize,
    pub account_info: String,
}

#[derive(Debug)]
pub struct ProfileSwitcherState {
    pub show_profile_switcher: bool,
    pub available_profiles: Vec<String>,
    pub selected_index: usize,
    pub current_profile_name: String,
    pub switching_in_progress: bool,
    pub switch_status_message: Option<String>,
}

/// A rulebook that the user can select.
#[derive(Debug)]
pub struct ListRuleBook {
    pub uri: String,
    pub description: String,
    pub tags: Vec<String>,
}

/// Which rulebooks a session starts with.
#[derive(Debug)]
pub struct RulebookConfig {
    pub include_uris: Option<Vec<String>>,
    pub exclude_uris: Option<Vec<String>>,
    pub include_tags: Option<Vec<String>>,
    pub exclude_tags: Option<Vec<String>>,
}

#[derive(Debug)]
pub struct RulebookSwitcherState {
    pub show_rulebook_switcher: bool,
    pub available_rulebooks: Vec<ListRuleBook>,
    pub selected_rulebooks: TextSet,
    pub is_selected: usize,
    pub rulebook_search_input: String,
    pub filtered_rulebooks: Vec<ListRuleBook>,
    pub rulebook_config: Option<RulebookConfig>,
}

/// Which models the model switcher shows.
#[derive(Clone, Copy, Debug, PartialEq, Eq, Structural)]
pub enum ModelSwitcherMode {
    All,
    Reasoning,
}

#[derive(Debug)]
pub struct ModelSwitcherState {
    pub is_visible: bool,
    pub is_selected: usize,
    pub mode: ModelSwitcherMode,
    pub search: String,
    pub available_models: Vec<Model>,
    pub current_model: Option<Model>,
    pub recent_models: Vec<String>,
}

#[derive(Debug)]
pub struct CommandPaletteState {
    pub is_visible: bool,
    pub is_selected: usize,
    pub scroll: usize,
    pub search: String,
}

/// What the shortcuts popup shows.
#[derive(Clone, Copy, Debug, PartialEq, Eq, Structural)]
pub enum ShortcutsPopupMode {
    Commands,
    Shortcuts,
    Sessions,
}

#[derive(Debug)]
pub struct ShortcutsPanelState {
    pub is_visible: bool,
    pub scroll: usize,
    pub mode: ShortcutsPopupMode,
}

#[derive(Debug)]
pub struct FileChangesPopupState {
    pub is_visible: bool,
    pub is_selected: usize,
    pub scroll: usize,
    pub search: String,
}

// ----- plans -----

/// How far a plan is.
#[derive(Clone, Copy, Debug, PartialEq, Eq, Structural)]
pub enum PlanStatus {
    Drafting,
    PendingReview,
    Approved,
}

/// What the head of a plan file says.
#[derive(Debug)]
pub struct PlanMetadata {
    pub title: String,
    pub status: PlanStatus,
    pub version: usize,
}

/// What waits while the user decides whether to go on with an existing plan.
#[derive(Debug)]
pub struct ExistingPlanPrompt {
    pub inline_prompt: Option<String>,
    pub metadata: Option<PlanMetadata>,
}

#[derive(Debug)]
pub struct PlanModeState {
    pub is_active: bool,
    pub metadata: Option<PlanMetadata>,
    pub content_hash: Option<String>,
    pub previous_status: Option<PlanStatus>,
    pub review_auto_opened: bool,
    pub existing_prompt: Option<ExistingPlanPrompt>,
}

/// What a review of a plan asks the user to confirm.
#[derive(Clone, Copy, Debug, PartialEq, Eq, Structural)]
pub enum ConfirmAction {
    Submit,
    DeleteComment,
}

#[derive(Debug)]
pub struct PlanReviewState {
    pub is_visible: bool,
    pub scroll: usize,
    pub cursor_line: usize,
    pub content: String,
    pub lines: Vec<String>,
    pub show_comment_modal: bool,
    pub comment_input: String,
    pub selected_comment: Option<String>,
    pub confirm: Option<ConfirmAction>,
}

// ----- the rest -----

/// Questions to the user, and the answers so far.
#[derive(Debug)]
pub struct AskUserState {
    pub is_visible: bool,
    pub questions: Vec<AskUserQuestion>,
    pub answers: TextMap<AskUserAnswer>,
    /// The question that is shown; the number of questions stands for the page that submits.
    pub current_tab: usize,
    pub selected_option: usize,
    pub custom_input: String,
    pub tool_call: Option<ToolCall>,
    pub message_id: Option<u128>,
    pub is_focused: bool,
    pub multi_selections: TextMap<Vec<String>>,
}

#[derive(Debug)]
pub struct QuitIntentState {
    pub ctrl_c_pressed_once: bool,
    /// Until when a second press quits, in milliseconds.
    pub ctrl_c_timer: Option<u64>,
}

#[derive(Debug)]
pub struct TerminalUiState {
    pub mouse_capture_enabled: bool,
    pub terminal_size: Size,
}

#[derive(Debug)]
pub struct BannerState {
    pub message: Option<BannerMessage>,
    pub area: Option<Rect>,
    pub click_regions: Vec<(String, Rect)>,
    pub dismiss_region: Option<Rect>,
}

/// A message of the user that waits for the model to be idle.
#[derive(Debug)]
pub struct PendingUserMessage {
    pub final_input: String,
    pub shell_tool_calls: Option<Vec<ToolCallResult>>,
    pub image_parts: Vec<ContentPart>,
    pub user_message_text: String,
}

#[derive(Debug)]
pub struct UserMessageQueueState {
    pub pending_user_messages: VecDeque<PendingUserMessage>,
}

#[derive(Debug)]
pub struct MessageRevertState {
    pub user_message_count: usize,
    pub pending_revert_index: Option<usize>,
}

/// The text that the user has selected: absolute lines, and columns in them.
#[derive(Clone, Copy, Debug, PartialEq, Eq, Structural)]
pub struct SelectionState {
    pub active: bool,
    pub start_line: Option<usize>,
    pub start_col: Option<u16>,
    pub end_line: Option<usize>,
    pub end_col: Option<u16>,
}

impl SelectionState {
    pub open spec fn none_spec() -> SelectionState {
        SelectionState {
            active: false,
            start_line: None,
            start_col: None,
            end_line: None,
            end_col: None,
        }
    }

    /// Nothing is selected.
    #[verifier::when_used_as_spec(none_spec)]
    pub fn none() -> (r: SelectionState)
        ensures
            r == SelectionState::none_spec(),
    {
        SelectionState {
            active: false,
            start_line: None,
            start_col: None,
            end_line: None,
            end_col: None,
        }
    }
}

#[derive(Debug)]
pub struct MessageInteractionState {
    pub show_message_action_popup: bool,
    pub message_action_popup_selected: usize,
    pub message_action_popup_position: Option<(u16, u16)>,
    pub message_action_target_message_id: Option<u128>,
    pub message_action_target_text: Option<String>,
    pub message_area_y: u16,
    pub message_area_x: u16,
    pub message_area_height: u16,
    pub hover_row: Option<u16>,
    pub collapsed_popup_area_y: u16,
    pub collapsed_popup_area_x: u16,
    pub collapsed_popup_area_height: u16,
    pub selection: SelectionState,
    pub selection_auto_scroll: i32,
    pub input_content_area: Option<Rect>,
}

/// How many tokens a message or session took.
#[derive(Clone, Copy, Debug, PartialEq, Eq, Structural)]
pub struct LLMTokenUsage {
    pub prompt_tokens: u32,
    pub completion_tokens: u32,
    pub total_tokens: u32,
    pub prompt_tokens_details: Option<PromptTokensDetails>,
}

/// Where the tokens of a prompt came from.
#[derive(Clone, Copy, Debug, PartialEq, Eq, Structural)]
pub struct PromptTokensDetails {
    pub input_tokens: Option<u32>,
    pub output_tokens: Option<u32>,
    pub cache_read_input_tokens: Option<u32>,
    pub cache_write_input_tokens: Option<u32>,
}

impl LLMTokenUsage {
    pub open spec fn zero_spec() -> LLMTokenUsage {
        LLMTokenUsage {
            prompt_tokens: 0,
            completion_tokens: 0,
            total_tokens: 0,
            prompt_tokens_details: None,
        }
    }

    /// No tokens.
    #[verifier::when_used_as_spec(zero_spec)]
    pub fn zero() -> (r: LLMTokenUsage)
        ensures
            r == LLMTokenUsage::zero_spec(),
    {
        LLMTokenUsage {
            prompt_tokens: 0,
            completion_tokens: 0,
            total_tokens: 0,
            prompt_tokens_details: None,
        }
    }
}

#[derive(Debug)]
pub struct UsageTrackingState {
    pub current_message_usage: LLMTokenUsage,
    pub total_session_usage: LLMTokenUsage,
    pub context_usage_percent: u64,
}

#[derive(Debug)]
pub struct ConfigurationState {
    pub latest_version: Option<String>,
    pub is_git_repo: bool,
    pub allowed_tools: Option<Vec<String>>,
    pub model: Model,
    pub auth_display_info: (Option<String>, Option<String>, Option<String>),
    pub init_prompt_content: Option<String>,
    /// What goes out in place of texts that hold secrets.
    pub hidden_texts: TextMap<String>,
}

/// A short notice at the edge of the screen.
#[derive(Debug)]
pub enum Toast {
    Success(String),
    Error(String),
}

} // verus!
