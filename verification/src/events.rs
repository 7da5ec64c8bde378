//! What reaches the client, and what it sends out.

use vstd::prelude::*;
use crate::ask_user::AskUserQuestion;
use crate::banner::BannerStyle;
use crate::message::TaskUpdate;
use crate::message::ToolCallStreamInfo;
use crate::models::ContentPart;
use crate::models::Model;
use crate::models::ToolCall;
use crate::models::ToolCallResult;
use crate::style::Color;
use crate::types::ExistingPlanPrompt;
use crate::types::LLMTokenUsage;
use crate::types::ListRuleBook;
use crate::types::LoadingOperation;
use crate::types::SelectionState;
use crate::types::SessionInfo;
use crate::types::TaskProgress;
use crate::types::TodoItem;

verus! {

/// A text and the byte offset of its cursor after an edit.
#[derive(Debug)]
pub struct EditedText {
    pub text: String,
    pub cursor: usize,
}

/// What a running tool reports.
#[derive(Debug)]
pub struct ToolCallProgress {
    pub id: u128,
    pub message: String,
    /// Whether the tool waits for background tasks.
    pub is_task_wait: bool,
    pub task_updates: Option<Vec<TaskUpdate>>,
    /// The overall progress as the bits of a floating-point number.
    pub progress: Option<u64>,
}

/// Something that the user did or the backend reports.
#[derive(Debug)]
pub enum InputEvent {
    // Typing. The text area hands over what an edit makes of the text, and the byte offset to which
    // a motion takes the cursor.
    InputChanged(char),
    InputBackspace(EditedText),
    InputChangedNewline,
    InputSubmitted,
    InputSubmittedWith(String),
    InputSubmittedWithColor(String, Color),
    HandlePaste(String),
    HandleClipboardImagePaste,
    InputDelete,
    InputDeleteWord(EditedText),
    InputCursorStart(usize),
    InputCursorEnd(usize),
    InputCursorPrevWord(usize),
    InputCursorNextWord(usize),
    CursorLeft(usize),
    CursorRight(usize),
    // Navigation.
    Up,
    Down,
    ScrollUp,
    ScrollDown,
    PageUp,
    PageDown,
    DropdownUp,
    DropdownDown,
    Tab,
    HandleEsc,
    HandleReject(Option<String>, bool, Option<Color>),
    /// A tool call that asks for an approval, and whether it is approved already.
    ShowConfirmationDialog(ToolCall, bool),
    ToggleDialogFocus,
    // Tools.
    RunToolCall(ToolCall),
    ToolResult(ToolCallResult),
    StreamToolResult(ToolCallProgress),
    /// The tool calls of a message, each with whether it needs an approval.
    MessageToolCalls(Vec<(ToolCall, bool)>),
    StreamToolCallProgress(Vec<ToolCallStreamInfo>),
    RetryLastToolCall,
    InteractiveStallDetected(String),
    ToggleApprovalStatus,
    ApprovalPopupNextTab,
    ApprovalPopupPrevTab,
    ApprovalPopupToggleApproval,
    ApprovalPopupEscape,
    ApprovalPopupSubmit,
    ApprovalBarApproveAll,
    ApprovalBarRejectAll,
    ApprovalBarSelectAction(usize),
    ApprovalBarApproveSelected,
    ApprovalBarRejectSelected,
    ApprovalBarNextAction,
    ApprovalBarPrevAction,
    ApprovalBarCollapse,
    // Shell.
    RunShellCommand(String),
    RunShellWithCommand(String),
    ShellMode,
    /// What the shell wrote, and the log of the command with it, cut to its length.
    ShellOutput(String, String),
    /// An error of the shell, without control sequences.
    ShellError(String),
    ShellWaitingForInput,
    /// The exit code.
    ShellCompleted(i32),
    ShellClear,
    ShellKill,
    // Popups.
    ShowProfileSwitcher,
    ProfileSwitcherSelect,
    ProfileSwitcherCancel,
    ProfilesLoaded(Vec<String>, String),
    ProfileSwitchRequested(String),
    ProfileSwitchProgress(String),
    ProfileSwitchComplete(String),
    ProfileSwitchFailed(String),
    ShowRulebookSwitcher,
    RulebookSwitcherSelect,
    RulebookSwitcherToggle,
    RulebookSwitcherCancel,
    RulebookSwitcherConfirm,
    RulebookSwitcherSelectAll,
    RulebookSwitcherDeselectAll,
    RulebookSearchInputChanged(char),
    RulebookSearchBackspace,
    RulebooksLoaded(Vec<ListRuleBook>),
    CurrentRulebooksLoaded(Vec<String>),
    ShowCommandPalette,
    CommandPaletteSearchInputChanged(char),
    CommandPaletteSearchBackspace,
    ShowShortcuts,
    ShortcutsCancel,
    ToggleCollapsedMessages,
    ShowFileChangesPopup,
    ToggleMoreShortcuts,
    FileChangesRevertFile,
    FileChangesRevertAll,
    FileChangesOpenEditor,
    ShowModelSwitcher,
    AvailableModelsLoaded(Vec<Model>),
    ModelSwitcherSelect,
    ModelSwitcherCancel,
    ModelSwitcherSearchInputChanged(char),
    ModelSwitcherSearchBackspace,
    RecentModelsUpdated(Vec<String>),
    ToggleSidePanel,
    SidePanelNextSection,
    SidePanelToggleSection,
    CopySessionId,
    SetSessionId(String),
    // Messages.
    StreamAssistantMessage(u128, String),
    AddUserMessage(String),
    HasUserMessage,
    AssistantMessage(String),
    StreamUsage(LLMTokenUsage),
    RequestTotalUsage,
    TotalUsage(LLMTokenUsage),
    // The rest.
    Error(String),
    Resized(u16, u16),
    ToggleCursorVisible,
    ToggleAutoApprove,
    AutoApproveCurrentTool,
    HandleCtrlS,
    Quit,
    AttemptQuit,
    ToggleMouseCapture,
    OpenFileInEditor,
    EmergencyClearTerminal,
    SetSessions(Vec<SessionInfo>),
    SetBannerMessage(String, BannerStyle),
    StartLoadingOperation(LoadingOperation),
    EndLoadingOperation(LoadingOperation),
    GetStatus(String),
    StreamModel(Model),
    BillingInfoLoaded(String),
    MouseClick(u16, u16),
    MouseDragStart(u16, u16),
    MouseDrag(u16, u16),
    MouseDragEnd(u16, u16),
    MouseMove(u16, u16),
    RefreshBoardTasks,
    BoardTasksLoaded(Vec<TodoItem>, TaskProgress),
    BoardTasksError(String),
    PlanModeChanged(bool),
    ExistingPlanFound(ExistingPlanPrompt),
    TogglePlanReview,
    PlanReviewClose,
    PlanReviewCursorUp,
    PlanReviewCursorDown,
    PlanReviewNextComment,
    PlanReviewPrevComment,
    PlanReviewPageUp,
    PlanReviewPageDown,
    PlanReviewComment,
    PlanReviewApprove,
    PlanReviewFeedback,
    PlanReviewResolve,
    ShowAskUserPopup(ToolCall, Vec<AskUserQuestion>),
    AskUserNextTab,
    AskUserPrevTab,
    AskUserNextOption,
    AskUserPrevOption,
    AskUserSelectOption,
    AskUserConfirmQuestion,
    AskUserCustomInputChanged(char),
    AskUserCustomInputBackspace,
    AskUserCustomInputDelete,
    AskUserSubmit,
    AskUserCancel,
}

/// Something that the client tells the backend.
#[derive(Debug)]
pub enum OutputEvent {
    UserMessage(String, Option<Vec<ToolCallResult>>, Vec<ContentPart>, Option<usize>),
    AcceptTool(ToolCall),
    RejectTool(ToolCall, bool),
    SendToolResult(ToolCallResult, bool, Vec<ToolCall>),
    /// The answers to the questions of a tool call, as JSON text.
    AskUserResponse(ToolCallResult),
    PlanModeActivated(Option<String>),
    RequestProfileSwitch(String),
    RequestRulebookUpdate(Vec<String>),
    RequestCurrentRulebooks,
    RequestAvailableModels,
    RequestTotalUsage,
    SwitchToModel(Model),
    SwitchToSession(String),
    SaveRecentModels(Vec<String>),
    ListSessions,
}

/// What a review of a plan is to do.
#[derive(Clone, Copy, Debug, PartialEq, Eq, Structural)]
pub enum ReviewAction {
    Open,
    Close,
    CursorUp,
    CursorDown,
    NextComment,
    PrevComment,
    PageUp,
    PageDown,
    OpenComment,
    OpenDeleteConfirm,
    OpenSubmitConfirm,
    ExecuteConfirm,
    CloseComment,
    CommentChar(char),
    CommentBackspace,
    CommentNewline,
    SubmitComment,
}

/// Something that has to be done outside: on the terminal, in the shell or on disk.
#[derive(Debug)]
pub enum Effect {
    /// Write to the shell's input.
    ShellInput(String),
    /// End the shell command.
    KillShell,
    /// Run a program in a terminal, and type a command into it where there is one.
    SpawnShell(String, Option<String>),
    /// Run a command in a terminal of so many rows and columns.
    RunCommand(String, u16, u16),
    /// Run the user's shell.
    StartShell,
    /// Stop the stream of the model.
    CancelStream,
    /// Put the plan file away.
    ArchivePlan,
    /// Copy a text.
    CopyToClipboard(String),
    /// Copy what is selected, in the conversation or among the collapsed messages.
    CopySelection(SelectionState, bool),
    /// Start selecting in the input, at this cell.
    SelectInput(u16, u16),
    /// Go on selecting in the input, up to this cell.
    ExtendInput(u16, u16),
    /// Copy what is selected in the input.
    CopyInput,
    /// Copy the session's identifier, and say when that was done.
    CopySessionId(String),
    /// Search for completions.
    SearchFiles(String, usize),
    /// Act on the review of a plan.
    PlanReview(ReviewAction),
    /// Fetch the tasks of a board.
    FetchTasks(String),
    /// Turn approving by itself on or off, and say how it is.
    ToggleAutoApprove,
    /// Turn approving the named tool by itself on or off, and say how it is.
    ToggleToolApproval(String),
    /// List the tools that are approved by themselves.
    ListAutoApproved,
    /// Turn the mouse on or off.
    ToggleMouseCapture,
    /// Undo the changes of a file.
    RevertFile(String),
    /// Undo the changes of these files.
    RevertAll(Vec<String>),
    /// Undo the changes since a message of the user.
    RevertSince(usize),
    /// Filter the models and select the current one, where it is among them.
    PreselectModel,
    /// Filter the models and select the first that is shown.
    SelectFirstModel,
    /// Run a command that the input or the palette names.
    Command(String),
    /// A click on the banner, where this cell lies in it.
    ClickBanner(u16, u16),
    /// What tells of a message that is being written, or of what messages cost.
    Tell(InputEvent),
}

/// What a handler sends out: events for the backend and for the client itself, as far as there is
/// room for them, and effects.
#[derive(Debug)]
pub struct Outbox {
    pub output: Vec<OutputEvent>,
    pub output_room: usize,
    pub input: Vec<InputEvent>,
    pub input_room: usize,
    pub effects: Vec<Effect>,
}

/// Whether one entry came in behind the others, of which `p` holds.
pub open spec fn one_more<T>(pre: Seq<T>, post: Seq<T>, p: spec_fn(T) -> bool) -> bool {
    &&& post.len() == pre.len() + 1
    &&& post.drop_last() == pre
    &&& p(post.last())
}

impl Outbox {
    /// Nothing to send; room for so many events.
    pub fn new(output_room: usize, input_room: usize) -> (r: Outbox)
        ensures
            r.output@.len() == 0,
            r.input@.len() == 0,
            r.effects@.len() == 0,
            r.output_room == output_room,
            r.input_room == input_room,
    {
        Outbox {
            output: Vec::new(),
            output_room,
            input: Vec::new(),
            input_room,
            effects: Vec::new(),
        }
    }

    /// Whether an event for the backend finds room.
    pub open spec fn can_output(&self) -> bool {
        self.output@.len() < self.output_room
    }

    /// Whether an event for the client itself finds room.
    pub open spec fn can_input(&self) -> bool {
        self.input@.len() < self.input_room
    }

    /// Nothing was sent.
    pub open spec fn same(&self, post: Outbox) -> bool {
        self.same_but_output(post) && post.output@ == self.output@
    }

    pub open spec fn same_but_output(&self, post: Outbox) -> bool {
        &&& post.output_room == self.output_room
        &&& post.input_room == self.input_room
        &&& post.input@ == self.input@
        &&& post.effects@ == self.effects@
    }

    /// One event for the backend was sent, of which `p` holds, where there was room.
    pub open spec fn outputs(&self, post: Outbox, p: spec_fn(OutputEvent) -> bool) -> bool {
        &&& self.same_but_output(post)
        &&& if self.can_output() {
            one_more(self.output@, post.output@, p)
        } else {
            post.output@ == self.output@
        }
    }

    /// One event for the client itself was sent, of which `p` holds, where there was room.
    pub open spec fn inputs(&self, post: Outbox, p: spec_fn(InputEvent) -> bool) -> bool {
        &&& post.output_room == self.output_room
        &&& post.input_room == self.input_room
        &&& post.output@ == self.output@
        &&& post.effects@ == self.effects@
        &&& if self.can_input() {
            one_more(self.input@, post.input@, p)
        } else {
            post.input@ == self.input@
        }
    }

    /// One effect is to be performed, of which `p` holds.
    pub open spec fn affects(&self, post: Outbox, p: spec_fn(Effect) -> bool) -> bool {
        &&& post.output_room == self.output_room
        &&& post.input_room == self.input_room
        &&& post.output@ == self.output@
        &&& post.input@ == self.input@
        &&& one_more(self.effects@, post.effects@, p)
    }

    /// Sends an event to the backend, where there is room. Whether it was sent.
    pub fn send_output(&mut self, e: OutputEvent) -> (sent: bool)
        ensures
            sent == old(self).can_output(),
            final(self).output@ == (if sent {
                old(self).output@.push(e)
            } else {
                old(self).output@
            }),
            old(self).outputs(*final(self), |x: OutputEvent| x == e),
    {
        if self.output.len() < self.output_room {
            self.output.push(e);
            assert(self.output@.drop_last() =~= old(self).output@);
            true
        } else {
            false
        }
    }

    /// Sends an event to the client itself, where there is room. Whether it was sent.
    pub fn send_input(&mut self, e: InputEvent) -> (sent: bool)
        ensures
            sent == old(self).can_input(),
            final(self).input@ == (if sent {
                old(self).input@.push(e)
            } else {
                old(self).input@
            }),
            old(self).inputs(*final(self), |x: InputEvent| x == e),
    {
        if self.input.len() < self.input_room {
            self.input.push(e);
            assert(self.input@.drop_last() =~= old(self).input@);
            true
        } else {
            false
        }
    }

    /// Asks for an effect.
    pub fn ask(&mut self, e: Effect)
        ensures
            final(self).effects@ == old(self).effects@.push(e),
            old(self).affects(*final(self), |x: Effect| x == e),
    {
        self.effects.push(e);
        assert(self.effects@.drop_last() =~= old(self).effects@);
    }
}

} // verus!
