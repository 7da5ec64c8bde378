//! What the loop that waits for events decides: how the client starts, what an event asks of it, how
//! much room the conversation has, and what the clock does.

use vstd::prelude::*;
use crate::app::AppState;
use crate::app::message_pushed;
use crate::banner::BANNER_VISIBLE_HEIGHT;
use crate::banner::BannerMessage;
use crate::banner::banner_height;
use crate::banner::shown;
use crate::events::Effect;
use crate::events::InputEvent;
use crate::events::Outbox;
use crate::events::OutputEvent;
use crate::events::ReviewAction;
use crate::geometry::Rect;
use crate::geometry::Size;
use crate::geometry::middle_height;
use crate::geometry::split_rows;
use crate::geometry::total_height;
use crate::helper_block::is_info;
use crate::helper_block::push_styled_message;
use crate::helper_block::row_pushed;
use crate::helper_block::theme;
use crate::helper_block::tinted;
use crate::helper_block::welcome;
use crate::helper_block::welcome_messages;
use crate::input::is_slash;
use crate::input::starts_slash;
use crate::message::Message;
use crate::message::MessageContent;
use crate::message::RunCommandState;
use crate::message::appended;
use crate::message::find_message;
use crate::message::id_in;
use crate::message::message_at;
use crate::message::new_message;
use crate::message::parse_id;
use crate::message::remove_message;
use crate::message::without;
use crate::models::ToolCall;
use crate::models::ToolCallResult;
use crate::models::ToolCallResultStatus;
use crate::models::copy_text;
use crate::models::text_of;
use crate::navigation::less;
use crate::popups::info_pushed;
use crate::popups::push_info;
use crate::shell::call_command;
use crate::shell::extract_command_from_tool_call;
use crate::style::Color;
use crate::style::Style;
use crate::style::Tone;
use crate::text::is_space;
use crate::text::law_trim;
use crate::text::lines;
use crate::text::lines_of;
use crate::text::same_text;
use crate::text::texts;
use crate::text::trim;
use crate::text::trim_of;
use crate::text_selection::SIDE_PANEL_WIDTH;
use crate::text_selection::tick_selection_auto_scroll;
use crate::text_selection::ticked;
use crate::tool::after_result;
use crate::tool::clear_streaming_tool_results;
use crate::tool::is_foreground_command_tool;
use crate::tool::results_cleared;
use crate::tool::runs_command;
use crate::tool::update_session_tool_calls_queue;
use crate::tool_result::DiskFacts;
use crate::tool_result::extract_view_params_from_tool_call;
use crate::tool_result::handle_tool_result;
use crate::tool_result::result_change;
use crate::tool_result::result_taken;
use crate::tool_result::tool_change;
use crate::tool_result::view_params;
use crate::types::BannerState;
use crate::types::LoadingState;
use crate::types::MessagesScrollingState;
use crate::types::PlanModeState;
use crate::types::PlanStatus;
use crate::types::ProfileSwitcherState;
use crate::types::QuitIntentState;
use crate::types::RulebookConfig;
use crate::types::RulebookSwitcherState;
use crate::types::SessionToolCallsState;
use crate::types::ShellPopupState;
use crate::types::SidePanelState;
use crate::types::TerminalUiState;
use crate::types::ToolCallState;
use crate::types::ToolCallStatus;

verus! {

// ----- starting -----

/// What is known when the client starts.
#[derive(Debug)]
pub struct Start {
    pub banner: Option<BannerMessage>,
    /// The size of the terminal.
    pub size: Size,
    pub profile: String,
    pub rulebook_config: Option<RulebookConfig>,
    /// The working directory.
    pub cwd: String,
    /// Whether the prompt for a new project is sent at once.
    pub send_init_prompt: bool,
}

/// The state when the client starts, before a prompt is sent: with its banner, its profile and the
/// welcome.
pub open spec fn set_up(pre: AppState, post: AppState, s: Start) -> bool {
    let m = pre.messages_scrolling_state;
    let n = post.messages_scrolling_state;
    &&& post == (AppState {
        banner_state: BannerState { message: s.banner, ..pre.banner_state },
        terminal_ui_state: TerminalUiState {
            mouse_capture_enabled: true,
            terminal_size: s.size,
        },
        profile_switcher_state: ProfileSwitcherState {
            current_profile_name: s.profile,
            ..pre.profile_switcher_state
        },
        rulebook_switcher_state: RulebookSwitcherState {
            rulebook_config: s.rulebook_config,
            ..pre.rulebook_switcher_state
        },
        messages_scrolling_state: MessagesScrollingState { messages: n.messages, ..m },
        ..pre
    })
    &&& appended(
        m.messages@,
        n.messages@,
        welcome(pre.configuration_state.latest_version, s.cwd@, true),
    )
}

/// The prompt that is sent at once, where there is one.
pub open spec fn first_prompt(s: AppState, send: bool) -> Option<Seq<char>> {
    match s.configuration_state.init_prompt_content {
        Some(t) => if send && trim_of(t@).len() > 0 {
            Some(t@)
        } else {
            None
        },
        None => None,
    }
}

/// The tasks are to be read, where a board is known.
pub open spec fn tasks_asked(s: AppState, sent: Outbox, out: Outbox) -> bool {
    if s.side_panel_state.board_agent_id is Some {
        sent.inputs(out, |e: InputEvent| e is RefreshBoardTasks)
    } else {
        out == sent
    }
}

/// The prompt is shown and sent, where there is one.
pub open spec fn prompt_sent(
    pre: AppState,
    post: AppState,
    prompt: Option<Seq<char>>,
    sent: Outbox,
    out: Outbox,
) -> bool {
    match prompt {
        Some(t) => {
            &&& post == pre.with_messages(post.messages_scrolling_state)
            &&& message_pushed(
                pre.messages_scrolling_state,
                post.messages_scrolling_state,
                |c: MessageContent| c matches MessageContent::UserMessage(u) && u@ == t,
            )
            &&& sent.outputs(
                out,
                |e: OutputEvent|
                    e matches OutputEvent::UserMessage(u, shell, images, revert) && u@ == t
                        && shell is None && images@.len() == 0 && revert is None,
            )
        },
        None => post == pre && out == sent,
    }
}

/// The state when the client starts.
pub open spec fn started(pre: AppState, post: AppState, s: Start, sent: Outbox, out: Outbox)
    -> bool {
    exists|mid: AppState, so_far: Outbox| #[trigger]
        set_up(pre, mid, s) && #[trigger] tasks_asked(mid, sent, so_far) && prompt_sent(
            mid,
            post,
            first_prompt(mid, s.send_init_prompt),
            so_far,
            out,
        )
}

fn greet(state: &mut AppState, cwd: &str)
    requires
        old(state).terminal_ui_state.mouse_capture_enabled,
    ensures
        *final(state) == old(state).with_messages(
            MessagesScrollingState {
                messages: final(state).messages_scrolling_state.messages,
                ..old(state).messages_scrolling_state
            },
        ),
        appended(
            old(state).messages_scrolling_state.messages@,
            final(state).messages_scrolling_state.messages@,
            welcome(old(state).configuration_state.latest_version, cwd@, true),
        ),
{
    let ghost before = state.messages_scrolling_state.messages@;
    let latest: Option<String> = copy_text(&state.configuration_state.latest_version);
    let mut v: Vec<Message> = welcome_messages(latest, state, cwd);
    let ghost tail = v@;
    let ghost ps = welcome(state.configuration_state.latest_version, cwd@, true);
    state.messages_scrolling_state.messages.append(&mut v);
    proof {
        let after = state.messages_scrolling_state.messages@;
        assert(after =~= before + tail);
        assert(after.take(before.len() as int) =~= before);
        assert forall|i: int| 0 <= i < ps.len() implies new_message(
            after[before.len() + i],
            #[trigger] ps[i],
        ) by {
            assert(after[before.len() + i] == tail[i]);
        }
    }
}

fn set_up_state(state: &mut AppState, s: Start)
    ensures
        set_up(*old(state), *final(state), s),
{
    state.banner_state.message = s.banner;
    state.terminal_ui_state = TerminalUiState {
        mouse_capture_enabled: true,
        terminal_size: s.size,
    };
    state.profile_switcher_state.current_profile_name = s.profile;
    state.rulebook_switcher_state.rulebook_config = s.rulebook_config;
    greet(state, s.cwd.as_str());
}

fn send_prompt(state: &mut AppState, send: bool, out: &mut Outbox)
    ensures
        prompt_sent(
            *old(state),
            *final(state),
            first_prompt(*old(state), send),
            *old(out),
            *final(out),
        ),
{
    match copy_text(&state.configuration_state.init_prompt_content) {
        Some(t) => {
            if send && !crate::app::is_empty(trim(t.as_str()).as_str()) {
                state.push_message(MessageContent::UserMessage(t.clone()));
                let _sent: bool = out.send_output(
                    OutputEvent::UserMessage(t, None, Vec::new(), None),
                );
            }
        },
        None => {},
    }
}

/// Sets the client up when it starts.
pub fn start(state: &mut AppState, s: Start, out: &mut Outbox)
    ensures
        started(*old(state), *final(state), s, *old(out), *final(out)),
{
    let send: bool = s.send_init_prompt;
    set_up_state(state, s);
    let ghost mid = *state;
    if state.side_panel_state.board_agent_id.is_some() {
        let _sent: bool = out.send_input(InputEvent::RefreshBoardTasks);
    }
    let ghost so_far = *out;
    assert(set_up(*old(state), mid, s) && tasks_asked(mid, *old(out), so_far));
    send_prompt(state, send, out);
}

// ----- what an event asks of the loop -----

/// What an event asks of the loop.
#[derive(Clone, Copy, Debug, PartialEq, Eq, Structural)]
pub enum LoopAction {
    /// Hand it to the shell's events.
    ToShell,
    /// Clear the terminal and draw everything anew.
    ClearTerminal,
    /// Ask whether the tool call may run.
    AskForCall,
    /// Take the result of a tool call over, then update the client.
    TakeResult,
    /// Turn the mouse on or off.
    ToggleMouse,
    Quit,
    /// Collect further steps of the wheel.
    BatchScrolls,
    /// Update the client.
    Update,
}

/// What an event asks of the loop; `outside` says that it came from the backend and not from the
/// client itself.
pub open spec fn loop_action(e: InputEvent, outside: bool) -> LoopAction {
    match e {
        InputEvent::ShellOutput(_, _)
        | InputEvent::ShellError(_)
        | InputEvent::ShellWaitingForInput
        | InputEvent::ShellCompleted(_)
        | InputEvent::ShellClear => if outside {
            LoopAction::ToShell
        } else {
            LoopAction::Update
        },
        InputEvent::EmergencyClearTerminal => LoopAction::ClearTerminal,
        InputEvent::RunToolCall(_) => if outside {
            LoopAction::AskForCall
        } else {
            LoopAction::Update
        },
        InputEvent::ToolResult(_) => if outside {
            LoopAction::TakeResult
        } else {
            LoopAction::Update
        },
        InputEvent::ToggleMouseCapture => LoopAction::ToggleMouse,
        InputEvent::Quit => LoopAction::Quit,
        InputEvent::ScrollUp | InputEvent::ScrollDown => if outside {
            LoopAction::Update
        } else {
            LoopAction::BatchScrolls
        },
        _ => LoopAction::Update,
    }
}

/// What an event asks of the loop.
pub fn classify(e: &InputEvent, outside: bool) -> (r: LoopAction)
    ensures
        r == loop_action(*e, outside),
{
    match e {
        InputEvent::ShellOutput(_, _)
        | InputEvent::ShellError(_)
        | InputEvent::ShellWaitingForInput
        | InputEvent::ShellCompleted(_)
        | InputEvent::ShellClear => if outside {
            LoopAction::ToShell
        } else {
            LoopAction::Update
        },
        InputEvent::EmergencyClearTerminal => LoopAction::ClearTerminal,
        InputEvent::RunToolCall(_) => if outside {
            LoopAction::AskForCall
        } else {
            LoopAction::Update
        },
        InputEvent::ToolResult(_) => if outside {
            LoopAction::TakeResult
        } else {
            LoopAction::Update
        },
        InputEvent::ToggleMouseCapture => LoopAction::ToggleMouse,
        InputEvent::Quit => LoopAction::Quit,
        InputEvent::ScrollUp | InputEvent::ScrollDown => if outside {
            LoopAction::Update
        } else {
            LoopAction::BatchScrolls
        },
        _ => LoopAction::Update,
    }
}

// ----- the wheel -----

/// Steps of the wheel that came together.
#[derive(Clone, Copy, Debug, PartialEq, Eq, Structural)]
pub struct ScrollBatch {
    pub ups: u64,
    pub downs: u64,
}

/// The number after another step, as far as the machine counts.
pub open spec fn one_step(n: u64) -> u64 {
    if n == u64::MAX {
        n
    } else {
        (n + 1) as u64
    }
}

fn count_step(n: u64) -> (r: u64)
    ensures
        r == one_step(n),
{
    if n == u64::MAX {
        n
    } else {
        n + 1
    }
}

impl ScrollBatch {
    /// No step.
    pub fn new() -> (r: ScrollBatch)
        ensures
            r.ups == 0,
            r.downs == 0,
    {
        ScrollBatch { ups: 0, downs: 0 }
    }

    /// The steps with another event.
    pub open spec fn with(self, e: InputEvent) -> ScrollBatch {
        match e {
            InputEvent::ScrollUp => ScrollBatch { ups: one_step(self.ups), ..self },
            InputEvent::ScrollDown => ScrollBatch { downs: one_step(self.downs), ..self },
            _ => self,
        }
    }

    /// Counts an event, where it is a step of the wheel. Whether it is.
    pub fn take(&mut self, e: &InputEvent) -> (taken: bool)
        ensures
            *final(self) == old(self).with(*e),
            taken == (*e is ScrollUp || *e is ScrollDown),
    {
        match e {
            InputEvent::ScrollUp => {
                self.ups = count_step(self.ups);
                true
            },
            InputEvent::ScrollDown => {
                self.downs = count_step(self.downs);
                true
            },
            _ => false,
        }
    }

    /// In which direction the steps go together, and how many are left of them.
    pub open spec fn net(self) -> (bool, int) {
        if self.downs >= self.ups {
            (true, self.downs - self.ups)
        } else {
            (false, self.ups - self.downs)
        }
    }

    /// The event that is left of the steps, and how often.
    pub fn combined(&self) -> (r: (InputEvent, u64))
        ensures
            r.1 == self.net().1,
            r.0 == (if self.net().0 {
                InputEvent::ScrollDown
            } else {
                InputEvent::ScrollUp
            }),
    {
        if self.downs >= self.ups {
            (InputEvent::ScrollDown, self.downs - self.ups)
        } else {
            (InputEvent::ScrollUp, self.ups - self.downs)
        }
    }
}

/// A step up and a step down leave nothing, in either order.
pub proof fn law_steps_cancel(b: ScrollBatch)
    requires
        b.ups < u64::MAX,
        b.downs < u64::MAX,
    ensures
        b.with(InputEvent::ScrollUp).with(InputEvent::ScrollDown).net() == b.net(),
        b.with(InputEvent::ScrollDown).with(InputEvent::ScrollUp).net() == b.net(),
{
}

// ----- how much room there is -----

/// How wide the screen is beside the side panel.
pub open spec fn beside_panel(s: AppState, width: u16) -> u16 {
    if s.side_panel_state.is_shown {
        less(width as int, SIDE_PANEL_WIDTH + 1) as u16
    } else {
        width
    }
}

fn measure_width(state: &AppState, width: u16) -> (r: u16)
    ensures
        r == beside_panel(*state, width),
{
    if !state.side_panel_state.is_shown {
        width
    } else if width > SIDE_PANEL_WIDTH + 1 {
        width - (SIDE_PANEL_WIDTH + 1)
    } else {
        0
    }
}

/// Whether a list is shown under the input.
pub open spec fn list_shown(s: AppState) -> bool {
    let i = s.input_state;
    i.show_helper_dropdown && ((i.filtered_helpers@.len() > 0 && is_slash(i.text_area@.text))
        || i.filtered_files@.len() > 0)
}

fn shows_list(state: &AppState) -> (r: bool)
    ensures
        r == list_shown(*state),
{
    let i = &state.input_state;
    i.show_helper_dropdown && ((i.filtered_helpers.len() > 0 && starts_slash(i.text_area.text()))
        || i.filtered_files.len() > 0)
}

/// The rows of the banner.
pub open spec fn banner_rows(s: AppState, now: u64) -> u16 {
    if shown(s.banner_state.message, now) is Some {
        BANNER_VISIBLE_HEIGHT
    } else {
        0
    }
}

/// The rows of the hint: there is none while a list is shown.
pub open spec fn hint_rows(s: AppState) -> u16 {
    if list_shown(s) {
        0
    } else {
        2
    }
}

/// What lies below the conversation: the loading indicator, the input, the list and the hint.
pub open spec fn rows_below(s: AppState) -> Seq<u16> {
    seq![
        1u16,
        3u16,
        if list_shown(s) {
            s.input_state.filtered_helpers@.len() as usize as u16
        } else {
            0
        },
        hint_rows(s),
    ]
}

/// What lies below the conversation while calls wait: the loading indicator, the shell, the bar, the
/// input, the list and the hint.
pub open spec fn rows_below_bar(s: AppState, bar: u16) -> Seq<u16> {
    seq![
        1u16,
        0u16,
        if bar > 7 {
            bar
        } else {
            7
        },
        0u16,
        0u16,
        hint_rows(s),
    ]
}

/// Whether `r` is how many columns and rows the conversation has between the banner and what lies
/// below: all columns but two, and the rows that are left, but one row at least where the terminal
/// has any.
pub open spec fn room_found(
    s: AppState,
    size: Size,
    now: u64,
    below: Seq<u16>,
    r: (usize, usize),
) -> bool {
    &&& r.0 == less(beside_panel(s, size.width) as int, 2)
    &&& r.1 == middle_height(
        size.height as int,
        banner_rows(s, now) + total_height(below),
        1,
    )
}

fn find_room(state: &AppState, size: Size, now: u64, below: Vec<u16>) -> (r: (usize, usize))
    requires
        below@.len() <= 6,
    ensures
        room_found(*state, size, now, below@, r),
{
    let area: Rect = Rect {
        x: 0,
        y: 0,
        width: measure_width(state, size.width),
        height: size.height,
    };
    let mut above: Vec<u16> = Vec::new();
    above.push(banner_height(&state.banner_state.message, now));
    proof {
        reveal_with_fuel(total_height, 2);
        assert(above@ =~= seq![banner_rows(*state, now)]);
        assert(above@.drop_last() =~= Seq::<u16>::empty());
        crate::geometry::lemma_total_height(below@);
    }
    let rows: Vec<Rect> = split_rows(area, above, 1, below);
    let r: Rect = rows[1];
    let width: usize = if r.width > 2 {
        (r.width - 2) as usize
    } else {
        0
    };
    (width, r.height as usize)
}

/// How many columns and rows the conversation has on a terminal of the given size.
pub fn message_area(state: &AppState, size: Size, now: u64) -> (r: (usize, usize))
    ensures
        room_found(*state, size, now, rows_below(*state), r),
{
    let list: bool = shows_list(state);
    let mut below: Vec<u16> = Vec::new();
    below.push(1);
    below.push(3);
    let count: usize = state.input_state.filtered_helpers.len();
    below.push(
        if list {
            #[verifier::truncate]
            (count as u16)
        } else {
            0
        },
    );
    below.push(
        if list {
            0
        } else {
            2
        },
    );
    assert(below@ =~= rows_below(*state));
    find_room(state, size, now, below)
}

/// How many columns and rows the conversation has while calls wait in a bar that takes `bar` rows.
pub fn message_area_with_bar(state: &AppState, size: Size, now: u64, bar: u16) -> (r: (
    usize,
    usize,
))
    ensures
        room_found(*state, size, now, rows_below_bar(*state, bar), r),
{
    let list: bool = shows_list(state);
    let mut below: Vec<u16> = Vec::new();
    below.push(1);
    below.push(0);
    below.push(
        if bar > 7 {
            bar
        } else {
            7
        },
    );
    below.push(0);
    below.push(0);
    below.push(
        if list {
            0
        } else {
            2
        },
    );
    assert(below@ =~= rows_below_bar(*state, bar));
    find_room(state, size, now, below)
}

// ----- results of tool calls -----

/// Whether the call was cancelled or failed.
pub open spec fn went_wrong(r: ToolCallResult) -> bool {
    r.status == ToolCallResultStatus::Cancelled || r.status == ToolCallResultStatus::Error
}

/// Whether the tool looks at a file.
pub open spec fn looks(name: Seq<char>) -> bool {
    name == "read"@ || name == "view"@ || name == "read_file"@
}

/// Whether the result of the tool is shown in a frame.
pub open spec fn is_framed(name: Seq<char>) -> bool {
    name == "str_replace"@ || name == "create"@ || name == "run_command_task"@ || name
        == "run_remote_command_task"@
}

/// The command of a call, or what stands for it.
pub open spec fn shown_command(call: ToolCall) -> Seq<char> {
    match call_command(call.function.arguments@) {
        Ok(c) => c,
        Err(_) => "command"@,
    }
}

/// How a command ended.
pub open spec fn ending(status: ToolCallResultStatus) -> RunCommandState {
    match status {
        ToolCallResultStatus::Error => RunCommandState::Error,
        ToolCallResultStatus::Cancelled => RunCommandState::Cancelled,
        ToolCallResultStatus::Success => RunCommandState::Completed,
    }
}

/// A look at a file, as it is shown.
pub open spec fn is_look(c: MessageContent, r: ToolCallResult) -> bool {
    let params = match crate::arguments::json_object(r.call.function.arguments@) {
        Ok(fields) => view_params(fields),
        Err(_) => (None, None, None),
    };
    &&& c matches MessageContent::RenderViewFileBlock(path, n, grep, glob)
    &&& path@ == (match params.0 {
        Some(p) => p,
        None => "file"@,
    })
    &&& n == lines_of(r.result@).len()
    &&& text_of(grep) == params.1
    &&& text_of(glob) == params.2
}

/// The result of a call, as it is shown in the conversation.
pub open spec fn is_shown_result(c: MessageContent, r: ToolCallResult) -> bool {
    let name = r.call.function.bare_name@;
    if runs_command(name) {
        &&& c matches MessageContent::RenderRunCommandBlock(command, result, state)
        &&& command@ == shown_command(r.call)
        &&& text_of(result) == Some(r.result@)
        &&& state == ending(r.status)
    } else if went_wrong(r) || is_framed(name) {
        c == MessageContent::RenderResultBorderBlock(r)
    } else if looks(name) {
        is_look(c, r)
    } else {
        c == MessageContent::RenderCollapsedCommand(r)
    }
}

/// The result of a call, as it is shown among the collapsed messages.
pub open spec fn is_full_result(c: MessageContent, r: ToolCallResult) -> bool {
    let name = r.call.function.bare_name@;
    if looks(name) && !went_wrong(r) {
        is_look(c, r)
    } else {
        c == MessageContent::RenderFullContentMessage(r)
    }
}

fn draw_look(r: &ToolCallResult) -> (c: MessageContent)
    ensures
        is_look(c, *r),
{
    let (path, grep, glob): (Option<String>, Option<String>, Option<String>) =
        extract_view_params_from_tool_call(&r.call);
    let path: String = match path {
        Some(p) => p,
        None => "file".to_owned(),
    };
    let all: Vec<String> = lines(r.result.as_str());
    assert(texts(all@).len() == all@.len());
    MessageContent::RenderViewFileBlock(path, all.len(), grep, glob)
}

fn is_looking(name: &str) -> (r: bool)
    ensures
        r == looks(name@),
{
    same_text(name, "read") || same_text(name, "view") || same_text(name, "read_file")
}

fn is_wrong(r: &ToolCallResult) -> (b: bool)
    ensures
        b == went_wrong(*r),
{
    match r.status {
        ToolCallResultStatus::Cancelled | ToolCallResultStatus::Error => true,
        ToolCallResultStatus::Success => false,
    }
}

fn draw_result(r: &ToolCallResult) -> (c: MessageContent)
    ensures
        is_shown_result(c, *r),
{
    let name: &str = r.call.function.bare_name.as_str();
    if is_foreground_command_tool(name) {
        let command: String = match extract_command_from_tool_call(&r.call) {
            Ok(c) => c,
            Err(_) => "command".to_owned(),
        };
        let state: RunCommandState = match r.status {
            ToolCallResultStatus::Error => RunCommandState::Error,
            ToolCallResultStatus::Cancelled => RunCommandState::Cancelled,
            ToolCallResultStatus::Success => RunCommandState::Completed,
        };
        MessageContent::RenderRunCommandBlock(command, Some(r.result.clone()), state)
    } else if is_wrong(r) || same_text(name, "str_replace") || same_text(name, "create")
        || same_text(name, "run_command_task") || same_text(name, "run_remote_command_task") {
        MessageContent::RenderResultBorderBlock(r.clone())
    } else if is_looking(name) {
        draw_look(r)
    } else {
        MessageContent::RenderCollapsedCommand(r.clone())
    }
}

fn draw_full_result(r: &ToolCallResult) -> (c: MessageContent)
    ensures
        is_full_result(c, *r),
{
    if is_looking(r.call.function.bare_name.as_str()) && !is_wrong(r) {
        draw_look(r)
    } else {
        MessageContent::RenderFullContentMessage(r.clone())
    }
}

/// Where the result is put: a cancelled command stands in front of the shell that is in view, and
/// everything else at the end.
pub open spec fn result_place(s: AppState, r: ToolCallResult) -> int {
    let messages = s.messages_scrolling_state.messages@;
    let end = messages.len() as int;
    if runs_command(r.call.function.bare_name@) && r.status == ToolCallResultStatus::Cancelled
        && s.shell_popup_state.is_visible {
        match s.shell_session_state.interactive_shell_message_id {
            Some(id) => match message_at(messages, id, 0) {
                Some(k) => k,
                None => end,
            },
            None => end,
        }
    } else {
        end
    }
}

fn find_result_place(state: &AppState, r: &ToolCallResult) -> (k: usize)
    ensures
        k == result_place(*state, *r),
        k <= state.messages_scrolling_state.messages@.len(),
{
    let end: usize = state.messages_scrolling_state.messages.len();
    if !is_foreground_command_tool(r.call.function.bare_name.as_str()) || r.status
        != ToolCallResultStatus::Cancelled || !state.shell_popup_state.is_visible {
        return end;
    }
    match state.shell_session_state.interactive_shell_message_id {
        Some(id) => match find_message(&state.messages_scrolling_state.messages, id) {
            Some(k) => k,
            None => end,
        },
        None => end,
    }
}

/// The messages with the result of a call at the given place, in the conversation and among the
/// collapsed messages.
pub open spec fn result_put(pre: Seq<Message>, post: Seq<Message>, k: int, r: ToolCallResult)
    -> bool {
    &&& 0 <= k <= pre.len()
    &&& post.len() == pre.len() + 2
    &&& post.take(k) == pre.take(k)
    &&& post.skip(k + 2) == pre.skip(k)
    &&& new_message(post[k], |c: MessageContent| is_shown_result(c, r))
    &&& post[k + 1].id != 0
    &&& post[k + 1].is_collapsed == Some(true)
    &&& is_full_result(post[k + 1].content, r)
}

fn put_result(messages: &mut Vec<Message>, k: usize, r: &ToolCallResult)
    requires
        k <= old(messages)@.len(),
    ensures
        result_put(old(messages)@, final(messages)@, k as int, *r),
{
    let ghost before = messages@;
    messages.insert(k, Message::collapsed(draw_full_result(r)));
    messages.insert(k, Message::new(draw_result(r)));
    assert(messages@.take(k as int) =~= before.take(k as int));
    assert(messages@.skip(k + 2) =~= before.skip(k as int));
}

/// The state after a call was noted as executed: it is no longer cancelled, a message with its
/// identifier is gone, a cancelled command can be run again, and the calls behind one that went
/// wrong are skipped.
pub open spec fn call_noted(pre: AppState, post: AppState, r: ToolCallResult) -> bool {
    let m = pre.messages_scrolling_state;
    let q = pre.session_tool_calls_state;
    &&& post == (AppState {
        tool_call_state: ToolCallState {
            cancel_requested: false,
            latest_tool_call: if r.status == ToolCallResultStatus::Cancelled && runs_command(
                r.call.function.bare_name@,
            ) {
                Some(r.call)
            } else {
                pre.tool_call_state.latest_tool_call
            },
            ..pre.tool_call_state
        },
        messages_scrolling_state: MessagesScrollingState {
            messages: post.messages_scrolling_state.messages,
            ..m
        },
        session_tool_calls_state: SessionToolCallsState {
            session_tool_calls_queue: post.session_tool_calls_state.session_tool_calls_queue,
            ..q
        },
        ..pre
    })
    &&& post.messages_scrolling_state.messages@ == (match id_in(r.call.id@) {
        Some(id) => without(m.messages@, id),
        None => m.messages@,
    })
    &&& post.session_tool_calls_state.session_tool_calls_queue@ == after_result(
        q.session_tool_calls_queue@.insert(r.call.id@, ToolCallStatus::Executed),
        texts(q.tool_call_execution_order@),
        r,
    )
}

fn note_call(state: &mut AppState, r: &ToolCallResult)
    ensures
        call_noted(*old(state), *final(state), *r),
{
    match parse_id(r.call.id.as_str()) {
        Some(id) => {
            remove_message(&mut state.messages_scrolling_state.messages, id);
        },
        None => {},
    }
    state.tool_call_state.cancel_requested = false;
    if r.status == ToolCallResultStatus::Cancelled && is_foreground_command_tool(
        r.call.function.bare_name.as_str(),
    ) {
        state.tool_call_state.latest_tool_call = Some(r.call.clone());
    }
    state.session_tool_calls_state.session_tool_calls_queue.insert(
        r.call.id.clone(),
        ToolCallStatus::Executed,
    );
    update_session_tool_calls_queue(state, r);
}

/// The state after the result of a call was put into the conversation.
pub open spec fn outcome_shown(pre: AppState, post: AppState, r: ToolCallResult) -> bool {
    let m = pre.messages_scrolling_state;
    &&& post == pre.with_messages(
        MessagesScrollingState {
            messages: post.messages_scrolling_state.messages,
            lines_stale: true,
            stay_at_bottom: true,
            ..m
        },
    )
    &&& result_put(
        m.messages@,
        post.messages_scrolling_state.messages@,
        result_place(pre, r),
        r,
    )
}

fn show_outcome(state: &mut AppState, r: &ToolCallResult)
    ensures
        outcome_shown(*old(state), *final(state), *r),
{
    let k: usize = find_result_place(state, r);
    put_result(&mut state.messages_scrolling_state.messages, k, r);
    state.messages_scrolling_state.lines_stale = true;
    state.messages_scrolling_state.stay_at_bottom = true;
}

/// The state after what the call did to a file was noted.
pub open spec fn file_noted(pre: AppState, post: AppState, r: ToolCallResult, disk: DiskFacts)
    -> bool {
    match result_change(r) {
        Some(c) => result_taken(pre, post, c, r.call, disk),
        None => post == pre,
    }
}

fn note_file(state: &mut AppState, r: &ToolCallResult, disk: DiskFacts)
    ensures
        file_noted(*old(state), *final(state), *r, disk),
{
    match tool_change(r) {
        Some(change) => {
            handle_tool_result(state, change, &r.call, disk);
        },
        None => {},
    }
}

/// What the result of a tool call does: its stream ends, the call is noted, the result is shown, and
/// so is what it did to a file; then the tasks are read again.
pub open spec fn result_arrived(
    pre: AppState,
    post: AppState,
    r: ToolCallResult,
    disk: DiskFacts,
    sent: Outbox,
    out: Outbox,
) -> bool {
    &&& exists|a: AppState, b: AppState, c: AppState|
        results_cleared(pre, a) && #[trigger] call_noted(a, b, r) && #[trigger] outcome_shown(
            b,
            c,
            r,
        ) && file_noted(c, post, r, disk)
    &&& sent.inputs(out, |e: InputEvent| e is RefreshBoardTasks)
}

/// Takes the result of a tool call over. `disk` is what is on disk where the call changed a file.
pub fn take_tool_result(
    state: &mut AppState,
    r: &ToolCallResult,
    disk: DiskFacts,
    out: &mut Outbox,
)
    ensures
        result_arrived(*old(state), *final(state), *r, disk, *old(out), *final(out)),
{
    clear_streaming_tool_results(state);
    let ghost a = *state;
    note_call(state, r);
    let ghost b = *state;
    show_outcome(state, r);
    let ghost c = *state;
    note_file(state, r, disk);
    let _sent: bool = out.send_input(InputEvent::RefreshBoardTasks);
    assert(results_cleared(*old(state), a) && call_noted(a, b, *r) && outcome_shown(b, c, *r));
}

/// Every result is shown twice: once in the conversation, and once among the collapsed messages.
pub proof fn law_result_shown_twice(
    pre: Seq<Message>,
    post: Seq<Message>,
    k: int,
    r: ToolCallResult,
)
    requires
        result_put(pre, post, k, r),
    ensures
        post[k].is_collapsed is None,
        post[k + 1].is_collapsed == Some(true),
        forall|i: int| 0 <= i < k ==> #[trigger] post[i] == pre[i],
        forall|i: int| k <= i < pre.len() ==> post[i + 2] == #[trigger] pre[i],
{
    assert forall|i: int| 0 <= i < k implies #[trigger] post[i] == pre[i] by {
        assert(post.take(k)[i] == pre.take(k)[i]);
    }
    assert forall|i: int| k <= i < pre.len() implies post[i + 2] == #[trigger] pre[i] by {
        assert(post.skip(k + 2)[i - k] == pre.skip(k)[i - k]);
    }
}

// ----- the editor, the mouse and the terminal -----

/// The file that is to be opened in the editor; it is asked for once.
pub fn take_editor_request(state: &mut AppState) -> (r: Option<String>)
    ensures
        r == old(state).side_panel_state.pending_editor_open,
        *final(state) == (AppState {
            side_panel_state: SidePanelState {
                pending_editor_open: None,
                ..old(state).side_panel_state
            },
            ..*old(state)
        }),
{
    let mut r: Option<String> = None;
    std::mem::swap(&mut r, &mut state.side_panel_state.pending_editor_open);
    r
}

/// Says that the editor could not be opened.
pub fn handle_editor_failed(state: &mut AppState, error: &str)
    ensures
        *final(state) == old(state).with_messages(final(state).messages_scrolling_state),
        info_pushed(
            old(state).messages_scrolling_state,
            final(state).messages_scrolling_state,
            "Failed to open editor: "@ + error@,
            Some(Style::plain().fg(Color::Theme(Tone::Red))),
        ),
{
    let mut text: String = "Failed to open editor: ".to_owned();
    text.push_str(error);
    push_info(
        &mut state.messages_scrolling_state,
        text,
        Some(Style::plain().fg(Color::Theme(Tone::Red))),
    );
}

/// Turns the mouse on or off. Whether it is on now.
pub fn toggle_mouse_capture(state: &mut AppState) -> (on: bool)
    ensures
        on == !old(state).terminal_ui_state.mouse_capture_enabled,
        *final(state) == (AppState {
            terminal_ui_state: TerminalUiState {
                mouse_capture_enabled: on,
                ..old(state).terminal_ui_state
            },
            ..*old(state)
        }),
{
    let on: bool = !state.terminal_ui_state.mouse_capture_enabled;
    state.terminal_ui_state.mouse_capture_enabled = on;
    on
}

/// What is said once the mouse was turned on or off.
pub open spec fn mouse_said(on: bool) -> Seq<spec_fn(MessageContent) -> bool> {
    let text = if on {
        "Mouse capture enabled"@
    } else {
        "Mouse capture disabled . Ctrl+L to enable"@
    };
    let color = if on {
        Tone::Green
    } else {
        Tone::Red
    };
    seq![
        |c: MessageContent| is_info(c, "SPACING_MARKER"@, None),
        |c: MessageContent| is_info(c, text, Some(Style::plain().fg(Color::Theme(color)))),
        |c: MessageContent| is_info(c, "SPACING_MARKER"@, None),
    ]
}

/// Says whether the mouse is on, once it was turned on or off.
pub fn say_mouse_capture(state: &mut AppState)
    ensures
        *final(state) == old(state).with_messages(
            MessagesScrollingState {
                messages: final(state).messages_scrolling_state.messages,
                lines_stale: true,
                ..old(state).messages_scrolling_state
            },
        ),
        appended(
            old(state).messages_scrolling_state.messages@,
            final(state).messages_scrolling_state.messages@,
            mouse_said(old(state).terminal_ui_state.mouse_capture_enabled),
        ),
{
    let ghost before = state.messages_scrolling_state.messages@;
    let on: bool = state.terminal_ui_state.mouse_capture_enabled;
    let (text, tone): (String, Tone) = if on {
        ("Mouse capture enabled".to_owned(), Tone::Green)
    } else {
        ("Mouse capture disabled . Ctrl+L to enable".to_owned(), Tone::Red)
    };
    push_info(&mut state.messages_scrolling_state, "SPACING_MARKER".to_owned(), None);
    let ghost one = state.messages_scrolling_state.messages@;
    push_info(
        &mut state.messages_scrolling_state,
        text,
        Some(Style::plain().fg(Color::Theme(tone))),
    );
    let ghost two = state.messages_scrolling_state.messages@;
    push_info(&mut state.messages_scrolling_state, "SPACING_MARKER".to_owned(), None);
    state.messages_scrolling_state.lines_stale = true;
    proof {
        let after = state.messages_scrolling_state.messages@;
        let n = before.len() as int;
        let ps = mouse_said(on);
        assert(after[n] == two[n] && two[n] == one[n]);
        assert(after[n + 1] == two[n + 1]);
        assert(after.take(n) =~= before) by {
            assert(after.drop_last() == two);
            assert(two.drop_last() == one);
            assert(one.drop_last() == before);
            assert forall|i: int| 0 <= i < n implies after[i] == before[i] by {
                assert(after[i] == after.drop_last()[i]);
                assert(two[i] == two.drop_last()[i]);
                assert(one[i] == one.drop_last()[i]);
            }
        }
        assert forall|i: int| 0 <= i < ps.len() implies new_message(after[n + i], #[trigger] ps[i]) by {
            if i == 0 {
                assert(new_message(one.last(), ps[0]));
            } else if i == 1 {
                assert(new_message(two.last(), ps[1]));
            }
        }
    }
}

/// Whether the terminal is to be cleared; it is asked for once.
pub fn take_clear_request(state: &mut AppState) -> (r: bool)
    ensures
        r == old(state).shell_popup_state.needs_terminal_clear,
        *final(state) == (AppState {
            shell_popup_state: ShellPopupState {
                needs_terminal_clear: false,
                ..old(state).shell_popup_state
            },
            ..*old(state)
        }),
{
    let r: bool = state.shell_popup_state.needs_terminal_clear;
    state.shell_popup_state.needs_terminal_clear = false;
    r
}

// ----- the clock -----

/// The wish to quit, once its time is over.
pub open spec fn quit_expired(q: QuitIntentState, now: u64) -> QuitIntentState {
    if q.ctrl_c_pressed_once && q.ctrl_c_timer is Some && now > q.ctrl_c_timer->0 {
        QuitIntentState { ctrl_c_pressed_once: false, ctrl_c_timer: None }
    } else {
        q
    }
}

/// Forgets the wish to quit once its time is over.
pub fn expire_quit(state: &mut AppState, now: u64)
    ensures
        *final(state) == (AppState {
            quit_intent_state: quit_expired(old(state).quit_intent_state, now),
            ..*old(state)
        }),
{
    let over: bool = match state.quit_intent_state.ctrl_c_timer {
        Some(t) => now > t,
        None => false,
    };
    if state.quit_intent_state.ctrl_c_pressed_once && over {
        state.quit_intent_state = QuitIntentState {
            ctrl_c_pressed_once: false,
            ctrl_c_timer: None,
        };
    }
}

/// Forgetting the wish to quit never changes whether a press quits.
pub proof fn law_expiry_is_late(q: QuitIntentState, then: u64, now: u64)
    requires
        then <= now,
    ensures
        crate::misc::quits(quit_expired(q, then), now) == crate::misc::quits(q, now),
{
}

/// What a change of the plan's status does: a plan that is ready for review is opened once, and a
/// new draft can be opened again.
pub open spec fn plan_status_taken(
    pre: AppState,
    post: AppState,
    status: PlanStatus,
    sent: Outbox,
    out: Outbox,
) -> bool {
    let p = pre.plan_mode_state;
    match status {
        PlanStatus::PendingReview => if p.review_auto_opened {
            post == pre && out == sent
        } else {
            &&& row_pushed(
                AppState {
                    plan_mode_state: PlanModeState { review_auto_opened: true, ..p },
                    ..pre
                },
                post,
                seq![
                    tinted(">> "@, theme(Tone::Cyan)),
                    tinted(
                        " Plan ready for review. Opening review... (ctrl+p to toggle)"@,
                        theme(Tone::Cyan),
                    ),
                ],
            )
            &&& sent.affects(out, |e: Effect| e == Effect::PlanReview(ReviewAction::Open))
        },
        PlanStatus::Approved => post == pre && out == sent,
        PlanStatus::Drafting => post == (AppState {
            plan_mode_state: PlanModeState { review_auto_opened: false, ..p },
            ..pre
        }) && out == sent,
    }
}

/// Takes a change of the plan's status over.
pub fn take_plan_status(state: &mut AppState, status: PlanStatus, out: &mut Outbox)
    ensures
        plan_status_taken(*old(state), *final(state), status, *old(out), *final(out)),
{
    match status {
        PlanStatus::PendingReview => {
            if !state.plan_mode_state.review_auto_opened {
                state.plan_mode_state.review_auto_opened = true;
                out.ask(Effect::PlanReview(ReviewAction::Open));
                push_styled_message(
                    state,
                    " Plan ready for review. Opening review... (ctrl+p to toggle)",
                    Color::Theme(Tone::Cyan),
                    ">> ",
                    Color::Theme(Tone::Cyan),
                );
            }
        },
        PlanStatus::Approved => {},
        PlanStatus::Drafting => {
            state.plan_mode_state.review_auto_opened = false;
        },
    }
}

/// A plan that is ready for review is opened by itself once, until there is a new draft.
pub proof fn law_review_opens_once(
    a: AppState,
    b: AppState,
    c: AppState,
    sent: Outbox,
    mid: Outbox,
    out: Outbox,
)
    requires
        plan_status_taken(a, b, PlanStatus::PendingReview, sent, mid),
        plan_status_taken(b, c, PlanStatus::PendingReview, mid, out),
    ensures
        c == b,
        out == mid,
{
}

/// The state after a tick of the clock: the wish to quit may be over, the spinner turns, and the view
/// may scroll while text is selected.
pub open spec fn clock_ticked(s: AppState, now: u64) -> AppState {
    ticked(
        AppState {
            quit_intent_state: quit_expired(s.quit_intent_state, now),
            loading_state: LoadingState {
                spinner_frame: if s.loading_state.spinner_frame == usize::MAX {
                    0
                } else {
                    (s.loading_state.spinner_frame + 1) as usize
                },
                ..s.loading_state
            },
            ..s
        },
    )
}

/// A tick of the clock.
pub fn tick(state: &mut AppState, now: u64)
    ensures
        *final(state) == clock_ticked(*old(state), now),
{
    expire_quit(state, now);
    let frame: usize = state.loading_state.spinner_frame;
    let next: usize = if frame == usize::MAX {
        0
    } else {
        frame + 1
    };
    state.loading_state.spinner_frame = next;
    tick_selection_auto_scroll(state);
}

// ----- what holds of the loop -----

/// Whatever a result is shown as, all of it is there: a command with its output and how it ended,
/// any other result as it is, or how many lines were looked at. A result that went wrong is never
/// folded away.
pub proof fn law_result_is_shown(c: MessageContent, r: ToolCallResult)
    requires
        is_shown_result(c, r),
    ensures
        match c {
            MessageContent::RenderRunCommandBlock(_, result, state) => {
                &&& result is Some
                &&& result->0@ == r.result@
                &&& r.status == ToolCallResultStatus::Success <==> state
                    == RunCommandState::Completed
                &&& r.status == ToolCallResultStatus::Error <==> state == RunCommandState::Error
                &&& r.status == ToolCallResultStatus::Cancelled <==> state
                    == RunCommandState::Cancelled
            },
            MessageContent::RenderResultBorderBlock(x) => x == r,
            MessageContent::RenderViewFileBlock(_, n, _, _) => n == lines_of(r.result@).len()
                && r.status == ToolCallResultStatus::Success,
            MessageContent::RenderCollapsedCommand(x) => x == r && r.status
                == ToolCallResultStatus::Success,
            _ => false,
        },
{
}

/// Once its result has arrived, a call no longer streams, is no longer being cancelled, and counts
/// as executed; where it did not fail, no other call changes its status. The tasks are read again.
pub proof fn law_result_settles_the_call(
    pre: AppState,
    post: AppState,
    r: ToolCallResult,
    disk: DiskFacts,
    sent: Outbox,
    out: Outbox,
    id: Seq<char>,
)
    requires
        result_arrived(pre, post, r, disk, sent, out),
    ensures
        !post.tool_call_state.is_streaming,
        !post.tool_call_state.cancel_requested,
        post.tool_call_state.streaming_tool_results@.dom().is_empty(),
        out.output@ == sent.output@,
        sent.input@.len() < sent.input_room ==> out.input@.len() == sent.input@.len() + 1
            && out.input@.last() is RefreshBoardTasks,
        r.status != ToolCallResultStatus::Error ==> {
            let before = pre.session_tool_calls_state.session_tool_calls_queue@;
            let after = post.session_tool_calls_state.session_tool_calls_queue@;
            &&& after.contains_key(r.call.id@)
            &&& after[r.call.id@] == ToolCallStatus::Executed
            &&& id != r.call.id@ ==> after.contains_key(id) == before.contains_key(id)
            &&& id != r.call.id@ && before.contains_key(id) ==> after[id] == before[id]
        },
{
}

/// A prompt that the client is started with is shown and goes out as it is, unless it is white space
/// alone or is not to be sent: then nothing goes out.
pub proof fn law_first_prompt_goes_out(
    pre: AppState,
    post: AppState,
    s: Start,
    sent: Outbox,
    out: Outbox,
    k: int,
)
    requires
        started(pre, post, s, sent, out),
    ensures
        !s.send_init_prompt || pre.configuration_state.init_prompt_content is None ==> out.output@
            == sent.output@,
        pre.configuration_state.init_prompt_content matches Some(t) ==> {
            &&& s.send_init_prompt && 0 <= k < t@.len() && !is_space(t@[k]) && sent.output@.len()
                < sent.output_room ==> {
                &&& out.output@.len() == sent.output@.len() + 1
                &&& out.output@.drop_last() == sent.output@
                &&& out.output@.last() matches OutputEvent::UserMessage(u, shell, images, revert)
                &&& u@ == t@
                &&& shell is None
                &&& images@.len() == 0
                &&& revert is None
            }
        },
        post.terminal_ui_state.terminal_size == s.size,
        post.profile_switcher_state.current_profile_name == s.profile,
        post.banner_state.message == s.banner,
{
    match pre.configuration_state.init_prompt_content {
        Some(t) => {
            let from = law_trim(t@);
            if 0 <= k < t@.len() && !is_space(t@[k]) && trim_of(t@).len() == 0 {
                assert(is_space(t@[k]));
            }
        },
        None => {},
    }
}

/// Every step of the wheel counts: as many steps are left as one direction has more than the other,
/// in that direction. An event that is no step counts nothing.
pub proof fn law_steps_count(b: ScrollBatch, e: InputEvent)
    requires
        b.ups < u64::MAX,
        b.downs < u64::MAX,
    ensures
        e is ScrollUp ==> b.with(e).ups == b.ups + 1 && b.with(e).downs == b.downs,
        e is ScrollDown ==> b.with(e).downs == b.downs + 1 && b.with(e).ups == b.ups,
        !(e is ScrollUp) && !(e is ScrollDown) ==> b.with(e) == b,
        b.downs > b.ups ==> b.net() == (true, b.downs - b.ups),
        b.ups > b.downs ==> b.net() == (false, b.ups - b.downs),
        b.ups == b.downs ==> b.net().1 == 0,
{
}

/// Only the wish to quit ends the loop. What the backend says of the shell goes to the shell, a call
/// of it asks, and a result of it is taken over; the same from the client itself is an update like
/// any other.
pub proof fn law_loop_action(e: InputEvent, outside: bool)
    ensures
        loop_action(e, outside) is Quit <==> e is Quit,
        loop_action(e, outside) is ClearTerminal <==> e is EmergencyClearTerminal,
        loop_action(e, outside) is TakeResult <==> e is ToolResult && outside,
        loop_action(e, outside) is AskForCall <==> e is RunToolCall && outside,
        loop_action(e, outside) is ToggleMouse <==> e is ToggleMouseCapture,
        loop_action(e, outside) is ToShell <==> outside && (e is ShellOutput || e is ShellError
            || e is ShellWaitingForInput || e is ShellCompleted || e is ShellClear),
        loop_action(e, outside) is BatchScrolls <==> !outside && (e is ScrollUp || e is ScrollDown),
{
}

/// A plan that is ready is opened for review the first time, and again after a new draft; nothing
/// else opens it.
pub proof fn law_plan_is_opened(
    pre: AppState,
    post: AppState,
    status: PlanStatus,
    sent: Outbox,
    out: Outbox,
)
    requires
        plan_status_taken(pre, post, status, sent, out),
    ensures
        status is PendingReview && !pre.plan_mode_state.review_auto_opened ==> {
            &&& post.plan_mode_state.review_auto_opened
            &&& out.effects@.len() == sent.effects@.len() + 1
            &&& out.effects@.last() == Effect::PlanReview(ReviewAction::Open)
            &&& post.messages_scrolling_state.messages@.len()
                == pre.messages_scrolling_state.messages@.len() + 1
        },
        status is PendingReview && pre.plan_mode_state.review_auto_opened ==> post == pre && out
            == sent,
        !(status is PendingReview) ==> out == sent,
        status is Drafting ==> !post.plan_mode_state.review_auto_opened,
        status is Approved ==> post == pre,
{
}

/// The room for the conversation: all columns but two, beside the side panel where it is shown, and
/// the rows that what lies above and below leaves; one row at least where the terminal has any.
pub proof fn law_room(s: AppState, size: Size, now: u64, below: Seq<u16>, r: (usize, usize))
    requires
        room_found(s, size, now, below, r),
    ensures
        !s.side_panel_state.is_shown && size.width >= 2 ==> r.0 + 2 == size.width,
        s.side_panel_state.is_shown ==> r.0 <= size.width,
        r.1 <= size.height,
        size.height > 0 ==> r.1 > 0,
        s.banner_state.message is None && total_height(below) < size.height ==> r.1 + total_height(
            below,
        ) == size.height,
{
    crate::geometry::lemma_total_height(below);
}

/// A tick of the clock turns the spinner by one and sends nothing of its own; the conversation, the
/// input and the calls stay as they are.
pub proof fn law_tick_turns_the_spinner(s: AppState, now: u64)
    requires
        s.loading_state.spinner_frame < usize::MAX,
    ensures
        clock_ticked(s, now).loading_state.spinner_frame == s.loading_state.spinner_frame + 1,
        clock_ticked(s, now).messages_scrolling_state.messages == s.messages_scrolling_state.messages,
        clock_ticked(s, now).input_state == s.input_state,
        clock_ticked(s, now).dialog_approval_state == s.dialog_approval_state,
{
}

/// A result comes last in the conversation, but for a cancelled command while the shell is in view:
/// that one comes right in front of the shell.
pub proof fn law_result_place(s: AppState, r: ToolCallResult, k: int)
    ensures
        r.status != ToolCallResultStatus::Cancelled || !s.shell_popup_state.is_visible
            || s.shell_session_state.interactive_shell_message_id is None ==> result_place(s, r)
            == s.messages_scrolling_state.messages@.len(),
        r.status == ToolCallResultStatus::Cancelled && s.shell_popup_state.is_visible
            && r.call.function.bare_name@ == "run_command"@ && 0 <= k
            < s.messages_scrolling_state.messages@.len()
            && s.shell_session_state.interactive_shell_message_id == Some(
            s.messages_scrolling_state.messages@[k].id,
        ) && (forall|j: int|
            0 <= j < k ==> (#[trigger] s.messages_scrolling_state.messages@[j]).id
                != s.messages_scrolling_state.messages@[k].id) ==> result_place(s, r) == k,
{
    let m = s.messages_scrolling_state.messages@;
    if 0 <= k < m.len() {
        crate::message::law_message_at(m, m[k].id, 0);
        assert(m[k].id == m[k].id);
    }
}

} // verus!
