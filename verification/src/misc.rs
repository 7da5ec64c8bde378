//! Errors, the size of the terminal, quitting, sessions, loading, and what else reaches the client.

use vstd::prelude::*;
use crate::app::AppState;
use crate::app::clear_text;
use crate::app::message_pushed;
use crate::app::panel_auto_shown;
use crate::banner::BannerMessage;
use crate::banner::BannerStyle;
use crate::completion::Directory;
use crate::completion::can_complete;
use crate::completion::handle_tab_normal;
use crate::completion::tab_pressed;
use crate::dialog::emptied;
use crate::events::Effect;
use crate::events::InputEvent;
use crate::events::Outbox;
use crate::geometry::Size;
use crate::helper_block::block_pushed;
use crate::helper_block::error_rows;
use crate::helper_block::handle_errors;
use crate::helper_block::push_error_message;
use crate::helper_block::push_styled_message;
use crate::helper_block::row_pushed;
use crate::helper_block::shown_error;
use crate::helper_block::theme;
use crate::helper_block::tinted;
use crate::helper_block::wrapped;
use crate::message::MessageContent;
use crate::models::Model;
use crate::models::copy_text;
use crate::models::text_of;
use crate::navigation::Measures;
use crate::navigation::less;
use crate::navigation::minus;
use crate::navigation::smaller;
use crate::popups::collapsed_count;
use crate::popups::count_collapsed;
use crate::shell::can_write;
use crate::shell::output_taken;
use crate::shell::shell_room;
use crate::shell::shell_size;
use crate::shell::shell_started;
use crate::shell_screen::Terminal;
use crate::shell_screen::in_size;
use crate::shell_screen::size_of;
use crate::style::Color;
use crate::style::Tone;
use crate::style::line_views;
use crate::text::boundary;
use crate::text::chars_of;
use crate::text::contains;
use crate::text::find_chars;
use crate::text::find_from;
use crate::text::holds_text;
use crate::text::index_at;
use crate::text::same_text;
use crate::text::string_of;
use crate::textarea::TextAreaView;
use crate::tool::handle_retry_mechanism;
use crate::tool::last_dropped;
use crate::tool::remove_opt;
use crate::tool::without_opt;
use crate::types::BannerState;
use crate::types::InputState;
use crate::types::LoadingOperation;
use crate::types::LoadingState;
use crate::types::LoadingType;
use crate::types::MessagesScrollingState;
use crate::types::ModelSwitcherState;
use crate::types::QuitIntentState;
use crate::types::SessionInfo;
use crate::types::SessionsState;
use crate::types::ShellCommand;
use crate::types::ShellPopupState;
use crate::types::ShellRuntimeState;
use crate::types::ShellSessionState;
use crate::types::ShortcutsPanelState;
use crate::types::ShortcutsPopupMode;
use crate::types::SidePanelState;
use crate::types::TaskProgress;
use crate::types::TerminalUiState;
use crate::types::TodoItem;
use crate::types::ToolCallState;

verus! {

// ----- errors -----

/// What follows the last of the occurrences of `p` from `from` on that do not overlap; everything
/// from there on, where there is none.
pub open spec fn after_all(s: Seq<char>, p: Seq<char>, from: int) -> Seq<char>
    decreases s.len() - from,
{
    match find_from(s, p, from) {
        Some(i) => if p.len() > 0 && from <= i && i + p.len() <= s.len() {
            after_all(s, p, i + p.len())
        } else {
            s.skip(from)
        },
        None => s.skip(from),
    }
}

fn cut_after_all(s: &str, p: &str) -> (r: String)
    requires
        p@.len() > 0,
    ensures
        r@ == after_all(s@, p@, 0),
{
    let v: Vec<char> = chars_of(s);
    let w: Vec<char> = chars_of(p);
    let mut from: usize = 0;
    loop
        invariant
            from <= v@.len(),
            v@ == s@,
            w@ == p@,
            p@.len() > 0,
            after_all(s@, p@, 0) == after_all(s@, p@, from as int),
        decreases v@.len() - from,
    {
        match find_chars(&v, &w, from) {
            Some(i) => {
                proof {
                    lemma_find_from(s@, p@, from as int);
                }
                assert(i + w@.len() <= v.len());
                from = i + w.len();
            },
            None => {
                let r: String = string_of(&v, from, v.len());
                assert(r@ =~= s@.skip(from as int));
                return r;
            },
        }
    }
}

proof fn lemma_find_from(s: Seq<char>, p: Seq<char>, from: int)
    requires
        0 <= from,
    ensures
        match find_from(s, p, from) {
            Some(i) => from <= i && i + p.len() <= s.len(),
            None => true,
        },
    decreases s.len() + 1 - from,
{
    if from + p.len() <= s.len() && !crate::text::occurs_at(s, p, from) {
        lemma_find_from(s, p, from + 1);
    }
}

/// An error as it is shown. An error that is wrapped as unknown, and cannot be unwrapped at the
/// place where the wrapping ends, stays as it is.
pub open spec fn error_text(
    error: Seq<char>,
    limit_error: Seq<char>,
    limit_message: Seq<char>,
) -> Seq<char> {
    if wrapped(error) && !holds_text(error, limit_error) && !boundary(error, 9) {
        error
    } else {
        shown_error(error, limit_error, limit_message)
    }
}

fn read_error(error: String, limit_error: &str, limit_message: &str) -> (r: String)
    ensures
        r@ == error_text(error@, limit_error@, limit_message@),
{
    if contains(error.as_str(), "Unknown(\"") && crate::text::ends_with(error.as_str(), "\")")
        && !contains(error.as_str(), limit_error) && index_at(error.as_str(), 9).is_none() {
        return error;
    }
    handle_errors(error, limit_error, limit_message)
}

/// Whether the request is sent again, or was sent too often.
pub open spec fn is_retry(text: Seq<char>) -> bool {
    holds_text(text, "RETRY_ATTEMPT"@) || holds_text(text, "MAX_RETRY_REACHED"@)
}

/// What is said of a request that is sent again, or was sent too often.
pub open spec fn retry_text(text: Seq<char>) -> Seq<char> {
    if holds_text(text, "RETRY_ATTEMPT"@) {
        "There was an issue sending your request, retrying attempt "@ + after_all(
            text,
            "RETRY_ATTEMPT_"@,
            0,
        ) + "..."@
    } else {
        "Maximum retry attempts reached. Please try again later."@
    }
}

fn say_retry(text: &str) -> (r: String)
    ensures
        r@ == retry_text(text@),
{
    if contains(text, "RETRY_ATTEMPT") {
        proof {
            reveal_strlit("RETRY_ATTEMPT_");
        }
        let mut r: String = "There was an issue sending your request, retrying attempt ".to_owned();
        r.push_str(cut_after_all(text, "RETRY_ATTEMPT_").as_str());
        r.push_str("...");
        r
    } else {
        "Maximum retry attempts reached. Please try again later.".to_owned()
    }
}

/// What the end of a plan's free requests says.
pub open spec fn free_plan_said(pre: AppState, post: AppState) -> bool {
    exists|mid: AppState| #[trigger]
        block_pushed(pre, mid, error_rows("Free plan limit reached."@, false)) && block_pushed(
            mid,
            post,
            error_rows(
                "Please top up your account at https://stakpak.dev/settings/billing to keep Stakpaking."@,
                true,
            ),
        )
}

/// The state after the user interrupted the model.
pub open spec fn interrupted(pre: AppState, post: AppState) -> bool {
    &&& post == (AppState {
        tool_call_state: ToolCallState {
            cancel_requested: false,
            is_streaming: false,
            ..pre.tool_call_state
        },
        messages_scrolling_state: post.messages_scrolling_state,
        ..pre
    })
    &&& message_pushed(
        MessagesScrollingState { stay_at_bottom: true, ..pre.messages_scrolling_state },
        post.messages_scrolling_state,
        |c: MessageContent| c is RenderInterruptedBlock,
    )
}

/// What an error that is about sending a request again does: the last message goes away, and the
/// error is shown.
pub open spec fn retry_said(pre: AppState, post: AppState, text: Seq<char>) -> bool {
    exists|mid: AppState| #[trigger]
        last_dropped(pre, mid) && block_pushed(mid, post, error_rows(retry_text(text), false))
}

/// What an error does.
pub open spec fn error_taken(
    pre: AppState,
    post: AppState,
    error: Seq<char>,
    limit_error: Seq<char>,
    limit_message: Seq<char>,
) -> bool {
    let text = error_text(error, limit_error, limit_message);
    if holds_text(error, "FREE_PLAN"@) {
        free_plan_said(pre, post)
    } else if error == "STREAM_CANCELLED"@ {
        interrupted(pre, post)
    } else if is_retry(text) {
        retry_said(pre, post, text)
    } else {
        block_pushed(pre, post, error_rows(text, false))
    }
}

fn interrupt(state: &mut AppState)
    ensures
        interrupted(*old(state), *final(state)),
{
    state.tool_call_state.cancel_requested = false;
    state.tool_call_state.is_streaming = false;
    state.push_message(MessageContent::RenderInterruptedBlock);
    state.messages_scrolling_state.stay_at_bottom = true;
}

/// Takes over an error. `limit_error` stands in the errors of a request that is too long, for which
/// `limit_message` is shown.
pub fn handle_error(state: &mut AppState, err: String, limit_error: &str, limit_message: &str)
    ensures
        error_taken(*old(state), *final(state), err@, limit_error@, limit_message@),
{
    if contains(err.as_str(), "FREE_PLAN") {
        push_error_message(state, "Free plan limit reached.", None);
        assert(block_pushed(
            *old(state),
            *state,
            error_rows("Free plan limit reached."@, false),
        ));
        push_error_message(
            state,
            "Please top up your account at https://stakpak.dev/settings/billing to keep Stakpaking.",
            Some(true),
        );
        return;
    }
    if same_text(err.as_str(), "STREAM_CANCELLED") {
        interrupt(state);
        return;
    }
    let text: String = read_error(err, limit_error, limit_message);
    if contains(text.as_str(), "RETRY_ATTEMPT") || contains(text.as_str(), "MAX_RETRY_REACHED") {
        let said: String = say_retry(text.as_str());
        handle_retry_mechanism(state);
        assert(last_dropped(*old(state), *state));
        push_error_message(state, said.as_str(), None);
    } else {
        push_error_message(state, text.as_str(), None);
    }
}

// ----- the terminal -----

/// The state on a terminal of another size.
pub open spec fn terminal_resized(pre: AppState, post: AppState, width: u16, height: u16) -> bool {
    let (rows, cols) = shell_room(Size { width, height });
    let after = post.shell_runtime_state.screen@;
    &&& post == (AppState {
        terminal_ui_state: TerminalUiState {
            terminal_size: Size { width, height },
            ..pre.terminal_ui_state
        },
        shell_runtime_state: ShellRuntimeState {
            screen: post.shell_runtime_state.screen,
            ..pre.shell_runtime_state
        },
        ..pre
    })
    &&& after == in_size(pre.shell_runtime_state.screen@, rows, cols)
    &&& size_of(after.emulator) == (rows, cols)
}

fn resize_screen(t: &mut Terminal, rows: u16, cols: u16)
    requires
        rows > 0,
        cols > 0,
    ensures
        final(t)@ == in_size(old(t)@, rows, cols),
        size_of(final(t)@.emulator) == (rows, cols),
{
    let mut held: Terminal = Terminal::new(1, 1, 0);
    std::mem::swap(&mut held, t);
    *t = held.set_size(rows, cols);
}

/// The terminal has another size.
pub fn handle_resized(state: &mut AppState, width: u16, height: u16)
    ensures
        terminal_resized(*old(state), *final(state), width, height),
{
    let size: Size = Size { width, height };
    let (rows, cols): (u16, u16) = shell_size(size);
    state.terminal_ui_state.terminal_size = size;
    resize_screen(&mut state.shell_runtime_state.screen, rows, cols);
}

/// What a shell writes can be shown from its start on, on a screen of two rows and three columns at
/// least, whatever it writes, and however often its screen grows.
pub proof fn law_shell_can_write(
    pre: AppState,
    post: AppState,
    command: ShellCommand,
    rows: u16,
    cols: u16,
    data: Seq<char>,
    log: String,
    width: u16,
    height: u16,
)
    ensures
        shell_started(pre, post, command, rows, cols) && rows >= 2 && 3 <= cols <= 65527 ==> can_write(
            post,
        ),
        output_taken(pre, post, data, log) && can_write(pre) ==> can_write(post),
        terminal_resized(pre, post, width, height) && can_write(pre) && {
            let (before, after) = (
                size_of(pre.shell_runtime_state.screen@.emulator),
                size_of(post.shell_runtime_state.screen@.emulator),
            );
            before.0 <= after.0 && before.1 <= after.1 <= 65527
        } ==> can_write(post),
{
}

/// Shows or hides the cursor.
pub fn handle_toggle_cursor_visible(state: &mut AppState)
    ensures
        *final(state) == (AppState {
            input_state: InputState {
                cursor_visible: !old(state).input_state.cursor_visible,
                ..old(state).input_state
            },
            ..*old(state)
        }),
{
    state.input_state.cursor_visible = !state.input_state.cursor_visible;
}

/// Asks to turn the mouse on or off.
pub fn handle_toggle_mouse_capture(out: &mut Outbox)
    ensures
        old(out).affects(*final(out), |e: Effect| e is ToggleMouseCapture),
{
    out.ask(Effect::ToggleMouseCapture);
}

// ----- approving by itself -----

/// Asks to turn approving by itself on or off.
pub fn handle_toggle_auto_approve(out: &mut Outbox)
    ensures
        old(out).affects(*final(out), |e: Effect| e is ToggleAutoApprove),
{
    out.ask(Effect::ToggleAutoApprove);
}

/// What is said once approving by itself was turned on or off, or could not be.
pub open spec fn auto_approve_said(
    pre: AppState,
    post: AppState,
    outcome: Result<bool, String>,
) -> bool {
    match outcome {
        Ok(on) => {
            let color = theme(
                if on {
                    Tone::Green
                } else {
                    Tone::Red
                },
            );
            let text = "Auto-approve "@ + (if on {
                "enabled"@
            } else {
                "disabled"@
            });
            row_pushed(
                pre,
                post,
                seq![tinted(""@, theme(Tone::Green)), tinted(text, color)],
            )
        },
        Err(error) => block_pushed(
            pre,
            post,
            error_rows("Failed to toggle auto-approve: "@ + error@, false),
        ),
    }
}

/// Takes over whether calls are approved by themselves now, or why that could not be changed.
pub fn handle_auto_approve_toggled(state: &mut AppState, outcome: Result<bool, String>)
    ensures
        auto_approve_said(*old(state), *final(state), outcome),
{
    match outcome {
        Ok(on) => {
            let mut text: String = "Auto-approve ".to_owned();
            if on {
                text.push_str("enabled");
            } else {
                text.push_str("disabled");
            }
            let color: Color = if on {
                Color::Theme(Tone::Green)
            } else {
                Color::Theme(Tone::Red)
            };
            push_styled_message(state, text.as_str(), color, "", Color::Theme(Tone::Green));
        },
        Err(error) => {
            let mut text: String = "Failed to toggle auto-approve: ".to_owned();
            text.push_str(error.as_str());
            push_error_message(state, text.as_str(), None);
        },
    }
}

/// Asks for the list of tools that are approved by themselves.
pub fn handle_auto_approve_current_tool(out: &mut Outbox)
    ensures
        old(out).affects(*final(out), |e: Effect| e is ListAutoApproved),
{
    out.ask(Effect::ListAutoApproved);
}

// ----- the tab key -----

/// The page of the shortcuts that follows.
pub open spec fn page_after(m: ShortcutsPopupMode) -> ShortcutsPopupMode {
    match m {
        ShortcutsPopupMode::Commands => ShortcutsPopupMode::Shortcuts,
        ShortcutsPopupMode::Shortcuts => ShortcutsPopupMode::Sessions,
        ShortcutsPopupMode::Sessions => ShortcutsPopupMode::Commands,
    }
}

/// Three turns of the pages come back to the first.
pub proof fn law_pages_cycle(m: ShortcutsPopupMode)
    ensures
        page_after(page_after(page_after(m))) == m,
        page_after(m) != m,
{
}

/// The collapsed messages after the next one was selected: the first is shown from its top, another
/// as far down as there are lines.
pub open spec fn collapsed_passed(m: MessagesScrollingState, f: Measures)
    -> MessagesScrollingState {
    let n = collapsed_count(m.messages@) as int;
    let selected = (m.collapsed_messages_selected + 1) % n;
    if n == 0 {
        m
    } else {
        MessagesScrollingState {
            collapsed_messages_selected: selected as usize,
            collapsed_messages_scroll: smaller(
                selected * f.collapsed_lines,
                less(f.collapsed_lines as int, f.height as int),
            ) as usize,
            ..m
        }
    }
}

fn handle_collapsed_messages_tab(m: &mut MessagesScrollingState, f: &Measures)
    ensures
        *final(m) == collapsed_passed(*old(m), *f),
{
    let n: usize = count_collapsed(&m.messages);
    if n == 0 {
        return;
    }
    let next: u128 = (m.collapsed_messages_selected as u128 + 1) % (n as u128);
    let selected: usize = next as usize;
    let most: usize = minus(f.collapsed_lines, f.height);
    proof {
        let lines = f.collapsed_lines as int;
        assert(selected > 0 ==> selected * lines >= lines) by (nonlinear_arith)
            requires
                lines >= 0,
                selected >= 0,
        ;
        assert(selected == 0 ==> selected * lines == 0) by (nonlinear_arith);
    }
    m.collapsed_messages_selected = selected;
    m.collapsed_messages_scroll = if selected == 0 {
        0
    } else {
        most
    };
}

/// What the tab key does.
pub open spec fn tabbed(
    pre: AppState,
    post: AppState,
    dir: Option<Directory>,
    now: u64,
    f: Measures,
) -> bool {
    if pre.shortcuts_panel_state.is_visible {
        post == (AppState {
            shortcuts_panel_state: ShortcutsPanelState {
                mode: page_after(pre.shortcuts_panel_state.mode),
                ..pre.shortcuts_panel_state
            },
            ..pre
        })
    } else if pre.messages_scrolling_state.show_collapsed_messages {
        post == pre.with_messages(collapsed_passed(pre.messages_scrolling_state, f))
    } else {
        tab_pressed(pre, post, dir, now)
    }
}

/// The tab key.
pub fn handle_tab(state: &mut AppState, dir: Option<Directory>, now: u64, f: &Measures)
    requires
        can_complete(old(state).input_state, dir),
    ensures
        tabbed(*old(state), *final(state), dir, now, *f),
{
    if state.shortcuts_panel_state.is_visible {
        state.shortcuts_panel_state.mode = match state.shortcuts_panel_state.mode {
            ShortcutsPopupMode::Commands => ShortcutsPopupMode::Shortcuts,
            ShortcutsPopupMode::Shortcuts => ShortcutsPopupMode::Sessions,
            ShortcutsPopupMode::Sessions => ShortcutsPopupMode::Commands,
        };
        return;
    }
    if state.messages_scrolling_state.show_collapsed_messages {
        handle_collapsed_messages_tab(&mut state.messages_scrolling_state, f);
    } else {
        handle_tab_normal(state, dir, now);
    }
}

/// What Ctrl+S does: it selects all rulebooks where they are shown, else it shows the shortcuts.
pub fn handle_ctrl_s(state: &AppState, out: &mut Outbox)
    ensures
        old(out).inputs(
            *final(out),
            |e: InputEvent|
                if state.rulebook_switcher_state.show_rulebook_switcher {
                    e is RulebookSwitcherSelectAll
                } else {
                    e is ShowShortcuts
                },
        ),
{
    if state.rulebook_switcher_state.show_rulebook_switcher {
        let _sent: bool = out.send_input(InputEvent::RulebookSwitcherSelectAll);
    } else {
        let _sent: bool = out.send_input(InputEvent::ShowShortcuts);
    }
}

// ----- quitting -----

/// How long a second press quits, in milliseconds.
pub const QUIT_MS: u64 = 2000;

/// Whether a press at this time quits: it is the second, and comes in time.
pub open spec fn quits(q: QuitIntentState, now: u64) -> bool {
    q.ctrl_c_pressed_once && q.ctrl_c_timer is Some && now <= q.ctrl_c_timer->0
}

/// What an attempt to quit does: the first empties the input, the second in time quits.
pub open spec fn quit_attempted(
    pre: AppState,
    post: AppState,
    now: u64,
    sent: Outbox,
    out: Outbox,
) -> bool {
    if quits(pre.quit_intent_state, now) {
        &&& post == (AppState {
            quit_intent_state: QuitIntentState { ctrl_c_pressed_once: false, ctrl_c_timer: None },
            ..pre
        })
        &&& sent.inputs(out, |e: InputEvent| e is Quit)
    } else {
        &&& post == (AppState {
            quit_intent_state: QuitIntentState {
                ctrl_c_pressed_once: true,
                ctrl_c_timer: Some(
                    if now > u64::MAX - QUIT_MS {
                        u64::MAX
                    } else {
                        (now + QUIT_MS) as u64
                    },
                ),
            },
            ..pre.with_text(post.input_state.text_area)
        })
        &&& post.input_state.text_area@ == emptied(pre.input_state.text_area@)
        &&& out == sent
    }
}

/// The user tries to quit.
pub fn handle_attempt_quit(state: &mut AppState, now: u64, out: &mut Outbox)
    ensures
        quit_attempted(*old(state), *final(state), now, *old(out), *final(out)),
{
    let in_time: bool = match state.quit_intent_state.ctrl_c_timer {
        Some(t) => now <= t,
        None => false,
    };
    if state.quit_intent_state.ctrl_c_pressed_once && in_time {
        state.quit_intent_state = QuitIntentState {
            ctrl_c_pressed_once: false,
            ctrl_c_timer: None,
        };
        let _sent: bool = out.send_input(InputEvent::Quit);
    } else {
        clear_text(&mut state.input_state.text_area);
        state.quit_intent_state = QuitIntentState {
            ctrl_c_pressed_once: true,
            ctrl_c_timer: Some(
                if now > u64::MAX - QUIT_MS {
                    u64::MAX
                } else {
                    now + QUIT_MS
                },
            ),
        };
    }
}

/// Two attempts within two seconds quit; after them one attempt alone does not.
pub proof fn law_two_presses_quit(
    a: AppState,
    b: AppState,
    c: AppState,
    first: u64,
    second: u64,
    sent: Outbox,
    mid: Outbox,
    out: Outbox,
)
    requires
        quit_attempted(a, b, first, sent, mid),
        !quits(a.quit_intent_state, first),
        first <= second <= first + QUIT_MS,
        quit_attempted(b, c, second, mid, out),
    ensures
        mid.inputs(out, |e: InputEvent| e is Quit),
        forall|now: u64| !quits(c.quit_intent_state, now),
{
}

// ----- sessions -----

/// The shell when the sessions are shown: it is ended and out of view.
pub open spec fn shell_dropped(p: ShellPopupState) -> ShellPopupState {
    ShellPopupState {
        active_shell_command: None,
        active_shell_command_output: None,
        is_visible: false,
        is_expanded: false,
        waiting_for_shell_input: false,
        ..p
    }
}

/// The state when the sessions are shown.
pub open spec fn sessions_shown(
    pre: AppState,
    post: AppState,
    sessions: Vec<SessionInfo>,
    sent: Outbox,
    out: Outbox,
) -> bool {
    let m = pre.messages_scrolling_state;
    &&& post == (AppState {
        shell_popup_state: shell_dropped(pre.shell_popup_state),
        shell_session_state: ShellSessionState {
            interactive_shell_message_id: None,
            ..pre.shell_session_state
        },
        messages_scrolling_state: MessagesScrollingState {
            messages: post.messages_scrolling_state.messages,
            ..m
        },
        sessions_state: SessionsState { sessions, session_selected: 0, ..pre.sessions_state },
        shortcuts_panel_state: ShortcutsPanelState {
            is_visible: true,
            mode: ShortcutsPopupMode::Sessions,
            ..pre.shortcuts_panel_state
        },
        ..pre.with_text(post.input_state.text_area)
    })
    &&& post.input_state.text_area@ == (TextAreaView {
        shell_mode: false,
        ..pre.input_state.text_area@
    })
    &&& post.messages_scrolling_state.messages@ == without_opt(
        m.messages@,
        pre.shell_session_state.interactive_shell_message_id,
    )
    &&& if pre.shell_popup_state.active_shell_command is Some {
        sent.affects(out, |e: Effect| e is KillShell)
    } else {
        out == sent
    }
}

fn drop_shell(p: &mut ShellPopupState)
    ensures
        *final(p) == shell_dropped(*old(p)),
{
    p.active_shell_command = None;
    p.active_shell_command_output = None;
    p.is_visible = false;
    p.is_expanded = false;
    p.waiting_for_shell_input = false;
}

fn end_shell(state: &mut AppState, out: &mut Outbox)
    ensures
        *final(state) == (AppState {
            shell_popup_state: shell_dropped(old(state).shell_popup_state),
            shell_session_state: ShellSessionState {
                interactive_shell_message_id: None,
                ..old(state).shell_session_state
            },
            messages_scrolling_state: MessagesScrollingState {
                messages: final(state).messages_scrolling_state.messages,
                ..old(state).messages_scrolling_state
            },
            ..*old(state)
        }),
        final(state).messages_scrolling_state.messages@ == without_opt(
            old(state).messages_scrolling_state.messages@,
            old(state).shell_session_state.interactive_shell_message_id,
        ),
        if old(state).shell_popup_state.active_shell_command is Some {
            old(out).affects(*final(out), |e: Effect| e is KillShell)
        } else {
            *final(out) == *old(out)
        },
{
    if state.shell_popup_state.active_shell_command.is_some() {
        out.ask(Effect::KillShell);
    }
    let id: Option<u128> = state.shell_session_state.interactive_shell_message_id;
    remove_opt(&mut state.messages_scrolling_state.messages, id);
    drop_shell(&mut state.shell_popup_state);
    state.shell_session_state.interactive_shell_message_id = None;
}

/// Shows the sessions. A shell that runs is ended.
pub fn handle_set_sessions(state: &mut AppState, sessions: Vec<SessionInfo>, out: &mut Outbox)
    ensures
        sessions_shown(*old(state), *final(state), sessions, *old(out), *final(out)),
{
    end_shell(state, out);
    state.input_state.text_area.set_shell_mode(false);
    state.sessions_state.sessions = sessions;
    state.sessions_state.session_selected = 0;
    state.shortcuts_panel_state.is_visible = true;
    state.shortcuts_panel_state.mode = ShortcutsPopupMode::Sessions;
}

// ----- what else there is -----

/// Shows a banner.
pub fn handle_set_banner_message(state: &mut AppState, text: String, style: BannerStyle, now: u64)
    ensures
        *final(state) == (AppState {
            banner_state: BannerState {
                message: Some(
                    BannerMessage {
                        text,
                        created_at: now,
                        style,
                        persistent: false,
                        action: None,
                    },
                ),
                ..old(state).banner_state
            },
            ..*old(state)
        }),
{
    state.banner_state.message = Some(BannerMessage::new(text, style, now));
}

/// The loading state of a set of operations.
pub open spec fn loading_of(pre: LoadingState, post: LoadingState, ops: Set<LoadingOperation>)
    -> bool {
    &&& post.loading_manager@ == ops
    &&& post == (LoadingState {
        is_loading: ops != Set::<LoadingOperation>::empty(),
        loading_type: if ops.contains(LoadingOperation::SessionsList) {
            LoadingType::Sessions
        } else {
            LoadingType::Llm
        },
        loading_manager: post.loading_manager,
        ..pre
    })
}

fn refresh_loading(l: &mut LoadingState)
    ensures
        loading_of(*old(l), *final(l), old(l).loading_manager@),
        final(l).loading_manager == old(l).loading_manager,
{
    l.is_loading = l.loading_manager.is_loading();
    l.loading_type = l.loading_manager.get_loading_type();
}

/// An operation starts.
pub fn handle_start_loading_operation(state: &mut AppState, operation: LoadingOperation)
    ensures
        *final(state) == (AppState { loading_state: final(state).loading_state, ..*old(state) }),
        loading_of(
            old(state).loading_state,
            final(state).loading_state,
            old(state).loading_state.loading_manager@.insert(operation),
        ),
{
    state.loading_state.loading_manager.start_operation(operation);
    refresh_loading(&mut state.loading_state);
}

/// The conversation when its latest message is to be seen.
pub open spec fn at_end(m: MessagesScrollingState) -> MessagesScrollingState {
    MessagesScrollingState { scroll_to_bottom: true, stay_at_bottom: true, lines_stale: true, ..m }
}

/// The state after an operation ended: after a session was resumed, its latest message is to be
/// seen.
pub open spec fn loading_ended(pre: AppState, post: AppState, operation: LoadingOperation) -> bool {
    &&& post == (AppState {
        loading_state: post.loading_state,
        messages_scrolling_state: if operation == LoadingOperation::CheckpointResume {
            at_end(pre.messages_scrolling_state)
        } else {
            pre.messages_scrolling_state
        },
        ..pre
    })
    &&& loading_of(
        pre.loading_state,
        post.loading_state,
        pre.loading_state.loading_manager@.remove(operation),
    )
}

fn show_end(m: &mut MessagesScrollingState)
    ensures
        *final(m) == at_end(*old(m)),
{
    m.scroll_to_bottom = true;
    m.stay_at_bottom = true;
    m.lines_stale = true;
}

/// An operation ended.
pub fn handle_end_loading_operation(state: &mut AppState, operation: LoadingOperation)
    ensures
        loading_ended(*old(state), *final(state), operation),
{
    state.loading_state.loading_manager.end_operation(operation);
    refresh_loading(&mut state.loading_state);
    if operation == LoadingOperation::CheckpointResume {
        show_end(&mut state.messages_scrolling_state);
    }
}

/// The state after a message of the model came: it is to be seen, and the side panel may open.
pub open spec fn assistant_said(pre: AppState, post: AppState, text: String) -> bool {
    exists|mid: AppState|
        post == #[trigger] panel_auto_shown(mid) && mid == (AppState {
            tool_call_state: ToolCallState { cancel_requested: false, ..pre.tool_call_state },
            messages_scrolling_state: mid.messages_scrolling_state,
            ..pre
        }) && message_pushed(
            at_end(pre.messages_scrolling_state),
            mid.messages_scrolling_state,
            |c: MessageContent| c == MessageContent::AssistantMessage(text),
        )
}

/// A message of the model.
pub fn handle_assistant_message(state: &mut AppState, msg: String)
    ensures
        assistant_said(*old(state), *final(state), msg),
{
    state.tool_call_state.cancel_requested = false;
    state.push_message(MessageContent::AssistantMessage(msg));
    show_end(&mut state.messages_scrolling_state);
    let ghost mid = *state;
    state.auto_show_side_panel();
    assert(*state == panel_auto_shown(mid));
}

/// Takes over what is known of the account.
pub fn handle_get_status(state: &mut AppState, account_info: String)
    ensures
        *final(state) == (AppState {
            sessions_state: SessionsState { account_info, ..old(state).sessions_state },
            ..*old(state)
        }),
{
    state.sessions_state.account_info = account_info;
}

/// Takes over which model answers.
pub fn handle_stream_model(state: &mut AppState, model: Model)
    ensures
        *final(state) == (AppState {
            model_switcher_state: ModelSwitcherState {
                current_model: Some(model),
                ..old(state).model_switcher_state
            },
            ..*old(state)
        }),
{
    state.model_switcher_state.current_model = Some(model);
}

/// Takes over what is known of the bills.
pub fn handle_billing_info_loaded(state: &mut AppState, billing_info: String)
    ensures
        *final(state) == (AppState {
            side_panel_state: SidePanelState {
                billing_info: Some(billing_info),
                ..old(state).side_panel_state
            },
            ..*old(state)
        }),
{
    state.side_panel_state.billing_info = Some(billing_info);
}

/// What refreshing the tasks does: those of the known board are fetched, else those of the board
/// that the messages speak of, which is then known.
pub open spec fn tasks_refreshed(
    pre: AppState,
    post: AppState,
    found: Option<String>,
    sent: Outbox,
    out: Outbox,
) -> bool {
    let known = text_of(pre.side_panel_state.board_agent_id);
    let id = if known is Some {
        known
    } else {
        text_of(found)
    };
    match id {
        Some(id) => {
            &&& post == (AppState {
                side_panel_state: SidePanelState {
                    board_agent_id: post.side_panel_state.board_agent_id,
                    ..pre.side_panel_state
                },
                ..pre
            })
            &&& text_of(post.side_panel_state.board_agent_id) == Some(id)
            &&& sent.affects(out, |e: Effect| e matches Effect::FetchTasks(t) && t@ == id)
        },
        None => post == pre && out == sent,
    }
}

/// Has the tasks fetched. `found` is the board that the messages speak of.
pub fn handle_refresh_board_tasks(state: &mut AppState, found: &Option<String>, out: &mut Outbox)
    ensures
        tasks_refreshed(*old(state), *final(state), *found, *old(out), *final(out)),
{
    let id: Option<String> = match &state.side_panel_state.board_agent_id {
        Some(t) => Some(t.clone()),
        None => copy_text(found),
    };
    match id {
        Some(id) => {
            out.ask(Effect::FetchTasks(id.clone()));
            state.side_panel_state.board_agent_id = Some(id);
        },
        None => {},
    }
}

/// Takes over the tasks of the board.
pub fn handle_board_tasks_loaded(state: &mut AppState, items: Vec<TodoItem>, progress: TaskProgress)
    ensures
        *final(state) == (AppState {
            side_panel_state: SidePanelState {
                todos: items,
                task_progress: Some(progress),
                ..old(state).side_panel_state
            },
            ..*old(state)
        }),
{
    state.side_panel_state.todos = items;
    state.side_panel_state.task_progress = Some(progress);
}

/// Tasks that could not be fetched are not spoken of: those that are known stay.
pub fn handle_board_tasks_error(state: &mut AppState, _err: String)
    ensures
        *final(state) == *old(state),
{
}

/// What the model says is shown in full, as the last message, in view.
pub proof fn law_assistant_is_shown(pre: AppState, post: AppState, text: String)
    requires
        assistant_said(pre, post, text),
    ensures
        post.messages_scrolling_state.messages@.len()
            == pre.messages_scrolling_state.messages@.len() + 1,
        post.messages_scrolling_state.messages@.drop_last()
            == pre.messages_scrolling_state.messages@,
        post.messages_scrolling_state.messages@.last().content
            == MessageContent::AssistantMessage(text),
        post.messages_scrolling_state.messages@.last().is_collapsed is None,
        post.messages_scrolling_state.stay_at_bottom,
        !post.tool_call_state.cancel_requested,
        post.dialog_approval_state == pre.dialog_approval_state,
        post.input_state == pre.input_state,
{
}

/// A first attempt to quit empties the input and sends nothing; only a second one within a second
/// quits.
pub proof fn law_quit_takes_two_attempts(
    pre: AppState,
    post: AppState,
    now: u64,
    sent: Outbox,
    out: Outbox,
)
    requires
        quit_attempted(pre, post, now, sent, out),
    ensures
        !pre.quit_intent_state.ctrl_c_pressed_once ==> {
            &&& out == sent
            &&& post.input_state.text_area@.text.len() == 0
            &&& post.quit_intent_state.ctrl_c_pressed_once
        },
        pre.quit_intent_state.ctrl_c_pressed_once && pre.quit_intent_state.ctrl_c_timer is Some
            && now > pre.quit_intent_state.ctrl_c_timer->0 ==> out == sent,
        pre.quit_intent_state.ctrl_c_pressed_once && pre.quit_intent_state.ctrl_c_timer is Some
            && now <= pre.quit_intent_state.ctrl_c_timer->0 ==> {
            &&& !post.quit_intent_state.ctrl_c_pressed_once
            &&& post.input_state == pre.input_state
            &&& sent.input@.len() < sent.input_room ==> out.input@.len() == sent.input@.len() + 1
                && out.input@.last() is Quit
        },
        out.output@ == sent.output@,
{
}

/// An operation that ended is no longer under way, and the others are; the client counts as loading
/// while any of them is.
pub proof fn law_ended_operation(
    pre: AppState,
    post: AppState,
    operation: LoadingOperation,
    other: LoadingOperation,
)
    requires
        loading_ended(pre, post, operation),
    ensures
        !post.loading_state.loading_manager@.contains(operation),
        other != operation ==> post.loading_state.loading_manager@.contains(other)
            == pre.loading_state.loading_manager@.contains(other),
        post.loading_state.loading_manager@.contains(other) ==> post.loading_state.is_loading,
        post.loading_state.loading_manager@.is_empty() ==> !post.loading_state.is_loading,
        post.user_message_queue_state == pre.user_message_queue_state,
{
    assert(post.loading_state.loading_manager@.is_empty()
        ==> post.loading_state.loading_manager@ =~= Set::<LoadingOperation>::empty());
}

/// Once the model was interrupted, nothing streams and nothing is being cancelled, and the
/// conversation says so at its end.
pub proof fn law_interrupted(pre: AppState, post: AppState)
    requires
        interrupted(pre, post),
    ensures
        !post.tool_call_state.is_streaming,
        !post.tool_call_state.cancel_requested,
        post.messages_scrolling_state.messages@.len()
            == pre.messages_scrolling_state.messages@.len() + 1,
        post.messages_scrolling_state.messages@.drop_last()
            == pre.messages_scrolling_state.messages@,
        post.messages_scrolling_state.messages@.last().content is RenderInterruptedBlock,
{
}

/// The sessions that are told are those that are shown, from the first on, in the popup that opens
/// for them; a shell that ran is ended and leaves the conversation.
pub proof fn law_sessions_are_shown(
    pre: AppState,
    post: AppState,
    sessions: Vec<SessionInfo>,
    sent: Outbox,
    out: Outbox,
)
    requires
        sessions_shown(pre, post, sessions, sent, out),
    ensures
        post.sessions_state.sessions == sessions,
        post.sessions_state.session_selected == 0,
        post.shortcuts_panel_state.is_visible,
        post.shortcuts_panel_state.mode == ShortcutsPopupMode::Sessions,
        post.shell_popup_state.active_shell_command is None,
        !post.shell_popup_state.is_expanded,
        out.output@ == sent.output@,
        pre.shell_popup_state.active_shell_command is None ==> out == sent,
        pre.shell_popup_state.active_shell_command is Some ==> out.effects@.len()
            == sent.effects@.len() + 1 && out.effects@.last() is KillShell,
        post.input_state.text_area@.text == pre.input_state.text_area@.text,
{
}

/// An error is always said: the conversation grows by it, and everything but the conversation stays,
/// but for the error that says that the model was interrupted, after which nothing streams.
pub proof fn law_error_is_said(
    pre: AppState,
    post: AppState,
    error: Seq<char>,
    limit_error: Seq<char>,
    limit_message: Seq<char>,
)
    requires
        error_taken(pre, post, error, limit_error, limit_message),
    ensures
        !holds_text(error, "FREE_PLAN"@) && error == "STREAM_CANCELLED"@ ==> {
            &&& !post.tool_call_state.is_streaming
            &&& post.messages_scrolling_state.messages@.len()
                == pre.messages_scrolling_state.messages@.len() + 1
            &&& post.messages_scrolling_state.messages@.last().content is RenderInterruptedBlock
        },
        !holds_text(error, "FREE_PLAN"@) && error != "STREAM_CANCELLED"@ ==> {
            let text = error_text(error, limit_error, limit_message);
            &&& post.tool_call_state == pre.tool_call_state
            &&& post.dialog_approval_state == pre.dialog_approval_state
            &&& post.input_state == pre.input_state
            &&& !holds_text(text, "RETRY_ATTEMPT"@) && !holds_text(text, "MAX_RETRY_REACHED"@)
                ==> {
                &&& post.messages_scrolling_state.messages@.len()
                    == pre.messages_scrolling_state.messages@.len() + 1
                &&& post.messages_scrolling_state.messages@.drop_last()
                    == pre.messages_scrolling_state.messages@
                &&& post.messages_scrolling_state.messages@.last().content matches
                    MessageContent::StyledBlock(v)
                &&& line_views(v@) == error_rows(text, false)
            }
        },
        holds_text(error, "FREE_PLAN"@) ==> post.messages_scrolling_state.messages@.len()
            == pre.messages_scrolling_state.messages@.len() + 2,
{
}

/// The tab key turns the page of the shortcuts while they are in view: from the commands to the
/// shortcuts, on to the sessions, and back to the commands.
pub proof fn law_tab_turns_the_page(
    pre: AppState,
    post: AppState,
    dir: Option<Directory>,
    now: u64,
    f: Measures,
)
    requires
        tabbed(pre, post, dir, now, f),
        pre.shortcuts_panel_state.is_visible,
    ensures
        post.shortcuts_panel_state.is_visible,
        pre.shortcuts_panel_state.mode == ShortcutsPopupMode::Commands
            ==> post.shortcuts_panel_state.mode == ShortcutsPopupMode::Shortcuts,
        pre.shortcuts_panel_state.mode == ShortcutsPopupMode::Shortcuts
            ==> post.shortcuts_panel_state.mode == ShortcutsPopupMode::Sessions,
        pre.shortcuts_panel_state.mode == ShortcutsPopupMode::Sessions
            ==> post.shortcuts_panel_state.mode == ShortcutsPopupMode::Commands,
        post.input_state == pre.input_state,
{
}

} // verus!
