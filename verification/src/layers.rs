//! The popups and modes that take events before the rest of the client sees them.

use vstd::prelude::*;
use crate::app::AppState;
use crate::approval_bar::ApprovalStatus;
use crate::ask_user::AskUserQuestion;
use crate::ask_user::cancelled;
use crate::ask_user::confirmed;
use crate::ask_user::empty_answered;
use crate::ask_user::gone_down;
use crate::ask_user::gone_up;
use crate::ask_user::handle_ask_user_cancel;
use crate::ask_user::handle_ask_user_confirm_question;
use crate::ask_user::handle_ask_user_custom_input_backspace;
use crate::ask_user::handle_ask_user_custom_input_changed;
use crate::ask_user::handle_ask_user_custom_input_delete;
use crate::ask_user::handle_ask_user_custom_input_paste;
use crate::ask_user::handle_ask_user_next_option;
use crate::ask_user::handle_ask_user_next_tab;
use crate::ask_user::handle_ask_user_prev_option;
use crate::ask_user::handle_ask_user_prev_tab;
use crate::ask_user::handle_ask_user_select_option;
use crate::ask_user::handle_ask_user_submit;
use crate::ask_user::handle_show_ask_user_popup;
use crate::ask_user::is_custom_input_selected;
use crate::ask_user::popup_shown;
use crate::ask_user::selected;
use crate::ask_user::send_empty_questions_error;
use crate::ask_user::stepped;
use crate::ask_user::submitted;
use crate::ask_user::tab_left;
use crate::ask_user::tab_right;
use crate::ask_user::without_last;
use crate::ask_user::words_changed;
use crate::events::Effect;
use crate::events::InputEvent;
use crate::events::Outbox;
use crate::events::OutputEvent;
use crate::events::ReviewAction;
use crate::file_changes::file_opened;
use crate::file_changes::file_passed;
use crate::file_changes::handle_file_changes_popup_backspace;
use crate::file_changes::handle_file_changes_popup_cancel;
use crate::file_changes::handle_file_changes_popup_mouse_click;
use crate::file_changes::handle_file_changes_popup_navigate;
use crate::file_changes::handle_file_changes_popup_open_editor;
use crate::file_changes::handle_file_changes_popup_revert;
use crate::file_changes::handle_file_changes_popup_revert_all;
use crate::file_changes::handle_file_changes_popup_search_input;
use crate::file_changes::paths_to_revert;
use crate::file_changes::popup_clicked;
use crate::file_changes::revert_asked;
use crate::file_changes::search_deleted;
use crate::file_changes::search_set;
use crate::file_changes::with_popup;
use crate::geometry::Size;
use crate::message_actions::action_chosen;
use crate::message_actions::action_passed;
use crate::message_actions::handle_message_action_popup_close;
use crate::message_actions::handle_message_action_popup_execute;
use crate::message_actions::handle_message_action_popup_navigate;
use crate::message_actions::popup_closed;
use crate::model_switcher::delete_in_switcher;
use crate::model_switcher::handle_model_switcher_cancel;
use crate::model_switcher::handle_model_switcher_select;
use crate::model_switcher::model_chosen;
use crate::model_switcher::pass_model;
use crate::model_switcher::passed_model;
use crate::model_switcher::shortened;
use crate::model_switcher::switcher_closed;
use crate::model_switcher::switcher_searched;
use crate::model_switcher::type_into_switcher;
use crate::model_switcher::with_switcher;
use crate::models::ToolCall;
use crate::models::copy_calls;
use crate::models::copy_text;
use crate::models::holds_call;
use crate::models::text_of;
use crate::navigation::less;
use crate::navigation::minus;
use crate::shell::send_shell_input;
use crate::shell::shell_typed;
use crate::shell::shell_written;
use crate::submit::bar_decided;
use crate::submit::decide_bar;
use crate::submit::decisions_noted;
use crate::submit::first_started;
use crate::submit::is_approved;
use crate::submit::note_decisions;
use crate::submit::start_first;
use crate::text::texts;
use crate::tool::all_set;
use crate::tool::call_shown;
use crate::tool::handle_approval_bar_next_action;
use crate::tool::handle_approval_bar_prev_action;
use crate::tool::handle_approval_bar_toggle_selected;
use crate::tool::turned_round;
use crate::types::DialogApprovalState;
use crate::types::ExistingPlanPrompt;
use crate::types::FileChangesPopupState;
use crate::types::ModelSwitcherState;
use crate::types::PlanModeState;
use crate::types::PlanReviewState;
use crate::types::ShellPopupState;
use crate::types::ShellRuntimeState;

verus! {

// ----- which one takes an event -----

/// Who takes an event.
#[derive(Clone, Copy, Debug, PartialEq, Eq, Structural)]
pub enum Layer {
    /// Nobody: the profile is being switched.
    Blocked,
    MessageActions,
    PlanPrompt,
    PlanReview,
    FileChanges,
    AskUser,
    Questions,
    ModelSwitcher,
    ApprovalBar,
    Shell,
    /// The rest of the client.
    Normal,
}

/// Whether the event is heeded while the profile is being switched.
pub open spec fn passes_switch(e: InputEvent) -> bool {
    match e {
        InputEvent::ProfilesLoaded(_, _)
        | InputEvent::ProfileSwitchRequested(_)
        | InputEvent::ProfileSwitchProgress(_)
        | InputEvent::ProfileSwitchComplete(_)
        | InputEvent::ProfileSwitchFailed(_)
        | InputEvent::RulebooksLoaded(_)
        | InputEvent::CurrentRulebooksLoaded(_)
        | InputEvent::AvailableModelsLoaded(_)
        | InputEvent::RecentModelsUpdated(_)
        | InputEvent::Quit
        | InputEvent::AttemptQuit => true,
        _ => false,
    }
}

fn heeded_in_switch(e: &InputEvent) -> (r: bool)
    ensures
        r == passes_switch(*e),
{
    match e {
        InputEvent::ProfilesLoaded(_, _)
        | InputEvent::ProfileSwitchRequested(_)
        | InputEvent::ProfileSwitchProgress(_)
        | InputEvent::ProfileSwitchComplete(_)
        | InputEvent::ProfileSwitchFailed(_)
        | InputEvent::RulebooksLoaded(_)
        | InputEvent::CurrentRulebooksLoaded(_)
        | InputEvent::AvailableModelsLoaded(_)
        | InputEvent::RecentModelsUpdated(_)
        | InputEvent::Quit
        | InputEvent::AttemptQuit => true,
        _ => false,
    }
}

/// Whether the user wants to quit.
pub open spec fn is_quit(e: InputEvent) -> bool {
    e is Quit || e is AttemptQuit
}

/// Whether the event scrolls the view even while questions are shown.
pub open spec fn scrolls(e: InputEvent) -> bool {
    e is ScrollUp || e is ScrollDown || e is PageUp || e is PageDown || e is Tab
}

/// Whether the event tells of models.
pub open spec fn tells_models(e: InputEvent) -> bool {
    e is AvailableModelsLoaded || e is RecentModelsUpdated
}

/// Whether the bar with the calls takes the event: enter only takes back that everything was to be
/// rejected.
pub open spec fn bar_takes(s: AppState, e: InputEvent) -> bool {
    match e {
        InputEvent::HandleEsc | InputEvent::CursorLeft(_) | InputEvent::CursorRight(_) => true,
        InputEvent::InputChanged(c) => c == ' ',
        InputEvent::InputSubmitted => s.dialog_approval_state.approval_bar.esc_pending,
        _ => false,
    }
}

/// Whether keys go to the shell.
pub open spec fn shell_listens(s: AppState) -> bool {
    let p = s.shell_popup_state;
    &&& p.is_expanded
    &&& p.active_shell_command is Some
    &&& !s.dialog_approval_state.is_dialog_open
    &&& !s.dialog_approval_state.approval_bar.shown()
    &&& !p.is_loading
}

/// Whether the shell takes the event.
pub open spec fn shell_takes(e: InputEvent) -> bool {
    match e {
        InputEvent::InputChanged(_)
        | InputEvent::InputBackspace(_)
        | InputEvent::InputSubmitted
        | InputEvent::CursorLeft(_)
        | InputEvent::CursorRight(_)
        | InputEvent::Up
        | InputEvent::Down
        | InputEvent::ScrollUp
        | InputEvent::ScrollDown
        | InputEvent::PageUp
        | InputEvent::PageDown
        | InputEvent::Tab
        | InputEvent::AttemptQuit
        | InputEvent::InputDelete
        | InputEvent::InputDeleteWord(_) => true,
        _ => false,
    }
}

/// Who takes the event. What the backend reports passes the popups.
pub open spec fn layer_of(s: AppState, e: InputEvent, backend: bool) -> Layer {
    if s.profile_switcher_state.switching_in_progress && !passes_switch(e) {
        Layer::Blocked
    } else if s.message_interaction_state.show_message_action_popup && !backend {
        Layer::MessageActions
    } else if s.plan_mode_state.existing_prompt is Some && !backend && !is_quit(e) {
        Layer::PlanPrompt
    } else if s.plan_review_state.is_visible && !backend && !is_quit(e) {
        Layer::PlanReview
    } else if s.file_changes_popup_state.is_visible && !backend {
        Layer::FileChanges
    } else if s.ask_user_state.is_visible && !backend && !scrolls(e) {
        Layer::AskUser
    } else if e is ShowAskUserPopup {
        Layer::Questions
    } else if s.model_switcher_state.is_visible && !backend && !tells_models(e) {
        Layer::ModelSwitcher
    } else if s.dialog_approval_state.approval_bar.shown()
        && !s.messages_scrolling_state.show_collapsed_messages && bar_takes(s, e) {
        Layer::ApprovalBar
    } else if shell_listens(s) && shell_takes(e) {
        Layer::Shell
    } else {
        Layer::Normal
    }
}

fn takes_bar(state: &AppState, e: &InputEvent) -> (r: bool)
    ensures
        r == bar_takes(*state, *e),
{
    match e {
        InputEvent::HandleEsc | InputEvent::CursorLeft(_) | InputEvent::CursorRight(_) => true,
        InputEvent::InputChanged(c) => *c == ' ',
        InputEvent::InputSubmitted => state.dialog_approval_state.approval_bar.esc_pending,
        _ => false,
    }
}

fn takes_shell(e: &InputEvent) -> (r: bool)
    ensures
        r == shell_takes(*e),
{
    match e {
        InputEvent::InputChanged(_)
        | InputEvent::InputBackspace(_)
        | InputEvent::InputSubmitted
        | InputEvent::CursorLeft(_)
        | InputEvent::CursorRight(_)
        | InputEvent::Up
        | InputEvent::Down
        | InputEvent::ScrollUp
        | InputEvent::ScrollDown
        | InputEvent::PageUp
        | InputEvent::PageDown
        | InputEvent::Tab
        | InputEvent::AttemptQuit
        | InputEvent::InputDelete
        | InputEvent::InputDeleteWord(_) => true,
        _ => false,
    }
}

fn listens(state: &AppState) -> (r: bool)
    ensures
        r == shell_listens(*state),
{
    state.shell_popup_state.is_expanded && state.shell_popup_state.active_shell_command.is_some()
        && !state.dialog_approval_state.is_dialog_open
        && !state.dialog_approval_state.approval_bar.is_visible()
        && !state.shell_popup_state.is_loading
}

/// Who takes the event; `backend` says that the backend reports it.
pub fn route(state: &AppState, e: &InputEvent, backend: bool) -> (r: Layer)
    ensures
        r == layer_of(*state, *e, backend),
{
    let quit: bool = match e {
        InputEvent::Quit | InputEvent::AttemptQuit => true,
        _ => false,
    };
    let scroll: bool = match e {
        InputEvent::ScrollUp
        | InputEvent::ScrollDown
        | InputEvent::PageUp
        | InputEvent::PageDown
        | InputEvent::Tab => true,
        _ => false,
    };
    let models: bool = match e {
        InputEvent::AvailableModelsLoaded(_) | InputEvent::RecentModelsUpdated(_) => true,
        _ => false,
    };
    let questions: bool = match e {
        InputEvent::ShowAskUserPopup(_, _) => true,
        _ => false,
    };
    if state.profile_switcher_state.switching_in_progress && !heeded_in_switch(e) {
        return Layer::Blocked;
    }
    if !backend {
        if state.message_interaction_state.show_message_action_popup {
            return Layer::MessageActions;
        }
        if state.plan_mode_state.existing_prompt.is_some() && !quit {
            return Layer::PlanPrompt;
        }
        if state.plan_review_state.is_visible && !quit {
            return Layer::PlanReview;
        }
        if state.file_changes_popup_state.is_visible {
            return Layer::FileChanges;
        }
        if state.ask_user_state.is_visible && !scroll {
            return Layer::AskUser;
        }
    }
    if questions {
        return Layer::Questions;
    }
    if !backend && state.model_switcher_state.is_visible && !models {
        return Layer::ModelSwitcher;
    }
    if state.dialog_approval_state.approval_bar.is_visible()
        && !state.messages_scrolling_state.show_collapsed_messages && takes_bar(state, e) {
        return Layer::ApprovalBar;
    }
    if listens(state) && takes_shell(e) {
        return Layer::Shell;
    }
    Layer::Normal
}

/// While the profile is being switched, nothing but what tells of the switch, of what there is to
/// choose from, and the wish to quit gets through.
pub proof fn law_switch_blocks(s: AppState, e: InputEvent, backend: bool)
    requires
        s.profile_switcher_state.switching_in_progress,
    ensures
        layer_of(s, e, backend) == Layer::Blocked <==> !passes_switch(e),
{
}

/// What the backend reports is never taken by a popup, unless the profile is being switched; only
/// the bar and the shell, which heed keys alone, could take it.
pub proof fn law_backend_passes(s: AppState, e: InputEvent)
    requires
        !s.profile_switcher_state.switching_in_progress,
        !shell_takes(e),
        !(e is HandleEsc),
        !(e is ShowAskUserPopup),
    ensures
        layer_of(s, e, true) == Layer::Normal,
{
}

/// The user can quit whatever is shown, but for the popups that keep every key to themselves.
pub proof fn law_quit_passes(s: AppState)
    requires
        !s.message_interaction_state.show_message_action_popup,
        !s.file_changes_popup_state.is_visible,
        !s.ask_user_state.is_visible,
        !s.model_switcher_state.is_visible,
    ensures
        layer_of(s, InputEvent::Quit, false) == Layer::Normal,
{
}

// ----- what can be done with a message -----

/// What an event does in the popup over a message: it takes every event.
pub open spec fn in_message_actions(
    pre: AppState,
    post: AppState,
    e: InputEvent,
    sent: Outbox,
    out: Outbox,
) -> bool {
    match e {
        InputEvent::HandleEsc
        | InputEvent::MouseClick(_, _)
        | InputEvent::MouseDragStart(_, _)
        | InputEvent::MouseDrag(_, _)
        | InputEvent::MouseDragEnd(_, _) => popup_closed(pre, post) && out == sent,
        InputEvent::Up | InputEvent::ScrollUp => post == action_passed(pre, (0 - 1) as i32) && out
            == sent,
        InputEvent::Down | InputEvent::ScrollDown => post == action_passed(pre, 1) && out == sent,
        InputEvent::InputSubmitted => action_chosen(pre, post, sent, out),
        _ => post == pre && out == sent,
    }
}

/// An event in the popup over a message.
pub fn take_message_actions(state: &mut AppState, e: &InputEvent, out: &mut Outbox)
    ensures
        in_message_actions(*old(state), *final(state), *e, *old(out), *final(out)),
{
    match e {
        InputEvent::HandleEsc
        | InputEvent::MouseClick(_, _)
        | InputEvent::MouseDragStart(_, _)
        | InputEvent::MouseDrag(_, _)
        | InputEvent::MouseDragEnd(_, _) => {
            handle_message_action_popup_close(state);
        },
        InputEvent::Up | InputEvent::ScrollUp => {
            handle_message_action_popup_navigate(state, -1);
        },
        InputEvent::Down | InputEvent::ScrollDown => {
            handle_message_action_popup_navigate(state, 1);
        },
        InputEvent::InputSubmitted => {
            handle_message_action_popup_execute(state, out);
        },
        _ => {},
    }
}

// ----- plans -----

/// The state without the question what becomes of a plan that is there.
pub open spec fn prompt_gone(s: AppState) -> AppState {
    AppState {
        plan_mode_state: PlanModeState { existing_prompt: None, ..s.plan_mode_state },
        ..s
    }
}

/// The backend is told to plan.
pub open spec fn planning_told(prompt: Option<ExistingPlanPrompt>, sent: Outbox, out: Outbox)
    -> bool {
    match prompt {
        Some(p) => sent.outputs(
            out,
            |o: OutputEvent|
                o matches OutputEvent::PlanModeActivated(t) && text_of(t) == text_of(
                    p.inline_prompt,
                ),
        ),
        None => out == sent,
    }
}

/// The plan that is there is to be put away.
pub open spec fn archive_asked(sent: Outbox, out: Outbox) -> bool {
    sent.affects(out, |o: Effect| o is ArchivePlan)
}

/// What an event does while it is asked what becomes of a plan that is there: `u` uses it, `n` puts
/// it away, escape gives up. Every other event is taken.
pub open spec fn in_plan_prompt(
    pre: AppState,
    post: AppState,
    e: InputEvent,
    sent: Outbox,
    out: Outbox,
) -> bool {
    let prompt = pre.plan_mode_state.existing_prompt;
    match e {
        InputEvent::InputChanged(c) => if c == 'u' {
            post == prompt_gone(pre) && planning_told(prompt, sent, out)
        } else if c == 'n' {
            &&& post == prompt_gone(pre)
            &&& exists|mid: Outbox| #[trigger]
                archive_asked(sent, mid) && planning_told(prompt, mid, out)
        } else {
            post == pre && out == sent
        },
        InputEvent::HandleEsc => post == prompt_gone(pre) && out == sent,
        _ => post == pre && out == sent,
    }
}

fn tell_planning(state: &mut AppState, out: &mut Outbox)
    ensures
        *final(state) == prompt_gone(*old(state)),
        planning_told(old(state).plan_mode_state.existing_prompt, *old(out), *final(out)),
{
    match &state.plan_mode_state.existing_prompt {
        Some(p) => {
            let prompt: Option<String> = copy_text(&p.inline_prompt);
            let _sent: bool = out.send_output(OutputEvent::PlanModeActivated(prompt));
        },
        None => {},
    }
    state.plan_mode_state.existing_prompt = None;
}

/// An event while it is asked what becomes of a plan that is there.
pub fn take_plan_prompt(state: &mut AppState, e: &InputEvent, out: &mut Outbox)
    ensures
        in_plan_prompt(*old(state), *final(state), *e, *old(out), *final(out)),
{
    match e {
        InputEvent::InputChanged(c) => {
            if *c == 'u' {
                tell_planning(state, out);
            } else if *c == 'n' {
                out.ask(Effect::ArchivePlan);
                assert(archive_asked(*old(out), *out));
                tell_planning(state, out);
            }
        },
        InputEvent::HandleEsc => {
            state.plan_mode_state.existing_prompt = None;
        },
        _ => {},
    }
}

/// What an event asks of the modal in which a comment is written.
pub open spec fn comment_action(e: InputEvent) -> Option<ReviewAction> {
    match e {
        InputEvent::HandleEsc => Some(ReviewAction::CloseComment),
        InputEvent::InputChanged(c) => Some(ReviewAction::CommentChar(c)),
        InputEvent::InputBackspace(_) => Some(ReviewAction::CommentBackspace),
        InputEvent::InputChangedNewline => Some(ReviewAction::CommentNewline),
        InputEvent::InputSubmitted => Some(ReviewAction::SubmitComment),
        _ => None,
    }
}

/// What an event asks of the review of a plan.
pub open spec fn review_action(e: InputEvent) -> Option<ReviewAction> {
    match e {
        InputEvent::HandleEsc | InputEvent::PlanReviewClose | InputEvent::TogglePlanReview => Some(
            ReviewAction::Close,
        ),
        InputEvent::Up | InputEvent::ScrollUp | InputEvent::PlanReviewCursorUp => Some(
            ReviewAction::CursorUp,
        ),
        InputEvent::Down | InputEvent::ScrollDown | InputEvent::PlanReviewCursorDown => Some(
            ReviewAction::CursorDown,
        ),
        InputEvent::InputChanged(c) => if c == 'k' {
            Some(ReviewAction::CursorUp)
        } else if c == 'j' {
            Some(ReviewAction::CursorDown)
        } else if c == 'c' {
            Some(ReviewAction::OpenComment)
        } else if c == 'd' {
            Some(ReviewAction::OpenDeleteConfirm)
        } else if c == 'a' || c == 'f' {
            Some(ReviewAction::OpenSubmitConfirm)
        } else {
            None
        },
        InputEvent::Tab | InputEvent::PlanReviewNextComment => Some(ReviewAction::NextComment),
        InputEvent::PlanReviewPrevComment => Some(ReviewAction::PrevComment),
        InputEvent::PageUp | InputEvent::PlanReviewPageUp => Some(ReviewAction::PageUp),
        InputEvent::PageDown | InputEvent::PlanReviewPageDown => Some(ReviewAction::PageDown),
        InputEvent::PlanReviewComment => Some(ReviewAction::OpenComment),
        InputEvent::InputSubmitted
        | InputEvent::InputChangedNewline
        | InputEvent::PlanReviewApprove
        | InputEvent::PlanReviewFeedback => Some(ReviewAction::OpenSubmitConfirm),
        _ => None,
    }
}

/// The action on the review is to be done, where there is one.
pub open spec fn review_asked(a: Option<ReviewAction>, sent: Outbox, out: Outbox) -> bool {
    match a {
        Some(a) => sent.affects(out, |o: Effect| o == Effect::PlanReview(a)),
        None => out == sent,
    }
}

/// What an event does in the review of a plan: in the modal for a comment, in the question whether
/// something is really to be done, or in the plan itself. It takes every event.
pub open spec fn in_plan_review(
    pre: AppState,
    post: AppState,
    e: InputEvent,
    sent: Outbox,
    out: Outbox,
) -> bool {
    let r = pre.plan_review_state;
    if r.show_comment_modal {
        post == pre && review_asked(comment_action(e), sent, out)
    } else if r.confirm is Some {
        if e is HandleEsc || e == InputEvent::InputChanged('n') {
            post == (AppState {
                plan_review_state: PlanReviewState { confirm: None, ..r },
                ..pre
            }) && out == sent
        } else if e is InputSubmitted || e is InputChangedNewline || e
            == InputEvent::InputChanged('y') {
            post == pre && review_asked(Some(ReviewAction::ExecuteConfirm), sent, out)
        } else {
            post == pre && out == sent
        }
    } else {
        post == pre && review_asked(review_action(e), sent, out)
    }
}

fn find_comment_action(e: &InputEvent) -> (r: Option<ReviewAction>)
    ensures
        r == comment_action(*e),
{
    match e {
        InputEvent::HandleEsc => Some(ReviewAction::CloseComment),
        InputEvent::InputChanged(c) => Some(ReviewAction::CommentChar(*c)),
        InputEvent::InputBackspace(_) => Some(ReviewAction::CommentBackspace),
        InputEvent::InputChangedNewline => Some(ReviewAction::CommentNewline),
        InputEvent::InputSubmitted => Some(ReviewAction::SubmitComment),
        _ => None,
    }
}

fn find_review_action(e: &InputEvent) -> (r: Option<ReviewAction>)
    ensures
        r == review_action(*e),
{
    match e {
        InputEvent::HandleEsc | InputEvent::PlanReviewClose | InputEvent::TogglePlanReview => Some(
            ReviewAction::Close,
        ),
        InputEvent::Up | InputEvent::ScrollUp | InputEvent::PlanReviewCursorUp => Some(
            ReviewAction::CursorUp,
        ),
        InputEvent::Down | InputEvent::ScrollDown | InputEvent::PlanReviewCursorDown => Some(
            ReviewAction::CursorDown,
        ),
        InputEvent::InputChanged(c) => if *c == 'k' {
            Some(ReviewAction::CursorUp)
        } else if *c == 'j' {
            Some(ReviewAction::CursorDown)
        } else if *c == 'c' {
            Some(ReviewAction::OpenComment)
        } else if *c == 'd' {
            Some(ReviewAction::OpenDeleteConfirm)
        } else if *c == 'a' || *c == 'f' {
            Some(ReviewAction::OpenSubmitConfirm)
        } else {
            None
        },
        InputEvent::Tab | InputEvent::PlanReviewNextComment => Some(ReviewAction::NextComment),
        InputEvent::PlanReviewPrevComment => Some(ReviewAction::PrevComment),
        InputEvent::PageUp | InputEvent::PlanReviewPageUp => Some(ReviewAction::PageUp),
        InputEvent::PageDown | InputEvent::PlanReviewPageDown => Some(ReviewAction::PageDown),
        InputEvent::PlanReviewComment => Some(ReviewAction::OpenComment),
        InputEvent::InputSubmitted
        | InputEvent::InputChangedNewline
        | InputEvent::PlanReviewApprove
        | InputEvent::PlanReviewFeedback => Some(ReviewAction::OpenSubmitConfirm),
        _ => None,
    }
}

fn ask_review(a: Option<ReviewAction>, out: &mut Outbox)
    ensures
        review_asked(a, *old(out), *final(out)),
{
    match a {
        Some(a) => {
            out.ask(Effect::PlanReview(a));
        },
        None => {},
    }
}

/// An event in the review of a plan.
pub fn take_plan_review(state: &mut AppState, e: &InputEvent, out: &mut Outbox)
    ensures
        in_plan_review(*old(state), *final(state), *e, *old(out), *final(out)),
{
    if state.plan_review_state.show_comment_modal {
        ask_review(find_comment_action(e), out);
        return;
    }
    if state.plan_review_state.confirm.is_some() {
        let no: bool = match e {
            InputEvent::HandleEsc => true,
            InputEvent::InputChanged(c) => *c == 'n',
            _ => false,
        };
        let yes: bool = match e {
            InputEvent::InputSubmitted | InputEvent::InputChangedNewline => true,
            InputEvent::InputChanged(c) => *c == 'y',
            _ => false,
        };
        if no {
            state.plan_review_state.confirm = None;
        } else if yes {
            ask_review(Some(ReviewAction::ExecuteConfirm), out);
        }
        return;
    }
    ask_review(find_review_action(e), out);
}

// ----- changed files -----

/// What an event does in the popup with the changed files: it takes every event.
pub open spec fn in_file_changes(
    pre: AppState,
    post: AppState,
    e: InputEvent,
    size: Size,
    sent: Outbox,
    out: Outbox,
) -> bool {
    let p = pre.file_changes_popup_state;
    match e {
        InputEvent::HandleEsc => post == with_popup(
            pre,
            FileChangesPopupState { is_visible: false, ..p },
        ) && out == sent,
        InputEvent::FileChangesRevertAll => post == pre && sent.affects(
            out,
            |o: Effect|
                o matches Effect::RevertAll(v) && texts(v@) == paths_to_revert(
                    pre.side_panel_state.changeset.files@,
                ),
        ),
        InputEvent::FileChangesRevertFile => revert_asked(pre, post, sent, out),
        InputEvent::FileChangesOpenEditor => file_opened(pre, post, p.is_selected as int) && out
            == sent,
        InputEvent::Up | InputEvent::ScrollUp => post == file_passed(pre, -1) && out == sent,
        InputEvent::Down | InputEvent::ScrollDown => post == file_passed(pre, 1) && out == sent,
        InputEvent::InputChanged(c) => search_set(pre, post, p.search@.push(c)) && out == sent,
        InputEvent::InputBackspace(_) => search_deleted(pre, post) && out == sent,
        InputEvent::MouseClick(col, row) | InputEvent::MouseDragStart(col, row) => popup_clicked(
            pre,
            post,
            size.width,
            size.height,
            col,
            row,
        ) && out == sent,
        _ => post == pre && out == sent,
    }
}

/// An event in the popup with the changed files, on a terminal of the given size.
pub fn take_file_changes(state: &mut AppState, e: &InputEvent, size: Size, out: &mut Outbox)
    ensures
        in_file_changes(*old(state), *final(state), *e, size, *old(out), *final(out)),
{
    match e {
        InputEvent::HandleEsc => {
            handle_file_changes_popup_cancel(state);
        },
        InputEvent::FileChangesRevertAll => {
            handle_file_changes_popup_revert_all(state, out);
        },
        InputEvent::FileChangesRevertFile => {
            handle_file_changes_popup_revert(state, out);
        },
        InputEvent::FileChangesOpenEditor => {
            handle_file_changes_popup_open_editor(state);
        },
        InputEvent::Up | InputEvent::ScrollUp => {
            handle_file_changes_popup_navigate(state, -1);
        },
        InputEvent::Down | InputEvent::ScrollDown => {
            handle_file_changes_popup_navigate(state, 1);
        },
        InputEvent::InputChanged(c) => {
            handle_file_changes_popup_search_input(state, *c);
        },
        InputEvent::InputBackspace(_) => {
            handle_file_changes_popup_backspace(state);
        },
        InputEvent::MouseClick(col, row) | InputEvent::MouseDragStart(col, row) => {
            handle_file_changes_popup_mouse_click(state, size.width, size.height, *col, *row);
        },
        _ => {},
    }
}

// ----- questions -----

/// What a call that asks questions does: without questions it is answered at once.
pub open spec fn questions_put(
    pre: AppState,
    post: AppState,
    call: ToolCall,
    questions: Seq<AskUserQuestion>,
    sent: Outbox,
    out: Outbox,
) -> bool {
    if questions.len() == 0 {
        post == pre && empty_answered(call, sent, out)
    } else {
        popup_shown(pre, post, call, questions) && out == sent
    }
}

/// Puts the questions of a call.
pub fn put_questions(
    state: &mut AppState,
    call: ToolCall,
    questions: Vec<AskUserQuestion>,
    out: &mut Outbox,
)
    ensures
        questions_put(*old(state), *final(state), call, questions@, *old(out), *final(out)),
{
    if questions.len() == 0 {
        send_empty_questions_error(call, out);
    } else {
        handle_show_ask_user_popup(state, call, questions);
    }
}

/// What an event does while questions are shown: arrows move among the answers and the questions,
/// space chooses, enter confirms, escape gives up, and what is typed goes into the user's own
/// answer. Every other event is taken.
pub open spec fn in_ask_user(
    pre: AppState,
    post: AppState,
    e: InputEvent,
    sent: Outbox,
    out: Outbox,
) -> bool {
    let custom = pre.ask_user_state@.on_custom();
    let words = pre.ask_user_state@.custom;
    match e {
        InputEvent::HandleEsc | InputEvent::AskUserCancel => cancelled(pre, post, sent, out),
        InputEvent::ShowAskUserPopup(call, questions) => questions_put(
            pre,
            post,
            call,
            questions@,
            sent,
            out,
        ),
        InputEvent::Up | InputEvent::AskUserPrevOption => gone_up(pre, post) && out == sent,
        InputEvent::Down | InputEvent::AskUserNextOption => gone_down(pre, post) && out == sent,
        InputEvent::AskUserNextTab | InputEvent::CursorRight(_) => stepped(
            pre,
            post,
            tab_right(pre.ask_user_state@),
        ) && out == sent,
        InputEvent::AskUserPrevTab | InputEvent::CursorLeft(_) => stepped(
            pre,
            post,
            tab_left(pre.ask_user_state@),
        ) && out == sent,
        InputEvent::AskUserSelectOption => selected(pre, post, sent, out),
        InputEvent::AskUserConfirmQuestion | InputEvent::InputSubmitted => confirmed(
            pre,
            post,
            sent,
            out,
        ),
        InputEvent::AskUserSubmit => submitted(pre, post, sent, out),
        InputEvent::InputChanged(c) => if custom {
            words_changed(pre, post, words.push(c)) && out == sent
        } else if c == ' ' {
            selected(pre, post, sent, out)
        } else {
            post == pre && out == sent
        },
        InputEvent::InputBackspace(_) => if custom {
            words_changed(pre, post, without_last(words)) && out == sent
        } else {
            post == pre && out == sent
        },
        InputEvent::InputDelete => if custom {
            words_changed(pre, post, Seq::empty()) && out == sent
        } else {
            post == pre && out == sent
        },
        InputEvent::AskUserCustomInputChanged(c) => words_changed(pre, post, words.push(c)) && out
            == sent,
        InputEvent::AskUserCustomInputBackspace => words_changed(pre, post, without_last(words))
            && out == sent,
        InputEvent::AskUserCustomInputDelete => words_changed(pre, post, Seq::empty()) && out
            == sent,
        InputEvent::HandlePaste(text) => if custom {
            words_changed(pre, post, words + text@) && out == sent
        } else {
            post == pre && out == sent
        },
        _ => post == pre && out == sent,
    }
}

/// An event while questions are shown.
pub fn take_ask_user(state: &mut AppState, e: InputEvent, out: &mut Outbox)
    ensures
        in_ask_user(*old(state), *final(state), e, *old(out), *final(out)),
{
    let custom: bool = is_custom_input_selected(state);
    match e {
        InputEvent::HandleEsc | InputEvent::AskUserCancel => {
            handle_ask_user_cancel(state, out);
        },
        InputEvent::ShowAskUserPopup(call, questions) => {
            put_questions(state, call, questions, out);
        },
        InputEvent::Up | InputEvent::AskUserPrevOption => {
            let _moved: bool = handle_ask_user_prev_option(state);
        },
        InputEvent::Down | InputEvent::AskUserNextOption => {
            let _moved: bool = handle_ask_user_next_option(state);
        },
        InputEvent::AskUserNextTab | InputEvent::CursorRight(_) => {
            handle_ask_user_next_tab(state);
        },
        InputEvent::AskUserPrevTab | InputEvent::CursorLeft(_) => {
            handle_ask_user_prev_tab(state);
        },
        InputEvent::AskUserSelectOption => {
            handle_ask_user_select_option(state, out);
        },
        InputEvent::AskUserConfirmQuestion | InputEvent::InputSubmitted => {
            handle_ask_user_confirm_question(state, out);
        },
        InputEvent::AskUserSubmit => {
            handle_ask_user_submit(state, out);
        },
        InputEvent::InputChanged(c) => {
            if custom {
                handle_ask_user_custom_input_changed(state, c);
            } else if c == ' ' {
                handle_ask_user_select_option(state, out);
            }
        },
        InputEvent::InputBackspace(_) => {
            if custom {
                handle_ask_user_custom_input_backspace(state);
            }
        },
        InputEvent::InputDelete => {
            if custom {
                handle_ask_user_custom_input_delete(state);
            }
        },
        InputEvent::AskUserCustomInputChanged(c) => {
            handle_ask_user_custom_input_changed(state, c);
        },
        InputEvent::AskUserCustomInputBackspace => {
            handle_ask_user_custom_input_backspace(state);
        },
        InputEvent::AskUserCustomInputDelete => {
            handle_ask_user_custom_input_delete(state);
        },
        InputEvent::HandlePaste(text) => {
            if custom {
                handle_ask_user_custom_input_paste(state, text.as_str());
            }
        },
        _ => {},
    }
}

// ----- models -----

/// What an event does in the model switcher: it takes every event. `shown` are the models that the
/// search leaves, and `order` is the order in which they are listed.
pub open spec fn in_model_switcher(
    pre: AppState,
    post: AppState,
    e: InputEvent,
    shown: Seq<usize>,
    order: Seq<usize>,
    sent: Outbox,
    out: Outbox,
) -> bool {
    let m = pre.model_switcher_state;
    match e {
        InputEvent::HandleEsc => {
            &&& post == with_switcher(pre, post.model_switcher_state)
            &&& switcher_closed(m, post.model_switcher_state, m.current_model)
            &&& out == sent
        },
        InputEvent::Up | InputEvent::ScrollUp => post == with_switcher(
            pre,
            ModelSwitcherState { is_selected: passed_model(order, m.is_selected, true), ..m },
        ) && out == sent,
        InputEvent::Down | InputEvent::ScrollDown => post == with_switcher(
            pre,
            ModelSwitcherState { is_selected: passed_model(order, m.is_selected, false), ..m },
        ) && out == sent,
        InputEvent::InputSubmitted => model_chosen(pre, post, shown, sent, out),
        InputEvent::InputChanged(c)
        | InputEvent::ModelSwitcherSearchInputChanged(c) => switcher_searched(
            pre,
            post,
            m.search@.push(c),
            sent,
            out,
        ),
        InputEvent::InputBackspace(_)
        | InputEvent::ModelSwitcherSearchBackspace => switcher_searched(
            pre,
            post,
            shortened(m.search@),
            sent,
            out,
        ),
        _ => post == pre && out == sent,
    }
}

/// An event in the model switcher.
pub fn take_model_switcher(
    state: &mut AppState,
    e: &InputEvent,
    shown: &Vec<usize>,
    order: &Vec<usize>,
    out: &mut Outbox,
)
    ensures
        in_model_switcher(
            *old(state),
            *final(state),
            *e,
            shown@,
            order@,
            *old(out),
            *final(out),
        ),
{
    match e {
        InputEvent::HandleEsc => {
            handle_model_switcher_cancel(state);
        },
        InputEvent::Up | InputEvent::ScrollUp => {
            pass_model(state, order, true);
        },
        InputEvent::Down | InputEvent::ScrollDown => {
            pass_model(state, order, false);
        },
        InputEvent::InputSubmitted => {
            handle_model_switcher_select(state, shown, out);
        },
        InputEvent::InputChanged(c) | InputEvent::ModelSwitcherSearchInputChanged(c) => {
            type_into_switcher(state, *c, out);
        },
        InputEvent::InputBackspace(_) | InputEvent::ModelSwitcherSearchBackspace => {
            delete_in_switcher(state, out);
        },
        _ => {},
    }
}

// ----- the bar with the calls -----

/// The state in which the bar waits for a second escape, or no longer does.
pub open spec fn escape_pending(pre: AppState, post: AppState, on: bool) -> bool {
    let b = post.dialog_approval_state.approval_bar;
    let c = pre.dialog_approval_state.approval_bar;
    &&& post == (AppState {
        dialog_approval_state: DialogApprovalState {
            approval_bar: b,
            is_dialog_open: on,
            ..pre.dialog_approval_state
        },
        ..pre
    })
    &&& b.actions@ == c.actions@
    &&& b.selected == c.selected
    &&& b.esc_pending == on
}

fn set_escape(state: &mut AppState, on: bool)
    ensures
        escape_pending(*old(state), *final(state), on),
{
    state.dialog_approval_state.approval_bar.esc_pending = on;
    state.dialog_approval_state.is_dialog_open = on;
}

/// The state without the bar and its calls.
pub open spec fn bar_left(s: AppState, t: AppState) -> bool {
    let e = t.dialog_approval_state;
    &&& t == (AppState {
        dialog_approval_state: DialogApprovalState {
            message_tool_calls: None,
            approval_bar: e.approval_bar,
            ..s.dialog_approval_state
        },
        ..s
    })
    &&& e.approval_bar.empty()
}

fn leave_bar(d: &mut DialogApprovalState)
    ensures
        *final(d) == (DialogApprovalState {
            message_tool_calls: None,
            approval_bar: final(d).approval_bar,
            ..*old(d)
        }),
        final(d).approval_bar.empty(),
{
    d.message_tool_calls = None;
    d.approval_bar.clear();
}

/// What starting with the first call does: while it is refused, the dialog stays open.
pub open spec fn first_refused(
    pre: AppState,
    post: AppState,
    call: ToolCall,
    approved: bool,
    sent: Outbox,
    out: Outbox,
) -> bool {
    exists|a: AppState| #[trigger]
        first_started(pre, a, call, approved, sent, out) && post == (AppState {
            dialog_approval_state: DialogApprovalState {
                is_dialog_open: if approved {
                    a.dialog_approval_state.is_dialog_open
                } else {
                    true
                },
                ..a.dialog_approval_state
            },
            ..a
        })
}

/// The state after the decisions of the bar were taken over and the first call was started; the bar
/// is gone.
pub open spec fn bar_decisions_done(pre: AppState, post: AppState, sent: Outbox, out: Outbox)
    -> bool {
    match pre.dialog_approval_state.message_tool_calls {
        None => exists|a: AppState|
            a == (AppState { dialog_approval_state: a.dialog_approval_state, ..pre })
                && decisions_noted(pre.dialog_approval_state, a.dialog_approval_state)
                && #[trigger] bar_left(a, post) && out == sent,
        Some(calls) => exists|a: AppState, b: AppState| #[trigger]
            bar_decided(pre, a, calls@) && (if calls@.len() > 0 {
                first_refused(
                    a,
                    b,
                    calls@[0],
                    is_approved(a.dialog_approval_state.message_approved_tools@, calls@[0]),
                    sent,
                    out,
                )
            } else {
                b == a && out == sent
            }) && #[trigger] bar_left(b, post),
    }
}

/// What the second escape does: every call is rejected.
pub open spec fn bar_refused(pre: AppState, post: AppState, sent: Outbox, out: Outbox) -> bool {
    exists|mid: AppState| #[trigger]
        all_set(pre, mid, ApprovalStatus::Rejected) && bar_decisions_done(mid, post, sent, out)
}

fn refuse_first(state: &mut AppState, call: &ToolCall, approved: bool, out: &mut Outbox)
    ensures
        first_refused(*old(state), *final(state), *call, approved, *old(out), *final(out)),
{
    start_first(state, call, approved, out);
    let ghost a = *state;
    if !approved {
        state.dialog_approval_state.is_dialog_open = true;
    }
    assert(first_started(*old(state), a, *call, approved, *old(out), *out));
}

fn finish_bar(state: &mut AppState, out: &mut Outbox)
    ensures
        bar_decisions_done(*old(state), *final(state), *old(out), *final(out)),
{
    let calls: Option<Vec<ToolCall>> = match &state.dialog_approval_state.message_tool_calls {
        Some(v) => Some(copy_calls(v)),
        None => None,
    };
    match calls {
        None => {
            note_decisions(&mut state.dialog_approval_state);
            let ghost a = *state;
            leave_bar(&mut state.dialog_approval_state);
            assert(bar_left(a, *state));
        },
        Some(v) => {
            decide_bar(state, &v);
            let ghost a = *state;
            assert(bar_decided(*old(state), a, v@));
            if v.len() > 0 {
                let ok: bool = holds_call(
                    &state.dialog_approval_state.message_approved_tools,
                    &v[0],
                );
                refuse_first(state, &v[0], ok, out);
            }
            let ghost b = *state;
            leave_bar(&mut state.dialog_approval_state);
            assert(bar_left(b, *state));
        },
    }
}

fn refuse_bar(state: &mut AppState, out: &mut Outbox)
    ensures
        bar_refused(*old(state), *final(state), *old(out), *final(out)),
{
    state.dialog_approval_state.approval_bar.reject_all();
    let ghost mid = *state;
    assert(all_set(*old(state), mid, ApprovalStatus::Rejected));
    finish_bar(state, out);
}

/// What an event that the bar takes does: the first escape asks whether everything is to be
/// rejected, a second one rejects it, and enter takes that back; space turns the selected call
/// round, and the arrows select another one.
pub open spec fn in_approval_bar(
    pre: AppState,
    post: AppState,
    e: InputEvent,
    sent: Outbox,
    out: Outbox,
) -> bool {
    let bar = pre.dialog_approval_state.approval_bar;
    match e {
        InputEvent::HandleEsc => if bar.esc_pending {
            bar_refused(pre, post, sent, out)
        } else {
            escape_pending(pre, post, true) && out == sent
        },
        InputEvent::InputChanged(_) => turned_round(pre, post) && out == sent,
        InputEvent::CursorLeft(_) => call_shown(pre, post, bar.prev_index()) && out == sent,
        InputEvent::CursorRight(_) => call_shown(pre, post, bar.next_index()) && out == sent,
        InputEvent::InputSubmitted => escape_pending(pre, post, false) && out == sent,
        _ => post == pre && out == sent,
    }
}

/// An event that the bar takes.
pub fn take_approval_bar(state: &mut AppState, e: &InputEvent, out: &mut Outbox)
    ensures
        in_approval_bar(*old(state), *final(state), *e, *old(out), *final(out)),
{
    match e {
        InputEvent::HandleEsc => {
            if state.dialog_approval_state.approval_bar.esc_pending {
                refuse_bar(state, out);
            } else {
                set_escape(state, true);
            }
        },
        InputEvent::InputChanged(_) => {
            handle_approval_bar_toggle_selected(state);
        },
        InputEvent::CursorLeft(_) => {
            handle_approval_bar_prev_action(state);
        },
        InputEvent::CursorRight(_) => {
            handle_approval_bar_next_action(state);
        },
        InputEvent::InputSubmitted => {
            set_escape(state, false);
        },
        _ => {},
    }
}

/// Nothing is approved once everything was rejected.
pub proof fn law_refused_approves_nothing(
    pre: AppState,
    mid: AppState,
    d: DialogApprovalState,
)
    requires
        all_set(pre, mid, ApprovalStatus::Rejected),
        decisions_noted(mid.dialog_approval_state, d),
    ensures
        d.message_approved_tools@.len() == 0,
{
    let actions = mid.dialog_approval_state.approval_bar.actions@;
    lemma_none_with(actions);
}

proof fn lemma_none_with(actions: Seq<crate::approval_bar::ApprovalAction>)
    requires
        forall|i: int|
            0 <= i < actions.len() ==> (#[trigger] actions[i]).status == ApprovalStatus::Rejected,
    ensures
        crate::approval_bar::calls_with(actions, ApprovalStatus::Approved).len() == 0,
    decreases actions.len(),
{
    if actions.len() > 0 {
        assert forall|i: int| 0 <= i < actions.drop_last().len() implies (
        #[trigger] actions.drop_last()[i]).status == ApprovalStatus::Rejected by {
            assert(actions.drop_last()[i] == actions[i]);
        }
        lemma_none_with(actions.drop_last());
    }
}

// ----- the shell -----

/// What a key types into the shell; `enter` is what its terminal takes for the end of a line.
pub open spec fn shell_key(e: InputEvent, enter: Seq<char>) -> Option<Seq<char>> {
    match e {
        InputEvent::InputChanged(c) => Some(seq![c]),
        InputEvent::InputBackspace(_) => Some("\x7f"@),
        InputEvent::InputSubmitted => Some(enter),
        InputEvent::CursorLeft(_) => Some("\x1b[D"@),
        InputEvent::CursorRight(_) => Some("\x1b[C"@),
        InputEvent::Up => Some("\x1b[A"@),
        InputEvent::Down => Some("\x1b[B"@),
        InputEvent::Tab => Some("\t"@),
        InputEvent::AttemptQuit => Some("\x03"@),
        InputEvent::InputDelete => Some("\x15"@),
        InputEvent::InputDeleteWord(_) => Some("\x17"@),
        _ => None,
    }
}

fn find_shell_key(e: &InputEvent, enter: &str) -> (r: Option<String>)
    ensures
        text_of(r) == shell_key(*e, enter@),
{
    match e {
        InputEvent::InputChanged(c) => {
            let mut s: String = String::new();
            s.push(*c);
            assert(s@ =~= seq![*c]);
            Some(s)
        },
        InputEvent::InputBackspace(_) => Some("\x7f".to_owned()),
        InputEvent::InputSubmitted => Some(enter.to_owned()),
        InputEvent::CursorLeft(_) => Some("\x1b[D".to_owned()),
        InputEvent::CursorRight(_) => Some("\x1b[C".to_owned()),
        InputEvent::Up => Some("\x1b[A".to_owned()),
        InputEvent::Down => Some("\x1b[B".to_owned()),
        InputEvent::Tab => Some("\t".to_owned()),
        InputEvent::AttemptQuit => Some("\x03".to_owned()),
        InputEvent::InputDelete => Some("\x15".to_owned()),
        InputEvent::InputDeleteWord(_) => Some("\x17".to_owned()),
        _ => None,
    }
}

/// The state with the shell at its end, unless the key leaves the view alone.
pub open spec fn shell_at_end(s: AppState, e: InputEvent) -> AppState {
    if e is Tab || e is AttemptQuit {
        s
    } else {
        AppState {
            shell_runtime_state: ShellRuntimeState { scroll: 0, ..s.shell_runtime_state },
            ..s
        }
    }
}

/// The furthest that the history of the shell can be scrolled, in the rows that the terminal leaves.
pub open spec fn shell_furthest(s: AppState) -> u16 {
    less(
        s.shell_runtime_state.history_lines@.len() as int,
        less(s.terminal_ui_state.terminal_size.height as int, 2),
    ) as usize as u16
}

fn find_shell_furthest(state: &AppState) -> (r: u16)
    ensures
        r == shell_furthest(*state),
{
    let rows: usize = minus(state.terminal_ui_state.terminal_size.height as usize, 2);
    let n: usize = minus(state.shell_runtime_state.history_lines.len(), rows);
    #[verifier::truncate]
    (n as u16)
}

/// The sum, but at most `most`.
pub open spec fn sum_up_to(a: u16, b: u16, most: u16) -> u16 {
    if a + b > most {
        most
    } else {
        (a + b) as u16
    }
}

fn add_up_to(a: u16, b: u16, most: u16) -> (r: u16)
    ensures
        r == sum_up_to(a, b, most),
{
    if a as u32 + b as u32 > most as u32 {
        most
    } else {
        a + b
    }
}

/// The state after the shell was scrolled: its popup, where it is in view, by one row or a quarter of
/// the screen; else its history by one row or half of the screen, as far as it goes.
pub open spec fn shell_scrolled(s: AppState, up: bool, page: bool) -> AppState {
    let p = s.shell_popup_state;
    let r = s.shell_runtime_state;
    let height = s.terminal_ui_state.terminal_size.height;
    if p.is_visible && p.is_expanded {
        let step = if page {
            height / 4
        } else {
            1
        };
        AppState {
            shell_popup_state: ShellPopupState {
                scroll: if up {
                    crate::text_selection::sum(p.scroll as int, step as int)
                } else {
                    less(p.scroll as int, step as int) as usize
                },
                ..p
            },
            ..s
        }
    } else {
        let step = if page {
            height / 2
        } else {
            1
        };
        AppState {
            shell_runtime_state: ShellRuntimeState {
                scroll: if up {
                    sum_up_to(r.scroll, step, shell_furthest(s))
                } else {
                    less(r.scroll as int, step as int) as u16
                },
                ..r
            },
            ..s
        }
    }
}

fn scroll_popup(p: &mut ShellPopupState, up: bool, step: usize)
    ensures
        *final(p) == (ShellPopupState {
            scroll: if up {
                crate::text_selection::sum(old(p).scroll as int, step as int)
            } else {
                less(old(p).scroll as int, step as int) as usize
            },
            ..*old(p)
        }),
{
    let scroll: usize = p.scroll;
    let next: usize = if !up {
        minus(scroll, step)
    } else if scroll > usize::MAX - step {
        usize::MAX
    } else {
        scroll + step
    };
    p.scroll = next;
}

fn scroll_history(r: &mut ShellRuntimeState, up: bool, step: u16, most: u16)
    ensures
        *final(r) == (ShellRuntimeState {
            scroll: if up {
                sum_up_to(old(r).scroll, step, most)
            } else {
                less(old(r).scroll as int, step as int) as u16
            },
            ..*old(r)
        }),
{
    let scroll: u16 = r.scroll;
    let next: u16 = if up {
        add_up_to(scroll, step, most)
    } else if scroll > step {
        scroll - step
    } else {
        0
    };
    r.scroll = next;
}

fn scroll_shell(state: &mut AppState, up: bool, page: bool)
    ensures
        *final(state) == shell_scrolled(*old(state), up, page),
{
    let height: u16 = state.terminal_ui_state.terminal_size.height;
    if state.shell_popup_state.is_visible && state.shell_popup_state.is_expanded {
        let step: u16 = if page {
            height / 4
        } else {
            1
        };
        scroll_popup(&mut state.shell_popup_state, up, step as usize);
    } else {
        let step: u16 = if page {
            height / 2
        } else {
            1
        };
        let most: u16 = find_shell_furthest(state);
        scroll_history(&mut state.shell_runtime_state, up, step, most);
    }
}

/// What an event that the shell takes does: keys are typed into it, and the rest scrolls it.
pub open spec fn in_shell(
    pre: AppState,
    post: AppState,
    e: InputEvent,
    enter: Seq<char>,
    sent: Outbox,
    out: Outbox,
) -> bool {
    match shell_key(e, enter) {
        Some(t) => {
            let mid = shell_at_end(pre, e);
            post == shell_typed(mid, t) && shell_written(mid, t, sent, out)
        },
        None => post == shell_scrolled(pre, e is ScrollUp || e is PageUp, e is PageUp || e is PageDown)
            && out == sent,
    }
}

/// An event that the shell takes.
pub fn take_shell(state: &mut AppState, e: &InputEvent, enter: &str, out: &mut Outbox)
    ensures
        in_shell(*old(state), *final(state), *e, enter@, *old(out), *final(out)),
{
    match find_shell_key(e, enter) {
        Some(t) => {
            let stays: bool = match e {
                InputEvent::Tab | InputEvent::AttemptQuit => true,
                _ => false,
            };
            if !stays {
                state.shell_runtime_state.scroll = 0;
            }
            send_shell_input(state, t.as_str(), out);
        },
        None => {
            let up: bool = match e {
                InputEvent::ScrollUp | InputEvent::PageUp => true,
                _ => false,
            };
            let page: bool = match e {
                InputEvent::PageUp | InputEvent::PageDown => true,
                _ => false,
            };
            scroll_shell(state, up, page);
        },
    }
}

/// The topmost popup takes what the user does: of those that are open, the first in this order, and
/// no other. While a profile is switched, only what belongs to the switch gets through.
pub proof fn law_topmost_takes(s: AppState, e: InputEvent)
    requires
        !s.profile_switcher_state.switching_in_progress,
        !(e is Quit),
        !(e is AttemptQuit),
    ensures
        s.message_interaction_state.show_message_action_popup ==> layer_of(s, e, false)
            == Layer::MessageActions,
        !s.message_interaction_state.show_message_action_popup
            && s.plan_mode_state.existing_prompt is Some ==> layer_of(s, e, false)
            == Layer::PlanPrompt,
        !s.message_interaction_state.show_message_action_popup
            && s.plan_mode_state.existing_prompt is None && s.plan_review_state.is_visible
            ==> layer_of(s, e, false) == Layer::PlanReview,
        !s.message_interaction_state.show_message_action_popup
            && s.plan_mode_state.existing_prompt is None && !s.plan_review_state.is_visible
            && s.file_changes_popup_state.is_visible ==> layer_of(s, e, false)
            == Layer::FileChanges,
        !s.message_interaction_state.show_message_action_popup
            && s.plan_mode_state.existing_prompt is None && !s.plan_review_state.is_visible
            && !s.file_changes_popup_state.is_visible && s.ask_user_state.is_visible && !(
        e is ScrollUp || e is ScrollDown || e is PageUp || e is PageDown || e is Tab) ==> layer_of(
            s,
            e,
            false,
        ) == Layer::AskUser,
        !s.message_interaction_state.show_message_action_popup
            && s.plan_mode_state.existing_prompt is None && !s.plan_review_state.is_visible
            && !s.file_changes_popup_state.is_visible && !s.ask_user_state.is_visible
            && s.model_switcher_state.is_visible && !(e is ShowAskUserPopup
            || e is AvailableModelsLoaded || e is RecentModelsUpdated) ==> layer_of(s, e, false)
            == Layer::ModelSwitcher,
{
}

/// With no popup, no call in the bar and no shell in front, every event is handled as such.
pub proof fn law_nothing_open(s: AppState, e: InputEvent, backend: bool)
    requires
        !s.profile_switcher_state.switching_in_progress,
        !s.message_interaction_state.show_message_action_popup,
        s.plan_mode_state.existing_prompt is None,
        !s.plan_review_state.is_visible,
        !s.file_changes_popup_state.is_visible,
        !s.ask_user_state.is_visible,
        !s.model_switcher_state.is_visible,
        s.dialog_approval_state.approval_bar.actions@.len() == 0,
        !s.shell_popup_state.is_expanded,
        !(e is ShowAskUserPopup),
    ensures
        layer_of(s, e, backend) == Layer::Normal,
{
}

/// What is typed goes to the shell in front, unless calls wait for the user.
pub proof fn law_shell_takes_what_is_typed(s: AppState, e: InputEvent)
    requires
        !s.profile_switcher_state.switching_in_progress,
        !s.message_interaction_state.show_message_action_popup,
        s.plan_mode_state.existing_prompt is None,
        !s.plan_review_state.is_visible,
        !s.file_changes_popup_state.is_visible,
        !s.ask_user_state.is_visible,
        !s.model_switcher_state.is_visible,
        s.shell_popup_state.is_expanded,
        s.shell_popup_state.active_shell_command is Some,
        !s.shell_popup_state.is_loading,
        s.dialog_approval_state.approval_bar.actions@.len() == 0,
        e is InputChanged || e is InputBackspace || e is InputSubmitted || e is Up || e is Down
            || e is Tab || e is AttemptQuit || e is InputDelete,
    ensures
        !s.dialog_approval_state.is_dialog_open ==> layer_of(s, e, false) == Layer::Shell,
        s.dialog_approval_state.is_dialog_open ==> layer_of(s, e, false) == Layer::Normal,
{
}

/// A first escape in the bar decides nothing, and a second one rejects everything: no call is run,
/// none counts as approved, and the first call of the message is refused.
pub proof fn law_second_escape_rejects_all(
    pre: AppState,
    post: AppState,
    sent: Outbox,
    out: Outbox,
)
    requires
        in_approval_bar(pre, post, InputEvent::HandleEsc, sent, out),
    ensures
        out.output@ == sent.output@,
        !pre.dialog_approval_state.approval_bar.esc_pending ==> {
            &&& out == sent
            &&& post.dialog_approval_state.approval_bar.esc_pending
            &&& post.dialog_approval_state.approval_bar.actions@
                == pre.dialog_approval_state.approval_bar.actions@
        },
        pre.dialog_approval_state.approval_bar.esc_pending ==> {
            &&& post.dialog_approval_state.message_approved_tools@.len() == 0
            &&& post.dialog_approval_state.approval_bar.actions@.len() == 0
            &&& pre.dialog_approval_state.message_tool_calls is Some
                && pre.dialog_approval_state.message_tool_calls->0@.len() > 0 && sent.input@.len()
                < sent.input_room ==> {
                &&& out.input@.len() == sent.input@.len() + 1
                &&& out.input@.last() matches InputEvent::HandleReject(t, stop, color)
                &&& t is Some
                &&& t->0@ == "Tool call rejected"@
                &&& stop
                &&& color is None
            }
        },
{
    if pre.dialog_approval_state.approval_bar.esc_pending {
        let mid = choose|mid: AppState| #[trigger]
            all_set(pre, mid, ApprovalStatus::Rejected) && bar_decisions_done(mid, post, sent, out);
        crate::approval_bar::law_set_all(
            pre.dialog_approval_state.approval_bar.actions@,
            ApprovalStatus::Rejected,
        );
        let approved = crate::approval_bar::calls_with(
            mid.dialog_approval_state.approval_bar.actions@,
            ApprovalStatus::Approved,
        );
        assert(approved.len() == 0);
        assert(crate::models::call_views(approved).len() == 0);
        match pre.dialog_approval_state.message_tool_calls {
            None => {},
            Some(calls) => {
                let (a, b) = choose|a: AppState, b: AppState| #[trigger]
                    bar_decided(mid, a, calls@) && (if calls@.len() > 0 {
                        first_refused(
                            a,
                            b,
                            calls@[0],
                            is_approved(a.dialog_approval_state.message_approved_tools@, calls@[0]),
                            sent,
                            out,
                        )
                    } else {
                        b == a && out == sent
                    }) && #[trigger] bar_left(b, post);
                assert(a.dialog_approval_state.message_approved_tools@ == approved);
            },
        }
    }
}

/// What is typed in front of a shell is what the shell gets: a character as it is, and the other
/// keys as a terminal sends them.
pub proof fn law_keys_reach_the_shell(
    pre: AppState,
    post: AppState,
    e: InputEvent,
    enter: Seq<char>,
    sent: Outbox,
    out: Outbox,
)
    requires
        in_shell(pre, post, e, enter, sent, out),
        pre.shell_popup_state.active_shell_command is Some,
    ensures
        out.output@ == sent.output@,
        e is InputChanged || e is InputSubmitted || e is Up || e is Down || e is Tab
            || e is AttemptQuit ==> {
            &&& out.effects@.len() == sent.effects@.len() + 1
            &&& out.effects@.last() is ShellInput
        },
        e matches InputEvent::InputChanged(c) ==> out.effects@.last()->ShellInput_0@ == seq![c],
        e is InputSubmitted ==> out.effects@.last()->ShellInput_0@ == enter,
        e is Up ==> out.effects@.last()->ShellInput_0@ == "\x1b[A"@,
        e is Down ==> out.effects@.last()->ShellInput_0@ == "\x1b[B"@,
        e is Tab ==> out.effects@.last()->ShellInput_0@ == "\t"@,
        e is AttemptQuit ==> out.effects@.last()->ShellInput_0@ == "\x03"@,
        e is ScrollUp || e is ScrollDown || e is PageUp || e is PageDown ==> out == sent,
{
}

/// The keys of the questions: escape cancels, enter goes on, up and down move the place, left and
/// right the page, and a space chooses where the user's own words are not written.
pub proof fn law_keys_of_the_questions(
    pre: AppState,
    post: AppState,
    e: InputEvent,
    sent: Outbox,
    out: Outbox,
)
    requires
        in_ask_user(pre, post, e, sent, out),
    ensures
        e is HandleEsc ==> cancelled(pre, post, sent, out),
        e is InputSubmitted ==> confirmed(pre, post, sent, out),
        e is Up ==> gone_up(pre, post) && out == sent,
        e is Down ==> gone_down(pre, post) && out == sent,
        e is CursorRight ==> stepped(pre, post, tab_right(pre.ask_user_state@)) && out == sent,
        e is CursorLeft ==> stepped(pre, post, tab_left(pre.ask_user_state@)) && out == sent,
        e == InputEvent::InputChanged(' ') && !pre.ask_user_state@.on_custom() ==> selected(
            pre,
            post,
            sent,
            out,
        ),
        pre.ask_user_state@.on_custom() ==> {
            &&& e matches InputEvent::InputChanged(c) ==> words_changed(
                pre,
                post,
                pre.ask_user_state@.custom.push(c),
            ) && out == sent
        },
{
}

/// Of a plan that is there, `u` makes the backend plan on with it, `n` puts it away first, and escape
/// tells the backend nothing.
pub proof fn law_plan_prompt(
    pre: AppState,
    post: AppState,
    e: InputEvent,
    sent: Outbox,
    out: Outbox,
)
    requires
        in_plan_prompt(pre, post, e, sent, out),
        pre.plan_mode_state.existing_prompt is Some,
    ensures
        e == InputEvent::InputChanged('u') || e == InputEvent::InputChanged('n') ==> {
            &&& post.plan_mode_state.existing_prompt is None
            &&& sent.output@.len() < sent.output_room ==> out.output@.len() == sent.output@.len()
                + 1 && out.output@.last() is PlanModeActivated
        },
        e == InputEvent::InputChanged('u') ==> out.effects@ == sent.effects@,
        e == InputEvent::InputChanged('n') ==> out.effects@.len() == sent.effects@.len() + 1
            && out.effects@.last() is ArchivePlan,
        e is HandleEsc ==> out == sent && post.plan_mode_state.existing_prompt is None,
{
}

} // verus!
