//! The switchers for profiles and rulebooks, the command palette, the collapsed messages and the
//! side panel.

use std::collections::HashMap;
use std::collections::HashSet;
use vstd::prelude::*;
use crate::app::AppState;
use crate::app::clear_text;
use crate::app::is_empty;
use crate::changeset::Changeset;
use crate::changeset::SidePanelSection;
use crate::changeset::live_count;
use crate::collections::TextSet;
use crate::dialog::emptied;
use crate::events::InputEvent;
use crate::events::OutputEvent;
use crate::events::Outbox;
use crate::geometry::Rect;
use crate::helper_block::is_info;
use crate::helper_block::welcome;
use crate::helper_block::welcome_messages;
use crate::message::Message;
use crate::message::MessageContent;
use crate::message::pushed;
use crate::models::copy_text;
use crate::models::text_of;
use crate::navigation::Measures;
use crate::navigation::less;
use crate::navigation::minus;
use crate::navigation::session_found;
use crate::style::Color;
use crate::style::Style;
use crate::style::Tone;
use crate::text::contains;
use crate::text::decimal;
use crate::text::holds_text;
use crate::text::lower_text;
use crate::text::same_text;
use crate::text::texts;
use crate::text::to_decimal;
use crate::types::CommandPaletteState;
use crate::types::DialogApprovalState;
use crate::types::FileChangesPopupState;
use crate::types::InputState;
use crate::types::ListRuleBook;
use crate::types::MessageInteractionState;
use crate::types::MessagesScrollingState;
use crate::types::ProfileSwitcherState;
use crate::types::RulebookSwitcherState;
use crate::types::SelectionState;
use crate::types::SessionInfo;
use crate::types::SessionToolCallsState;
use crate::types::SessionsState;
use crate::types::ShellPopupState;
use crate::types::ShortcutsPanelState;
use crate::types::ShortcutsPopupMode;
use crate::types::SidePanelState;
use crate::types::ToolCallState;
use crate::types::ToolCallStatus;

verus! {

/// Whether no popup opens: the profile is being switched, or calls wait for the user.
pub open spec fn popups_blocked(s: AppState) -> bool {
    s.profile_switcher_state.switching_in_progress || s.dialog_approval_state.is_dialog_open
        || s.dialog_approval_state.approval_bar.shown()
}

/// Whether no popup opens.
pub fn blocks_popups(state: &AppState) -> (r: bool)
    ensures
        r == popups_blocked(*state),
{
    state.profile_switcher_state.switching_in_progress
        || state.dialog_approval_state.is_dialog_open
        || state.dialog_approval_state.approval_bar.is_visible()
}

// ----- profiles -----

/// The state with another profile switcher.
pub open spec fn with_profiles(s: AppState, p: ProfileSwitcherState) -> AppState {
    AppState { profile_switcher_state: p, ..s }
}

/// Where the text is in the list; at its start where it is not there.
pub open spec fn profile_place(v: Seq<Seq<char>>, name: Seq<char>, k: int) -> int
    decreases v.len() - k,
{
    if k < 0 || k >= v.len() {
        0
    } else if v[k] == name {
        k
    } else {
        profile_place(v, name, k + 1)
    }
}

fn find_profile(v: &Vec<String>, name: &str) -> (k: usize)
    ensures
        k == profile_place(texts(v@), name@, 0),
{
    let ghost all = texts(v@);
    let mut k: usize = 0;
    while k < v.len()
        invariant
            k <= v@.len(),
            all == texts(v@),
            all.len() == v@.len(),
            profile_place(all, name@, 0) == profile_place(all, name@, k as int),
        decreases v@.len() - k,
    {
        assert(all[k as int] == v@[k as int]@);
        if same_text(v[k].as_str(), name) {
            return k;
        }
        k += 1;
    }
    0
}

/// What opening the profile switcher does: the current profile is selected.
pub open spec fn profiles_shown(s: AppState) -> AppState {
    let p = s.profile_switcher_state;
    if popups_blocked(s) {
        s
    } else {
        with_profiles(
            s,
            ProfileSwitcherState {
                show_profile_switcher: true,
                selected_index: profile_place(
                    texts(p.available_profiles@),
                    p.current_profile_name@,
                    0,
                ) as usize,
                ..p
            },
        )
    }
}

/// Opens the profile switcher.
pub fn handle_show_profile_switcher(state: &mut AppState)
    ensures
        *final(state) == profiles_shown(*old(state)),
{
    if blocks_popups(state) {
        return;
    }
    let k: usize = find_profile(
        &state.profile_switcher_state.available_profiles,
        state.profile_switcher_state.current_profile_name.as_str(),
    );
    state.profile_switcher_state.show_profile_switcher = true;
    state.profile_switcher_state.selected_index = k;
}

/// What choosing a profile does: another one is asked for; for the current one the switcher closes.
pub open spec fn profile_chosen(pre: AppState, post: AppState, sent: Outbox, out: Outbox) -> bool {
    let p = pre.profile_switcher_state;
    if !p.switching_in_progress && p.show_profile_switcher && p.selected_index
        < p.available_profiles@.len() {
        let name = p.available_profiles@[p.selected_index as int]@;
        if name == p.current_profile_name@ {
            post == with_profiles(pre, ProfileSwitcherState { show_profile_switcher: false, ..p })
                && out == sent
        } else {
            post == pre && sent.outputs(
                out,
                |e: OutputEvent| e matches OutputEvent::RequestProfileSwitch(t) && t@ == name,
            )
        }
    } else {
        post == pre && out == sent
    }
}

/// Chooses the selected profile.
pub fn handle_profile_switcher_select(state: &mut AppState, out: &mut Outbox)
    ensures
        profile_chosen(*old(state), *final(state), *old(out), *final(out)),
{
    let k: usize = state.profile_switcher_state.selected_index;
    if !state.profile_switcher_state.switching_in_progress
        && state.profile_switcher_state.show_profile_switcher && k
        < state.profile_switcher_state.available_profiles.len() {
        let name: String = state.profile_switcher_state.available_profiles[k].clone();
        if same_text(name.as_str(), state.profile_switcher_state.current_profile_name.as_str()) {
            state.profile_switcher_state.show_profile_switcher = false;
        } else {
            let _sent: bool = out.send_output(OutputEvent::RequestProfileSwitch(name));
        }
    }
}

/// Closes the profile switcher.
pub fn handle_profile_switcher_cancel(state: &mut AppState)
    ensures
        *final(state) == with_profiles(
            *old(state),
            ProfileSwitcherState {
                show_profile_switcher: false,
                ..old(state).profile_switcher_state
            },
        ),
{
    state.profile_switcher_state.show_profile_switcher = false;
}

/// Takes over the profiles that there are. The current one is known already.
pub fn handle_profiles_loaded(
    state: &mut AppState,
    profiles: Vec<String>,
    _current_profile: String,
)
    ensures
        *final(state) == with_profiles(
            *old(state),
            ProfileSwitcherState {
                available_profiles: profiles,
                ..old(state).profile_switcher_state
            },
        ),
{
    state.profile_switcher_state.available_profiles = profiles;
}

/// A line of information is the only new message.
pub open spec fn info_pushed(
    pre: MessagesScrollingState,
    post: MessagesScrollingState,
    text: Seq<char>,
    style: Option<Style>,
) -> bool {
    &&& post == (MessagesScrollingState { messages: post.messages, ..pre })
    &&& pushed(pre.messages@, post.messages@, |c: MessageContent| is_info(c, text, style))
}

/// Puts a line of information behind the other messages.
pub fn push_info(m: &mut MessagesScrollingState, text: String, style: Option<Style>)
    ensures
        info_pushed(*old(m), *final(m), text@, style),
{
    m.messages.push(Message::new(MessageContent::Info(text, style)));
    assert(m.messages@.drop_last() =~= old(m).messages@);
}

/// What is said while the profile is switched.
pub open spec fn switching_text(profile: Seq<char>) -> Seq<char> {
    "🔄 Switching to profile: "@ + profile
}

/// The state while the profile is switched.
pub open spec fn switch_requested(pre: AppState, post: AppState, profile: Seq<char>) -> bool {
    let q = post.profile_switcher_state;
    &&& post == (AppState {
        profile_switcher_state: ProfileSwitcherState {
            switching_in_progress: true,
            show_profile_switcher: false,
            selected_index: 0,
            switch_status_message: q.switch_status_message,
            ..pre.profile_switcher_state
        },
        messages_scrolling_state: post.messages_scrolling_state,
        ..pre
    })
    &&& text_of(q.switch_status_message) == Some(switching_text(profile))
    &&& info_pushed(
        pre.messages_scrolling_state,
        post.messages_scrolling_state,
        switching_text(profile),
        None,
    )
}

fn start_switch(p: &mut ProfileSwitcherState, text: String)
    ensures
        *final(p) == (ProfileSwitcherState {
            switching_in_progress: true,
            show_profile_switcher: false,
            selected_index: 0,
            switch_status_message: Some(text),
            ..*old(p)
        }),
{
    p.switching_in_progress = true;
    p.show_profile_switcher = false;
    p.selected_index = 0;
    p.switch_status_message = Some(text);
}

/// The profile is being switched.
pub fn handle_profile_switch_requested(state: &mut AppState, profile: String)
    ensures
        switch_requested(*old(state), *final(state), profile@),
{
    let mut text: String = "🔄 Switching to profile: ".to_owned();
    text.push_str(profile.as_str());
    start_switch(&mut state.profile_switcher_state, text.clone());
    push_info(&mut state.messages_scrolling_state, text, None);
}

/// The state after the switch to another profile made progress.
pub open spec fn switch_progressed(pre: AppState, post: AppState, message: String) -> bool {
    &&& post == (AppState {
        profile_switcher_state: ProfileSwitcherState {
            switch_status_message: Some(message),
            ..pre.profile_switcher_state
        },
        messages_scrolling_state: post.messages_scrolling_state,
        ..pre
    })
    &&& info_pushed(
        pre.messages_scrolling_state,
        post.messages_scrolling_state,
        message@,
        None,
    )
}

/// The switch to another profile made progress.
pub fn handle_profile_switch_progress(state: &mut AppState, message: String)
    ensures
        switch_progressed(*old(state), *final(state), message),
{
    state.profile_switcher_state.switch_status_message = Some(message.clone());
    push_info(&mut state.messages_scrolling_state, message, None);
}

/// The statuses in another profile: none is left.
pub open spec fn all_calls_dropped(t: SessionToolCallsState) -> bool {
    &&& t.session_tool_calls_queue@ == Map::<Seq<char>, ToolCallStatus>::empty()
    &&& t.tool_call_execution_order@.len() == 0
    &&& t.last_message_tool_calls@.len() == 0
}

fn drop_all_calls(s: &mut SessionToolCallsState)
    ensures
        all_calls_dropped(*final(s)),
{
    s.session_tool_calls_queue.clear();
    s.tool_call_execution_order.clear();
    s.last_message_tool_calls.clear();
}

/// The tools in another profile: nothing of them is known, and nothing is tried again.
pub open spec fn tools_forgotten(t: ToolCallState, u: ToolCallState) -> bool {
    &&& u == (ToolCallState {
        completed_tool_calls: u.completed_tool_calls,
        streaming_tool_results: u.streaming_tool_results,
        retry_attempts: 0,
        last_user_message_for_retry: None,
        is_retrying: false,
        ..t
    })
    &&& u.completed_tool_calls@ == Set::<u128>::empty()
    &&& u.streaming_tool_results@ == Map::<u128, String>::empty()
}

fn forget_tools(t: &mut ToolCallState)
    ensures
        tools_forgotten(*old(t), *final(t)),
{
    broadcast use vstd::std_specs::hash::group_hash_axioms;

    t.completed_tool_calls = HashSet::new();
    t.streaming_tool_results = HashMap::new();
    t.retry_attempts = 0;
    t.last_user_message_for_retry = None;
    t.is_retrying = false;
}

/// The shell in another profile.
pub open spec fn shell_forgotten(p: ShellPopupState) -> ShellPopupState {
    ShellPopupState {
        active_shell_command: None,
        shell_tool_calls: None,
        is_visible: false,
        is_expanded: false,
        waiting_for_shell_input: false,
        active_shell_command_output: None,
        is_tool_call_shell_command: false,
        ondemand_shell_mode: false,
        ..p
    }
}

fn forget_shell(p: &mut ShellPopupState)
    ensures
        *final(p) == shell_forgotten(*old(p)),
{
    p.active_shell_command = None;
    p.shell_tool_calls = None;
    p.is_visible = false;
    p.is_expanded = false;
    p.waiting_for_shell_input = false;
    p.active_shell_command_output = None;
    p.is_tool_call_shell_command = false;
    p.ondemand_shell_mode = false;
}

/// The dialog in another profile.
pub open spec fn dialog_forgotten(d: DialogApprovalState, e: DialogApprovalState) -> bool {
    &&& e == (DialogApprovalState {
        message_tool_calls: None,
        message_approved_tools: e.message_approved_tools,
        message_rejected_tools: e.message_rejected_tools,
        is_dialog_open: false,
        dialog_command: None,
        show_shortcuts: false,
        approval_bar: e.approval_bar,
        ..d
    })
    &&& e.message_approved_tools@.len() == 0
    &&& e.message_rejected_tools@.len() == 0
    &&& e.approval_bar.empty()
}

fn forget_dialog(d: &mut DialogApprovalState)
    ensures
        dialog_forgotten(*old(d), *final(d)),
{
    d.message_tool_calls = None;
    d.message_approved_tools.clear();
    d.message_rejected_tools.clear();
    d.is_dialog_open = false;
    d.dialog_command = None;
    d.show_shortcuts = false;
    d.approval_bar.clear();
}

/// The profile switcher after the switch.
pub open spec fn switch_done(p: ProfileSwitcherState, profile: String) -> ProfileSwitcherState {
    ProfileSwitcherState {
        show_profile_switcher: false,
        selected_index: 0,
        current_profile_name: profile,
        switching_in_progress: false,
        switch_status_message: None,
        ..p
    }
}

fn finish_switch(p: &mut ProfileSwitcherState, profile: String)
    ensures
        *final(p) == switch_done(*old(p), profile),
{
    p.show_profile_switcher = false;
    p.selected_index = 0;
    p.current_profile_name = profile;
    p.switching_in_progress = false;
    p.switch_status_message = None;
}

/// What the user is greeted with in another profile.
pub open spec fn profile_welcome(s: AppState, profile: Seq<char>, cwd: Seq<char>) -> Seq<
    spec_fn(MessageContent) -> bool,
> {
    seq![
        |c: MessageContent|
            is_info(
                c,
                "✅ Successfully switched to profile: "@ + profile,
                Some(Style::plain().fg(Color::Theme(Tone::Success))),
            ),
    ] + welcome(
        s.configuration_state.latest_version,
        cwd,
        s.terminal_ui_state.mouse_capture_enabled,
    )
}

/// The conversation in another profile: it starts anew, and the view follows its end.
pub open spec fn conversation_renewed(
    m: MessagesScrollingState,
    n: MessagesScrollingState,
    greeting: Seq<spec_fn(MessageContent) -> bool>,
) -> bool {
    &&& n == (MessagesScrollingState {
        messages: n.messages,
        has_user_messages: false,
        scroll: 0,
        scroll_to_bottom: true,
        stay_at_bottom: true,
        show_collapsed_messages: false,
        lines_stale: true,
        ..m
    })
    &&& crate::helper_block::new_messages(n.messages@, greeting)
}

fn renew_conversation(m: &mut MessagesScrollingState, messages: Vec<Message>)
    ensures
        *final(m) == (MessagesScrollingState {
            messages,
            has_user_messages: false,
            scroll: 0,
            scroll_to_bottom: true,
            stay_at_bottom: true,
            show_collapsed_messages: false,
            lines_stale: true,
            ..*old(m)
        }),
{
    m.messages = messages;
    m.has_user_messages = false;
    m.scroll = 0;
    m.scroll_to_bottom = true;
    m.stay_at_bottom = true;
    m.show_collapsed_messages = false;
    m.lines_stale = true;
}

fn greet(state: &AppState, profile: &str, cwd: &str) -> (r: Vec<Message>)
    ensures
        crate::helper_block::new_messages(r@, profile_welcome(*state, profile@, cwd@)),
{
    let mut text: String = "✅ Successfully switched to profile: ".to_owned();
    text.push_str(profile);
    let mut r: Vec<Message> = Vec::new();
    r.push(
        Message::new(
            MessageContent::Info(text, Some(Style::plain().fg(Color::Theme(Tone::Success)))),
        ),
    );
    let ghost first = r@[0];
    let latest: Option<String> = copy_text(&state.configuration_state.latest_version);
    let mut rest: Vec<Message> = welcome_messages(latest, state, cwd);
    let ghost tail = rest@;
    r.append(&mut rest);
    proof {
        let ps = profile_welcome(*state, profile@, cwd@);
        let ws = welcome(
            state.configuration_state.latest_version,
            cwd@,
            state.terminal_ui_state.mouse_capture_enabled,
        );
        assert(r@ =~= seq![first] + tail);
        assert forall|i: int| 0 <= i < ps.len() implies crate::message::new_message(
            r@[i],
            #[trigger] ps[i],
        ) by {
            if i > 0 {
                assert(ps[i] == ws[i - 1]);
                assert(r@[i] == tail[i - 1]);
            }
        }
    }
    r
}

/// The state after the profile was switched: everything of the one before is gone.
pub open spec fn switch_completed(pre: AppState, post: AppState, profile: String, cwd: Seq<char>)
    -> bool {
    &&& post == (AppState {
        session_tool_calls_state: post.session_tool_calls_state,
        tool_call_state: post.tool_call_state,
        shell_popup_state: shell_forgotten(pre.shell_popup_state),
        dialog_approval_state: post.dialog_approval_state,
        messages_scrolling_state: post.messages_scrolling_state,
        input_state: InputState {
            filtered_files: post.input_state.filtered_files,
            ..pre.input_state
        },
        side_panel_state: post.side_panel_state,
        profile_switcher_state: switch_done(pre.profile_switcher_state, profile),
        ..pre
    })
    &&& all_calls_dropped(post.session_tool_calls_state)
    &&& tools_forgotten(pre.tool_call_state, post.tool_call_state)
    &&& dialog_forgotten(pre.dialog_approval_state, post.dialog_approval_state)
    &&& post.input_state.filtered_files@.len() == 0
    &&& crate::submit::panel_reset(pre.side_panel_state, post.side_panel_state)
    &&& conversation_renewed(
        pre.messages_scrolling_state,
        post.messages_scrolling_state,
        profile_welcome(pre, profile@, cwd),
    )
}

fn forget_session(state: &mut AppState)
    ensures
        *final(state) == (AppState {
            session_tool_calls_state: final(state).session_tool_calls_state,
            tool_call_state: final(state).tool_call_state,
            shell_popup_state: shell_forgotten(old(state).shell_popup_state),
            dialog_approval_state: final(state).dialog_approval_state,
            ..*old(state)
        }),
        all_calls_dropped(final(state).session_tool_calls_state),
        tools_forgotten(old(state).tool_call_state, final(state).tool_call_state),
        dialog_forgotten(old(state).dialog_approval_state, final(state).dialog_approval_state),
{
    drop_all_calls(&mut state.session_tool_calls_state);
    forget_tools(&mut state.tool_call_state);
    forget_shell(&mut state.shell_popup_state);
    forget_dialog(&mut state.dialog_approval_state);
}

/// The profile was switched.
pub fn handle_profile_switch_complete(state: &mut AppState, profile: String, cwd: &str)
    ensures
        switch_completed(*old(state), *final(state), profile, cwd@),
{
    let messages: Vec<Message> = greet(state, profile.as_str(), cwd);
    forget_session(state);
    state.input_state.filtered_files.clear();
    crate::submit::reset_panel(&mut state.side_panel_state);
    finish_switch(&mut state.profile_switcher_state, profile);
    renew_conversation(&mut state.messages_scrolling_state, messages);
}

/// The state after the profile could not be switched.
pub open spec fn switch_failed(pre: AppState, post: AppState, error: Seq<char>) -> bool {
    let m = pre.messages_scrolling_state;
    let n = post.messages_scrolling_state;
    &&& post == (AppState {
        profile_switcher_state: ProfileSwitcherState {
            switching_in_progress: false,
            switch_status_message: None,
            show_profile_switcher: false,
            ..pre.profile_switcher_state
        },
        messages_scrolling_state: n,
        ..pre
    })
    &&& exists|mid: MessagesScrollingState| #[trigger]
        info_pushed(
            m,
            mid,
            "❌ Profile switch failed: "@ + error,
            Some(Style::plain().fg(Color::Theme(Tone::Danger))),
        ) && info_pushed(
            mid,
            n,
            "Staying in current profile. Press ctrl+p to try again."@,
            None,
        )
}

fn give_switch_up(p: &mut ProfileSwitcherState)
    ensures
        *final(p) == (ProfileSwitcherState {
            switching_in_progress: false,
            switch_status_message: None,
            show_profile_switcher: false,
            ..*old(p)
        }),
{
    p.switching_in_progress = false;
    p.switch_status_message = None;
    p.show_profile_switcher = false;
}

/// The profile could not be switched.
pub fn handle_profile_switch_failed(state: &mut AppState, error: String)
    ensures
        switch_failed(*old(state), *final(state), error@),
{
    let mut text: String = "❌ Profile switch failed: ".to_owned();
    text.push_str(error.as_str());
    give_switch_up(&mut state.profile_switcher_state);
    push_info(
        &mut state.messages_scrolling_state,
        text,
        Some(Style::plain().fg(Color::Theme(Tone::Danger))),
    );
    let ghost mid = state.messages_scrolling_state;
    assert(info_pushed(
        old(state).messages_scrolling_state,
        mid,
        "❌ Profile switch failed: "@ + error@,
        Some(Style::plain().fg(Color::Theme(Tone::Danger))),
    ));
    push_info(
        &mut state.messages_scrolling_state,
        "Staying in current profile. Press ctrl+p to try again.".to_owned(),
        None,
    );
}

// ----- rulebooks -----

/// A rulebook as texts.
pub struct RulebookView {
    pub uri: Seq<char>,
    pub description: Seq<char>,
    pub tags: Seq<Seq<char>>,
}

impl View for ListRuleBook {
    type V = RulebookView;

    open spec fn view(&self) -> RulebookView {
        RulebookView {
            uri: self.uri@,
            description: self.description@,
            tags: texts(self.tags@),
        }
    }
}

/// Rulebooks as texts.
pub open spec fn rulebook_views(v: Seq<ListRuleBook>) -> Seq<RulebookView> {
    v.map_values(|r: ListRuleBook| r@)
}

/// Whether one of the tags holds the text, whatever the case.
pub open spec fn tag_found(tags: Seq<Seq<char>>, wanted: Seq<char>) -> bool {
    exists|i: int| 0 <= i < tags.len() && holds_text(lower_text(#[trigger] tags[i]), wanted)
}

/// Whether a rulebook is shown for the search: its address, its description or one of its tags
/// holds it, whatever the case.
pub open spec fn rulebook_found(r: RulebookView, search: Seq<char>) -> bool {
    let wanted = lower_text(search);
    ||| holds_text(lower_text(r.uri), wanted)
    ||| holds_text(lower_text(r.description), wanted)
    ||| tag_found(r.tags, wanted)
}

fn finds_rulebook(r: &ListRuleBook, search: &str) -> (found: bool)
    ensures
        found == rulebook_found(r@, search@),
{
    let wanted: String = search.to_lowercase();
    let uri: String = r.uri.as_str().to_lowercase();
    let description: String = r.description.as_str().to_lowercase();
    if contains(uri.as_str(), wanted.as_str()) || contains(description.as_str(), wanted.as_str()) {
        return true;
    }
    let ghost tags = texts(r.tags@);
    let mut i: usize = 0;
    while i < r.tags.len()
        invariant
            i <= r.tags@.len(),
            tags == texts(r.tags@),
            tags == r@.tags,
            wanted@ == lower_text(search@),
            forall|j: int| 0 <= j < i ==> !holds_text(lower_text(#[trigger] tags[j]), wanted@),
        decreases r.tags@.len() - i,
    {
        assert(tags[i as int] == r.tags@[i as int]@);
        let tag: String = r.tags[i].as_str().to_lowercase();
        if contains(tag.as_str(), wanted.as_str()) {
            return true;
        }
        i += 1;
    }
    false
}

/// The rulebooks that are shown for the search, in their order.
pub open spec fn rulebooks_found(v: Seq<RulebookView>, search: Seq<char>) -> Seq<RulebookView>
    decreases v.len(),
{
    if v.len() == 0 {
        Seq::empty()
    } else if rulebook_found(v.last(), search) {
        rulebooks_found(v.drop_last(), search).push(v.last())
    } else {
        rulebooks_found(v.drop_last(), search)
    }
}

/// The rulebooks that are shown: all of them without a search.
pub open spec fn shown_rulebooks(r: RulebookSwitcherState) -> Seq<RulebookView> {
    let books = rulebook_views(r.available_rulebooks@);
    if r.rulebook_search_input@.len() == 0 {
        books
    } else {
        rulebooks_found(books, r.rulebook_search_input@)
    }
}

fn copy_rulebook(r: &ListRuleBook) -> (c: ListRuleBook)
    ensures
        c@ == r@,
{
    let tags: Vec<String> = r.tags.clone();
    assert(texts(tags@) =~= texts(r.tags@));
    ListRuleBook { uri: r.uri.clone(), description: r.description.clone(), tags }
}

fn list_rulebooks(r: &RulebookSwitcherState) -> (v: Vec<ListRuleBook>)
    ensures
        rulebook_views(v@) == shown_rulebooks(*r),
{
    let all: bool = is_empty(r.rulebook_search_input.as_str());
    let ghost books = rulebook_views(r.available_rulebooks@);
    let ghost search = r.rulebook_search_input@;
    let mut v: Vec<ListRuleBook> = Vec::new();
    let mut i: usize = 0;
    assert(books.take(0) =~= Seq::<RulebookView>::empty());
    assert(rulebook_views(v@) =~= Seq::<RulebookView>::empty());
    while i < r.available_rulebooks.len()
        invariant
            i <= r.available_rulebooks@.len(),
            all == (search.len() == 0),
            books == rulebook_views(r.available_rulebooks@),
            search == r.rulebook_search_input@,
            all ==> rulebook_views(v@) == books.take(i as int),
            !all ==> rulebook_views(v@) == rulebooks_found(books.take(i as int), search),
        decreases r.available_rulebooks@.len() - i,
    {
        assert(books.take(i + 1).drop_last() =~= books.take(i as int));
        assert(books.take(i + 1).last() == books[i as int]);
        assert(books.take(i + 1) =~= books.take(i as int).push(books[i as int]));
        if all || finds_rulebook(
            &r.available_rulebooks[i],
            r.rulebook_search_input.as_str(),
        ) {
            let ghost before = v@;
            v.push(copy_rulebook(&r.available_rulebooks[i]));
            assert(rulebook_views(v@) =~= rulebook_views(before).push(books[i as int]));
        }
        i += 1;
    }
    assert(books.take(i as int) =~= books);
    v
}

/// The switcher with the rulebooks that are shown for its search.
pub open spec fn rulebooks_filtered(r: RulebookSwitcherState, q: RulebookSwitcherState) -> bool {
    &&& q == (RulebookSwitcherState {
        filtered_rulebooks: q.filtered_rulebooks,
        is_selected: if r.is_selected < q.filtered_rulebooks@.len() {
            r.is_selected
        } else {
            0
        },
        ..r
    })
    &&& rulebook_views(q.filtered_rulebooks@) == shown_rulebooks(r)
}

fn filter_rulebooks(r: &mut RulebookSwitcherState)
    ensures
        rulebooks_filtered(*old(r), *final(r)),
{
    let v: Vec<ListRuleBook> = list_rulebooks(r);
    let n: usize = v.len();
    r.filtered_rulebooks = v;
    if r.is_selected >= n {
        r.is_selected = 0;
    }
}

/// The state with another rulebook switcher.
pub open spec fn with_rulebooks(s: AppState, r: RulebookSwitcherState) -> AppState {
    AppState { rulebook_switcher_state: r, ..s }
}

/// The rulebook switcher when it opens.
pub open spec fn rulebooks_opened(r: RulebookSwitcherState, q: RulebookSwitcherState) -> bool {
    exists|mid: RulebookSwitcherState|
        mid == (RulebookSwitcherState {
            show_rulebook_switcher: true,
            is_selected: 0,
            rulebook_search_input: mid.rulebook_search_input,
            ..r
        }) && mid.rulebook_search_input@.len() == 0 && #[trigger] rulebooks_filtered(mid, q)
}

fn open_rulebooks(r: &mut RulebookSwitcherState)
    ensures
        rulebooks_opened(*old(r), *final(r)),
{
    r.show_rulebook_switcher = true;
    r.is_selected = 0;
    r.rulebook_search_input = String::new();
    let ghost mid = *r;
    filter_rulebooks(r);
    assert(rulebooks_filtered(mid, *r));
}

/// What opening the rulebook switcher does: the input is emptied, and the backend is asked which
/// rulebooks are in use.
pub open spec fn rulebooks_shown(pre: AppState, post: AppState, sent: Outbox, out: Outbox) -> bool {
    if popups_blocked(pre) {
        post == pre && out == sent
    } else {
        &&& post == (AppState {
            rulebook_switcher_state: post.rulebook_switcher_state,
            ..pre.with_text(post.input_state.text_area)
        })
        &&& post.input_state.text_area@ == emptied(pre.input_state.text_area@)
        &&& rulebooks_opened(pre.rulebook_switcher_state, post.rulebook_switcher_state)
        &&& sent.outputs(out, |e: OutputEvent| e is RequestCurrentRulebooks)
    }
}

/// Opens the rulebook switcher.
pub fn handle_show_rulebook_switcher(state: &mut AppState, out: &mut Outbox)
    ensures
        rulebooks_shown(*old(state), *final(state), *old(out), *final(out)),
{
    if blocks_popups(state) {
        return;
    }
    clear_text(&mut state.input_state.text_area);
    let _sent: bool = out.send_output(OutputEvent::RequestCurrentRulebooks);
    open_rulebooks(&mut state.rulebook_switcher_state);
}

/// The switcher after the rulebook under the cursor was selected, or was no longer.
pub open spec fn rulebook_toggled(r: RulebookSwitcherState, q: RulebookSwitcherState) -> bool {
    if r.show_rulebook_switcher && r.is_selected < r.filtered_rulebooks@.len() {
        let uri = r.filtered_rulebooks@[r.is_selected as int].uri@;
        &&& q == (RulebookSwitcherState { selected_rulebooks: q.selected_rulebooks, ..r })
        &&& q.selected_rulebooks@ == (if r.selected_rulebooks@.contains(uri) {
            r.selected_rulebooks@.remove(uri)
        } else {
            r.selected_rulebooks@.insert(uri)
        })
    } else {
        q == r
    }
}

fn toggle_rulebook(r: &mut RulebookSwitcherState)
    ensures
        rulebook_toggled(*old(r), *final(r)),
{
    let k: usize = r.is_selected;
    if r.show_rulebook_switcher && k < r.filtered_rulebooks.len() {
        let uri: String = r.filtered_rulebooks[k].uri.clone();
        if r.selected_rulebooks.contains(uri.as_str()) {
            r.selected_rulebooks.remove(uri.as_str());
        } else {
            r.selected_rulebooks.insert(uri);
        }
    }
}

/// Selects the rulebook under the cursor, or takes it out of the selection.
pub fn handle_rulebook_switcher_select(state: &mut AppState)
    ensures
        *final(state) == with_rulebooks(*old(state), final(state).rulebook_switcher_state),
        rulebook_toggled(old(state).rulebook_switcher_state, final(state).rulebook_switcher_state),
{
    toggle_rulebook(&mut state.rulebook_switcher_state);
}

/// Selects the rulebook under the cursor, or takes it out of the selection.
pub fn handle_rulebook_switcher_toggle(state: &mut AppState)
    ensures
        *final(state) == with_rulebooks(*old(state), final(state).rulebook_switcher_state),
        rulebook_toggled(old(state).rulebook_switcher_state, final(state).rulebook_switcher_state),
{
    toggle_rulebook(&mut state.rulebook_switcher_state);
}

/// Selecting a rulebook twice changes nothing.
pub proof fn law_rulebook_toggled_twice(
    a: RulebookSwitcherState,
    b: RulebookSwitcherState,
    c: RulebookSwitcherState,
)
    requires
        rulebook_toggled(a, b),
        rulebook_toggled(b, c),
    ensures
        c.selected_rulebooks@ == a.selected_rulebooks@,
{
    if a.show_rulebook_switcher && a.is_selected < a.filtered_rulebooks@.len() {
        let uri = a.filtered_rulebooks@[a.is_selected as int].uri@;
        assert(c.selected_rulebooks@ =~= a.selected_rulebooks@);
    }
}

/// Closes the rulebook switcher.
pub fn handle_rulebook_switcher_cancel(state: &mut AppState)
    ensures
        *final(state) == with_rulebooks(
            *old(state),
            RulebookSwitcherState {
                show_rulebook_switcher: false,
                ..old(state).rulebook_switcher_state
            },
        ),
{
    state.rulebook_switcher_state.show_rulebook_switcher = false;
}

/// What is said when rulebooks were chosen.
pub open spec fn rulebooks_text(n: nat) -> Seq<char> {
    "Selected "@ + decimal(n) + " rulebook(s). They will be applied to your next message."@
}

/// What choosing rulebooks does: the selection goes to the backend.
pub open spec fn rulebooks_confirmed(pre: AppState, post: AppState, sent: Outbox, out: Outbox)
    -> bool {
    let r = pre.rulebook_switcher_state;
    if r.show_rulebook_switcher {
        &&& post == (AppState {
            rulebook_switcher_state: RulebookSwitcherState { show_rulebook_switcher: false, ..r },
            messages_scrolling_state: post.messages_scrolling_state,
            ..pre
        })
        &&& sent.outputs(
            out,
            |e: OutputEvent|
                e matches OutputEvent::RequestRulebookUpdate(v) && texts(v@).to_set()
                    == r.selected_rulebooks@ && texts(v@).no_duplicates(),
        )
        &&& info_pushed(
            pre.messages_scrolling_state,
            post.messages_scrolling_state,
            rulebooks_text(r.selected_rulebooks@.len()),
            Some(Style::plain().fg(Color::Theme(Tone::Success))),
        )
    } else {
        post == pre && out == sent
    }
}

/// Chooses the selected rulebooks.
pub fn handle_rulebook_switcher_confirm(state: &mut AppState, out: &mut Outbox)
    ensures
        rulebooks_confirmed(*old(state), *final(state), *old(out), *final(out)),
{
    if !state.rulebook_switcher_state.show_rulebook_switcher {
        return;
    }
    let uris: Vec<String> = state.rulebook_switcher_state.selected_rulebooks.to_vec();
    let n: usize = state.rulebook_switcher_state.selected_rulebooks.len();
    let _sent: bool = out.send_output(OutputEvent::RequestRulebookUpdate(uris));
    state.rulebook_switcher_state.show_rulebook_switcher = false;
    let mut text: String = "Selected ".to_owned();
    text.push_str(to_decimal(n as u64).as_str());
    text.push_str(" rulebook(s). They will be applied to your next message.");
    push_info(
        &mut state.messages_scrolling_state,
        text,
        Some(Style::plain().fg(Color::Theme(Tone::Success))),
    );
}

/// The addresses of rulebooks.
pub open spec fn uris(v: Seq<ListRuleBook>) -> Seq<Seq<char>> {
    v.map_values(|r: ListRuleBook| r.uri@)
}

/// The switcher with exactly the given addresses selected.
pub open spec fn selection_set(
    pre: AppState,
    post: AppState,
    selected: Set<Seq<char>>,
) -> bool {
    let q = post.rulebook_switcher_state;
    &&& post == with_rulebooks(
        pre,
        RulebookSwitcherState {
            selected_rulebooks: q.selected_rulebooks,
            ..pre.rulebook_switcher_state
        },
    )
    &&& q.selected_rulebooks@ == selected
}

/// Selects all rulebooks that are shown, and no other.
pub fn handle_rulebook_switcher_select_all(state: &mut AppState)
    ensures
        old(state).rulebook_switcher_state.show_rulebook_switcher ==> selection_set(
            *old(state),
            *final(state),
            uris(old(state).rulebook_switcher_state.filtered_rulebooks@).to_set(),
        ),
        !old(state).rulebook_switcher_state.show_rulebook_switcher ==> *final(state) == *old(state),
{
    if !state.rulebook_switcher_state.show_rulebook_switcher {
        return;
    }
    let mut v: Vec<String> = Vec::new();
    let ghost books = state.rulebook_switcher_state.filtered_rulebooks@;
    let mut i: usize = 0;
    assert(texts(v@) =~= uris(books).take(0));
    while i < state.rulebook_switcher_state.filtered_rulebooks.len()
        invariant
            i <= state.rulebook_switcher_state.filtered_rulebooks@.len(),
            books == state.rulebook_switcher_state.filtered_rulebooks@,
            *state == *old(state),
            texts(v@) == uris(books).take(i as int),
        decreases state.rulebook_switcher_state.filtered_rulebooks@.len() - i,
    {
        let uri: String = state.rulebook_switcher_state.filtered_rulebooks[i].uri.clone();
        proof {
            crate::text::lemma_texts_push(v@, uri);
            assert(uris(books).take(i + 1) =~= uris(books).take(i as int).push(
                uris(books)[i as int],
            ));
        }
        v.push(uri);
        i += 1;
    }
    assert(uris(books).take(i as int) =~= uris(books));
    state.rulebook_switcher_state.selected_rulebooks = TextSet::from_vec(v);
}

/// Takes all rulebooks out of the selection.
pub fn handle_rulebook_switcher_deselect_all(state: &mut AppState)
    ensures
        old(state).rulebook_switcher_state.show_rulebook_switcher ==> selection_set(
            *old(state),
            *final(state),
            Set::empty(),
        ),
        !old(state).rulebook_switcher_state.show_rulebook_switcher ==> *final(state) == *old(state),
{
    if state.rulebook_switcher_state.show_rulebook_switcher {
        state.rulebook_switcher_state.selected_rulebooks.clear();
    }
}

/// The switcher after its search was edited.
pub open spec fn rulebook_search_edited(
    r: RulebookSwitcherState,
    q: RulebookSwitcherState,
    search: Seq<char>,
) -> bool {
    exists|mid: RulebookSwitcherState|
        mid == (RulebookSwitcherState {
            rulebook_search_input: mid.rulebook_search_input,
            ..r
        }) && mid.rulebook_search_input@ == search && #[trigger] rulebooks_filtered(mid, q)
}

/// What a character does in the search for rulebooks.
pub open spec fn rulebook_search_typed(pre: AppState, post: AppState, c: char) -> bool {
    let r = pre.rulebook_switcher_state;
    if r.show_rulebook_switcher {
        &&& post == with_rulebooks(pre, post.rulebook_switcher_state)
        &&& rulebook_search_edited(
            r,
            post.rulebook_switcher_state,
            r.rulebook_search_input@.push(c),
        )
    } else {
        post == pre
    }
}

/// A character was typed into the search for rulebooks.
pub fn handle_rulebook_search_input_changed(state: &mut AppState, c: char)
    ensures
        rulebook_search_typed(*old(state), *final(state), c),
{
    if state.rulebook_switcher_state.show_rulebook_switcher {
        state.rulebook_switcher_state.rulebook_search_input.push(c);
        let ghost mid = state.rulebook_switcher_state;
        filter_rulebooks(&mut state.rulebook_switcher_state);
        assert(rulebooks_filtered(mid, state.rulebook_switcher_state));
    }
}

/// What the key that deletes does in the search for rulebooks.
pub open spec fn rulebook_search_deleted(pre: AppState, post: AppState) -> bool {
    let r = pre.rulebook_switcher_state;
    if r.show_rulebook_switcher && r.rulebook_search_input@.len() > 0 {
        &&& post == with_rulebooks(pre, post.rulebook_switcher_state)
        &&& rulebook_search_edited(
            r,
            post.rulebook_switcher_state,
            r.rulebook_search_input@.drop_last(),
        )
    } else {
        post == pre
    }
}

/// The last character of the search for rulebooks was deleted.
pub fn handle_rulebook_search_backspace(state: &mut AppState)
    ensures
        rulebook_search_deleted(*old(state), *final(state)),
{
    if state.rulebook_switcher_state.show_rulebook_switcher && !is_empty(
        state.rulebook_switcher_state.rulebook_search_input.as_str(),
    ) {
        let _c: Option<char> = state.rulebook_switcher_state.rulebook_search_input.pop();
        let ghost mid = state.rulebook_switcher_state;
        filter_rulebooks(&mut state.rulebook_switcher_state);
        assert(rulebooks_filtered(mid, state.rulebook_switcher_state));
    }
}

/// The state after the rulebooks came.
pub open spec fn rulebooks_taken(pre: AppState, post: AppState, rulebooks: Vec<ListRuleBook>)
    -> bool {
    &&& post == with_rulebooks(pre, post.rulebook_switcher_state)
    &&& rulebooks_filtered(
        RulebookSwitcherState { available_rulebooks: rulebooks, ..pre.rulebook_switcher_state },
        post.rulebook_switcher_state,
    )
}

/// Takes over the rulebooks that there are.
pub fn handle_rulebooks_loaded(state: &mut AppState, rulebooks: Vec<ListRuleBook>)
    ensures
        rulebooks_taken(*old(state), *final(state), rulebooks),
{
    state.rulebook_switcher_state.available_rulebooks = rulebooks;
    filter_rulebooks(&mut state.rulebook_switcher_state);
}

/// Takes over which rulebooks are in use.
pub fn handle_current_rulebooks_loaded(state: &mut AppState, current_uris: Vec<String>)
    ensures
        selection_set(*old(state), *final(state), texts(current_uris@).to_set()),
{
    state.rulebook_switcher_state.selected_rulebooks = TextSet::from_vec(current_uris);
}

// ----- the command palette -----

/// The palette when it opens.
pub open spec fn palette_fresh(p: CommandPaletteState, q: CommandPaletteState) -> bool {
    &&& q == (CommandPaletteState { is_selected: 0, scroll: 0, search: q.search, ..p })
    &&& q.search@.len() == 0
}

/// What opening the command palette does.
pub open spec fn palette_shown(pre: AppState, post: AppState) -> bool {
    if popups_blocked(pre) {
        post == pre
    } else {
        &&& post == (AppState {
            shortcuts_panel_state: ShortcutsPanelState {
                is_visible: true,
                mode: ShortcutsPopupMode::Commands,
                ..pre.shortcuts_panel_state
            },
            command_palette_state: post.command_palette_state,
            ..pre
        })
        &&& palette_fresh(pre.command_palette_state, post.command_palette_state)
    }
}

fn renew_palette(p: &mut CommandPaletteState)
    ensures
        palette_fresh(*old(p), *final(p)),
{
    p.is_selected = 0;
    p.scroll = 0;
    p.search = String::new();
}

/// Opens the command palette.
pub fn handle_show_command_palette(state: &mut AppState)
    ensures
        palette_shown(*old(state), *final(state)),
{
    if blocks_popups(state) {
        return;
    }
    state.shortcuts_panel_state.is_visible = true;
    state.shortcuts_panel_state.mode = ShortcutsPopupMode::Commands;
    renew_palette(&mut state.command_palette_state);
}

/// The first session from the `k`th on that is shown for the search.
pub open spec fn first_session(v: Seq<SessionInfo>, search: Seq<char>, k: int) -> Option<int>
    decreases v.len() - k,
{
    if k < 0 || k >= v.len() {
        None
    } else if session_found(v[k], search) {
        Some(k)
    } else {
        first_session(v, search, k + 1)
    }
}

fn find_first_session(v: &Vec<SessionInfo>, search: &str) -> (r: Option<usize>)
    ensures
        match r {
            Some(k) => first_session(v@, search@, 0) == Some(k as int),
            None => first_session(v@, search@, 0) is None,
        },
{
    let all: bool = is_empty(search);
    let wanted: String = search.to_lowercase();
    let mut k: usize = 0;
    while k < v.len()
        invariant
            k <= v@.len(),
            all == (search@.len() == 0),
            wanted@ == lower_text(search@),
            first_session(v@, search@, 0) == first_session(v@, search@, k as int),
        decreases v@.len() - k,
    {
        let title: String = v[k].title.as_str().to_lowercase();
        if all || contains(title.as_str(), wanted.as_str()) {
            return Some(k);
        }
        k += 1;
    }
    None
}

/// The state after the search of the palette became another one: the first entry is selected, and
/// among the sessions the first that is shown.
pub open spec fn palette_search_set(pre: AppState, post: AppState, search: Seq<char>) -> bool {
    let p = pre.command_palette_state;
    let q = post.command_palette_state;
    let s = pre.sessions_state;
    &&& post == (AppState {
        command_palette_state: CommandPaletteState { search: q.search, is_selected: 0, ..p },
        sessions_state: SessionsState {
            session_selected: match first_session(s.sessions@, search, 0) {
                Some(k) => if pre.shortcuts_panel_state.mode == ShortcutsPopupMode::Sessions {
                    k as usize
                } else {
                    s.session_selected
                },
                None => s.session_selected,
            },
            ..s
        },
        ..pre
    })
    &&& q.search@ == search
}

fn reselect(state: &mut AppState)
    requires
        old(state).command_palette_state.is_selected == 0,
    ensures
        palette_search_set(*old(state), *final(state), old(state).command_palette_state.search@),
{
    if state.shortcuts_panel_state.mode == ShortcutsPopupMode::Sessions {
        match find_first_session(
            &state.sessions_state.sessions,
            state.command_palette_state.search.as_str(),
        ) {
            Some(k) => {
                state.sessions_state.session_selected = k;
            },
            None => {},
        }
    }
}

/// What a character does in the palette's search.
pub open spec fn palette_typed(pre: AppState, post: AppState, c: char) -> bool {
    if pre.shortcuts_panel_state.is_visible {
        palette_search_set(pre, post, pre.command_palette_state.search@.push(c))
    } else {
        post == pre
    }
}

/// A character was typed into the palette's search.
pub fn handle_command_palette_search_input_changed(state: &mut AppState, c: char)
    ensures
        palette_typed(*old(state), *final(state), c),
{
    if state.shortcuts_panel_state.is_visible {
        state.command_palette_state.search.push(c);
        state.command_palette_state.is_selected = 0;
        reselect(state);
    }
}

/// What the key that deletes does in the palette's search.
pub open spec fn palette_deleted(pre: AppState, post: AppState) -> bool {
    let search = pre.command_palette_state.search@;
    if pre.shortcuts_panel_state.is_visible && search.len() > 0 {
        palette_search_set(pre, post, search.drop_last())
    } else {
        post == pre
    }
}

/// The last character of the palette's search was deleted.
pub fn handle_command_palette_search_backspace(state: &mut AppState)
    ensures
        palette_deleted(*old(state), *final(state)),
{
    if state.shortcuts_panel_state.is_visible && !is_empty(
        state.command_palette_state.search.as_str(),
    ) {
        let _c: Option<char> = state.command_palette_state.search.pop();
        state.command_palette_state.is_selected = 0;
        reselect(state);
    }
}

/// What opening the list of shortcuts does.
pub open spec fn shortcuts_shown(s: AppState) -> AppState {
    if popups_blocked(s) || s.profile_switcher_state.show_profile_switcher {
        s
    } else {
        AppState {
            shortcuts_panel_state: ShortcutsPanelState {
                is_visible: true,
                mode: ShortcutsPopupMode::Shortcuts,
                scroll: 0,
            },
            ..s
        }
    }
}

/// Opens the list of shortcuts.
pub fn handle_show_shortcuts(state: &mut AppState)
    ensures
        *final(state) == shortcuts_shown(*old(state)),
{
    if blocks_popups(state) || state.profile_switcher_state.show_profile_switcher {
        return;
    }
    state.shortcuts_panel_state = ShortcutsPanelState {
        is_visible: true,
        mode: ShortcutsPopupMode::Shortcuts,
        scroll: 0,
    };
}

/// Closes the list of shortcuts.
pub fn handle_shortcuts_cancel(state: &mut AppState)
    ensures
        *final(state) == crate::submit::shortcuts_closed(*old(state)),
{
    state.shortcuts_panel_state.is_visible = false;
}

/// Shows the shortcuts below the input, or hides them.
pub fn handle_toggle_more_shortcuts(state: &mut AppState)
    ensures
        *final(state) == (AppState {
            dialog_approval_state: DialogApprovalState {
                show_shortcuts: !old(state).dialog_approval_state.show_shortcuts,
                ..old(state).dialog_approval_state
            },
            ..*old(state)
        }),
{
    state.dialog_approval_state.show_shortcuts = !state.dialog_approval_state.show_shortcuts;
}

// ----- collapsed messages -----

/// How many messages are collapsed.
pub open spec fn collapsed_count(messages: Seq<Message>) -> nat
    decreases messages.len(),
{
    if messages.len() == 0 {
        0
    } else if messages.last().is_collapsed == Some(true) {
        collapsed_count(messages.drop_last()) + 1
    } else {
        collapsed_count(messages.drop_last())
    }
}

/// How many messages are collapsed.
pub fn count_collapsed(messages: &Vec<Message>) -> (n: usize)
    ensures
        n == collapsed_count(messages@),
        n <= messages@.len(),
{
    let mut n: usize = 0;
    let mut i: usize = 0;
    assert(messages@.take(0) =~= Seq::<Message>::empty());
    while i < messages.len()
        invariant
            i <= messages@.len(),
            n <= i,
            n == collapsed_count(messages@.take(i as int)),
        decreases messages@.len() - i,
    {
        assert(messages@.take(i + 1).drop_last() =~= messages@.take(i as int));
        assert(messages@.take(i + 1).last() == messages@[i as int]);
        let collapsed: bool = match messages[i].is_collapsed {
            Some(b) => b,
            None => false,
        };
        if collapsed {
            n += 1;
        }
        i += 1;
    }
    assert(messages@.take(i as int) =~= messages@);
    n
}

/// The conversation after the collapsed messages were shown or hidden: the last of them is in view.
pub open spec fn collapsed_toggled(m: MessagesScrollingState, f: Measures)
    -> MessagesScrollingState {
    let n = collapsed_count(m.messages@);
    if m.show_collapsed_messages {
        MessagesScrollingState { show_collapsed_messages: false, ..m }
    } else {
        MessagesScrollingState {
            show_collapsed_messages: true,
            collapsed_messages_selected: less(n as int, 1) as usize,
            collapsed_messages_scroll: if n > 0 {
                less(f.collapsed_lines as int, f.height as int) as usize
            } else {
                0
            },
            ..m
        }
    }
}

fn toggle_collapsed(m: &mut MessagesScrollingState, f: &Measures)
    ensures
        *final(m) == collapsed_toggled(*old(m), *f),
{
    if m.show_collapsed_messages {
        m.show_collapsed_messages = false;
    } else {
        let n: usize = count_collapsed(&m.messages);
        m.show_collapsed_messages = true;
        m.collapsed_messages_selected = minus(n, 1);
        m.collapsed_messages_scroll = if n > 0 {
            minus(f.collapsed_lines, f.height)
        } else {
            0
        };
    }
}

/// Shows or hides the collapsed messages; nothing stays selected.
pub fn handle_toggle_collapsed_messages(state: &mut AppState, f: &Measures)
    ensures
        *final(state) == (AppState {
            message_interaction_state: MessageInteractionState {
                selection: SelectionState::none(),
                ..old(state).message_interaction_state
            },
            messages_scrolling_state: collapsed_toggled(old(state).messages_scrolling_state, *f),
            ..*old(state)
        }),
{
    state.message_interaction_state.selection = SelectionState::none();
    toggle_collapsed(&mut state.messages_scrolling_state, f);
}

// ----- the side panel -----

/// The state with another side panel.
pub open spec fn with_panel(s: AppState, p: SidePanelState) -> AppState {
    AppState { side_panel_state: p, ..s }
}

/// What showing or hiding the side panel does: when it comes up, its tasks are read again.
pub open spec fn panel_toggled(pre: AppState, post: AppState, sent: Outbox, out: Outbox) -> bool {
    let p = pre.side_panel_state;
    &&& post == with_panel(pre, SidePanelState { is_shown: !p.is_shown, ..p })
    &&& if p.is_shown {
        out == sent
    } else {
        sent.inputs(out, |e: InputEvent| e is RefreshBoardTasks)
    }
}

/// Shows or hides the side panel.
pub fn handle_toggle_side_panel(state: &mut AppState, out: &mut Outbox)
    ensures
        panel_toggled(*old(state), *final(state), *old(out), *final(out)),
{
    let shown: bool = !state.side_panel_state.is_shown;
    state.side_panel_state.is_shown = shown;
    if shown {
        let _sent: bool = out.send_input(InputEvent::RefreshBoardTasks);
    }
}

/// The state after the focus went to the next section of the side panel.
pub open spec fn section_passed(s: AppState) -> AppState {
    let p = s.side_panel_state;
    if p.is_shown {
        with_panel(s, SidePanelState { focused_section: p.focused_section.next(), ..p })
    } else {
        s
    }
}

/// The focus goes to the next section of the side panel.
pub fn handle_side_panel_next_section(state: &mut AppState)
    ensures
        *final(state) == section_passed(*old(state)),
{
    if state.side_panel_state.is_shown {
        state.side_panel_state.focused_section = state.side_panel_state.focused_section.next();
    }
}

/// The side panel with a section folded or unfolded.
pub open spec fn section_folded(p: SidePanelState, section: SidePanelSection) -> SidePanelState {
    SidePanelState { collapsed_sections: p.collapsed_sections.toggled(section), ..p }
}

/// Folds or unfolds the section that has the focus.
pub fn handle_side_panel_toggle_section(state: &mut AppState)
    ensures
        *final(state) == (if old(state).side_panel_state.is_shown {
            with_panel(
                *old(state),
                section_folded(
                    old(state).side_panel_state,
                    old(state).side_panel_state.focused_section,
                ),
            )
        } else {
            *old(state)
        }),
{
    if state.side_panel_state.is_shown {
        let section: SidePanelSection = state.side_panel_state.focused_section;
        state.side_panel_state.collapsed_sections.toggle(section);
    }
}

/// The first section from the `k`th on whose area holds the cell.
pub open spec fn section_at(areas: Seq<(SidePanelSection, Rect)>, col: u16, row: u16, k: int)
    -> Option<int>
    decreases areas.len() - k,
{
    if k < 0 || k >= areas.len() {
        None
    } else if areas[k].1.holds(col, row) {
        Some(k)
    } else {
        section_at(areas, col, row, k + 1)
    }
}

fn find_section(areas: &Vec<(SidePanelSection, Rect)>, col: u16, row: u16) -> (r: Option<usize>)
    ensures
        match r {
            Some(k) => section_at(areas@, col, row, 0) == Some(k as int) && k < areas@.len()
                && areas@[k as int].1.holds(col, row),
            None => section_at(areas@, col, row, 0) is None,
        },
{
    let mut k: usize = 0;
    while k < areas.len()
        invariant
            k <= areas@.len(),
            section_at(areas@, col, row, 0) == section_at(areas@, col, row, k as int),
        decreases areas@.len() - k,
    {
        if areas[k].1.contains(col, row) {
            return Some(k);
        }
        k += 1;
    }
    None
}

/// What a click in the side panel does: the section gets the focus and is folded or unfolded; a
/// click below the head of the changed files opens their popup.
pub open spec fn panel_clicked(pre: AppState, post: AppState, col: u16, row: u16) -> bool {
    let p = pre.side_panel_state;
    match section_at(p.areas@, col, row, 0) {
        Some(k) => if p.is_shown {
            let section = p.areas@[k].0;
            let focused = SidePanelState { focused_section: section, ..p };
            if section == SidePanelSection::Changeset && row > p.areas@[k].1.y {
                if p.collapsed_sections.flag(section) {
                    post == with_panel(pre, focused)
                } else {
                    file_changes_shown(with_panel(pre, focused), post)
                }
            } else {
                post == with_panel(pre, section_folded(focused, section))
            }
        } else {
            post == pre
        },
        None => post == pre,
    }
}

/// A click in the side panel.
pub fn handle_side_panel_mouse_click(state: &mut AppState, col: u16, row: u16)
    ensures
        panel_clicked(*old(state), *final(state), col, row),
{
    if !state.side_panel_state.is_shown {
        return;
    }
    match find_section(&state.side_panel_state.areas, col, row) {
        Some(k) => {
            let section: SidePanelSection = state.side_panel_state.areas[k].0;
            let top: u16 = state.side_panel_state.areas[k].1.y;
            state.side_panel_state.focused_section = section;
            if section == SidePanelSection::Changeset && row > top {
                if !state.side_panel_state.collapsed_sections.get(section) {
                    handle_show_file_changes_popup(state);
                }
            } else {
                state.side_panel_state.collapsed_sections.toggle(section);
            }
        },
        None => {},
    }
}

// ----- the popup with the changed files -----

/// The popup with the changed files when it opens.
pub open spec fn file_changes_fresh(p: FileChangesPopupState, q: FileChangesPopupState) -> bool {
    &&& q == (FileChangesPopupState {
        is_visible: true,
        is_selected: 0,
        scroll: 0,
        search: q.search,
    })
    &&& q.search@.len() == 0
}

/// What opening the popup with the changed files does: it needs a changed file.
pub open spec fn file_changes_shown(pre: AppState, post: AppState) -> bool {
    if popups_blocked(pre) || live_count(pre.side_panel_state.changeset.files@) == 0 {
        post == pre
    } else {
        &&& post == (AppState { file_changes_popup_state: post.file_changes_popup_state, ..pre })
        &&& file_changes_fresh(pre.file_changes_popup_state, post.file_changes_popup_state)
    }
}

/// Opens the popup with the changed files.
pub fn handle_show_file_changes_popup(state: &mut AppState)
    ensures
        file_changes_shown(*old(state), *final(state)),
{
    if blocks_popups(state) || state.side_panel_state.changeset.file_count() == 0 {
        return;
    }
    state.file_changes_popup_state = FileChangesPopupState {
        is_visible: true,
        is_selected: 0,
        scroll: 0,
        search: String::new(),
    };
}

// ----- what holds of the popups -----

/// Choosing another profile asks the backend for exactly that one, and changes nothing yet; choosing
/// the current one only closes the switcher. Nothing is asked for while a switch is under way.
pub proof fn law_chosen_profile_is_asked_for(
    pre: AppState,
    post: AppState,
    sent: Outbox,
    out: Outbox,
)
    requires
        profile_chosen(pre, post, sent, out),
    ensures
        ({
            let p = pre.profile_switcher_state;
            &&& p.switching_in_progress || !p.show_profile_switcher ==> post == pre && out == sent
            &&& !p.switching_in_progress && p.show_profile_switcher && p.selected_index
                < p.available_profiles@.len() ==> {
                let name = p.available_profiles@[p.selected_index as int]@;
                &&& name == p.current_profile_name@ ==> out == sent
                    && !post.profile_switcher_state.show_profile_switcher
                &&& name != p.current_profile_name@ ==> post == pre && (sent.output@.len()
                    < sent.output_room ==> {
                    &&& out.output@.len() == sent.output@.len() + 1
                    &&& out.output@.drop_last() == sent.output@
                    &&& out.output@.last() matches OutputEvent::RequestProfileSwitch(t)
                    &&& t@ == name
                })
            }
        }),
{
}

/// Once another profile is in use, nothing is left of what was going on under the one before.
pub proof fn law_profile_starts_afresh(
    pre: AppState,
    post: AppState,
    profile: String,
    cwd: Seq<char>,
)
    requires
        switch_completed(pre, post, profile, cwd),
    ensures
        post.profile_switcher_state.current_profile_name == profile,
        !post.profile_switcher_state.switching_in_progress,
        !post.profile_switcher_state.show_profile_switcher,
        post.session_tool_calls_state.session_tool_calls_queue@.dom().is_empty(),
        post.session_tool_calls_state.tool_call_execution_order@.len() == 0,
        post.session_tool_calls_state.last_message_tool_calls@.len() == 0,
        post.tool_call_state.completed_tool_calls@.is_empty(),
        post.tool_call_state.streaming_tool_results@.dom().is_empty(),
        post.shell_popup_state.active_shell_command is None,
        post.shell_popup_state.shell_tool_calls is None,
        !post.shell_popup_state.is_visible,
        post.dialog_approval_state.message_tool_calls is None,
        post.dialog_approval_state.message_approved_tools@.len() == 0,
        post.dialog_approval_state.message_rejected_tools@.len() == 0,
        !post.dialog_approval_state.is_dialog_open,
        post.dialog_approval_state.approval_bar.actions@.len() == 0,
        post.side_panel_state.changeset.files@.len() == 0,
        post.messages_scrolling_state.scroll == 0,
        post.messages_scrolling_state.stay_at_bottom,
{
}

/// A switch that failed leaves everything but the switcher and the conversation as it was.
pub proof fn law_failed_switch_keeps_the_profile(pre: AppState, post: AppState, error: Seq<char>)
    requires
        switch_failed(pre, post, error),
    ensures
        !post.profile_switcher_state.switching_in_progress,
        post.profile_switcher_state.current_profile_name
            == pre.profile_switcher_state.current_profile_name,
        post.session_tool_calls_state == pre.session_tool_calls_state,
        post.dialog_approval_state == pre.dialog_approval_state,
        post.input_state == pre.input_state,
{
}

/// The rulebooks that a search shows: of two lists, those of the first and then those of the second.
/// A rulebook is shown where its address, its description or a tag holds what is searched for,
/// whatever the case.
pub proof fn law_rulebooks_found(
    a: Seq<RulebookView>,
    b: Seq<RulebookView>,
    x: RulebookView,
    search: Seq<char>,
)
    ensures
        rulebooks_found(a + b, search) == rulebooks_found(a, search) + rulebooks_found(b, search),
        holds_text(lower_text(x.uri), lower_text(search)) || holds_text(
            lower_text(x.description),
            lower_text(search),
        ) || (exists|i: int|
            0 <= i < x.tags.len() && holds_text(
                lower_text(#[trigger] x.tags[i]),
                lower_text(search),
            )) ==> rulebooks_found(seq![x], search) == seq![x],
        !(holds_text(lower_text(x.uri), lower_text(search)) || holds_text(
            lower_text(x.description),
            lower_text(search),
        ) || (exists|i: int|
            0 <= i < x.tags.len() && holds_text(
                lower_text(#[trigger] x.tags[i]),
                lower_text(search),
            ))) ==> rulebooks_found(seq![x], search).len() == 0,
    decreases b.len(),
{
    assert(seq![x].drop_last() =~= Seq::<RulebookView>::empty());
    assert(rulebooks_found(Seq::<RulebookView>::empty(), search)
        =~= Seq::<RulebookView>::empty());
    if b.len() == 0 {
        assert(a + b =~= a);
    } else {
        law_rulebooks_found(a, b.drop_last(), x, search);
        assert((a + b).drop_last() =~= a + b.drop_last());
        assert(rulebooks_found(a + b, search) =~= rulebooks_found(a, search) + rulebooks_found(
            b,
            search,
        ));
    }
}

/// Without a search all rulebooks are shown as they are.
pub proof fn law_all_rulebooks_shown(r: RulebookSwitcherState, q: RulebookSwitcherState, i: int)
    requires
        rulebooks_filtered(r, q),
        r.rulebook_search_input@.len() == 0,
        0 <= i < r.available_rulebooks@.len(),
    ensures
        q.filtered_rulebooks@.len() == r.available_rulebooks@.len(),
        q.filtered_rulebooks@[i]@ == r.available_rulebooks@[i]@,
        q.selected_rulebooks == r.selected_rulebooks,
{
    let a = rulebook_views(q.filtered_rulebooks@);
    let b = rulebook_views(r.available_rulebooks@);
    assert(a.len() == q.filtered_rulebooks@.len());
    assert(b.len() == r.available_rulebooks@.len());
    assert(a[i] == q.filtered_rulebooks@[i]@);
    assert(b[i] == r.available_rulebooks@[i]@);
}

/// Turning a rulebook on or off turns that one and no other.
pub proof fn law_rulebook_toggled(r: RulebookSwitcherState, q: RulebookSwitcherState, x: Seq<char>)
    requires
        rulebook_toggled(r, q),
        r.show_rulebook_switcher,
        r.is_selected < r.filtered_rulebooks@.len(),
    ensures
        x == r.filtered_rulebooks@[r.is_selected as int].uri@ ==> q.selected_rulebooks@.contains(x)
            == !r.selected_rulebooks@.contains(x),
        x != r.filtered_rulebooks@[r.is_selected as int].uri@ ==> q.selected_rulebooks@.contains(x)
            == r.selected_rulebooks@.contains(x),
{
}

/// The rulebooks that are chosen are exactly those that go to the backend, each of them once.
pub proof fn law_chosen_rulebooks_go_out(
    pre: AppState,
    post: AppState,
    sent: Outbox,
    out: Outbox,
    x: Seq<char>,
)
    requires
        rulebooks_confirmed(pre, post, sent, out),
        pre.rulebook_switcher_state.show_rulebook_switcher,
        sent.output@.len() < sent.output_room,
    ensures
        !post.rulebook_switcher_state.show_rulebook_switcher,
        post.rulebook_switcher_state.selected_rulebooks
            == pre.rulebook_switcher_state.selected_rulebooks,
        out.output@.len() == sent.output@.len() + 1,
        out.output@.drop_last() == sent.output@,
        ({
            &&& out.output@.last() matches OutputEvent::RequestRulebookUpdate(v)
            &&& pre.rulebook_switcher_state.selected_rulebooks@.contains(x) <==> texts(
                v@,
            ).contains(x)
            &&& texts(v@).no_duplicates()
        }),
{
    match out.output@.last() {
        OutputEvent::RequestRulebookUpdate(v) => {
            assert(texts(v@).to_set().contains(x) <==> texts(v@).contains(x));
        },
        _ => {},
    }
}

/// Only what says that it is collapsed counts as collapsed.
pub proof fn law_collapsed_count(a: Seq<Message>, b: Seq<Message>, m: Message)
    ensures
        collapsed_count(a + b) == collapsed_count(a) + collapsed_count(b),
        collapsed_count(seq![m]) == (if m.is_collapsed == Some(true) {
            1nat
        } else {
            0nat
        }),
    decreases b.len(),
{
    assert(seq![m].drop_last() =~= Seq::<Message>::empty());
    assert(collapsed_count(Seq::<Message>::empty()) == 0);
    if b.len() == 0 {
        assert(a + b =~= a);
    } else {
        law_collapsed_count(a, b.drop_last(), m);
        assert((a + b).drop_last() =~= a + b.drop_last());
    }
}

/// The side panel is shown where it was hidden and hidden where it was shown, and nothing else of it
/// changes; what it shows is read again when it is shown.
pub proof fn law_panel_is_toggled(pre: AppState, post: AppState, sent: Outbox, out: Outbox)
    requires
        panel_toggled(pre, post, sent, out),
    ensures
        post.side_panel_state.is_shown == !pre.side_panel_state.is_shown,
        post.side_panel_state.changeset == pre.side_panel_state.changeset,
        post.side_panel_state.todos == pre.side_panel_state.todos,
        pre.side_panel_state.is_shown ==> out == sent,
        !pre.side_panel_state.is_shown && sent.input@.len() < sent.input_room ==> out.input@.len()
            == sent.input@.len() + 1 && out.input@.last() is RefreshBoardTasks,
        out.output@ == sent.output@,
{
}

/// The popup with the changed files opens where there is any that is not undone, and nothing waits
/// for the user.
pub proof fn law_changed_files_are_shown(pre: AppState, post: AppState)
    requires
        file_changes_shown(pre, post),
    ensures
        pre.profile_switcher_state.switching_in_progress || pre.dialog_approval_state.is_dialog_open
            || pre.dialog_approval_state.approval_bar.actions@.len() > 0
            || crate::changeset::live_count(pre.side_panel_state.changeset.files@) == 0 ==> post
            == pre,
        !pre.profile_switcher_state.switching_in_progress
            && !pre.dialog_approval_state.is_dialog_open
            && pre.dialog_approval_state.approval_bar.actions@.len() == 0
            && crate::changeset::live_count(pre.side_panel_state.changeset.files@) > 0 ==> {
            &&& post.file_changes_popup_state.is_visible
            &&& post.file_changes_popup_state.search@.len() == 0
            &&& post.file_changes_popup_state.is_selected == 0
            &&& post.side_panel_state == pre.side_panel_state
        },
{
}

/// What is typed into the palette is added to its search, and its first entry is selected.
pub proof fn law_palette_is_searched(pre: AppState, post: AppState, c: char)
    requires
        palette_typed(pre, post, c),
    ensures
        !pre.shortcuts_panel_state.is_visible ==> post == pre,
        pre.shortcuts_panel_state.is_visible ==> {
            &&& post.command_palette_state.search@ == pre.command_palette_state.search@.push(c)
            &&& post.command_palette_state.is_selected == 0
            &&& post.input_state == pre.input_state
            &&& post.sessions_state.sessions == pre.sessions_state.sessions
        },
{
}


/// The profile switcher opens on the profile in use, unless something waits for the user.
pub proof fn law_profiles_are_shown(s: AppState, k: int)
    ensures
        s.profile_switcher_state.switching_in_progress || s.dialog_approval_state.is_dialog_open
            || s.dialog_approval_state.approval_bar.actions@.len() > 0 ==> profiles_shown(s) == s,
        !s.profile_switcher_state.switching_in_progress && !s.dialog_approval_state.is_dialog_open
            && s.dialog_approval_state.approval_bar.actions@.len() == 0 ==> {
            let p = s.profile_switcher_state;
            let q = profiles_shown(s).profile_switcher_state;
            &&& q.show_profile_switcher
            &&& q.available_profiles == p.available_profiles
            &&& 0 <= k < p.available_profiles@.len() && k <= usize::MAX
                && p.available_profiles@[k]@ == p.current_profile_name@ && (forall|j: int|
                0 <= j < k ==> (#[trigger] p.available_profiles@[j])@ != p.current_profile_name@)
                ==> q.selected_index == k
        },
{
    let p = s.profile_switcher_state;
    let v = texts(p.available_profiles@);
    assert(v.len() == p.available_profiles@.len());
    assert(forall|j: int| 0 <= j < v.len() ==> #[trigger] v[j] == p.available_profiles@[j]@);
    if 0 <= k < v.len() && v[k] == p.current_profile_name@ && (forall|j: int|
        0 <= j < k ==> #[trigger] v[j] != p.current_profile_name@) {
        lemma_profile_place(v, p.current_profile_name@, 0, k);
    }
}

proof fn lemma_profile_place(v: Seq<Seq<char>>, name: Seq<char>, i: int, k: int)
    requires
        0 <= i <= k < v.len(),
        v[k] == name,
        forall|j: int| i <= j < k ==> #[trigger] v[j] != name,
    ensures
        profile_place(v, name, i) == k,
    decreases k - i,
{
    if i < k {
        lemma_profile_place(v, name, i + 1, k);
    }
}

} // verus!
