//! The popup that offers what can be done with a message of the user.

use vstd::prelude::*;
use crate::app::AppState;
use crate::events::Effect;
use crate::events::Outbox;
use crate::message::Message;
use crate::message::find_message;
use crate::message::message_at;
use crate::navigation::less;
use crate::text::decimal;
use crate::text::to_decimal;
use crate::textarea::TextAreaView;
use crate::types::LineOwner;
use crate::types::MessageInteractionState;
use crate::types::MessageRevertState;
use crate::types::MessagesScrollingState;
use crate::types::SelectionState;
use crate::types::SidePanelState;
use crate::types::Toast;

verus! {

/// What can be done with a message of the user.
#[derive(Clone, Copy, Debug, PartialEq, Eq, Structural)]
pub enum MessageAction {
    CopyMessage,
    RevertToMessage,
}

/// How many things can be done.
pub const ACTIONS: usize = 2;

/// The action at the given place of the popup.
pub open spec fn action_at(k: usize) -> Option<MessageAction> {
    if k == 0 {
        Some(MessageAction::CopyMessage)
    } else if k == 1 {
        Some(MessageAction::RevertToMessage)
    } else {
        None
    }
}

/// The action at the given place of the popup.
pub fn get_action(k: usize) -> (r: Option<MessageAction>)
    ensures
        r == action_at(k),
{
    if k == 0 {
        Some(MessageAction::CopyMessage)
    } else if k == 1 {
        Some(MessageAction::RevertToMessage)
    } else {
        None
    }
}

/// The interaction without the popup; nothing stays selected.
pub open spec fn popup_gone(i: MessageInteractionState) -> MessageInteractionState {
    MessageInteractionState {
        show_message_action_popup: false,
        message_action_popup_selected: 0,
        message_action_popup_position: None,
        message_action_target_message_id: None,
        message_action_target_text: None,
        selection: SelectionState::none(),
        ..i
    }
}

/// The state without the popup.
pub open spec fn popup_closed(pre: AppState, post: AppState) -> bool {
    let t = post.input_state.text_area;
    &&& post == (AppState {
        message_interaction_state: popup_gone(pre.message_interaction_state),
        ..pre.with_text(t)
    })
    &&& t@ == (TextAreaView { selecting: false, ..pre.input_state.text_area@ })
}

fn drop_popup(i: &mut MessageInteractionState)
    ensures
        *final(i) == popup_gone(*old(i)),
{
    i.show_message_action_popup = false;
    i.message_action_popup_selected = 0;
    i.message_action_popup_position = None;
    i.message_action_target_message_id = None;
    i.message_action_target_text = None;
    i.selection = SelectionState::none();
}

/// Closes the popup.
pub fn handle_message_action_popup_close(state: &mut AppState)
    ensures
        popup_closed(*old(state), *final(state)),
{
    drop_popup(&mut state.message_interaction_state);
    state.input_state.text_area.set_selecting(false);
}

/// The place before or after a place of the popup, which is a ring.
pub open spec fn passed_action(k: usize, direction: i32) -> usize {
    if direction < 0 {
        if k > 0 {
            (k - 1) as usize
        } else {
            (ACTIONS - 1) as usize
        }
    } else {
        ((k + 1) % (ACTIONS as int)) as usize
    }
}

/// The state after the selection of the popup moved.
pub open spec fn action_passed(s: AppState, direction: i32) -> AppState {
    let i = s.message_interaction_state;
    AppState {
        message_interaction_state: MessageInteractionState {
            message_action_popup_selected: passed_action(
                i.message_action_popup_selected,
                direction,
            ),
            ..i
        },
        ..s
    }
}

/// Moves the selection of the popup.
pub fn handle_message_action_popup_navigate(state: &mut AppState, direction: i32)
    ensures
        *final(state) == action_passed(*old(state), direction),
{
    let k: usize = state.message_interaction_state.message_action_popup_selected;
    state.message_interaction_state.message_action_popup_selected = if direction < 0 {
        if k > 0 {
            k - 1
        } else {
            ACTIONS - 1
        }
    } else {
        (k % ACTIONS + 1) % ACTIONS
    };
}

/// Going down and then up comes back to a place of the popup, and stays in it.
pub proof fn law_passed_back(k: usize)
    requires
        k < ACTIONS,
    ensures
        passed_action(passed_action(k, 1), (0 - 1) as i32) == k,
        passed_action(k, 1) < ACTIONS,
        passed_action(k, (0 - 1) as i32) < ACTIONS,
{
}

/// The first entry from the `k`th on for a numbered message of the user.
pub open spec fn numbered_at(map: Seq<LineOwner>, id: u128, k: int) -> Option<int>
    decreases map.len() - k,
{
    if k < 0 || k >= map.len() {
        None
    } else if map[k].id == id && map[k].is_user && map[k].user_index > 0 {
        Some(k)
    } else {
        numbered_at(map, id, k + 1)
    }
}

/// Which message of the user it is, counted from 1.
pub open spec fn number_of(map: Seq<LineOwner>, id: u128) -> Option<usize> {
    match numbered_at(map, id, 0) {
        Some(k) => Some(map[k].user_index),
        None => None,
    }
}

fn find_number(map: &Vec<LineOwner>, id: u128) -> (r: Option<usize>)
    ensures
        r == number_of(map@, id),
        r is Some ==> r->0 > 0,
{
    let mut k: usize = 0;
    while k < map.len()
        invariant
            k <= map@.len(),
            numbered_at(map@, id, 0) == numbered_at(map@, id, k as int),
        decreases map@.len() - k,
    {
        if map[k].id == id && map[k].is_user && map[k].user_index > 0 {
            return Some(map[k].user_index);
        }
        k += 1;
    }
    None
}

/// The messages in front of the first with the identifier; all of them, where there is none.
pub open spec fn messages_before(messages: Seq<Message>, id: u128) -> Seq<Message> {
    match message_at(messages, id, 0) {
        Some(k) => messages.take(k),
        None => messages,
    }
}

/// The conversation cut off in front of a message.
pub open spec fn cut_off(m: MessagesScrollingState, n: MessagesScrollingState, id: u128) -> bool {
    &&& n == (MessagesScrollingState { messages: n.messages, lines_stale: true, ..m })
    &&& n.messages@ == messages_before(m.messages@, id)
}

fn cut(m: &mut MessagesScrollingState, id: u128)
    ensures
        cut_off(*old(m), *final(m), id),
{
    match find_message(&m.messages, id) {
        Some(k) => {
            m.messages.truncate(k);
            assert(m.messages@ =~= old(m).messages@.take(k as int));
        },
        None => {},
    }
    m.lines_stale = true;
}

/// The state after the conversation went back to the message that the user wrote as the `n`th: it
/// and everything behind it is gone, and what was changed since is to be undone.
pub open spec fn gone_back(
    pre: AppState,
    post: AppState,
    id: u128,
    n: usize,
    sent: Outbox,
    out: Outbox,
) -> bool {
    &&& post == (AppState {
        messages_scrolling_state: post.messages_scrolling_state,
        message_revert_state: MessageRevertState {
            pending_revert_index: Some(n),
            user_message_count: less(n as int, 1) as usize,
        },
        side_panel_state: SidePanelState {
            todos: post.side_panel_state.todos,
            ..pre.side_panel_state
        },
        ..pre
    })
    &&& post.side_panel_state.todos@.len() == 0
    &&& cut_off(pre.messages_scrolling_state, post.messages_scrolling_state, id)
    &&& sent.affects(out, |e: Effect| e == Effect::RevertSince(n))
}

fn go_back(state: &mut AppState, id: u128, n: usize, out: &mut Outbox)
    requires
        n > 0,
    ensures
        gone_back(*old(state), *final(state), id, n, *old(out), *final(out)),
{
    cut(&mut state.messages_scrolling_state, id);
    state.message_revert_state = MessageRevertState {
        pending_revert_index: Some(n),
        user_message_count: n - 1,
    };
    state.side_panel_state.todos.clear();
    out.ask(Effect::RevertSince(n));
}

/// The state with an error shown.
pub open spec fn error_shown(pre: AppState, post: AppState, text: Seq<char>) -> bool {
    &&& post == (AppState { toast: post.toast, ..pre })
    &&& post.toast matches Some(Toast::Error(t)) && t@ == text
}

/// What an action does.
pub open spec fn acted(
    pre: AppState,
    post: AppState,
    action: MessageAction,
    sent: Outbox,
    out: Outbox,
) -> bool {
    let i = pre.message_interaction_state;
    match action {
        MessageAction::CopyMessage => {
            &&& post == pre
            &&& match i.message_action_target_text {
                Some(text) => sent.affects(
                    out,
                    |e: Effect| e matches Effect::CopyToClipboard(t) && t@ == text@,
                ),
                None => out == sent,
            }
        },
        MessageAction::RevertToMessage => match i.message_action_target_message_id {
            Some(id) => match number_of(
                pre.messages_scrolling_state.line_to_message_map@,
                id,
            ) {
                Some(n) => gone_back(pre, post, id, n, sent, out),
                None => error_shown(pre, post, "Could not find message index"@) && out == sent,
            },
            None => post == pre && out == sent,
        },
    }
}

fn act(state: &mut AppState, action: MessageAction, out: &mut Outbox)
    ensures
        acted(*old(state), *final(state), action, *old(out), *final(out)),
{
    match action {
        MessageAction::CopyMessage => match &state.message_interaction_state.message_action_target_text {
            Some(text) => {
                out.ask(Effect::CopyToClipboard(text.clone()));
            },
            None => {},
        },
        MessageAction::RevertToMessage => match state.message_interaction_state.message_action_target_message_id {
            Some(id) => match find_number(
                &state.messages_scrolling_state.line_to_message_map,
                id,
            ) {
                Some(n) => {
                    go_back(state, id, n, out);
                },
                None => {
                    state.toast = Some(Toast::Error("Could not find message index".to_owned()));
                },
            },
            None => {},
        },
    }
}

/// What choosing the selected action does: it is done, and the popup closes.
pub open spec fn action_chosen(pre: AppState, post: AppState, sent: Outbox, out: Outbox) -> bool {
    match action_at(pre.message_interaction_state.message_action_popup_selected) {
        Some(a) => exists|mid: AppState| #[trigger]
            acted(pre, mid, a, sent, out) && popup_closed(mid, post),
        None => popup_closed(pre, post) && out == sent,
    }
}

/// Chooses the selected action.
pub fn handle_message_action_popup_execute(state: &mut AppState, out: &mut Outbox)
    ensures
        action_chosen(*old(state), *final(state), *old(out), *final(out)),
{
    match get_action(state.message_interaction_state.message_action_popup_selected) {
        Some(a) => {
            act(state, a, out);
            assert(acted(*old(state), *state, a, *old(out), *out));
        },
        None => {},
    }
    handle_message_action_popup_close(state);
}

/// What is shown of undoing what was changed since a message: how many files were undone and
/// deleted, or that it failed.
pub open spec fn back_text(outcome: Result<(usize, usize), String>) -> Seq<char> {
    match outcome {
        Ok((reverted, deleted)) => if reverted > 0 || deleted > 0 {
            "Reverted "@ + decimal(reverted as nat) + " file(s), deleted "@ + decimal(
                deleted as nat,
            ) + " created file(s)"@
        } else {
            "Reverted to message"@
        },
        Err(_) => "Reverted messages (file revert failed)"@,
    }
}

/// Takes over how undoing what was changed since a message went.
pub fn handle_reverted_since(state: &mut AppState, outcome: Result<(usize, usize), String>)
    ensures
        *final(state) == (AppState { toast: final(state).toast, ..*old(state) }),
        final(state).toast matches Some(Toast::Success(t)) && t@ == back_text(outcome),
{
    let text: String = match outcome {
        Ok((reverted, deleted)) => if reverted > 0 || deleted > 0 {
            let mut t: String = "Reverted ".to_owned();
            t.push_str(to_decimal(reverted as u64).as_str());
            t.push_str(" file(s), deleted ");
            t.push_str(to_decimal(deleted as u64).as_str());
            t.push_str(" created file(s)");
            t
        } else {
            "Reverted to message".to_owned()
        },
        Err(_) => "Reverted messages (file revert failed)".to_owned(),
    };
    state.toast = Some(Toast::Success(text));
}

/// After the conversation went back to a message, that message is no longer in it, and what is left
/// stands as it stood.
pub proof fn law_gone_back(
    pre: AppState,
    post: AppState,
    id: u128,
    n: usize,
    sent: Outbox,
    out: Outbox,
)
    requires
        gone_back(pre, post, id, n, sent, out),
    ensures
        post.messages_scrolling_state.messages@.len()
            <= pre.messages_scrolling_state.messages@.len(),
        forall|i: int|
            0 <= i < post.messages_scrolling_state.messages@.len() ==> {
                &&& #[trigger] post.messages_scrolling_state.messages@[i]
                    == pre.messages_scrolling_state.messages@[i]
                &&& post.messages_scrolling_state.messages@[i].id != id
            },
        n > 0 ==> post.message_revert_state.user_message_count == n - 1,
{
    lemma_first(pre.messages_scrolling_state.messages@, id, 0);
}

proof fn lemma_first(messages: Seq<Message>, id: u128, k: int)
    requires
        0 <= k,
    ensures
        match message_at(messages, id, k) {
            Some(at) => k <= at < messages.len() && forall|i: int|
                k <= i < at ==> (#[trigger] messages[i]).id != id,
            None => forall|i: int| k <= i < messages.len() ==> (#[trigger] messages[i]).id != id,
        },
    decreases messages.len() - k,
{
    if k < messages.len() && messages[k].id != id {
        lemma_first(messages, id, k + 1);
    }
}

/// Going back to a message leaves exactly what stood before it: neither the message nor anything
/// behind it stays, and everything before it does. What was changed since is to be undone, and the
/// next message says how far it went back.
pub proof fn law_back_to_a_message(
    pre: AppState,
    post: AppState,
    id: u128,
    n: usize,
    sent: Outbox,
    out: Outbox,
    k: int,
)
    requires
        gone_back(pre, post, id, n, sent, out),
        0 <= k < pre.messages_scrolling_state.messages@.len(),
        pre.messages_scrolling_state.messages@[k].id == id,
        forall|j: int|
            0 <= j < k ==> (#[trigger] pre.messages_scrolling_state.messages@[j]).id != id,
    ensures
        post.messages_scrolling_state.messages@.len() == k,
        forall|j: int|
            0 <= j < k ==> #[trigger] post.messages_scrolling_state.messages@[j]
                == pre.messages_scrolling_state.messages@[j],
        post.message_revert_state.pending_revert_index == Some(n),
        post.side_panel_state.todos@.len() == 0,
        out.output@ == sent.output@,
        out.effects@.len() == sent.effects@.len() + 1,
        out.effects@.last() == Effect::RevertSince(n),
{
    let m = pre.messages_scrolling_state.messages@;
    crate::message::law_message_at(m, id, 0);
    assert(m[k].id == id);
    assert(message_at(m, id, 0) == Some(k));
}

/// Copying copies the text of the message that was clicked on, and nothing else.
pub proof fn law_copy_takes_the_message(pre: AppState, post: AppState, sent: Outbox, out: Outbox)
    requires
        acted(pre, post, MessageAction::CopyMessage, sent, out),
    ensures
        post == pre,
        out.output@ == sent.output@,
        pre.message_interaction_state.message_action_target_text is None ==> out == sent,
        pre.message_interaction_state.message_action_target_text matches Some(text) ==> {
            &&& out.effects@.len() == sent.effects@.len() + 1
            &&& out.effects@.last() matches Effect::CopyToClipboard(t)
            &&& t@ == text@
        },
{
}

/// The number of a message is that of the first line that says that the user wrote it.
pub proof fn law_number_of(map: Seq<LineOwner>, id: u128, k: int)
    ensures
        0 <= k < map.len() && map[k].id == id && map[k].is_user && map[k].user_index > 0 && (
        forall|j: int|
            0 <= j < k ==> !((#[trigger] map[j]).id == id && map[j].is_user && map[j].user_index
                > 0)) ==> number_of(map, id) == Some(map[k].user_index),
        (forall|j: int|
            0 <= j < map.len() ==> !((#[trigger] map[j]).id == id && map[j].is_user
                && map[j].user_index > 0)) ==> number_of(map, id) is None,
{
    lemma_numbered(map, id, 0);
    if 0 <= k < map.len() {
        assert(map[k].id == map[k].id);
    }
}

proof fn lemma_numbered(map: Seq<LineOwner>, id: u128, from: int)
    requires
        0 <= from,
    ensures
        match numbered_at(map, id, from) {
            Some(k) => from <= k < map.len() && map[k].id == id && map[k].is_user
                && map[k].user_index > 0 && forall|j: int|
                from <= j < k ==> !((#[trigger] map[j]).id == id && map[j].is_user
                    && map[j].user_index > 0),
            None => forall|j: int|
                from <= j < map.len() ==> !((#[trigger] map[j]).id == id && map[j].is_user
                    && map[j].user_index > 0),
        },
    decreases map.len() - from,
{
    if from < map.len() && !(map[from].id == id && map[from].is_user && map[from].user_index > 0) {
        lemma_numbered(map, id, from + 1);
    }
}

} // verus!
