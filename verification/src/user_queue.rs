//! Messages of the user that wait until the model is idle, and go out as one.

use std::collections::VecDeque;
use vstd::prelude::*;
use crate::app::AppState;
use crate::app::is_empty;
use crate::app::message_pushed;
use crate::events::InputEvent;
use crate::events::Outbox;
use crate::events::OutputEvent;
use crate::message::MessageContent;
use crate::models::ContentPart;
use crate::models::ToolCallResult;
use crate::types::BannerState;
use crate::types::LoadingOperation;
use crate::types::MessageRevertState;
use crate::types::PendingUserMessage;

verus! {

/// What a waiting message holds.
#[verifier::ext_equal]
pub struct PendingView {
    pub input: Seq<char>,
    pub shell: Option<Seq<ToolCallResult>>,
    pub images: Seq<ContentPart>,
    pub text: Seq<char>,
}

/// The tool results of a message.
pub open spec fn shell_view(s: Option<Vec<ToolCallResult>>) -> Option<Seq<ToolCallResult>> {
    match s {
        Some(v) => Some(v@),
        None => None,
    }
}

impl View for PendingUserMessage {
    type V = PendingView;

    open spec fn view(&self) -> PendingView {
        PendingView {
            input: self.final_input@,
            shell: shell_view(self.shell_tool_calls),
            images: self.image_parts@,
            text: self.user_message_text@,
        }
    }
}

/// Two texts with an empty line between them; an empty text leaves the other alone.
pub open spec fn joined_texts(a: Seq<char>, b: Seq<char>) -> Seq<char> {
    if b.len() == 0 {
        a
    } else if a.len() == 0 {
        b
    } else {
        a + seq!['\n', '\n'] + b
    }
}

pub open spec fn joined_shell(
    a: Option<Seq<ToolCallResult>>,
    b: Option<Seq<ToolCallResult>>,
) -> Option<Seq<ToolCallResult>> {
    match (a, b) {
        (Some(x), Some(y)) => Some(x + y),
        (None, Some(y)) => Some(y),
        _ => a,
    }
}

/// Two messages as one.
pub open spec fn merged(a: PendingView, b: PendingView) -> PendingView {
    PendingView {
        input: joined_texts(a.input, b.input),
        shell: joined_shell(a.shell, b.shell),
        images: a.images + b.images,
        text: joined_texts(a.text, b.text),
    }
}

fn append_with_separator(target: &mut String, value: &str)
    ensures
        final(target)@ == joined_texts(old(target)@, value@),
{
    if is_empty(value) {
        return;
    }
    if !is_empty(target.as_str()) {
        target.push('\n');
        target.push('\n');
        assert(target@ =~= old(target)@ + seq!['\n', '\n']);
    }
    target.push_str(value);
    assert(target@ =~= joined_texts(old(target)@, value@));
}

impl PendingUserMessage {
    /// A message that waits.
    pub fn new(
        final_input: String,
        shell_tool_calls: Option<Vec<ToolCallResult>>,
        image_parts: Vec<ContentPart>,
        user_message_text: String,
    ) -> (r: PendingUserMessage)
        ensures
            r == (PendingUserMessage {
                final_input,
                shell_tool_calls,
                image_parts,
                user_message_text,
            }),
    {
        PendingUserMessage { final_input, shell_tool_calls, image_parts, user_message_text }
    }

    /// Takes another message in behind this one.
    pub fn merge_from(&mut self, other: PendingUserMessage)
        ensures
            final(self)@ == merged(old(self)@, other@),
    {
        append_with_separator(&mut self.final_input, other.final_input.as_str());
        append_with_separator(&mut self.user_message_text, other.user_message_text.as_str());
        let mut images: Vec<ContentPart> = other.image_parts;
        self.image_parts.append(&mut images);
        let mut mine: Option<Vec<ToolCallResult>> = None;
        std::mem::swap(&mut mine, &mut self.shell_tool_calls);
        self.shell_tool_calls = match (mine, other.shell_tool_calls) {
            (Some(existing), Some(incoming)) => {
                let mut all: Vec<ToolCallResult> = existing;
                let mut more: Vec<ToolCallResult> = incoming;
                all.append(&mut more);
                Some(all)
            },
            (None, Some(incoming)) => Some(incoming),
            (existing, None) => existing,
        };
        assert(self@ =~= merged(old(self)@, other@));
    }
}

/// In which order messages are merged makes no difference.
pub proof fn law_merge_associative(a: PendingView, b: PendingView, c: PendingView)
    ensures
        merged(merged(a, b), c) == merged(a, merged(b, c)),
{
    lemma_joined_texts(a.input, b.input, c.input);
    lemma_joined_texts(a.text, b.text, c.text);
    assert(a.images + b.images + c.images =~= a.images + (b.images + c.images));
    match (a.shell, b.shell, c.shell) {
        (Some(x), Some(y), Some(z)) => {
            assert(x + y + z =~= x + (y + z));
        },
        _ => {},
    }
}

proof fn lemma_joined_texts(a: Seq<char>, b: Seq<char>, c: Seq<char>)
    ensures
        joined_texts(joined_texts(a, b), c) == joined_texts(a, joined_texts(b, c)),
{
    let sep = seq!['\n', '\n'];
    if a.len() > 0 && b.len() > 0 && c.len() > 0 {
        assert(a + sep + b + sep + c =~= a + sep + (b + sep + c));
    } else if a.len() == 0 && b.len() == 0 && c.len() == 0 {
        assert(a =~= b);
    }
}

/// No tool result and no image gets lost.
pub proof fn law_merge_keeps(a: PendingView, b: PendingView)
    ensures
        merged(a, b).images.len() == a.images.len() + b.images.len(),
        merged(a, b).shell is Some <==> a.shell is Some || b.shell is Some,
        (a.shell is Some && b.shell is Some) ==> merged(a, b).shell->0.len() == a.shell->0.len()
            + b.shell->0.len(),
{
}

/// All messages of the queue as one, where there is any.
pub open spec fn merged_all(q: Seq<PendingUserMessage>) -> PendingView
    recommends
        q.len() > 0,
    decreases q.len(),
{
    if q.len() <= 1 {
        q[0]@
    } else {
        merged(merged_all(q.drop_last()), q.last()@)
    }
}

fn take_merged_pending_user_message(queue: &mut VecDeque<PendingUserMessage>) -> (r: Option<
    PendingUserMessage,
>)
    ensures
        final(queue)@.len() == 0,
        r is Some <==> old(queue)@.len() > 0,
        r is Some ==> r->0@ == merged_all(old(queue)@),
{
    let ghost all = queue@;
    let mut first: PendingUserMessage = match queue.pop_front() {
        Some(m) => m,
        None => {
            return None;
        },
    };
    let ghost mut n: int = 1;
    assert(queue@ =~= all.skip(1));
    assert(all.take(1)[0] == all[0]);
    while queue.len() > 0
        invariant
            1 <= n <= all.len(),
            queue@ == all.skip(n),
            first@ == merged_all(all.take(n)),
        decreases queue@.len(),
    {
        match queue.pop_front() {
            Some(next) => {
                assert(next == all[n]);
                assert(all.take(n + 1).drop_last() =~= all.take(n));
                first.merge_from(next);
                proof {
                    n = n + 1;
                }
            },
            None => {},
        }
    }
    assert(all.take(n) =~= all);
    Some(first)
}

/// What a message that went out looks like.
pub open spec fn is_user_message(e: OutputEvent, m: PendingView, revert: Option<usize>) -> bool {
    e matches OutputEvent::UserMessage(t, s, i, r) && t@ == m.input && shell_view(s) == m.shell
        && i@ == m.images && r == revert
}

/// The banner is gone.
pub open spec fn no_banner(pre: BannerState, post: BannerState) -> bool {
    if pre.message is Some {
        &&& post.message is None
        &&& post.click_regions@.len() == 0
        &&& post.dismiss_region is None
        &&& post.area is None
    } else {
        post == pre
    }
}

fn dismiss_banner(b: &mut BannerState)
    ensures
        no_banner(*old(b), *final(b)),
{
    if b.message.is_some() {
        b.message = None;
        b.click_regions.clear();
        b.dismiss_region = None;
        b.area = None;
    }
}

/// Puts a message of the user into the conversation.
pub fn handle_add_user_message(state: &mut AppState, text: String)
    ensures
        user_message_added(*old(state), *final(state), text@),
{
    state.push_message(MessageContent::UserMessage(text));
}

pub open spec fn user_message_added(pre: AppState, post: AppState, text: Seq<char>) -> bool {
    &&& post == pre.with_messages(post.messages_scrolling_state)
    &&& message_pushed(
        pre.messages_scrolling_state,
        post.messages_scrolling_state,
        |c: MessageContent| c matches MessageContent::UserMessage(t) && t@ == text,
    )
}

/// What the queue does when the client has handled an event. While something is under way, or where
/// nothing waits, nothing happens. Else all that waits goes out as one message, the banner goes
/// away, and the message is shown: by an event where there is room for one, else at once. Where it
/// cannot go out, it waits as one message, and the point to go back to is forgotten.
pub open spec fn queue_flushed(pre: AppState, post: AppState, sent: Outbox, out: Outbox) -> bool {
    let q = pre.user_message_queue_state.pending_user_messages@;
    if pre.loading_state.loading_manager@ != Set::<LoadingOperation>::empty() || q.len() == 0 {
        post == pre && out == sent
    } else {
        let m = merged_all(q);
        let revert = pre.message_revert_state.pending_revert_index;
        &&& post == (AppState {
            user_message_queue_state: post.user_message_queue_state,
            message_revert_state: MessageRevertState {
                pending_revert_index: None,
                ..pre.message_revert_state
            },
            banner_state: post.banner_state,
            messages_scrolling_state: post.messages_scrolling_state,
            ..pre
        })
        &&& no_banner(pre.banner_state, post.banner_state)
        &&& out.output_room == sent.output_room
        &&& out.input_room == sent.input_room
        &&& out.effects@ == sent.effects@
        &&& if sent.can_output() {
            &&& post.user_message_queue_state.pending_user_messages@.len() == 0
            &&& crate::events::one_more(
                sent.output@,
                out.output@,
                |e: OutputEvent| is_user_message(e, m, revert),
            )
            &&& if sent.can_input() {
                &&& crate::events::one_more(
                    sent.input@,
                    out.input@,
                    |e: InputEvent| e matches InputEvent::AddUserMessage(t) && t@ == m.text,
                )
                &&& post.messages_scrolling_state == pre.messages_scrolling_state
            } else {
                &&& out.input@ == sent.input@
                &&& message_pushed(
                    pre.messages_scrolling_state,
                    post.messages_scrolling_state,
                    |c: MessageContent| c matches MessageContent::UserMessage(t) && t@ == m.text,
                )
            }
        } else {
            &&& out.output@ == sent.output@
            &&& out.input@ == sent.input@
            &&& post.messages_scrolling_state == pre.messages_scrolling_state
            &&& post.user_message_queue_state.pending_user_messages@.len() == 1
            &&& post.user_message_queue_state.pending_user_messages@[0]@ == m
        }
    }
}

/// Sends what waits, where nothing is under way.
pub fn flush_pending_user_messages_if_idle(state: &mut AppState, out: &mut Outbox)
    ensures
        queue_flushed(*old(state), *final(state), *old(out), *final(out)),
{
    if state.loading_state.loading_manager.is_loading() {
        return;
    }
    if state.user_message_queue_state.pending_user_messages.len() == 0 {
        return;
    }
    let pending: PendingUserMessage = match take_merged_pending_user_message(
        &mut state.user_message_queue_state.pending_user_messages,
    ) {
        Some(m) => m,
        None => {
            return;
        },
    };
    let revert: Option<usize> = state.message_revert_state.pending_revert_index;
    state.message_revert_state.pending_revert_index = None;
    dismiss_banner(&mut state.banner_state);
    if out.output.len() < out.output_room {
        let text: String = pending.user_message_text;
        let _sent: bool = out.send_output(
            OutputEvent::UserMessage(
                pending.final_input,
                pending.shell_tool_calls,
                pending.image_parts,
                revert,
            ),
        );
        if !out.send_input(InputEvent::AddUserMessage(text.clone())) {
            handle_add_user_message(state, text);
        }
    } else {
        state.user_message_queue_state.pending_user_messages.push_front(pending);
    }
}

/// A message that cannot go out is not lost: the queue holds all that it held before.
pub proof fn law_nothing_lost(pre: AppState, post: AppState, sent: Outbox, out: Outbox)
    requires
        queue_flushed(pre, post, sent, out),
        pre.user_message_queue_state.pending_user_messages@.len() > 0,
        post.user_message_queue_state.pending_user_messages@.len() > 0,
    ensures
        merged_all(post.user_message_queue_state.pending_user_messages@) == merged_all(
            pre.user_message_queue_state.pending_user_messages@,
        ),
{
}

/// Two messages as one hold both in full, the second behind the first: texts with an empty line
/// between them, unless one is empty, images and tool results one behind the other.
pub proof fn law_merged_holds_both(a: PendingView, b: PendingView)
    ensures
        ({
            let m = merged(a, b);
            &&& a.input.len() > 0 && b.input.len() > 0 ==> {
                &&& m.input.len() == a.input.len() + 2 + b.input.len()
                &&& m.input.take(a.input.len() as int) == a.input
                &&& m.input[a.input.len() as int] == '\n'
                &&& m.input[a.input.len() as int + 1] == '\n'
                &&& m.input.skip(a.input.len() as int + 2) == b.input
            }
            &&& a.input.len() == 0 ==> m.input == b.input
            &&& b.input.len() == 0 ==> m.input == a.input
            &&& a.text.len() > 0 && b.text.len() > 0 ==> {
                &&& m.text.len() == a.text.len() + 2 + b.text.len()
                &&& m.text.take(a.text.len() as int) == a.text
                &&& m.text[a.text.len() as int] == '\n'
                &&& m.text[a.text.len() as int + 1] == '\n'
                &&& m.text.skip(a.text.len() as int + 2) == b.text
            }
            &&& a.text.len() == 0 ==> m.text == b.text
            &&& b.text.len() == 0 ==> m.text == a.text
            &&& m.images.take(a.images.len() as int) == a.images
            &&& m.images.skip(a.images.len() as int) == b.images
            &&& a.shell is Some && b.shell is Some ==> {
                &&& m.shell is Some
                &&& m.shell->0.take(a.shell->0.len() as int) == a.shell->0
                &&& m.shell->0.skip(a.shell->0.len() as int) == b.shell->0
            }
            &&& a.shell is None ==> m.shell == b.shell
            &&& b.shell is None ==> m.shell == a.shell
        }),
{
    let m = merged(a, b);
    if a.input.len() > 0 && b.input.len() > 0 {
        assert(m.input.take(a.input.len() as int) =~= a.input);
        assert(m.input.skip(a.input.len() as int + 2) =~= b.input);
    }
    if a.text.len() > 0 && b.text.len() > 0 {
        assert(m.text.take(a.text.len() as int) =~= a.text);
        assert(m.text.skip(a.text.len() as int + 2) =~= b.text);
    }
    assert(m.images.take(a.images.len() as int) =~= a.images);
    assert(m.images.skip(a.images.len() as int) =~= b.images);
    if a.shell is Some && b.shell is Some {
        assert(m.shell->0.take(a.shell->0.len() as int) =~= a.shell->0);
        assert(m.shell->0.skip(a.shell->0.len() as int) =~= b.shell->0);
    }
}

/// All messages of a queue as one: those of two queues, one behind the other, are those of the
/// first and then those of the second; a single message is itself.
pub proof fn law_merged_in_order(a: Seq<PendingUserMessage>, b: Seq<PendingUserMessage>)
    requires
        a.len() > 0,
        b.len() > 0,
    ensures
        merged_all(a + b) == merged(merged_all(a), merged_all(b)),
        a.len() == 1 ==> merged_all(a) == a[0]@,
    decreases b.len(),
{
    assert((a + b).drop_last() =~= a + b.drop_last());
    assert((a + b).last() == b.last());
    if b.len() == 1 {
        assert(a + b.drop_last() =~= a);
        assert(b.last() == b[0]);
    } else {
        law_merged_in_order(a, b.drop_last());
        law_merge_associative(merged_all(a), merged_all(b.drop_last()), b.last()@);
    }
}

/// Where a message of the queue stands in all of them as one.
proof fn lemma_part_of_all(q: Seq<PendingUserMessage>, k: int) -> (at: (int, int, int))
    requires
        0 <= k < q.len(),
    ensures
        ({
            let m = merged_all(q);
            let (t, i, s) = at;
            &&& 0 <= t && t + q[k].final_input@.len() <= m.input.len()
            &&& m.input.subrange(t, t + q[k].final_input@.len()) == q[k].final_input@
            &&& 0 <= i && i + q[k].image_parts@.len() <= m.images.len()
            &&& m.images.subrange(i, i + q[k].image_parts@.len()) == q[k].image_parts@
            &&& q[k].shell_tool_calls is Some ==> {
                &&& m.shell is Some
                &&& 0 <= s && s + q[k].shell_tool_calls->0@.len() <= m.shell->0.len()
                &&& m.shell->0.subrange(s, s + q[k].shell_tool_calls->0@.len())
                    == q[k].shell_tool_calls->0@
            }
        }),
    decreases q.len(),
{
    let m = merged_all(q);
    let x = q[k];
    let n = x.final_input@.len() as int;
    let c = x.image_parts@.len() as int;
    let r = x.shell_tool_calls->0@.len() as int;
    if q.len() == 1 {
        assert(m.input.subrange(0, n) =~= x.final_input@);
        assert(m.images.subrange(0, c) =~= x.image_parts@);
        if x.shell_tool_calls is Some {
            assert(m.shell->0.subrange(0, r) =~= x.shell_tool_calls->0@);
        }
        (0, 0, 0)
    } else {
        let a = merged_all(q.drop_last());
        let b = q.last()@;
        if k == q.len() - 1 {
            let t = m.input.len() - n;
            let i = m.images.len() - c;
            assert(m.input.subrange(t, t + n) =~= x.final_input@);
            assert(m.images.subrange(i, i + c) =~= x.image_parts@);
            if x.shell_tool_calls is Some {
                let s = m.shell->0.len() - r;
                assert(m.shell->0.subrange(s, s + r) =~= x.shell_tool_calls->0@);
                (t, i, s)
            } else {
                (t, i, 0)
            }
        } else {
            let (t, i, s) = lemma_part_of_all(q.drop_last(), k);
            assert(a.input.subrange(t, t + n) == x.final_input@);
            if a.input.len() == 0 {
                assert(m.input.subrange(0, n) =~= x.final_input@);
            } else {
                assert(m.input.subrange(t, t + n) =~= a.input.subrange(t, t + n));
            }
            assert(m.images.subrange(i, i + c) =~= a.images.subrange(i, i + c));
            if x.shell_tool_calls is Some {
                assert(m.shell->0.subrange(s, s + r) =~= a.shell->0.subrange(s, s + r));
            }
            (if a.input.len() == 0 {
                0
            } else {
                t
            }, i, s)
        }
    }
}

/// When the client is idle, everything that waits goes out at once, in one message: the text, the
/// images and the tool results of each waiting message stand in it in full, and nothing waits any
/// longer. While something is under way nothing goes out.
pub proof fn law_all_goes_out(pre: AppState, post: AppState, sent: Outbox, out: Outbox, k: int) -> (
    at: (int, int, int))
    requires
        queue_flushed(pre, post, sent, out),
        0 <= k < pre.user_message_queue_state.pending_user_messages@.len(),
        sent.output@.len() < sent.output_room,
    ensures
        !pre.loading_state.loading_manager@.is_empty() ==> post == pre && out == sent,
        pre.loading_state.loading_manager@.is_empty() ==> {
            let x = pre.user_message_queue_state.pending_user_messages@[k];
            let (i, j, l) = at;
            &&& post.user_message_queue_state.pending_user_messages@.len() == 0
            &&& out.output@.len() == sent.output@.len() + 1
            &&& out.output@.drop_last() == sent.output@
            &&& out.output@.last() matches OutputEvent::UserMessage(t, s, images, revert)
            &&& t@.subrange(i, i + x.final_input@.len()) == x.final_input@
            &&& images@.subrange(j, j + x.image_parts@.len()) == x.image_parts@
            &&& x.shell_tool_calls is Some ==> s is Some && s->0@.subrange(
                l,
                l + x.shell_tool_calls->0@.len(),
            ) == x.shell_tool_calls->0@
            &&& revert == pre.message_revert_state.pending_revert_index
            &&& post.message_revert_state.pending_revert_index is None
        },
{
    assert(pre.loading_state.loading_manager@.is_empty() <==> pre.loading_state.loading_manager@
        =~= Set::<LoadingOperation>::empty());
    lemma_part_of_all(pre.user_message_queue_state.pending_user_messages@, k)
}

/// When what waits goes out, the banner goes away.
pub proof fn law_flush_takes_the_banner(pre: AppState, post: AppState, sent: Outbox, out: Outbox)
    requires
        queue_flushed(pre, post, sent, out),
        pre.loading_state.loading_manager@.is_empty(),
        pre.user_message_queue_state.pending_user_messages@.len() > 0,
    ensures
        post.banner_state.message is None,
        post.input_state == pre.input_state,
        post.dialog_approval_state == pre.dialog_approval_state,
{
    assert(pre.loading_state.loading_manager@ =~= Set::<LoadingOperation>::empty());
}

} // verus!
