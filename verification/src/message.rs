//! The messages of a conversation, as plain values that a renderer draws.

use vstd::prelude::*;
use crate::ask_user::AskUserAnswer;
use crate::ask_user::AskUserQuestion;
use crate::collections::TextMap;
use crate::models::ToolCall;
use crate::models::ToolCallResult;
use crate::models::copy_text;
use crate::style::Color;
use crate::style::Line;
use crate::style::SpanView;
use crate::style::Style;
use crate::style::line_views;

verus! {

/// How far a command is.
#[derive(Debug)]
pub enum RunCommandState {
    Pending,
    Running,
    RunningWithStallWarning(String),
    Completed,
    Error,
    Rejected,
    Skipped,
    Cancelled,
}

/// The colours of a terminal bubble, and the tool that it belongs to.
#[derive(Debug)]
pub struct BubbleColors {
    pub border_color: Color,
    pub title_color: Color,
    pub content_color: Color,
    pub tool_type: String,
}

/// Why a sub-agent's task is paused.
#[derive(Debug)]
pub struct TaskPauseInfo {
    pub agent_message: Option<String>,
    /// The tool calls that wait for an approval, as JSON text.
    pub pending_tool_calls: Option<String>,
}

impl Clone for TaskPauseInfo {
    fn clone(&self) -> (r: TaskPauseInfo)
        ensures
            r == *self,
    {
        TaskPauseInfo {
            agent_message: copy_text(&self.agent_message),
            pending_tool_calls: copy_text(&self.pending_tool_calls),
        }
    }
}

/// How a background task stands.
#[derive(Debug)]
pub struct TaskUpdate {
    pub task_id: String,
    pub status: String,
    pub is_target: bool,
    pub pause_info: Option<TaskPauseInfo>,
}

/// How far the model is with a tool call that it is writing.
#[derive(Debug)]
pub struct ToolCallStreamInfo {
    pub name: String,
    pub args_tokens: usize,
    pub description: Option<String>,
}

/// What a message shows.
#[derive(Debug)]
pub enum MessageContent {
    UserMessage(String),
    AssistantMessage(String),
    PlainText(String),
    Plain(String, Style),
    Styled(Line),
    StyledBlock(Vec<Line>),
    Info(String, Option<Style>),
    SubmittedWith(String, Option<Style>),
    RenderRunCommandBlock(String, Option<String>, RunCommandState),
    RenderPendingBorderBlock(ToolCall, bool),
    RenderPendingBorderBlockWithStallWarning(ToolCall, bool, String),
    RenderSubagentResumePendingBlock(ToolCall, bool, Option<TaskPauseInfo>),
    RenderRefreshedTerminal(String, Vec<Line>, Option<BubbleColors>, usize),
    /// The content so far, the titles outside and inside the border, and the kind of tool.
    RenderStreamingBorderBlock(String, String, String, String),
    /// The tasks, the overall progress as the bits of a floating-point number, and the tasks that
    /// are waited for.
    RenderTaskWaitBlock(Vec<TaskUpdate>, u64, Vec<String>),
    RenderToolCallStreamBlock(Vec<ToolCallStreamInfo>),
    RenderAskUserBlock {
        questions: Vec<AskUserQuestion>,
        answers: TextMap<AskUserAnswer>,
        current_tab: usize,
        selected_option: usize,
        custom_input: String,
        focused: bool,
    },
    /// A tool call that was rejected, with the reason and its colour.
    RenderRejectedBlock(ToolCall, Option<String>, Option<Color>),
    /// A notice that the user interrupted the model.
    RenderInterruptedBlock,
    RenderResultBorderBlock(ToolCallResult),
    RenderFullContentMessage(ToolCallResult),
    RenderStrReplaceResult(ToolCallResult),
    RenderStrReplaceResultFull(ToolCallResult),
    /// The end of what a tool call gave.
    RenderCollapsedCommand(ToolCallResult),
    /// A look at a file: its path, how many lines there were, and what was searched for in which
    /// files.
    RenderViewFileBlock(String, usize, Option<String>, Option<String>),
}

/// A message of the conversation.
#[derive(Debug)]
pub struct Message {
    pub id: u128,
    pub content: MessageContent,
    pub is_collapsed: Option<bool>,
}

/// `Uuid::new_v4` of the uuid crate, as a number. It is random; as its version bits are set, it is
/// never zero, the number of the nil identifier.
#[verifier::external_body]
pub(crate) fn fresh_id() -> (id: u128)
    ensures
        id != 0,
{
    uuid::Uuid::new_v4().as_u128()
}

/// The identifier that a text writes.
pub uninterp spec fn id_in(s: Seq<char>) -> Option<u128>;

/// `Uuid::parse_str` of the uuid crate: whether the text writes an identifier, and which, is a
/// function of the text alone.
#[verifier::external_body]
pub(crate) fn parse_id(s: &str) -> (r: Option<u128>)
    ensures
        r == id_in(s@),
{
    uuid::Uuid::parse_str(s).ok().map(|id| id.as_u128())
}

impl Message {
    /// A message of its own with the given content.
    pub fn new(content: MessageContent) -> (m: Message)
        ensures
            m.id != 0,
            m.content == content,
            m.is_collapsed is None,
    {
        Message { id: fresh_id(), content, is_collapsed: None }
    }

    /// A message of its own with the given content, shown only among the collapsed messages.
    pub fn collapsed(content: MessageContent) -> (m: Message)
        ensures
            m.id != 0,
            m.content == content,
            m.is_collapsed == Some(true),
    {
        Message { id: fresh_id(), content, is_collapsed: Some(true) }
    }

    /// A message with the given identifier and content.
    pub fn with_id(id: u128, content: MessageContent) -> (m: Message)
        ensures
            m == (Message { id, content, is_collapsed: None }),
    {
        Message { id, content, is_collapsed: None }
    }
}

/// The messages without those with the given identifier, in their order.
pub open spec fn without(messages: Seq<Message>, id: u128) -> Seq<Message>
    decreases messages.len(),
{
    if messages.len() == 0 {
        Seq::empty()
    } else if messages.last().id == id {
        without(messages.drop_last(), id)
    } else {
        without(messages.drop_last(), id).push(messages.last())
    }
}

/// Takes the messages with the given identifier out.
pub fn remove_message(messages: &mut Vec<Message>, id: u128)
    ensures
        final(messages)@ == without(old(messages)@, id),
{
    let ghost before = messages@;
    let mut i: usize = 0;
    let ghost mut seen: int = 0;
    proof {
        assert(before.take(0) =~= Seq::<Message>::empty());
        assert(messages@ =~= without(before.take(0), id) + before.skip(0));
    }
    while i < messages.len()
        invariant
            0 <= seen <= before.len(),
            i == without(before.take(seen), id).len(),
            messages@ == without(before.take(seen), id) + before.skip(seen),
        decreases before.len() - seen,
    {
        proof {
            assert(messages@[i as int] == before[seen]);
            assert(before.take(seen + 1).drop_last() =~= before.take(seen));
            assert(before.skip(seen) =~= seq![before[seen]] + before.skip(seen + 1));
        }
        if messages[i].id == id {
            let _gone: Message = messages.remove(i);
        } else {
            i += 1;
        }
        proof {
            assert(messages@ =~= without(before.take(seen + 1), id) + before.skip(seen + 1));
            seen = seen + 1;
        }
    }
    proof {
        assert(seen == before.len());
        assert(before.take(seen) =~= before);
        assert(messages@ =~= without(before, id));
    }
}

/// Whether the message is one of its own with content of which `p` holds.
pub open spec fn new_message(m: Message, p: spec_fn(MessageContent) -> bool) -> bool {
    m.id != 0 && m.is_collapsed is None && p(m.content)
}

/// Whether one new message stands behind the others, with content of which `p` holds.
pub open spec fn pushed(
    pre: Seq<Message>,
    post: Seq<Message>,
    p: spec_fn(MessageContent) -> bool,
) -> bool {
    &&& post.len() == pre.len() + 1
    &&& post.drop_last() == pre
    &&& new_message(post.last(), p)
}

/// Whether new messages stand behind the others, one for each of `ps`, which holds of its content.
pub open spec fn appended(
    pre: Seq<Message>,
    post: Seq<Message>,
    ps: Seq<spec_fn(MessageContent) -> bool>,
) -> bool {
    &&& post.len() == pre.len() + ps.len()
    &&& post.take(pre.len() as int) == pre
    &&& forall|i: int|
        0 <= i < ps.len() ==> new_message(post[pre.len() + i], #[trigger] ps[i])
}

/// The marker for an empty row.
pub open spec fn is_spacing(c: MessageContent) -> bool {
    c matches MessageContent::PlainText(t) && t@ == "SPACING_MARKER"@
}

/// A row of text.
pub open spec fn is_row(c: MessageContent, row: Seq<SpanView>) -> bool {
    c matches MessageContent::Styled(l) && l@ == row
}

/// Rows of text.
pub open spec fn is_block(c: MessageContent, rows: Seq<Seq<SpanView>>) -> bool {
    c matches MessageContent::StyledBlock(v) && line_views(v@) == rows
}

/// Where the first message with the identifier is.
pub open spec fn message_at(messages: Seq<Message>, id: u128, from: int) -> Option<int>
    decreases messages.len() - from,
{
    if from < 0 || from >= messages.len() {
        None
    } else if messages[from].id == id {
        Some(from)
    } else {
        message_at(messages, id, from + 1)
    }
}

/// Where the first message with the identifier is.
pub fn find_message(messages: &Vec<Message>, id: u128) -> (r: Option<usize>)
    ensures
        r is Some <==> message_at(messages@, id, 0) is Some,
        r is Some ==> r->0 < messages@.len() && message_at(messages@, id, 0) == Some(r->0 as int)
            && messages@[r->0 as int].id == id,
{
    let mut i: usize = 0;
    while i < messages.len()
        invariant
            i <= messages@.len(),
            message_at(messages@, id, 0) == message_at(messages@, id, i as int),
        decreases messages@.len() - i,
    {
        if messages[i].id == id {
            return Some(i);
        }
        i += 1;
    }
    None
}

/// Gives the message at `i` another content.
pub fn set_content(messages: &mut Vec<Message>, i: usize, content: MessageContent)
    requires
        i < old(messages)@.len(),
    ensures
        final(messages)@ == old(messages)@.update(
            i as int,
            Message { content, ..old(messages)@[i as int] },
        ),
{
    let m: Message = Message {
        id: messages[i].id,
        content,
        is_collapsed: messages[i].is_collapsed,
    };
    messages.set(i, m);
}

/// Whether the first message with the identifier, where there is one, got content of which `p`
/// holds, and nothing else changed.
pub open spec fn content_set(
    pre: Seq<Message>,
    post: Seq<Message>,
    id: u128,
    p: spec_fn(MessageContent) -> bool,
) -> bool {
    match message_at(pre, id, 0) {
        None => post == pre,
        Some(i) => {
            &&& 0 <= i < pre.len()
            &&& post.len() == pre.len()
            &&& post == pre.update(i, Message { content: post[i].content, ..pre[i] })
            &&& p(post[i].content)
        },
    }
}

/// Gives the first message with the identifier another content.
pub fn set_content_of(messages: &mut Vec<Message>, id: u128, content: MessageContent)
    ensures
        content_set(
            old(messages)@,
            final(messages)@,
            id,
            |c: MessageContent| c == content,
        ),
{
    match find_message(messages, id) {
        Some(i) => {
            set_content(messages, i, content);
        },
        None => {},
    }
}

/// An identifier as text.
pub uninterp spec fn id_text(id: u128) -> Seq<char>;

/// `Uuid::to_string` of the uuid crate: the text is a function of the identifier alone, and
/// `Uuid::parse_str` reads the identifier back from it.
#[verifier::external_body]
pub(crate) fn id_to_text(id: u128) -> (r: String)
    ensures
        r@ == id_text(id),
        id_in(r@) == Some(id),
{
    uuid::Uuid::from_u128(id).to_string()
}

/// Messages that were taken out are no longer there, and the others stay in their order.
pub proof fn law_without(messages: Seq<Message>, id: u128)
    ensures
        forall|i: int| 0 <= i < without(messages, id).len() ==> (#[trigger] without(messages, id)[i]).id
            != id,
        without(messages, id).len() <= messages.len(),
        without(without(messages, id), id) == without(messages, id),
    decreases messages.len(),
{
    if messages.len() > 0 {
        law_without(messages.drop_last(), id);
        let rest = without(messages.drop_last(), id);
        if messages.last().id != id {
            assert(rest.push(messages.last()).drop_last() =~= rest);
        }
    }
}

/// Taking messages out of two conversations, one behind the other, is taking them out of each; of a
/// single message, it stays exactly where its identifier is another one.
pub proof fn law_without_in_order(a: Seq<Message>, b: Seq<Message>, m: Message, id: u128)
    ensures
        without(a + b, id) == without(a, id) + without(b, id),
        m.id == id ==> without(seq![m], id).len() == 0,
        m.id != id ==> without(seq![m], id) == seq![m],
    decreases b.len(),
{
    assert(seq![m].drop_last() =~= Seq::<Message>::empty());
    assert(without(Seq::<Message>::empty(), id) =~= Seq::<Message>::empty());
    if b.len() == 0 {
        assert(a + b =~= a);
    } else {
        law_without_in_order(a, b.drop_last(), m, id);
        assert((a + b).drop_last() =~= a + b.drop_last());
        assert(without(a + b, id) =~= without(a, id) + without(b, id));
    }
}

/// A message stays in the conversation exactly where its identifier is another one.
pub proof fn law_without_keeps_the_others(messages: Seq<Message>, id: u128, m: Message)
    ensures
        without(messages, id).contains(m) <==> messages.contains(m) && m.id != id,
    decreases messages.len(),
{
    if messages.len() > 0 {
        let rest = messages.drop_last();
        let w = without(rest, id);
        let r = without(messages, id);
        law_without_keeps_the_others(rest, id, m);
        if r.contains(m) {
            let k = choose|k: int| 0 <= k < r.len() && r[k] == m;
            if k < w.len() {
                assert(w[k] == m);
                let j = choose|j: int| 0 <= j < rest.len() && rest[j] == m;
                assert(messages[j] == m);
            } else {
                assert(messages[messages.len() - 1] == m);
            }
        }
        if messages.contains(m) && m.id != id {
            let j = choose|j: int| 0 <= j < messages.len() && messages[j] == m;
            if j < rest.len() {
                assert(rest[j] == m);
                let k = choose|k: int| 0 <= k < w.len() && w[k] == m;
                assert(r[k] == m);
            } else {
                assert(r[w.len() as int] == m);
            }
        }
    }
}

/// The first message with an identifier is found: none before it has it; and where none is found,
/// none has it.
pub proof fn law_message_at(messages: Seq<Message>, id: u128, from: int)
    requires
        0 <= from,
    ensures
        match message_at(messages, id, from) {
            Some(k) => from <= k < messages.len() && messages[k].id == id && forall|j: int|
                from <= j < k ==> (#[trigger] messages[j]).id != id,
            None => forall|j: int|
                from <= j < messages.len() ==> (#[trigger] messages[j]).id != id,
        },
    decreases messages.len() - from,
{
    if from < messages.len() && messages[from].id != id {
        law_message_at(messages, id, from + 1);
    }
}

} // verus!
