//! The shell: what it writes, how it is shown, and what is reported of it.

use vstd::prelude::*;
use vstd::utf8::encode_utf8;
use crate::app::AppState;
use crate::app::clear_text;
use crate::app::is_empty;
use crate::arguments::Field;
use crate::arguments::FieldValue;
use crate::arguments::FieldView;
use crate::arguments::field;
use crate::arguments::json_object;
use crate::arguments::parse_arguments;
use crate::events::Effect;
use crate::events::Outbox;
use crate::events::OutputEvent;
use crate::geometry::Size;
use crate::helper_block::block_pushed;
use crate::helper_block::error_rows;
use crate::helper_block::push_error_message;
use crate::helper_block::push_styled_message;
use crate::helper_block::tinted;
use crate::message::BubbleColors;
use crate::message::Message;
use crate::message::MessageContent;
use crate::message::appended;
use crate::message::content_set;
use crate::message::find_message;
use crate::message::fresh_id;
use crate::message::id_text;
use crate::message::id_to_text;
use crate::message::is_row;
use crate::message::is_spacing;
use crate::message::message_at;
use crate::message::new_message;
use crate::message::pushed;
use crate::message::remove_message;
use crate::message::set_content;
use crate::message::set_content_of;
use crate::message::without;
use crate::models::FunctionCall;
use crate::models::ToolCall;
use crate::models::ToolCallResult;
use crate::models::ToolCallResultStatus;
use crate::models::copy_text;
use crate::models::text_of;
use crate::shell_screen::Capture;
use crate::shell_screen::Terminal;
use crate::shell_screen::drawn_anew;
use crate::shell_screen::is_fresh_screen;
use crate::shell_screen::looked_at;
use crate::shell_screen::offset_of;
use crate::shell_screen::readable;
use crate::shell_screen::screen_rows;
use crate::shell_screen::scrolled;
use crate::shell_screen::size_of;
use crate::shell_screen::written;
use crate::style::Color;
use crate::style::Line;
use crate::style::Span;
use crate::style::SpanView;
use crate::style::Style;
use crate::style::Tone;
use crate::style::all_lines;
use crate::style::copy_lines;
use crate::style::lemma_line_views_push;
use crate::style::line_views;
use crate::style::row_text;
use crate::text::chars_of;
use crate::text::has_prefix;
use crate::text::is_space;
use crate::text::is_white;
use crate::text::join;
use crate::text::joined;
use crate::text::last_piece;
use crate::text::law_trim;
use crate::text::law_trim_end;
use crate::text::lemma_skip_space;
use crate::text::lines;
use crate::text::lines_of;
use crate::text::replace;
use crate::text::replaced;
use crate::text::same_text;
use crate::text::skip_space;
use crate::text::skip_white;
use crate::text::starts_with;
use crate::text::string_of;
use crate::text::texts;
use crate::text::trim;
use crate::text::trim_end;
use crate::text::trim_end_of;
use crate::text::trim_of;
use crate::textarea::TextArea;
use crate::textarea::TextAreaView;
use crate::types::DialogApprovalState;
use crate::types::MessagesScrollingState;
use crate::types::SessionToolCallsState;
use crate::types::ShellCommand;
use crate::types::ShellPopupState;
use crate::types::ShellRuntimeState;
use crate::types::ShellSessionState;
use crate::types::ToolCallState;
use crate::types::ToolCallStatus;
use crate::user_queue::shell_view;

verus! {

/// How many rows of the shell are remembered.
pub const MAX_HISTORY: usize = 5000;

/// What stands before a command that was typed.
pub open spec fn prompt_prefix() -> Seq<char> {
    "$ "@
}

// ----- rows -----

/// Whether nothing but white space is on the row.
pub open spec fn is_blank_row(row: Seq<SpanView>) -> bool {
    forall|i: int| 0 <= i < row.len() ==> trim_of((#[trigger] row[i]).content).len() == 0
}

/// The rows without the blank ones at the end.
pub open spec fn trimmed_rows(rows: Seq<Seq<SpanView>>) -> Seq<Seq<SpanView>>
    decreases rows.len(),
{
    if rows.len() > 0 && is_blank_row(rows.last()) {
        trimmed_rows(rows.drop_last())
    } else {
        rows
    }
}

fn blank_row(l: &Line) -> (r: bool)
    ensures
        r == is_blank_row(l@),
{
    let mut i: usize = 0;
    while i < l.spans.len()
        invariant
            i <= l.spans@.len(),
            forall|j: int| 0 <= j < i ==> trim_of((#[trigger] l@[j]).content).len() == 0,
        decreases l.spans@.len() - i,
    {
        let t: String = trim(l.spans[i].content.as_str());
        assert(l@[i as int].content == l.spans@[i as int].content@);
        if !is_empty(t.as_str()) {
            return false;
        }
        i += 1;
    }
    true
}

/// The rows without the blank ones at the end.
pub fn trim_shell_lines(rows: Vec<Line>) -> (r: Vec<Line>)
    ensures
        line_views(r@) == trimmed_rows(line_views(rows@)),
{
    let mut r: Vec<Line> = rows;
    while r.len() > 0
        invariant
            trimmed_rows(line_views(r@)) == trimmed_rows(line_views(rows@)),
        ensures
            line_views(r@) == trimmed_rows(line_views(rows@)),
        decreases r@.len(),
    {
        let n: usize = r.len();
        assert(line_views(r@).last() == r@[n - 1]@);
        if !blank_row(&r[n - 1]) {
            break;
        }
        let ghost before = r@;
        r.truncate(n - 1);
        assert(line_views(r@) =~= line_views(before).drop_last());
    }
    r
}

proof fn lemma_trimmed_len(rows: Seq<Seq<SpanView>>)
    ensures
        trimmed_rows(rows).len() <= rows.len(),
    decreases rows.len(),
{
    if rows.len() > 0 && is_blank_row(rows.last()) {
        lemma_trimmed_len(rows.drop_last());
    }
}

/// No blank row is left at the end, what is left is the start of what was there, and every row that
/// is gone is blank.
pub proof fn law_trimmed_rows(rows: Seq<Seq<SpanView>>)
    ensures
        trimmed_rows(rows).len() > 0 ==> !is_blank_row(trimmed_rows(rows).last()),
        trimmed_rows(rows) == rows.take(trimmed_rows(rows).len() as int),
        trimmed_rows(trimmed_rows(rows)) == trimmed_rows(rows),
        trimmed_rows(rows).len() <= rows.len(),
        forall|i: int|
            trimmed_rows(rows).len() <= i < rows.len() ==> is_blank_row(#[trigger] rows[i]),
    decreases rows.len(),
{
    if rows.len() > 0 && is_blank_row(rows.last()) {
        law_trimmed_rows(rows.drop_last());
        assert forall|i: int| trimmed_rows(rows).len() <= i < rows.len() implies is_blank_row(
            #[trigger] rows[i],
        ) by {
            if i < rows.len() - 1 {
                assert(rows.drop_last()[i] == rows[i]);
            }
        }
        assert(trimmed_rows(rows) == rows.drop_last().take(trimmed_rows(rows).len() as int));
        assert(trimmed_rows(rows).len() <= rows.drop_last().len()) by {
            lemma_trimmed_len(rows.drop_last());
        }
        assert(rows.drop_last().take(trimmed_rows(rows).len() as int) =~= rows.take(
            trimmed_rows(rows).len() as int,
        ));
    } else {
        assert(rows.take(rows.len() as int) =~= rows);
    }
}

/// Whether the character ends a prompt.
pub open spec fn ends_prompt(c: char) -> bool {
    c == '$' || c == '%' || c == '>' || c == '#' || c == '✗' || c == '❯' || c == '➜' || c == '»'
}

/// Whether the line looks like a prompt: its last character that is no white space ends one.
pub open spec fn prompt_line(line: Seq<char>) -> bool {
    let t = trim_end_of(line);
    t.len() > 0 && ends_prompt(t.last())
}

/// Whether the line looks like a prompt.
pub fn looks_like_prompt(line: &str) -> (r: bool)
    ensures
        r == prompt_line(line@),
{
    let t: Vec<char> = chars_of(trim_end(line).as_str());
    if t.len() == 0 {
        return false;
    }
    let c: char = t[t.len() - 1];
    c == '$' || c == '%' || c == '>' || c == '#' || c == '✗' || c == '❯' || c == '➜' || c == '»'
}

/// The text of the last row that is not blank; empty where all are.
pub open spec fn last_text(rows: Seq<Seq<SpanView>>) -> Seq<char>
    decreases rows.len(),
{
    if rows.len() == 0 {
        Seq::empty()
    } else if trim_of(row_text(rows.last())).len() > 0 {
        row_text(rows.last())
    } else {
        last_text(rows.drop_last())
    }
}

fn find_last_text(rows: &Vec<Line>) -> (r: String)
    ensures
        r@ == last_text(line_views(rows@)),
{
    let mut n: usize = rows.len();
    let ghost all = line_views(rows@);
    assert(all.take(n as int) =~= all);
    while n > 0
        invariant
            n <= rows@.len(),
            all == line_views(rows@),
            last_text(all) == last_text(all.take(n as int)),
        decreases n,
    {
        let t: String = rows[n - 1].text();
        assert(all.take(n as int).last() == rows@[n - 1]@);
        assert(all.take(n as int).drop_last() =~= all.take(n - 1));
        if !is_empty(trim(t.as_str()).as_str()) {
            return t;
        }
        n -= 1;
    }
    assert(all.take(0) =~= Seq::<Seq<SpanView>>::empty());
    let r: String = String::new();
    assert(r@ =~= Seq::<char>::empty());
    r
}

// ----- the bubble -----

/// Whether the content shows a terminal: its title, its rows, its colour, its kind and its width.
pub open spec fn shows_terminal(
    c: MessageContent,
    title: Seq<char>,
    rows: Seq<Seq<SpanView>>,
    tone: Tone,
    kind: Seq<char>,
    width: usize,
) -> bool {
    c matches MessageContent::RenderRefreshedTerminal(t, l, b, w) && t@ == title && line_views(l@)
        == rows && w == width && is_bubble(b, tone, kind)
}

/// Whether the bubble has the colour and the kind.
pub open spec fn is_bubble(b: Option<BubbleColors>, tone: Tone, kind: Seq<char>) -> bool {
    b matches Some(k) && k.border_color == Color::Theme(tone) && k.title_color == Color::Theme(tone)
        && k.content_color == Color::Theme(Tone::Text) && k.tool_type@ == kind
}

fn terminal_content(title: String, rows: Vec<Line>, tone: Tone, kind: String, width: usize) -> (c:
    MessageContent)
    ensures
        shows_terminal(c, title@, line_views(rows@), tone, kind@, width),
{
    MessageContent::RenderRefreshedTerminal(
        title,
        rows,
        Some(
            BubbleColors {
                border_color: Color::Theme(tone),
                title_color: Color::Theme(tone),
                content_color: Color::Theme(Tone::Text),
                tool_type: kind,
            },
        ),
        width,
    )
}

/// Three texts in a row.
pub open spec fn framed(a: Seq<char>, b: Seq<char>, c: Seq<char>) -> Seq<char> {
    a + b + c
}

/// Three texts in a row.
pub fn frame(a: &str, b: &str, c: &str) -> (r: String)
    ensures
        r@ == framed(a@, b@, c@),
{
    let mut r: String = a.to_owned();
    r.push_str(b);
    r.push_str(c);
    r
}

/// The row of a command that was typed.
pub open spec fn command_row(cmd: Seq<char>) -> Seq<SpanView> {
    seq![
        SpanView { content: "$ "@, style: Style::plain().fg(Color::Theme(Tone::Warning)).strong() },
        SpanView { content: cmd, style: Style::plain().fg(Color::Theme(Tone::Text)) },
    ]
}

/// Rows behind the command that waits, where there is one.
pub open spec fn with_command(cmd: Option<Seq<char>>, rows: Seq<Seq<SpanView>>) -> Seq<
    Seq<SpanView>,
> {
    match cmd {
        Some(c) => seq![command_row(c)] + rows,
        None => rows,
    }
}

fn put_command(cmd: &Option<String>, rows: Vec<Line>) -> (r: Vec<Line>)
    ensures
        line_views(r@) == with_command(text_of(*cmd), line_views(rows@)),
{
    match cmd {
        Some(c) => {
            let mut l: Line = Line::of(
                Span::styled("$ ", Style::plain().fg(Color::Theme(Tone::Warning)).strong()),
            );
            l.add(Span::styled(c.as_str(), Style::plain().fg(Color::Theme(Tone::Text))));
            assert(l@ =~= command_row(c@));
            let mut r: Vec<Line> = rows;
            let ghost before = r@;
            r.insert(0, l);
            assert(line_views(r@) =~= seq![command_row(c@)] + line_views(before));
            r
        },
        None => rows,
    }
}

/// The first word of a text; `shell` where there is none.
pub open spec fn first_word(s: Seq<char>) -> Seq<char> {
    let i = skip_space(s, 0);
    let e = crate::banner::word_end(s, i);
    if i < e {
        s.subrange(i, e)
    } else {
        "shell"@
    }
}

fn find_first_word(s: &str) -> (r: String)
    ensures
        r@ == first_word(s@),
{
    let v: Vec<char> = chars_of(s);
    let i: usize = skip_white(&v, 0);
    let mut e: usize = i;
    while e < v.len() && !is_white(v[e])
        invariant
            i <= e <= v@.len(),
            crate::banner::word_end(v@, i as int) == crate::banner::word_end(v@, e as int),
        decreases v@.len() - e,
    {
        e += 1;
    }
    if i < e {
        string_of(&v, i, e)
    } else {
        "shell".to_owned()
    }
}

/// The name of the program that runs: the first word of what follows the last slash.
pub open spec fn program_name(cmd: Option<ShellCommand>) -> Seq<char> {
    match cmd {
        Some(c) => first_word(last_piece(c.command@, '/', c.command@.len() as int)),
        None => "shell"@,
    }
}

fn shell_program(cmd: &Option<ShellCommand>) -> (r: String)
    ensures
        r@ == program_name(*cmd),
{
    match cmd {
        Some(c) => {
            let piece: String = crate::text::after_last(c.command.as_str(), '/');
            find_first_word(piece.as_str())
        },
        None => "shell".to_owned(),
    }
}

/// The command that runs; `shell` where none does.
pub open spec fn command_name(cmd: Option<ShellCommand>) -> Seq<char> {
    match cmd {
        Some(c) => c.command@,
        None => "shell"@,
    }
}

fn shell_command_name(cmd: &Option<ShellCommand>) -> (r: String)
    ensures
        r@ == command_name(*cmd),
{
    match cmd {
        Some(c) => c.command.clone(),
        None => "shell".to_owned(),
    }
}

// ----- input -----

/// What typing into the shell does: the user has acted, and the cursor is shown. Without a shell,
/// nothing happens.
pub open spec fn shell_typed(pre: AppState, data: Seq<char>) -> AppState {
    if pre.shell_popup_state.active_shell_command is Some && data.len() > 0 {
        AppState {
            shell_session_state: ShellSessionState {
                shell_interaction_occurred: true,
                ..pre.shell_session_state
            },
            shell_popup_state: ShellPopupState {
                cursor_visible: true,
                cursor_blink_timer: 0,
                ..pre.shell_popup_state
            },
            ..pre
        }
    } else {
        pre
    }
}

/// Whether the text was handed to the shell, where one runs.
pub open spec fn shell_written(pre: AppState, data: Seq<char>, sent: Outbox, out: Outbox) -> bool {
    if pre.shell_popup_state.active_shell_command is Some {
        sent.affects(out, |e: Effect| e matches Effect::ShellInput(t) && t@ == data)
    } else {
        out == sent
    }
}

/// Types a text into the shell.
pub fn send_shell_input(state: &mut AppState, data: &str, out: &mut Outbox)
    ensures
        *final(state) == shell_typed(*old(state), data@),
        shell_written(*old(state), data@, *old(out), *final(out)),
{
    if state.shell_popup_state.active_shell_command.is_some() {
        if !is_empty(data) {
            state.shell_session_state.shell_interaction_occurred = true;
            state.shell_popup_state.cursor_visible = true;
            state.shell_popup_state.cursor_blink_timer = 0;
        }
        out.ask(Effect::ShellInput(data.to_owned()));
    }
}

// ----- tool calls -----

/// A field's value as a command: a text as it is, any other value as JSON text.
pub open spec fn command_of(v: FieldView) -> Seq<char> {
    match v {
        FieldView::Text(s) => s,
        FieldView::Flag(b) => if b {
            "true"@
        } else {
            "false"@
        },
        FieldView::Other(s) => s,
    }
}

/// The command that a tool call runs, or why there is none.
pub open spec fn call_command(arguments: Seq<char>) -> Result<Seq<char>, Seq<char>> {
    match json_object(arguments) {
        Ok(fields) => match field(fields, "command"@) {
            Some(v) => Ok(command_of(v)),
            None => Err("No 'command' field found in JSON arguments"@),
        },
        Err(e) => Err("Failed to parse JSON: "@ + e),
    }
}

/// The command among the fields of a call's arguments, or why there is none.
pub fn command_in_fields(fields: &Vec<Field>) -> (r: Result<String, String>)
    ensures
        match field(crate::arguments::field_views(fields@), "command"@) {
            Some(v) => r is Ok && r->Ok_0@ == command_of(v),
            None => r is Err && r->Err_0@ == "No 'command' field found in JSON arguments"@,
        },
{
    match crate::arguments::get(fields, "command") {
        Some(FieldValue::Text(s)) => Ok(s.clone()),
        Some(FieldValue::Flag(b)) => if *b {
            Ok("true".to_owned())
        } else {
            Ok("false".to_owned())
        },
        Some(FieldValue::Other(s)) => Ok(s.clone()),
        None => Err("No 'command' field found in JSON arguments".to_owned()),
    }
}

/// The command that a tool call runs, or why there is none.
pub fn extract_command_from_tool_call(tool_call: &ToolCall) -> (r: Result<String, String>)
    ensures
        match call_command(tool_call.function.arguments@) {
            Ok(c) => r is Ok && r->Ok_0@ == c,
            Err(e) => r is Err && r->Err_0@ == e,
        },
{
    match parse_arguments(tool_call.function.arguments.as_str()) {
        Ok(fields) => command_in_fields(&fields),
        Err(e) => {
            let mut text: String = "Failed to parse JSON: ".to_owned();
            text.push_str(e.as_str());
            Err(text)
        },
    }
}

/// The command that a tool call runs, as it is shown.
pub open spec fn shown_command(arguments: Seq<char>) -> Seq<char> {
    match call_command(arguments) {
        Ok(c) => c,
        Err(_) => "unknown command"@,
    }
}

/// The command that a tool call runs, as it is shown.
pub fn command_text(tool_call: &ToolCall) -> (r: String)
    ensures
        r@ == shown_command(tool_call.function.arguments@),
{
    match extract_command_from_tool_call(tool_call) {
        Ok(c) => c,
        Err(_) => "unknown command".to_owned(),
    }
}

/// What a shell's output is reported as: all lines but the last one, the prompt.
pub open spec fn reported_output(output: Option<Seq<char>>) -> Seq<char> {
    match output {
        None => "Interactive shell exited"@,
        Some(o) => {
            let l = lines_of(o);
            let kept = if l.len() > 0 {
                l.drop_last()
            } else {
                l
            };
            let t = trim_of(joined(kept, "\n"@));
            if t.len() == 0 {
                "Command completed (no output)"@
            } else {
                t
            }
        },
    }
}

fn report_output(output: &Option<String>) -> (r: String)
    ensures
        r@ == reported_output(text_of(*output)),
{
    match output {
        None => "Interactive shell exited".to_owned(),
        Some(o) => {
            let l: Vec<String> = lines(o.as_str());
            assert(texts(l@).len() == l@.len());
            let n: usize = if l.len() > 0 {
                l.len() - 1
            } else {
                0
            };
            let kept: String = join(&l, n, "\n");
            proof {
                let all = texts(l@);
                if l@.len() > 0 {
                    assert(texts(l@.take(n as int)) =~= all.drop_last());
                } else {
                    assert(texts(l@.take(n as int)) =~= all);
                }
            }
            let t: String = trim(kept.as_str());
            if is_empty(t.as_str()) {
                "Command completed (no output)".to_owned()
            } else {
                t
            }
        },
    }
}

/// The command that is reported: the given one, else the one that runs.
pub open spec fn reported_command(cmd: Option<Seq<char>>, active: Option<ShellCommand>) -> Seq<
    char,
> {
    match cmd {
        Some(c) => c,
        None => match active {
            Some(a) => a.command@,
            None => Seq::empty(),
        },
    }
}

/// Whether the result reports the shell: under the tool call that asked for it where there is one,
/// else under a new one.
pub open spec fn reports_shell(
    r: ToolCallResult,
    dialog: Option<ToolCall>,
    active: Option<ShellCommand>,
    cmd: Option<Seq<char>>,
    output: Option<Seq<char>>,
) -> bool {
    &&& match dialog {
        Some(d) => r.call.id@ == d.id@ && r.call.function.name@ == d.function.name@
            && r.call.function.bare_name@ == d.function.bare_name@,
        None => (exists|id: u128| r.call.id@ == "tool_"@ + #[trigger] id_text(id))
            && r.call.function.name@ == "run_command"@ && r.call.function.bare_name@
            == "run_command"@,
    }
    &&& r.call.call_type@ == "function"@
    &&& r.call.function.arguments@ == framed(
        "{\"command\": \""@,
        reported_command(cmd, active),
        "\"}"@,
    )
    &&& r.call.metadata is None
    &&& r.result@ == reported_output(output)
    &&& r.status == ToolCallResultStatus::Success
}

/// Reports the shell as the result of a tool call.
pub fn shell_command_to_tool_call_result(
    state: &AppState,
    command_value: Option<String>,
    shell_output: Option<String>,
) -> (r: ToolCallResult)
    ensures
        reports_shell(
            r,
            state.dialog_approval_state.dialog_command,
            state.shell_popup_state.active_shell_command,
            text_of(command_value),
            text_of(shell_output),
        ),
{
    let (id, name, bare_name): (String, String, String) =
        match &state.dialog_approval_state.dialog_command {
        Some(cmd) => (
            cmd.id.clone(),
            cmd.function.name.clone(),
            cmd.function.bare_name.clone(),
        ),
        None => {
            let number: u128 = fresh_id();
            let mut id: String = "tool_".to_owned();
            id.push_str(id_to_text(number).as_str());
            assert(id@ == "tool_"@ + id_text(number));
            (id, "run_command".to_owned(), "run_command".to_owned())
        },
    };
    let command: String = match command_value {
        Some(c) => c,
        None => match &state.shell_popup_state.active_shell_command {
            Some(a) => a.command.clone(),
            None => {
                let none: String = String::new();
                assert(none@ =~= Seq::<char>::empty());
                none
            },
        },
    };
    ToolCallResult {
        call: ToolCall {
            id,
            call_type: "function".to_owned(),
            function: FunctionCall {
                name,
                bare_name,
                arguments: frame("{\"command\": \"", command.as_str(), "\"}"),
            },
            metadata: None,
        },
        result: report_output(&shell_output),
        status: ToolCallResultStatus::Success,
    }
}

// ----- start and end -----

/// What stands in the input after shell mode was switched.
pub open spec fn in_shell_mode(t: TextAreaView, on: bool) -> TextAreaView {
    TextAreaView { shell_mode: on, ..t }
}

/// The state after the shell is gone.
pub open spec fn shell_gone(pre: AppState, post: AppState) -> bool {
    &&& post == (AppState {
        shell_popup_state: ShellPopupState {
            active_shell_command: None,
            active_shell_command_output: None,
            waiting_for_shell_input: false,
            ..pre.shell_popup_state
        },
        shell_session_state: ShellSessionState {
            interactive_shell_message_id: None,
            ..pre.shell_session_state
        },
        ..pre.with_text(post.input_state.text_area)
    })
    &&& post.input_state.text_area@ == in_shell_mode(pre.input_state.text_area@, false)
}

/// Whether the running command is to be ended.
pub open spec fn kill_asked(pre: AppState, sent: Outbox, out: Outbox) -> bool {
    if pre.shell_popup_state.active_shell_command is Some {
        sent.affects(out, |e: Effect| e is KillShell)
    } else {
        out == sent
    }
}

/// Ends the shell.
pub fn handle_shell_kill(state: &mut AppState, out: &mut Outbox)
    ensures
        shell_gone(*old(state), *final(state)),
        kill_asked(*old(state), *old(out), *final(out)),
{
    if state.shell_popup_state.active_shell_command.is_some() {
        out.ask(Effect::KillShell);
    }
    forget_command(&mut state.shell_popup_state);
    state.shell_session_state.interactive_shell_message_id = None;
    state.input_state.text_area.set_shell_mode(false);
}

fn forget_command(p: &mut ShellPopupState)
    ensures
        *final(p) == (ShellPopupState {
            active_shell_command: None,
            active_shell_command_output: None,
            waiting_for_shell_input: false,
            ..*old(p)
        }),
{
    p.active_shell_command = None;
    p.active_shell_command_output = None;
    p.waiting_for_shell_input = false;
}

/// Whether the message with the shell says that the shell has ended.
pub open spec fn ended_content(pre: MessageContent, post: MessageContent, s: ShellPopupState)
    -> bool {
    match pre {
        MessageContent::RenderRefreshedTerminal(_, l, _, w) => {
            let suffix = if s.is_tool_call_shell_command {
                "Completed"@
            } else {
                "Terminated"@
            };
            shows_terminal(
                post,
                framed(
                    framed("Shell Command "@, command_name(s.active_shell_command), " ("@),
                    suffix,
                    ")"@,
                ),
                trimmed_rows(line_views(l@)),
                if s.is_tool_call_shell_command {
                    Tone::Green
                } else {
                    Tone::DarkGray
                },
                framed("Interactive Bash ("@, suffix, ")"@),
                w,
            )
        },
        _ => post == pre,
    }
}

/// The messages after the one with the shell says that the shell has ended.
pub open spec fn ended_message(
    pre: Seq<Message>,
    post: Seq<Message>,
    id: Option<u128>,
    s: ShellPopupState,
) -> bool {
    match id {
        None => post == pre,
        Some(k) => match message_at(pre, k, 0) {
            None => post == pre,
            Some(i) => {
                &&& 0 <= i < pre.len()
                &&& post.len() == pre.len()
                &&& post == pre.update(i, Message { content: post[i].content, ..pre[i] })
                &&& ended_content(pre[i].content, post[i].content, s)
            },
        },
    }
}

/// The popup after a command that was run for the model was reported: where no tool call waits for
/// it, the report goes out with the next message of the user.
pub open spec fn command_reported(pre: AppState, post: AppState) -> bool {
    let p = pre.shell_popup_state;
    let q = post.shell_popup_state;
    if p.pending_command_executed {
        &&& q == (ShellPopupState {
            pending_command_executed: false,
            pending_command_value: None,
            pending_command_output: None,
            pending_command_output_count: 0,
            shell_tool_calls: q.shell_tool_calls,
            ..p
        })
        &&& post == (AppState {
            shell_popup_state: q,
            dialog_approval_state: DialogApprovalState {
                dialog_command: None,
                ..pre.dialog_approval_state
            },
            ..pre
        })
        &&& if p.is_tool_call_shell_command {
            q.shell_tool_calls == p.shell_tool_calls
        } else {
            let before = match shell_view(p.shell_tool_calls) {
                Some(v) => v,
                None => Seq::empty(),
            };
            &&& q.shell_tool_calls is Some
            &&& crate::events::one_more(
                before,
                q.shell_tool_calls->0@,
                |r: ToolCallResult|
                    reports_shell(
                        r,
                        pre.dialog_approval_state.dialog_command,
                        p.active_shell_command,
                        text_of(p.pending_command_value),
                        text_of(p.pending_command_output),
                    ),
            )
        }
    } else {
        post == pre
    }
}

fn report_command(state: &mut AppState)
    ensures
        command_reported(*old(state), *final(state)),
{
    if !state.shell_popup_state.pending_command_executed {
        return;
    }
    let value: Option<String> = copy_text(&state.shell_popup_state.pending_command_value);
    let output: Option<String> = copy_text(&state.shell_popup_state.pending_command_output);
    let result: ToolCallResult = shell_command_to_tool_call_result(state, value, output);
    state.shell_popup_state.pending_command_value = None;
    state.shell_popup_state.pending_command_output = None;
    if !state.shell_popup_state.is_tool_call_shell_command {
        let mut calls: Option<Vec<ToolCallResult>> = None;
        std::mem::swap(&mut calls, &mut state.shell_popup_state.shell_tool_calls);
        let mut all: Vec<ToolCallResult> = match calls {
            Some(v) => v,
            None => {
                let none: Vec<ToolCallResult> = Vec::new();
                assert(none@ =~= Seq::<ToolCallResult>::empty());
                none
            },
        };
        let ghost before = all@;
        all.push(result);
        assert(all@.drop_last() =~= before);
        state.shell_popup_state.shell_tool_calls = Some(all);
    }
    state.shell_popup_state.pending_command_executed = false;
    state.shell_popup_state.pending_command_output_count = 0;
    state.dialog_approval_state.dialog_command = None;
}

fn mark_ended(state: &mut AppState)
    ensures
        *final(state) == old(state).with_messages(
            (MessagesScrollingState {
                messages: final(state).messages_scrolling_state.messages,
                ..old(state).messages_scrolling_state
            }),
        ),
        ended_message(
            old(state).messages_scrolling_state.messages@,
            final(state).messages_scrolling_state.messages@,
            old(state).shell_session_state.interactive_shell_message_id,
            old(state).shell_popup_state,
        ),
{
    let id: u128 = match state.shell_session_state.interactive_shell_message_id {
        Some(id) => id,
        None => {
            return;
        },
    };
    let i: usize = match find_message(&state.messages_scrolling_state.messages, id) {
        Some(i) => i,
        None => {
            return;
        },
    };
    let ghost before = state.messages_scrolling_state.messages@;
    let tool: bool = state.shell_popup_state.is_tool_call_shell_command;
    let suffix: &str = if tool {
        "Completed"
    } else {
        "Terminated"
    };
    let tone: Tone = if tool {
        Tone::Green
    } else {
        Tone::DarkGray
    };
    let name: String = shell_command_name(&state.shell_popup_state.active_shell_command);
    let content: Option<MessageContent> = match &state.messages_scrolling_state.messages[i].content {
        MessageContent::RenderRefreshedTerminal(_, l, _, w) => {
            let rows: Vec<Line> = trim_shell_lines(all_lines(l));
            let head: String = frame("Shell Command ", name.as_str(), " (");
            Some(
                terminal_content(
                    frame(head.as_str(), suffix, ")"),
                    rows,
                    tone,
                    frame("Interactive Bash (", suffix, ")"),
                    *w,
                ),
            )
        },
        _ => None,
    };
    match content {
        Some(c) => {
            set_content(&mut state.messages_scrolling_state.messages, i, c);
        },
        None => {
            assert(before =~= before.update(i as int, before[i as int]));
        },
    }
}

/// The state after the shell was ended, with its command reported and its message marked.
pub open spec fn terminated(pre: AppState, post: AppState, sent: Outbox, out: Outbox) -> bool {
    if pre.shell_popup_state.active_shell_command is Some {
        exists|mid: AppState, marked: AppState| #[trigger]
            command_reported(pre, mid) && #[trigger] shell_gone(marked, post) && marked
                == mid.with_messages(
                (MessagesScrollingState {
                    messages: marked.messages_scrolling_state.messages,
                    ..mid.messages_scrolling_state
                }),
            ) && ended_message(
                mid.messages_scrolling_state.messages@,
                marked.messages_scrolling_state.messages@,
                mid.shell_session_state.interactive_shell_message_id,
                mid.shell_popup_state,
            ) && kill_asked(marked, sent, out)
    } else {
        post == pre && out == sent
    }
}

/// Ends the shell, with its command reported and its message marked.
pub fn terminate_active_shell_session(state: &mut AppState, out: &mut Outbox)
    ensures
        terminated(*old(state), *final(state), *old(out), *final(out)),
        final(state).shell_popup_state.active_shell_command is None,
{
    if state.shell_popup_state.active_shell_command.is_some() {
        report_command(state);
        let ghost mid = *state;
        mark_ended(state);
        let ghost marked = *state;
        handle_shell_kill(state, out);
        assert(command_reported(*old(state), mid) && shell_gone(marked, *state));
    }
}

/// How many rows and columns a shell has on a screen: two rows and four columns less, and at least
/// one of each.
pub open spec fn shell_room(size: Size) -> (u16, u16) {
    (
        if size.height > 3 {
            (size.height - 2) as u16
        } else {
            1
        },
        if size.width > 5 {
            (size.width - 4) as u16
        } else {
            1
        },
    )
}

/// How many rows and columns a shell has on a screen.
pub fn shell_size(size: Size) -> (r: (u16, u16))
    ensures
        r == shell_room(size),
{
    (
        if size.height > 3 {
            size.height - 2
        } else {
            1
        },
        if size.width > 5 {
            size.width - 4
        } else {
            1
        },
    )
}

/// Runs a program in a terminal of its own; for a tool call, the command that waits is typed into it.
pub fn handle_run_shell_command(state: &AppState, command: String, out: &mut Outbox)
    ensures
        old(out).affects(
            *final(out),
            |e: Effect|
                e matches Effect::SpawnShell(c, t) && c == command && text_of(t) == (
                if state.shell_popup_state.is_tool_call_shell_command {
                    text_of(state.shell_popup_state.pending_command_value)
                } else {
                    None
                }),
        ),
{
    let to_type: Option<String> = if state.shell_popup_state.is_tool_call_shell_command {
        copy_text(&state.shell_popup_state.pending_command_value)
    } else {
        None
    };
    out.ask(Effect::SpawnShell(command, to_type));
}

/// Says that the program could not be run.
pub fn shell_failed(state: &mut AppState, error: &str)
    ensures
        block_pushed(
            *old(state),
            *final(state),
            error_rows("Failed to run command: "@ + error@, false),
        ),
{
    let mut text: String = "Failed to run command: ".to_owned();
    text.push_str(error);
    push_error_message(state, text.as_str(), None);
}

/// The size of the terminal in which a command runs: that of the screen, where it is known.
pub open spec fn command_size(s: AppState) -> (u16, u16) {
    let size = s.terminal_ui_state.terminal_size;
    (
        if size.height > 0 {
            size.height
        } else {
            24
        },
        if size.width > 0 {
            size.width
        } else {
            80
        },
    )
}

/// What is shown of a command that is run.
pub open spec fn command_said(command: Seq<char>) -> Seq<spec_fn(MessageContent) -> bool> {
    seq![
        |c: MessageContent| is_spacing(c),
        |c: MessageContent|
            is_row(
                c,
                seq![
                    tinted("$ "@, Color::Theme(Tone::Magenta)),
                    tinted(command, Color::Theme(Tone::Text)),
                ],
            ),
        |c: MessageContent| is_spacing(c),
    ]
}

/// What running a command of the user does: it is shown, and is to be run.
pub open spec fn command_run(
    pre: AppState,
    post: AppState,
    command: String,
    sent: Outbox,
    out: Outbox,
) -> bool {
    let m = pre.messages_scrolling_state;
    let n = post.messages_scrolling_state;
    let (rows, cols) = command_size(pre);
    &&& post == pre.with_messages(
        MessagesScrollingState { messages: n.messages, lines_stale: true, ..m },
    )
    &&& appended(m.messages@, n.messages@, command_said(command@))
    &&& sent.affects(out, |e: Effect| e == Effect::RunCommand(command, rows, cols))
}

impl AppState {
    /// Runs a command of the user.
    pub fn run_shell_command(&mut self, command: String, out: &mut Outbox)
        ensures
            command_run(*old(self), *final(self), command, *old(out), *final(out)),
    {
        let ghost before = self.messages_scrolling_state.messages@;
        self.push_message(MessageContent::PlainText("SPACING_MARKER".to_owned()));
        let ghost one = self.messages_scrolling_state.messages@;
        push_styled_message(
            self,
            command.as_str(),
            Color::Theme(Tone::Text),
            "$ ",
            Color::Theme(Tone::Magenta),
        );
        let ghost two = self.messages_scrolling_state.messages@;
        self.push_message(MessageContent::PlainText("SPACING_MARKER".to_owned()));
        let height: u16 = self.terminal_ui_state.terminal_size.height;
        let width: u16 = self.terminal_ui_state.terminal_size.width;
        let rows: u16 = if height > 0 {
            height
        } else {
            24
        };
        let cols: u16 = if width > 0 {
            width
        } else {
            80
        };
        proof {
            let after = self.messages_scrolling_state.messages@;
            let n = before.len() as int;
            let ps = command_said(command@);
            assert forall|i: int| 0 <= i < n implies after[i] == before[i] by {
                assert(after[i] == after.drop_last()[i]);
                assert(two[i] == two.drop_last()[i]);
                assert(one[i] == one.drop_last()[i]);
            }
            assert(after.take(n) =~= before);
            assert(after[n] == after.drop_last()[n] && two[n] == two.drop_last()[n]);
            assert(after[n + 1] == after.drop_last()[n + 1]);
            assert forall|i: int| 0 <= i < ps.len() implies crate::message::new_message(
                after[n + i],
                #[trigger] ps[i],
            ) by {}
        }
        out.ask(Effect::RunCommand(command, rows, cols));
    }
}

/// The state in which a command of the user runs in a terminal of the given size.
pub open spec fn command_started(
    pre: AppState,
    post: AppState,
    command: ShellCommand,
    rows: u16,
    cols: u16,
) -> bool {
    &&& post == (AppState {
        shell_popup_state: ShellPopupState {
            active_shell_command: Some(command),
            active_shell_command_output: post.shell_popup_state.active_shell_command_output,
            ..pre.shell_popup_state
        },
        shell_runtime_state: ShellRuntimeState {
            screen: post.shell_runtime_state.screen,
            ..pre.shell_runtime_state
        },
        ..pre
    })
    &&& text_of(post.shell_popup_state.active_shell_command_output) == Some(Seq::<char>::empty())
    &&& is_fresh_screen(post.shell_runtime_state.screen@, rows, cols, 0)
}

/// Takes over a command of the user that was started in a terminal of the given size, or says why it
/// could not be.
pub fn handle_command_run(
    state: &mut AppState,
    outcome: Result<ShellCommand, String>,
    rows: u16,
    cols: u16,
)
    requires
        rows > 0,
        cols > 0,
    ensures
        match outcome {
            Ok(command) => command_started(*old(state), *final(state), command, rows, cols),
            Err(error) => block_pushed(
                *old(state),
                *final(state),
                error_rows("Failed to run command: "@ + error@, false),
            ),
        },
{
    match outcome {
        Ok(command) => {
            state.shell_popup_state.active_shell_command = Some(command);
            state.shell_popup_state.active_shell_command_output = Some(String::new());
            state.shell_runtime_state.screen = Terminal::new(rows, cols, 0);
        },
        Err(error) => {
            shell_failed(state, error.as_str());
        },
    }
}

/// The row that says that the shell starts.
pub open spec fn starting_row() -> Seq<SpanView> {
    seq![
        SpanView {
            content: "  Starting shell..."@,
            style: Style::plain().fg(Color::Theme(Tone::Warning)).strong(),
        },
    ]
}

/// The state after a program was started: a fresh screen, a message of its own, and the popup open.
pub open spec fn shell_started(pre: AppState, post: AppState, command: ShellCommand, rows: u16,
    cols: u16) -> bool {
    let p = pre.shell_popup_state;
    let q = post.shell_popup_state;
    let id = post.shell_session_state.interactive_shell_message_id;
    &&& post == (AppState {
        shell_popup_state: q,
        shell_runtime_state: post.shell_runtime_state,
        shell_session_state: ShellSessionState {
            interactive_shell_message_id: id,
            shell_interaction_occurred: false,
        },
        messages_scrolling_state: post.messages_scrolling_state,
        ..pre.with_text(post.input_state.text_area)
    })
    &&& q == (ShellPopupState {
        active_shell_command: Some(command),
        active_shell_command_output: q.active_shell_command_output,
        is_loading: true,
        is_visible: true,
        is_expanded: true,
        scroll: 0,
        ..p
    })
    &&& text_of(q.active_shell_command_output) == Some(Seq::<char>::empty())
    &&& is_fresh_screen(post.shell_runtime_state.screen@, rows, cols, 1000)
    &&& post.shell_runtime_state.history_lines@.len() == 0
    &&& post.shell_runtime_state.scroll == pre.shell_runtime_state.scroll
    &&& post.messages_scrolling_state == (MessagesScrollingState {
        messages: post.messages_scrolling_state.messages,
        lines_stale: true,
        ..pre.messages_scrolling_state
    })
    &&& pushed(
        pre.messages_scrolling_state.messages@,
        post.messages_scrolling_state.messages@,
        |c: MessageContent|
            shows_terminal(
                c,
                framed("Shell Command "@, command.command@, " [Initializing]"@),
                seq![starting_row()],
                Tone::Warning,
                "Interactive Bash"@,
                pre.terminal_ui_state.terminal_size.width as usize,
            ),
    )
    &&& id == Some(post.messages_scrolling_state.messages@.last().id)
    &&& post.input_state.text_area@ == in_shell_mode(pre.input_state.text_area@, true)
}

/// Takes over a program that was started in a terminal of the given size.
pub fn handle_shell_started(state: &mut AppState, command: ShellCommand, rows: u16, cols: u16)
    requires
        rows > 0,
        cols > 0,
    ensures
        shell_started(*old(state), *final(state), command, rows, cols),
{
    let title: String = frame("Shell Command ", command.command.as_str(), " [Initializing]");
    let row: Line = Line::of(
        Span::styled(
            "  Starting shell...",
            Style::plain().fg(Color::Theme(Tone::Warning)).strong(),
        ),
    );
    let mut content_rows: Vec<Line> = Vec::new();
    content_rows.push(row);
    assert(line_views(content_rows@) =~= seq![starting_row()]);
    let m: Message = Message::new(
        terminal_content(
            title,
            content_rows,
            Tone::Warning,
            "Interactive Bash".to_owned(),
            state.terminal_ui_state.terminal_size.width as usize,
        ),
    );
    let output: String = String::new();
    assert(output@ =~= Seq::<char>::empty());
    state.shell_popup_state.active_shell_command = Some(command);
    state.shell_popup_state.active_shell_command_output = Some(output);
    state.shell_runtime_state.screen = Terminal::new(rows, cols, 1000);
    state.shell_session_state.shell_interaction_occurred = false;
    state.shell_popup_state.is_loading = true;
    state.shell_runtime_state.history_lines.clear();
    state.shell_session_state.interactive_shell_message_id = Some(m.id);
    state.messages_scrolling_state.messages.push(m);
    assert(state.messages_scrolling_state.messages@.drop_last()
        =~= old(state).messages_scrolling_state.messages@);
    state.shell_popup_state.is_visible = true;
    state.shell_popup_state.is_expanded = true;
    state.shell_popup_state.scroll = 0;
    state.messages_scrolling_state.lines_stale = true;
    state.input_state.text_area.set_shell_mode(true);
}

/// The state after a command of a tool call was prepared for the shell.
pub open spec fn command_prepared(pre: AppState, post: AppState, command: Seq<char>) -> bool {
    let q = post.shell_popup_state;
    &&& post == (AppState { shell_popup_state: q, ..pre })
    &&& q == (ShellPopupState {
        is_tool_call_shell_command: true,
        pending_command_value: q.pending_command_value,
        pending_command_executed: false,
        pending_command_output: q.pending_command_output,
        pending_command_output_count: 0,
        shell_initial_prompt_shown: false,
        shell_command_typed: false,
        ..pre.shell_popup_state
    })
    &&& text_of(q.pending_command_value) == Some(command)
    &&& text_of(q.pending_command_output) == Some(Seq::<char>::empty())
}

/// Whether a program is to be run, with a command typed into it.
pub open spec fn spawn_asked(sent: Outbox, out: Outbox, command: Seq<char>) -> bool {
    sent.affects(
        out,
        |e: Effect|
            e matches Effect::SpawnShell(c, t) && c@ == command && text_of(t) == Some(command),
    )
}

/// Runs the command of a tool call in a shell that the user can type into.
pub fn handle_run_shell_with_command(state: &mut AppState, command: String, out: &mut Outbox)
    ensures
        command_prepared(*old(state), *final(state), command@),
        spawn_asked(*old(out), *final(out), command@),
{
    let output: String = String::new();
    assert(output@ =~= Seq::<char>::empty());
    state.shell_popup_state.is_tool_call_shell_command = true;
    state.shell_popup_state.pending_command_value = Some(command.clone());
    state.shell_popup_state.pending_command_executed = false;
    state.shell_popup_state.pending_command_output = Some(output);
    state.shell_popup_state.pending_command_output_count = 0;
    state.shell_popup_state.shell_initial_prompt_shown = false;
    state.shell_popup_state.shell_command_typed = false;
    handle_run_shell_command(state, command, out);
}

/// The state after the shell went to the background: its message is grey, and the input is empty.
pub open spec fn backgrounded(pre: AppState, post: AppState) -> bool {
    if !pre.shell_popup_state.is_expanded {
        post == pre
    } else {
        let m = pre.messages_scrolling_state;
        let n = post.messages_scrolling_state;
        &&& post == (AppState {
            shell_popup_state: ShellPopupState { is_expanded: false, ..pre.shell_popup_state },
            messages_scrolling_state: n,
            ..pre.with_text(post.input_state.text_area)
        })
        &&& post.input_state.text_area@ == (TextAreaView {
            shell_mode: false,
            text: Seq::empty(),
            cursor: 0,
            ..pre.input_state.text_area@
        })
        &&& shown_in(
            m,
            n,
            pre.shell_session_state.interactive_shell_message_id,
            |c: MessageContent|
                shows_terminal(
                    c,
                    framed(
                        "Shell Command "@,
                        command_name(pre.shell_popup_state.active_shell_command),
                        " (Background - Esc to exit)"@,
                    ),
                    with_command(
                        text_of(pre.shell_popup_state.pending_command_value),
                        trimmed_rows(line_views(pre.shell_runtime_state.history_lines@)),
                    ),
                    Tone::DarkGray,
                    "Interactive Bash"@,
                    pre.terminal_ui_state.terminal_size.width as usize,
                ),
        )
    }
}

/// Puts the shell into the background.
pub fn background_shell_session(state: &mut AppState)
    ensures
        backgrounded(*old(state), *final(state)),
{
    if !state.shell_popup_state.is_expanded {
        return;
    }
    let name: String = shell_command_name(&state.shell_popup_state.active_shell_command);
    let history: Vec<Line> = trim_shell_lines(all_lines(&state.shell_runtime_state.history_lines));
    let rows: Vec<Line> = put_command(&state.shell_popup_state.pending_command_value, history);
    let content: MessageContent = terminal_content(
        frame("Shell Command ", name.as_str(), " (Background - Esc to exit)"),
        rows,
        Tone::DarkGray,
        "Interactive Bash".to_owned(),
        state.terminal_ui_state.terminal_size.width as usize,
    );
    let id: Option<u128> = state.shell_session_state.interactive_shell_message_id;
    show_in(&mut state.messages_scrolling_state, id, content);
    state.shell_popup_state.is_expanded = false;
    leave_shell_input(&mut state.input_state.text_area);
}

/// Whether the message with the identifier, where there is one, got content of which `p` holds, and
/// the rows are out of date.
pub open spec fn shown_in(
    pre: MessagesScrollingState,
    post: MessagesScrollingState,
    id: Option<u128>,
    p: spec_fn(MessageContent) -> bool,
) -> bool {
    &&& post == (MessagesScrollingState { messages: post.messages, lines_stale: true, ..pre })
    &&& match id {
        None => post.messages@ == pre.messages@,
        Some(k) => content_set(pre.messages@, post.messages@, k, p),
    }
}

fn show_in(m: &mut MessagesScrollingState, id: Option<u128>, content: MessageContent)
    ensures
        shown_in(*old(m), *final(m), id, |c: MessageContent| c == content),
{
    match id {
        Some(k) => {
            set_content_of(&mut m.messages, k, content);
        },
        None => {},
    }
    m.lines_stale = true;
}

fn leave_shell_input(t: &mut TextArea)
    ensures
        final(t)@ == (TextAreaView {
            shell_mode: false,
            text: Seq::empty(),
            cursor: 0,
            ..old(t)@
        }),
{
    t.set_shell_mode(false);
    clear_text(t);
}

fn look(t: &mut Terminal) -> (c: Capture)
    ensures
        final(t)@ == looked_at(old(t)@),
        size_of(final(t)@.emulator) == size_of(old(t)@.emulator),
        crate::shell_screen::is_capture(c, old(t)@.emulator),
{
    let mut held: Terminal = Terminal::new(1, 1, 0);
    std::mem::swap(&mut held, t);
    let (next, c): (Terminal, Capture) = held.capture();
    *t = next;
    c
}

fn write_to(t: &mut Terminal, data: &str)
    requires
        readable(old(t)@),
    ensures
        final(t)@ == written(old(t)@, encode_utf8(data@)),
        size_of(final(t)@.emulator) == size_of(old(t)@.emulator),
{
    let mut held: Terminal = Terminal::new(1, 1, 0);
    std::mem::swap(&mut held, t);
    *t = held.process(data.as_bytes());
}

/// What the key for the shell does. In the shell it is typed; a shell in the background comes back;
/// a shell that runs is shown; else the user's shell is started.
pub open spec fn shell_mode_entered(pre: AppState, post: AppState, sent: Outbox, out: Outbox)
    -> bool {
    let p = pre.shell_popup_state;
    let t = post.input_state.text_area;
    if p.is_expanded {
        &&& post == pre
        &&& if p.active_shell_command is Some {
            sent.affects(out, |e: Effect| e matches Effect::ShellInput(d) && d@ == "$"@)
        } else {
            out == sent
        }
    } else if p.is_visible {
        out == sent && shell_expanded(pre, post)
    } else if p.active_shell_command is Some {
        &&& out == sent
        &&& post == (AppState {
            shell_popup_state: ShellPopupState { is_visible: true, is_expanded: true, ..p },
            messages_scrolling_state: MessagesScrollingState {
                lines_stale: true,
                ..pre.messages_scrolling_state
            },
            ..pre.with_text(t)
        })
        &&& t@ == in_shell_mode(pre.input_state.text_area@, true)
    } else {
        &&& sent.affects(out, |e: Effect| e is StartShell)
        &&& post == (AppState {
            shell_popup_state: ShellPopupState {
                ondemand_shell_mode: true,
                pending_command_value: None,
                pending_command_executed: false,
                is_tool_call_shell_command: false,
                ..p
            },
            ..pre
        })
    }
}

/// The key for the shell was pressed.
pub fn handle_shell_mode(state: &mut AppState, out: &mut Outbox)
    ensures
        shell_mode_entered(*old(state), *final(state), *old(out), *final(out)),
{
    if state.shell_popup_state.is_expanded {
        if state.shell_popup_state.active_shell_command.is_some() {
            out.ask(Effect::ShellInput("$".to_owned()));
        }
        return;
    }
    if state.shell_popup_state.is_visible {
        expand_shell(state);
        return;
    }
    if state.shell_popup_state.active_shell_command.is_some() {
        open_popup(&mut state.shell_popup_state);
        state.input_state.text_area.set_shell_mode(true);
        state.messages_scrolling_state.lines_stale = true;
        return;
    }
    ask_for_shell(&mut state.shell_popup_state);
    out.ask(Effect::StartShell);
}

fn open_popup(p: &mut ShellPopupState)
    ensures
        *final(p) == (ShellPopupState { is_visible: true, is_expanded: true, ..*old(p) }),
{
    p.is_visible = true;
    p.is_expanded = true;
}

fn ask_for_shell(p: &mut ShellPopupState)
    ensures
        *final(p) == (ShellPopupState {
            ondemand_shell_mode: true,
            pending_command_value: None,
            pending_command_executed: false,
            is_tool_call_shell_command: false,
            ..*old(p)
        }),
{
    p.ondemand_shell_mode = true;
    p.pending_command_value = None;
    p.pending_command_executed = false;
    p.is_tool_call_shell_command = false;
}

/// The state after a shell came back from the background: its message shows its screen.
pub open spec fn shell_expanded(pre: AppState, post: AppState) -> bool {
    let p = pre.shell_popup_state;
    let t = post.input_state.text_area;
    let n = post.messages_scrolling_state;
    &&& post == (AppState {
        shell_popup_state: ShellPopupState { is_expanded: true, ..p },
        shell_runtime_state: post.shell_runtime_state,
        messages_scrolling_state: n,
        ..pre.with_text(t)
    })
    &&& t@ == in_shell_mode(pre.input_state.text_area@, true)
    &&& match pre.shell_session_state.interactive_shell_message_id {
        None => n == pre.messages_scrolling_state && post.shell_runtime_state
            == pre.shell_runtime_state,
        Some(id) => {
            &&& post.shell_runtime_state == (ShellRuntimeState {
                screen: post.shell_runtime_state.screen,
                ..pre.shell_runtime_state
            })
            &&& post.shell_runtime_state.screen@ == looked_at(pre.shell_runtime_state.screen@)
            &&& shown_in(
                pre.messages_scrolling_state,
                n,
                Some(id),
                |c: MessageContent|
                    shows_terminal(
                        c,
                        framed(
                            "Shell Command "@,
                            command_name(p.active_shell_command),
                            " [Focused]"@,
                        ),
                        screen_rows(scrolled(pre.shell_runtime_state.screen@.emulator, 0)),
                        Tone::Cyan,
                        "Interactive Bash"@,
                        pre.terminal_ui_state.terminal_size.width as usize,
                    ),
            )
        },
    }
}

fn expand_shell(state: &mut AppState)
    ensures
        shell_expanded(*old(state), *final(state)),
{
    let id: Option<u128> = state.shell_session_state.interactive_shell_message_id;
    if id.is_some() {
        let name: String = shell_command_name(&state.shell_popup_state.active_shell_command);
        let shot: Capture = look(&mut state.shell_runtime_state.screen);
        let content: MessageContent = terminal_content(
            frame("Shell Command ", name.as_str(), " [Focused]"),
            shot.lines,
            Tone::Cyan,
            "Interactive Bash".to_owned(),
            state.terminal_ui_state.terminal_size.width as usize,
        );
        show_in(&mut state.messages_scrolling_state, id, content);
    }
    state.shell_popup_state.is_expanded = true;
    state.input_state.text_area.set_shell_mode(true);
}

// ----- output -----

/// The rows that are remembered after the screen showed `s`, with `total` rows in all of which
/// `rows` are on the screen. Rows that are new come behind the others, as many as the shell has more
/// than are remembered; where there are none, the screen takes the place of the last rows. The
/// oldest rows are forgotten.
pub open spec fn remembered(
    h: Seq<Seq<SpanView>>,
    s: Seq<Seq<SpanView>>,
    total: nat,
    rows: nat,
) -> Seq<Seq<SpanView>> {
    if h.len() == 0 {
        s
    } else if s.len() == 0 {
        h
    } else if total > h.len() {
        let more = (total - h.len()) as int;
        let grown = if more < s.len() {
            h + s.skip(s.len() - more)
        } else {
            h + s
        };
        if grown.len() > MAX_HISTORY {
            grown.skip(grown.len() - MAX_HISTORY)
        } else {
            grown
        }
    } else {
        h.take(if h.len() >= rows {
            h.len() - rows
        } else {
            0
        }) + s
    }
}

fn append_lines(h: &mut Vec<Line>, s: &Vec<Line>, from: usize)
    requires
        from <= s@.len(),
    ensures
        line_views(final(h)@) == line_views(old(h)@) + line_views(s@).skip(from as int),
{
    let ghost before = line_views(h@);
    let ghost sv = line_views(s@);
    let mut i: usize = from;
    assert(line_views(h@) =~= before + sv.subrange(from as int, i as int));
    while i < s.len()
        invariant
            from <= i <= s@.len(),
            sv == line_views(s@),
            line_views(h@) == before + sv.subrange(from as int, i as int),
        decreases s@.len() - i,
    {
        let l: Line = s[i].clone();
        proof {
            lemma_line_views_push(h@, l);
        }
        h.push(l);
        assert(sv[i as int] == s@[i as int]@);
        assert(sv.subrange(from as int, i + 1) =~= sv.subrange(from as int, i as int).push(
            sv[i as int],
        ));
        i += 1;
        assert(line_views(h@) =~= before + sv.subrange(from as int, i as int));
    }
    assert(sv.subrange(from as int, i as int) =~= sv.skip(from as int));
}

fn remember(h: &mut Vec<Line>, s: &Vec<Line>, total: usize, rows: usize)
    ensures
        line_views(final(h)@) == remembered(
            line_views(old(h)@),
            line_views(s@),
            total as nat,
            rows as nat,
        ),
{
    let ghost hv = line_views(h@);
    let ghost sv = line_views(s@);
    assert(hv.len() == h@.len());
    assert(sv.len() == s@.len());
    if h.len() == 0 {
        *h = all_lines(s);
    } else if s.len() > 0 {
        let known: usize = h.len();
        if total > known {
            let more: usize = total - known;
            let from: usize = if more < s.len() {
                s.len() - more
            } else {
                0
            };
            append_lines(h, s, from);
            assert(from == 0 ==> sv.skip(0) =~= sv);
            let ghost grown = line_views(h@);
            assert(grown.len() == h@.len());
            if h.len() > MAX_HISTORY {
                let n: usize = h.len();
                *h = copy_lines(h, n - MAX_HISTORY, n);
                assert(line_views(h@) =~= grown.skip(n - MAX_HISTORY));
            }
        } else {
            let keep: usize = if known >= rows {
                known - rows
            } else {
                0
            };
            h.truncate(keep);
            assert(line_views(h@) =~= hv.take(keep as int));
            append_lines(h, s, 0);
            assert(sv.skip(0) =~= sv);
        }
    }
}

/// The rows that are remembered are never more than the limit, or than the screen has.
pub proof fn law_history_bounded(
    h: Seq<Seq<SpanView>>,
    s: Seq<Seq<SpanView>>,
    total: nat,
    rows: nat,
)
    requires
        s.len() == rows,
        total >= rows,
        h.len() <= MAX_HISTORY || h.len() <= rows,
    ensures
        remembered(h, s, total, rows).len() <= MAX_HISTORY || remembered(h, s, total, rows).len()
            <= rows,
{
}

/// The last rows that are remembered are those of the screen, unless rows were skipped.
pub proof fn law_screen_is_last(
    h: Seq<Seq<SpanView>>,
    s: Seq<Seq<SpanView>>,
    total: nat,
    rows: nat,
)
    requires
        0 < s.len() <= MAX_HISTORY,
        total <= h.len() || total - h.len() >= s.len() || h.len() == 0,
    ensures
        remembered(h, s, total, rows).len() >= s.len(),
        remembered(h, s, total, rows).skip(remembered(h, s, total, rows).len() - s.len()) == s,
{
    let r = remembered(h, s, total, rows);
    assert(r.skip(r.len() - s.len()) =~= s);
}

/// Where the shell has no more rows than are remembered, only the last rows give way to the screen:
/// all those before them stay as they are, and the screen comes right behind them.
pub proof fn law_older_rows_stay(
    h: Seq<Seq<SpanView>>,
    s: Seq<Seq<SpanView>>,
    total: nat,
    rows: nat,
)
    requires
        0 < s.len(),
        total <= h.len(),
    ensures
        ({
            let r = remembered(h, s, total, rows);
            let kept = if h.len() >= rows {
                h.len() - rows
            } else {
                0
            };
            &&& r.len() == kept + s.len()
            &&& forall|i: int| 0 <= i < kept ==> #[trigger] r[i] == h[i]
            &&& forall|i: int| 0 <= i < s.len() ==> r[kept + i] == #[trigger] s[i]
        }),
{
}

/// Where the shell has more rows than are remembered, the new rows come behind the others, as many
/// as there are more, the last ones of the screen. While there is room for all, no remembered row is
/// lost; beyond that the oldest go, and the newest stay.
pub proof fn law_new_rows_come_behind(
    h: Seq<Seq<SpanView>>,
    s: Seq<Seq<SpanView>>,
    total: nat,
    rows: nat,
)
    requires
        0 < h.len() < total,
        0 < s.len(),
    ensures
        ({
            let r = remembered(h, s, total, rows);
            let more = if total - h.len() < s.len() {
                total - h.len()
            } else {
                s.len() as int
            };
            let gone = h.len() + more - r.len();
            &&& 0 <= gone
            &&& h.len() + more <= MAX_HISTORY ==> gone == 0
            &&& h.len() + more > MAX_HISTORY ==> r.len() == MAX_HISTORY
            &&& forall|i: int| gone <= i < h.len() ==> r[i - gone] == #[trigger] h[i]
            &&& forall|i: int|
                gone <= h.len() && s.len() - more <= i < s.len() ==> r[h.len() - gone + i - (s.len()
                    - more)] == #[trigger] s[i]
        }),
{
}

/// Where nothing is remembered the screen is, and an empty screen changes nothing.
pub proof fn law_empty_side_adds_nothing(
    h: Seq<Seq<SpanView>>,
    s: Seq<Seq<SpanView>>,
    total: nat,
    rows: nat,
)
    ensures
        h.len() == 0 ==> remembered(h, s, total, rows) == s,
        h.len() > 0 && s.len() == 0 ==> remembered(h, s, total, rows) == h,
{
}

/// One more, as far as a number can go.
pub open spec fn one_up(n: usize) -> usize {
    if n < usize::MAX {
        (n + 1) as usize
    } else {
        n
    }
}

/// Whether the shell's first output is awaited for a tool call, or its output is kept.
pub open spec fn keeps_output(p: ShellPopupState) -> bool {
    p.pending_command_executed || p.is_tool_call_shell_command
}

/// How many pieces of output were kept.
pub open spec fn kept_count(p: ShellPopupState) -> usize {
    if keeps_output(p) {
        one_up(p.pending_command_output_count)
    } else {
        p.pending_command_output_count
    }
}

/// The shell's screen after it wrote.
pub open spec fn written_screen(pre: AppState, data: Seq<char>) -> vt100::Parser {
    written(pre.shell_runtime_state.screen@, encode_utf8(data)).emulator
}

/// What the shell shows after it wrote, behind the command that waits.
pub open spec fn shown_rows(pre: AppState, data: Seq<char>) -> Seq<Seq<SpanView>> {
    with_command(
        text_of(pre.shell_popup_state.pending_command_value),
        trimmed_rows(screen_rows(scrolled(written_screen(pre, data), 0))),
    )
}

pub open spec fn shell_title(p: ShellPopupState) -> Seq<char> {
    if p.is_expanded {
        framed("Shell Command "@, program_name(p.active_shell_command), " [Focused]"@)
    } else {
        framed(
            "Shell Command "@,
            program_name(p.active_shell_command),
            " (Background - '$' to focus)"@,
        )
    }
}

/// Whether the content shows the shell as it is after it wrote.
pub open spec fn shows_output(c: MessageContent, pre: AppState, data: Seq<char>) -> bool {
    shows_terminal(
        c,
        shell_title(pre.shell_popup_state),
        shown_rows(pre, data),
        if pre.shell_popup_state.is_expanded {
            Tone::Cyan
        } else {
            Tone::DarkGray
        },
        "Interactive Bash"@,
        pre.terminal_ui_state.terminal_size.width as usize,
    )
}

/// Rows in all: those that have left the screen at the top, and those on it.
pub open spec fn total_rows(p: vt100::Parser) -> nat {
    let n = offset_of(scrolled(scrolled(p, 0), usize::MAX)) + size_of(p).0;
    if n > usize::MAX {
        usize::MAX as nat
    } else {
        n as nat
    }
}

/// The popup after the shell wrote. The kept output and the log grow. For a tool call the first
/// prompt is noted, then that the command was typed.
pub open spec fn popup_written(
    p: ShellPopupState,
    q: ShellPopupState,
    data: Seq<char>,
    log: String,
    prompt: bool,
) -> bool {
    let noted = p.is_tool_call_shell_command && !p.shell_initial_prompt_shown;
    let waits = p.is_tool_call_shell_command && p.shell_initial_prompt_shown
        && !p.shell_command_typed;
    &&& q == (ShellPopupState {
        is_loading: false,
        pending_command_executed: keeps_output(p),
        pending_command_output_count: kept_count(p),
        pending_command_output: q.pending_command_output,
        active_shell_command_output: if p.active_shell_command_output is Some {
            Some(log)
        } else {
            None
        },
        shell_initial_prompt_shown: if noted {
            prompt
        } else {
            p.shell_initial_prompt_shown
        },
        shell_command_typed: if waits {
            kept_count(p) > 2
        } else {
            p.shell_command_typed
        },
        ..p
    })
    &&& text_of(q.pending_command_output) == (match p.pending_command_output {
        Some(o) => if keeps_output(p) {
            Some(o@ + data)
        } else {
            Some(o@)
        },
        None => None,
    })
}

/// What happens when the shell writes. Without a shell, nothing. Else the popup, the screen and the
/// remembered rows are brought up to date, and the message with the shell shows its screen; where
/// there is none yet, it is made.
pub open spec fn output_taken(pre: AppState, post: AppState, data: Seq<char>, log: String)
    -> bool {
    let p = pre.shell_popup_state;
    if p.active_shell_command is None {
        post == pre
    } else {
        &&& post == (AppState {
            shell_popup_state: post.shell_popup_state,
            shell_runtime_state: post.shell_runtime_state,
            shell_session_state: post.shell_session_state,
            messages_scrolling_state: post.messages_scrolling_state,
            ..pre
        })
        &&& popup_written(
            p,
            post.shell_popup_state,
            data,
            log,
            prompt_line(last_text(shown_rows(pre, data))),
        )
        &&& runtime_written(pre.shell_runtime_state, post.shell_runtime_state, data)
        &&& shell_shown(
            pre.shell_session_state,
            post.shell_session_state,
            pre.messages_scrolling_state,
            post.messages_scrolling_state,
            |c: MessageContent| shows_output(c, pre, data),
        )
    }
}

/// Whether the command of a tool call has ended: after its first prompt the command was typed and
/// the user has acted, and now the shell shows a prompt again.
pub open spec fn command_done(pre: AppState, data: Seq<char>) -> bool {
    let p = pre.shell_popup_state;
    &&& p.active_shell_command is Some
    &&& p.is_tool_call_shell_command
    &&& p.shell_initial_prompt_shown
    &&& p.shell_command_typed
    &&& prompt_line(last_text(shown_rows(pre, data)))
    &&& pre.shell_session_state.shell_interaction_occurred
    &&& kept_count(p) > 3
}

fn take_output(p: &mut ShellPopupState, data: &str, log: String)
    ensures
        *final(p) == (ShellPopupState {
            is_loading: false,
            pending_command_executed: keeps_output(*old(p)),
            pending_command_output_count: kept_count(*old(p)),
            pending_command_output: final(p).pending_command_output,
            active_shell_command_output: if old(p).active_shell_command_output is Some {
                Some(log)
            } else {
                None
            },
            ..*old(p)
        }),
        text_of(final(p).pending_command_output) == (match old(p).pending_command_output {
            Some(o) => if keeps_output(*old(p)) {
                Some(o@ + data@)
            } else {
                Some(o@)
            },
            None => None,
        }),
{
    p.is_loading = false;
    if p.is_tool_call_shell_command {
        p.pending_command_executed = true;
    }
    if p.pending_command_executed {
        if p.pending_command_output_count < usize::MAX {
            p.pending_command_output_count = p.pending_command_output_count + 1;
        }
        let mut kept: Option<String> = None;
        std::mem::swap(&mut kept, &mut p.pending_command_output);
        p.pending_command_output = match kept {
            Some(o) => {
                let mut all: String = o;
                all.push_str(data);
                Some(all)
            },
            None => None,
        };
    }
    if p.active_shell_command_output.is_some() {
        p.active_shell_command_output = Some(log);
    }
}

/// Whether what the shell writes can be shown: where a shell runs, its screen takes whatever it
/// writes.
pub open spec fn can_write(s: AppState) -> bool {
    s.shell_popup_state.active_shell_command is Some ==> readable(s.shell_runtime_state.screen@)
}

/// Whether what the shell writes can be shown.
pub fn can_show_output(state: &AppState) -> (r: bool)
    ensures
        r == can_write(*state),
{
    state.shell_popup_state.active_shell_command.is_none()
        || state.shell_runtime_state.screen.can_read()
}

/// The state with the screen of the shell drawn anew.
pub open spec fn screen_redrawn(pre: AppState, post: AppState) -> bool {
    &&& post == (AppState {
        shell_runtime_state: ShellRuntimeState {
            screen: post.shell_runtime_state.screen,
            ..pre.shell_runtime_state
        },
        ..pre
    })
    &&& post.shell_runtime_state.screen@ == drawn_anew(pre.shell_runtime_state.screen@)
    &&& readable(post.shell_runtime_state.screen@)
}

fn redraw(t: &mut Terminal)
    ensures
        final(t)@ == drawn_anew(old(t)@),
        readable(final(t)@),
{
    let mut held: Terminal = Terminal::new(1, 1, 0);
    std::mem::swap(&mut held, t);
    *t = held.redraw();
}

/// Draws the screen of the shell anew, from what the shell wrote, in a size that takes whatever it
/// writes.
pub fn redraw_screen(state: &mut AppState)
    ensures
        screen_redrawn(*old(state), *final(state)),
{
    redraw(&mut state.shell_runtime_state.screen);
}

/// Takes over what the shell wrote. Whether the command of a tool call has ended.
pub fn handle_shell_output(state: &mut AppState, data: String, log: String) -> (done: bool)
    requires
        can_write(*old(state)),
    ensures
        output_taken(*old(state), *final(state), data@, log),
        done == command_done(*old(state), data@),
{
    if state.shell_popup_state.active_shell_command.is_none() {
        return false;
    }
    let (tone, title): (Tone, String) = title_of(&state.shell_popup_state);
    let screen: Vec<Line> = take_screen(&mut state.shell_runtime_state, data.as_str());
    let display: Vec<Line> = put_command(
        &state.shell_popup_state.pending_command_value,
        trim_shell_lines(screen),
    );
    let prompt: bool = looks_like_prompt(find_last_text(&display).as_str());
    let content: MessageContent = terminal_content(
        title,
        display,
        tone,
        "Interactive Bash".to_owned(),
        state.terminal_ui_state.terminal_size.width as usize,
    );
    assert(shows_output(content, *old(state), data@));
    let acted: bool = state.shell_session_state.shell_interaction_occurred;
    show_shell(&mut state.shell_session_state, &mut state.messages_scrolling_state, content);
    write_popup(&mut state.shell_popup_state, data.as_str(), log, prompt, acted)
}

fn write_popup(p: &mut ShellPopupState, data: &str, log: String, prompt: bool, acted: bool) -> (done:
    bool)
    ensures
        popup_written(*old(p), *final(p), data@, log, prompt),
        done == (old(p).is_tool_call_shell_command && old(p).shell_initial_prompt_shown && old(
            p,
        ).shell_command_typed && prompt && acted && kept_count(*old(p)) > 3),
{
    take_output(p, data, log);
    note_prompt(p, prompt, acted)
}

fn title_of(p: &ShellPopupState) -> (r: (Tone, String))
    ensures
        r.0 == (if p.is_expanded {
            Tone::Cyan
        } else {
            Tone::DarkGray
        }),
        r.1@ == shell_title(*p),
{
    let program: String = shell_program(&p.active_shell_command);
    if p.is_expanded {
        (Tone::Cyan, frame("Shell Command ", program.as_str(), " [Focused]"))
    } else {
        (
            Tone::DarkGray,
            frame("Shell Command ", program.as_str(), " (Background - '$' to focus)"),
        )
    }
}

/// The runtime after the shell wrote.
pub open spec fn runtime_written(
    pre: ShellRuntimeState,
    post: ShellRuntimeState,
    data: Seq<char>,
) -> bool {
    let screen = written(pre.screen@, encode_utf8(data)).emulator;
    &&& post.screen@ == looked_at(written(pre.screen@, encode_utf8(data)))
    &&& size_of(post.screen@.emulator) == size_of(pre.screen@.emulator)
    &&& post.scroll == pre.scroll
    &&& line_views(post.history_lines@) == remembered(
        line_views(pre.history_lines@),
        screen_rows(scrolled(screen, 0)),
        total_rows(screen),
        size_of(screen).0 as nat,
    )
}

fn take_screen(r: &mut ShellRuntimeState, data: &str) -> (rows: Vec<Line>)
    requires
        readable(old(r).screen@),
    ensures
        runtime_written(*old(r), *final(r), data@),
        line_views(rows@) == screen_rows(
            scrolled(written(old(r).screen@, encode_utf8(data@)).emulator, 0),
        ),
{
    write_to(&mut r.screen, data);
    let shot: Capture = look(&mut r.screen);
    let total: usize = if shot.scrollback > usize::MAX - shot.rows {
        usize::MAX
    } else {
        shot.scrollback + shot.rows
    };
    remember(&mut r.history_lines, &shot.lines, total, shot.rows);
    shot.lines
}

/// The message with the shell has content of which `p` holds; where there was none, it is new.
pub open spec fn shell_shown(
    s: ShellSessionState,
    t: ShellSessionState,
    m: MessagesScrollingState,
    n: MessagesScrollingState,
    p: spec_fn(MessageContent) -> bool,
) -> bool {
    &&& n == (MessagesScrollingState { messages: n.messages, lines_stale: true, ..m })
    &&& match s.interactive_shell_message_id {
        Some(id) => t == s && content_set(m.messages@, n.messages@, id, p),
        None => {
            &&& pushed(m.messages@, n.messages@, p)
            &&& t == (ShellSessionState {
                interactive_shell_message_id: Some(n.messages@.last().id),
                ..s
            })
        },
    }
}

fn show_shell(s: &mut ShellSessionState, m: &mut MessagesScrollingState, content: MessageContent)
    ensures
        shell_shown(*old(s), *final(s), *old(m), *final(m), |c: MessageContent| c == content),
{
    match s.interactive_shell_message_id {
        Some(id) => {
            set_content_of(&mut m.messages, id, content);
        },
        None => {
            let new: Message = Message::new(content);
            s.interactive_shell_message_id = Some(new.id);
            m.messages.push(new);
            assert(m.messages@.drop_last() =~= old(m).messages@);
        },
    }
    m.lines_stale = true;
}

fn note_prompt(p: &mut ShellPopupState, prompt: bool, acted: bool) -> (done: bool)
    ensures
        *final(p) == (ShellPopupState {
            shell_initial_prompt_shown: if old(p).is_tool_call_shell_command && !old(
                p,
            ).shell_initial_prompt_shown {
                prompt
            } else {
                old(p).shell_initial_prompt_shown
            },
            shell_command_typed: if old(p).is_tool_call_shell_command && old(
                p,
            ).shell_initial_prompt_shown && !old(p).shell_command_typed {
                old(p).pending_command_output_count > 2
            } else {
                old(p).shell_command_typed
            },
            ..*old(p)
        }),
        done == (old(p).is_tool_call_shell_command && old(p).shell_initial_prompt_shown && old(
            p,
        ).shell_command_typed && prompt && acted && old(p).pending_command_output_count > 3),
{
    if !p.is_tool_call_shell_command {
        return false;
    }
    if !p.shell_initial_prompt_shown {
        if prompt {
            p.shell_initial_prompt_shown = true;
        }
        return false;
    }
    if !p.shell_command_typed {
        if p.pending_command_output_count > 2 {
            p.shell_command_typed = true;
        }
        return false;
    }
    prompt && acted && p.pending_command_output_count > 3
}

/// A command never counts as ended on the first pieces of output, nor before the user has acted.
pub proof fn law_command_done(pre: AppState, data: Seq<char>)
    requires
        command_done(pre, data),
    ensures
        pre.shell_popup_state.pending_command_output_count >= 3,
        pre.shell_session_state.shell_interaction_occurred,
{
}

// ----- line ends -----

/// The text with line feeds only.
pub open spec fn line_feeds(s: Seq<char>) -> Seq<char> {
    replaced(replaced(s, "\r\n"@, "\n"@), "\r"@, "\n"@)
}

/// The text with line feeds only.
pub fn only_line_feeds(s: &str) -> (r: String)
    ensures
        r@ == line_feeds(s@),
{
    replace(replace(s, "\r\n", "\n").as_str(), "\r", "\n")
}

/// Shows an error of the shell.
pub fn handle_shell_error(state: &mut AppState, line: String)
    ensures
        block_pushed(*old(state), *final(state), error_rows(line_feeds(line@), false)),
{
    let text: String = only_line_feeds(line.as_str());
    push_error_message(state, text.as_str(), None);
}

/// The shell waits for input.
pub fn handle_shell_waiting_for_input(state: &mut AppState)
    ensures
        *final(state) == (AppState {
            shell_popup_state: ShellPopupState {
                waiting_for_shell_input: true,
                ..old(state).shell_popup_state
            },
            ..old(state).with_text(final(state).input_state.text_area)
        }),
        final(state).input_state.text_area@ == in_shell_mode(
            old(state).input_state.text_area@,
            true,
        ),
{
    state.shell_popup_state.waiting_for_shell_input = true;
    state.input_state.text_area.set_shell_mode(true);
}

// ----- completion -----

/// The statuses with one for each of the calls.
pub open spec fn with_status(
    m: Map<Seq<char>, ToolCallStatus>,
    calls: Seq<ToolCall>,
    status: ToolCallStatus,
) -> Map<Seq<char>, ToolCallStatus>
    decreases calls.len(),
{
    if calls.len() == 0 {
        m
    } else {
        with_status(m, calls.drop_last(), status).insert(calls.last().id@, status)
    }
}

fn set_statuses(s: &mut SessionToolCallsState, calls: &Vec<ToolCall>, status: ToolCallStatus)
    ensures
        final(s).session_tool_calls_queue@ == with_status(
            old(s).session_tool_calls_queue@,
            calls@,
            status,
        ),
        *final(s) == (SessionToolCallsState {
            session_tool_calls_queue: final(s).session_tool_calls_queue,
            ..*old(s)
        }),
{
    let ghost before = s.session_tool_calls_queue@;
    let mut i: usize = 0;
    assert(calls@.take(0) =~= Seq::<ToolCall>::empty());
    while i < calls.len()
        invariant
            i <= calls@.len(),
            s.session_tool_calls_queue@ == with_status(before, calls@.take(i as int), status),
            *s == (SessionToolCallsState {
                session_tool_calls_queue: s.session_tool_calls_queue,
                ..*old(s)
            }),
        decreases calls@.len() - i,
    {
        assert(calls@.take(i + 1).drop_last() =~= calls@.take(i as int));
        s.session_tool_calls_queue.insert(calls[i].id.clone(), status);
        i += 1;
    }
    assert(calls@.take(i as int) =~= calls@);
}

/// Where the call with the identifier is.
pub open spec fn call_at(calls: Seq<ToolCall>, id: Seq<char>, from: int) -> Option<int>
    decreases calls.len() - from,
{
    if from < 0 || from >= calls.len() {
        None
    } else if calls[from].id@ == id {
        Some(from)
    } else {
        call_at(calls, id, from + 1)
    }
}

/// Where the call with the identifier is.
pub fn find_call(calls: &Vec<ToolCall>, id: &str) -> (r: Option<usize>)
    ensures
        r is Some <==> call_at(calls@, id@, 0) is Some,
        r is Some ==> r->0 < calls@.len() && call_at(calls@, id@, 0) == Some(r->0 as int),
        r is Some ==> r->0 < usize::MAX,
{
    let mut i: usize = 0;
    while i < calls.len()
        invariant
            i <= calls@.len(),
            call_at(calls@, id@, 0) == call_at(calls@, id@, i as int),
        decreases calls@.len() - i,
    {
        if same_text(calls[i].id.as_str(), id) {
            return Some(i);
        }
        i += 1;
    }
    None
}

/// The calls behind the one with the identifier; none where it is not there.
pub open spec fn calls_after(calls: Seq<ToolCall>, id: Seq<char>) -> Seq<ToolCall> {
    match call_at(calls, id, 0) {
        Some(i) => calls.skip(i + 1),
        None => Seq::empty(),
    }
}

fn copy_calls_after(calls: &Vec<ToolCall>, id: &str) -> (r: Vec<ToolCall>)
    ensures
        r@ == calls_after(calls@, id@),
{
    let mut r: Vec<ToolCall> = Vec::new();
    match find_call(calls, id) {
        Some(k) => {
            let mut i: usize = k + 1;
            assert(r@ =~= calls@.subrange(k + 1, i as int));
            while i < calls.len()
                invariant
                    k < calls@.len(),
                    k + 1 <= i <= calls@.len(),
                    r@ == calls@.subrange(k + 1, i as int),
                decreases calls@.len() - i,
            {
                r.push(calls[i].clone());
                i += 1;
                assert(r@ =~= calls@.subrange(k + 1, i as int));
            }
            assert(r@ =~= calls@.skip(k + 1));
        },
        None => {
            assert(r@ =~= Seq::<ToolCall>::empty());
        },
    }
    r
}

/// The tool call after its command has ended: the calls behind it wait, the result goes out with
/// them, and the call is no longer the latest.
pub open spec fn call_answered(
    pre: AppState,
    post: AppState,
    call: ToolCall,
    sent: Outbox,
    out: Outbox,
    is_result: spec_fn(ToolCallResult) -> bool,
) -> bool {
    let after = calls_after(pre.session_tool_calls_state.last_message_tool_calls@, call.id@);
    let latest = pre.tool_call_state.latest_tool_call;
    &&& post == (AppState {
        session_tool_calls_state: SessionToolCallsState {
            session_tool_calls_queue: post.session_tool_calls_state.session_tool_calls_queue,
            ..pre.session_tool_calls_state
        },
        tool_call_state: ToolCallState {
            latest_tool_call: if latest is Some && latest->0.id@ == call.id@ {
                None
            } else {
                latest
            },
            ..pre.tool_call_state
        },
        dialog_approval_state: DialogApprovalState {
            dialog_command: None,
            toggle_approved_message: true,
            ..pre.dialog_approval_state
        },
        ..pre
    })
    &&& post.session_tool_calls_state.session_tool_calls_queue@ == with_status(
        pre.session_tool_calls_state.session_tool_calls_queue@,
        after,
        ToolCallStatus::Pending,
    )
    &&& sent.outputs(
        out,
        |e: OutputEvent|
            e matches OutputEvent::SendToolResult(r, stop, calls) && is_result(r) && stop == (
            after.len() > 0) && calls@ == after,
    )
}

fn answer_call(state: &mut AppState, call: &ToolCall, result: ToolCallResult, out: &mut Outbox)
    ensures
        call_answered(
            *old(state),
            *final(state),
            *call,
            *old(out),
            *final(out),
            |r: ToolCallResult| r == result,
        ),
{
    let after: Vec<ToolCall> = copy_calls_after(
        &state.session_tool_calls_state.last_message_tool_calls,
        call.id.as_str(),
    );
    set_statuses(&mut state.session_tool_calls_state, &after, ToolCallStatus::Pending);
    let stop: bool = after.len() > 0;
    let _sent: bool = out.send_output(OutputEvent::SendToolResult(result, stop, after));
    let forget: bool = match &state.tool_call_state.latest_tool_call {
        Some(latest) => same_text(latest.id.as_str(), call.id.as_str()),
        None => false,
    };
    if forget {
        state.tool_call_state.latest_tool_call = None;
    }
    state.dialog_approval_state.dialog_command = None;
    state.dialog_approval_state.toggle_approved_message = true;
}

/// The state after the popup was closed for good.
pub open spec fn popup_closed(pre: AppState, post: AppState) -> bool {
    &&& post == (AppState {
        shell_popup_state: ShellPopupState {
            is_visible: false,
            is_expanded: false,
            needs_terminal_clear: true,
            ..pre.shell_popup_state
        },
        messages_scrolling_state: MessagesScrollingState {
            lines_stale: true,
            ..pre.messages_scrolling_state
        },
        ..pre.with_text(post.input_state.text_area)
    })
    &&& post.input_state.text_area@ == in_shell_mode(pre.input_state.text_area@, false)
}

fn hide_popup(p: &mut ShellPopupState)
    ensures
        *final(p) == (ShellPopupState {
            is_visible: false,
            is_expanded: false,
            needs_terminal_clear: true,
            ..*old(p)
        }),
{
    p.is_visible = false;
    p.is_expanded = false;
    p.needs_terminal_clear = true;
}

fn close_popup(state: &mut AppState)
    ensures
        popup_closed(*old(state), *final(state)),
{
    hide_popup(&mut state.shell_popup_state);
    state.messages_scrolling_state.lines_stale = true;
    state.input_state.text_area.set_shell_mode(false);
}

/// The output with line feeds only, where there is any.
pub open spec fn clean_output(output: Option<Seq<char>>) -> Option<Seq<char>> {
    match output {
        Some(o) => Some(line_feeds(o)),
        None => None,
    }
}

/// What ends the command of a tool call, or one that was run for the model: the shell is ended, the
/// popup closes, and where a tool call waits it gets the result.
pub open spec fn command_finished(
    pre: AppState,
    post: AppState,
    cmd: Option<Seq<char>>,
    output: Option<Seq<char>>,
    sent: Outbox,
    out: Outbox,
) -> bool {
    let is_result = |r: ToolCallResult|
        reports_shell(
            r,
            pre.dialog_approval_state.dialog_command,
            pre.shell_popup_state.active_shell_command,
            cmd,
            clean_output(output),
        );
    exists|ended: AppState, shut: AppState, told: Outbox| #[trigger]
        terminated(pre, ended, sent, told) && #[trigger] popup_closed(ended, shut) && match
        pre.dialog_approval_state.dialog_command {
            Some(call) => call_answered(shut, post, call, told, out, is_result),
            None => post == shut && out == told,
        }
}

/// What was captured of a command: what it wrote itself, or else what the shell wrote.
pub open spec fn output_captured(p: ShellPopupState) -> Option<Seq<char>> {
    match p.pending_command_output {
        Some(t) => Some(t@),
        None => text_of(p.active_shell_command_output),
    }
}

/// What was captured of a command, with the control sequences of the terminal.
pub fn captured_output(p: &ShellPopupState) -> (r: Option<String>)
    ensures
        text_of(r) == output_captured(*p),
{
    match &p.pending_command_output {
        Some(t) => Some(t.clone()),
        None => copy_text(&p.active_shell_command_output),
    }
}

fn finish_command(
    state: &mut AppState,
    cmd: Option<String>,
    output: Option<String>,
    out: &mut Outbox,
)
    ensures
        command_finished(
            *old(state),
            *final(state),
            text_of(cmd),
            text_of(output),
            *old(out),
            *final(out),
        ),
{
    let clean: Option<String> = match &output {
        Some(o) => Some(only_line_feeds(o.as_str())),
        None => None,
    };
    let ghost cleaned = text_of(clean);
    let saved: Option<ToolCall> = match &state.dialog_approval_state.dialog_command {
        Some(c) => Some(c.clone()),
        None => None,
    };
    let result: ToolCallResult = shell_command_to_tool_call_result(state, cmd, clean);
    terminate_active_shell_session(state, out);
    let ghost ended = *state;
    let ghost told = *out;
    close_popup(state);
    let ghost shut = *state;
    match saved {
        Some(call) => {
            answer_call(state, &call, result, out);
        },
        None => {},
    }
    proof {
        assert(cleaned == clean_output(text_of(output)));
        assert(terminated(*old(state), ended, *old(out), told) && popup_closed(ended, shut));
    }
}

/// The popup after a shell that the user asked for was reported: the report goes out with the next
/// message of the user, where other reports wait for it.
pub open spec fn visit_reported(pre: AppState, post: AppState) -> bool {
    let p = pre.shell_popup_state;
    let q = post.shell_popup_state;
    if p.ondemand_shell_mode && pre.shell_session_state.shell_interaction_occurred
        && p.shell_tool_calls is Some {
        &&& post == (AppState {
            shell_popup_state: ShellPopupState { shell_tool_calls: q.shell_tool_calls, ..p },
            ..pre
        })
        &&& q.shell_tool_calls is Some
        &&& crate::events::one_more(
            p.shell_tool_calls->0@,
            q.shell_tool_calls->0@,
            |r: ToolCallResult|
                reports_shell(
                    r,
                    pre.dialog_approval_state.dialog_command,
                    p.active_shell_command,
                    None,
                    None,
                ),
        )
    } else {
        post == pre
    }
}

fn report_visit(state: &mut AppState)
    ensures
        visit_reported(*old(state), *final(state)),
{
    if state.shell_popup_state.ondemand_shell_mode
        && state.shell_session_state.shell_interaction_occurred
        && state.shell_popup_state.shell_tool_calls.is_some() {
        let result: ToolCallResult = shell_command_to_tool_call_result(state, None, None);
        add_result(&mut state.shell_popup_state, result);
    }
}

fn add_result(p: &mut ShellPopupState, result: ToolCallResult)
    requires
        old(p).shell_tool_calls is Some,
    ensures
        *final(p) == (ShellPopupState {
            shell_tool_calls: final(p).shell_tool_calls,
            ..*old(p)
        }),
        final(p).shell_tool_calls is Some,
        crate::events::one_more(
            old(p).shell_tool_calls->0@,
            final(p).shell_tool_calls->0@,
            |r: ToolCallResult| r == result,
        ),
{
    let mut calls: Option<Vec<ToolCallResult>> = None;
    std::mem::swap(&mut calls, &mut p.shell_tool_calls);
    p.shell_tool_calls = match calls {
        Some(v) => {
            let mut all: Vec<ToolCallResult> = v;
            all.push(result);
            assert(all@.drop_last() =~= v@);
            Some(all)
        },
        None => None,
    };
}

/// The state after the shell is closed: its message is gone, and the input is empty.
pub open spec fn shell_closed(pre: AppState, post: AppState) -> bool {
    let m = pre.messages_scrolling_state;
    let n = post.messages_scrolling_state;
    &&& post == (AppState {
        shell_popup_state: ShellPopupState {
            active_shell_command: None,
            active_shell_command_output: None,
            is_tool_call_shell_command: false,
            ..pre.shell_popup_state
        },
        shell_session_state: ShellSessionState {
            interactive_shell_message_id: None,
            ..pre.shell_session_state
        },
        messages_scrolling_state: n,
        ..pre.with_text(post.input_state.text_area)
    })
    &&& n == (MessagesScrollingState { messages: n.messages, ..m })
    &&& n.messages@ == (match pre.shell_session_state.interactive_shell_message_id {
        Some(id) => without(m.messages@, id),
        None => m.messages@,
    })
    &&& post.input_state.text_area@ == (TextAreaView {
        text: Seq::empty(),
        cursor: 0,
        ..pre.input_state.text_area@
    })
}

fn drop_command(p: &mut ShellPopupState)
    ensures
        *final(p) == (ShellPopupState {
            active_shell_command: None,
            active_shell_command_output: None,
            is_tool_call_shell_command: false,
            ..*old(p)
        }),
{
    p.active_shell_command = None;
    p.active_shell_command_output = None;
    p.is_tool_call_shell_command = false;
}

fn close_shell(state: &mut AppState)
    ensures
        shell_closed(*old(state), *final(state)),
{
    drop_command(&mut state.shell_popup_state);
    match state.shell_session_state.interactive_shell_message_id {
        Some(id) => {
            remove_message(&mut state.messages_scrolling_state.messages, id);
        },
        None => {},
    }
    state.shell_session_state.interactive_shell_message_id = None;
    clear_text(&mut state.input_state.text_area);
}

/// The state in which the shell waits for nothing.
pub open spec fn no_longer_waiting(s: AppState) -> AppState {
    AppState {
        shell_popup_state: ShellPopupState { waiting_for_shell_input: false, ..s.shell_popup_state },
        ..s
    }
}

/// What the end of the shell's program does.
pub open spec fn completed(
    pre: AppState,
    post: AppState,
    cmd: Option<Seq<char>>,
    output: Option<Seq<char>>,
    sent: Outbox,
    out: Outbox,
) -> bool {
    let start = no_longer_waiting(pre);
    exists|a: AppState, b: AppState| #[trigger]
        visit_reported(a, b) && #[trigger] shell_closed(b, post) && if keeps_output(
            pre.shell_popup_state,
        ) {
            command_finished(start, a, cmd, output, sent, out)
        } else {
            a == start && out == sent
        }
}

/// The shell's program has ended. The command and the output come without control sequences.
pub fn handle_shell_completed(
    state: &mut AppState,
    cmd: Option<String>,
    output: Option<String>,
    out: &mut Outbox,
)
    ensures
        completed(
            *old(state),
            *final(state),
            text_of(cmd),
            text_of(output),
            *old(out),
            *final(out),
        ),
{
    state.shell_popup_state.waiting_for_shell_input = false;
    if state.shell_popup_state.pending_command_executed
        || state.shell_popup_state.is_tool_call_shell_command {
        finish_command(state, cmd, output, out);
    }
    let ghost a = *state;
    report_visit(state);
    let ghost b = *state;
    close_shell(state);
    assert(visit_reported(a, b) && shell_closed(b, *state));
}

/// The command that waits for a result gets exactly one, and after that the shell is gone.
pub proof fn law_completed(
    pre: AppState,
    post: AppState,
    cmd: Option<Seq<char>>,
    output: Option<Seq<char>>,
    sent: Outbox,
    out: Outbox,
)
    requires
        completed(pre, post, cmd, output, sent, out),
        sent.can_output(),
    ensures
        post.shell_popup_state.active_shell_command is None,
        !post.shell_popup_state.is_tool_call_shell_command,
        post.shell_session_state.interactive_shell_message_id is None,
        keeps_output(pre.shell_popup_state) && pre.dialog_approval_state.dialog_command is Some
            ==> out.output@.len() == sent.output@.len() + 1,
        !keeps_output(pre.shell_popup_state) || pre.dialog_approval_state.dialog_command is None
            ==> out.output@ == sent.output@,
{
}

// ----- clearing -----

/// Whether the content belongs to the shell: a command that was typed, or plain text.
pub open spec fn of_shell(c: MessageContent) -> bool {
    match c {
        MessageContent::Styled(l) => has_prefix(row_text(l@), prompt_prefix()),
        MessageContent::Plain(t, _) => has_prefix(t@, prompt_prefix()),
        MessageContent::PlainText(_) => true,
        _ => false,
    }
}

fn belongs_to_shell(c: &MessageContent) -> (r: bool)
    ensures
        r == of_shell(*c),
{
    match c {
        MessageContent::Styled(l) => starts_with(l.text().as_str(), "$ "),
        MessageContent::Plain(t, _) => starts_with(t.as_str(), "$ "),
        MessageContent::PlainText(_) => true,
        _ => false,
    }
}

/// The messages up to the last one that does not belong to the shell.
pub open spec fn without_shell(messages: Seq<Message>) -> Seq<Message>
    decreases messages.len(),
{
    if messages.len() > 0 && of_shell(messages.last().content) {
        without_shell(messages.drop_last())
    } else {
        messages
    }
}

fn cut_shell(messages: &mut Vec<Message>)
    ensures
        final(messages)@ == without_shell(old(messages)@),
{
    let ghost all = messages@;
    let mut n: usize = messages.len();
    assert(all.take(n as int) =~= all);
    while n > 0
        invariant
            n <= messages@.len(),
            messages@ == all,
            without_shell(all) == without_shell(all.take(n as int)),
        ensures
            n <= messages@.len(),
            messages@ == all,
            all.take(n as int) == without_shell(all),
        decreases n,
    {
        assert(all.take(n as int).last() == all[n - 1]);
        assert(all.take(n as int).drop_last() =~= all.take(n - 1));
        if !belongs_to_shell(&messages[n - 1].content) {
            break;
        }
        n -= 1;
    }
    messages.truncate(n);
    assert(messages@ =~= all.take(n as int));
}

/// The state after the shell was cleared: its log is empty, and its messages are gone.
pub open spec fn shell_cleared(pre: AppState, post: AppState) -> bool {
    let p = pre.shell_popup_state;
    let q = post.shell_popup_state;
    let n = post.messages_scrolling_state;
    &&& post == (AppState {
        shell_popup_state: ShellPopupState {
            active_shell_command_output: q.active_shell_command_output,
            ..p
        },
        messages_scrolling_state: MessagesScrollingState {
            messages: n.messages,
            ..pre.messages_scrolling_state
        },
        ..pre
    })
    &&& text_of(q.active_shell_command_output) == (if p.active_shell_command_output is Some {
        Some(Seq::<char>::empty())
    } else {
        None
    })
    &&& n.messages@ == without_shell(pre.messages_scrolling_state.messages@)
}

/// Clears the shell.
pub fn handle_shell_clear(state: &mut AppState)
    ensures
        shell_cleared(*old(state), *final(state)),
{
    empty_log(&mut state.shell_popup_state.active_shell_command_output);
    cut_shell(&mut state.messages_scrolling_state.messages);
}

fn empty_log(log: &mut Option<String>)
    ensures
        text_of(*final(log)) == (if *old(log) is Some {
            Some(Seq::<char>::empty())
        } else {
            None
        }),
{
    if log.is_some() {
        let none: String = String::new();
        assert(none@ =~= Seq::<char>::empty());
        *log = Some(none);
    }
}

// ----- what holds of the shell -----

/// What the shell writes while a command is awaited is kept in full, behind what it wrote before;
/// without a shell nothing changes.
pub proof fn law_output_is_kept(
    pre: AppState,
    post: AppState,
    data: Seq<char>,
    log: String,
)
    requires
        output_taken(pre, post, data, log),
    ensures
        pre.shell_popup_state.active_shell_command is None ==> post == pre,
        pre.shell_popup_state.active_shell_command is Some ==> {
            let p = pre.shell_popup_state;
            let q = post.shell_popup_state;
            let awaited = p.pending_command_executed || p.is_tool_call_shell_command;
            &&& awaited && p.pending_command_output is Some ==> q.pending_command_output is Some
                && q.pending_command_output->0@ == p.pending_command_output->0@ + data
            &&& !awaited && p.pending_command_output is Some ==> q.pending_command_output is Some
                && q.pending_command_output->0@ == p.pending_command_output->0@
            &&& awaited && p.pending_command_output_count < usize::MAX
                ==> q.pending_command_output_count == p.pending_command_output_count + 1
            &&& !awaited ==> q.pending_command_output_count == p.pending_command_output_count
            &&& p.active_shell_command_output is Some ==> q.active_shell_command_output == Some(log)
            &&& !q.is_loading
            &&& q.active_shell_command == p.active_shell_command
            &&& q.is_expanded == p.is_expanded
        },
{
}

/// No row that has left the screen is forgotten when the shell writes, while there is room: all
/// remembered rows but as many as the screen has stay in front.
pub proof fn law_history_survives_output(
    pre: AppState,
    post: AppState,
    data: Seq<char>,
    log: String,
    i: int,
)
    requires
        output_taken(pre, post, data, log),
        pre.shell_popup_state.active_shell_command is Some,
        pre.shell_runtime_state.history_lines@.len() + screen_rows(
            scrolled(written_screen(pre, data), 0),
        ).len() <= MAX_HISTORY,
        0 <= i < pre.shell_runtime_state.history_lines@.len() - size_of(
            written_screen(pre, data),
        ).0,
    ensures
        i < post.shell_runtime_state.history_lines@.len(),
        post.shell_runtime_state.history_lines@[i]@ == pre.shell_runtime_state.history_lines@[i]@,
{
    let h = line_views(pre.shell_runtime_state.history_lines@);
    let r = line_views(post.shell_runtime_state.history_lines@);
    let screen = written_screen(pre, data);
    let s = screen_rows(scrolled(screen, 0));
    let total = total_rows(screen);
    let rows = size_of(screen).0 as nat;
    assert(r == remembered(h, s, total, rows));
    law_empty_side_adds_nothing(h, s, total, rows);
    if s.len() > 0 {
        if total <= h.len() {
            law_older_rows_stay(h, s, total, rows);
        } else {
            law_new_rows_come_behind(h, s, total, rows);
        }
    }
    assert(h[i] == pre.shell_runtime_state.history_lines@[i]@);
    assert(r[i] == h[i]);
    assert(r[i] == post.shell_runtime_state.history_lines@[i]@);
}

/// A line looks like a prompt by its last character that is no white space alone.
pub proof fn law_prompt_line(line: Seq<char>, k: int)
    ensures
        0 <= k < line.len() && !is_space(line[k]) && (forall|i: int|
            k < i < line.len() ==> is_space(#[trigger] line[i])) ==> (prompt_line(line) <==> line[k]
            == '$' || line[k] == '%' || line[k] == '>' || line[k] == '#' || line[k] == '✗'
            || line[k] == '❯' || line[k] == '➜' || line[k] == '»'),
        (forall|i: int| 0 <= i < line.len() ==> is_space(#[trigger] line[i])) ==> !prompt_line(
            line,
        ),
{
    law_trim_end(line);
    let t = trim_end_of(line);
    if t.len() > 0 {
        assert(t.last() == line[t.len() - 1]);
    }
}

/// A row is blank exactly where every character on it is white space.
pub proof fn law_blank_row(row: Seq<SpanView>)
    ensures
        is_blank_row(row) <==> forall|i: int, j: int|
            0 <= i < row.len() && 0 <= j < row[i].content.len() ==> is_space(
                #[trigger] row[i].content[j],
            ),
{
    assert forall|i: int| 0 <= i < row.len() implies (trim_of(
        (#[trigger] row[i]).content,
    ).len() == 0 <==> forall|j: int|
        0 <= j < row[i].content.len() ==> is_space(#[trigger] row[i].content[j])) by {
        let c = row[i].content;
        let from = law_trim(c);
        if trim_of(c).len() > 0 {
            assert(trim_of(c)[0] == c[from]);
        }
    }
}

/// What a shell reports of a command: the line before the prompt, without the white space around
/// it; that there was no output where there is none; and that the shell was left where nothing was
/// captured.
pub proof fn law_reported_output(line: Seq<char>, prompt: Seq<char>)
    requires
        forall|i: int| 0 <= i < line.len() ==> #[trigger] line[i] != '\n' && line[i] != '\r',
        forall|i: int| 0 <= i < prompt.len() ==> #[trigger] prompt[i] != '\n',
        prompt.len() > 0,
    ensures
        reported_output(None) == "Interactive shell exited"@,
        reported_output(Some(prompt)) == "Command completed (no output)"@,
        (exists|k: int| 0 <= k < line.len() && !is_space(#[trigger] line[k])) ==> reported_output(
            Some(line + seq!['\n'] + prompt),
        ) == trim_of(line),
        !(exists|k: int| 0 <= k < line.len() && !is_space(#[trigger] line[k])) ==> reported_output(
            Some(line + seq!['\n'] + prompt),
        ) == "Command completed (no output)"@,
{
    let none = Seq::<Seq<char>>::empty();
    let nl = "\n"@;
    crate::text::law_lines(line, prompt);
    crate::text::law_lines(prompt, prompt);
    assert(lines_of(prompt) == seq![prompt]);
    assert(lines_of(prompt).drop_last() =~= none);
    crate::text::law_joined(none, line, nl);
    assert(joined(none, nl) =~= Seq::<char>::empty());
    let e = law_trim(Seq::<char>::empty());
    let both = lines_of(line + seq!['\n'] + prompt);
    assert(both =~= seq![line, prompt]);
    assert(both.drop_last() =~= none.push(line));
    let from = law_trim(line);
    if trim_of(line).len() > 0 {
        assert(trim_of(line)[0] == line[from]);
    }
}

/// A call's shell gets the command's answer to that call: the result goes out for it, with the calls
/// behind it in the message, which wait from then on.
pub proof fn law_completed_answers_the_call(
    pre: AppState,
    post: AppState,
    cmd: Option<Seq<char>>,
    output: Option<Seq<char>>,
    sent: Outbox,
    out: Outbox,
)
    requires
        completed(pre, post, cmd, output, sent, out),
        pre.shell_popup_state.pending_command_executed
            || pre.shell_popup_state.is_tool_call_shell_command,
        pre.dialog_approval_state.dialog_command is Some,
        sent.output@.len() < sent.output_room,
    ensures
        out.output@.len() == sent.output@.len() + 1,
        out.output@.drop_last() == sent.output@,
        ({
            &&& out.output@.last() matches OutputEvent::SendToolResult(r, stop, rest)
            &&& r.call.id@ == pre.dialog_approval_state.dialog_command->0.id@
            &&& r.call.function.name@ == pre.dialog_approval_state.dialog_command->0.function.name@
            &&& r.status == ToolCallResultStatus::Success
            &&& stop == (rest@.len() > 0)
            &&& rest@ == calls_after(
                pre.session_tool_calls_state.last_message_tool_calls@,
                pre.dialog_approval_state.dialog_command->0.id@,
            )
        }),
{
}

/// The calls behind one in a list: all those behind the first with its identifier, in their order;
/// none where it is not in the list.
pub proof fn law_calls_after(calls: Seq<ToolCall>, id: Seq<char>, i: int)
    ensures
        (forall|j: int| 0 <= j < calls.len() ==> (#[trigger] calls[j]).id@ != id) ==> calls_after(
            calls,
            id,
        ).len() == 0,
        0 <= i < calls.len() && calls[i].id@ == id && (forall|j: int|
            0 <= j < i ==> (#[trigger] calls[j]).id@ != id) ==> calls_after(calls, id)
            == calls.subrange(i + 1, calls.len() as int),
{
    lemma_call_at(calls, id, 0);
    if 0 <= i < calls.len() {
        assert(calls.skip(i + 1) =~= calls.subrange(i + 1, calls.len() as int));
        assert(calls[i].id@ == calls[i].id@);
    }
}

proof fn lemma_call_at(calls: Seq<ToolCall>, id: Seq<char>, from: int)
    requires
        0 <= from,
    ensures
        match call_at(calls, id, from) {
            Some(k) => from <= k < calls.len() && calls[k].id@ == id && forall|j: int|
                from <= j < k ==> (#[trigger] calls[j]).id@ != id,
            None => forall|j: int| from <= j < calls.len() ==> (#[trigger] calls[j]).id@ != id,
        },
    decreases calls.len() - from,
{
    if from < calls.len() && calls[from].id@ != id {
        lemma_call_at(calls, id, from + 1);
    }
}

/// Giving calls a status gives it to each of them and to no other.
pub proof fn law_with_status(
    m: Map<Seq<char>, ToolCallStatus>,
    calls: Seq<ToolCall>,
    status: ToolCallStatus,
    id: Seq<char>,
)
    ensures
        (exists|i: int| 0 <= i < calls.len() && (#[trigger] calls[i]).id@ == id) ==> with_status(
            m,
            calls,
            status,
        ).contains_key(id) && with_status(m, calls, status)[id] == status,
        !(exists|i: int| 0 <= i < calls.len() && (#[trigger] calls[i]).id@ == id) ==> {
            &&& with_status(m, calls, status).contains_key(id) == m.contains_key(id)
            &&& m.contains_key(id) ==> with_status(m, calls, status)[id] == m[id]
        },
    decreases calls.len(),
{
    if calls.len() > 0 {
        let rest = calls.drop_last();
        law_with_status(m, rest, status, id);
        assert(calls[calls.len() - 1] == calls.last());
        assert(forall|i: int| 0 <= i < rest.len() ==> #[trigger] rest[i] == calls[i]);
        if exists|i: int| 0 <= i < calls.len() && (#[trigger] calls[i]).id@ == id {
            let i = choose|i: int| 0 <= i < calls.len() && (#[trigger] calls[i]).id@ == id;
            if i < rest.len() {
                assert(rest[i].id@ == id);
            }
        }
    }
}

/// Clearing the shell takes messages off the end only, each of them the shell's, and stops at the
/// first that is not.
pub proof fn law_without_shell(messages: Seq<Message>)
    ensures
        without_shell(messages).len() <= messages.len(),
        without_shell(messages) == messages.take(without_shell(messages).len() as int),
        forall|i: int|
            without_shell(messages).len() <= i < messages.len() ==> of_shell(
                (#[trigger] messages[i]).content,
            ),
        without_shell(messages).len() > 0 ==> !of_shell(without_shell(messages).last().content),
    decreases messages.len(),
{
    if messages.len() > 0 && of_shell(messages.last().content) {
        let rest = messages.drop_last();
        law_without_shell(rest);
        let n = without_shell(messages).len() as int;
        assert(rest.take(n) =~= messages.take(n));
        assert forall|i: int| n <= i < messages.len() implies of_shell(
            (#[trigger] messages[i]).content,
        ) by {
            if i < rest.len() {
                assert(rest[i] == messages[i]);
            }
        }
    } else {
        assert(messages.take(messages.len() as int) =~= messages);
    }
}

proof fn lemma_replaced_gone(s: Seq<char>, c: char, r: Seq<char>, i: int)
    requires
        0 <= i <= s.len(),
        !r.contains(c),
    ensures
        !crate::text::replaced_from(s, seq![c], r, i).contains(c),
    decreases s.len() - i,
{
    let p = seq![c];
    crate::text::lemma_find_from(s, p, i);
    let out = crate::text::replaced_from(s, p, r, i);
    match crate::text::find_from(s, p, i) {
        None => {
            if out.contains(c) {
                let k = choose|k: int| 0 <= k < out.len() && out[k] == c;
                assert(s.subrange(i + k, i + k + 1) =~= p);
                assert(crate::text::occurs_at(s, p, i + k));
            }
        },
        Some(e) => {
            lemma_replaced_gone(s, c, r, e + 1);
            let rest = crate::text::replaced_from(s, p, r, e + 1);
            let head = s.subrange(i, e);
            assert(out == head + r + rest);
            if out.contains(c) {
                let k = choose|k: int| 0 <= k < out.len() && out[k] == c;
                if k < head.len() {
                    assert(s[i + k] == c);
                    assert(s.subrange(i + k, i + k + 1) =~= p);
                    assert(crate::text::occurs_at(s, p, i + k));
                } else if k < head.len() + r.len() {
                    assert(r[k - head.len()] == c);
                } else {
                    assert(rest[k - head.len() - r.len()] == c);
                }
            }
        },
    }
}

/// With line feeds only, a text holds no carriage return; one that held none is as it was.
pub proof fn law_line_feeds(s: Seq<char>)
    ensures
        !line_feeds(s).contains('\r'),
        !s.contains('\r') ==> line_feeds(s) == s,
{
    reveal_strlit("\r\n");
    reveal_strlit("\r");
    reveal_strlit("\n");
    assert("\r"@ =~= seq!['\r']);
    let t = replaced(s, "\r\n"@, "\n"@);
    assert(!"\n"@.contains('\r'));
    lemma_replaced_gone(t, '\r', "\n"@, 0);
    if !s.contains('\r') {
        assert forall|i: int| !crate::text::occurs_at(s, "\r\n"@, i) by {
            if crate::text::occurs_at(s, "\r\n"@, i) {
                assert(s.subrange(i, i + "\r\n"@.len())[0] == s[i]);
            }
        }
        crate::text::law_replaced_nothing(s, "\r\n"@, "\n"@);
        assert forall|i: int| !crate::text::occurs_at(s, "\r"@, i) by {
            if crate::text::occurs_at(s, "\r"@, i) {
                assert(s.subrange(i, i + "\r"@.len())[0] == s[i]);
            }
        }
        crate::text::law_replaced_nothing(s, "\r"@, "\n"@);
    }
}

/// A shell that goes to the background goes on: it is no longer in front, its command still runs,
/// and what was typed is gone. One that is not in front stays as it is.
pub proof fn law_background_goes_on(pre: AppState, post: AppState)
    requires
        backgrounded(pre, post),
    ensures
        !pre.shell_popup_state.is_expanded ==> post == pre,
        !post.shell_popup_state.is_expanded,
        post.shell_popup_state.active_shell_command == pre.shell_popup_state.active_shell_command,
        post.shell_runtime_state == pre.shell_runtime_state,
        pre.shell_popup_state.is_expanded ==> post.input_state.text_area@.text.len() == 0
            && !post.input_state.text_area@.shell_mode,
{
}

proof fn lemma_word_end(s: Seq<char>, i: int)
    requires
        0 <= i <= s.len(),
    ensures
        i <= crate::banner::word_end(s, i) <= s.len(),
        forall|j: int| i <= j < crate::banner::word_end(s, i) ==> !is_space(#[trigger] s[j]),
        crate::banner::word_end(s, i) < s.len() ==> is_space(s[crate::banner::word_end(s, i)]),
    decreases s.len() - i,
{
    if i < s.len() && !is_space(s[i]) {
        lemma_word_end(s, i + 1);
    }
}

/// The first word of a text is what stands between the white space in front of it and that behind
/// it.
pub proof fn law_first_word(a: Seq<char>, w: Seq<char>, b: Seq<char>)
    requires
        forall|i: int| 0 <= i < a.len() ==> is_space(#[trigger] a[i]),
        w.len() > 0,
        forall|i: int| 0 <= i < w.len() ==> !is_space(#[trigger] w[i]),
        b.len() > 0 ==> is_space(b[0]),
    ensures
        first_word(a + w + b) == w,
{
    let s = a + w + b;
    lemma_skip_space(s, 0);
    let i = skip_space(s, 0);
    assert(s[a.len() as int] == w[0]);
    assert(forall|j: int| 0 <= j < a.len() ==> s[j] == a[j]);
    assert(i == a.len());
    lemma_word_end(s, i);
    let e = crate::banner::word_end(s, i);
    assert(forall|j: int| 0 <= j < w.len() ==> s[i + j] == w[j]);
    if b.len() > 0 {
        assert(s[a.len() as int + w.len()] == b[0]);
    }
    assert(e == a.len() + w.len()) by {
        if e < a.len() + w.len() {
            assert(s[e] == w[e - a.len()]);
        }
    }
    assert(s.subrange(i, e) =~= w);
}

/// A shell that starts is in front, with its own command, an empty log, and nothing remembered of one
/// before.
pub proof fn law_shell_starts_afresh(
    pre: AppState,
    post: AppState,
    command: ShellCommand,
    rows: u16,
    cols: u16,
)
    requires
        shell_started(pre, post, command, rows, cols),
    ensures
        post.shell_popup_state.active_shell_command == Some(command),
        post.shell_popup_state.is_visible,
        post.shell_popup_state.is_expanded,
        post.shell_popup_state.active_shell_command_output is Some,
        post.shell_popup_state.active_shell_command_output->0@.len() == 0,
        post.shell_runtime_state.history_lines@.len() == 0,
        !post.shell_session_state.shell_interaction_occurred,
        post.messages_scrolling_state.messages@.len()
            == pre.messages_scrolling_state.messages@.len() + 1,
        post.messages_scrolling_state.messages@.drop_last()
            == pre.messages_scrolling_state.messages@,
{
}

/// A command of the user is shown behind a dollar sign and is to be run as it is.
pub proof fn law_command_is_run(
    pre: AppState,
    post: AppState,
    command: String,
    sent: Outbox,
    out: Outbox,
)
    requires
        command_run(pre, post, command, sent, out),
    ensures
        out.output@ == sent.output@,
        out.effects@.len() == sent.effects@.len() + 1,
        ({
            &&& out.effects@.last() matches Effect::RunCommand(c, _, _)
            &&& c == command
        }),
        post.messages_scrolling_state.messages@.len()
            == pre.messages_scrolling_state.messages@.len() + 3,
        ({
            let shown = post.messages_scrolling_state.messages@[
                pre.messages_scrolling_state.messages@.len() as int + 1
            ];
            &&& shown.content matches MessageContent::Styled(l)
            &&& l@[0].content == "$ "@
            &&& l@[1].content == command@
        }),
{
    let n = pre.messages_scrolling_state.messages@.len();
    let ps = command_said(command@);
    assert(crate::message::new_message(post.messages_scrolling_state.messages@[n as int + 1], ps[1]));
}

/// A command that the user ran is reported behind the reports before, unless a call runs it; then it
/// is the call that is answered.
pub proof fn law_command_is_reported(pre: AppState, post: AppState)
    requires
        command_reported(pre, post),
    ensures
        !pre.shell_popup_state.pending_command_executed ==> post == pre,
        pre.shell_popup_state.pending_command_executed ==> {
            let p = pre.shell_popup_state;
            let q = post.shell_popup_state;
            let before = match p.shell_tool_calls {
                Some(v) => v@,
                None => Seq::empty(),
            };
            &&& !q.pending_command_executed
            &&& q.pending_command_output is None
            &&& q.pending_command_output_count == 0
            &&& p.is_tool_call_shell_command ==> q.shell_tool_calls == p.shell_tool_calls
            &&& !p.is_tool_call_shell_command ==> {
                &&& q.shell_tool_calls is Some
                &&& q.shell_tool_calls->0@.len() == before.len() + 1
                &&& q.shell_tool_calls->0@.drop_last() == before
                &&& q.shell_tool_calls->0@.last().status == ToolCallResultStatus::Success
            }
        },
{
}

/// What is typed goes to the shell that runs, and shows that the user has acted; without a shell it
/// goes nowhere.
pub proof fn law_typed_reaches_the_shell(
    pre: AppState,
    data: Seq<char>,
    sent: Outbox,
    out: Outbox,
)
    requires
        shell_written(pre, data, sent, out),
    ensures
        pre.shell_popup_state.active_shell_command is None ==> out == sent && shell_typed(pre, data)
            == pre,
        pre.shell_popup_state.active_shell_command is Some ==> {
            &&& out.effects@.len() == sent.effects@.len() + 1
            &&& out.effects@.last() matches Effect::ShellInput(t)
            &&& t@ == data
        },
        pre.shell_popup_state.active_shell_command is Some && data.len() > 0 ==> shell_typed(
            pre,
            data,
        ).shell_session_state.shell_interaction_occurred,
{
}

/// The command that a call runs is the text of its field of that name; a call without it, or whose
/// arguments are no JSON text, runs none.
pub proof fn law_call_command(arguments: Seq<char>, k: int, text: Seq<char>)
    ensures
        json_object(arguments) matches Ok(fields) ==> {
            &&& 0 <= k < fields.len() && fields[k].0 == "command"@ && fields[k].1
                == FieldView::Text(text) && (forall|j: int|
                0 <= j < k ==> (#[trigger] fields[j]).0 != "command"@) ==> call_command(arguments)
                == Ok::<Seq<char>, Seq<char>>(text)
            &&& (forall|j: int| 0 <= j < fields.len() ==> (#[trigger] fields[j]).0 != "command"@)
                ==> call_command(arguments) is Err
        },
        json_object(arguments) is Err ==> call_command(arguments) is Err,
{
    match json_object(arguments) {
        Ok(fields) => crate::arguments::law_field(fields, "command"@, k),
        Err(_) => {},
    }
}

/// The last row that is not blank is found, and none where all are.
pub proof fn law_last_text(rows: Seq<Seq<SpanView>>, k: int)
    ensures
        0 <= k < rows.len() && trim_of(row_text(rows[k])).len() > 0 && (forall|j: int|
            k < j < rows.len() ==> trim_of(row_text(#[trigger] rows[j])).len() == 0) ==> last_text(
            rows,
        ) == row_text(rows[k]),
        (forall|j: int|
            0 <= j < rows.len() ==> trim_of(row_text(#[trigger] rows[j])).len() == 0) ==> last_text(
            rows,
        ).len() == 0,
    decreases rows.len(),
{
    if rows.len() > 0 {
        let rest = rows.drop_last();
        law_last_text(rest, k);
        assert(forall|j: int| 0 <= j < rest.len() ==> #[trigger] rest[j] == rows[j]);
        assert(rows[rows.len() - 1] == rows.last());
    }
}

/// A command that waits stands in front of the rows of its output, which stay as they are.
pub proof fn law_with_command(cmd: Seq<char>, rows: Seq<Seq<SpanView>>)
    ensures
        with_command(None, rows) == rows,
        with_command(Some(cmd), rows).len() == rows.len() + 1,
        with_command(Some(cmd), rows).skip(1) == rows,
        row_text(with_command(Some(cmd), rows)[0]) == "$ "@ + cmd,
{
    let r = with_command(Some(cmd), rows);
    assert(r.skip(1) =~= rows);
    let row = command_row(cmd);
    assert(row =~= seq![row[0]] + seq![row[1]]);
    crate::style::law_row_text(seq![row[0]], seq![row[1]], row[0]);
    crate::style::law_row_text(seq![row[0]], seq![row[1]], row[1]);
}

} // verus!
