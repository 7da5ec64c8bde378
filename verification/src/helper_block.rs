//! Notices of the client itself in the conversation.

use vstd::prelude::*;
use crate::app::AppState;
use crate::app::message_pushed;
use crate::message::Message;
use crate::message::MessageContent;
use crate::message::is_block;
use crate::message::is_row;
use crate::message::new_message;
use crate::models::copy_text;
use crate::style::Color;
use crate::style::Line;
use crate::style::Span;
use crate::style::SpanView;
use crate::style::Style;
use crate::style::Tone;
use crate::style::line_views;
use crate::text::boundary;
use crate::text::chars_of;
use crate::text::contains;
use crate::text::decimal;
use crate::text::ends_with;
use crate::text::has_suffix;
use crate::text::holds_text;
use crate::text::index_at;
use crate::text::lines;
use crate::text::lines_of;
use crate::text::same_text;
use crate::text::split_from;
use crate::text::starts_with;
use crate::text::string_of;
use crate::text::texts;
use crate::text::to_decimal;
use crate::text::trim;
use crate::text::trim_of;
use crate::types::HelperCommand;
use crate::types::InputState;
use crate::types::LLMTokenUsage;
use crate::types::MessagesScrollingState;

verus! {

pub open spec fn version() -> Seq<char> {
    "0.1.0"@
}

/// The version of the client.
pub fn get_stakpak_version() -> (r: String)
    ensures
        r@ == version(),
{
    "0.1.0".to_owned()
}

// ----- rows -----

/// A span in one colour.
pub open spec fn tinted(s: Seq<char>, c: Color) -> SpanView {
    SpanView { content: s, style: Style::plain().fg(c) }
}

/// A bold span in one colour.
pub open spec fn bold(s: Seq<char>, c: Color) -> SpanView {
    SpanView { content: s, style: Style::plain().fg(c).strong() }
}

/// A span without a style.
pub open spec fn plain(s: Seq<char>) -> SpanView {
    SpanView { content: s, style: Style::plain() }
}

/// A text without a style: each of its lines is a span.
pub open spec fn text_row(s: Seq<char>) -> Seq<SpanView> {
    lines_of(s).map_values(|l: Seq<char>| plain(l))
}

pub open spec fn theme(t: Tone) -> Color {
    Color::Theme(t)
}

/// Rows that are being put together.
struct Rows {
    lines: Vec<Line>,
}

impl View for Rows {
    type V = Seq<Seq<SpanView>>;

    closed spec fn view(&self) -> Seq<Seq<SpanView>> {
        line_views(self.lines@)
    }
}

impl Rows {
    fn new() -> (r: Rows)
        ensures
            r@ == Seq::<Seq<SpanView>>::empty(),
    {
        let r: Rows = Rows { lines: Vec::new() };
        assert(r@ =~= Seq::<Seq<SpanView>>::empty());
        r
    }

    fn add_row(&mut self, l: Line)
        ensures
            final(self)@ == old(self)@.push(l@),
    {
        proof {
            crate::style::lemma_line_views_push(self.lines@, l);
        }
        self.lines.push(l);
    }

    fn blank(&mut self)
        ensures
            final(self)@ == old(self)@.push(Seq::<SpanView>::empty()),
    {
        self.add_row(Line::empty());
    }

    fn one(&mut self, s: &str, style: Style)
        ensures
            final(self)@ == old(self)@.push(seq![(SpanView { content: s@, style })]),
    {
        self.add_row(Line::of(Span::styled(s, style)));
    }

    fn two(&mut self, a: Span, b: Span)
        ensures
            final(self)@ == old(self)@.push(seq![a@, b@]),
    {
        let mut l: Line = Line::of(a);
        l.add(b);
        assert(l@ =~= seq![a@, b@]);
        self.add_row(l);
    }

    fn three(&mut self, a: Span, b: Span, c: Span)
        ensures
            final(self)@ == old(self)@.push(seq![a@, b@, c@]),
    {
        let mut l: Line = Line::of(a);
        l.add(b);
        l.add(c);
        assert(l@ =~= seq![a@, b@, c@]);
        self.add_row(l);
    }

    fn four(&mut self, a: Span, b: Span, c: Span, d: Span)
        ensures
            final(self)@ == old(self)@.push(seq![a@, b@, c@, d@]),
    {
        let mut l: Line = Line::of(a);
        l.add(b);
        l.add(c);
        l.add(d);
        assert(l@ =~= seq![a@, b@, c@, d@]);
        self.add_row(l);
    }

    /// A row of a label and a text.
    fn labelled(&mut self, label: &str, s: &str)
        ensures
            final(self)@ == old(self)@.push(text_row(label@ + s@)),
    {
        let mut whole: String = label.to_owned();
        whole.push_str(s);
        assert(whole@ =~= label@ + s@);
        self.add_row(row_of_text(whole.as_str()));
    }
}

fn row_of_text(s: &str) -> (r: Line)
    ensures
        r@ == text_row(s@),
{
    let parts: Vec<String> = lines(s);
    let ghost all = text_row(s@);
    let mut r: Line = Line::empty();
    let mut i: usize = 0;
    assert(texts(parts@).len() == parts@.len());
    assert(all.take(0) =~= Seq::<SpanView>::empty());
    while i < parts.len()
        invariant
            i <= parts@.len(),
            texts(parts@) == lines_of(s@),
            all == text_row(s@),
            all.len() == parts@.len(),
            r@ == all.take(i as int),
        decreases parts@.len() - i,
    {
        assert(texts(parts@)[i as int] == parts@[i as int]@);
        r.add(Span::raw(parts[i].as_str()));
        assert(all.take(i + 1) =~= all.take(i as int).push(all[i as int]));
        i += 1;
    }
    assert(all.take(i as int) =~= all);
    r
}

/// Whether a block of rows is the only new message.
pub open spec fn block_pushed(pre: AppState, post: AppState, rows: Seq<Seq<SpanView>>) -> bool {
    &&& post == pre.with_messages(post.messages_scrolling_state)
    &&& message_pushed(
        pre.messages_scrolling_state,
        post.messages_scrolling_state,
        |c: MessageContent| is_block(c, rows),
    )
}

/// Whether a row is the only new message.
pub open spec fn row_pushed(pre: AppState, post: AppState, row: Seq<SpanView>) -> bool {
    &&& post == pre.with_messages(post.messages_scrolling_state)
    &&& message_pushed(
        pre.messages_scrolling_state,
        post.messages_scrolling_state,
        |c: MessageContent| is_row(c, row),
    )
}

fn push_block(state: &mut AppState, rows: Rows)
    ensures
        block_pushed(*old(state), *final(state), rows@),
{
    state.push_message(MessageContent::StyledBlock(rows.lines));
}

fn push_row(state: &mut AppState, row: Line)
    ensures
        row_pushed(*old(state), *final(state), row@),
{
    state.push_message(MessageContent::Styled(row));
}

// ----- numbers -----

/// The characters from `i` on, with a comma wherever a multiple of three characters follows.
pub open spec fn grouped_from(s: Seq<char>, i: int) -> Seq<char>
    decreases s.len() - i,
{
    if i < 0 || i >= s.len() {
        Seq::empty()
    } else if i + 1 < s.len() && (s.len() - (i + 1)) % 3 == 0 {
        seq![s[i], ','] + grouped_from(s, i + 1)
    } else {
        seq![s[i]] + grouped_from(s, i + 1)
    }
}

/// A number with its digits in groups of three.
pub open spec fn grouped(n: nat) -> Seq<char> {
    grouped_from(decimal(n), 0)
}

/// The number with its digits in groups of three.
pub fn format_number_with_separator(n: u32) -> (r: String)
    ensures
        r@ == grouped(n as nat),
{
    let digits: Vec<char> = chars_of(to_decimal(n as u64).as_str());
    let mut r: String = String::new();
    let mut i: usize = 0;
    assert(r@ + grouped_from(digits@, 0) =~= grouped(n as nat));
    while i < digits.len()
        invariant
            i <= digits@.len(),
            r@ + grouped_from(digits@, i as int) == grouped(n as nat),
        decreases digits@.len() - i,
    {
        let ghost before = r@;
        r.push(digits[i]);
        if i + 1 < digits.len() && (digits.len() - (i + 1)) % 3 == 0 {
            r.push(',');
            assert(r@ + grouped_from(digits@, i + 1) =~= before + (seq![digits@[i as int], ',']
                + grouped_from(digits@, i + 1)));
        } else {
            assert(r@ + grouped_from(digits@, i + 1) =~= before + (seq![digits@[i as int]]
                + grouped_from(digits@, i + 1)));
        }
        i += 1;
    }
    assert(r@ =~= grouped(n as nat));
    r
}

/// The text without its commas.
pub open spec fn without_commas(s: Seq<char>) -> Seq<char>
    decreases s.len(),
{
    if s.len() == 0 {
        Seq::empty()
    } else if s[0] == ',' {
        without_commas(s.drop_first())
    } else {
        seq![s[0]] + without_commas(s.drop_first())
    }
}

/// Without the commas, the digits of the number are left.
pub proof fn law_groups_keep_digits(n: nat)
    ensures
        without_commas(grouped(n)) == decimal(n),
{
    lemma_decimal_no_comma(n);
    lemma_grouped_from(decimal(n), 0);
    assert(decimal(n).skip(0) =~= decimal(n));
}

proof fn lemma_decimal_no_comma(n: nat)
    ensures
        forall|i: int| 0 <= i < decimal(n).len() ==> decimal(n)[i] != ',',
    decreases n,
{
    if n >= 10 {
        lemma_decimal_no_comma(n / 10);
        assert forall|i: int| 0 <= i < decimal(n).len() implies decimal(n)[i] != ',' by {
            if i < decimal(n / 10).len() {
                assert(decimal(n)[i] == decimal(n / 10)[i]);
            }
        }
    }
}

proof fn lemma_grouped_from(s: Seq<char>, i: int)
    requires
        0 <= i <= s.len(),
        forall|j: int| 0 <= j < s.len() ==> s[j] != ',',
    ensures
        without_commas(grouped_from(s, i)) == s.skip(i),
    decreases s.len() - i,
{
    if i < s.len() {
        lemma_grouped_from(s, i + 1);
        let rest = grouped_from(s, i + 1);
        let g = grouped_from(s, i);
        assert(s.skip(i) =~= seq![s[i]] + s.skip(i + 1));
        if i + 1 < s.len() && (s.len() - (i + 1)) % 3 == 0 {
            assert(g.drop_first() =~= seq![','] + rest);
            assert((seq![','] + rest).drop_first() =~= rest);
            assert(g[0] == s[i]);
            assert(without_commas(seq![','] + rest) == without_commas(rest));
        } else {
            assert(g.drop_first() =~= rest);
            assert(g[0] == s[i]);
        }
        assert(without_commas(g) == seq![s[i]] + without_commas(g.drop_first()));
    } else {
        assert(s.skip(i) =~= Seq::<char>::empty());
    }
}

// ----- notices -----

/// The notice on the mouse.
pub open spec fn mouse_row(enabled: bool) -> Seq<SpanView> {
    seq![
        SpanView {
            content: "█"@,
            style: Style::plain().fg(theme(Tone::Magenta)).bg(theme(Tone::Magenta)),
        },
        plain("  Mouse capture "@),
        if enabled {
            tinted("enabled"@, theme(Tone::Success))
        } else {
            tinted("disabled"@, theme(Tone::Danger))
        },
        tinted(" • Ctrl+L to toggle"@, theme(Tone::Magenta)),
    ]
}

/// The message that says whether the mouse is captured, and how to change that.
pub fn mouse_capture_hint_message(state: &AppState) -> (m: Message)
    ensures
        new_message(
            m,
            |c: MessageContent| is_row(c, mouse_row(state.terminal_ui_state.mouse_capture_enabled)),
        ),
{
    let enabled: bool = state.terminal_ui_state.mouse_capture_enabled;
    let mut l: Line = Line::of(
        Span::styled(
            "█",
            Style::plain().fg(Color::Theme(Tone::Magenta)).bg(Color::Theme(Tone::Magenta)),
        ),
    );
    l.add(Span::raw("  Mouse capture "));
    if enabled {
        l.add(Span::styled("enabled", Style::plain().fg(Color::Theme(Tone::Success))));
    } else {
        l.add(Span::styled("disabled", Style::plain().fg(Color::Theme(Tone::Danger))));
    }
    l.add(Span::styled(" • Ctrl+L to toggle", Style::plain().fg(Color::Theme(Tone::Magenta))));
    assert(l@ =~= mouse_row(enabled));
    Message::new(MessageContent::Styled(l))
}

/// What follows the prefix on the last of the first `n` lines that start with it and with none of
/// the prefixes that count before it; `unknown` where there is none.
pub open spec fn account_field(
    all: Seq<Seq<char>>,
    before: Seq<Seq<char>>,
    prefix: Seq<char>,
    n: int,
) -> Seq<char>
    decreases n,
{
    if n <= 0 || n > all.len() {
        "unknown"@
    } else if crate::text::has_prefix(all[n - 1], prefix) && forall|k: int|
        0 <= k < before.len() ==> !crate::text::has_prefix(all[n - 1], #[trigger] before[k]) {
        trim_of(all[n - 1].skip(prefix.len() as int))
    } else {
        account_field(all, before, prefix, n - 1)
    }
}

/// The rows of the status.
pub open spec fn status_rows(account: Seq<char>, cwd: Seq<char>) -> Seq<Seq<SpanView>> {
    let all = lines_of(account);
    let n = all.len() as int;
    seq![
        seq![bold("Stakpak Code Status v"@ + version(), Color::Reset)],
        Seq::empty(),
        seq![bold("Working Directory"@, theme(Tone::Warning))],
        text_row("  L "@ + cwd),
        Seq::empty(),
        seq![bold("Account"@, theme(Tone::Warning))],
        text_row(
            "  L Username: "@ + account_field(all, seq!["ID: "@], "Username: "@, n),
        ),
        text_row("  L ID: "@ + account_field(all, Seq::empty(), "ID: "@, n)),
        text_row(
            "  L Name: "@ + account_field(all, seq!["ID: "@, "Username: "@], "Name: "@, n),
        ),
        Seq::empty(),
    ]
}

fn after_prefix(s: &str, prefix: &str) -> (r: String)
    requires
        crate::text::has_prefix(s@, prefix@),
    ensures
        r@ == trim_of(s@.skip(prefix@.len() as int)),
{
    let v: Vec<char> = chars_of(s);
    let p: Vec<char> = chars_of(prefix);
    let rest: String = string_of(&v, p.len(), v.len());
    assert(rest@ =~= s@.skip(prefix@.len() as int));
    trim(rest.as_str())
}

/// Says where the client runs and who uses it.
pub fn push_status_message(state: &mut AppState, cwd: &str)
    ensures
        block_pushed(
            *old(state),
            *final(state),
            status_rows(old(state).sessions_state.account_info@, cwd@),
        ),
{
    let all: Vec<String> = lines(state.sessions_state.account_info.as_str());
    let ghost lv = lines_of(state.sessions_state.account_info@);
    let mut id: String = "unknown".to_owned();
    let mut username: String = "unknown".to_owned();
    let mut name: String = "unknown".to_owned();
    let mut i: usize = 0;
    assert(texts(all@).len() == all@.len());
    let ghost none: Seq<Seq<char>> = Seq::empty();
    let ghost one: Seq<Seq<char>> = seq!["ID: "@];
    let ghost two: Seq<Seq<char>> = seq!["ID: "@, "Username: "@];
    while i < all.len()
        invariant
            i <= all@.len(),
            texts(all@) == lv,
            lv.len() == all@.len(),
            none == Seq::<Seq<char>>::empty(),
            one == seq!["ID: "@],
            two == seq!["ID: "@, "Username: "@],
            id@ == account_field(lv, none, "ID: "@, i as int),
            username@ == account_field(lv, one, "Username: "@, i as int),
            name@ == account_field(lv, two, "Name: "@, i as int),
        decreases all@.len() - i,
    {
        let line: &str = all[i].as_str();
        assert(lv[i as int] == line@);
        assert(one[0] == "ID: "@);
        assert(two[0] == "ID: "@);
        assert(two[1] == "Username: "@);
        if starts_with(line, "ID: ") {
            id = after_prefix(line, "ID: ");
        } else if starts_with(line, "Username: ") {
            username = after_prefix(line, "Username: ");
        } else if starts_with(line, "Name: ") {
            name = after_prefix(line, "Name: ");
        }
        i += 1;
    }
    let mut title: String = "Stakpak Code Status v".to_owned();
    title.push_str(get_stakpak_version().as_str());
    let head: Style = Style::plain().fg(Color::Theme(Tone::Warning)).strong();
    let mut rows: Rows = Rows::new();
    rows.one(title.as_str(), Style::plain().fg(Color::Reset).strong());
    rows.blank();
    rows.one("Working Directory", head);
    rows.labelled("  L ", cwd);
    rows.blank();
    rows.one("Account", head);
    rows.labelled("  L Username: ", username.as_str());
    rows.labelled("  L ID: ", id.as_str());
    rows.labelled("  L Name: ", name.as_str());
    rows.blank();
    assert(rows@ =~= status_rows(state.sessions_state.account_info@, cwd@));
    push_block(state, rows);
}

pub open spec fn or_zero(n: Option<u32>) -> nat {
    match n {
        Some(k) => k as nat,
        None => 0,
    }
}

/// A row of a label, blanks and a number.
pub open spec fn count_row(label: Seq<char>, gap: Seq<char>, number: SpanView) -> Seq<SpanView> {
    seq![plain(label), plain(gap), number]
}

pub open spec fn detail_number(n: Option<u32>) -> SpanView {
    tinted(grouped(or_zero(n)), theme(Tone::DarkGray))
}

/// The rows on the tokens of a session.
pub open spec fn usage_rows(u: LLMTokenUsage) -> Seq<Seq<SpanView>> {
    let head = seq![
        Seq::<SpanView>::empty(),
        seq![bold("Session Usage"@, theme(Tone::Cyan))],
        Seq::<SpanView>::empty(),
    ];
    if u.total_tokens == 0 {
        head.push(seq![tinted(" No tokens used yet in this session."@, theme(Tone::DarkGray))])
    } else {
        let prompt = head.push(
            count_row(
                " Prompt tokens"@,
                "      "@,
                bold(grouped(u.prompt_tokens as nat), theme(Tone::Warning)),
            ),
        );
        let details = match u.prompt_tokens_details {
            Some(d) => prompt.push(
                count_row("  ├─ Input tokens"@, "   "@, detail_number(d.input_tokens)),
            ).push(
                count_row(
                    "  ├─ Cache write"@,
                    "    "@,
                    detail_number(d.cache_write_input_tokens),
                ),
            ).push(
                count_row(
                    "  └─ Cache read"@,
                    "     "@,
                    detail_number(d.cache_read_input_tokens),
                ),
            ),
            None => prompt,
        };
        details.push(
            count_row(
                " Completion tokens"@,
                "  "@,
                bold(grouped(u.completion_tokens as nat), theme(Tone::Warning)),
            ),
        ).push(
            count_row(
                " Total tokens"@,
                "       "@,
                bold(grouped(u.total_tokens as nat), theme(Tone::Cyan)),
            ),
        )
    }
}

fn add_count(rows: &mut Rows, label: &str, gap: &str, n: u32, style: Style)
    ensures
        final(rows)@ == old(rows)@.push(
            count_row(label@, gap@, (SpanView { content: grouped(n as nat), style })),
        ),
{
    let number: String = format_number_with_separator(n);
    rows.three(Span::raw(label), Span::raw(gap), Span::styled(number.as_str(), style));
}

fn zero_if_none(n: Option<u32>) -> (r: u32)
    ensures
        r == or_zero(n),
{
    match n {
        Some(k) => k,
        None => 0,
    }
}

/// Says how many tokens the session took.
pub fn push_usage_message(state: &mut AppState)
    ensures
        block_pushed(
            *old(state),
            *final(state),
            usage_rows(old(state).usage_tracking_state.total_session_usage),
        ),
{
    let u: LLMTokenUsage = state.usage_tracking_state.total_session_usage;
    let warning: Style = Style::plain().fg(Color::Theme(Tone::Warning)).strong();
    let cyan: Style = Style::plain().fg(Color::Theme(Tone::Cyan)).strong();
    let gray: Style = Style::plain().fg(Color::Theme(Tone::DarkGray));
    let mut rows: Rows = Rows::new();
    rows.blank();
    rows.one("Session Usage", cyan);
    rows.blank();
    if u.total_tokens == 0 {
        rows.one(" No tokens used yet in this session.", gray);
    } else {
        add_count(&mut rows, " Prompt tokens", "      ", u.prompt_tokens, warning);
        match u.prompt_tokens_details {
            Some(d) => {
                add_count(
                    &mut rows,
                    "  ├─ Input tokens",
                    "   ",
                    zero_if_none(d.input_tokens),
                    gray,
                );
                add_count(
                    &mut rows,
                    "  ├─ Cache write",
                    "    ",
                    zero_if_none(d.cache_write_input_tokens),
                    gray,
                );
                add_count(
                    &mut rows,
                    "  └─ Cache read",
                    "     ",
                    zero_if_none(d.cache_read_input_tokens),
                    gray,
                );
            },
            None => {},
        }
        add_count(&mut rows, " Completion tokens", "  ", u.completion_tokens, warning);
        add_count(&mut rows, " Total tokens", "       ", u.total_tokens, cyan);
    }
    assert(rows@ =~= usage_rows(u));
    push_block(state, rows);
}

/// The rows that say that the conversation is being memorised.
pub open spec fn memorize_rows() -> Seq<Seq<SpanView>> {
    seq![
        seq![bold("📝 Memorizing conversation history..."@, theme(Tone::Warning))],
        Seq::empty(),
        seq![
            tinted(
                "We're extracting important information from your conversation in the background."@,
                Color::Reset,
            ),
        ],
        seq![
            tinted(
                "Feel free to continue talking to the agent while this happens!"@,
                theme(Tone::Green),
            ),
        ],
        Seq::empty(),
    ]
}

/// Says that the conversation is being memorised.
pub fn push_memorize_message(state: &mut AppState)
    ensures
        block_pushed(*old(state), *final(state), memorize_rows()),
{
    let mut rows: Rows = Rows::new();
    rows.one(
        "📝 Memorizing conversation history...",
        Style::plain().fg(Color::Theme(Tone::Warning)).strong(),
    );
    rows.blank();
    rows.one(
        "We're extracting important information from your conversation in the background.",
        Style::plain().fg(Color::Reset),
    );
    rows.one(
        "Feel free to continue talking to the agent while this happens!",
        Style::plain().fg(Color::Theme(Tone::Green)),
    );
    rows.blank();
    assert(rows@ =~= memorize_rows());
    push_block(state, rows);
}

/// A way to run the client, in the help.
pub open spec fn mode_row(mode: Seq<char>, desc: Seq<char>) -> Seq<SpanView> {
    seq![bold("● "@, theme(Tone::DarkGray)), plain(mode), plain(" – "@), bold(desc, Color::Reset)]
}

/// A slash command, in the help.
pub open spec fn command_row(c: HelperCommand) -> Seq<SpanView> {
    seq![tinted(c.command@, theme(Tone::Cyan)), plain(" – "@), plain(c.description@)]
}

/// A key, in the help.
pub open spec fn key_row(key: Seq<char>, desc: Seq<char>) -> Seq<SpanView> {
    seq![tinted(key, theme(Tone::Warning)), plain(" – "@), plain(desc)]
}

/// The rows of the help.
pub open spec fn help_rows(commands: Seq<HelperCommand>) -> Seq<Seq<SpanView>> {
    seq![
        Seq::<SpanView>::empty(),
        seq![bold("Usage Mode"@, Color::Reset)],
        mode_row("REPL"@, "stakpak (interactive session)"@),
        mode_row("Non-interactive"@, "stakpak -p  \"prompt\" -c <checkpoint_id>"@),
        Seq::<SpanView>::empty(),
        seq![
            plain("Run"@),
            bold(" stakpak --help "@, Color::Reset),
            tinted("to see all commands"@, theme(Tone::DarkGray)),
        ],
        Seq::<SpanView>::empty(),
        seq![bold("Available commands"@, Color::Reset)],
        Seq::<SpanView>::empty(),
        seq![bold("Slash-commands"@, theme(Tone::DarkGray))],
    ] + commands.map_values(|c: HelperCommand| command_row(c)) + seq![
        Seq::<SpanView>::empty(),
        seq![bold("Keyboard shortcuts"@, theme(Tone::DarkGray))],
        key_row("Enter"@, "send message"@),
        key_row("Ctrl+J or Shift+Enter"@, "insert newline"@),
        key_row("Ctrl+C"@, "quit Stakpak"@),
        Seq::<SpanView>::empty(),
    ]
}

fn add_mode(rows: &mut Rows, mode: &str, desc: &str)
    ensures
        final(rows)@ == old(rows)@.push(mode_row(mode@, desc@)),
{
    rows.four(
        Span::styled("● ", Style::plain().fg(Color::Theme(Tone::DarkGray)).strong()),
        Span::raw(mode),
        Span::raw(" – "),
        Span::styled(desc, Style::plain().fg(Color::Reset).strong()),
    );
}

fn add_key(rows: &mut Rows, key: &str, desc: &str)
    ensures
        final(rows)@ == old(rows)@.push(key_row(key@, desc@)),
{
    rows.three(
        Span::styled(key, Style::plain().fg(Color::Theme(Tone::Warning))),
        Span::raw(" – "),
        Span::raw(desc),
    );
}

fn add_commands(rows: &mut Rows, commands: &Vec<HelperCommand>)
    ensures
        final(rows)@ == old(rows)@ + commands@.map_values(|c: HelperCommand| command_row(c)),
{
    let ghost all = commands@.map_values(|c: HelperCommand| command_row(c));
    let ghost before = rows@;
    let mut i: usize = 0;
    assert(rows@ =~= before + all.take(0));
    while i < commands.len()
        invariant
            i <= commands@.len(),
            all == commands@.map_values(|c: HelperCommand| command_row(c)),
            rows@ == before + all.take(i as int),
        decreases commands@.len() - i,
    {
        rows.three(
            Span::styled(
                commands[i].command.as_str(),
                Style::plain().fg(Color::Theme(Tone::Cyan)),
            ),
            Span::raw(" – "),
            Span::raw(commands[i].description.as_str()),
        );
        assert(all[i as int] == command_row(commands@[i as int]));
        assert(all.take(i + 1) =~= all.take(i as int).push(all[i as int]));
        i += 1;
        assert(rows@ =~= before + all.take(i as int));
    }
    assert(all.take(i as int) =~= all);
}

/// Says how the client is used.
pub fn push_help_message(state: &mut AppState, commands: &Vec<HelperCommand>)
    ensures
        block_pushed(*old(state), *final(state), help_rows(commands@)),
{
    let head: Style = Style::plain().fg(Color::Reset).strong();
    let gray: Style = Style::plain().fg(Color::Theme(Tone::DarkGray));
    let mut rows: Rows = Rows::new();
    rows.blank();
    rows.one("Usage Mode", head);
    add_mode(&mut rows, "REPL", "stakpak (interactive session)");
    add_mode(&mut rows, "Non-interactive", "stakpak -p  \"prompt\" -c <checkpoint_id>");
    rows.blank();
    rows.three(
        Span::raw("Run"),
        Span::styled(" stakpak --help ", head),
        Span::styled("to see all commands", gray),
    );
    rows.blank();
    rows.one("Available commands", head);
    rows.blank();
    rows.one("Slash-commands", gray.strong());
    add_commands(&mut rows, commands);
    rows.blank();
    rows.one("Keyboard shortcuts", gray.strong());
    add_key(&mut rows, "Enter", "send message");
    add_key(&mut rows, "Ctrl+J or Shift+Enter", "insert newline");
    add_key(&mut rows, "Ctrl+C", "quit Stakpak");
    rows.blank();
    assert(rows@ =~= help_rows(commands@));
    push_block(state, rows);
}

/// The rows of a message of the system.
pub open spec fn system_rows(msg: Seq<char>) -> Seq<Seq<SpanView>> {
    seq![
        seq![plain("🤖"@), bold(" System"@, theme(Tone::Cyan))],
        seq![plain("   - "@ + msg)],
        seq![plain(" "@)],
    ]
}

/// Says something in the name of the system.
pub fn render_system_message(state: &mut AppState, msg: &str)
    ensures
        block_pushed(*old(state), *final(state), system_rows(msg@)),
{
    let mut text: String = "   - ".to_owned();
    text.push_str(msg);
    let mut rows: Rows = Rows::new();
    rows.two(
        Span::raw("🤖"),
        Span::styled(" System", Style::plain().fg(Color::Theme(Tone::Cyan)).strong()),
    );
    rows.one(text.as_str(), Style::plain());
    rows.one(" ", Style::plain());
    assert(rows@ =~= system_rows(msg@));
    push_block(state, rows);
}

/// The rows of an error: one for each of its lines, the first behind a flag.
pub open spec fn error_rows(error: Seq<char>, hide_flag: bool) -> Seq<Seq<SpanView>> {
    let parts = split_from(error, '\n', 0);
    let flag = if hide_flag {
        "        "@
    } else {
        "[Error] "@
    };
    Seq::new(
        parts.len(),
        |i: int|
            if i == 0 {
                seq![bold(flag, theme(Tone::Red)), tinted(parts[i], theme(Tone::Red))]
            } else {
                seq![tinted(parts[i], theme(Tone::Red))]
            },
    ).push(Seq::<SpanView>::empty())
}

/// Says that something went wrong.
pub fn push_error_message(state: &mut AppState, error: &str, remove_flag: Option<bool>)
    ensures
        block_pushed(
            *old(state),
            *final(state),
            error_rows(error@, remove_flag == Some(true)),
        ),
{
    let hide: bool = match remove_flag {
        Some(b) => b,
        None => false,
    };
    let red: Style = Style::plain().fg(Color::Theme(Tone::Red));
    let parts: Vec<String> = split_text(error, '\n');
    let ghost pv = split_from(error@, '\n', 0);
    let ghost all = error_rows(error@, hide);
    assert(texts(parts@).len() == parts@.len());
    let mut rows: Rows = Rows::new();
    let mut i: usize = 0;
    assert(rows@ =~= all.take(0));
    while i < parts.len()
        invariant
            i <= parts@.len(),
            texts(parts@) == pv,
            pv == split_from(error@, '\n', 0),
            pv.len() == parts@.len(),
            all == error_rows(error@, hide),
            red == Style::plain().fg(theme(Tone::Red)),
            rows@ == all.take(i as int),
        decreases parts@.len() - i,
    {
        assert(pv[i as int] == parts@[i as int]@);
        let text: Span = Span::styled(parts[i].as_str(), red);
        if i == 0 {
            let flag: &str = if hide {
                "        "
            } else {
                "[Error] "
            };
            rows.two(Span::styled(flag, red.strong()), text);
        } else {
            rows.add_row(Line::of(text));
        }
        assert(all.take(i + 1) =~= all.take(i as int).push(all[i as int]));
        i += 1;
    }
    rows.blank();
    assert(rows@ =~= all);
    push_block(state, rows);
}

/// The pieces of a text between the separators.
pub fn split_text(s: &str, c: char) -> (r: Vec<String>)
    ensures
        texts(r@) == split_from(s@, c, 0),
{
    let v: Vec<char> = chars_of(s);
    let mut r: Vec<String> = Vec::new();
    let mut i: usize = 0;
    assert(texts(r@) + split_from(s@, c, 0) =~= split_from(s@, c, 0));
    loop
        invariant
            i <= v@.len(),
            v@ == s@,
            texts(r@) + split_from(s@, c, i as int) == split_from(s@, c, 0),
        decreases v@.len() - i,
    {
        let end: usize = crate::text::find_char(&v, c, i);
        let piece: String = string_of(&v, i, end);
        let ghost before = texts(r@);
        proof {
            crate::text::lemma_texts_push(r@, piece);
            crate::text::lemma_next_char(v@, c, i as int);
        }
        r.push(piece);
        if end >= v.len() {
            assert(texts(r@) =~= before + split_from(s@, c, i as int));
            return r;
        }
        assert(texts(r@) + split_from(s@, c, end + 1) =~= before + split_from(s@, c, i as int));
        i = end + 1;
    }
}

/// Says something behind an icon.
pub fn push_styled_message(
    state: &mut AppState,
    message: &str,
    color: Color,
    icon: &str,
    icon_color: Color,
)
    ensures
        row_pushed(
            *old(state),
            *final(state),
            seq![tinted(icon@, icon_color), tinted(message@, color)],
        ),
{
    let mut l: Line = Line::of(Span::styled(icon, Style::plain().fg(icon_color)));
    l.add(Span::styled(message, Style::plain().fg(color)));
    assert(l@ =~= seq![tinted(icon@, icon_color), tinted(message@, color)]);
    push_row(state, l);
}

// ----- the welcome -----

/// A line of information.
pub open spec fn is_info(c: MessageContent, text: Seq<char>, style: Option<Style>) -> bool {
    c matches MessageContent::Info(t, s) && t@ == text && s == style
}

/// Whether the content says which version runs, and whether there is a newer one.
pub open spec fn says_version(c: MessageContent, latest: Option<String>) -> bool {
    match latest {
        Some(v) => if v@ != seq!['v'] + version() {
            is_info(
                c,
                "🚀 update available!  v"@ + version() + "  →  "@ + v@ + " ✨   "@,
                Some(Style::plain().fg(theme(Tone::Warning))),
            )
        } else {
            is_info(c, "version: "@ + version(), None)
        },
        None => is_info(c, "version: "@ + version(), None),
    }
}

/// The message that says which version runs.
pub fn version_message(latest_version: Option<String>) -> (m: Message)
    ensures
        new_message(m, |c: MessageContent| says_version(c, latest_version)),
{
    let own: String = get_stakpak_version();
    let mut current: String = "version: ".to_owned();
    current.push_str(own.as_str());
    match latest_version {
        Some(latest) => {
            let mut tag: String = String::new();
            tag.push('v');
            tag.push_str(own.as_str());
            assert(tag@ =~= seq!['v'] + version());
            if !same_text(latest.as_str(), tag.as_str()) {
                let mut text: String = "🚀 update available!  v".to_owned();
                text.push_str(own.as_str());
                text.push_str("  →  ");
                text.push_str(latest.as_str());
                text.push_str(" ✨   ");
                let style: Style = Style::plain().fg(Color::Theme(Tone::Warning));
                Message::new(MessageContent::Info(text, Some(style)))
            } else {
                Message::new(MessageContent::Info(current, None))
            }
        },
        None => Message::new(MessageContent::Info(current, None)),
    }
}

/// The name of the client in large letters.
pub open spec fn logo() -> Seq<char> {
    " \n   ╔═╗ ╔═╗    ██████╗████████╗ █████╗ ██╗  ██╗██████╗  █████╗ ██╗  ██╗ \n   ║^║ ║^║    ██╔═══╝╚══██╔══╝██╔══██╗██║ ██╔╝██╔══██╗██╔══██╗██║ ██╔╝ \n  ╔╝█████╚╗   ███████╗  ██║   ███████║█████╔╝ ██████╔╝███████║█████╔╝ \n>═║███████║═< ╚════██║  ██║   ██╔══██║██╔═██╗ ██╔═══╝ ██╔══██║██╔═██╗ \n>═║███████║═< ███████║  ██║   ██║  ██║██║  ██╗██║     ██║  ██║██║  ██╗ \n  ╚═══════╝   ╚══════╝  ╚═╝   ╚═╝  ╚═╝╚═╝  ╚═╝╚═╝     ╚═╝  ╚═╝╚═╝  ╚═╝ "@
}

fn logo_text() -> (r: String)
    ensures
        r@ == logo(),
{
    " \n   ╔═╗ ╔═╗    ██████╗████████╗ █████╗ ██╗  ██╗██████╗  █████╗ ██╗  ██╗ \n   ║^║ ║^║    ██╔═══╝╚══██╔══╝██╔══██╗██║ ██╔╝██╔══██╗██╔══██╗██║ ██╔╝ \n  ╔╝█████╚╗   ███████╗  ██║   ███████║█████╔╝ ██████╔╝███████║█████╔╝ \n>═║███████║═< ╚════██║  ██║   ██╔══██║██╔═██╗ ██╔═══╝ ██╔══██║██╔═██╗ \n>═║███████║═< ███████║  ██║   ██║  ██║██║  ██╗██║     ██║  ██║██║  ██╗ \n  ╚═══════╝   ╚══════╝  ╚═╝   ╚═╝  ╚═╝╚═╝  ╚═╝╚═╝     ╚═╝  ╚═╝╚═╝  ╚═╝ ".to_owned()
}

/// The contents that greet the user, in their order.
pub open spec fn welcome(latest: Option<String>, cwd: Seq<char>, mouse: bool) -> Seq<
    spec_fn(MessageContent) -> bool,
> {
    let gap = |c: MessageContent| is_info(c, "SPACING_MARKER"@, None);
    let head = seq![
        |c: MessageContent| is_info(c, logo(), Some(Style::plain().fg(theme(Tone::Cyan)))),
        gap,
        |c: MessageContent| says_version(c, latest),
        gap,
        |c: MessageContent| is_info(c, "cwd: "@ + cwd, None),
        gap,
    ];
    if mouse {
        head.push(|c: MessageContent| is_row(c, mouse_row(true))).push(gap)
    } else {
        head
    }
}

/// Whether the messages are new ones, with contents of which `ps` hold one by one.
pub open spec fn new_messages(
    messages: Seq<Message>,
    ps: Seq<spec_fn(MessageContent) -> bool>,
) -> bool {
    &&& messages.len() == ps.len()
    &&& forall|i: int| 0 <= i < ps.len() ==> new_message(messages[i], #[trigger] ps[i])
}

fn info(text: String, style: Option<Style>) -> (m: Message)
    ensures
        new_message(m, |c: MessageContent| is_info(c, text@, style)),
{
    Message::new(MessageContent::Info(text, style))
}

/// The messages that greet the user.
pub fn welcome_messages(latest_version: Option<String>, state: &AppState, cwd: &str) -> (r: Vec<
    Message,
>)
    ensures
        new_messages(
            r@,
            welcome(latest_version, cwd@, state.terminal_ui_state.mouse_capture_enabled),
        ),
{
    let mouse: bool = state.terminal_ui_state.mouse_capture_enabled;
    let mut r: Vec<Message> = Vec::new();
    let mut place: String = "cwd: ".to_owned();
    place.push_str(cwd);
    r.push(info(logo_text(), Some(Style::plain().fg(Color::Theme(Tone::Cyan)))));
    r.push(info("SPACING_MARKER".to_owned(), None));
    r.push(version_message(latest_version));
    r.push(info("SPACING_MARKER".to_owned(), None));
    r.push(info(place, None));
    r.push(info("SPACING_MARKER".to_owned(), None));
    if mouse {
        r.push(mouse_capture_hint_message(state));
        r.push(info("SPACING_MARKER".to_owned(), None));
    }
    r
}

/// Starts the conversation anew.
pub fn push_clear_message(state: &mut AppState, cwd: &str)
    ensures
        cleared(*old(state), *final(state), cwd@),
{
    let latest: Option<String> = copy_text(&state.configuration_state.latest_version);
    crate::app::clear_text(&mut state.input_state.text_area);
    state.input_state.show_helper_dropdown = false;
    state.messages_scrolling_state.messages = welcome_messages(latest, state, cwd);
    state.messages_scrolling_state.lines_stale = true;
}

/// The state after the conversation started anew: only the welcome is left, and the input is empty.
pub open spec fn cleared(pre: AppState, post: AppState, cwd: Seq<char>) -> bool {
    &&& post == (AppState {
        input_state: post.input_state,
        messages_scrolling_state: post.messages_scrolling_state,
        ..pre
    })
    &&& post.input_state == (InputState {
        text_area: post.input_state.text_area,
        show_helper_dropdown: false,
        ..pre.input_state
    })
    &&& post.input_state.text_area@ == (crate::textarea::TextAreaView {
        text: Seq::empty(),
        cursor: 0,
        ..pre.input_state.text_area@
    })
    &&& post.messages_scrolling_state == (MessagesScrollingState {
        messages: post.messages_scrolling_state.messages,
        lines_stale: true,
        ..pre.messages_scrolling_state
    })
    &&& new_messages(
        post.messages_scrolling_state.messages@,
        welcome(
            pre.configuration_state.latest_version,
            cwd,
            pre.terminal_ui_state.mouse_capture_enabled,
        ),
    )
}

// ----- errors -----

/// An error of the backend as it is shown: what exceeds the limit has a text of its own, and what
/// is wrapped as unknown is unwrapped.
pub open spec fn shown_error(
    error: Seq<char>,
    limit_error: Seq<char>,
    limit_message: Seq<char>,
) -> Seq<char> {
    if holds_text(error, limit_error) {
        limit_message
    } else if wrapped(error) {
        let start = crate::textarea::split_at_byte(error, 9).0.len() as int;
        if start < error.len() - 2 {
            error.subrange(start, error.len() - 2)
        } else {
            error
        }
    } else {
        error
    }
}

/// Whether the error is wrapped as unknown.
pub open spec fn wrapped(error: Seq<char>) -> bool {
    holds_text(error, "Unknown(\""@) && has_suffix(error, "\")"@)
}

/// An error of the backend as it is shown.
pub fn handle_errors(error: String, limit_error: &str, limit_message: &str) -> (r: String)
    requires
        wrapped(error@) && !holds_text(error@, limit_error@) ==> boundary(error@, 9),
    ensures
        r@ == shown_error(error@, limit_error@, limit_message@),
{
    if contains(error.as_str(), limit_error) {
        return limit_message.to_owned();
    }
    if contains(error.as_str(), "Unknown(\"") && ends_with(error.as_str(), "\")") {
        let v: Vec<char> = chars_of(error.as_str());
        proof {
            reveal_strlit("\")");
        }
        match index_at(error.as_str(), 9) {
            Some(start) => {
                proof {
                    let k = choose|k: int|
                        0 <= k <= error@.len() && #[trigger] crate::text::byte_of(error@, k) == 9;
                    crate::textarea::lemma_byte_of_inj(error@, start as int, k);
                }
                if start < v.len() - 2 {
                    return string_of(&v, start, v.len() - 2);
                }
            },
            None => {},
        }
    }
    error
}

// ----- links -----

/// The row that says whether a page was opened in the browser.
pub open spec fn link_row(
    opened: Option<Seq<char>>,
    good: Seq<char>,
    bad: Seq<char>,
    url: Seq<char>,
) -> Seq<SpanView> {
    match opened {
        None => seq![tinted(good, theme(Tone::Green)), plain(url)],
        Some(error) => seq![
            tinted(bad, theme(Tone::Red)),
            plain(error),
            plain(" - "@),
            plain(url),
        ],
    }
}

fn push_link(state: &mut AppState, error: &Option<String>, good: &str, bad: &str, url: &str)
    ensures
        row_pushed(
            *old(state),
            *final(state),
            link_row(crate::models::text_of(*error), good@, bad@, url@),
        ),
{
    let l: Line = match error {
        None => {
            let mut l: Line = Line::of(
                Span::styled(good, Style::plain().fg(Color::Theme(Tone::Green))),
            );
            l.add(Span::raw(url));
            l
        },
        Some(e) => {
            let mut l: Line = Line::of(
                Span::styled(bad, Style::plain().fg(Color::Theme(Tone::Red))),
            );
            l.add(Span::raw(e.as_str()));
            l.add(Span::raw(" - "));
            l.add(Span::raw(url));
            l
        },
    };
    assert(l@ =~= link_row(crate::models::text_of(*error), good@, bad@, url@));
    push_row(state, l);
}

/// Says whether the page for issues was opened.
pub fn push_issue_message(state: &mut AppState, error: &Option<String>)
    ensures
        row_pushed(
            *old(state),
            *final(state),
            link_row(
                crate::models::text_of(*error),
                "🔗 Opening GitHub Issues... "@,
                "❌ Failed to open GitHub Issues: "@,
                "https://github.com/stakpak/cli/issues/new"@,
            ),
        ),
{
    push_link(
        state,
        error,
        "🔗 Opening GitHub Issues... ",
        "❌ Failed to open GitHub Issues: ",
        "https://github.com/stakpak/cli/issues/new",
    );
}

/// Says whether the page for support was opened.
pub fn push_support_message(state: &mut AppState, error: &Option<String>)
    ensures
        row_pushed(
            *old(state),
            *final(state),
            link_row(
                crate::models::text_of(*error),
                "💬 Opening Discord Support... "@,
                "❌ Failed to open Discord Support: "@,
                "https://discord.gg/c4HUkDD45d"@,
            ),
        ),
{
    push_link(
        state,
        error,
        "💬 Opening Discord Support... ",
        "❌ Failed to open Discord Support: ",
        "https://discord.gg/c4HUkDD45d",
    );
}

/// An error is shown line by line: a row for each line, which ends in it, and an empty one behind.
pub proof fn law_error_is_shown(error: Seq<char>, hide_flag: bool, i: int)
    requires
        0 <= i < error_rows(error, hide_flag).len() - 1,
    ensures
        ({
            let parts = crate::text::split_from(error, '\n', 0);
            &&& error_rows(error, hide_flag).len() == parts.len() + 1
            &&& error_rows(error, hide_flag).last().len() == 0
            &&& error_rows(error, hide_flag)[i].len() > 0
            &&& error_rows(error, hide_flag)[i].last().content == parts[i]
            &&& crate::text::joined(parts, seq!['\n']) == error
        }),
{
    crate::text::law_split_joins(error, '\n');
}

proof fn lemma_groups(s: Seq<char>, i: int)
    requires
        0 <= i <= s.len(),
        forall|j: int| 0 <= j < s.len() ==> #[trigger] s[j] != ',',
    ensures
        ({
            let g = grouped_from(s, i);
            let m = s.len() - i;
            &&& m == 0 ==> g.len() == 0
            &&& m > 0 ==> g.len() == m + (m - 1) / 3
            &&& forall|j: int|
                0 <= j < g.len() ==> (#[trigger] g[j] == ',' <==> (g.len() - 1 - j) % 4 == 3)
        }),
    decreases s.len() - i,
{
    if i < s.len() {
        lemma_groups(s, i + 1);
        let g = grouped_from(s, i);
        let r = grouped_from(s, i + 1);
        let m = s.len() - i;
        if m > 1 && (m - 1) % 3 == 0 {
            assert(g =~= seq![s[i], ','] + r);
            assert(g.len() == r.len() + 2);
            assert((m - 1) / 3 == (m - 2) / 3 + 1);
            assert((r.len()) % 4 == 3);
            assert forall|j: int| 0 <= j < g.len() implies (#[trigger] g[j] == ',' <==> (g.len() - 1
                - j) % 4 == 3) by {
                if j >= 2 {
                    assert(g[j] == r[j - 2]);
                }
            }
        } else {
            assert(g =~= seq![s[i]] + r);
            if m > 1 {
                assert((m - 1) / 3 == (m - 2) / 3);
                assert(r.len() % 4 != 3);
            }
            assert forall|j: int| 0 <= j < g.len() implies (#[trigger] g[j] == ',' <==> (g.len() - 1
                - j) % 4 == 3) by {
                if j >= 1 {
                    assert(g[j] == r[j - 1]);
                }
            }
        }
    }
}

/// The digits of a number stand in groups of three, counted from its end, with one comma between each
/// two groups.
pub proof fn law_groups_of_three(n: nat, j: int)
    requires
        0 <= j < grouped(n).len(),
    ensures
        grouped(n)[j] == ',' <==> (grouped(n).len() - 1 - j) % 4 == 3,
        grouped(n).len() == decimal(n).len() + (decimal(n).len() - 1) / 3,
{
    lemma_decimal_no_comma(n);
    crate::text::law_decimal_reads_back(n);
    lemma_groups(decimal(n), 0);
}

} // verus!
