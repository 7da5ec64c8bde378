//! The lists under the input: slash commands and files.

use vstd::prelude::*;
use crate::app::AppState;
use crate::geometry::Rect;
use crate::input::is_slash;
use crate::input::starts_slash;
use crate::navigation::less;
use crate::navigation::minus;
use crate::navigation::smaller;
use crate::style::Color;
use crate::style::Line;
use crate::style::Span;
use crate::style::SpanView;
use crate::style::Style;
use crate::style::Tone;
use crate::style::line_views;
use crate::text::after_last;
use crate::text::blanks;
use crate::text::byte_len;
use crate::text::decimal;
use crate::text::ends_with;
use crate::text::has_suffix;
use crate::text::last_piece;
use crate::text::same_text;
use crate::text::spaces;
use crate::text::to_decimal;
use crate::text::trim;
use crate::text::trim_of;
use crate::text::utf8_len;
use crate::text_selection::sum;
use crate::types::CommandSource;
use crate::types::HelperCommand;
use crate::types::InputState;

verus! {

// ----- slash commands -----

/// How many commands are in view at most.
pub const MAX_VISIBLE_ITEMS: usize = 5;

/// Whether the commands are listed: the input starts one, and there are some that fit.
pub open spec fn commands_listed(i: InputState) -> bool {
    i.show_helper_dropdown && is_slash(trim_of(i.text_area@.text)) && i.filtered_helpers@.len() > 0
}

/// How many commands are in view.
pub open spec fn in_view(n: int) -> int {
    smaller(MAX_VISIBLE_ITEMS as int, n)
}

/// Whether there are commands below those in view.
pub open spec fn more_below(n: int, scroll: int) -> bool {
    scroll < less(n, in_view(n))
}

/// The first command in view: not further down than there are commands.
pub open spec fn first_in_view(n: int, scroll: int) -> int {
    smaller(scroll, less(n, in_view(n)))
}

/// The room that the list takes: a row for each command in view, for each arrow and for the count.
pub open spec fn list_height(n: int, scroll: int) -> int {
    let above = scroll > 0;
    let below = more_below(n, scroll);
    in_view(n) + (if above {
        1int
    } else {
        0
    }) + (if below {
        1int
    } else {
        0
    }) + (if above || below {
        1int
    } else {
        0
    })
}

/// The length of the longest of the first `k` names, in bytes.
pub open spec fn longest(v: Seq<HelperCommand>, k: int) -> nat
    decreases k,
{
    if k <= 0 || k > v.len() {
        0
    } else {
        let rest = longest(v, k - 1);
        let n = utf8_len(v[k - 1].command@);
        if n > rest {
            n
        } else {
            rest
        }
    }
}

proof fn lemma_longest(v: Seq<HelperCommand>, k: int, i: int)
    requires
        0 <= i < k <= v.len(),
    ensures
        utf8_len(v[i].command@) <= longest(v, k),
    decreases k,
{
    if i < k - 1 {
        lemma_longest(v, k - 1, i);
    }
}

fn find_longest(v: &Vec<HelperCommand>) -> (n: usize)
    ensures
        n == longest(v@, v@.len() as int),
{
    let mut n: usize = 0;
    let mut k: usize = 0;
    while k < v.len()
        invariant
            k <= v@.len(),
            n == longest(v@, k as int),
        decreases v@.len() - k,
    {
        let m: usize = byte_len(v[k].command.as_str());
        if m > n {
            n = m;
        }
        k += 1;
    }
    n
}

/// The muted style of the list.
pub open spec fn muted() -> Style {
    Style::plain().fg(Color::Theme(Tone::DropdownMuted)).bg(Color::Theme(Tone::DropdownBg))
}

/// A style of the list, or that of the selected row.
pub open spec fn list_style(tone: Tone, selected: bool) -> Style {
    if selected {
        Style::plain().fg(Color::Theme(Tone::HighlightFg)).bg(Color::Theme(Tone::HighlightBg))
    } else {
        Style::plain().fg(Color::Theme(tone)).bg(Color::Theme(Tone::DropdownBg))
    }
}

fn get_list_style(tone: Tone, selected: bool) -> (r: Style)
    ensures
        r == list_style(tone, selected),
{
    if selected {
        Style::plain().fg(Color::Theme(Tone::HighlightFg)).bg(Color::Theme(Tone::HighlightBg))
    } else {
        Style::plain().fg(Color::Theme(tone)).bg(Color::Theme(Tone::DropdownBg))
    }
}

/// What is said of a command.
pub open spec fn described(h: HelperCommand) -> Seq<char> {
    if h.source is Custom {
        " – [custom] "@ + h.description@
    } else {
        " – "@ + h.description@
    }
}

/// The row of a command: its name, brought to the length of the longest, and what is said of it.
pub open spec fn command_row(h: HelperCommand, selected: bool, width: nat) -> Seq<SpanView> {
    seq![
        SpanView {
            content: "  "@ + h.command@ + "  "@,
            style: list_style(Tone::Cyan, selected),
        },
        SpanView {
            content: blanks((width - utf8_len(h.command@)) as nat),
            style: list_style(Tone::DropdownMuted, selected),
        },
        SpanView { content: described(h), style: list_style(Tone::DropdownText, selected) },
    ]
}

fn draw_command(h: &HelperCommand, selected: bool, width: usize) -> (r: Line)
    requires
        utf8_len(h.command@) <= width,
    ensures
        r@ == command_row(*h, selected, width as nat),
{
    let mut name: String = "  ".to_owned();
    name.push_str(h.command.as_str());
    name.push_str("  ");
    let mut said: String = match &h.source {
        CommandSource::Custom { prompt_content: _ } => " – [custom] ".to_owned(),
        _ => " – ".to_owned(),
    };
    said.push_str(h.description.as_str());
    let gap: String = spaces(width - byte_len(h.command.as_str()));
    let mut r: Line = Line::of(
        Span::styled(name.as_str(), get_list_style(Tone::Cyan, selected)),
    );
    r.add(Span::styled(gap.as_str(), get_list_style(Tone::DropdownMuted, selected)));
    r.add(Span::styled(said.as_str(), get_list_style(Tone::DropdownText, selected)));
    assert(r@ =~= command_row(*h, selected, width as nat));
    r
}

/// The rows of the commands in view.
pub open spec fn command_rows(i: InputState) -> Seq<Seq<SpanView>> {
    let v = i.filtered_helpers@;
    let first = first_in_view(v.len() as int, i.helper_scroll as int);
    Seq::new(
        in_view(v.len() as int) as nat,
        |k: int|
            command_row(
                v[first + k],
                first + k == i.helper_selected,
                longest(v, v.len() as int),
            ),
    )
}

/// A row with one muted text, or none.
pub open spec fn muted_row(text: Seq<char>, shown: bool) -> Seq<Seq<SpanView>> {
    if shown {
        seq![seq![SpanView { content: text, style: muted() }]]
    } else {
        Seq::empty()
    }
}

/// Which command is selected, and how many there are.
pub open spec fn count_text(i: InputState) -> Seq<char> {
    " ("@ + decimal(sum(i.helper_selected as int, 1) as nat) + "/"@ + decimal(
        i.filtered_helpers@.len(),
    ) + ")"@
}

/// The rows of the list: an arrow where commands are out of view, the commands in view, and a count
/// where there are more.
pub open spec fn list_rows(i: InputState) -> Seq<Seq<SpanView>> {
    let n = i.filtered_helpers@.len() as int;
    let above = first_in_view(n, i.helper_scroll as int) > 0;
    let below = more_below(n, i.helper_scroll as int);
    muted_row(" ▲"@, above) + command_rows(i) + muted_row(" ▼"@, below) + muted_row(
        count_text(i),
        above || below,
    )
}

/// The list of commands, and where it is.
#[derive(Debug)]
pub struct HelperDropdown {
    pub area: Rect,
    pub rows: Vec<Line>,
}

/// The list of commands at the place for it, where it is shown.
pub open spec fn helpers_drawn(i: InputState, place: Rect, r: Option<HelperDropdown>) -> bool {
    match r {
        Some(d) => {
            &&& commands_listed(i)
            &&& d.area == (Rect {
                height: list_height(
                    i.filtered_helpers@.len() as int,
                    i.helper_scroll as int,
                ) as u16,
                ..place
            })
            &&& line_views(d.rows@) == list_rows(i)
        },
        None => !commands_listed(i),
    }
}

fn add_row(rows: &mut Vec<Line>, l: Line)
    ensures
        line_views(final(rows)@) == line_views(old(rows)@).push(l@),
{
    proof {
        crate::style::lemma_line_views_push(rows@, l);
    }
    rows.push(l);
}

fn add_muted(rows: &mut Vec<Line>, text: &str, shown: bool)
    ensures
        line_views(final(rows)@) == line_views(old(rows)@) + muted_row(text@, shown),
{
    let ghost before = line_views(rows@);
    if shown {
        let style: Style = Style::plain().fg(Color::Theme(Tone::DropdownMuted)).bg(
            Color::Theme(Tone::DropdownBg),
        );
        let l: Line = Line::of(Span::styled(text, style));
        add_row(rows, l);
        assert(line_views(rows@) =~= before + muted_row(text@, shown));
    } else {
        assert(line_views(rows@) =~= before + muted_row(text@, shown));
    }
}

fn add_commands(rows: &mut Vec<Line>, i: &InputState, first: usize, visible: usize)
    requires
        first == first_in_view(i.filtered_helpers@.len() as int, i.helper_scroll as int),
        visible == in_view(i.filtered_helpers@.len() as int),
    ensures
        line_views(final(rows)@) == line_views(old(rows)@) + command_rows(*i),
{
    let width: usize = find_longest(&i.filtered_helpers);
    let ghost all = command_rows(*i);
    let ghost before = line_views(rows@);
    let mut k: usize = 0;
    assert(before + all.take(0) =~= before);
    while k < visible
        invariant
            k <= visible,
            visible == all.len(),
            first + visible <= i.filtered_helpers@.len(),
            first == first_in_view(i.filtered_helpers@.len() as int, i.helper_scroll as int),
            width == longest(i.filtered_helpers@, i.filtered_helpers@.len() as int),
            all == command_rows(*i),
            line_views(rows@) == before + all.take(k as int),
        decreases visible - k,
    {
        assert(first + k < i.filtered_helpers.len());
        let at: usize = first + k;
        proof {
            lemma_longest(i.filtered_helpers@, i.filtered_helpers@.len() as int, at as int);
        }
        let l: Line = draw_command(&i.filtered_helpers[at], at == i.helper_selected, width);
        assert(l@ == all[k as int]);
        add_row(rows, l);
        assert(before + all.take(k + 1) =~= (before + all.take(k as int)).push(all[k as int]));
        k += 1;
    }
    assert(all.take(k as int) =~= all);
}

fn say_count(i: &InputState) -> (r: String)
    ensures
        r@ == count_text(*i),
{
    let at: u64 = if i.helper_selected == usize::MAX {
        i.helper_selected as u64
    } else {
        (i.helper_selected + 1) as u64
    };
    let mut r: String = " (".to_owned();
    r.push_str(to_decimal(at).as_str());
    r.push_str("/");
    r.push_str(to_decimal(i.filtered_helpers.len() as u64).as_str());
    r.push_str(")");
    r
}

/// The list of commands at the place for it, where it is shown.
pub fn render_helper_dropdown(state: &AppState, place: Rect) -> (r: Option<HelperDropdown>)
    ensures
        helpers_drawn(state.input_state, place, r),
{
    let i: &InputState = &state.input_state;
    let text: String = trim(i.text_area.text());
    if !i.show_helper_dropdown || !starts_slash(text.as_str()) || i.filtered_helpers.len() == 0 {
        return None;
    }
    let total: usize = i.filtered_helpers.len();
    let visible: usize = if total < MAX_VISIBLE_ITEMS {
        total
    } else {
        MAX_VISIBLE_ITEMS
    };
    let most: usize = minus(total, visible);
    let below: bool = i.helper_scroll < most;
    let first: usize = if i.helper_scroll > most {
        most
    } else {
        i.helper_scroll
    };
    let mut height: u16 = visible as u16;
    if i.helper_scroll > 0 {
        height = height + 1;
    }
    if below {
        height = height + 1;
    }
    if i.helper_scroll > 0 || below {
        height = height + 1;
    }
    let mut rows: Vec<Line> = Vec::new();
    assert(line_views(rows@) =~= Seq::<Seq<SpanView>>::empty());
    add_muted(&mut rows, " ▲", first > 0);
    add_commands(&mut rows, i, first, visible);
    add_muted(&mut rows, " ▼", below);
    let count: String = say_count(i);
    add_muted(&mut rows, count.as_str(), first > 0 || below);
    assert(line_views(rows@) =~= list_rows(*i));
    Some(HelperDropdown { area: Rect { height, ..place }, rows })
}

/// The list takes as many rows as it has, where it is not scrolled further than it goes.
pub proof fn law_list_fits(i: InputState)
    requires
        i.helper_scroll <= less(
            i.filtered_helpers@.len() as int,
            in_view(i.filtered_helpers@.len() as int),
        ),
    ensures
        list_rows(i).len() == list_height(
            i.filtered_helpers@.len() as int,
            i.helper_scroll as int,
        ),
        list_rows(i).len() <= MAX_VISIBLE_ITEMS + 3,
{
}

// ----- files -----

/// The icon of a file, by its extension.
pub open spec fn file_icon(name: Seq<char>) -> Seq<char> {
    let ext = last_piece(name, '.', name.len() as int);
    if has_suffix(name, "/"@) {
        "📁"@
    } else if ext == "rs"@ {
        "🦀"@
    } else if ext == "toml"@ {
        "⚙️"@
    } else if ext == "md"@ {
        "📝"@
    } else if ext == "json"@ {
        "📋"@
    } else if ext == "js"@ || ext == "ts"@ {
        "🟨"@
    } else if ext == "py"@ {
        "🐍"@
    } else if ext == "html"@ {
        "🌐"@
    } else if ext == "css"@ {
        "🎨"@
    } else if ext == "lock"@ {
        "🔒"@
    } else if ext == "sh"@ {
        "💻"@
    } else if ext == "png"@ || ext == "jpg"@ || ext == "jpeg"@ || ext == "gif"@ {
        "🖼️"@
    } else {
        "📄"@
    }
}

/// The icon of a file, by its extension.
pub fn get_file_icon(filename: &str) -> (r: &'static str)
    ensures
        r@ == file_icon(filename@),
{
    if ends_with(filename, "/") {
        return "📁";
    }
    let last: String = after_last(filename, '.');
    let ext: &str = last.as_str();
    if same_text(ext, "rs") {
        "🦀"
    } else if same_text(ext, "toml") {
        "⚙️"
    } else if same_text(ext, "md") {
        "📝"
    } else if same_text(ext, "json") {
        "📋"
    } else if same_text(ext, "js") || same_text(ext, "ts") {
        "🟨"
    } else if same_text(ext, "py") {
        "🐍"
    } else if same_text(ext, "html") {
        "🌐"
    } else if same_text(ext, "css") {
        "🎨"
    } else if same_text(ext, "lock") {
        "🔒"
    } else if same_text(ext, "sh") {
        "💻"
    } else if same_text(ext, "png") || same_text(ext, "jpg") || same_text(ext, "jpeg")
        || same_text(ext, "gif") {
        "🖼️"
    } else {
        "📄"
    }
}

/// The row of a file.
pub open spec fn file_row(name: Seq<char>, selected: bool) -> Seq<SpanView> {
    seq![
        SpanView {
            content: file_icon(name) + " "@ + name,
            style: if selected {
                Style::plain().bg(Color::Theme(Tone::HighlightBg)).fg(
                    Color::Theme(Tone::HighlightFg),
                ).strong()
            } else {
                Style::plain().fg(Color::Theme(Tone::Text))
            },
        },
    ]
}

fn draw_file(name: &str, selected: bool) -> (r: Line)
    ensures
        r@ == file_row(name@, selected),
{
    let mut text: String = get_file_icon(name).to_owned();
    text.push_str(" ");
    text.push_str(name);
    let style: Style = if selected {
        Style::plain().bg(Color::Theme(Tone::HighlightBg)).fg(
            Color::Theme(Tone::HighlightFg),
        ).strong()
    } else {
        Style::plain().fg(Color::Theme(Tone::Text))
    };
    Line::of(Span::styled(text.as_str(), style))
}

/// The title of the list of files and its colour, by what opened it.
pub open spec fn files_title(trigger: Option<char>) -> (Seq<char>, Tone) {
    match trigger {
        Some(c) => if c == '@' {
            ("📁 Files (@)"@, Tone::Cyan)
        } else {
            ("📁 Files"@, Tone::DarkGray)
        },
        None => ("📁 Files (Tab)"@, Tone::AccentSecondary),
    }
}

/// The list of files, which one of them is selected, and its title.
#[derive(Debug)]
pub struct FileDropdown {
    pub title: String,
    pub title_tone: Tone,
    pub rows: Vec<Line>,
    pub selected: usize,
}

/// The list of files, where there are some.
pub open spec fn files_drawn(i: InputState, r: Option<FileDropdown>) -> bool {
    let files = i.file_search.filtered_files@;
    match r {
        Some(d) => {
            &&& files.len() > 0
            &&& (d.title@, d.title_tone) == files_title(i.file_search.trigger_char)
            &&& line_views(d.rows@) == Seq::new(
                files.len(),
                |k: int| file_row(files[k]@, k == i.helper_selected),
            )
            &&& d.selected == i.helper_selected
        },
        None => files.len() == 0,
    }
}

fn render_file_dropdown(i: &InputState) -> (r: Option<FileDropdown>)
    ensures
        files_drawn(*i, r),
{
    let files: &Vec<String> = &i.file_search.filtered_files;
    if files.len() == 0 {
        return None;
    }
    let (title, title_tone): (String, Tone) = match i.file_search.trigger_char {
        Some(c) => if c == '@' {
            ("📁 Files (@)".to_owned(), Tone::Cyan)
        } else {
            ("📁 Files".to_owned(), Tone::DarkGray)
        },
        None => ("📁 Files (Tab)".to_owned(), Tone::AccentSecondary),
    };
    let ghost all = Seq::new(
        files@.len(),
        |k: int| file_row(files@[k]@, k == i.helper_selected),
    );
    let mut rows: Vec<Line> = Vec::new();
    let mut k: usize = 0;
    assert(line_views(rows@) =~= all.take(0));
    while k < files.len()
        invariant
            k <= files@.len(),
            all.len() == files@.len(),
            forall|j: int|
                0 <= j < files@.len() ==> #[trigger] all[j] == file_row(
                    files@[j]@,
                    j == i.helper_selected,
                ),
            line_views(rows@) == all.take(k as int),
        decreases files@.len() - k,
    {
        let l: Line = draw_file(files[k].as_str(), k == i.helper_selected);
        assert(all.take(k + 1) =~= all.take(k as int).push(all[k as int]));
        add_row(&mut rows, l);
        k += 1;
    }
    assert(all.take(k as int) =~= all);
    Some(FileDropdown { title, title_tone, rows, selected: i.helper_selected })
}

/// The list under the input.
#[derive(Debug)]
pub enum Dropdown {
    Nothing,
    Files(FileDropdown),
    Helpers(HelperDropdown),
}

/// The list under the input: files where some fit, else commands.
pub open spec fn dropdown_drawn(i: InputState, place: Rect, r: Dropdown) -> bool {
    if !i.show_helper_dropdown {
        r is Nothing
    } else if i.filtered_files@.len() > 0 {
        files_drawn(
            i,
            match r {
                Dropdown::Files(d) => Some(d),
                _ => None,
            },
        ) && !(r is Helpers)
    } else {
        helpers_drawn(
            i,
            place,
            match r {
                Dropdown::Helpers(d) => Some(d),
                _ => None,
            },
        ) && !(r is Files)
    }
}

/// The list under the input, at the place for it.
pub fn render_file_search_dropdown(state: &AppState, place: Rect) -> (r: Dropdown)
    ensures
        dropdown_drawn(state.input_state, place, r),
{
    if !state.input_state.show_helper_dropdown {
        return Dropdown::Nothing;
    }
    if state.input_state.filtered_files.len() > 0 {
        match render_file_dropdown(&state.input_state) {
            Some(d) => Dropdown::Files(d),
            None => Dropdown::Nothing,
        }
    } else {
        match render_helper_dropdown(state, place) {
            Some(d) => Dropdown::Helpers(d),
            None => Dropdown::Nothing,
        }
    }
}

/// The list shows the commands in their order, from the first in view on, each with its name and what
/// is said of it.
pub proof fn law_list_shows_commands(i: InputState, k: int)
    requires
        0 <= k < command_rows(i).len(),
    ensures
        ({
            let n = i.filtered_helpers@.len() as int;
            let first = if i.helper_scroll <= n - command_rows(i).len() {
                i.helper_scroll as int
            } else {
                n - command_rows(i).len()
            };
            let h = i.filtered_helpers@[first + k];
            &&& command_rows(i).len() == n || command_rows(i).len() == MAX_VISIBLE_ITEMS
            &&& command_rows(i).len() <= n
            &&& command_rows(i)[k][0].content == "  "@ + h.command@ + "  "@
            &&& h.source is Custom ==> command_rows(i)[k][2].content == " – [custom] "@
                + h.description@
            &&& !(h.source is Custom) ==> command_rows(i)[k][2].content == " – "@ + h.description@
            &&& command_rows(i)[k][0].style.bg == Some(
                Color::Theme(
                    if first + k == i.helper_selected {
                        Tone::HighlightBg
                    } else {
                        Tone::DropdownBg
                    },
                ),
            )
        }),
{
}

} // verus!
