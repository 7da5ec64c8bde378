//! Previews of file edits: a line diff laid out in rows for a terminal.

use vstd::prelude::*;
use crate::arguments::Field;
use crate::arguments::FieldView;
use crate::arguments::as_text;
use crate::arguments::field;
use crate::arguments::field_views;
use crate::arguments::get;
use crate::arguments::json_object;
use crate::arguments::parse_arguments;
use crate::arguments::text_value;
use crate::models::ToolCall;
use crate::models::text_of;
use crate::style::Color;
use crate::style::Line;
use crate::style::Span;
use crate::style::SpanView;
use crate::style::Style;
use crate::style::Tone;
use crate::style::all_lines;
use crate::style::columns_of;
use crate::style::copy_lines;
use crate::style::display_width;
use crate::style::lemma_line_views_push;
use crate::style::line_views;
use crate::text::blanks;
use crate::text::byte_len;
use crate::text::byte_of;
use crate::text::chars_of;
use crate::text::decimal;
use crate::text::find_chars;
use crate::text::find_from;
use crate::text::four_columns;
use crate::text::is_space;
use crate::text::is_white;
use crate::text::law_replaced_first;
use crate::text::law_replaced_nothing;
use crate::text::law_trim_end;
use crate::text::lemma_byte_of_mono;
use crate::text::lemma_byte_of_step;
use crate::text::lemma_find_from;
use crate::text::lemma_skip_space;
use crate::text::len_utf8;
use crate::text::occurs_at;
use crate::text::parse_number;
use crate::text::parsed_number;
use crate::text::replace;
use crate::text::replaced;
use crate::text::right_aligned;
use crate::text::same_text;
use crate::text::skip_space;
use crate::text::skip_white;
use crate::text::spaces;
use crate::text::string_of;
use crate::text::texts;
use crate::text::to_decimal;
use crate::text::trim_end;
use crate::text::trim_end_of;
use crate::text::trim_start_of;
use crate::text::utf8_len;

verus! {

// ----- wrapping -----

/// The first index from `i` on whose character starts at byte `at` or later (or the length).
pub open spec fn index_from_byte(s: Seq<char>, at: int, i: int) -> int
    decreases s.len() - i,
{
    if i < 0 || i >= s.len() || byte_of(s, i) >= at {
        i
    } else {
        index_from_byte(s, at, i + 1)
    }
}

/// The last index in `lo..hi` that holds white space.
pub open spec fn last_space(s: Seq<char>, lo: int, hi: int) -> Option<int>
    decreases hi - lo,
{
    if hi <= lo {
        None
    } else if is_space(s[hi - 1]) {
        Some(hi - 1)
    } else {
        last_space(s, lo, hi - 1)
    }
}

/// Four fifths of a width, rounded down: a row is broken at white space no earlier than that.
pub open spec fn four_fifths(width: int) -> int {
    width * 4 / 5
}

/// Where a text that is too wide for `width` columns is broken: at the last white space behind four
/// fifths of the width, else at the width. Both are counted in bytes.
pub open spec fn break_index(s: Seq<char>, width: int) -> int {
    let lo = index_from_byte(s, four_fifths(width), 0);
    let hi = index_from_byte(s, width, 0);
    match last_space(s, lo, hi) {
        Some(i) => i,
        None => hi,
    }
}

/// The rows that a text takes in `width` columns.
pub open spec fn wrapped(s: Seq<char>, width: int) -> Seq<Seq<char>>
    decreases s.len(),
{
    if s.len() == 0 || columns_of(s) <= width {
        if s.len() == 0 {
            Seq::empty()
        } else {
            seq![s]
        }
    } else {
        let b = break_index(s, width);
        let rest = trim_start_of(s.subrange(b, s.len() as int));
        if 0 <= b <= s.len() && rest.len() < s.len() {
            seq![s.subrange(0, b)] + wrapped(rest, width)
        } else {
            Seq::empty()
        }
    }
}

/// The rows of a line's text beside a prefix of the given width. A text that fits is one row, be it
/// empty.
pub open spec fn rows_of(s: Seq<char>, terminal_width: int, prefix: int) -> Seq<Seq<char>> {
    let width = if terminal_width > prefix {
        terminal_width - prefix
    } else {
        0
    };
    if columns_of(s) <= width {
        seq![s]
    } else {
        wrapped(s, width)
    }
}

/// Whether a line's text can be laid out: it fits, or there is a column to break it in.
pub open spec fn can_wrap(s: Seq<char>, terminal_width: int, prefix: int) -> bool {
    terminal_width > prefix || columns_of(s) <= 0
}

proof fn lemma_index_from_byte(s: Seq<char>, at: int, i: int)
    requires
        0 <= i <= s.len(),
    ensures
        i <= index_from_byte(s, at, i) <= s.len(),
        forall|j: int| i <= j < index_from_byte(s, at, i) ==> byte_of(s, j) < at,
        index_from_byte(s, at, i) < s.len() ==> byte_of(s, index_from_byte(s, at, i)) >= at,
    decreases s.len() - i,
{
    if i < s.len() && byte_of(s, i) < at {
        lemma_index_from_byte(s, at, i + 1);
    }
}

proof fn lemma_last_space(s: Seq<char>, lo: int, hi: int)
    requires
        0 <= lo,
        hi <= s.len(),
    ensures
        last_space(s, lo, hi) is Some ==> lo <= last_space(s, lo, hi)->0 < hi && is_space(
            s[last_space(s, lo, hi)->0],
        ),
    decreases hi - lo,
{
    if lo < hi && !is_space(s[hi - 1]) {
        lemma_last_space(s, lo, hi - 1);
    }
}

/// Breaking a row off shortens the text wherever there is a column.
proof fn lemma_wrap_progress(s: Seq<char>, width: int)
    requires
        s.len() > 0,
        width > 0,
    ensures
        0 <= break_index(s, width) <= s.len(),
        trim_start_of(s.subrange(break_index(s, width), s.len() as int)).len() < s.len(),
{
    let lo = index_from_byte(s, four_fifths(width), 0);
    let hi = index_from_byte(s, width, 0);
    lemma_index_from_byte(s, four_fifths(width), 0);
    lemma_index_from_byte(s, width, 0);
    lemma_last_space(s, lo, hi);
    assert(s.take(0) =~= Seq::<char>::empty());
    assert(byte_of(s, 0) == 0);
    assert(hi >= 1);
    let b = break_index(s, width);
    let tail = s.subrange(b, s.len() as int);
    lemma_skip_space(tail, 0);
    if b == 0 {
        assert(is_space(s[0]));
        assert(tail[0] == s[0]);
        assert(skip_space(tail, 0) >= 1);
    }
}

/// The first index whose character starts at byte `at` or later.
fn index_from(s: &str, v: &Vec<char>, at: usize) -> (r: usize)
    requires
        v@ == s@,
    ensures
        r == index_from_byte(s@, at as int, 0),
        r <= s@.len(),
{
    let total: usize = byte_len(s);
    let mut i: usize = 0;
    let mut b: usize = 0;
    assert(s@.take(0) =~= Seq::<char>::empty());
    assert(s@.take(s@.len() as int) =~= s@);
    while i < v.len() && b < at
        invariant
            i <= v@.len(),
            v@ == s@,
            b == byte_of(s@, i as int),
            total == utf8_len(s@),
            s@.take(s@.len() as int) == s@,
            index_from_byte(s@, at as int, 0) == index_from_byte(s@, at as int, i as int),
        decreases v@.len() - i,
    {
        proof {
            lemma_byte_of_step(s@, i as int);
            lemma_byte_of_mono(s@, i + 1, s@.len() as int);
        }
        b = b + len_utf8(v[i]);
        i += 1;
    }
    i
}

/// The rows of a line's text beside a prefix of the given width.
pub fn wrap_content(content: &str, terminal_width: usize, prefix_width: usize) -> (r: Vec<String>)
    requires
        can_wrap(content@, terminal_width as int, prefix_width as int),
    ensures
        texts(r@) == rows_of(content@, terminal_width as int, prefix_width as int),
{
    let available: usize = terminal_width.saturating_sub(prefix_width);
    let mut r: Vec<String> = Vec::new();
    if display_width(content) <= available {
        r.push(content.to_owned());
        assert(texts(r@) =~= seq![content@]);
        return r;
    }
    let mut remaining: String = content.to_owned();
    assert(texts(r@) =~= Seq::<Seq<char>>::empty());
    assert(texts(r@) + wrapped(remaining@, available as int) =~= wrapped(
        content@,
        available as int,
    ));
    loop
        invariant_except_break
            texts(r@) + wrapped(remaining@, available as int) == wrapped(
                content@,
                available as int,
            ),
        invariant
            available > 0,
        ensures
            texts(r@) == wrapped(content@, available as int),
        decreases remaining@.len(),
    {
        let v: Vec<char> = chars_of(remaining.as_str());
        if v.len() == 0 {
            assert(texts(r@) + Seq::<Seq<char>>::empty() =~= texts(r@));
            break;
        }
        let ghost before = texts(r@);
        if display_width(remaining.as_str()) <= available {
            proof {
                assert(texts(r@.push(remaining)) =~= before + seq![remaining@]);
            }
            r.push(remaining);
            break;
        }
        proof {
            lemma_wrap_progress(remaining@, available as int);
        }
        let fifth: usize = available / 5 * 4 + available % 5 * 4 / 5;
        let lo: usize = index_from(remaining.as_str(), &v, fifth);
        let hi: usize = index_from(remaining.as_str(), &v, available);
        let mut b: usize = hi;
        let mut k: usize = hi;
        while k > lo && !is_white(v[k - 1])
            invariant
                k <= hi <= v@.len(),
                last_space(v@, lo as int, hi as int) == last_space(v@, lo as int, k as int),
            decreases k,
        {
            k -= 1;
        }
        if k > lo {
            b = k - 1;
        }
        assert(b == break_index(remaining@, available as int));
        let chunk: String = string_of(&v, 0, b);
        let next: String = string_of(&v, b, v.len());
        let nv: Vec<char> = chars_of(next.as_str());
        let start: usize = skip_white(&nv, 0);
        let rest: String = string_of(&nv, start, nv.len());
        proof {
            assert(rest@ =~= trim_start_of(next@));
            assert(texts(r@.push(chunk)) =~= before.push(chunk@));
            assert(before.push(chunk@) + wrapped(rest@, available as int) =~= before + (seq![
                chunk@,
            ] + wrapped(rest@, available as int)));
        }
        r.push(chunk);
        remaining = rest;
    }
    r
}

// ----- runs of a diff -----

/// What a run of a line diff does.
#[derive(Clone, Copy, Debug, PartialEq, Eq, Structural)]
pub enum DiffTag {
    Equal,
    Delete,
    Insert,
    Replace,
}

/// A run of a line diff: the lines that it takes from the old text, and those of the new one.
#[derive(Debug)]
pub struct DiffRun {
    pub tag: DiffTag,
    pub old_lines: Vec<String>,
    pub new_lines: Vec<String>,
}

/// What a run says.
pub struct DiffRunView {
    pub tag: DiffTag,
    pub old_lines: Seq<Seq<char>>,
    pub new_lines: Seq<Seq<char>>,
}

impl View for DiffRun {
    type V = DiffRunView;

    open spec fn view(&self) -> DiffRunView {
        DiffRunView {
            tag: self.tag,
            old_lines: texts(self.old_lines@),
            new_lines: texts(self.new_lines@),
        }
    }
}

/// What a sequence of runs says.
pub open spec fn run_views(v: Seq<DiffRun>) -> Seq<DiffRunView> {
    v.map_values(|r: DiffRun| r@)
}

/// The runs that lead from the lines of one text to those of another.
pub uninterp spec fn line_diff(old_text: Seq<char>, new_text: Seq<char>) -> Seq<DiffRunView>;

/// `TextDiff::from_lines` of the similar crate, with its `ops`: each operation with the slices that
/// its ranges pick. The runs are a function of the two texts alone.
#[verifier::external_body]
pub(crate) fn diff_lines(old_text: &str, new_text: &str) -> (r: Vec<DiffRun>)
    ensures
        run_views(r@) == line_diff(old_text@, new_text@),
{
    let diff = similar::TextDiff::from_lines(old_text, new_text);
    diff.ops().iter().map(|op| DiffRun {
        tag: match op.tag() {
            similar::DiffTag::Equal => DiffTag::Equal,
            similar::DiffTag::Delete => DiffTag::Delete,
            similar::DiffTag::Insert => DiffTag::Insert,
            similar::DiffTag::Replace => DiffTag::Replace,
        },
        old_lines: diff.old_slices()[op.old_range()].iter().map(|s| s.to_string()).collect(),
        new_lines: diff.new_slices()[op.new_range()].iter().map(|s| s.to_string()).collect(),
    }).collect()
}

/// How many columns stand before an unchanged line, and before a changed one.
pub open spec fn prefix_of(changed: bool) -> int {
    if changed {
        13
    } else {
        12
    }
}

/// A line as it is shown: without white space at its end, and with four spaces for a tab.
pub open spec fn shown(line: Seq<char>) -> Seq<char> {
    replaced(trim_end_of(line), seq!['\t'], blanks(4))
}

/// What is shown of a line without a tab starts as the line does: all that is left out is white
/// space at its end.
pub proof fn law_shown_starts_as_the_line(line: Seq<char>)
    requires
        forall|i: int| 0 <= i < line.len() ==> #[trigger] line[i] != '\t',
    ensures
        shown(line).len() <= line.len(),
        shown(line) == line.take(shown(line).len() as int),
        forall|i: int| shown(line).len() <= i < line.len() ==> is_space(#[trigger] line[i]),
        shown(line).len() > 0 ==> !is_space(shown(line).last()),
{
    let t = trim_end_of(line);
    law_trim_end(line);
    assert forall|i: int| !occurs_at(t, seq!['\t'], i) by {
        if occurs_at(t, seq!['\t'], i) {
            assert(t.subrange(i, i + 1)[0] == line[i]);
        }
    }
    law_replaced_nothing(t, seq!['\t'], blanks(4));
}

/// A tab is shown as four spaces. What stands before the first one is shown as it is, and what
/// stands behind it as it would be on a line of its own, unless that is white space alone, which is
/// not shown.
pub proof fn law_tab_is_four_spaces(a: Seq<char>, b: Seq<char>, k: int)
    requires
        forall|i: int| 0 <= i < a.len() ==> #[trigger] a[i] != '\t',
        0 <= k < b.len(),
        !is_space(b[k]),
    ensures
        shown(a + seq!['\t'] + b) == a + seq![' ', ' ', ' ', ' '] + shown(b),
{
    let line = a + seq!['\t'] + b;
    let t = trim_end_of(line);
    let u = trim_end_of(b);
    law_trim_end(line);
    law_trim_end(b);
    assert(line[a.len() + 1 + k] == b[k]);
    assert(t.len() > a.len() + 1 + k);
    assert(u.len() > k);
    assert(t.last() == line[t.len() - 1] == b[t.len() - a.len() - 2]);
    assert(u.last() == b[u.len() - 1] == line[a.len() as int + u.len()]);
    assert(t.len() == a.len() + 1 + u.len());
    assert(t =~= a + seq!['\t'] + u);
    assert forall|i: int| 0 <= i < a.len() implies !occurs_at(t, seq!['\t'], i) by {
        if occurs_at(t, seq!['\t'], i) {
            assert(t.subrange(i, i + 1)[0] == a[i]);
        }
    }
    law_replaced_first(a, u, seq!['\t'], blanks(4));
    assert(blanks(4) =~= seq![' ', ' ', ' ', ' ']);
}

pub open spec fn plain_span(content: Seq<char>, style: Style) -> SpanView {
    SpanView { content, style }
}

/// A style in an adaptive foreground colour.
pub open spec fn adaptive(t: Tone) -> Style {
    Style::plain().fg(Color::Adaptive(t))
}

/// The rows of an unchanged line: its two numbers before the first of them.
pub open spec fn equal_rows(
    old_num: nat,
    new_num: nat,
    line: Seq<char>,
    terminal_width: int,
) -> Seq<Seq<SpanView>> {
    let gray = adaptive(Tone::DarkGray);
    rows_of(shown(line), terminal_width, prefix_of(false)).map(
        |i: int, row: Seq<char>|
            if i == 0 {
                seq![
                    plain_span(right_aligned(decimal(old_num), 4) + blanks(1), gray),
                    plain_span(right_aligned(decimal(new_num), 4) + blanks(2), gray),
                    plain_span(blanks(2), Style::plain()),
                    plain_span(row, adaptive(Tone::Text)),
                ]
            } else {
                seq![
                    plain_span(blanks(5), gray),
                    plain_span(blanks(6), gray),
                    plain_span(blanks(2), Style::plain()),
                    plain_span(row, adaptive(Tone::Text)),
                ]
            },
    )
}

/// The colours of a removed or added line: its sign and number, and its background.
pub open spec fn sign_tone(removed: bool) -> Tone {
    if removed {
        Tone::Red
    } else {
        Tone::Green
    }
}

pub open spec fn back_tone(removed: bool) -> Tone {
    if removed {
        Tone::DarkRed
    } else {
        Tone::DarkGreen
    }
}

/// The background of a removed or added line.
pub open spec fn back(removed: bool) -> Style {
    Style::plain().bg(Color::Adaptive(back_tone(removed)))
}

/// The three spans before the text of a removed or added line. A removed line has its number in the
/// first column, an added one in the second.
pub open spec fn change_prefix(removed: bool, first: bool, num: nat) -> Seq<SpanView> {
    let sign = adaptive(sign_tone(removed)).bg(Color::Adaptive(back_tone(removed)));
    let gap = plain_span(blanks(5), back(removed));
    if first {
        let number = plain_span(right_aligned(decimal(num), 4) + blanks(1), sign);
        let mark = plain_span(
            if removed {
                seq![' ', '-', ' ']
            } else {
                seq![' ', '+', ' ']
            },
            sign.strong(),
        );
        if removed {
            seq![number, gap, mark]
        } else {
            seq![gap, number, mark]
        }
    } else {
        seq![gap, gap, plain_span(blanks(3), back(removed))]
    }
}

/// The space that brings a row to the width of the terminal.
pub open spec fn padding(removed: bool, row: Seq<char>, terminal_width: int) -> Seq<SpanView> {
    let taken = prefix_of(true) + columns_of(row);
    if taken < terminal_width {
        seq![plain_span(blanks((terminal_width - taken) as nat), back(removed))]
    } else {
        Seq::empty()
    }
}

/// The rows of a removed or added line.
pub open spec fn change_rows(
    removed: bool,
    num: nat,
    line: Seq<char>,
    terminal_width: int,
) -> Seq<Seq<SpanView>> {
    let text = adaptive(Tone::Text).bg(Color::Adaptive(back_tone(removed)));
    rows_of(shown(line), terminal_width, prefix_of(true)).map(
        |i: int, row: Seq<char>|
            change_prefix(removed, i == 0, num) + seq![plain_span(row, text)] + padding(
                removed,
                row,
                terminal_width,
            ),
    )
}

/// A preview as far as it is laid out.
#[verifier::ext_equal]
pub struct PreviewModel {
    pub rows: Seq<Seq<SpanView>>,
    pub old_num: nat,
    pub new_num: nat,
    pub deletions: nat,
    pub insertions: nat,
    /// The row at which the first change starts.
    pub first_change: Option<nat>,
}

pub open spec fn preview_start(offset: nat) -> PreviewModel {
    PreviewModel {
        rows: Seq::empty(),
        old_num: offset,
        new_num: offset,
        deletions: 0,
        insertions: 0,
        first_change: None,
    }
}

/// One unchanged line: both numbers go up.
pub open spec fn keep_line(p: PreviewModel, line: Seq<char>, width: int) -> PreviewModel {
    PreviewModel {
        rows: p.rows + equal_rows(p.old_num + 1, p.new_num + 1, line, width),
        old_num: p.old_num + 1,
        new_num: p.new_num + 1,
        ..p
    }
}

pub open spec fn mark_change(p: PreviewModel) -> Option<nat> {
    match p.first_change {
        Some(i) => Some(i),
        None => Some(p.rows.len()),
    }
}

/// One removed line: the old number goes up.
pub open spec fn remove_line(p: PreviewModel, line: Seq<char>, width: int) -> PreviewModel {
    PreviewModel {
        rows: p.rows + change_rows(true, p.old_num + 1, line, width),
        old_num: p.old_num + 1,
        deletions: p.deletions + 1,
        first_change: mark_change(p),
        ..p
    }
}

/// One added line: the new number goes up. The lines that a replacement adds mark no first change.
pub open spec fn add_line(p: PreviewModel, line: Seq<char>, width: int, mark: bool) -> PreviewModel {
    PreviewModel {
        rows: p.rows + change_rows(false, p.new_num + 1, line, width),
        new_num: p.new_num + 1,
        insertions: p.insertions + 1,
        first_change: if mark {
            mark_change(p)
        } else {
            p.first_change
        },
        ..p
    }
}

pub open spec fn keep_lines(p: PreviewModel, lines: Seq<Seq<char>>, width: int) -> PreviewModel
    decreases lines.len(),
{
    if lines.len() == 0 {
        p
    } else {
        keep_line(keep_lines(p, lines.drop_last(), width), lines.last(), width)
    }
}

pub open spec fn remove_lines(p: PreviewModel, lines: Seq<Seq<char>>, width: int) -> PreviewModel
    decreases lines.len(),
{
    if lines.len() == 0 {
        p
    } else {
        remove_line(remove_lines(p, lines.drop_last(), width), lines.last(), width)
    }
}

pub open spec fn add_lines(
    p: PreviewModel,
    lines: Seq<Seq<char>>,
    width: int,
    mark: bool,
) -> PreviewModel
    decreases lines.len(),
{
    if lines.len() == 0 {
        p
    } else {
        add_line(add_lines(p, lines.drop_last(), width, mark), lines.last(), width, mark)
    }
}

/// One run: a replacement first removes the old lines, then adds the new ones.
pub open spec fn preview_run(p: PreviewModel, run: DiffRunView, width: int) -> PreviewModel {
    match run.tag {
        DiffTag::Equal => keep_lines(p, run.old_lines, width),
        DiffTag::Delete => remove_lines(p, run.old_lines, width),
        DiffTag::Insert => add_lines(p, run.new_lines, width, true),
        DiffTag::Replace => add_lines(
            remove_lines(p, run.old_lines, width),
            run.new_lines,
            width,
            false,
        ),
    }
}

/// The preview of all runs, counted from `offset`.
pub open spec fn preview_runs(offset: nat, runs: Seq<DiffRunView>, width: int) -> PreviewModel
    decreases runs.len(),
{
    if runs.len() == 0 {
        preview_start(offset)
    } else {
        preview_run(preview_runs(offset, runs.drop_last(), width), runs.last(), width)
    }
}

/// The number that stands before the first line.
pub open spec fn line_offset(starting_line: Option<usize>) -> nat {
    match starting_line {
        Some(n) => if n > 0 {
            (n - 1) as nat
        } else {
            0
        },
        None => 0,
    }
}

/// Whether each line can be laid out beside its prefix.
pub open spec fn lines_fit(lines: Seq<Seq<char>>, width: int, changed: bool) -> bool {
    forall|i: int|
        0 <= i < lines.len() ==> can_wrap(shown(#[trigger] lines[i]), width, prefix_of(changed))
}

/// Whether each line that the run shows can be laid out.
pub open spec fn run_fits(run: DiffRunView, width: int) -> bool {
    match run.tag {
        DiffTag::Equal => lines_fit(run.old_lines, width, false),
        DiffTag::Delete => lines_fit(run.old_lines, width, true),
        DiffTag::Insert => lines_fit(run.new_lines, width, true),
        DiffTag::Replace => lines_fit(run.old_lines, width, true) && lines_fit(
            run.new_lines,
            width,
            true,
        ),
    }
}

/// Whether the runs can be laid out: there is a column for each line that needs one, and the line
/// numbers stay in range.
pub open spec fn runs_fit(runs: Seq<DiffRunView>, width: int, offset: nat) -> bool {
    &&& forall|i: int| 0 <= i < runs.len() ==> run_fits(#[trigger] runs[i], width)
    &&& preview_runs(offset, runs, width).old_num <= usize::MAX
    &&& preview_runs(offset, runs, width).new_num <= usize::MAX
}

// ----- laying a preview out -----

/// A preview as far as it is laid out.
struct Preview {
    lines: Vec<Line>,
    old_num: usize,
    new_num: usize,
    deletions: usize,
    insertions: usize,
    first_change: Option<usize>,
}

impl Preview {
    spec fn model(&self) -> PreviewModel {
        PreviewModel {
            rows: line_views(self.lines@),
            old_num: self.old_num as nat,
            new_num: self.new_num as nat,
            deletions: self.deletions as nat,
            insertions: self.insertions as nat,
            first_change: match self.first_change {
                Some(i) => Some(i as nat),
                None => None,
            },
        }
    }

    spec fn counted(&self) -> bool {
        self.deletions <= self.old_num && self.insertions <= self.new_num
    }
}

/// The line as it is shown.
fn shown_text(line: &str) -> (r: String)
    ensures
        r@ == shown(line@),
{
    let t: String = trim_end(line);
    let four: String = spaces(4);
    proof {
        reveal_strlit("\t");
        assert("\t"@ =~= seq!['\t']);
    }
    replace(t.as_str(), "\t", four.as_str())
}

/// A number in four columns with `gap` spaces behind it.
fn number_cell(n: usize, gap: usize) -> (r: String)
    ensures
        r@ == right_aligned(decimal(n as nat), 4) + blanks(gap as nat),
{
    let mut r: String = four_columns(n);
    let g: String = spaces(gap);
    r.push_str(g.as_str());
    r
}

fn adaptive_style(t: Tone) -> (r: Style)
    ensures
        r == adaptive(t),
{
    Style::plain().fg(Color::Adaptive(t))
}

/// Lays an unchanged line out.
fn lay_equal(p: &mut Preview, line: &str, width: usize)
    requires
        can_wrap(shown(line@), width as int, prefix_of(false)),
        old(p).old_num < usize::MAX,
        old(p).new_num < usize::MAX,
        old(p).counted(),
    ensures
        final(p).model() == keep_line(old(p).model(), line@, width as int),
        final(p).counted(),
{
    let ghost before = p.model();
    p.old_num = p.old_num + 1;
    p.new_num = p.new_num + 1;
    let content: String = shown_text(line);
    let rows: Vec<String> = wrap_content(content.as_str(), width, 12);
    let ghost all = equal_rows(p.old_num as nat, p.new_num as nat, line@, width as int);
    let mut i: usize = 0;
    assert(before.rows + all.take(0) =~= before.rows);
    while i < rows.len()
        invariant
            i <= rows@.len(),
            all == equal_rows(p.old_num as nat, p.new_num as nat, line@, width as int),
            texts(rows@) == rows_of(shown(line@), width as int, prefix_of(false)),
            all.len() == rows@.len(),
            line_views(p.lines@) == before.rows + all.take(i as int),
            p.old_num == before.old_num + 1,
            p.new_num == before.new_num + 1,
            p.model() == (PreviewModel {
                rows: line_views(p.lines@),
                old_num: before.old_num + 1,
                new_num: before.new_num + 1,
                ..before
            }),
        decreases rows@.len() - i,
    {
        let gray: Style = adaptive_style(Tone::DarkGray);
        let mut l: Line = Line::empty();
        if i == 0 {
            let a: String = number_cell(p.old_num, 1);
            let b: String = number_cell(p.new_num, 2);
            l.add(Span::styled(a.as_str(), gray));
            l.add(Span::styled(b.as_str(), gray));
        } else {
            let a: String = spaces(5);
            let b: String = spaces(6);
            l.add(Span::styled(a.as_str(), gray));
            l.add(Span::styled(b.as_str(), gray));
        }
        let c: String = spaces(2);
        l.add(Span::styled(c.as_str(), Style::plain()));
        l.add(Span::styled(rows[i].as_str(), adaptive_style(Tone::Text)));
        proof {
            assert(texts(rows@)[i as int] == rows@[i as int]@);
            assert(l@ =~= all[i as int]);
            lemma_line_views_push(p.lines@, l);
            assert(before.rows + all.take(i + 1) =~= (before.rows + all.take(i as int)).push(
                all[i as int],
            ));
        }
        p.lines.push(l);
        i += 1;
    }
    assert(all.take(i as int) =~= all);
}

/// The three spans before the text of a removed or added line.
fn prefix_line(removed: bool, first: bool, num: usize) -> (l: Line)
    ensures
        l@ == change_prefix(removed, first, num as nat),
{
    let tone: Tone = if removed {
        Tone::DarkRed
    } else {
        Tone::DarkGreen
    };
    let sign_color: Tone = if removed {
        Tone::Red
    } else {
        Tone::Green
    };
    let sign: Style = adaptive_style(sign_color).bg(Color::Adaptive(tone));
    let behind: Style = Style::plain().bg(Color::Adaptive(tone));
    let gap: String = spaces(5);
    let mut l: Line = Line::empty();
    if first {
        let number: String = number_cell(num, 1);
        let mut mark: String = String::new();
        mark.push(' ');
        if removed {
            mark.push('-');
        } else {
            mark.push('+');
        }
        mark.push(' ');
        if removed {
            l.add(Span::styled(number.as_str(), sign));
            l.add(Span::styled(gap.as_str(), behind));
            assert(mark@ =~= seq![' ', '-', ' ']);
        } else {
            l.add(Span::styled(gap.as_str(), behind));
            l.add(Span::styled(number.as_str(), sign));
            assert(mark@ =~= seq![' ', '+', ' ']);
        }
        l.add(Span::styled(mark.as_str(), sign.strong()));
    } else {
        l.add(Span::styled(gap.as_str(), behind));
        l.add(Span::styled(gap.as_str(), behind));
        let three: String = spaces(3);
        l.add(Span::styled(three.as_str(), behind));
    }
    assert(l@ =~= change_prefix(removed, first, num as nat));
    l
}

/// Lays the rows of a removed or added line out.
fn lay_change(lines: &mut Vec<Line>, removed: bool, num: usize, line: &str, width: usize)
    requires
        can_wrap(shown(line@), width as int, prefix_of(true)),
    ensures
        line_views(final(lines)@) == line_views(old(lines)@) + change_rows(
            removed,
            num as nat,
            line@,
            width as int,
        ),
{
    let ghost before = line_views(lines@);
    let content: String = shown_text(line);
    let rows: Vec<String> = wrap_content(content.as_str(), width, 13);
    let ghost all = change_rows(removed, num as nat, line@, width as int);
    let tone: Tone = if removed {
        Tone::DarkRed
    } else {
        Tone::DarkGreen
    };
    let mut i: usize = 0;
    assert(before + all.take(0) =~= before);
    while i < rows.len()
        invariant
            i <= rows@.len(),
            tone == back_tone(removed),
            all == change_rows(removed, num as nat, line@, width as int),
            texts(rows@) == rows_of(shown(line@), width as int, prefix_of(true)),
            all.len() == rows@.len(),
            line_views(lines@) == before + all.take(i as int),
        decreases rows@.len() - i,
    {
        let mut l: Line = prefix_line(removed, i == 0, num);
        let ghost head = l@;
        l.add(
            Span::styled(rows[i].as_str(), adaptive_style(Tone::Text).bg(Color::Adaptive(tone))),
        );
        let room: usize = width.saturating_sub(13);
        let pad: usize = room.saturating_sub(display_width(rows[i].as_str()));
        if pad > 0 {
            let fill: String = spaces(pad);
            l.add(Span::styled(fill.as_str(), Style::plain().bg(Color::Adaptive(tone))));
        }
        proof {
            assert(texts(rows@)[i as int] == rows@[i as int]@);
            let row = rows@[i as int]@;
            let text = adaptive(Tone::Text).bg(Color::Adaptive(back_tone(removed)));
            assert(l@ =~= head + seq![plain_span(row, text)] + padding(
                removed,
                row,
                width as int,
            ));
            assert(l@ == all[i as int]);
            lemma_line_views_push(lines@, l);
            assert(before + all.take(i + 1) =~= (before + all.take(i as int)).push(all[i as int]));
        }
        lines.push(l);
        i += 1;
    }
    assert(all.take(i as int) =~= all);
}

/// Lays a removed line out.
fn lay_removed(p: &mut Preview, line: &str, width: usize)
    requires
        can_wrap(shown(line@), width as int, prefix_of(true)),
        old(p).old_num < usize::MAX,
        old(p).counted(),
    ensures
        final(p).model() == remove_line(old(p).model(), line@, width as int),
        final(p).counted(),
{
    p.old_num = p.old_num + 1;
    p.deletions = p.deletions + 1;
    if p.first_change.is_none() {
        p.first_change = Some(p.lines.len());
    }
    lay_change(&mut p.lines, true, p.old_num, line, width);
}

/// Lays an added line out.
fn lay_added(p: &mut Preview, line: &str, width: usize, mark: bool)
    requires
        can_wrap(shown(line@), width as int, prefix_of(true)),
        old(p).new_num < usize::MAX,
        old(p).counted(),
    ensures
        final(p).model() == add_line(old(p).model(), line@, width as int, mark),
        final(p).counted(),
{
    p.new_num = p.new_num + 1;
    p.insertions = p.insertions + 1;
    if mark && p.first_change.is_none() {
        p.first_change = Some(p.lines.len());
    }
    lay_change(&mut p.lines, false, p.new_num, line, width);
}

proof fn lemma_keep_nums(p: PreviewModel, lines: Seq<Seq<char>>, width: int)
    ensures
        keep_lines(p, lines, width).old_num == p.old_num + lines.len(),
        keep_lines(p, lines, width).new_num == p.new_num + lines.len(),
        keep_lines(p, lines, width).deletions == p.deletions,
        keep_lines(p, lines, width).insertions == p.insertions,
    decreases lines.len(),
{
    if lines.len() > 0 {
        lemma_keep_nums(p, lines.drop_last(), width);
    }
}

proof fn lemma_remove_nums(p: PreviewModel, lines: Seq<Seq<char>>, width: int)
    ensures
        remove_lines(p, lines, width).old_num == p.old_num + lines.len(),
        remove_lines(p, lines, width).new_num == p.new_num,
        remove_lines(p, lines, width).deletions == p.deletions + lines.len(),
        remove_lines(p, lines, width).insertions == p.insertions,
    decreases lines.len(),
{
    if lines.len() > 0 {
        lemma_remove_nums(p, lines.drop_last(), width);
    }
}

proof fn lemma_add_nums(p: PreviewModel, lines: Seq<Seq<char>>, width: int, mark: bool)
    ensures
        add_lines(p, lines, width, mark).old_num == p.old_num,
        add_lines(p, lines, width, mark).new_num == p.new_num + lines.len(),
        add_lines(p, lines, width, mark).deletions == p.deletions,
        add_lines(p, lines, width, mark).insertions == p.insertions + lines.len(),
    decreases lines.len(),
{
    if lines.len() > 0 {
        lemma_add_nums(p, lines.drop_last(), width, mark);
    }
}

proof fn lemma_run_nums(p: PreviewModel, run: DiffRunView, width: int)
    ensures
        preview_run(p, run, width).old_num >= p.old_num,
        preview_run(p, run, width).new_num >= p.new_num,
{
    match run.tag {
        DiffTag::Equal => lemma_keep_nums(p, run.old_lines, width),
        DiffTag::Delete => lemma_remove_nums(p, run.old_lines, width),
        DiffTag::Insert => lemma_add_nums(p, run.new_lines, width, true),
        DiffTag::Replace => {
            lemma_remove_nums(p, run.old_lines, width);
            lemma_add_nums(remove_lines(p, run.old_lines, width), run.new_lines, width, false);
        },
    }
}

/// The numbers only grow from run to run.
proof fn lemma_runs_nums(offset: nat, runs: Seq<DiffRunView>, width: int, i: int)
    requires
        0 <= i <= runs.len(),
    ensures
        preview_runs(offset, runs.take(i), width).old_num <= preview_runs(
            offset,
            runs,
            width,
        ).old_num,
        preview_runs(offset, runs.take(i), width).new_num <= preview_runs(
            offset,
            runs,
            width,
        ).new_num,
    decreases runs.len() - i,
{
    if i == runs.len() {
        assert(runs.take(i) =~= runs);
    } else {
        lemma_runs_nums(offset, runs, width, i + 1);
        assert(runs.take(i + 1).drop_last() =~= runs.take(i));
        lemma_run_nums(preview_runs(offset, runs.take(i), width), runs[i], width);
    }
}

/// Lays the unchanged lines of a run out.
fn lay_equal_lines(p: &mut Preview, lines: &Vec<String>, width: usize)
    requires
        lines_fit(texts(lines@), width as int, false),
        old(p).old_num + lines@.len() <= usize::MAX,
        old(p).new_num + lines@.len() <= usize::MAX,
        old(p).counted(),
    ensures
        final(p).model() == keep_lines(old(p).model(), texts(lines@), width as int),
        final(p).counted(),
{
    let ghost before = p.model();
    let ghost all = texts(lines@);
    let mut i: usize = 0;
    assert(all.take(0) =~= Seq::<Seq<char>>::empty());
    while i < lines.len()
        invariant
            i <= lines@.len(),
            all == texts(lines@),
            lines_fit(all, width as int, false),
            before.old_num + lines@.len() <= usize::MAX,
            before.new_num + lines@.len() <= usize::MAX,
            p.model() == keep_lines(before, all.take(i as int), width as int),
            p.counted(),
        decreases lines@.len() - i,
    {
        proof {
            lemma_keep_nums(before, all.take(i as int), width as int);
            assert(all.take(i + 1).drop_last() =~= all.take(i as int));
            assert(all[i as int] == lines@[i as int]@);
        }
        lay_equal(p, lines[i].as_str(), width);
        i += 1;
    }
    assert(all.take(i as int) =~= all);
}

/// Lays the removed lines of a run out.
fn lay_removed_lines(p: &mut Preview, lines: &Vec<String>, width: usize)
    requires
        lines_fit(texts(lines@), width as int, true),
        old(p).old_num + lines@.len() <= usize::MAX,
        old(p).counted(),
    ensures
        final(p).model() == remove_lines(old(p).model(), texts(lines@), width as int),
        final(p).counted(),
{
    let ghost before = p.model();
    let ghost all = texts(lines@);
    let mut i: usize = 0;
    assert(all.take(0) =~= Seq::<Seq<char>>::empty());
    while i < lines.len()
        invariant
            i <= lines@.len(),
            all == texts(lines@),
            lines_fit(all, width as int, true),
            before.old_num + lines@.len() <= usize::MAX,
            p.model() == remove_lines(before, all.take(i as int), width as int),
            p.counted(),
        decreases lines@.len() - i,
    {
        proof {
            lemma_remove_nums(before, all.take(i as int), width as int);
            assert(all.take(i + 1).drop_last() =~= all.take(i as int));
            assert(all[i as int] == lines@[i as int]@);
        }
        lay_removed(p, lines[i].as_str(), width);
        i += 1;
    }
    assert(all.take(i as int) =~= all);
}

/// Lays the added lines of a run out.
fn lay_added_lines(p: &mut Preview, lines: &Vec<String>, width: usize, mark: bool)
    requires
        lines_fit(texts(lines@), width as int, true),
        old(p).new_num + lines@.len() <= usize::MAX,
        old(p).counted(),
    ensures
        final(p).model() == add_lines(old(p).model(), texts(lines@), width as int, mark),
        final(p).counted(),
{
    let ghost before = p.model();
    let ghost all = texts(lines@);
    let mut i: usize = 0;
    assert(all.take(0) =~= Seq::<Seq<char>>::empty());
    while i < lines.len()
        invariant
            i <= lines@.len(),
            all == texts(lines@),
            lines_fit(all, width as int, true),
            before.new_num + lines@.len() <= usize::MAX,
            p.model() == add_lines(before, all.take(i as int), width as int, mark),
            p.counted(),
        decreases lines@.len() - i,
    {
        proof {
            lemma_add_nums(before, all.take(i as int), width as int, mark);
            assert(all.take(i + 1).drop_last() =~= all.take(i as int));
            assert(all[i as int] == lines@[i as int]@);
        }
        lay_added(p, lines[i].as_str(), width, mark);
        i += 1;
    }
    assert(all.take(i as int) =~= all);
}

/// What a preview gives: the rows, how many lines were removed and added, and the rows between which
/// the changes lie.
pub type PreviewRows = (Vec<Line>, usize, usize, usize, usize);

/// The preview as the caller gets it. The last row counts as the last change.
pub open spec fn preview_result(p: PreviewModel, r: PreviewRows) -> bool {
    &&& line_views(r.0@) == p.rows
    &&& r.1 == p.deletions
    &&& r.2 == p.insertions
    &&& r.3 == (match p.first_change {
        Some(i) => i,
        None => 0,
    })
    &&& r.4 == (if p.rows.len() > 0 {
        p.rows.len() - 1
    } else {
        0
    })
}

/// Lays the runs of a diff out, with the line numbers counted from `starting_line`.
pub fn preview_diff_runs(
    runs: &Vec<DiffRun>,
    terminal_width: usize,
    starting_line: Option<usize>,
) -> (r: PreviewRows)
    requires
        runs_fit(run_views(runs@), terminal_width as int, line_offset(starting_line)),
    ensures
        preview_result(
            preview_runs(
                line_offset(starting_line),
                run_views(runs@),
                terminal_width as int,
            ),
            r,
        ),
{
    let start: usize = match starting_line {
        Some(n) => n.saturating_sub(1),
        None => 0,
    };
    let ghost all = run_views(runs@);
    let ghost offset = line_offset(starting_line);
    let mut p: Preview = Preview {
        lines: Vec::new(),
        old_num: start,
        new_num: start,
        deletions: 0,
        insertions: 0,
        first_change: None,
    };
    let mut i: usize = 0;
    proof {
        assert(all.take(0) =~= Seq::<DiffRunView>::empty());
        assert(line_views(p.lines@) =~= Seq::<Seq<SpanView>>::empty());
    }
    while i < runs.len()
        invariant
            i <= runs@.len(),
            all == run_views(runs@),
            runs_fit(all, terminal_width as int, offset),
            p.model() == preview_runs(offset, all.take(i as int), terminal_width as int),
            p.counted(),
        decreases runs@.len() - i,
    {
        let ghost at = p.model();
        proof {
            assert(all.take(i + 1).drop_last() =~= all.take(i as int));
            assert(all[i as int] == runs@[i as int]@);
            assert(run_fits(all[i as int], terminal_width as int));
            lemma_runs_nums(offset, all, terminal_width as int, i + 1);
            lemma_keep_nums(at, all[i as int].old_lines, terminal_width as int);
            lemma_remove_nums(at, all[i as int].old_lines, terminal_width as int);
            lemma_add_nums(at, all[i as int].new_lines, terminal_width as int, true);
            lemma_add_nums(
                remove_lines(at, all[i as int].old_lines, terminal_width as int),
                all[i as int].new_lines,
                terminal_width as int,
                false,
            );
        }
        match runs[i].tag {
            DiffTag::Equal => {
                lay_equal_lines(&mut p, &runs[i].old_lines, terminal_width);
            },
            DiffTag::Delete => {
                lay_removed_lines(&mut p, &runs[i].old_lines, terminal_width);
            },
            DiffTag::Insert => {
                lay_added_lines(&mut p, &runs[i].new_lines, terminal_width, true);
            },
            DiffTag::Replace => {
                lay_removed_lines(&mut p, &runs[i].old_lines, terminal_width);
                lay_added_lines(&mut p, &runs[i].new_lines, terminal_width, false);
            },
        }
        i += 1;
    }
    assert(all.take(i as int) =~= all);
    let last: usize = p.lines.len().saturating_sub(1);
    let first: usize = match p.first_change {
        Some(k) => k,
        None => 0,
    };
    (p.lines, p.deletions, p.insertions, first, last)
}

/// The preview of the changes from one text to another. `starting_line` is the line of the file at
/// which the old text starts.
pub fn preview_diff_from_strings(
    old_str: &str,
    new_str: &str,
    terminal_width: usize,
    starting_line: Option<usize>,
) -> (r: PreviewRows)
    requires
        runs_fit(
            line_diff(old_str@, new_str@),
            terminal_width as int,
            line_offset(starting_line),
        ),
    ensures
        preview_result(
            preview_runs(
                line_offset(starting_line),
                line_diff(old_str@, new_str@),
                terminal_width as int,
            ),
            r,
        ),
{
    let runs: Vec<DiffRun> = diff_lines(old_str, new_str);
    preview_diff_runs(&runs, terminal_width, starting_line)
}

// ----- whether a diff can be laid out -----

/// How many old and new lines a run shows.
pub open spec fn run_counts(run: DiffRunView) -> (nat, nat) {
    match run.tag {
        DiffTag::Equal => (run.old_lines.len(), run.old_lines.len()),
        DiffTag::Delete => (run.old_lines.len(), 0),
        DiffTag::Insert => (0, run.new_lines.len()),
        DiffTag::Replace => (run.old_lines.len(), run.new_lines.len()),
    }
}

/// How many old and new lines the runs show.
pub open spec fn counts(runs: Seq<DiffRunView>) -> (nat, nat)
    decreases runs.len(),
{
    if runs.len() == 0 {
        (0, 0)
    } else {
        let before = counts(runs.drop_last());
        let last = run_counts(runs.last());
        (before.0 + last.0, before.1 + last.1)
    }
}

/// How many lines a run removes and adds.
pub open spec fn run_changes(run: DiffRunView) -> (nat, nat) {
    match run.tag {
        DiffTag::Equal => (0, 0),
        DiffTag::Delete => (run.old_lines.len(), 0),
        DiffTag::Insert => (0, run.new_lines.len()),
        DiffTag::Replace => (run.old_lines.len(), run.new_lines.len()),
    }
}

/// How many lines the runs remove and add.
pub open spec fn changes(runs: Seq<DiffRunView>) -> (nat, nat)
    decreases runs.len(),
{
    if runs.len() == 0 {
        (0, 0)
    } else {
        let before = changes(runs.drop_last());
        let last = run_changes(runs.last());
        (before.0 + last.0, before.1 + last.1)
    }
}

/// Each line number is the offset and the number of lines before it: the preview counts every line
/// that a run shows, old and new ones apart. The removed and the added lines are counted once each.
pub proof fn law_preview_counts(offset: nat, runs: Seq<DiffRunView>, width: int)
    ensures
        preview_runs(offset, runs, width).old_num == offset + counts(runs).0,
        preview_runs(offset, runs, width).new_num == offset + counts(runs).1,
        preview_runs(offset, runs, width).deletions == changes(runs).0,
        preview_runs(offset, runs, width).insertions == changes(runs).1,
    decreases runs.len(),
{
    if runs.len() > 0 {
        law_preview_counts(offset, runs.drop_last(), width);
        let p = preview_runs(offset, runs.drop_last(), width);
        let run = runs.last();
        lemma_keep_nums(p, run.old_lines, width);
        lemma_remove_nums(p, run.old_lines, width);
        lemma_add_nums(p, run.new_lines, width, true);
        lemma_add_nums(remove_lines(p, run.old_lines, width), run.new_lines, width, false);
    }
}

/// The first change is marked at the row where it starts, and later runs do not move the mark. Where
/// nothing changes, nothing is marked.
pub proof fn law_first_change(offset: nat, runs: Seq<DiffRunView>, i: int, width: int)
    requires
        0 <= i < runs.len(),
        forall|k: int| 0 <= k < i ==> (#[trigger] runs[k]).tag == DiffTag::Equal,
    ensures
        preview_runs(offset, runs.take(i), width).first_change is None,
        (runs[i].tag == DiffTag::Delete || runs[i].tag == DiffTag::Replace)
            && runs[i].old_lines.len() > 0 || runs[i].tag == DiffTag::Insert
            && runs[i].new_lines.len() > 0 ==> preview_runs(offset, runs, width).first_change
            == Some(preview_runs(offset, runs.take(i), width).rows.len()),
{
    lemma_unmarked(offset, runs.take(i), width);
    let p = preview_runs(offset, runs.take(i), width);
    assert(runs.take(i + 1).drop_last() =~= runs.take(i));
    match runs[i].tag {
        DiffTag::Equal => {},
        DiffTag::Delete => lemma_remove_marks(p, runs[i].old_lines, width),
        DiffTag::Insert => lemma_add_marks(p, runs[i].new_lines, width),
        DiffTag::Replace => {
            lemma_remove_marks(p, runs[i].old_lines, width);
            lemma_marks_stay(remove_lines(p, runs[i].old_lines, width), runs[i].new_lines, width);
        },
    }
    lemma_mark_kept(offset, runs, i + 1, width);
}

proof fn lemma_unmarked(offset: nat, runs: Seq<DiffRunView>, width: int)
    requires
        forall|k: int| 0 <= k < runs.len() ==> (#[trigger] runs[k]).tag == DiffTag::Equal,
    ensures
        preview_runs(offset, runs, width).first_change is None,
    decreases runs.len(),
{
    if runs.len() > 0 {
        lemma_unmarked(offset, runs.drop_last(), width);
        lemma_marks_stay(
            preview_runs(offset, runs.drop_last(), width),
            runs.last().old_lines,
            width,
        );
    }
}

/// Lines that are kept, and those that a replacement adds, leave the mark where it is; and a mark
/// that is there stays.
proof fn lemma_marks_stay(p: PreviewModel, lines: Seq<Seq<char>>, width: int)
    ensures
        keep_lines(p, lines, width).first_change == p.first_change,
        add_lines(p, lines, width, false).first_change == p.first_change,
        p.first_change is Some ==> remove_lines(p, lines, width).first_change == p.first_change,
        p.first_change is Some ==> add_lines(p, lines, width, true).first_change
            == p.first_change,
    decreases lines.len(),
{
    if lines.len() > 0 {
        lemma_marks_stay(p, lines.drop_last(), width);
    }
}

proof fn lemma_remove_marks(p: PreviewModel, lines: Seq<Seq<char>>, width: int)
    requires
        p.first_change is None,
    ensures
        lines.len() > 0 ==> remove_lines(p, lines, width).first_change == Some(p.rows.len()),
    decreases lines.len(),
{
    if lines.len() > 0 {
        lemma_remove_marks(p, lines.drop_last(), width);
        if lines.len() == 1 {
            assert(remove_lines(p, lines.drop_last(), width) == p);
        }
    }
}

proof fn lemma_add_marks(p: PreviewModel, lines: Seq<Seq<char>>, width: int)
    requires
        p.first_change is None,
    ensures
        lines.len() > 0 ==> add_lines(p, lines, width, true).first_change == Some(p.rows.len()),
    decreases lines.len(),
{
    if lines.len() > 0 {
        lemma_add_marks(p, lines.drop_last(), width);
        if lines.len() == 1 {
            assert(add_lines(p, lines.drop_last(), width, true) == p);
        }
    }
}

proof fn lemma_mark_kept(offset: nat, runs: Seq<DiffRunView>, i: int, width: int)
    requires
        0 <= i <= runs.len(),
    ensures
        preview_runs(offset, runs.take(i), width).first_change is Some ==> preview_runs(
            offset,
            runs,
            width,
        ).first_change == preview_runs(offset, runs.take(i), width).first_change,
    decreases runs.len() - i,
{
    if i == runs.len() {
        assert(runs.take(i) =~= runs);
    } else {
        let p = preview_runs(offset, runs.take(i), width);
        let run = runs[i];
        assert(runs.take(i + 1).drop_last() =~= runs.take(i));
        lemma_marks_stay(p, run.old_lines, width);
        lemma_marks_stay(p, run.new_lines, width);
        lemma_marks_stay(remove_lines(p, run.old_lines, width), run.new_lines, width);
        lemma_mark_kept(offset, runs, i + 1, width);
    }
}

proof fn lemma_counts_grow(runs: Seq<DiffRunView>, i: int)
    requires
        0 <= i <= runs.len(),
    ensures
        counts(runs.take(i)).0 <= counts(runs).0,
        counts(runs.take(i)).1 <= counts(runs).1,
    decreases runs.len() - i,
{
    if i == runs.len() {
        assert(runs.take(i) =~= runs);
    } else {
        lemma_counts_grow(runs, i + 1);
        assert(runs.take(i + 1).drop_last() =~= runs.take(i));
    }
}

/// Whether each line can be laid out beside its prefix.
fn check_lines(lines: &Vec<String>, width: usize, changed: bool) -> (r: bool)
    ensures
        r == lines_fit(texts(lines@), width as int, changed),
{
    let prefix: usize = if changed {
        13
    } else {
        12
    };
    if width > prefix {
        return true;
    }
    let mut i: usize = 0;
    while i < lines.len()
        invariant
            i <= lines@.len(),
            width <= prefix == prefix_of(changed),
            forall|j: int|
                0 <= j < i ==> can_wrap(
                    shown(#[trigger] texts(lines@)[j]),
                    width as int,
                    prefix_of(changed),
                ),
        decreases lines@.len() - i,
    {
        let t: String = shown_text(lines[i].as_str());
        assert(texts(lines@)[i as int] == lines@[i as int]@);
        if display_width(t.as_str()) > 0 {
            return false;
        }
        i += 1;
    }
    true
}

/// Whether the runs can be laid out.
pub fn check_runs(runs: &Vec<DiffRun>, width: usize, starting_line: Option<usize>) -> (r: bool)
    ensures
        r == runs_fit(run_views(runs@), width as int, line_offset(starting_line)),
{
    let start: usize = match starting_line {
        Some(n) => n.saturating_sub(1),
        None => 0,
    };
    let ghost all = run_views(runs@);
    let mut old_left: usize = usize::MAX - start;
    let mut new_left: usize = usize::MAX - start;
    let mut i: usize = 0;
    proof {
        assert(all.take(0) =~= Seq::<DiffRunView>::empty());
        law_preview_counts(start as nat, all, width as int);
    }
    while i < runs.len()
        invariant
            i <= runs@.len(),
            all == run_views(runs@),
            start == line_offset(starting_line),
            preview_runs(start as nat, all, width as int).old_num == start + counts(all).0,
            preview_runs(start as nat, all, width as int).new_num == start + counts(all).1,
            start + counts(all.take(i as int)).0 + old_left == usize::MAX,
            start + counts(all.take(i as int)).1 + new_left == usize::MAX,
            forall|j: int| 0 <= j < i ==> run_fits(#[trigger] all[j], width as int),
        decreases runs@.len() - i,
    {
        proof {
            assert(all.take(i + 1).drop_last() =~= all.take(i as int));
            assert(all[i as int] == runs@[i as int]@);
            lemma_counts_grow(all, i + 1);
        }
        let old_len: usize = runs[i].old_lines.len();
        let new_len: usize = runs[i].new_lines.len();
        let (old_shown, new_shown): (usize, usize) = match runs[i].tag {
            DiffTag::Equal => (old_len, old_len),
            DiffTag::Delete => (old_len, 0),
            DiffTag::Insert => (0, new_len),
            DiffTag::Replace => (old_len, new_len),
        };
        let fits: bool = match runs[i].tag {
            DiffTag::Equal => check_lines(&runs[i].old_lines, width, false),
            DiffTag::Delete => check_lines(&runs[i].old_lines, width, true),
            DiffTag::Insert => check_lines(&runs[i].new_lines, width, true),
            DiffTag::Replace => check_lines(&runs[i].old_lines, width, true) && check_lines(
                &runs[i].new_lines,
                width,
                true,
            ),
        };
        if !fits || old_shown > old_left || new_shown > new_left {
            return false;
        }
        old_left = old_left - old_shown;
        new_left = new_left - new_shown;
        i += 1;
    }
    assert(all.take(i as int) =~= all);
    true
}

// ----- the line at which an edit starts -----

/// What the first group of a regular expression captures in a text: of the leftmost match, where
/// there is one.
pub uninterp spec fn first_group(pattern: Seq<char>, s: Seq<char>) -> Option<Seq<char>>;

/// `Regex::new` and `Regex::captures` of the regex crate, with the text of the first group. What it
/// gives is a function of the pattern and the text alone. A pattern that is no regular expression
/// captures nothing.
#[verifier::external_body]
pub(crate) fn capture_first(pattern: &str, s: &str) -> (r: Option<String>)
    ensures
        text_of(r) == first_group(pattern@, s@),
{
    let re = regex::Regex::new(pattern).ok()?;
    re.captures(s).and_then(|c| c.get(1).map(|m| m.as_str().to_string()))
}

/// The number that a capture writes.
pub open spec fn number_in(group: Option<Seq<char>>) -> Option<nat> {
    match group {
        Some(s) => parsed_number(s, usize::MAX as nat),
        None => None,
    }
}

/// The number that a capture writes.
pub fn captured_number(group: &Option<String>) -> (r: Option<usize>)
    ensures
        r is Some <==> number_in(text_of(*group)) is Some,
        r is Some ==> number_in(text_of(*group)) == Some(r->0 as nat),
{
    match group {
        Some(s) => parse_number(s.as_str()),
        None => None,
    }
}

/// The line at which the old text of a diff starts, from a hunk header such as `@@ -21,3 +21,3 @@`.
pub fn extract_starting_line_from_diff(diff_result: &str) -> (r: Option<usize>)
    ensures
        r is Some <==> number_in(first_group("@@\\s*-(\\d+)"@, diff_result@)) is Some,
        r is Some ==> number_in(first_group("@@\\s*-(\\d+)"@, diff_result@)) == Some(r->0 as nat),
{
    let group: Option<String> = capture_first("@@\\s*-(\\d+)", diff_result);
    captured_number(&group)
}

/// How often a character stands in a text.
pub open spec fn occurrences(s: Seq<char>, c: char) -> nat
    decreases s.len(),
{
    if s.len() == 0 {
        0
    } else {
        occurrences(s.drop_last(), c) + (if s.last() == c {
            1nat
        } else {
            0nat
        })
    }
}

/// The line of a file at which a text starts: one more than there are line feeds before it. An empty
/// text starts at the first line of any file, be it one that cannot be read.
pub open spec fn starting_line(file: Option<Seq<char>>, old_str: Seq<char>) -> Option<nat> {
    if old_str.len() == 0 {
        Some(1)
    } else {
        match file {
            None => None,
            Some(content) => match find_from(content, old_str, 0) {
                None => None,
                Some(i) => Some(occurrences(content.take(i), '\n') + 1),
            },
        }
    }
}

/// The content of a file that may not be there.
pub open spec fn content_of(file: Option<&str>) -> Option<Seq<char>> {
    match file {
        Some(s) => Some(s@),
        None => None,
    }
}

/// The 1-based line at which `old_str` starts in a file with the given content (none, where the file
/// cannot be read).
pub fn find_starting_line_in_file(file_content: Option<&str>, old_str: &str) -> (r: Option<usize>)
    ensures
        r is Some <==> starting_line(content_of(file_content), old_str@) is Some,
        r is Some ==> starting_line(content_of(file_content), old_str@) == Some(r->0 as nat),
{
    let pattern: Vec<char> = chars_of(old_str);
    if pattern.len() == 0 {
        return Some(1);
    }
    match file_content {
        None => None,
        Some(content) => {
            let v: Vec<char> = chars_of(content);
            proof {
                lemma_find_from(content@, old_str@, 0);
            }
            match find_chars(&v, &pattern, 0) {
                None => None,
                Some(pos) => {
                    let mut n: usize = 0;
                    let mut i: usize = 0;
                    assert(content@.take(0) =~= Seq::<char>::empty());
                    while i < pos
                        invariant
                            i <= pos < v.len(),
                            v@ == content@,
                            n == occurrences(content@.take(i as int), '\n'),
                            n <= i,
                        decreases pos - i,
                    {
                        assert(content@.take(i + 1).drop_last() =~= content@.take(i as int));
                        if v[i] == '\n' {
                            n += 1;
                        }
                        i += 1;
                    }
                    Some(n + 1)
                },
            }
        },
    }
}

// ----- the block of an edit -----

/// The fields of a tool call's arguments; none where they are no JSON text.
pub open spec fn fields_of(arguments: Seq<char>) -> Seq<(Seq<char>, FieldView)> {
    match json_object(arguments) {
        Ok(fields) => fields,
        Err(_) => Seq::empty(),
    }
}

/// The text of a field; empty where the field is not there or holds no string.
pub open spec fn text_field(fields: Seq<(Seq<char>, FieldView)>, name: Seq<char>) -> Seq<char> {
    match as_text(field(fields, name)) {
        Some(s) => s,
        None => Seq::empty(),
    }
}

/// What an edit replaces, what it puts there, and in which file.
#[derive(Debug)]
pub struct Edit {
    pub old_str: String,
    pub new_str: String,
    pub path: String,
}

/// Whether the edit is the one that a call of the tool with these fields makes. A tool that creates
/// a file has its text in a field of its own.
pub open spec fn is_edit(
    e: Edit,
    bare_name: Seq<char>,
    fields: Seq<(Seq<char>, FieldView)>,
) -> bool {
    &&& e.old_str@ == text_field(fields, "old_str"@)
    &&& e.new_str@ == text_field(
        fields,
        if bare_name == "create"@ {
            "file_text"@
        } else {
            "new_str"@
        },
    )
    &&& e.path@ == text_field(fields, "path"@)
}

fn text_field_of(fields: &Vec<Field>, name: &str) -> (r: String)
    ensures
        r@ == text_field(field_views(fields@), name@),
{
    match text_value(get(fields, name)) {
        Some(s) => s,
        None => String::new(),
    }
}

/// The edit that a call of the tool with these fields makes.
pub fn edit_of_fields(bare_name: &str, fields: &Vec<Field>) -> (e: Edit)
    ensures
        is_edit(e, bare_name@, field_views(fields@)),
{
    let old_str: String = text_field_of(fields, "old_str");
    let new_str: String = if same_text(bare_name, "create") {
        text_field_of(fields, "file_text")
    } else {
        text_field_of(fields, "new_str")
    };
    let path: String = text_field_of(fields, "path");
    Edit { old_str, new_str, path }
}

/// The edit that a tool call makes.
pub fn edit_of_call(tool_call: &ToolCall) -> (e: Edit)
    ensures
        is_edit(e, tool_call@.bare_name, fields_of(tool_call@.arguments)),
{
    let fields: Vec<Field> = match parse_arguments(tool_call.function.arguments.as_str()) {
        Ok(f) => f,
        Err(_) => {
            let none: Vec<Field> = Vec::new();
            assert(field_views(none@) =~= Seq::<(Seq<char>, FieldView)>::empty());
            none
        },
    };
    edit_of_fields(tool_call.function.bare_name.as_str(), &fields)
}

/// The line at which an edit starts: as the tool's result says, else where the old text stands in
/// the file.
pub open spec fn edit_line(
    result: Option<Seq<char>>,
    file: Option<Seq<char>>,
    old_str: Seq<char>,
) -> Option<nat> {
    let told = match result {
        Some(r) => number_in(first_group("@@\\s*-(\\d+)"@, r)),
        None => None,
    };
    match told {
        Some(n) => Some(n),
        None => starting_line(file, old_str),
    }
}

/// The number that stands before the first line of the edit.
pub open spec fn edit_offset(line: Option<nat>) -> nat {
    match line {
        Some(n) => if n > 0 {
            (n - 1) as nat
        } else {
            0
        },
        None => 0,
    }
}

/// The first row of a block: the file, and how many lines were added and removed.
pub open spec fn block_header(path: Seq<char>, insertions: nat, deletions: nat) -> Seq<SpanView> {
    seq![
        plain_span(seq!['1', '/', '1', ' '], adaptive(Tone::Text)),
        plain_span(path, adaptive(Tone::Text).strong()),
        plain_span(seq![' ', '+'] + decimal(insertions), Style::plain().fg(Color::Green)),
        plain_span(seq![' ', '-'] + decimal(deletions), Style::plain().fg(Color::Red)),
    ]
}

/// The rows from the first change to the last one, where there are any; else all.
pub open spec fn changed_rows(rows: Seq<Seq<SpanView>>, first: int, last: int) -> Seq<
    Seq<SpanView>,
> {
    let end = if last < rows.len() {
        last + 1
    } else {
        rows.len() as int
    };
    if first < end {
        rows.subrange(first, end)
    } else {
        rows
    }
}

/// The row that stands for the rows that are left out.
pub open spec fn truncation_row(more: nat) -> Seq<SpanView> {
    seq![
        plain_span(
            "... truncated ("@ + decimal(more) + " more lines) . ctrl+t to review"@,
            Style::plain().fg(Color::Yellow),
        ),
    ]
}

/// The first ten of the rows, with one for the rest where there are more.
pub open spec fn shortened(rows: Seq<Seq<SpanView>>) -> Seq<Seq<SpanView>> {
    if rows.len() > 10 {
        rows.take(10).push(truncation_row((rows.len() - 10) as nat))
    } else {
        rows
    }
}

/// The block of an edit from its preview, shortened and in full. An edit that changes nothing has
/// none.
pub open spec fn block_rows(path: Seq<char>, p: PreviewRows) -> (
    Seq<Seq<SpanView>>,
    Seq<Seq<SpanView>>,
) {
    if p.1 == 0 && p.2 == 0 {
        (Seq::empty(), Seq::empty())
    } else {
        let header = seq![block_header(path, p.2 as nat, p.1 as nat)];
        let rows = changed_rows(line_views(p.0@), p.3 as int, p.4 as int);
        (header + shortened(rows), header + rows)
    }
}

fn no_lines() -> (r: Vec<Line>)
    ensures
        r@.len() == 0,
        line_views(r@) == Seq::<Seq<SpanView>>::empty(),
{
    let r: Vec<Line> = Vec::new();
    assert(line_views(r@) =~= Seq::<Seq<SpanView>>::empty());
    r
}

fn header_line(path: &str, insertions: usize, deletions: usize) -> (l: Line)
    ensures
        l@ == block_header(path@, insertions as nat, deletions as nat),
{
    let mut l: Line = Line::empty();
    proof {
        reveal_strlit("1/1 ");
        reveal_strlit(" +");
        reveal_strlit(" -");
        assert("1/1 "@ =~= seq!['1', '/', '1', ' ']);
        assert(" +"@ =~= seq![' ', '+']);
        assert(" -"@ =~= seq![' ', '-']);
    }
    l.add(Span::styled("1/1 ", adaptive_style(Tone::Text)));
    l.add(Span::styled(path, adaptive_style(Tone::Text).strong()));
    let mut plus: String = " +".to_owned();
    let added: String = to_decimal(insertions as u64);
    plus.push_str(added.as_str());
    l.add(Span::styled(plus.as_str(), Style::plain().fg(Color::Green)));
    let mut minus: String = " -".to_owned();
    let gone: String = to_decimal(deletions as u64);
    minus.push_str(gone.as_str());
    l.add(Span::styled(minus.as_str(), Style::plain().fg(Color::Red)));
    assert(l@ =~= block_header(path@, insertions as nat, deletions as nat));
    l
}

/// The rows put behind a first one.
fn with_header(header: &Line, rows: Vec<Line>) -> (r: Vec<Line>)
    ensures
        line_views(r@) == seq![header@] + line_views(rows@),
{
    let mut r: Vec<Line> = Vec::new();
    let mut rest: Vec<Line> = rows;
    r.push(header.clone());
    r.append(&mut rest);
    assert(line_views(r@) =~= seq![header@] + line_views(rows@));
    r
}

/// The block of an edit from its preview.
pub fn diff_block(path: &str, preview: PreviewRows) -> (r: (Vec<Line>, Vec<Line>))
    ensures
        line_views(r.0@) == block_rows(path@, preview).0,
        line_views(r.1@) == block_rows(path@, preview).1,
{
    let (lines, deletions, insertions, first, last): PreviewRows = preview;
    if deletions == 0 && insertions == 0 {
        return (no_lines(), no_lines());
    }
    let header: Line = header_line(path, insertions, deletions);
    let end: usize = if last < lines.len() {
        last + 1
    } else {
        lines.len()
    };
    let full: Vec<Line> = if first < end {
        copy_lines(&lines, first, end)
    } else {
        all_lines(&lines)
    };
    let short: Vec<Line> = if full.len() > 10 {
        let mut head: Vec<Line> = copy_lines(&full, 0, 10);
        let mut note: String = "... truncated (".to_owned();
        let more: String = to_decimal((full.len() - 10) as u64);
        note.push_str(more.as_str());
        note.push_str(" more lines) . ctrl+t to review");
        let l: Line = Line::of(Span::styled(note.as_str(), Style::plain().fg(Color::Yellow)));
        proof {
            lemma_line_views_push(head@, l);
            assert(line_views(full@).subrange(0, 10) =~= line_views(full@).take(10));
        }
        head.push(l);
        head
    } else {
        all_lines(&full)
    };
    (with_header(&header, short), with_header(&header, full))
}

/// The block of an edit, shortened and in full: none, where it replaces nothing by nothing; else the
/// block of its preview.
pub open spec fn edit_block(
    e: Edit,
    runs: Seq<DiffRunView>,
    line: Option<nat>,
    width: int,
    r: (Vec<Line>, Vec<Line>),
) -> bool {
    if e.old_str@.len() == 0 && e.new_str@.len() == 0 {
        r.0@.len() == 0 && r.1@.len() == 0
    } else {
        exists|p: PreviewRows|
            #![trigger block_rows(e.path@, p)]
            preview_result(preview_runs(edit_offset(line), runs, width), p) && line_views(r.0@)
                == block_rows(e.path@, p).0 && line_views(r.1@) == block_rows(e.path@, p).1
    }
}

/// Whether the edit can be laid out in the given width.
pub open spec fn edit_fits(
    e: Edit,
    runs: Seq<DiffRunView>,
    line: Option<nat>,
    width: int,
) -> bool {
    (e.old_str@.len() == 0 && e.new_str@.len() == 0) || runs_fit(runs, width, edit_offset(line))
}

/// The line at which the edit starts.
fn edit_start(result: Option<&str>, file_content: Option<&str>, old_str: &str) -> (r: Option<
    usize,
>)
    ensures
        r is Some <==> edit_line(content_of(result), content_of(file_content), old_str@) is Some,
        r is Some ==> edit_line(content_of(result), content_of(file_content), old_str@) == Some(
            r->0 as nat,
        ),
        line_offset(r) == edit_offset(
            edit_line(content_of(result), content_of(file_content), old_str@),
        ),
{
    let told: Option<usize> = match result {
        Some(t) => extract_starting_line_from_diff(t),
        None => None,
    };
    match told {
        Some(n) => Some(n),
        None => find_starting_line_in_file(file_content, old_str),
    }
}

/// The block of an edit whose parts are known. `result` is what the tool said of it and
/// `file_content` the file that it edits, as far as they are there.
pub fn render_edit_block(
    edit: &Edit,
    terminal_width: usize,
    result: Option<&str>,
    file_content: Option<&str>,
) -> (r: (Vec<Line>, Vec<Line>))
    requires
        edit_fits(
            *edit,
            line_diff(edit.old_str@, edit.new_str@),
            edit_line(content_of(result), content_of(file_content), edit.old_str@),
            terminal_width as int,
        ),
    ensures
        edit_block(
            *edit,
            line_diff(edit.old_str@, edit.new_str@),
            edit_line(content_of(result), content_of(file_content), edit.old_str@),
            terminal_width as int,
            r,
        ),
{
    if edit.old_str.as_str().is_empty() && edit.new_str.as_str().is_empty() {
        return (no_lines(), no_lines());
    }
    let start: Option<usize> = edit_start(result, file_content, edit.old_str.as_str());
    let preview: PreviewRows = preview_diff_from_strings(
        edit.old_str.as_str(),
        edit.new_str.as_str(),
        terminal_width,
        start,
    );
    let r: (Vec<Line>, Vec<Line>) = diff_block(edit.path.as_str(), preview);
    assert(line_views(r.0@) == block_rows(edit.path@, preview).0);
    r
}

/// The block of the edit that a tool call makes, shortened and in full. There is none where the
/// terminal is too narrow to lay it out.
pub fn render_file_diff_block_from_args(
    tool_call: &ToolCall,
    terminal_width: usize,
    result: Option<&str>,
    file_content: Option<&str>,
) -> (r: Option<(Vec<Line>, Vec<Line>)>)
    ensures
        forall|e: Edit| #[trigger]
            is_edit(e, tool_call@.bare_name, fields_of(tool_call@.arguments)) ==> {
                let runs = line_diff(e.old_str@, e.new_str@);
                let line = edit_line(content_of(result), content_of(file_content), e.old_str@);
                &&& r is Some <==> edit_fits(e, runs, line, terminal_width as int)
                &&& r is Some ==> edit_block(e, runs, line, terminal_width as int, r->0)
            },
{
    let edit: Edit = edit_of_call(tool_call);
    let empty: bool = edit.old_str.as_str().is_empty() && edit.new_str.as_str().is_empty();
    let fits: bool = if empty {
        true
    } else {
        let start: Option<usize> = edit_start(result, file_content, edit.old_str.as_str());
        let runs: Vec<DiffRun> = diff_lines(edit.old_str.as_str(), edit.new_str.as_str());
        check_runs(&runs, terminal_width, start)
    };
    if fits {
        Some(render_edit_block(&edit, terminal_width, result, file_content))
    } else {
        None
    }
}

/// The block of the edit that a tool call makes, as long as nothing is known of its result.
pub fn render_file_diff_block(
    tool_call: &ToolCall,
    terminal_width: usize,
    file_content: Option<&str>,
) -> (r: Option<(Vec<Line>, Vec<Line>)>)
    ensures
        forall|e: Edit| #[trigger]
            is_edit(e, tool_call@.bare_name, fields_of(tool_call@.arguments)) ==> {
                let runs = line_diff(e.old_str@, e.new_str@);
                let line = starting_line(content_of(file_content), e.old_str@);
                &&& r is Some <==> edit_fits(e, runs, line, terminal_width as int)
                &&& r is Some ==> edit_block(e, runs, line, terminal_width as int, r->0)
            },
{
    render_file_diff_block_from_args(tool_call, terminal_width, None, file_content)
}

// ----- what holds of a preview -----

/// The characters of a text that are no white space, in their order.
pub open spec fn inked(s: Seq<char>) -> Seq<char>
    decreases s.len(),
{
    if s.len() == 0 {
        Seq::empty()
    } else if is_space(s.last()) {
        inked(s.drop_last())
    } else {
        inked(s.drop_last()).push(s.last())
    }
}

/// Texts one behind the other.
pub open spec fn together(v: Seq<Seq<char>>) -> Seq<char>
    decreases v.len(),
{
    if v.len() == 0 {
        Seq::empty()
    } else {
        together(v.drop_last()) + v.last()
    }
}

proof fn lemma_inked(a: Seq<char>, b: Seq<char>)
    ensures
        inked(a + b) == inked(a) + inked(b),
    decreases b.len(),
{
    if b.len() == 0 {
        assert(a + b =~= a);
        assert(inked(a) + inked(b) =~= inked(a));
    } else {
        lemma_inked(a, b.drop_last());
        assert((a + b).drop_last() =~= a + b.drop_last());
        assert(inked(a + b) =~= inked(a) + inked(b));
    }
}

proof fn lemma_not_inked(s: Seq<char>)
    requires
        forall|i: int| 0 <= i < s.len() ==> is_space(#[trigger] s[i]),
    ensures
        inked(s).len() == 0,
    decreases s.len(),
{
    if s.len() > 0 {
        lemma_not_inked(s.drop_last());
    }
}

proof fn lemma_together(a: Seq<Seq<char>>, b: Seq<Seq<char>>)
    ensures
        together(a + b) == together(a) + together(b),
    decreases b.len(),
{
    if b.len() == 0 {
        assert(a + b =~= a);
        assert(together(a) + together(b) =~= together(a));
    } else {
        lemma_together(a, b.drop_last());
        assert((a + b).drop_last() =~= a + b.drop_last());
        assert(together(a + b) =~= together(a) + together(b));
    }
}

proof fn lemma_alone(s: Seq<char>)
    ensures
        together(seq![s]) == s,
{
    let none = Seq::<Seq<char>>::empty();
    assert(seq![s].drop_last() =~= none);
    assert(together(none) =~= Seq::<char>::empty());
    assert(Seq::<char>::empty() + s =~= s);
}

proof fn lemma_wrapped_ink(s: Seq<char>, width: int)
    requires
        width > 0,
    ensures
        inked(together(wrapped(s, width))) == inked(s),
    decreases s.len(),
{
    if s.len() == 0 {
        assert(together(Seq::<Seq<char>>::empty()) =~= s);
    } else if columns_of(s) <= width {
        lemma_alone(s);
    } else {
        lemma_wrap_progress(s, width);
        let b = break_index(s, width);
        let tail = s.subrange(b, s.len() as int);
        let rest = trim_start_of(tail);
        let head = s.subrange(0, b);
        lemma_wrapped_ink(rest, width);
        crate::text::law_trim_start(tail);
        let n = tail.len() - rest.len();
        let blank = tail.take(n);
        assert(forall|i: int| 0 <= i < n ==> blank[i] == tail[i]);
        lemma_not_inked(blank);
        assert(tail =~= blank + rest);
        assert(s =~= head + tail);
        lemma_inked(blank, rest);
        lemma_inked(head, tail);
        assert(inked(blank) + inked(rest) =~= inked(rest));
        lemma_together(seq![head], wrapped(rest, width));
        lemma_alone(head);
        lemma_inked(head, together(wrapped(rest, width)));
    }
}

/// Laying a text out in rows loses nothing but white space, and keeps the order: put one behind the
/// other, the rows hold the same characters. A text that fits is one row, as it is.
pub proof fn law_rows_hold_the_text(s: Seq<char>, terminal_width: int, prefix: int)
    requires
        terminal_width > prefix,
        prefix >= 0,
    ensures
        inked(together(rows_of(s, terminal_width, prefix))) == inked(s),
        columns_of(s) <= terminal_width - prefix ==> rows_of(s, terminal_width, prefix) == seq![s],
{
    if columns_of(s) <= terminal_width - prefix {
        lemma_alone(s);
    } else {
        lemma_wrapped_ink(s, terminal_width - prefix);
    }
}

/// The rows of an unchanged line hold its text, each one row of it behind three other spans; both
/// numbers stand before the first row, and none before the others.
pub proof fn law_unchanged_rows(
    old_num: nat,
    new_num: nat,
    line: Seq<char>,
    width: int,
    i: int,
)
    requires
        0 <= i < equal_rows(old_num, new_num, line, width).len(),
    ensures
        ({
            let rows = equal_rows(old_num, new_num, line, width);
            let row = rows[i];
            &&& rows.len() == rows_of(shown(line), width, 12).len()
            &&& row.len() == 4
            &&& row[3].content == rows_of(shown(line), width, 12)[i]
            &&& i == 0 ==> row[0].content == right_aligned(decimal(old_num), 4) + seq![' ']
            &&& i == 0 ==> row[1].content == right_aligned(decimal(new_num), 4) + seq![' ', ' ']
            &&& i > 0 ==> forall|k: int|
                0 <= k < row[0].content.len() ==> #[trigger] row[0].content[k] == ' '
            &&& i > 0 ==> forall|k: int|
                0 <= k < row[1].content.len() ==> #[trigger] row[1].content[k] == ' '
        }),
{
    assert(blanks(1) =~= seq![' ']);
    assert(blanks(2) =~= seq![' ', ' ']);
}

/// The rows of a removed or added line hold its text. Before the first row stand its number, for a
/// removed line in the first column and for an added one in the second, and its sign.
pub proof fn law_changed_rows(removed: bool, num: nat, line: Seq<char>, width: int, i: int)
    requires
        0 <= i < change_rows(removed, num, line, width).len(),
    ensures
        ({
            let rows = change_rows(removed, num, line, width);
            let row = rows[i];
            let number = right_aligned(decimal(num), 4) + seq![' '];
            &&& rows.len() == rows_of(shown(line), width, 13).len()
            &&& row.len() >= 4
            &&& row[3].content == rows_of(shown(line), width, 13)[i]
            &&& i == 0 && removed ==> row[0].content == number && row[2].content == seq![
                ' ',
                '-',
                ' ',
            ]
            &&& i == 0 && !removed ==> row[1].content == number && row[2].content == seq![
                ' ',
                '+',
                ' ',
            ]
            &&& i > 0 ==> forall|k: int|
                0 <= k < row[2].content.len() ==> #[trigger] row[2].content[k] == ' '
        }),
{
    assert(blanks(1) =~= seq![' ']);
}

/// The lines of a run stand one behind the other and are numbered one by one: removed lines go on
/// with the old number, added ones with the new one, and unchanged ones with both.
pub proof fn law_lines_are_numbered(
    p: PreviewModel,
    lines: Seq<Seq<char>>,
    width: int,
    mark: bool,
    j: int,
)
    requires
        0 <= j < lines.len(),
    ensures
        remove_lines(p, lines.take(j + 1), width).rows == remove_lines(p, lines.take(j), width).rows
            + change_rows(true, (p.old_num + j + 1) as nat, lines[j], width),
        add_lines(p, lines.take(j + 1), width, mark).rows == add_lines(
            p,
            lines.take(j),
            width,
            mark,
        ).rows + change_rows(false, (p.new_num + j + 1) as nat, lines[j], width),
        keep_lines(p, lines.take(j + 1), width).rows == keep_lines(p, lines.take(j), width).rows
            + equal_rows(
            (p.old_num + j + 1) as nat,
            (p.new_num + j + 1) as nat,
            lines[j],
            width,
        ),
{
    assert(lines.take(j + 1).drop_last() =~= lines.take(j));
    assert(lines.take(j + 1).last() == lines[j]);
    lemma_remove_nums(p, lines.take(j), width);
    lemma_add_nums(p, lines.take(j), width, mark);
    lemma_keep_nums(p, lines.take(j), width);
}

proof fn lemma_rows_stay(p: PreviewModel, lines: Seq<Seq<char>>, width: int, mark: bool)
    ensures
        remove_lines(p, lines, width).rows.len() >= p.rows.len(),
        remove_lines(p, lines, width).rows.take(p.rows.len() as int) == p.rows,
        add_lines(p, lines, width, mark).rows.len() >= p.rows.len(),
        add_lines(p, lines, width, mark).rows.take(p.rows.len() as int) == p.rows,
        keep_lines(p, lines, width).rows.len() >= p.rows.len(),
        keep_lines(p, lines, width).rows.take(p.rows.len() as int) == p.rows,
    decreases lines.len(),
{
    let n = p.rows.len() as int;
    if lines.len() > 0 {
        lemma_rows_stay(p, lines.drop_last(), width, mark);
        assert(remove_lines(p, lines, width).rows.take(n) =~= remove_lines(
            p,
            lines.drop_last(),
            width,
        ).rows.take(n));
        assert(add_lines(p, lines, width, mark).rows.take(n) =~= add_lines(
            p,
            lines.drop_last(),
            width,
            mark,
        ).rows.take(n));
        assert(keep_lines(p, lines, width).rows.take(n) =~= keep_lines(
            p,
            lines.drop_last(),
            width,
        ).rows.take(n));
    } else {
        assert(p.rows.take(n) =~= p.rows);
    }
}

/// The runs stand in their order: what the runs before one show stays in front of what it shows. A
/// replacement shows what it removes in front of what it adds.
pub proof fn law_runs_in_order(offset: nat, runs: Seq<DiffRunView>, width: int)
    requires
        runs.len() > 0,
    ensures
        ({
            let before = preview_runs(offset, runs.drop_last(), width);
            let after = preview_runs(offset, runs, width);
            let run = runs.last();
            &&& after.rows.len() >= before.rows.len()
            &&& after.rows.take(before.rows.len() as int) == before.rows
            &&& run.tag == DiffTag::Replace ==> {
                let gone = remove_lines(before, run.old_lines, width);
                after.rows.len() >= gone.rows.len() && after.rows.take(gone.rows.len() as int)
                    == gone.rows
            }
        }),
{
    let before = preview_runs(offset, runs.drop_last(), width);
    let run = runs.last();
    let n = before.rows.len() as int;
    lemma_rows_stay(before, run.old_lines, width, true);
    lemma_rows_stay(before, run.new_lines, width, true);
    let gone = remove_lines(before, run.old_lines, width);
    lemma_rows_stay(gone, run.new_lines, width, false);
    if run.tag == DiffTag::Replace {
        let after = preview_runs(offset, runs, width);
        assert(after.rows.take(n) =~= gone.rows.take(n)) by {
            assert(forall|k: int|
                0 <= k < n ==> after.rows[k] == after.rows.take(gone.rows.len() as int)[k]);
        }
    }
}

/// A preview counts the lines from the one where the old text starts: before the first line stands
/// the number before it, and nothing where the file starts there.
pub proof fn law_line_offset(starting_line: Option<usize>)
    ensures
        starting_line is None ==> line_offset(starting_line) == 0,
        starting_line matches Some(n) ==> (n > 0 ==> line_offset(starting_line) + 1 == n) && (n == 0
            ==> line_offset(starting_line) == 0),
{
}

/// How often a character stands in two texts put together is how often it stands in both.
pub proof fn law_occurrences(a: Seq<char>, b: Seq<char>, c: char, d: char)
    ensures
        occurrences(a + b, c) == occurrences(a, c) + occurrences(b, c),
        occurrences(seq![d], c) == (if d == c {
            1nat
        } else {
            0nat
        }),
    decreases b.len(),
{
    assert(seq![d].drop_last() =~= Seq::<char>::empty());
    assert(occurrences(Seq::<char>::empty(), c) == 0);
    if b.len() == 0 {
        assert(a + b =~= a);
    } else {
        law_occurrences(a, b.drop_last(), c, d);
        assert((a + b).drop_last() =~= a + b.drop_last());
    }
}

/// The line at which a text starts in a file is one more than there are line feeds before the first
/// place where it stands; there is none where it does not stand in the file.
pub proof fn law_starting_line(a: Seq<char>, old_str: Seq<char>, b: Seq<char>)
    requires
        old_str.len() > 0,
        forall|i: int| 0 <= i < a.len() ==> !occurs_at(a + old_str + b, old_str, i),
    ensures
        starting_line(Some(a + old_str + b), old_str) == Some(occurrences(a, '\n') + 1),
        (forall|i: int| !occurs_at(b, old_str, i)) ==> starting_line(Some(b), old_str) is None,
        starting_line(None, old_str) is None,
{
    let s = a + old_str + b;
    lemma_find_from(s, old_str, 0);
    lemma_find_from(b, old_str, 0);
    assert(s.subrange(a.len() as int, a.len() as int + old_str.len()) =~= old_str);
    assert(occurs_at(s, old_str, a.len() as int));
    assert(s.take(a.len() as int) =~= a);
}

/// The block of an edit names the file and counts the lines that were added and removed. In full it
/// holds every row from the first change to the last; shortened it holds the first ten of these and
/// says how many more there are. An edit that changes nothing has no block.
pub proof fn law_block_rows(path: Seq<char>, p: PreviewRows)
    requires
        p.3 <= p.4 < p.0@.len(),
    ensures
        p.1 == 0 && p.2 == 0 ==> block_rows(path, p).0.len() == 0 && block_rows(path, p).1.len()
            == 0,
        p.1 > 0 || p.2 > 0 ==> {
            let (short, full) = block_rows(path, p);
            let rows = line_views(p.0@);
            let n = p.4 - p.3 + 1;
            &&& full.len() == n + 1
            &&& full[0][1].content == path
            &&& full[0][2].content == seq![' ', '+'] + decimal(p.2 as nat)
            &&& full[0][3].content == seq![' ', '-'] + decimal(p.1 as nat)
            &&& full.skip(1) == rows.subrange(p.3 as int, p.4 + 1)
            &&& n <= 10 ==> short == full
            &&& n > 10 ==> {
                &&& short.len() == 12
                &&& short.take(11) == full.take(11)
                &&& short[11][0].content == "... truncated ("@ + decimal((n - 10) as nat)
                    + " more lines) . ctrl+t to review"@
            }
        },
{
    let rows = line_views(p.0@);
    if p.1 > 0 || p.2 > 0 {
        let (short, full) = block_rows(path, p);
        assert(rows.len() == p.0@.len());
        assert(full.skip(1) =~= rows.subrange(p.3 as int, p.4 + 1));
        if p.4 - p.3 + 1 > 10 {
            assert(short.take(11) =~= full.take(11));
        }
    }
}

/// What a preview gives back: as many removed and added lines as the runs say, the first row of the
/// first change, and the last row of all.
pub proof fn law_preview_result(
    starting_line: Option<usize>,
    runs: Seq<DiffRunView>,
    width: int,
    r: PreviewRows,
)
    requires
        preview_result(preview_runs(line_offset(starting_line), runs, width), r),
    ensures
        r.1 == changes(runs).0,
        r.2 == changes(runs).1,
        r.0@.len() > 0 ==> r.4 == r.0@.len() - 1,
        r.0@.len() == 0 ==> r.4 == 0,
        (forall|k: int| 0 <= k < runs.len() ==> (#[trigger] runs[k]).tag == DiffTag::Equal) ==> r.1
            == 0 && r.2 == 0 && r.3 == 0,
{
    let offset = line_offset(starting_line);
    law_preview_counts(offset, runs, width);
    assert(line_views(r.0@).len() == r.0@.len());
    if forall|k: int| 0 <= k < runs.len() ==> (#[trigger] runs[k]).tag == DiffTag::Equal {
        lemma_unmarked(offset, runs, width);
        lemma_no_changes(runs);
    }
}

proof fn lemma_no_changes(runs: Seq<DiffRunView>)
    requires
        forall|k: int| 0 <= k < runs.len() ==> (#[trigger] runs[k]).tag == DiffTag::Equal,
    ensures
        changes(runs) == (0nat, 0nat),
    decreases runs.len(),
{
    if runs.len() > 0 {
        lemma_no_changes(runs.drop_last());
    }
}

/// The edit that a call makes is what its arguments say: the old and the new text and the path under
/// their names, the new text of a created file under its own; a field that is missing is empty.
pub proof fn law_edit_is_what_was_asked(
    e: Edit,
    bare_name: Seq<char>,
    fields: Seq<(Seq<char>, FieldView)>,
    k: int,
    text: Seq<char>,
)
    requires
        is_edit(e, bare_name, fields),
        0 <= k < fields.len(),
        fields[k].1 == FieldView::Text(text),
        forall|j: int| 0 <= j < k ==> (#[trigger] fields[j]).0 != fields[k].0,
    ensures
        fields[k].0 == "old_str"@ ==> e.old_str@ == text,
        fields[k].0 == "path"@ ==> e.path@ == text,
        fields[k].0 == "new_str"@ && bare_name != "create"@ ==> e.new_str@ == text,
        fields[k].0 == "file_text"@ && bare_name == "create"@ ==> e.new_str@ == text,
{
    crate::arguments::law_field(fields, fields[k].0, k);
}

} // verus!
