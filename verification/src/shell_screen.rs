//! The screen of a shell: what a terminal emulator makes of its output, in styled rows.

use vstd::prelude::*;
use crate::style::Color;
use crate::style::Line;
use crate::style::Span;
use crate::style::SpanView;
use crate::style::Style;
use crate::style::lemma_line_views_push;
use crate::style::line_views;

verus! {

/// The emulator of the vt100 crate.
#[verifier::external_type_specification]
#[verifier::external_body]
pub struct ExParser(vt100::Parser);

/// A cell of the screen.
#[derive(Debug)]
pub struct ScreenCell {
    pub contents: String,
    pub fg: Color,
    pub bg: Color,
    pub bold: bool,
    pub italic: bool,
    pub inverse: bool,
    pub underline: bool,
}

/// What a cell shows.
pub struct CellView {
    pub contents: Seq<char>,
    pub fg: Color,
    pub bg: Color,
    pub bold: bool,
    pub italic: bool,
    pub inverse: bool,
    pub underline: bool,
}

impl View for ScreenCell {
    type V = CellView;

    open spec fn view(&self) -> CellView {
        CellView {
            contents: self.contents@,
            fg: self.fg,
            bg: self.bg,
            bold: self.bold,
            italic: self.italic,
            inverse: self.inverse,
            underline: self.underline,
        }
    }
}

/// What an optional cell shows.
pub open spec fn cell_view(c: Option<ScreenCell>) -> Option<CellView> {
    match c {
        Some(x) => Some(x@),
        None => None,
    }
}

/// The emulator after it has read some bytes.
pub uninterp spec fn fed(p: vt100::Parser, bytes: Seq<u8>) -> vt100::Parser;

/// The emulator after a change of its size.
pub uninterp spec fn resized(p: vt100::Parser, rows: u16, cols: u16) -> vt100::Parser;

/// The emulator with another part of what it holds in view.
pub uninterp spec fn scrolled(p: vt100::Parser, rows: usize) -> vt100::Parser;

/// An emulator that has read nothing.
pub uninterp spec fn blank(rows: u16, cols: u16, scrollback: usize) -> vt100::Parser;

/// The rows and columns of the screen.
pub uninterp spec fn size_of(p: vt100::Parser) -> (u16, u16);

/// How many rows before the screen are in view.
pub uninterp spec fn offset_of(p: vt100::Parser) -> usize;

/// The cell in view at a position.
pub uninterp spec fn cell_of(p: vt100::Parser, row: u16, col: u16) -> Option<CellView>;

/// Whether the emulator can read on: no place of a cursor that it keeps lies outside of its screen,
/// and neither half of a wide character stands alone.
pub uninterp spec fn whole(p: vt100::Parser) -> bool;

/// `Parser::new` of the vt100 crate. A screen without rows or columns is left out: the emulator
/// counts down from its size.
#[verifier::external_body]
fn emulator(rows: u16, cols: u16, scrollback: usize) -> (p: vt100::Parser)
    requires
        rows > 0,
        cols > 0,
    ensures
        p == blank(rows, cols, scrollback),
        size_of(p) == (rows, cols),
        whole(p),
{
    vt100::Parser::new(rows, cols, scrollback)
}

/// `Parser::process` of the vt100 crate: what the emulator holds afterwards is a function of what it
/// held and of the bytes, its size is as before, and it can read on. Left out is what the emulator
/// panics on: one character, U+17D8, takes three columns, a line that wraps takes two rows, a tab
/// behind column 65527 cannot be counted, and a cursor or half a character outside of the screen
/// cannot be drawn.
#[verifier::external_body]
fn feed(p: &mut vt100::Parser, bytes: &[u8])
    requires
        size_of(*old(p)).0 >= 2,
        3 <= size_of(*old(p)).1 <= 65527,
        whole(*old(p)),
    ensures
        *final(p) == fed(*old(p), bytes@),
        size_of(*final(p)) == size_of(*old(p)),
        whole(*final(p)),
{
    p.process(bytes)
}

/// `Parser::set_size` of the vt100 crate. A screen without rows or columns is left out. An emulator
/// that does not get smaller can read on where it could before; one that does may keep the place of
/// a saved cursor, or half of a wide character, that is now outside.
#[verifier::external_body]
fn resize(p: &mut vt100::Parser, rows: u16, cols: u16)
    requires
        rows > 0,
        cols > 0,
    ensures
        *final(p) == resized(*old(p), rows, cols),
        size_of(*final(p)) == (rows, cols),
        whole(*old(p)) && size_of(*old(p)).0 <= rows && size_of(*old(p)).1 <= cols ==> whole(
            *final(p),
        ),
{
    p.set_size(rows, cols)
}

/// `Parser::set_scrollback` of the vt100 crate: at most as many rows before the screen come into view
/// as are asked for. The size is as before, and so is whether the emulator can read on.
#[verifier::external_body]
fn scroll_to(p: &mut vt100::Parser, rows: usize)
    ensures
        *final(p) == scrolled(*old(p), rows),
        size_of(*final(p)) == size_of(*old(p)),
        offset_of(*final(p)) <= rows,
        whole(*final(p)) == whole(*old(p)),
{
    p.set_scrollback(rows)
}

/// `Screen::scrollback` of the vt100 crate.
#[verifier::external_body]
fn offset(p: &vt100::Parser) -> (n: usize)
    ensures
        n == offset_of(*p),
{
    p.screen().scrollback()
}

/// `Screen::size` of the vt100 crate.
#[verifier::external_body]
fn size(p: &vt100::Parser) -> (r: (u16, u16))
    ensures
        r == size_of(*p),
{
    p.screen().size()
}

/// `Screen::cell` of the vt100 crate, with what the cell holds: its text, colours and emphasis. A view
/// that starts further before the screen than it has rows is left out: the emulator counts down from
/// its rows.
#[verifier::external_body]
fn cell(p: &vt100::Parser, row: u16, col: u16) -> (r: Option<ScreenCell>)
    requires
        offset_of(*p) <= size_of(*p).0,
    ensures
        cell_view(r) == cell_of(*p, row, col),
{
    let color = |c| match c {
        vt100::Color::Default => Color::Reset,
        vt100::Color::Idx(i) => Color::Indexed(i),
        vt100::Color::Rgb(r, g, b) => Color::Rgb(r, g, b),
    };
    p.screen().cell(row, col).map(|c| ScreenCell {
        contents: c.contents(),
        fg: color(c.fgcolor()),
        bg: color(c.bgcolor()),
        bold: c.bold(),
        italic: c.italic(),
        inverse: c.inverse(),
        underline: c.underline(),
    })
}

/// How a cell is drawn.
pub open spec fn cell_style(c: CellView) -> Style {
    Style {
        fg: if c.fg == Color::Reset {
            None
        } else {
            Some(c.fg)
        },
        bg: if c.bg == Color::Reset {
            None
        } else {
            Some(c.bg)
        },
        bold: c.bold,
        italic: c.italic,
        underlined: c.underline,
        reversed: c.inverse,
        dim: false,
        crossed_out: false,
    }
}

/// A row as far as it is put together: the spans that are done, and the one that grows.
#[verifier::ext_equal]
pub struct RowModel {
    pub spans: Seq<SpanView>,
    pub text: Seq<char>,
    pub style: Style,
}

/// The spans with the one that grows, where it holds anything.
pub open spec fn flushed(r: RowModel) -> Seq<SpanView> {
    if r.text.len() > 0 {
        r.spans.push(SpanView { content: r.text, style: r.style })
    } else {
        r.spans
    }
}

/// One cell more. Cells of one style share a span; a position without a cell is a plain space that
/// starts a span.
pub open spec fn with_cell(r: RowModel, c: Option<CellView>) -> RowModel {
    match c {
        Some(cell) => if cell_style(cell) == r.style {
            RowModel { text: r.text + cell.contents, ..r }
        } else {
            RowModel { spans: flushed(r), text: cell.contents, style: cell_style(cell) }
        },
        None => RowModel { spans: flushed(r), text: seq![' '], style: Style::plain() },
    }
}

pub open spec fn cells_row(cells: Seq<Option<CellView>>) -> RowModel
    decreases cells.len(),
{
    if cells.len() == 0 {
        RowModel { spans: Seq::empty(), text: Seq::empty(), style: Style::plain() }
    } else {
        with_cell(cells_row(cells.drop_last()), cells.last())
    }
}

/// The row that a sequence of cells makes.
pub open spec fn styled_row(cells: Seq<Option<CellView>>) -> Seq<SpanView> {
    flushed(cells_row(cells))
}

/// The cells of a row of the screen.
pub open spec fn screen_row(p: vt100::Parser, row: int) -> Seq<Option<CellView>> {
    Seq::new(size_of(p).1 as nat, |col: int| cell_of(p, row as u16, col as u16))
}

/// The rows of the screen, as they are drawn.
pub open spec fn screen_rows(p: vt100::Parser) -> Seq<Seq<SpanView>> {
    Seq::new(size_of(p).0 as nat, |row: int| styled_row(screen_row(p, row)))
}

fn style_of(c: &ScreenCell) -> (r: Style)
    ensures
        r == cell_style(c@),
{
    Style {
        fg: if c.fg == Color::Reset {
            None
        } else {
            Some(c.fg)
        },
        bg: if c.bg == Color::Reset {
            None
        } else {
            Some(c.bg)
        },
        bold: c.bold,
        italic: c.italic,
        underlined: c.underline,
        reversed: c.inverse,
        dim: false,
        crossed_out: false,
    }
}

/// A row that is being put together.
struct RowBuilder {
    line: Line,
    text: String,
    style: Style,
}

impl RowBuilder {
    spec fn model(&self) -> RowModel {
        RowModel { spans: self.line@, text: self.text@, style: self.style }
    }

    fn new() -> (r: RowBuilder)
        ensures
            r.model() == cells_row(Seq::empty()),
    {
        RowBuilder { line: Line::empty(), text: String::new(), style: Style::plain() }
    }

    /// Ends the span that grows.
    fn flush(&mut self)
        ensures
            final(self).line@ == flushed(old(self).model()),
            final(self).text@ == Seq::<char>::empty(),
            final(self).style == old(self).style,
    {
        if !self.text.as_str().is_empty() {
            self.line.add(Span::styled(self.text.as_str(), self.style));
        }
        self.text.clear();
    }

    fn push(&mut self, c: &Option<ScreenCell>)
        ensures
            final(self).model() == with_cell(old(self).model(), cell_view(*c)),
    {
        match c {
            Some(cell) => {
                let style: Style = style_of(cell);
                if style != self.style {
                    self.flush();
                    self.style = style;
                    assert(self.text@ + cell.contents@ =~= cell.contents@);
                }
                self.text.push_str(cell.contents.as_str());
            },
            None => {
                self.flush();
                self.style = Style::plain();
                self.text.push(' ');
                assert(self.text@ =~= seq![' ']);
            },
        }
    }

    fn finish(self) -> (l: Line)
        ensures
            l@ == flushed(self.model()),
    {
        let mut b: RowBuilder = self;
        b.flush();
        b.line
    }
}

/// The row that the cells make.
pub fn row_to_line(cells: &Vec<Option<ScreenCell>>) -> (l: Line)
    ensures
        l@ == styled_row(cells@.map_values(|c: Option<ScreenCell>| cell_view(c))),
{
    let ghost all = cells@.map_values(|c: Option<ScreenCell>| cell_view(c));
    let mut b: RowBuilder = RowBuilder::new();
    let mut i: usize = 0;
    assert(all.take(0) =~= Seq::<Option<CellView>>::empty());
    while i < cells.len()
        invariant
            i <= cells@.len(),
            all == cells@.map_values(|c: Option<ScreenCell>| cell_view(c)),
            b.model() == cells_row(all.take(i as int)),
        decreases cells@.len() - i,
    {
        assert(all.take(i + 1).drop_last() =~= all.take(i as int));
        b.push(&cells[i]);
        i += 1;
    }
    assert(all.take(i as int) =~= all);
    b.finish()
}

/// How many of the last bytes that a shell wrote are kept.
pub const KEPT_BYTES: usize = 1048576;

/// The screen of a shell: the emulator, and what the shell wrote, from which the screen can be drawn
/// anew.
pub struct Terminal {
    parser: vt100::Parser,
    read: Vec<u8>,
    scrollback: usize,
    sound: bool,
}

/// What a screen is: the emulator, the last bytes that it read, how many rows it keeps that have left
/// it at the top, and whether it has not been made smaller since it was drawn.
#[verifier::ext_equal]
pub struct ScreenView {
    pub emulator: vt100::Parser,
    pub read: Seq<u8>,
    pub scrollback: usize,
    pub sound: bool,
}

impl View for Terminal {
    type V = ScreenView;

    closed spec fn view(&self) -> ScreenView {
        ScreenView {
            emulator: self.parser,
            read: self.read@,
            scrollback: self.scrollback,
            sound: self.sound,
        }
    }
}

/// Whether the screen takes whatever the shell writes: it has two rows, as a line that wraps takes
/// them, and three columns, as the widest character does; a tab can be counted in all columns; and it
/// has not been made smaller since it was drawn. On any other screen the emulator may panic.
pub open spec fn readable(s: ScreenView) -> bool {
    s.sound && size_of(s.emulator).0 >= 2 && 3 <= size_of(s.emulator).1 <= 65527
}

/// The last bytes, as many as are kept.
pub open spec fn last_bytes(bytes: Seq<u8>) -> Seq<u8> {
    if bytes.len() > KEPT_BYTES {
        bytes.skip(bytes.len() - KEPT_BYTES)
    } else {
        bytes
    }
}

/// The screen after the shell wrote.
pub open spec fn written(s: ScreenView, bytes: Seq<u8>) -> ScreenView {
    ScreenView { emulator: fed(s.emulator, bytes), read: last_bytes(s.read + bytes), ..s }
}

/// The screen in another size.
pub open spec fn in_size(s: ScreenView, rows: u16, cols: u16) -> ScreenView {
    ScreenView {
        emulator: resized(s.emulator, rows, cols),
        sound: s.sound && size_of(s.emulator).0 <= rows && size_of(s.emulator).1 <= cols,
        ..s
    }
}

/// The screen, drawn anew from what the shell wrote, in a size that takes whatever it writes.
pub open spec fn drawn_anew(s: ScreenView) -> ScreenView {
    let height = screen_height(size_of(s.emulator).0);
    let width = screen_width(size_of(s.emulator).1);
    ScreenView {
        emulator: fed(blank(height, width, s.scrollback), s.read),
        sound: true,
        ..s
    }
}

/// The screen after it was looked at.
pub open spec fn looked_at(s: ScreenView) -> ScreenView {
    ScreenView {
        emulator: scrolled(scrolled(scrolled(s.emulator, 0), usize::MAX), 0),
        ..s
    }
}

/// The number of rows of a screen that is drawn anew.
pub open spec fn screen_height(rows: u16) -> u16 {
    if rows < 2 {
        2
    } else {
        rows
    }
}

/// The number of columns of a screen that is drawn anew.
pub open spec fn screen_width(cols: u16) -> u16 {
    if cols < 3 {
        3
    } else if cols > 65527 {
        65527
    } else {
        cols
    }
}

/// Whether the screen is a fresh one of the given size.
pub open spec fn is_fresh_screen(s: ScreenView, rows: u16, cols: u16, scrollback: usize) -> bool {
    &&& s == (ScreenView {
        emulator: blank(rows, cols, scrollback),
        read: Seq::empty(),
        scrollback,
        sound: true,
    })
    &&& size_of(s.emulator) == (rows, cols)
}

fn bound_height(rows: u16) -> (r: u16)
    ensures
        r == screen_height(rows),
{
    if rows < 2 {
        2
    } else {
        rows
    }
}

fn bound_width(cols: u16) -> (r: u16)
    ensures
        r == screen_width(cols),
{
    if cols < 3 {
        3
    } else if cols > 65527 {
        65527
    } else {
        cols
    }
}

/// What a screen shows, and how many rows have left it at the top.
#[derive(Debug)]
pub struct Capture {
    pub lines: Vec<Line>,
    pub rows: usize,
    pub scrollback: usize,
}

/// Whether the capture is that of the emulator.
pub open spec fn is_capture(c: Capture, p: vt100::Parser) -> bool {
    &&& line_views(c.lines@) == screen_rows(scrolled(p, 0))
    &&& c.rows == size_of(p).0
    &&& c.scrollback == offset_of(scrolled(scrolled(p, 0), usize::MAX))
}

fn keep_last(read: Vec<u8>) -> (r: Vec<u8>)
    ensures
        r@ == last_bytes(read@),
{
    let mut read: Vec<u8> = read;
    let n: usize = read.len();
    if n > KEPT_BYTES {
        read.split_off(n - KEPT_BYTES)
    } else {
        read
    }
}

impl Terminal {
    #[verifier::type_invariant]
    spec fn is_sound(&self) -> bool {
        self.sound ==> whole(self.parser)
    }

    /// A screen that shows nothing.
    pub fn new(rows: u16, cols: u16, scrollback: usize) -> (r: Terminal)
        requires
            rows > 0,
            cols > 0,
        ensures
            is_fresh_screen(r@, rows, cols, scrollback),
    {
        let parser: vt100::Parser = emulator(rows, cols, scrollback);
        Terminal { parser, read: Vec::new(), scrollback, sound: true }
    }

    /// Whether the screen takes whatever the shell writes.
    pub fn can_read(&self) -> (r: bool)
        ensures
            r == readable(self@),
    {
        let (rows, cols): (u16, u16) = size(&self.parser);
        self.sound && rows >= 2 && 3 <= cols && cols <= 65527
    }

    /// What becomes of the screen when the shell writes.
    pub fn process(self, data: &[u8]) -> (r: Terminal)
        requires
            readable(self@),
        ensures
            r@ == written(self@, data@),
            size_of(r@.emulator) == size_of(self@.emulator),
    {
        proof {
            use_type_invariant(&self);
        }
        let ghost before = self.read@;
        let scrollback: usize = self.scrollback;
        let mut parser: vt100::Parser = self.parser;
        let mut read: Vec<u8> = self.read;
        feed(&mut parser, data);
        read.extend_from_slice(data);
        assert(read@ =~= before + data@);
        Terminal { parser, read: keep_last(read), scrollback, sound: true }
    }

    /// The screen in another size.
    pub fn set_size(self, rows: u16, cols: u16) -> (r: Terminal)
        requires
            rows > 0,
            cols > 0,
        ensures
            r@ == in_size(self@, rows, cols),
            size_of(r@.emulator) == (rows, cols),
    {
        proof {
            use_type_invariant(&self);
        }
        let scrollback: usize = self.scrollback;
        let mut parser: vt100::Parser = self.parser;
        let (height, width): (u16, u16) = size(&parser);
        let sound: bool = self.sound && height <= rows && width <= cols;
        let read: Vec<u8> = self.read;
        resize(&mut parser, rows, cols);
        Terminal { parser, read, scrollback, sound }
    }

    /// The screen, drawn anew from what the shell wrote, in a size that takes whatever it writes.
    pub fn redraw(self) -> (r: Terminal)
        ensures
            r@ == drawn_anew(self@),
            size_of(r@.emulator) == (
                screen_height(size_of(self@.emulator).0),
                screen_width(size_of(self@.emulator).1),
            ),
            readable(r@),
    {
        let scrollback: usize = self.scrollback;
        let (rows, cols): (u16, u16) = size(&self.parser);
        let read: Vec<u8> = self.read;
        let mut parser: vt100::Parser = emulator(
            bound_height(rows),
            bound_width(cols),
            scrollback,
        );
        feed(&mut parser, read.as_slice());
        Terminal { parser, read, scrollback, sound: true }
    }

    /// The screen, with what it shows. What has left it at the top is out of view.
    pub fn capture(self) -> (r: (Terminal, Capture))
        ensures
            r.0@ == looked_at(self@),
            size_of(r.0@.emulator) == size_of(self@.emulator),
            is_capture(r.1, self@.emulator),
    {
        proof {
            use_type_invariant(&self);
        }
        let scrollback: usize = self.scrollback;
        let sound: bool = self.sound;
        let read: Vec<u8> = self.read;
        let mut parser: vt100::Parser = self.parser;
        let (lines, rows): (Vec<Line>, u16) = capture_styled_screen(&mut parser);
        scroll_to(&mut parser, usize::MAX);
        let gone: usize = offset(&parser);
        scroll_to(&mut parser, 0);
        (
            Terminal { parser, read, scrollback, sound },
            Capture { lines, rows: rows as usize, scrollback: gone },
        )
    }
}

/// The rows of the screen as they are drawn, with what has left it at the top out of view; and how
/// many there are.
fn capture_styled_screen(p: &mut vt100::Parser) -> (r: (Vec<Line>, u16))
    ensures
        *final(p) == scrolled(*old(p), 0),
        size_of(*final(p)) == size_of(*old(p)),
        whole(*final(p)) == whole(*old(p)),
        line_views(r.0@) == screen_rows(*final(p)),
        r.1 == size_of(*old(p)).0,
{
    scroll_to(p, 0);
    let (rows, cols): (u16, u16) = size(p);
    let ghost all = screen_rows(*p);
    let mut lines: Vec<Line> = Vec::new();
    let mut row: u16 = 0;
    assert(line_views(lines@) =~= all.take(0));
    while row < rows
        invariant
            row <= rows,
            (rows, cols) == size_of(*p),
            offset_of(*p) == 0,
            all == screen_rows(*p),
            line_views(lines@) == all.take(row as int),
        decreases rows - row,
    {
        let mut cells: Vec<Option<ScreenCell>> = Vec::new();
        let mut col: u16 = 0;
        while col < cols
            invariant
                col <= cols,
                (rows, cols) == size_of(*p),
                offset_of(*p) == 0,
                cells@.map_values(|c: Option<ScreenCell>| cell_view(c)) == screen_row(
                    *p,
                    row as int,
                ).take(col as int),
            decreases cols - col,
        {
            let c: Option<ScreenCell> = cell(p, row, col);
            proof {
                let shown = |c: Option<ScreenCell>| cell_view(c);
                let whole = screen_row(*p, row as int);
                assert(cells@.push(c).map_values(shown) =~= cells@.map_values(shown).push(
                    cell_view(c),
                ));
                assert(whole[col as int] == cell_of(*p, row, col));
                assert(whole.take(col + 1) =~= whole.take(col as int).push(whole[col as int]));
            }
            cells.push(c);
            col += 1;
        }
        assert(screen_row(*p, row as int).take(col as int) =~= screen_row(*p, row as int));
        let l: Line = row_to_line(&cells);
        proof {
            lemma_line_views_push(lines@, l);
            assert(all.take(row + 1) =~= all.take(row as int).push(all[row as int]));
        }
        lines.push(l);
        row += 1;
    }
    assert(all.take(row as int) =~= all);
    (lines, rows)
}

} // verus!
