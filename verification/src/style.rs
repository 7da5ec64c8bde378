//! Styled text: what a renderer draws, as plain values.

use vstd::prelude::*;

verus! {

/// A colour: one of the terminal's, or one that the theme chooses for the terminal's background.
#[derive(Clone, Copy, Debug, PartialEq, Eq, Structural)]
pub enum Color {
    Reset,
    Black,
    Red,
    Green,
    Yellow,
    Blue,
    Magenta,
    Cyan,
    Gray,
    DarkGray,
    LightRed,
    LightGreen,
    LightYellow,
    LightBlue,
    LightMagenta,
    LightCyan,
    White,
    Indexed(u8),
    Rgb(u8, u8, u8),
    /// A colour of the theme.
    Theme(Tone),
    /// A colour that adapts to a light or dark background.
    Adaptive(Tone),
}

/// The part that a theme or adaptive colour plays.
#[derive(Clone, Copy, Debug, PartialEq, Eq, Structural)]
pub enum Tone {
    Text,
    Title,
    TitlePrimary,
    Muted,
    Accent,
    Success,
    Warning,
    Danger,
    Red,
    DarkRed,
    Green,
    DarkGreen,
    Yellow,
    Cyan,
    Magenta,
    DarkGray,
    AccentSecondary,
    DropdownText,
    DropdownMuted,
    DropdownBg,
    HighlightFg,
    HighlightBg,
}

/// How a span is drawn.
#[derive(Clone, Copy, Debug, PartialEq, Eq, Structural)]
pub struct Style {
    pub fg: Option<Color>,
    pub bg: Option<Color>,
    pub bold: bool,
    pub italic: bool,
    pub underlined: bool,
    pub reversed: bool,
    pub dim: bool,
    pub crossed_out: bool,
}

impl Style {
    pub open spec fn plain_spec() -> Style {
        Style {
            fg: None,
            bg: None,
            bold: false,
            italic: false,
            underlined: false,
            reversed: false,
            dim: false,
            crossed_out: false,
        }
    }

    /// No colour and no emphasis.
    #[verifier::when_used_as_spec(plain_spec)]
    pub fn plain() -> (r: Style)
        ensures
            r == Style::plain_spec(),
    {
        Style {
            fg: None,
            bg: None,
            bold: false,
            italic: false,
            underlined: false,
            reversed: false,
            dim: false,
            crossed_out: false,
        }
    }

    pub open spec fn fg_spec(self, c: Color) -> Style {
        Style { fg: Some(c), ..self }
    }

    /// The same style in another foreground colour.
    #[verifier::when_used_as_spec(fg_spec)]
    pub fn fg(self, c: Color) -> (r: Style)
        ensures
            r == self.fg_spec(c),
    {
        Style { fg: Some(c), ..self }
    }

    pub open spec fn bg_spec(self, c: Color) -> Style {
        Style { bg: Some(c), ..self }
    }

    /// The same style on another background colour.
    #[verifier::when_used_as_spec(bg_spec)]
    pub fn bg(self, c: Color) -> (r: Style)
        ensures
            r == self.bg_spec(c),
    {
        Style { bg: Some(c), ..self }
    }

    pub open spec fn strong_spec(self) -> Style {
        Style { bold: true, ..self }
    }

    /// The same style in bold.
    #[verifier::when_used_as_spec(strong_spec)]
    pub fn strong(self) -> (r: Style)
        ensures
            r == self.strong_spec(),
    {
        Style { bold: true, ..self }
    }
}

/// A run of text in one style.
#[derive(Debug)]
pub struct Span {
    pub content: String,
    pub style: Style,
}

/// What a span shows.
#[verifier::ext_equal]
pub struct SpanView {
    pub content: Seq<char>,
    pub style: Style,
}

impl View for Span {
    type V = SpanView;

    open spec fn view(&self) -> SpanView {
        SpanView { content: self.content@, style: self.style }
    }
}

impl Clone for Span {
    fn clone(&self) -> (r: Span)
        ensures
            r == *self,
    {
        Span { content: self.content.clone(), style: self.style }
    }
}

impl Span {
    /// The span with the given text and style.
    pub fn styled(content: &str, style: Style) -> (r: Span)
        ensures
            r@ == (SpanView { content: content@, style: style }),
    {
        Span { content: content.to_owned(), style: style }
    }

    /// The span with the given text and no style.
    pub fn raw(content: &str) -> (r: Span)
        ensures
            r@ == (SpanView { content: content@, style: Style::plain() }),
    {
        Span { content: content.to_owned(), style: Style::plain() }
    }
}

/// What a sequence of spans shows.
pub open spec fn span_views(v: Seq<Span>) -> Seq<SpanView> {
    v.map_values(|s: Span| s@)
}

/// One row of styled text.
#[derive(Debug)]
pub struct Line {
    pub spans: Vec<Span>,
}

impl View for Line {
    type V = Seq<SpanView>;

    open spec fn view(&self) -> Seq<SpanView> {
        span_views(self.spans@)
    }
}

impl Clone for Line {
    fn clone(&self) -> (r: Line)
        ensures
            r@ == self@,
    {
        let spans: Vec<Span> = self.spans.clone();
        assert(spans@ =~= self.spans@);
        Line { spans }
    }
}

impl Line {
    /// The row with nothing on it.
    pub fn empty() -> (r: Line)
        ensures
            r@ == Seq::<SpanView>::empty(),
    {
        let r: Line = Line { spans: Vec::new() };
        assert(r@ =~= Seq::<SpanView>::empty());
        r
    }

    /// The row with one span on it.
    pub fn of(span: Span) -> (r: Line)
        ensures
            r@ == seq![span@],
    {
        let mut r: Line = Line::empty();
        r.add(span);
        assert(r@ =~= seq![span@]);
        r
    }

    /// Puts a span behind the others.
    pub fn add(&mut self, span: Span)
        ensures
            final(self)@ == old(self)@.push(span@),
    {
        self.spans.push(span);
        assert(self@ =~= old(self)@.push(span@));
    }

    /// The row's text: that of its spans, one behind the other.
    pub fn text(&self) -> (r: String)
        ensures
            r@ == row_text(self@),
    {
        let mut r: String = String::new();
        let mut i: usize = 0;
        assert(self@.take(0) =~= Seq::<SpanView>::empty());
        while i < self.spans.len()
            invariant
                i <= self.spans@.len(),
                r@ == row_text(self@.take(i as int)),
            decreases self.spans@.len() - i,
        {
            assert(self@.take(i + 1).drop_last() =~= self@.take(i as int));
            r.push_str(self.spans[i].content.as_str());
            i += 1;
        }
        assert(self@.take(i as int) =~= self@);
        r
    }
}

/// The text of a row: that of its spans, one behind the other.
pub open spec fn row_text(row: Seq<SpanView>) -> Seq<char>
    decreases row.len(),
{
    if row.len() == 0 {
        Seq::empty()
    } else {
        row_text(row.drop_last()) + row.last().content
    }
}

/// What a sequence of rows shows.
pub open spec fn line_views(v: Seq<Line>) -> Seq<Seq<SpanView>> {
    v.map_values(|l: Line| l@)
}

pub proof fn lemma_line_views_push(v: Seq<Line>, l: Line)
    ensures
        line_views(v.push(l)) == line_views(v).push(l@),
{
    assert(line_views(v.push(l)) =~= line_views(v).push(l@));
}

/// A copy of the rows from `from` up to `to`.
pub fn copy_lines(v: &Vec<Line>, from: usize, to: usize) -> (r: Vec<Line>)
    requires
        from <= to <= v@.len(),
    ensures
        line_views(r@) == line_views(v@).subrange(from as int, to as int),
{
    let mut r: Vec<Line> = Vec::new();
    let mut i: usize = from;
    assert(line_views(r@) =~= line_views(v@).subrange(from as int, from as int));
    while i < to
        invariant
            from <= i <= to <= v@.len(),
            line_views(r@) == line_views(v@).subrange(from as int, i as int),
        decreases to - i,
    {
        let l: Line = v[i].clone();
        proof {
            lemma_line_views_push(r@, l);
        }
        r.push(l);
        i += 1;
        assert(line_views(v@).subrange(from as int, i as int) =~= line_views(v@).subrange(
            from as int,
            i - 1,
        ).push(line_views(v@)[i - 1]));
    }
    r
}

/// A copy of all rows.
pub fn all_lines(v: &Vec<Line>) -> (r: Vec<Line>)
    ensures
        line_views(r@) == line_views(v@),
{
    let r: Vec<Line> = copy_lines(v, 0, v.len());
    assert(line_views(v@).subrange(0, v@.len() as int) =~= line_views(v@));
    r
}

/// How many columns a text takes on a terminal.
pub uninterp spec fn columns_of(s: Seq<char>) -> usize;

/// `UnicodeWidthStr::width` of the unicode-width crate: the columns are a function of the
/// characters alone.
#[verifier::external_body]
pub(crate) fn display_width(s: &str) -> (n: usize)
    ensures
        n == columns_of(s@),
{
    unicode_width::UnicodeWidthStr::width(s)
}

/// The text of two rows put together is that of the first and then that of the second; a single span
/// is its text.
pub proof fn law_row_text(a: Seq<SpanView>, b: Seq<SpanView>, x: SpanView)
    ensures
        row_text(a + b) == row_text(a) + row_text(b),
        row_text(seq![x]) == x.content,
    decreases b.len(),
{
    let none = Seq::<SpanView>::empty();
    assert(seq![x].drop_last() =~= none);
    assert(row_text(none) =~= Seq::<char>::empty());
    assert(Seq::<char>::empty() + x.content =~= x.content);
    if b.len() == 0 {
        assert(a + b =~= a);
        assert(row_text(a) + row_text(b) =~= row_text(a));
    } else {
        law_row_text(a, b.drop_last(), x);
        assert((a + b).drop_last() =~= a + b.drop_last());
        assert(row_text(a + b) =~= row_text(a) + row_text(b));
    }
}

} // verus!
