//! Rectangles and sizes on a terminal, counted in cells.

use vstd::prelude::*;

verus! {

/// A rectangle of terminal cells.
#[derive(Clone, Copy, Debug, PartialEq, Eq, Structural)]
pub struct Rect {
    pub x: u16,
    pub y: u16,
    pub width: u16,
    pub height: u16,
}

/// `b`, or `a` where `b` is larger.
pub open spec fn at_most(a: int, b: int) -> int {
    if b > a {
        a
    } else {
        b
    }
}

impl Rect {
    pub open spec fn clipped(x: u16, y: u16, width: u16, height: u16) -> Rect {
        Rect {
            x,
            y,
            width: at_most(u16::MAX - x, width as int) as u16,
            height: at_most(u16::MAX - y, height as int) as u16,
        }
    }

    /// The rectangle at the given place, as far as it lies on the grid of cells.
    #[verifier::when_used_as_spec(clipped)]
    pub fn new(x: u16, y: u16, width: u16, height: u16) -> (r: Rect)
        ensures
            r == Rect::clipped(x, y, width, height),
    {
        let most_wide: u16 = u16::MAX - x;
        let most_high: u16 = u16::MAX - y;
        Rect {
            x,
            y,
            width: if width > most_wide {
                most_wide
            } else {
                width
            },
            height: if height > most_high {
                most_high
            } else {
                height
            },
        }
    }

    /// Whether the cell lies in the rectangle.
    pub open spec fn holds(self, col: u16, row: u16) -> bool {
        self.x <= col < self.x + self.width && self.y <= row < self.y + self.height
    }

    /// Whether the cell lies in the rectangle.
    pub fn contains(&self, col: u16, row: u16) -> (r: bool)
        ensures
            r == self.holds(col, row),
    {
        col >= self.x && col - self.x < self.width && row >= self.y && row - self.y < self.height
    }
}

/// The sum of heights.
pub open spec fn total_height(heights: Seq<u16>) -> int
    decreases heights.len(),
{
    if heights.len() == 0 {
        0
    } else {
        total_height(heights.drop_last()) + heights.last()
    }
}

pub proof fn lemma_total_height(heights: Seq<u16>)
    ensures
        total_height(heights) >= 0,
    decreases heights.len(),
{
    if heights.len() > 0 {
        lemma_total_height(heights.drop_last());
    }
}

/// Whether `r` are the rows of an area, from its top to its bottom: one for each height of `above`,
/// one that takes what is left, and one for each height of `below`.
pub open spec fn rows_split(area: Rect, above: Seq<u16>, below: Seq<u16>, r: Seq<Rect>) -> bool {
    let rest = area.height - total_height(above) - total_height(below);
    &&& forall|i: int|
        0 <= i < above.len() ==> #[trigger] r[i] == (Rect {
            y: (area.y + total_height(above.take(i))) as u16,
            height: above[i],
            ..area
        })
    &&& r[above.len() as int] == (Rect {
        y: (area.y + total_height(above)) as u16,
        height: rest as u16,
        ..area
    })
    &&& forall|i: int|
        0 <= i < below.len() ==> #[trigger] r[above.len() + 1 + i] == (Rect {
            y: (area.y + total_height(above) + rest + total_height(below.take(i))) as u16,
            height: below[i],
            ..area
        })
}

/// How high the row between the fixed ones is: it takes what they leave, at least so much, and at
/// most all that there is.
pub open spec fn middle_height(height: int, fixed: int, least: int) -> int {
    if fixed + least <= height {
        height - fixed
    } else if least <= height {
        least
    } else {
        height
    }
}

/// Whether `r` are rows that fill an area from its top to its bottom: one for each height of `above`,
/// one between that gets its height first, and one for each height of `below`. No row is higher than
/// its fixed height; those that do not fit are lower.
pub open spec fn rows_fill(area: Rect, above: Seq<u16>, least: u16, below: Seq<u16>, r: Seq<Rect>) -> bool {
    &&& r.len() == above.len() + 1 + below.len()
    &&& forall|i: int| 0 <= i < r.len() ==> (#[trigger] r[i]).x == area.x && r[i].width == area.width
    &&& r[0].y == area.y
    &&& forall|i: int, j: int|
        0 <= i && j == i + 1 && j < r.len() ==> (#[trigger] r[j]).y == (#[trigger] r[i]).y + r[i].height
    &&& r.last().y + r.last().height == area.y + area.height
    &&& r[above.len() as int].height == middle_height(
        area.height as int,
        total_height(above) + total_height(below),
        least as int,
    )
    &&& forall|i: int| 0 <= i < above.len() ==> (#[trigger] r[i]).height <= above[i]
    &&& forall|i: int|
        above.len() < i < r.len() ==> (#[trigger] r[i]).height <= below[i - above.len() - 1]
}

/// How high rows are in so much room that are to have one row, three rows, three rows at least, and
/// one row: the third gets its least first, then the last one, the first and the second.
pub open spec fn stacked_heights(height: int) -> Seq<int> {
    seq![
        if height >= 5 {
            1int
        } else {
            0
        },
        if height >= 8 {
            3int
        } else if height >= 5 {
            height - 5
        } else {
            0
        },
        middle_height(height, 5, 3),
        if height >= 4 {
            1int
        } else {
            0
        },
    ]
}

/// `Layout::split` of ratatui, for a column of at most eight rows: some with fixed heights and one
/// with a least height between them. It gives one row for each, all as wide as the area, and they
/// fill it without gaps: the solver of the layout holds the gaps between rows above all else, then
/// the least height, then the fixed ones. Where all fit into the area, the rows have the fixed
/// heights and the one between takes what is left; where they do not, it takes its least height, as
/// far as there is so much. Which of the fixed rows shrink then follows from the weakest strength of
/// the solver, which draws the heights of neighbours together; it is claimed for one column only, as
/// the solver walks hash maps and may choose where several ways are equally good.
#[verifier::external_body]
pub(crate) fn split_rows(area: Rect, above: Vec<u16>, least: u16, below: Vec<u16>) -> (r: Vec<Rect>)
    requires
        area.y + area.height <= u16::MAX,
        area.x + area.width <= u16::MAX,
        least <= i16::MAX,
        above@.len() + below@.len() <= 7,
    ensures
        rows_fill(area, above@, least, below@, r@),
        total_height(above@) + least + total_height(below@) <= area.height ==> rows_split(
            area,
            above@,
            below@,
            r@,
        ),
        above@ == seq![1u16, 3u16] && least == 3 && below@ == seq![1u16] ==> forall|i: int|
            0 <= i < 4 ==> (#[trigger] r@[i]).height == stacked_heights(area.height as int)[i],
{
    let mut rows = ratatui::layout::Constraint::from_lengths(above);
    rows.push(ratatui::layout::Constraint::Min(least));
    rows.extend(ratatui::layout::Constraint::from_lengths(below));
    let all = ratatui::layout::Rect::new(area.x, area.y, area.width, area.height);
    let split = ratatui::layout::Layout::vertical(rows).split(all);
    split.iter().map(|r| Rect { x: r.x, y: r.y, width: r.width, height: r.height }).collect()
}

/// The size of the terminal.
#[derive(Clone, Copy, Debug, PartialEq, Eq, Structural)]
pub struct Size {
    pub width: u16,
    pub height: u16,
}

} // verus!
