//! The banner above the conversation.

use vstd::prelude::*;
use crate::geometry::Rect;
use crate::models::copy_text;
use crate::style::Color;
use crate::style::Line;
use crate::style::Span;
use crate::style::SpanView;
use crate::style::Style;
use crate::style::Tone;
use crate::text::chars_of;
use crate::text::is_space;
use crate::text::is_white;
use crate::text::spaces;
use crate::text::string_of;
use crate::types::BannerState;

verus! {

/// How long a banner stays, in milliseconds.
pub const BANNER_MESSAGE_DURATION_MS: u64 = 60_000;

/// The height of a banner: one row of text and two of border.
pub const BANNER_VISIBLE_HEIGHT: u16 = 3;

/// What a banner is about.
#[derive(Clone, Copy, Debug, PartialEq, Eq, Structural)]
pub enum BannerStyle {
    Warning,
    Error,
    Info,
    Success,
}

impl BannerStyle {
    pub open spec fn color_spec(&self) -> Color {
        match self {
            BannerStyle::Warning => Color::Theme(Tone::Warning),
            BannerStyle::Error => Color::Theme(Tone::Danger),
            BannerStyle::Info => Color::Theme(Tone::Accent),
            BannerStyle::Success => Color::Theme(Tone::Success),
        }
    }

    /// The colour of the border.
    #[verifier::when_used_as_spec(color_spec)]
    pub fn color(&self) -> (r: Color)
        ensures
            r == self.color_spec(),
    {
        match self {
            BannerStyle::Warning => Color::Theme(Tone::Warning),
            BannerStyle::Error => Color::Theme(Tone::Danger),
            BannerStyle::Info => Color::Theme(Tone::Accent),
            BannerStyle::Success => Color::Theme(Tone::Success),
        }
    }
}

/// A banner's text, and how long it stays.
#[derive(Debug)]
pub struct BannerMessage {
    pub text: String,
    /// When it was made, in milliseconds.
    pub created_at: u64,
    pub style: BannerStyle,
    /// Whether it stays until it is dismissed.
    pub persistent: bool,
    /// The command that a click anywhere on the banner runs.
    pub action: Option<String>,
}

impl Clone for BannerMessage {
    fn clone(&self) -> (r: BannerMessage)
        ensures
            r == *self,
    {
        BannerMessage {
            text: self.text.clone(),
            created_at: self.created_at,
            style: self.style,
            persistent: self.persistent,
            action: copy_text(&self.action),
        }
    }
}

impl BannerMessage {
    /// A banner that goes away by itself.
    pub fn new(text: String, style: BannerStyle, now: u64) -> (r: BannerMessage)
        ensures
            r == (BannerMessage { text, created_at: now, style, persistent: false, action: None }),
    {
        BannerMessage { text, created_at: now, style, persistent: false, action: None }
    }

    /// A banner that stays until it is dismissed.
    pub fn persistent(text: String, style: BannerStyle, now: u64) -> (r: BannerMessage)
        ensures
            r == (BannerMessage { text, created_at: now, style, persistent: true, action: None }),
    {
        BannerMessage { text, created_at: now, style, persistent: true, action: None }
    }

    /// A banner that stays until it is dismissed, and runs a command where it is clicked.
    pub fn persistent_with_action(
        text: String,
        style: BannerStyle,
        action: String,
        now: u64,
    ) -> (r: BannerMessage)
        ensures
            r == (BannerMessage {
                text,
                created_at: now,
                style,
                persistent: true,
                action: Some(action),
            }),
    {
        BannerMessage { text, created_at: now, style, persistent: true, action: Some(action) }
    }

    pub open spec fn expired(&self, now: u64) -> bool {
        !self.persistent && now - self.created_at > BANNER_MESSAGE_DURATION_MS
    }

    /// Whether the banner's time is over.
    pub fn is_expired(&self, now: u64) -> (r: bool)
        ensures
            r == self.expired(now),
    {
        if self.persistent {
            return false;
        }
        now > self.created_at && now - self.created_at > BANNER_MESSAGE_DURATION_MS
    }
}

/// Once a banner is expired it stays so, and one that persists never expires.
pub proof fn law_expiry(b: BannerMessage, t: u64, later: u64)
    requires
        t <= later,
    ensures
        b.expired(t) ==> b.expired(later),
        b.persistent ==> !b.expired(t),
{
}

/// The banner that is shown: none where its time is over.
pub open spec fn shown(b: Option<BannerMessage>, now: u64) -> Option<BannerMessage> {
    match b {
        Some(m) => if m.expired(now) {
            None
        } else {
            b
        },
        None => None,
    }
}

/// How many rows the banner takes.
pub fn banner_height(message: &Option<BannerMessage>, now: u64) -> (r: u16)
    ensures
        r == (if shown(*message, now) is Some {
            BANNER_VISIBLE_HEIGHT
        } else {
            0
        }),
{
    match message {
        Some(m) => if m.is_expired(now) {
            0
        } else {
            BANNER_VISIBLE_HEIGHT
        },
        None => 0,
    }
}

// ----- slash commands in the text -----

/// Where the word that reaches to `i` ends.
pub open spec fn word_end(s: Seq<char>, i: int) -> int
    decreases s.len() - i,
{
    if i < 0 || i >= s.len() || is_space(s[i]) {
        i
    } else {
        word_end(s, i + 1)
    }
}

/// Whether a word that is a slash and something more starts at `i`.
pub open spec fn command_at(s: Seq<char>, i: int) -> bool {
    &&& 0 <= i < s.len()
    &&& s[i] == '/'
    &&& i == 0 || is_space(s[i - 1])
    &&& word_end(s, i + 1) > i + 1
}

/// The slash commands that start before `to`: where each starts and ends.
pub open spec fn commands_before(s: Seq<char>, to: int) -> Seq<(int, int)>
    decreases to,
{
    if to <= 0 {
        Seq::empty()
    } else if command_at(s, to - 1) {
        commands_before(s, to - 1).push((to - 1, word_end(s, to)))
    } else {
        commands_before(s, to - 1)
    }
}

/// The slash commands of a text, as ranges of characters.
pub open spec fn slash_commands(s: Seq<char>) -> Seq<(int, int)> {
    commands_before(s, s.len() as int)
}

proof fn lemma_word_end(s: Seq<char>, i: int)
    requires
        0 <= i <= s.len(),
    ensures
        i <= word_end(s, i) <= s.len(),
        forall|j: int| i <= j < word_end(s, i) ==> !is_space(s[j]),
    decreases s.len() - i,
{
    if i < s.len() && !is_space(s[i]) {
        lemma_word_end(s, i + 1);
    }
}

/// Whether the range is a command of the text that starts before `to`.
spec fn is_command(s: Seq<char>, p: (int, int), to: int) -> bool {
    &&& 0 <= p.0 < to
    &&& command_at(s, p.0)
    &&& p.1 == word_end(s, p.0 + 1)
    &&& p.0 + 1 < p.1 <= s.len()
}

/// The commands lie in the text, one behind the other.
proof fn lemma_commands_before(s: Seq<char>, to: int)
    requires
        to <= s.len(),
    ensures
        forall|k: int|
            0 <= k < commands_before(s, to).len() ==> is_command(
                s,
                #[trigger] commands_before(s, to)[k],
                to,
            ),
        forall|k: int|
            1 <= k < commands_before(s, to).len() ==> commands_before(s, to)[k - 1].1 < (
            #[trigger] commands_before(s, to)[k]).0,
    decreases to,
{
    if to > 0 {
        lemma_commands_before(s, to - 1);
        let old_seq = commands_before(s, to - 1);
        assert forall|k: int| 0 <= k < old_seq.len() implies is_command(
            s,
            #[trigger] old_seq[k],
            to,
        ) by {
            assert(is_command(s, old_seq[k], to - 1));
        }
        if command_at(s, to - 1) {
            lemma_word_end(s, to);
            assert(to - 1 + 1 == to);
            assert(is_command(s, (to - 1, word_end(s, to)), to));
            if old_seq.len() > 0 {
                let k = old_seq.len() - 1;
                assert(is_command(s, old_seq[k], to - 1));
                lemma_word_end(s, old_seq[k].0 + 1);
                // The characters of the earlier word are no white space, but the one before this
                // command is.
                if old_seq[k].1 >= to - 1 {
                    if to - 2 >= old_seq[k].0 + 1 {
                        assert(!is_space(s[to - 2]));
                    } else {
                        assert(to - 2 == old_seq[k].0);
                        assert(s[to - 2] == '/');
                    }
                    assert(false);
                }
            }
        }
    }
}

spec fn pairs(v: Seq<(usize, usize)>) -> Seq<(int, int)> {
    v.map_values(|p: (usize, usize)| (p.0 as int, p.1 as int))
}

fn find_slash_commands(s: &Vec<char>) -> (r: Vec<(usize, usize)>)
    ensures
        pairs(r@) == slash_commands(s@),
{
    let mut r: Vec<(usize, usize)> = Vec::new();
    let mut i: usize = 0;
    assert(pairs(r@) =~= Seq::<(int, int)>::empty());
    while i < s.len()
        invariant
            i <= s@.len(),
            pairs(r@) == commands_before(s@, i as int),
        decreases s@.len() - i,
    {
        if s[i] == '/' && (i == 0 || is_white(s[i - 1])) {
            let mut end: usize = i + 1;
            while end < s.len() && !is_white(s[end])
                invariant
                    i < end <= s@.len(),
                    word_end(s@, i + 1) == word_end(s@, end as int),
                decreases s@.len() - end,
            {
                end += 1;
            }
            if end > i + 1 {
                let ghost before = r@;
                r.push((i, end));
                assert(pairs(r@) =~= pairs(before).push((i as int, end as int)));
            }
        }
        i += 1;
    }
    r
}

// ----- layout -----

pub open spec fn command_style() -> Style {
    Style { underlined: true, ..Style::plain().fg(Color::Theme(Tone::Accent)) }
}

pub open spec fn raw(s: Seq<char>) -> SpanView {
    SpanView { content: s, style: Style::plain() }
}

/// The spans of a text's first `k` commands and of what stands before them.
pub open spec fn command_spans(s: Seq<char>, cmds: Seq<(int, int)>, k: int) -> Seq<SpanView>
    decreases k,
{
    if k <= 0 {
        Seq::empty()
    } else {
        let before = command_spans(s, cmds, k - 1);
        let from = spans_end(cmds, k - 1);
        let (start, end) = cmds[k - 1];
        let plain = if start > from {
            before.push(raw(s.subrange(from, start)))
        } else {
            before
        };
        plain.push(SpanView { content: s.subrange(start, end), style: command_style() })
    }
}

/// Where the `k` first commands end.
pub open spec fn spans_end(cmds: Seq<(int, int)>, k: int) -> int {
    if k <= 0 {
        0
    } else {
        cmds[k - 1].1
    }
}

/// The spans of a banner's text: the commands are marked, the rest is plain.
pub open spec fn banner_spans(s: Seq<char>) -> Seq<SpanView> {
    let cmds = slash_commands(s);
    let n = cmds.len() as int;
    if n == 0 {
        seq![raw(s)]
    } else if spans_end(cmds, n) < s.len() {
        command_spans(s, cmds, n).push(raw(s.subrange(spans_end(cmds, n), s.len() as int)))
    } else {
        command_spans(s, cmds, n)
    }
}

pub open spec fn sum_sat(a: u16, b: int) -> u16 {
    if a + b > u16::MAX {
        u16::MAX
    } else {
        (a + b) as u16
    }
}

/// The cells of a command: behind the border and the padding, on the row below the upper border.
pub open spec fn command_rect(area: Rect, start: int, end: int) -> Rect {
    Rect::new(sum_sat(area.x, 2 + start), sum_sat(area.y, 1), (end - start) as u16, 1)
}

/// How many blanks stand between the text and the mark that dismisses the banner.
pub open spec fn banner_pad(area: Rect, len: nat) -> nat {
    let width = if area.width >= 4 {
        area.width - 4
    } else {
        0
    };
    if width >= len + 3 {
        (width - (len + 3)) as nat
    } else {
        0
    }
}

/// The row of a banner.
pub open spec fn banner_row(s: Seq<char>, color: Color, area: Rect) -> Seq<SpanView> {
    let pad = banner_pad(area, s.len());
    let padded = if pad > 0 {
        banner_spans(s).push(raw(crate::text::blanks(pad)))
    } else {
        banner_spans(s)
    };
    padded.push(
        SpanView { content: " x "@, style: Style { dim: true, ..Style::plain().fg(color) } },
    )
}

/// The cells on which a click dismisses the banner.
pub open spec fn dismiss_rect(area: Rect) -> Rect {
    Rect::new(
        (area.x + (if area.width >= 7 {
            area.width - 7
        } else {
            0
        })) as u16,
        area.y,
        7,
        area.height,
    )
}

/// What a banner shows, and where it can be clicked.
#[derive(Debug)]
pub struct BannerLayout {
    pub row: Line,
    pub border: Color,
    pub click_regions: Vec<(String, Rect)>,
    pub dismiss_region: Rect,
}

pub open spec fn region_views(v: Seq<(String, Rect)>) -> Seq<(Seq<char>, Rect)> {
    v.map_values(|p: (String, Rect)| (p.0@, p.1))
}

/// Where a banner can be clicked: all of it where it has an action, else on each command.
pub open spec fn banner_regions(m: BannerMessage, area: Rect) -> Seq<(Seq<char>, Rect)> {
    match m.action {
        Some(action) => seq![(action@, area)],
        None => {
            let cmds = slash_commands(m.text@);
            Seq::new(
                cmds.len(),
                |k: int|
                    (
                        m.text@.subrange(cmds[k].0, cmds[k].1),
                        command_rect(area, cmds[k].0, cmds[k].1),
                    ),
            )
        },
    }
}

/// What is known of the commands that were found.
spec fn found(s: Seq<char>, cmds: Seq<(usize, usize)>) -> bool {
    let cv = slash_commands(s);
    &&& cv.len() == cmds.len()
    &&& forall|k: int|
        0 <= k < cmds.len() ==> cv[k] == ((#[trigger] cmds[k]).0 as int, cmds[k].1 as int)
    &&& forall|k: int| 0 <= k < cmds.len() ==> (#[trigger] cmds[k]).0 < cmds[k].1 <= s.len()
    &&& forall|k: int| 1 <= k < cmds.len() ==> cmds[k - 1].1 < (#[trigger] cmds[k]).0
}

proof fn lemma_found(s: Seq<char>, cmds: Seq<(usize, usize)>)
    requires
        pairs(cmds) == slash_commands(s),
    ensures
        found(s, cmds),
{
    let cv = slash_commands(s);
    lemma_commands_before(s, s.len() as int);
    assert forall|k: int| 0 <= k < cmds.len() implies cv[k] == (
        (#[trigger] cmds[k]).0 as int,
        cmds[k].1 as int,
    ) && cmds[k].0 < cmds[k].1 <= s.len() by {
        assert(pairs(cmds)[k] == cv[k]);
        assert(is_command(s, cv[k], s.len() as int));
    }
    assert forall|k: int| 1 <= k < cmds.len() implies cmds[k - 1].1 < (#[trigger] cmds[k]).0 by {
        assert(pairs(cmds)[k] == cv[k]);
        assert(pairs(cmds)[k - 1] == cv[k - 1]);
    }
}

fn text_spans(text: &str, s: &Vec<char>, cmds: &Vec<(usize, usize)>) -> (row: Line)
    requires
        text@ == s@,
        found(s@, cmds@),
    ensures
        row@ == banner_spans(s@),
{
    let mut row: Line = Line::empty();
    let mark: Style = Style { underlined: true, ..Style::plain().fg(Color::Theme(Tone::Accent)) };
    let mut from: usize = 0;
    let mut i: usize = 0;
    let ghost cv = slash_commands(s@);
    while i < cmds.len()
        invariant
            i <= cmds@.len(),
            found(s@, cmds@),
            cv == slash_commands(s@),
            mark == command_style(),
            from == spans_end(cv, i as int),
            i > 0 ==> from == cmds@[i - 1].1,
            from <= s@.len(),
            row@ == command_spans(s@, cv, i as int),
        decreases cmds@.len() - i,
    {
        let (start, end): (usize, usize) = cmds[i];
        assert(cv[i as int] == (start as int, end as int));
        if start > from {
            let plain: String = string_of(s, from, start);
            row.add(Span::raw(plain.as_str()));
        }
        let cmd: String = string_of(s, start, end);
        row.add(Span::styled(cmd.as_str(), mark));
        from = end;
        i += 1;
    }
    if cmds.len() == 0 {
        row.add(Span::raw(text));
        assert(row@ =~= banner_spans(s@));
    } else if from < s.len() {
        let plain: String = string_of(s, from, s.len());
        row.add(Span::raw(plain.as_str()));
    }
    row
}

fn place_command(area: Rect, start: usize, end: usize) -> (r: Rect)
    requires
        start < end,
        end + 2 <= u16::MAX,
    ensures
        r == command_rect(area, start as int, end as int),
{
    let shift: u16 = 2 + start as u16;
    let x: u16 = if area.x > u16::MAX - shift {
        u16::MAX
    } else {
        area.x + shift
    };
    let y: u16 = if area.y == u16::MAX {
        u16::MAX
    } else {
        area.y + 1
    };
    Rect::new(x, y, (end - start) as u16, 1)
}

fn command_regions(s: &Vec<char>, cmds: &Vec<(usize, usize)>, area: Rect) -> (r: Vec<
    (String, Rect),
>)
    requires
        found(s@, cmds@),
        countable(s@),
    ensures
        r@.len() == cmds@.len(),
        forall|k: int|
            0 <= k < r@.len() ==> (#[trigger] r@[k]).0@ == s@.subrange(
                cmds@[k].0 as int,
                cmds@[k].1 as int,
            ) && r@[k].1 == command_rect(area, cmds@[k].0 as int, cmds@[k].1 as int),
{
    let mut r: Vec<(String, Rect)> = Vec::new();
    let mut i: usize = 0;
    while i < cmds.len()
        invariant
            i <= cmds@.len(),
            i == r@.len(),
            found(s@, cmds@),
            countable(s@),
            forall|k: int|
                0 <= k < r@.len() ==> (#[trigger] r@[k]).0@ == s@.subrange(
                    cmds@[k].0 as int,
                    cmds@[k].1 as int,
                ) && r@[k].1 == command_rect(area, cmds@[k].0 as int, cmds@[k].1 as int),
        decreases cmds@.len() - i,
    {
        let (start, end): (usize, usize) = cmds[i];
        assert(cmds@[i as int].0 < cmds@[i as int].1);
        assert(slash_commands(s@)[i as int].1 == end);
        r.push((string_of(s, start, end), place_command(area, start, end)));
        i += 1;
    }
    r
}

/// Whether a terminal can count the columns up to the last slash command of a text.
pub open spec fn countable(s: Seq<char>) -> bool {
    forall|k: int|
        0 <= k < slash_commands(s).len() ==> (#[trigger] slash_commands(s)[k]).1 + 2 <= u16::MAX
}

/// Whether a terminal can count the columns up to the last slash command of the banner.
pub fn can_lay_out(m: &BannerMessage) -> (r: bool)
    ensures
        r == countable(m.text@),
{
    let s: Vec<char> = chars_of(m.text.as_str());
    let cmds: Vec<(usize, usize)> = find_slash_commands(&s);
    proof {
        lemma_found(s@, cmds@);
    }
    let mut i: usize = 0;
    while i < cmds.len()
        invariant
            i <= cmds@.len(),
            s@ == m.text@,
            found(s@, cmds@),
            forall|k: int|
                0 <= k < i ==> (#[trigger] slash_commands(s@)[k]).1 + 2 <= u16::MAX,
        decreases cmds@.len() - i,
    {
        assert(slash_commands(s@)[i as int].1 == cmds@[i as int].1);
        if cmds[i].1 > 65533 {
            return false;
        }
        i += 1;
    }
    true
}

/// Lays a banner out in an area.
pub fn lay_out_banner(m: &BannerMessage, area: Rect) -> (r: BannerLayout)
    requires
        countable(m.text@),
        area.x + area.width <= u16::MAX,
    ensures
        r.row@ == banner_row(m.text@, m.style.color(), area),
        r.border == m.style.color(),
        region_views(r.click_regions@) == banner_regions(*m, area),
        r.dismiss_region == dismiss_rect(area),
{
    let s: Vec<char> = chars_of(m.text.as_str());
    let cmds: Vec<(usize, usize)> = find_slash_commands(&s);
    proof {
        lemma_found(s@, cmds@);
    }
    let mut row: Line = text_spans(m.text.as_str(), &s, &cmds);
    let width: usize = if area.width >= 4 {
        (area.width - 4) as usize
    } else {
        0
    };
    if width > 3 && width - 3 > s.len() {
        row.add(Span::raw(spaces(width - 3 - s.len()).as_str()));
    }
    row.add(Span::styled(" x ", Style { dim: true, ..Style::plain().fg(m.style.color()) }));
    let click_regions: Vec<(String, Rect)> = match &m.action {
        Some(action) => {
            let mut v: Vec<(String, Rect)> = Vec::new();
            v.push((action.clone(), area));
            assert(region_views(v@) =~= seq![(action@, area)]);
            v
        },
        None => command_regions(&s, &cmds, area),
    };
    assert(region_views(click_regions@) =~= banner_regions(*m, area));
    let inset: u16 = if area.width >= 7 {
        area.width - 7
    } else {
        0
    };
    BannerLayout {
        row,
        border: m.style.color(),
        click_regions,
        dismiss_region: Rect::new(area.x + inset, area.y, 7, area.height),
    }
}

/// The banner after it was drawn: an expired one is gone, and one that is shown can be clicked where
/// it lies.
pub open spec fn banner_drawn(
    pre: BannerState,
    post: BannerState,
    area: Rect,
    now: u64,
    r: Option<BannerLayout>,
) -> bool {
    match shown(pre.message, now) {
        Some(m) => {
            &&& post == (BannerState {
                click_regions: post.click_regions,
                dismiss_region: Some(dismiss_rect(area)),
                ..pre
            })
            &&& region_views(post.click_regions@) == banner_regions(m, area)
            &&& r matches Some(l) && l.row@ == banner_row(m.text@, m.style.color(), area)
                && l.border == m.style.color() && l.dismiss_region == dismiss_rect(area)
                && region_views(l.click_regions@) == banner_regions(m, area)
        },
        None => post == (BannerState { message: None, ..pre }) && r is None,
    }
}

fn copy_regions(v: &Vec<(String, Rect)>) -> (r: Vec<(String, Rect)>)
    ensures
        region_views(r@) == region_views(v@),
{
    let mut r: Vec<(String, Rect)> = Vec::new();
    let mut i: usize = 0;
    while i < v.len()
        invariant
            i <= v@.len(),
            r@.len() == i,
            forall|k: int|
                0 <= k < i ==> (#[trigger] r@[k]).0@ == v@[k].0@ && r@[k].1 == v@[k].1,
        decreases v@.len() - i,
    {
        r.push((v[i].0.clone(), v[i].1));
        i += 1;
    }
    assert(region_views(r@) =~= region_views(v@));
    r
}

/// Draws the banner in an area: drops it where it is expired, else lays it out and notes where it
/// can be clicked.
pub fn render_banner(b: &mut BannerState, area: Rect, now: u64) -> (r: Option<BannerLayout>)
    requires
        shown(old(b).message, now) matches Some(m) ==> countable(m.text@),
        area.x + area.width <= u16::MAX,
    ensures
        banner_drawn(*old(b), *final(b), area, now, r),
{
    let drawn: Option<BannerLayout> = match &b.message {
        Some(m) => if m.is_expired(now) {
            None
        } else {
            Some(lay_out_banner(m, area))
        },
        None => None,
    };
    match &drawn {
        Some(l) => {
            b.dismiss_region = Some(l.dismiss_region);
            b.click_regions = copy_regions(&l.click_regions);
        },
        None => {
            b.message = None;
        },
    }
    drawn
}

/// The commands are what is marked: together the spans are the text.
pub proof fn law_banner_spans_text(s: Seq<char>)
    ensures
        crate::style::row_text(banner_spans(s)) == s,
{
    let cmds = slash_commands(s);
    let n = cmds.len() as int;
    lemma_commands_before(s, s.len() as int);
    lemma_command_spans_text(s, n);
    if n == 0 {
        assert(banner_spans(s).drop_last() =~= Seq::<SpanView>::empty());
        assert(crate::style::row_text(Seq::<SpanView>::empty()) =~= Seq::<char>::empty());
        assert(crate::style::row_text(banner_spans(s)) =~= s);
    } else if spans_end(cmds, n) < s.len() {
        assert(banner_spans(s).drop_last() =~= command_spans(s, cmds, n));
        assert(crate::style::row_text(banner_spans(s)) =~= s);
    } else {
        assert(s.take(spans_end(cmds, n)) =~= s);
    }
}

proof fn lemma_command_spans_text(s: Seq<char>, k: int)
    requires
        0 <= k <= slash_commands(s).len(),
    ensures
        0 <= spans_end(slash_commands(s), k) <= s.len(),
        crate::style::row_text(command_spans(s, slash_commands(s), k)) == s.take(
            spans_end(slash_commands(s), k),
        ),
    decreases k,
{
    let cmds = slash_commands(s);
    lemma_commands_before(s, s.len() as int);
    if k > 0 {
        lemma_command_spans_text(s, k - 1);
        let before = command_spans(s, cmds, k - 1);
        let from = spans_end(cmds, k - 1);
        let (start, end) = cmds[k - 1];
        assert(from <= start);
        let plain = if start > from {
            before.push(raw(s.subrange(from, start)))
        } else {
            before
        };
        if start > from {
            assert(plain.drop_last() =~= before);
        }
        assert(crate::style::row_text(plain) =~= s.take(start));
        assert(command_spans(s, cmds, k).drop_last() =~= plain);
        assert(crate::style::row_text(command_spans(s, cmds, k)) =~= s.take(end));
    } else {
        assert(crate::style::row_text(Seq::<SpanView>::empty()) =~= s.take(0));
    }
}

/// The slash commands of a text: each starts at a slash at the start or behind white space, has
/// something behind the slash, and reaches up to the next white space or the end; and every such
/// place is one.
pub proof fn law_slash_commands(s: Seq<char>, to: int, i: int)
    requires
        0 <= to <= s.len(),
    ensures
        forall|k: int|
            0 <= k < commands_before(s, to).len() ==> {
                let (a, b) = #[trigger] commands_before(s, to)[k];
                &&& 0 <= a < to
                &&& a + 1 < b <= s.len()
                &&& s[a] == '/'
                &&& a == 0 || is_space(s[a - 1])
                &&& b == s.len() || is_space(s[b])
                &&& forall|j: int| a < j < b ==> !is_space(#[trigger] s[j])
            },
        0 <= i < to && s[i] == '/' && (i == 0 || is_space(s[i - 1])) && i + 1 < s.len()
            && !is_space(s[i + 1]) ==> exists|k: int|
            0 <= k < commands_before(s, to).len() && (#[trigger] commands_before(s, to)[k]).0 == i,
    decreases to,
{
    if to > 0 {
        law_slash_commands(s, to - 1, i);
        let w = commands_before(s, to - 1);
        let r = commands_before(s, to);
        lemma_word_ends(s, to);
        assert(forall|k: int| 0 <= k < w.len() ==> #[trigger] r[k] == w[k]);
        if command_at(s, to - 1) {
            assert(r[w.len() as int] == (to - 1, word_end(s, to)));
        }
        if 0 <= i < to && s[i] == '/' && (i == 0 || is_space(s[i - 1])) && i + 1 < s.len()
            && !is_space(s[i + 1]) {
            if i == to - 1 {
                assert(r[w.len() as int].0 == i);
            } else {
                let k = choose|k: int| 0 <= k < w.len() && (#[trigger] w[k]).0 == i;
                assert(r[k].0 == i);
            }
        }
    }
}

proof fn lemma_word_ends(s: Seq<char>, i: int)
    requires
        0 <= i <= s.len(),
    ensures
        i <= word_end(s, i) <= s.len(),
        forall|j: int| i <= j < word_end(s, i) ==> !is_space(#[trigger] s[j]),
        word_end(s, i) == s.len() || is_space(s[word_end(s, i)]),
        i < s.len() && !is_space(s[i]) ==> word_end(s, i) > i,
    decreases s.len() - i,
{
    if i < s.len() && !is_space(s[i]) {
        lemma_word_ends(s, i + 1);
    }
}

/// A banner with an action can be clicked everywhere for it; one without, on each of its commands,
/// for that command, in the cells where it stands.
pub proof fn law_banner_regions(m: BannerMessage, area: Rect, k: int)
    ensures
        m.action matches Some(a) ==> banner_regions(m, area).len() == 1 && banner_regions(
            m,
            area,
        )[0].0 == a@ && banner_regions(m, area)[0].1 == area,
        m.action is None ==> banner_regions(m, area).len() == slash_commands(m.text@).len(),
        m.action is None && 0 <= k < slash_commands(m.text@).len() && area.x + m.text@.len() + 2
            <= u16::MAX && area.y + 1 < u16::MAX ==> {
            let (a, b) = slash_commands(m.text@)[k];
            let (text, cells) = banner_regions(m, area)[k];
            &&& text == m.text@.subrange(a, b)
            &&& cells.x == area.x + 2 + a
            &&& cells.width == b - a
            &&& cells.y == area.y + 1
            &&& cells.height == 1
        },
{
    law_slash_commands(m.text@, m.text@.len() as int, 0);
    let cmds = slash_commands(m.text@);
    if m.action is None && 0 <= k < cmds.len() {
        let (a, b) = cmds[k];
        assert(commands_before(m.text@, m.text@.len() as int)[k] == (a, b));
        assert(banner_regions(m, area)[k] == (m.text@.subrange(a, b), command_rect(area, a, b)));
    }
}

/// A banner that is drawn shows its text in full, in front of the mark that dismisses it, and is
/// bordered in the colour of its style. One whose time is over is not drawn, and is gone.
pub proof fn law_banner_is_drawn(
    pre: BannerState,
    post: BannerState,
    area: Rect,
    now: u64,
    r: Option<BannerLayout>,
)
    requires
        banner_drawn(pre, post, area, now, r),
        pre.message is Some,
    ensures
        ({
            let m = pre.message->0;
            let over = !m.persistent && now - m.created_at > BANNER_MESSAGE_DURATION_MS;
            &&& over ==> r is None && post.message is None
            &&& !over ==> {
                let text = crate::style::row_text(r->0.row@);
                &&& r is Some
                &&& post.message == pre.message
                &&& r->0.border == m.style.color()
                &&& text.len() >= m.text@.len() + 3
                &&& text.take(m.text@.len() as int) == m.text@
                &&& text.skip(text.len() - 3) == " x "@
            }
        }),
{
    let m = pre.message->0;
    if !m.expired(now) {
        let s = m.text@;
        let row = r->0.row@;
        let mark = SpanView {
            content: " x "@,
            style: Style { dim: true, ..Style::plain().fg(m.style.color()) },
        };
        let pad = banner_pad(area, s.len());
        let blank = raw(crate::text::blanks(pad));
        let base = banner_spans(s);
        law_banner_spans_text(s);
        reveal_strlit(" x ");
        let none = Seq::<char>::empty();
        if pad > 0 {
            assert(row =~= base + seq![blank] + seq![mark]);
            crate::style::law_row_text(base, seq![blank], blank);
            crate::style::law_row_text(base + seq![blank], seq![mark], mark);
        } else {
            assert(row =~= base + seq![mark]);
            crate::style::law_row_text(base, seq![mark], mark);
        }
        let text = crate::style::row_text(row);
        assert(text.take(s.len() as int) =~= s);
        assert(text.skip(text.len() - 3) =~= " x "@);
    }
}

} // verus!
