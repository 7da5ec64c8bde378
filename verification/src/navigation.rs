//! Scrolling, and moving up and down in lists.

use vstd::prelude::*;
use crate::app::AppState;
use crate::input::is_slash;
use crate::input::starts_slash;
use crate::text::contains;
use crate::text::holds_text;
use crate::text::lower_text;
use crate::types::CommandPaletteState;
use crate::types::DialogApprovalState;
use crate::types::InputState;
use crate::types::MessagesScrollingState;
use crate::types::ProfileSwitcherState;
use crate::types::RulebookSwitcherState;
use crate::types::SessionInfo;
use crate::types::SessionsState;
use crate::types::ShortcutsPanelState;
use crate::types::ShortcutsPopupMode;

verus! {

/// What is measured on the screen.
#[derive(Debug)]
pub struct Measures {
    /// How many rows the conversation has on the screen.
    pub height: usize,
    /// How many rows the conversation takes when it is laid out.
    pub total_lines: usize,
    /// How many of them the last message takes; none where it is not laid out yet.
    pub last_message_lines: usize,
    /// How many rows the collapsed messages take.
    pub collapsed_lines: usize,
    /// How many rows one step scrolls.
    pub step: usize,
    /// How many commands the palette shows.
    pub commands: usize,
}

/// The difference, or zero where the second number is larger.
pub open spec fn less(a: int, b: int) -> int {
    if a > b {
        a - b
    } else {
        0
    }
}

/// The smaller number.
pub open spec fn smaller(a: int, b: int) -> int {
    if a <= b {
        a
    } else {
        b
    }
}

/// The difference, or zero where the second number is larger.
pub fn minus(a: usize, b: usize) -> (r: usize)
    ensures
        r == less(a as int, b as int),
{
    if a > b {
        a - b
    } else {
        0
    }
}

/// The smaller number.
pub fn least(a: usize, b: usize) -> (r: usize)
    ensures
        r == smaller(a as int, b as int),
{
    if a <= b {
        a
    } else {
        b
    }
}

// ----- lists -----

/// The entry above in a list of `n`; above the first, the last.
pub open spec fn above(selected: usize, n: nat) -> int {
    if selected > 0 {
        selected - 1
    } else {
        less(n as int, 1)
    }
}

/// The entry below in a list of `n`; below the last, the first.
pub open spec fn below(selected: usize, n: nat) -> int {
    if selected < less(n as int, 1) {
        selected + 1
    } else {
        0
    }
}

fn go_above(selected: usize, n: usize) -> (r: usize)
    ensures
        r == above(selected, n as nat),
{
    if selected > 0 {
        selected - 1
    } else {
        minus(n, 1)
    }
}

fn go_below(selected: usize, n: usize) -> (r: usize)
    ensures
        r == below(selected, n as nat),
{
    if selected < minus(n, 1) {
        selected + 1
    } else {
        0
    }
}

/// Going down and up again comes back, also over the ends of the list.
pub proof fn law_down_up(selected: usize, n: nat)
    requires
        selected < n <= usize::MAX,
    ensures
        0 <= below(selected, n) < n,
        0 <= above(selected, n) < n,
        above(below(selected, n) as usize, n) == selected,
        below(above(selected, n) as usize, n) == selected,
{
}

/// Where a list of `total` entries of which `visible` are seen has to start for the selected one to
/// be seen.
pub open spec fn kept_visible(selected: int, scroll: int, visible: int, total: int) -> int {
    let s = if selected < scroll {
        selected
    } else if selected >= scroll + visible {
        selected - visible + 1
    } else {
        scroll
    };
    smaller(s, less(total, visible))
}

fn keep_visible(selected: usize, scroll: usize, visible: usize, total: usize) -> (r: usize)
    requires
        visible > 0,
    ensures
        r == kept_visible(selected as int, scroll as int, visible as int, total as int),
{
    let s: usize = if selected < scroll {
        selected
    } else if selected - scroll >= visible {
        selected - visible + 1
    } else {
        scroll
    };
    least(s, minus(total, visible))
}

/// A selected entry of the list is seen.
pub proof fn law_selected_is_seen(selected: int, scroll: int, visible: int, total: int)
    requires
        0 <= selected < total,
        0 <= scroll,
        0 < visible,
    ensures
        ({
            let s = kept_visible(selected, scroll, visible, total);
            0 <= s <= selected < s + visible
        }),
{
}

/// How many slash commands are seen at once.
pub const MAX_VISIBLE_ITEMS: usize = 5;

/// How many commands of the palette are seen at once.
pub const PALETTE_HEIGHT: usize = 6;

/// The input after another of the slash commands was selected.
pub open spec fn helper_chosen(i: InputState, selected: usize) -> InputState {
    let n = i.filtered_helpers@.len() as int;
    InputState {
        helper_selected: selected,
        helper_scroll: if n == 0 {
            i.helper_scroll
        } else {
            kept_visible(
                selected as int,
                i.helper_scroll as int,
                smaller(MAX_VISIBLE_ITEMS as int, n),
                n,
            ) as usize
        },
        ..i
    }
}

fn choose_helper(i: &mut InputState, selected: usize)
    ensures
        *final(i) == helper_chosen(*old(i), selected),
{
    i.helper_selected = selected;
    let n: usize = i.filtered_helpers.len();
    if n > 0 {
        i.helper_scroll = keep_visible(selected, i.helper_scroll, least(MAX_VISIBLE_ITEMS, n), n);
    }
}

/// Whether slash commands can be moved in.
pub open spec fn lists_helpers(i: InputState) -> bool {
    i.filtered_helpers@.len() > 0 && is_slash(i.text_area@.text)
}

/// The input after the key up in its list.
pub open spec fn dropdown_up(i: InputState) -> InputState {
    if i.show_helper_dropdown && i.helper_selected > 0 {
        let k = (i.helper_selected - 1) as usize;
        if i.file_search.is_file_mode {
            InputState { helper_selected: k, ..i }
        } else if lists_helpers(i) {
            helper_chosen(i, k)
        } else {
            i
        }
    } else {
        i
    }
}

/// The input after the key down in its list.
pub open spec fn dropdown_down(i: InputState) -> InputState {
    let k = (i.helper_selected + 1) as usize;
    if !i.show_helper_dropdown {
        i
    } else if i.file_search.is_file_mode {
        if i.helper_selected + 1 < i.file_search.filtered_files@.len() {
            InputState { helper_selected: k, ..i }
        } else {
            i
        }
    } else if lists_helpers(i) && i.helper_selected + 1 < i.filtered_helpers@.len() {
        helper_chosen(i, k)
    } else {
        i
    }
}

/// The key up in the list of the input.
pub fn handle_dropdown_up(state: &mut AppState)
    ensures
        *final(state) == old(state).with_input(dropdown_up(old(state).input_state)),
{
    go_up_in_list(&mut state.input_state);
}

fn go_up_in_list(i: &mut InputState)
    ensures
        *final(i) == dropdown_up(*old(i)),
{
    if i.show_helper_dropdown && i.helper_selected > 0 {
        let k: usize = i.helper_selected - 1;
        if i.file_search.is_active() {
            i.helper_selected = k;
        } else if i.filtered_helpers.len() > 0 && starts_slash(i.text_area.text()) {
            choose_helper(i, k);
        }
    }
}

/// The key down in the list of the input.
pub fn handle_dropdown_down(state: &mut AppState)
    ensures
        *final(state) == old(state).with_input(dropdown_down(old(state).input_state)),
{
    go_down_in_list(&mut state.input_state);
}

fn go_down_in_list(i: &mut InputState)
    ensures
        *final(i) == dropdown_down(*old(i)),
{
    if !i.show_helper_dropdown {
        return;
    }
    let selected: usize = i.helper_selected;
    if i.file_search.is_active() {
        let n: usize = i.file_search.filtered_count();
        if n > 0 && selected < n - 1 {
            i.helper_selected = selected + 1;
        }
    } else {
        let n: usize = i.filtered_helpers.len();
        if n > 0 && starts_slash(i.text_area.text()) && selected < n - 1 {
            choose_helper(i, selected + 1);
        }
    }
}

// ----- sessions -----

/// Whether a session is shown for the search.
pub open spec fn session_found(s: SessionInfo, search: Seq<char>) -> bool {
    search.len() == 0 || holds_text(lower_text(s.title@), lower_text(search))
}

/// The sessions among the first `n` that are shown for the search.
pub open spec fn sessions_found(v: Seq<SessionInfo>, search: Seq<char>, n: int) -> Seq<int>
    decreases n,
{
    if n <= 0 || n > v.len() {
        Seq::empty()
    } else if session_found(v[n - 1], search) {
        sessions_found(v, search, n - 1).push(n - 1)
    } else {
        sessions_found(v, search, n - 1)
    }
}

/// The sessions that are shown for the search.
pub fn find_sessions(v: &Vec<SessionInfo>, search: &str) -> (r: Vec<usize>)
    ensures
        r@.map_values(|i: usize| i as int) == sessions_found(v@, search@, v@.len() as int),
{
    let all: bool = crate::app::is_empty(search);
    let wanted: String = search.to_lowercase();
    let mut r: Vec<usize> = Vec::new();
    let mut i: usize = 0;
    assert(r@.map_values(|i: usize| i as int) =~= Seq::<int>::empty());
    while i < v.len()
        invariant
            i <= v@.len(),
            all == (search@.len() == 0),
            wanted@ == lower_text(search@),
            r@.map_values(|i: usize| i as int) == sessions_found(v@, search@, i as int),
        decreases v@.len() - i,
    {
        let title: String = v[i].title.as_str().to_lowercase();
        if all || contains(title.as_str(), wanted.as_str()) {
            assert(r@.push(i).map_values(|i: usize| i as int) =~= r@.map_values(
                |i: usize| i as int,
            ).push(i as int));
            r.push(i);
        }
        i += 1;
    }
    r
}

/// Where the number stands in the list; at its start where it does not stand there.
pub open spec fn place_of(v: Seq<int>, x: int, k: int) -> int
    decreases v.len() - k,
{
    if k < 0 || k >= v.len() {
        0
    } else if v[k] == x {
        k
    } else {
        place_of(v, x, k + 1)
    }
}

fn find_place(v: &Vec<usize>, x: usize) -> (k: usize)
    ensures
        k == place_of(v@.map_values(|i: usize| i as int), x as int, 0),
        v@.len() > 0 ==> k < v@.len(),
{
    let ghost all = v@.map_values(|i: usize| i as int);
    let mut k: usize = 0;
    while k < v.len()
        invariant
            k <= v@.len(),
            all == v@.map_values(|i: usize| i as int),
            all.len() == v@.len(),
            place_of(all, x as int, 0) == place_of(all, x as int, k as int),
        decreases v@.len() - k,
    {
        assert(all[k as int] == v@[k as int]);
        if v[k] == x {
            return k;
        }
        k += 1;
    }
    0
}

/// The session that is selected after the key up or down.
pub open spec fn session_moved(s: SessionsState, search: Seq<char>, up: bool) -> int {
    let v = sessions_found(s.sessions@, search, s.sessions@.len() as int);
    if v.len() == 0 {
        s.session_selected as int
    } else {
        let k = place_of(v, s.session_selected as int, 0) as usize;
        v[if up {
            above(k, v.len())
        } else {
            below(k, v.len())
        }]
    }
}

fn move_session(s: &mut SessionsState, search: &str, up: bool)
    ensures
        *final(s) == (SessionsState {
            session_selected: session_moved(*old(s), search@, up) as usize,
            ..*old(s)
        }),
{
    let v: Vec<usize> = find_sessions(&s.sessions, search);
    let ghost all = v@.map_values(|i: usize| i as int);
    assert(all.len() == v@.len());
    if v.len() > 0 {
        let k: usize = find_place(&v, s.session_selected);
        let n: usize = v.len();
        let to: usize = if up {
            go_above(k, n)
        } else {
            go_below(k, n)
        };
        assert(to < n);
        assert(all[to as int] == v@[to as int]);
        s.session_selected = v[to];
    }
}

// ----- scrolling -----

/// The conversation with its rows to be laid out anew where it changed out of sight.
pub open spec fn caught_up(m: MessagesScrollingState) -> MessagesScrollingState {
    if m.content_changed_while_scrolled_up {
        MessagesScrollingState {
            lines_stale: true,
            content_changed_while_scrolled_up: false,
            ..m
        }
    } else {
        m
    }
}

fn catch_up(m: &mut MessagesScrollingState)
    ensures
        *final(m) == caught_up(*old(m)),
{
    if m.content_changed_while_scrolled_up {
        m.lines_stale = true;
        m.content_changed_while_scrolled_up = false;
    }
}

/// The conversation after it was scrolled one step up.
pub open spec fn scrolled_up(m: MessagesScrollingState, step: usize) -> MessagesScrollingState {
    if m.show_collapsed_messages {
        MessagesScrollingState {
            collapsed_messages_scroll: less(m.collapsed_messages_scroll as int, step as int) as usize,
            ..m
        }
    } else {
        MessagesScrollingState {
            scroll: less(m.scroll as int, step as int) as usize,
            stay_at_bottom: false,
            ..m
        }
    }
}

fn handle_scroll_up(m: &mut MessagesScrollingState, step: usize)
    ensures
        *final(m) == scrolled_up(*old(m), step),
{
    if m.show_collapsed_messages {
        m.collapsed_messages_scroll = minus(m.collapsed_messages_scroll, step);
    } else {
        m.scroll = minus(m.scroll, step);
        m.stay_at_bottom = false;
    }
}

/// How many rows the conversation takes: as many as when it was last laid out, else as are measured.
pub open spec fn known_lines(m: MessagesScrollingState, measured: usize) -> usize {
    match m.message_lines_cache {
        Some(n) => n,
        None => measured,
    }
}

/// How many rows the collapsed messages take.
pub open spec fn known_collapsed(m: MessagesScrollingState, measured: usize) -> int {
    match m.collapsed_message_lines_cache {
        Some(v) => v@.len() as int,
        None => measured as int,
    }
}

/// The conversation after it was scrolled one step down. At its end, the view follows it from then
/// on.
pub open spec fn scrolled_down(m: MessagesScrollingState, f: Measures) -> MessagesScrollingState {
    if m.show_collapsed_messages {
        let last = less(known_collapsed(m, f.collapsed_lines), f.height as int);
        MessagesScrollingState {
            collapsed_messages_scroll: if m.collapsed_messages_scroll + f.step < last {
                (m.collapsed_messages_scroll + f.step) as usize
            } else {
                last as usize
            },
            ..m
        }
    } else {
        let last = less(known_lines(m, f.total_lines) as int, f.height as int);
        if m.scroll + f.step < last {
            MessagesScrollingState {
                scroll: (m.scroll + f.step) as usize,
                stay_at_bottom: false,
                ..m
            }
        } else {
            caught_up(
                MessagesScrollingState { scroll: last as usize, stay_at_bottom: true, ..m },
            )
        }
    }
}

fn handle_scroll_down(m: &mut MessagesScrollingState, f: &Measures)
    ensures
        *final(m) == scrolled_down(*old(m), *f),
{
    if m.show_collapsed_messages {
        let total: usize = match &m.collapsed_message_lines_cache {
            Some(v) => v.len(),
            None => f.collapsed_lines,
        };
        let last: usize = minus(total, f.height);
        let at: usize = m.collapsed_messages_scroll;
        m.collapsed_messages_scroll = if at < last && f.step < last - at {
            at + f.step
        } else {
            last
        };
        return;
    }
    let total: usize = match m.message_lines_cache {
        Some(n) => n,
        None => f.total_lines,
    };
    let last: usize = minus(total, f.height);
    let at: usize = m.scroll;
    if at < last && f.step < last - at {
        m.scroll = at + f.step;
        m.stay_at_bottom = false;
    } else {
        m.scroll = last;
        m.stay_at_bottom = true;
        catch_up(m);
    }
}

/// The conversation after it was scrolled one page up.
pub open spec fn paged_up(m: MessagesScrollingState, height: usize) -> MessagesScrollingState {
    let page = if height > 4 {
        height - 3
    } else {
        1
    };
    MessagesScrollingState {
        scroll: less(m.scroll as int, page) as usize,
        stay_at_bottom: false,
        ..m
    }
}

/// One page up. The position is adjusted to the rows afterwards.
pub fn handle_page_up(m: &mut MessagesScrollingState, message_area_height: usize)
    ensures
        *final(m) == paged_up(*old(m), message_area_height),
{
    let page: usize = if message_area_height > 4 {
        message_area_height - 3
    } else {
        1
    };
    m.stay_at_bottom = false;
    m.scroll = minus(m.scroll, page);
}

/// The conversation after it was scrolled one page down.
pub open spec fn paged_down(m: MessagesScrollingState, f: Measures) -> MessagesScrollingState {
    let last = less(known_lines(m, f.total_lines) as int, f.height as int);
    let page = if f.height > 1 {
        f.height as int
    } else {
        1
    };
    if m.scroll < last {
        let s = smaller(m.scroll + page, last);
        if s == last {
            caught_up(MessagesScrollingState { scroll: s as usize, stay_at_bottom: true, ..m })
        } else {
            MessagesScrollingState { scroll: s as usize, stay_at_bottom: false, ..m }
        }
    } else {
        MessagesScrollingState { stay_at_bottom: true, ..m }
    }
}

/// One page down. The position is adjusted to the rows afterwards.
pub fn handle_page_down(m: &mut MessagesScrollingState, f: &Measures)
    ensures
        *final(m) == paged_down(*old(m), *f),
{
    let total: usize = match m.message_lines_cache {
        Some(n) => n,
        None => f.total_lines,
    };
    let last: usize = minus(total, f.height);
    let page: usize = if f.height > 1 {
        f.height
    } else {
        1
    };
    if m.scroll < last {
        if page >= last - m.scroll {
            m.scroll = last;
            m.stay_at_bottom = true;
            catch_up(m);
        } else {
            m.scroll = m.scroll + page;
            m.stay_at_bottom = false;
        }
    } else {
        m.stay_at_bottom = true;
    }
}

/// The conversation one frame later: the view follows the end again once no frame blocks it.
pub open spec fn frame_passed(m: MessagesScrollingState) -> MessagesScrollingState {
    if m.block_stay_at_bottom_frames > 0 {
        let left = (m.block_stay_at_bottom_frames - 1) as u8;
        MessagesScrollingState {
            block_stay_at_bottom_frames: left,
            scroll_lines_from_end: if left == 0 {
                None
            } else {
                m.scroll_lines_from_end
            },
            ..m
        }
    } else {
        m
    }
}

fn pass_frame(m: &mut MessagesScrollingState)
    ensures
        *final(m) == frame_passed(*old(m)),
{
    if m.block_stay_at_bottom_frames > 0 {
        let left: u8 = m.block_stay_at_bottom_frames - 1;
        m.block_stay_at_bottom_frames = left;
        if left == 0 {
            m.scroll_lines_from_end = None;
        }
    }
}

/// For how many frames the start of the last message stays in view.
pub const BLOCKED_FRAMES: u8 = 10;

/// The conversation with the start of its last message in view, two rows below the top where they
/// fit; while the message is not laid out, nothing moves.
pub open spec fn message_start_shown(m: MessagesScrollingState, total: int, last: int, end: int)
    -> MessagesScrollingState {
    if last == 0 {
        MessagesScrollingState { stay_at_bottom: false, ..m }
    } else {
        let target = less(less(total, last), 2);
        MessagesScrollingState {
            scroll_lines_from_end: Some(less(total, target) as usize),
            scroll: smaller(target, end) as usize,
            scroll_to_last_message_start: false,
            block_stay_at_bottom_frames: BLOCKED_FRAMES,
            stay_at_bottom: false,
            ..m
        }
    }
}

fn show_message_start(m: &mut MessagesScrollingState, total: usize, last: usize, end: usize)
    ensures
        *final(m) == message_start_shown(*old(m), total as int, last as int, end as int),
{
    if last != 0 {
        let target: usize = minus(minus(total, last), 2);
        m.scroll_lines_from_end = Some(minus(total, target));
        m.scroll = least(target, end);
        m.scroll_to_last_message_start = false;
        m.block_stay_at_bottom_frames = BLOCKED_FRAMES;
    }
    m.stay_at_bottom = false;
}

/// The conversation with its position fitted to its rows: at the start of the last message where
/// that is asked for, at a fixed distance from the end for some frames after it, at the end where
/// the view follows it, and never behind the end.
pub open spec fn adjusted(m: MessagesScrollingState, f: Measures) -> MessagesScrollingState {
    let n = frame_passed(m);
    let total = f.total_lines as int;
    let end = less(total, f.height as int);
    if n.scroll_to_last_message_start {
        message_start_shown(n, total, f.last_message_lines as int, end)
    } else if n.block_stay_at_bottom_frames > 0 {
        MessagesScrollingState {
            scroll: smaller(
                match n.scroll_lines_from_end {
                    Some(d) => less(total, d as int),
                    None => n.scroll as int,
                },
                end,
            ) as usize,
            ..n
        }
    } else if n.stay_at_bottom {
        MessagesScrollingState { scroll: end as usize, ..n }
    } else if n.scroll_to_bottom {
        MessagesScrollingState { scroll: end as usize, scroll_to_bottom: false, ..n }
    } else {
        MessagesScrollingState { scroll: smaller(n.scroll as int, end) as usize, ..n }
    }
}

/// Fits the position of the conversation to its rows.
pub fn adjust_scroll(m: &mut MessagesScrollingState, f: &Measures)
    ensures
        *final(m) == adjusted(*old(m), *f),
{
    let total: usize = f.total_lines;
    let end: usize = minus(total, f.height);
    pass_frame(m);
    if m.scroll_to_last_message_start {
        show_message_start(m, total, f.last_message_lines, end);
    } else if m.block_stay_at_bottom_frames > 0 {
        let target: usize = match m.scroll_lines_from_end {
            Some(d) => minus(total, d),
            None => m.scroll,
        };
        m.scroll = least(target, end);
    } else if m.stay_at_bottom {
        m.scroll = end;
    } else if m.scroll_to_bottom {
        m.scroll = end;
        m.scroll_to_bottom = false;
    } else {
        m.scroll = least(m.scroll, end);
    }
}

/// The view never starts behind the point from which the end is seen, but where it waits for the
/// last message to be laid out.
pub proof fn law_view_in_range(m: MessagesScrollingState, f: Measures)
    ensures
        !(m.scroll_to_last_message_start && f.last_message_lines == 0) ==> adjusted(m, f).scroll
            <= less(f.total_lines as int, f.height as int),
{
}

/// A view that follows the end sees it.
pub proof fn law_end_followed(m: MessagesScrollingState, f: Measures)
    requires
        m.stay_at_bottom,
        !m.scroll_to_last_message_start,
        m.block_stay_at_bottom_frames <= 1,
    ensures
        adjusted(m, f).scroll == less(f.total_lines as int, f.height as int),
        adjusted(m, f).stay_at_bottom,
{
}

/// Where nothing is asked for and no frame blocks, adjusting twice is adjusting once.
pub proof fn law_adjust_settles(m: MessagesScrollingState, f: Measures)
    requires
        !m.scroll_to_last_message_start,
        m.block_stay_at_bottom_frames == 0,
        !m.scroll_to_bottom || m.stay_at_bottom,
    ensures
        adjusted(adjusted(m, f), f) == adjusted(m, f),
{
}

// ----- up and down -----

/// The palette after another entry was selected.
pub open spec fn palette_at(p: CommandPaletteState, selected: int, n: usize)
    -> CommandPaletteState {
    CommandPaletteState {
        is_selected: selected as usize,
        scroll: if n == 0 {
            p.scroll
        } else {
            kept_visible(selected, p.scroll as int, PALETTE_HEIGHT as int, n as int) as usize
        },
        ..p
    }
}

fn select_in_palette(p: &mut CommandPaletteState, selected: usize, n: usize)
    ensures
        *final(p) == palette_at(*old(p), selected as int, n),
{
    p.is_selected = selected;
    if n > 0 {
        p.scroll = keep_visible(selected, p.scroll, PALETTE_HEIGHT, n);
    }
}

/// What the key up or down does in the shortcuts popup.
pub open spec fn shortcuts_moved(s: AppState, f: Measures, up: bool) -> AppState {
    let p = s.command_palette_state;
    match s.shortcuts_panel_state.mode {
        ShortcutsPopupMode::Commands => AppState {
            command_palette_state: palette_at(
                p,
                if up {
                    above(p.is_selected, f.commands as nat)
                } else {
                    below(p.is_selected, f.commands as nat)
                },
                f.commands,
            ),
            ..s
        },
        ShortcutsPopupMode::Shortcuts => AppState {
            shortcuts_panel_state: ShortcutsPanelState {
                scroll: if up {
                    less(s.shortcuts_panel_state.scroll as int, f.step as int)
                } else {
                    smaller(s.shortcuts_panel_state.scroll + f.step, usize::MAX as int)
                } as usize,
                ..s.shortcuts_panel_state
            },
            ..s
        },
        ShortcutsPopupMode::Sessions => AppState {
            sessions_state: SessionsState {
                session_selected: session_moved(s.sessions_state, p.search@, up) as usize,
                ..s.sessions_state
            },
            ..s
        },
    }
}

fn move_in_shortcuts(state: &mut AppState, f: &Measures, up: bool)
    ensures
        *final(state) == shortcuts_moved(*old(state), *f, up),
{
    match state.shortcuts_panel_state.mode {
        ShortcutsPopupMode::Commands => {
            let k: usize = state.command_palette_state.is_selected;
            let to: usize = if up {
                go_above(k, f.commands)
            } else {
                go_below(k, f.commands)
            };
            select_in_palette(&mut state.command_palette_state, to, f.commands);
        },
        ShortcutsPopupMode::Shortcuts => {
            let at: usize = state.shortcuts_panel_state.scroll;
            let to: usize = if up {
                minus(at, f.step)
            } else if f.step > usize::MAX - at {
                usize::MAX
            } else {
                at + f.step
            };
            state.shortcuts_panel_state.scroll = to;
        },
        ShortcutsPopupMode::Sessions => {
            let search: String = state.command_palette_state.search.clone();
            move_session(&mut state.sessions_state, search.as_str(), up);
        },
    }
}

/// How many options the dialog has.
pub const DIALOG_OPTIONS: usize = 3;

/// What the key up or down does.
pub open spec fn moved(s: AppState, f: Measures, up: bool) -> AppState {
    let p = s.profile_switcher_state;
    let r = s.rulebook_switcher_state;
    let d = s.dialog_approval_state;
    if p.show_profile_switcher {
        AppState {
            profile_switcher_state: ProfileSwitcherState {
                selected_index: if up {
                    above(p.selected_index, p.available_profiles@.len())
                } else {
                    below(p.selected_index, p.available_profiles@.len())
                } as usize,
                ..p
            },
            ..s
        }
    } else if s.shortcuts_panel_state.is_visible {
        shortcuts_moved(s, f, up)
    } else if r.show_rulebook_switcher {
        AppState {
            rulebook_switcher_state: RulebookSwitcherState {
                is_selected: if up {
                    above(r.is_selected, r.filtered_rulebooks@.len())
                } else {
                    below(r.is_selected, r.filtered_rulebooks@.len())
                } as usize,
                ..r
            },
            ..s
        }
    } else if s.input_state.show_helper_dropdown {
        s.with_input(
            if up {
                dropdown_up(s.input_state)
            } else {
                dropdown_down(s.input_state)
            },
        )
    } else if d.is_dialog_open && d.dialog_focused {
        AppState {
            dialog_approval_state: DialogApprovalState {
                dialog_selected: if up {
                    above(d.dialog_selected, DIALOG_OPTIONS as nat)
                } else {
                    below(d.dialog_selected, DIALOG_OPTIONS as nat)
                } as usize,
                ..d
            },
            ..s
        }
    } else {
        s.with_messages(
            if up {
                scrolled_up(s.messages_scrolling_state, f.step)
            } else {
                scrolled_down(s.messages_scrolling_state, f)
            },
        )
    }
}

/// The key up.
pub fn handle_up_navigation(state: &mut AppState, f: &Measures)
    ensures
        *final(state) == moved(*old(state), *f, true),
{
    if state.profile_switcher_state.show_profile_switcher {
        let n: usize = state.profile_switcher_state.available_profiles.len();
        let to: usize = go_above(state.profile_switcher_state.selected_index, n);
        state.profile_switcher_state.selected_index = to;
    } else if state.shortcuts_panel_state.is_visible {
        move_in_shortcuts(state, f, true);
    } else if state.rulebook_switcher_state.show_rulebook_switcher {
        let n: usize = state.rulebook_switcher_state.filtered_rulebooks.len();
        let to: usize = go_above(state.rulebook_switcher_state.is_selected, n);
        state.rulebook_switcher_state.is_selected = to;
    } else if state.input_state.show_helper_dropdown {
        handle_dropdown_up(state);
    } else if state.dialog_approval_state.is_dialog_open
        && state.dialog_approval_state.dialog_focused {
        let to: usize = go_above(state.dialog_approval_state.dialog_selected, DIALOG_OPTIONS);
        state.dialog_approval_state.dialog_selected = to;
    } else {
        handle_scroll_up(&mut state.messages_scrolling_state, f.step);
    }
}

/// The key down.
pub fn handle_down_navigation(state: &mut AppState, f: &Measures)
    ensures
        *final(state) == moved(*old(state), *f, false),
{
    if state.profile_switcher_state.show_profile_switcher {
        let n: usize = state.profile_switcher_state.available_profiles.len();
        let to: usize = go_below(state.profile_switcher_state.selected_index, n);
        state.profile_switcher_state.selected_index = to;
    } else if state.shortcuts_panel_state.is_visible {
        move_in_shortcuts(state, f, false);
    } else if state.rulebook_switcher_state.show_rulebook_switcher {
        let n: usize = state.rulebook_switcher_state.filtered_rulebooks.len();
        let to: usize = go_below(state.rulebook_switcher_state.is_selected, n);
        state.rulebook_switcher_state.is_selected = to;
    } else if state.input_state.show_helper_dropdown {
        handle_dropdown_down(state);
    } else if state.dialog_approval_state.is_dialog_open
        && state.dialog_approval_state.dialog_focused {
        let to: usize = go_below(state.dialog_approval_state.dialog_selected, DIALOG_OPTIONS);
        state.dialog_approval_state.dialog_selected = to;
    } else {
        handle_scroll_down(&mut state.messages_scrolling_state, f);
    }
}

/// The view goes down by a step, but not beyond the last row, and follows the end once it is there;
/// it goes up by a step, but not beyond the first row, and no longer follows the end.
pub proof fn law_view_moves_by_a_step(m: MessagesScrollingState, f: Measures, step: usize)
    requires
        !m.show_collapsed_messages,
        m.message_lines_cache is None,
    ensures
        m.scroll >= step ==> scrolled_up(m, step).scroll == m.scroll - step,
        m.scroll < step ==> scrolled_up(m, step).scroll == 0,
        !scrolled_up(m, step).stay_at_bottom,
        scrolled_up(m, step).messages == m.messages,
        f.total_lines > f.height && m.scroll + f.step < f.total_lines - f.height ==> {
            &&& scrolled_down(m, f).scroll == m.scroll + f.step
            &&& !scrolled_down(m, f).stay_at_bottom
        },
        f.total_lines > f.height && m.scroll + f.step >= f.total_lines - f.height ==> {
            &&& scrolled_down(m, f).scroll == f.total_lines - f.height
            &&& scrolled_down(m, f).stay_at_bottom
        },
        f.total_lines <= f.height ==> scrolled_down(m, f).scroll == 0,
        scrolled_down(m, f).messages == m.messages,
{
}

/// A page down moves the view by the height of the screen, but not beyond the last row; a page up by
/// three rows less, at least one, but not beyond the first row.
pub proof fn law_view_moves_by_a_page(m: MessagesScrollingState, f: Measures, height: usize)
    requires
        m.message_lines_cache is None,
        f.height > 1,
        height > 4,
    ensures
        m.scroll >= height - 3 ==> paged_up(m, height).scroll == m.scroll - (height - 3),
        m.scroll < height - 3 ==> paged_up(m, height).scroll == 0,
        !paged_up(m, height).stay_at_bottom,
        f.total_lines > f.height && m.scroll < f.total_lines - f.height ==> {
            &&& m.scroll + f.height <= f.total_lines - f.height ==> paged_down(m, f).scroll
                == m.scroll + f.height
            &&& m.scroll + f.height > f.total_lines - f.height ==> paged_down(m, f).scroll
                == f.total_lines - f.height
            &&& paged_down(m, f).stay_at_bottom <==> paged_down(m, f).scroll == f.total_lines
                - f.height
        },
        m.scroll >= f.total_lines - f.height ==> paged_down(m, f).scroll == m.scroll
            && paged_down(m, f).stay_at_bottom,
{
}

/// The sessions that a search shows are those whose title holds it, whatever the case, in their
/// order, and all without a search.
pub proof fn law_sessions_found(v: Seq<SessionInfo>, search: Seq<char>, n: int)
    requires
        0 <= n < v.len(),
    ensures
        search.len() == 0 || holds_text(lower_text(v[n].title@), lower_text(search))
            ==> sessions_found(v, search, n + 1) == sessions_found(v, search, n).push(n),
        search.len() > 0 && !holds_text(lower_text(v[n].title@), lower_text(search))
            ==> sessions_found(v, search, n + 1) == sessions_found(v, search, n),
        sessions_found(v, search, 0).len() == 0,
{
}

/// The list of the input: up and down move by one entry and stop at its ends, and nothing else of
/// the input changes but how far the list is scrolled.
pub proof fn law_list_moves_by_one(i: InputState)
    requires
        i.show_helper_dropdown,
        i.file_search.is_file_mode,
        i.helper_selected < usize::MAX,
    ensures
        i.helper_selected > 0 ==> dropdown_up(i).helper_selected == i.helper_selected - 1,
        i.helper_selected == 0 ==> dropdown_up(i) == i,
        i.helper_selected + 1 < i.file_search.filtered_files@.len() ==> dropdown_down(
            i,
        ).helper_selected == i.helper_selected + 1,
        i.helper_selected + 1 >= i.file_search.filtered_files@.len() ==> dropdown_down(i) == i,
        dropdown_up(i).text_area == i.text_area,
        dropdown_down(i).text_area == i.text_area,
        dropdown_down(i).file_search == i.file_search,
{
}

/// Up and down move what is in front and nothing else: a popup's entry, the list of the input, or the
/// view.
pub proof fn law_only_the_front_moves(s: AppState, f: Measures, up: bool)
    ensures
        ({
            let t = moved(s, f, up);
            &&& s.profile_switcher_state.show_profile_switcher ==> {
                &&& t.messages_scrolling_state == s.messages_scrolling_state
                &&& t.input_state == s.input_state
                &&& t.rulebook_switcher_state == s.rulebook_switcher_state
            }
            &&& !s.profile_switcher_state.show_profile_switcher
                && !s.shortcuts_panel_state.is_visible
                && s.rulebook_switcher_state.show_rulebook_switcher ==> {
                &&& t.messages_scrolling_state == s.messages_scrolling_state
                &&& t.input_state == s.input_state
                &&& t.rulebook_switcher_state.selected_rulebooks
                    == s.rulebook_switcher_state.selected_rulebooks
            }
            &&& !s.profile_switcher_state.show_profile_switcher
                && !s.shortcuts_panel_state.is_visible
                && !s.rulebook_switcher_state.show_rulebook_switcher
                && s.input_state.show_helper_dropdown ==> t.messages_scrolling_state
                == s.messages_scrolling_state
            &&& !s.profile_switcher_state.show_profile_switcher
                && !s.shortcuts_panel_state.is_visible
                && !s.rulebook_switcher_state.show_rulebook_switcher
                && !s.input_state.show_helper_dropdown
                && !s.dialog_approval_state.is_dialog_open
                && !s.messages_scrolling_state.show_collapsed_messages ==> {
                &&& t.input_state == s.input_state
                &&& up ==> t.messages_scrolling_state.scroll <= s.messages_scrolling_state.scroll
                &&& t.messages_scrolling_state.messages == s.messages_scrolling_state.messages
            }
        }),
{
}

} // verus!
