//! Selecting text with the mouse: in the conversation, among the collapsed messages and in the input.

use vstd::prelude::*;
use crate::app::AppState;
use crate::events::Effect;
use crate::events::Outbox;
use crate::navigation::less;
use crate::navigation::minus;
use crate::navigation::smaller;
use crate::style::Line;
use crate::style::SpanView;
use crate::style::columns_of;
use crate::style::display_width;
use crate::style::line_views;
use crate::textarea::TextAreaView;
use crate::types::LineOwner;
use crate::types::MessageInteractionState;
use crate::types::MessagesScrollingState;
use crate::types::SelectionState;
use crate::types::Toast;

verus! {

// ----- cells and lines -----

/// Whether the cell lies in the input.
pub open spec fn in_input(s: AppState, col: u16, row: u16) -> bool {
    s.message_interaction_state.input_content_area matches Some(a) && a.holds(col, row)
}

fn is_in_input_area(state: &AppState, col: u16, row: u16) -> (r: bool)
    ensures
        r == in_input(*state, col, row),
{
    match &state.message_interaction_state.input_content_area {
        Some(a) => a.contains(col, row),
        None => false,
    }
}

/// The sum, as far as the machine counts.
pub open spec fn sum(a: int, b: int) -> usize {
    if a + b > usize::MAX {
        usize::MAX
    } else {
        (a + b) as usize
    }
}

fn plus(a: usize, b: usize) -> (r: usize)
    ensures
        r == sum(a as int, b as int),
{
    if a > usize::MAX - b {
        usize::MAX
    } else {
        a + b
    }
}

/// A selection that starts and ends in one place.
pub open spec fn begun(line: usize, col: u16) -> SelectionState {
    SelectionState {
        active: true,
        start_line: Some(line),
        start_col: Some(col),
        end_line: Some(line),
        end_col: Some(col),
    }
}

/// The selection with another end.
pub open spec fn ended_at(s: SelectionState, line: usize, col: u16) -> SelectionState {
    SelectionState { end_line: Some(line), end_col: Some(col), ..s }
}

/// Lines on the screen: the first row and column, how many rows they take, and which line is in the
/// first row.
pub struct Pane {
    pub x: u16,
    pub y: u16,
    pub height: u16,
    pub scroll: usize,
}

impl Pane {
    /// How many rows below the first one a row is.
    pub open spec fn depth(self, row: u16) -> int {
        less(row as int, self.y as int)
    }

    /// Whether the row shows a line of the pane.
    pub open spec fn shows(self, row: u16) -> bool {
        row >= self.y && self.depth(row) < self.height
    }

    /// The column in the pane.
    pub open spec fn column(self, col: u16) -> u16 {
        less(col as int, self.x as int) as u16
    }

    /// The line in the row.
    pub open spec fn line(self, row: u16) -> usize {
        sum(self.scroll as int, self.depth(row))
    }

    /// The line in the row, or in the last row where the row is below it.
    pub open spec fn nearest_line(self, row: u16) -> usize {
        sum(self.scroll as int, smaller(self.depth(row), less(self.height as int, 1)))
    }

    /// What starts to be selected in the cell.
    pub open spec fn begun_at(self, col: u16, row: u16) -> SelectionState {
        if self.shows(row) {
            begun(self.line(row), self.column(col))
        } else {
            SelectionState::none()
        }
    }

    fn get_column(&self, col: u16) -> (r: u16)
        ensures
            r == self.column(col),
    {
        if col > self.x {
            col - self.x
        } else {
            0
        }
    }

    fn get_line(&self, row: u16) -> (r: usize)
        ensures
            r == self.line(row),
    {
        plus(self.scroll, minus(row as usize, self.y as usize))
    }

    fn get_nearest_line(&self, row: u16) -> (r: usize)
        ensures
            r == self.nearest_line(row),
    {
        let depth: usize = minus(row as usize, self.y as usize);
        let last: usize = minus(self.height as usize, 1);
        plus(
            self.scroll,
            if depth <= last {
                depth
            } else {
                last
            },
        )
    }

    fn begin_at(&self, col: u16, row: u16) -> (r: SelectionState)
        ensures
            r == self.begun_at(col, row),
    {
        if row < self.y || row - self.y >= self.height {
            return SelectionState::none();
        }
        let line: usize = self.get_line(row);
        let col: u16 = self.get_column(col);
        SelectionState {
            active: true,
            start_line: Some(line),
            start_col: Some(col),
            end_line: Some(line),
            end_col: Some(col),
        }
    }
}

/// The conversation on the screen.
pub open spec fn message_pane(s: AppState) -> Pane {
    let i = s.message_interaction_state;
    Pane {
        x: i.message_area_x,
        y: i.message_area_y,
        height: i.message_area_height,
        scroll: s.messages_scrolling_state.scroll,
    }
}

/// The collapsed messages on the screen.
pub open spec fn collapsed_pane(s: AppState) -> Pane {
    let i = s.message_interaction_state;
    Pane {
        x: i.collapsed_popup_area_x,
        y: i.collapsed_popup_area_y,
        height: i.collapsed_popup_area_height,
        scroll: s.messages_scrolling_state.collapsed_messages_scroll,
    }
}

fn get_message_pane(state: &AppState) -> (r: Pane)
    ensures
        r == message_pane(*state),
{
    Pane {
        x: state.message_interaction_state.message_area_x,
        y: state.message_interaction_state.message_area_y,
        height: state.message_interaction_state.message_area_height,
        scroll: state.messages_scrolling_state.scroll,
    }
}

fn get_collapsed_pane(state: &AppState) -> (r: Pane)
    ensures
        r == collapsed_pane(*state),
{
    Pane {
        x: state.message_interaction_state.collapsed_popup_area_x,
        y: state.message_interaction_state.collapsed_popup_area_y,
        height: state.message_interaction_state.collapsed_popup_area_height,
        scroll: state.messages_scrolling_state.collapsed_messages_scroll,
    }
}

/// How wide the side panel is.
pub const SIDE_PANEL_WIDTH: u16 = 32;

/// How many columns the conversation has beside the side panel.
pub open spec fn main_width(s: AppState) -> int {
    less(s.terminal_ui_state.terminal_size.width as int, SIDE_PANEL_WIDTH + 1)
}

fn get_main_width(state: &AppState) -> (r: u16)
    ensures
        r == main_width(*state),
{
    let width: u16 = state.terminal_ui_state.terminal_size.width;
    if width > SIDE_PANEL_WIDTH + 1 {
        width - (SIDE_PANEL_WIDTH + 1)
    } else {
        0
    }
}

/// The state with another interaction.
pub open spec fn with_interaction(s: AppState, i: MessageInteractionState) -> AppState {
    AppState { message_interaction_state: i, ..s }
}

/// The interaction with another selection, which is not scrolled by itself.
pub open spec fn selection_set(i: MessageInteractionState, s: SelectionState)
    -> MessageInteractionState {
    MessageInteractionState { selection: s, selection_auto_scroll: 0, ..i }
}

fn set_selection(i: &mut MessageInteractionState, s: SelectionState)
    ensures
        *final(i) == selection_set(*old(i), s),
{
    i.selection = s;
    i.selection_auto_scroll = 0;
}

// ----- starting -----

/// What starts to be selected in a cell of the conversation: nothing below it or in the side panel.
pub open spec fn message_begun(s: AppState, col: u16, row: u16) -> SelectionState {
    if s.side_panel_state.is_shown && col >= main_width(s) {
        SelectionState::none()
    } else {
        message_pane(s).begun_at(col, row)
    }
}

/// What pressing the mouse does to the selection.
pub open spec fn drag_started(
    pre: AppState,
    post: AppState,
    col: u16,
    row: u16,
    sent: Outbox,
    out: Outbox,
) -> bool {
    let i = pre.message_interaction_state;
    let t = post.input_state.text_area;
    if pre.messages_scrolling_state.show_collapsed_messages {
        &&& post == with_interaction(
            pre,
            selection_set(i, collapsed_pane(pre).begun_at(col, row)),
        )
        &&& out == sent
    } else if in_input(pre, col, row) {
        &&& post == with_interaction(
            pre.with_text(t),
            selection_set(i, SelectionState::none()),
        )
        &&& t@ == (TextAreaView { selecting: true, ..pre.input_state.text_area@ })
        &&& sent.affects(out, |e: Effect| e == Effect::SelectInput(col, row))
    } else {
        &&& post == with_interaction(
            pre.with_text(t),
            selection_set(i, message_begun(pre, col, row)),
        )
        &&& t@ == (TextAreaView { selecting: false, ..pre.input_state.text_area@ })
        &&& out == sent
    }
}

fn begin_message(state: &AppState, col: u16, row: u16) -> (r: SelectionState)
    ensures
        r == message_begun(*state, col, row),
{
    if state.side_panel_state.is_shown && col >= get_main_width(state) {
        SelectionState::none()
    } else {
        get_message_pane(state).begin_at(col, row)
    }
}

/// The mouse was pressed.
pub fn handle_drag_start(state: &mut AppState, col: u16, row: u16, out: &mut Outbox)
    ensures
        drag_started(*old(state), *final(state), col, row, *old(out), *final(out)),
{
    if state.messages_scrolling_state.show_collapsed_messages {
        let s: SelectionState = get_collapsed_pane(state).begin_at(col, row);
        set_selection(&mut state.message_interaction_state, s);
        return;
    }
    if is_in_input_area(state, col, row) {
        state.input_state.text_area.set_selecting(true);
        out.ask(Effect::SelectInput(col, row));
        set_selection(&mut state.message_interaction_state, SelectionState::none());
        return;
    }
    let s: SelectionState = begin_message(state, col, row);
    state.input_state.text_area.set_selecting(false);
    set_selection(&mut state.message_interaction_state, s);
}

// ----- going on -----

/// How many lines the conversation has.
pub open spec fn line_count(m: MessagesScrollingState) -> int {
    match m.assembled_lines_cache {
        Some(v) => v@.len() as int,
        None => 0,
    }
}

fn count_lines(m: &MessagesScrollingState) -> (n: usize)
    ensures
        n == line_count(*m),
{
    match &m.assembled_lines_cache {
        Some(v) => v.len(),
        None => 0,
    }
}

/// The furthest that the conversation can be scrolled.
pub open spec fn furthest(s: AppState) -> int {
    less(
        line_count(s.messages_scrolling_state),
        s.message_interaction_state.message_area_height as int,
    )
}

fn find_furthest(state: &AppState) -> (n: usize)
    ensures
        n == furthest(*state),
{
    minus(
        count_lines(&state.messages_scrolling_state),
        state.message_interaction_state.message_area_height as usize,
    )
}

/// The interaction while the mouse is dragged over the conversation: at its upper or lower edge the
/// view scrolls by itself, where there is more to see; else the selection ends in the cell.
pub open spec fn message_dragged(s: AppState, col: u16, row: u16) -> MessageInteractionState {
    let i = s.message_interaction_state;
    let p = message_pane(s);
    let bottom = p.y + p.height;
    if row <= p.y && p.scroll > 0 {
        MessageInteractionState {
            selection: ended_at(i.selection, p.scroll, p.column(col)),
            selection_auto_scroll: (0 - 1) as i32,
            ..i
        }
    } else if p.height > 0 && row >= bottom - 1 && p.scroll < furthest(s) {
        MessageInteractionState {
            selection: ended_at(
                i.selection,
                sum(p.scroll as int, p.height - 1),
                p.column(col),
            ),
            selection_auto_scroll: 1,
            ..i
        }
    } else {
        let edge = less(main_width(s), 1);
        let col = if s.side_panel_state.is_shown && col > edge {
            edge as u16
        } else {
            col
        };
        selection_set(i, ended_at(i.selection, p.nearest_line(row), p.column(col)))
    }
}

/// The interaction while the mouse is dragged over the collapsed messages.
pub open spec fn collapsed_dragged(s: AppState, col: u16, row: u16) -> MessageInteractionState {
    let i = s.message_interaction_state;
    let p = collapsed_pane(s);
    if i.selection.active {
        MessageInteractionState {
            selection: ended_at(i.selection, p.nearest_line(row), p.column(col)),
            ..i
        }
    } else {
        i
    }
}

/// What dragging the mouse does.
pub open spec fn dragged(
    pre: AppState,
    post: AppState,
    col: u16,
    row: u16,
    sent: Outbox,
    out: Outbox,
) -> bool {
    let i = pre.message_interaction_state;
    if pre.messages_scrolling_state.show_collapsed_messages {
        post == with_interaction(pre, collapsed_dragged(pre, col, row)) && out == sent
    } else if pre.input_state.text_area@.selecting {
        &&& post == pre
        &&& if i.input_content_area is Some {
            sent.affects(out, |e: Effect| e == Effect::ExtendInput(col, row))
        } else {
            out == sent
        }
    } else if i.selection.active {
        post == with_interaction(pre, message_dragged(pre, col, row)) && out == sent
    } else {
        post == pre && out == sent
    }
}

fn end_at(i: &mut MessageInteractionState, line: usize, col: u16, scroll: i32)
    ensures
        *final(i) == (MessageInteractionState {
            selection: ended_at(old(i).selection, line, col),
            selection_auto_scroll: scroll,
            ..*old(i)
        }),
{
    i.selection.end_line = Some(line);
    i.selection.end_col = Some(col);
    i.selection_auto_scroll = scroll;
}

fn handle_popup_drag(state: &mut AppState, col: u16, row: u16)
    ensures
        *final(state) == with_interaction(*old(state), collapsed_dragged(*old(state), col, row)),
{
    if state.message_interaction_state.selection.active {
        let p: Pane = get_collapsed_pane(state);
        let line: usize = p.get_nearest_line(row);
        let col: u16 = p.get_column(col);
        let scroll: i32 = state.message_interaction_state.selection_auto_scroll;
        end_at(&mut state.message_interaction_state, line, col, scroll);
    }
}

fn drag_message(state: &mut AppState, col: u16, row: u16)
    ensures
        *final(state) == with_interaction(*old(state), message_dragged(*old(state), col, row)),
{
    let p: Pane = get_message_pane(state);
    if row <= p.y && p.scroll > 0 {
        let col: u16 = p.get_column(col);
        end_at(&mut state.message_interaction_state, p.scroll, col, -1);
        return;
    }
    if p.height > 0 && row as usize >= p.y as usize + p.height as usize - 1 && p.scroll
        < find_furthest(state) {
        let line: usize = plus(p.scroll, p.height as usize - 1);
        let col: u16 = p.get_column(col);
        end_at(&mut state.message_interaction_state, line, col, 1);
        return;
    }
    let width: u16 = get_main_width(state);
    let edge: u16 = if width > 1 {
        width - 1
    } else {
        0
    };
    let nearest: u16 = if state.side_panel_state.is_shown && col > edge {
        edge
    } else {
        col
    };
    let line: usize = p.get_nearest_line(row);
    let rel: u16 = p.get_column(nearest);
    end_at(&mut state.message_interaction_state, line, rel, 0);
}

/// The mouse was dragged.
pub fn handle_drag(state: &mut AppState, col: u16, row: u16, out: &mut Outbox)
    ensures
        dragged(*old(state), *final(state), col, row, *old(out), *final(out)),
{
    if state.messages_scrolling_state.show_collapsed_messages {
        handle_popup_drag(state, col, row);
        return;
    }
    if state.input_state.text_area.selecting() {
        if state.message_interaction_state.input_content_area.is_some() {
            out.ask(Effect::ExtendInput(col, row));
        }
        return;
    }
    if state.message_interaction_state.selection.active {
        drag_message(state, col, row);
    }
}

// ----- releasing -----

/// Whether nothing lies between the start and the end of the selection.
pub open spec fn is_click(s: SelectionState) -> bool {
    !(s.start_line is Some && s.end_line is Some && s.start_col is Some && s.end_col is Some)
        || (s.start_line == s.end_line && s.start_col == s.end_col)
}

fn was_click(s: &SelectionState) -> (r: bool)
    ensures
        r == is_click(*s),
{
    match (s.start_line, s.end_line, s.start_col, s.end_col) {
        (Some(a), Some(b), Some(c), Some(d)) => a == b && c == d,
        _ => true,
    }
}

/// The first entry from the `k`th on for a message of the user that shows the line.
pub open spec fn user_line_at(map: Seq<LineOwner>, line: usize, k: int) -> Option<int>
    decreases map.len() - k,
{
    if k < 0 || k >= map.len() {
        None
    } else if map[k].is_user && map[k].start <= line < map[k].end {
        Some(k)
    } else {
        user_line_at(map, line, k + 1)
    }
}

fn find_user_line(map: &Vec<LineOwner>, line: usize) -> (r: Option<usize>)
    ensures
        match r {
            Some(k) => user_line_at(map@, line, 0) == Some(k as int) && k < map@.len(),
            None => user_line_at(map@, line, 0) is None,
        },
{
    let mut k: usize = 0;
    while k < map.len()
        invariant
            k <= map@.len(),
            user_line_at(map@, line, 0) == user_line_at(map@, line, k as int),
        decreases map@.len() - k,
    {
        if map[k].is_user && map[k].start <= line && line < map[k].end {
            return Some(k);
        }
        k += 1;
    }
    None
}

/// The interaction after a click on a line: on a message of the user, what can be done with it is
/// offered.
pub open spec fn message_clicked(
    i: MessageInteractionState,
    j: MessageInteractionState,
    map: Seq<LineOwner>,
    line: usize,
    col: u16,
    row: u16,
) -> bool {
    match user_line_at(map, line, 0) {
        Some(k) => {
            &&& j == (MessageInteractionState {
                show_message_action_popup: true,
                message_action_popup_selected: 0,
                message_action_popup_position: Some((col, row)),
                message_action_target_message_id: Some(map[k].id),
                message_action_target_text: j.message_action_target_text,
                ..selection_set(i, SelectionState::none())
            })
            &&& j.message_action_target_text matches Some(t) && t@ == map[k].text@
        },
        None => j == selection_set(i, SelectionState::none()),
    }
}

fn click_message(
    i: &mut MessageInteractionState,
    map: &Vec<LineOwner>,
    line: usize,
    col: u16,
    row: u16,
)
    ensures
        message_clicked(*old(i), *final(i), map@, line, col, row),
{
    set_selection(i, SelectionState::none());
    match find_user_line(map, line) {
        Some(k) => {
            i.show_message_action_popup = true;
            i.message_action_popup_selected = 0;
            i.message_action_popup_position = Some((col, row));
            i.message_action_target_message_id = Some(map[k].id);
            i.message_action_target_text = Some(map[k].text.clone());
        },
        None => {},
    }
}

/// What releasing the mouse over the conversation does: what was selected is to be copied; without
/// a selection it is a click.
pub open spec fn message_released(
    pre: AppState,
    post: AppState,
    col: u16,
    row: u16,
    sent: Outbox,
    out: Outbox,
) -> bool {
    let i = message_dragged(pre, col, row);
    &&& post == with_interaction(pre, post.message_interaction_state)
    &&& if is_click(i.selection) {
        &&& message_clicked(
            i,
            post.message_interaction_state,
            pre.messages_scrolling_state.line_to_message_map@,
            message_pane(pre).line(row),
            col,
            row,
        )
        &&& out == sent
    } else {
        &&& post.message_interaction_state == selection_set(i, SelectionState::none())
        &&& sent.affects(out, |e: Effect| e == Effect::CopySelection(i.selection, false))
    }
}

/// What releasing the mouse over the collapsed messages does.
pub open spec fn collapsed_released(
    pre: AppState,
    post: AppState,
    col: u16,
    row: u16,
    sent: Outbox,
    out: Outbox,
) -> bool {
    let i = collapsed_dragged(pre, col, row);
    if pre.message_interaction_state.selection.active {
        &&& post == with_interaction(pre, selection_set(i, SelectionState::none()))
        &&& if is_click(i.selection) {
            out == sent
        } else {
            sent.affects(out, |e: Effect| e == Effect::CopySelection(i.selection, true))
        }
    } else {
        post == with_interaction(
            pre,
            MessageInteractionState {
                selection_auto_scroll: 0,
                ..pre.message_interaction_state
            },
        ) && out == sent
    }
}

/// What releasing the mouse does.
pub open spec fn drag_ended(
    pre: AppState,
    post: AppState,
    col: u16,
    row: u16,
    sent: Outbox,
    out: Outbox,
) -> bool {
    let i = pre.message_interaction_state;
    let still = with_interaction(pre, MessageInteractionState { selection_auto_scroll: 0, ..i });
    let t = post.input_state.text_area;
    if pre.messages_scrolling_state.show_collapsed_messages {
        collapsed_released(pre, post, col, row, sent, out)
    } else if pre.input_state.text_area@.selecting {
        &&& post == still.with_text(t)
        &&& t@ == (TextAreaView { selecting: false, ..pre.input_state.text_area@ })
        &&& sent.affects(out, |e: Effect| e is CopyInput)
    } else if i.selection.active {
        message_released(pre, post, col, row, sent, out)
    } else {
        post == still && out == sent
    }
}

fn handle_popup_drag_end(state: &mut AppState, col: u16, row: u16, out: &mut Outbox)
    ensures
        collapsed_released(*old(state), *final(state), col, row, *old(out), *final(out)),
{
    if !state.message_interaction_state.selection.active {
        state.message_interaction_state.selection_auto_scroll = 0;
        return;
    }
    handle_popup_drag(state, col, row);
    let s: SelectionState = state.message_interaction_state.selection;
    if !was_click(&s) {
        out.ask(Effect::CopySelection(s, true));
    }
    set_selection(&mut state.message_interaction_state, SelectionState::none());
}

fn release_message(state: &mut AppState, col: u16, row: u16, out: &mut Outbox)
    ensures
        message_released(*old(state), *final(state), col, row, *old(out), *final(out)),
{
    let line: usize = get_message_pane(state).get_line(row);
    drag_message(state, col, row);
    let s: SelectionState = state.message_interaction_state.selection;
    if was_click(&s) {
        click_message(
            &mut state.message_interaction_state,
            &state.messages_scrolling_state.line_to_message_map,
            line,
            col,
            row,
        );
    } else {
        out.ask(Effect::CopySelection(s, false));
        set_selection(&mut state.message_interaction_state, SelectionState::none());
    }
}

/// The mouse was released.
pub fn handle_drag_end(state: &mut AppState, col: u16, row: u16, out: &mut Outbox)
    ensures
        drag_ended(*old(state), *final(state), col, row, *old(out), *final(out)),
{
    if state.messages_scrolling_state.show_collapsed_messages {
        handle_popup_drag_end(state, col, row, out);
        return;
    }
    if state.input_state.text_area.selecting() {
        state.message_interaction_state.selection_auto_scroll = 0;
        state.input_state.text_area.set_selecting(false);
        out.ask(Effect::CopyInput);
        return;
    }
    if state.message_interaction_state.selection.active {
        release_message(state, col, row, out);
    } else {
        state.message_interaction_state.selection_auto_scroll = 0;
    }
}

/// Whatever the mouse did before, once it is released over the conversation or the collapsed
/// messages nothing there is being selected, and the view does not scroll by itself.
pub proof fn law_released(
    pre: AppState,
    post: AppState,
    col: u16,
    row: u16,
    sent: Outbox,
    out: Outbox,
)
    requires
        drag_ended(pre, post, col, row, sent, out),
    ensures
        post.message_interaction_state.selection_auto_scroll == 0,
        !post.input_state.text_area@.selecting
            || pre.messages_scrolling_state.show_collapsed_messages,
        pre.messages_scrolling_state.show_collapsed_messages
            || !pre.input_state.text_area@.selecting
            ==> !post.message_interaction_state.selection.active,
{
}

/// What is shown of a copy that was made or failed.
pub open spec fn copy_shown(pre: AppState, post: AppState, done: bool) -> bool {
    &&& post == (AppState { toast: post.toast, ..pre })
    &&& match post.toast {
        Some(Toast::Success(t)) => done && t@ == "Copied!"@,
        Some(Toast::Error(t)) => !done && t@ == "Copy failed"@,
        None => false,
    }
}

/// Takes over whether a text was copied.
pub fn handle_copied(state: &mut AppState, done: bool)
    ensures
        copy_shown(*old(state), *final(state), done),
{
    state.toast = Some(
        if done {
            Toast::Success("Copied!".to_owned())
        } else {
            Toast::Error("Copy failed".to_owned())
        },
    );
}

// ----- scrolling while text is selected -----

/// The columns that a row takes, as far as they fit into the count.
pub open spec fn row_columns(row: Seq<SpanView>) -> int
    decreases row.len(),
{
    if row.len() == 0 {
        0
    } else {
        let n = row_columns(row.drop_last()) + columns_of(row.last().content);
        if n > u16::MAX {
            u16::MAX as int
        } else {
            n
        }
    }
}

fn count_columns(l: &Line) -> (n: u16)
    ensures
        n == row_columns(l@),
{
    let mut n: u16 = 0;
    let mut i: usize = 0;
    assert(l@.take(0) =~= Seq::<SpanView>::empty());
    while i < l.spans.len()
        invariant
            i <= l.spans@.len(),
            n == row_columns(l@.take(i as int)),
        decreases l.spans@.len() - i,
    {
        assert(l@.take(i + 1).drop_last() =~= l@.take(i as int));
        assert(l@.take(i + 1).last() == l.spans@[i as int]@);
        let w: usize = display_width(l.spans[i].content.as_str());
        if w > (u16::MAX - n) as usize {
            n = u16::MAX;
        } else {
            n = n + w as u16;
        }
        i += 1;
    }
    assert(l@.take(i as int) =~= l@);
    n
}

/// The line at which the selection ends after one step: one line up, or one line down as far as
/// there are lines.
pub open spec fn stepped(end: usize, down: bool, count: Option<int>) -> int {
    if !down {
        less(end as int, 1)
    } else {
        let most = match count {
            Some(n) => less(n, 1),
            None => end as int,
        };
        smaller(end + 1, most)
    }
}

/// The line at which the selection ends after one step, where there are `count` lines.
pub fn step_end(end: usize, down: bool, count: Option<usize>) -> (r: usize)
    ensures
        r == stepped(
            end,
            down,
            match count {
                Some(n) => Some(n as int),
                None => None,
            },
        ),
{
    if !down {
        return minus(end, 1);
    }
    let most: usize = match count {
        Some(n) => minus(n, 1),
        None => end,
    };
    if end < most {
        end + 1
    } else {
        most
    }
}

/// The selection that ends in another line: at its end when it grew downwards, at its start when it
/// grew upwards, and in the same column where the line is not known.
pub open spec fn stretched(
    s: SelectionState,
    line: usize,
    forward: bool,
    width: Option<u16>,
) -> SelectionState {
    SelectionState {
        end_line: Some(line),
        end_col: match width {
            Some(w) => if forward {
                Some(w)
            } else {
                Some(0)
            },
            None => s.end_col,
        },
        ..s
    }
}

/// Has the selection end in another line, which takes `width` columns.
pub fn stretch(
    i: &mut MessageInteractionState,
    line: usize,
    forward: bool,
    width: Option<u16>,
)
    ensures
        *final(i) == (MessageInteractionState {
            selection: stretched(old(i).selection, line, forward, width),
            ..*old(i)
        }),
{
    i.selection.end_line = Some(line);
    match width {
        Some(w) => {
            i.selection.end_col = Some(
                if forward {
                    w
                } else {
                    0
                },
            );
        },
        None => {},
    }
}

/// The lines that are in view: those of the collapsed messages or those of the conversation.
pub open spec fn lines_in_view(m: MessagesScrollingState) -> Option<Seq<Seq<SpanView>>> {
    let v = if m.show_collapsed_messages {
        m.collapsed_message_lines_cache
    } else {
        m.assembled_lines_cache
    };
    match v {
        Some(v) => Some(line_views(v@)),
        None => None,
    }
}

/// The interaction after the view scrolled while text was selected.
pub open spec fn selection_scrolled(s: AppState, direction: i32) -> MessageInteractionState {
    let i = s.message_interaction_state;
    let lines = lines_in_view(s.messages_scrolling_state);
    match i.selection.end_line {
        Some(end) => if i.selection.active {
            let line = stepped(
                end,
                direction >= 0,
                match lines {
                    Some(v) => Some(v.len() as int),
                    None => None,
                },
            );
            MessageInteractionState {
                selection: stretched(
                    i.selection,
                    line as usize,
                    direction > 0,
                    match lines {
                        Some(v) => if line < v.len() {
                            Some(row_columns(v[line]) as u16)
                        } else {
                            None
                        },
                        None => None,
                    },
                ),
                ..i
            }
        } else {
            i
        },
        None => i,
    }
}

fn measure_line(m: &MessagesScrollingState, line: usize) -> (r: Option<u16>)
    ensures
        r == (match lines_in_view(*m) {
            Some(v) => if line < v.len() {
                Some(row_columns(v[line as int]) as u16)
            } else {
                None
            },
            None => None,
        }),
{
    let lines: &Option<Vec<Line>> = if m.show_collapsed_messages {
        &m.collapsed_message_lines_cache
    } else {
        &m.assembled_lines_cache
    };
    match lines {
        Some(v) => {
            assert(line_views(v@).len() == v@.len());
            if line < v.len() {
                Some(count_columns(&v[line]))
            } else {
                None
            }
        },
        None => None,
    }
}

fn count_in_view(m: &MessagesScrollingState) -> (r: Option<usize>)
    ensures
        match r {
            Some(n) => lines_in_view(*m) is Some && lines_in_view(*m)->0.len() == n,
            None => lines_in_view(*m) is None,
        },
{
    let lines: &Option<Vec<Line>> = if m.show_collapsed_messages {
        &m.collapsed_message_lines_cache
    } else {
        &m.assembled_lines_cache
    };
    match lines {
        Some(v) => {
            assert(line_views(v@).len() == v@.len());
            Some(v.len())
        },
        None => None,
    }
}

/// The view scrolled while text was selected.
pub fn handle_scroll_during_selection(state: &mut AppState, direction: i32)
    ensures
        *final(state) == with_interaction(*old(state), selection_scrolled(*old(state), direction)),
{
    if !state.message_interaction_state.selection.active {
        return;
    }
    match state.message_interaction_state.selection.end_line {
        Some(end) => {
            let count: Option<usize> = count_in_view(&state.messages_scrolling_state);
            let line: usize = step_end(end, direction >= 0, count);
            let width: Option<u16> = measure_line(&state.messages_scrolling_state, line);
            stretch(&mut state.message_interaction_state, line, direction > 0, width);
        },
        None => {},
    }
}

/// The conversation after it scrolled by itself, where there is more to see.
pub open spec fn scrolled_by_itself(s: AppState, up: bool) -> Option<MessagesScrollingState> {
    let m = s.messages_scrolling_state;
    if up {
        if m.scroll == 0 {
            None
        } else {
            Some(
                MessagesScrollingState {
                    scroll: (m.scroll - 1) as usize,
                    stay_at_bottom: false,
                    ..m
                },
            )
        }
    } else if m.scroll >= furthest(s) {
        None
    } else {
        Some(
            MessagesScrollingState {
                scroll: (m.scroll + 1) as usize,
                stay_at_bottom: m.stay_at_bottom || m.scroll + 1 >= furthest(s),
                ..m
            },
        )
    }
}

/// What a tick of the clock does while text is selected beyond the edge of the view.
pub open spec fn ticked(s: AppState) -> AppState {
    let i = s.message_interaction_state;
    if !i.selection.active || i.selection_auto_scroll == 0
        || s.messages_scrolling_state.show_collapsed_messages {
        with_interaction(s, MessageInteractionState { selection_auto_scroll: 0, ..i })
    } else if line_count(s.messages_scrolling_state) == 0 {
        s
    } else {
        match scrolled_by_itself(s, i.selection_auto_scroll < 0) {
            Some(m) => {
                let mid = s.with_messages(m);
                with_interaction(mid, selection_scrolled(mid, i.selection_auto_scroll))
            },
            None => s,
        }
    }
}

fn scroll_by_itself(state: &mut AppState, up: bool) -> (moved: bool)
    ensures
        match scrolled_by_itself(*old(state), up) {
            Some(m) => moved && *final(state) == old(state).with_messages(m),
            None => !moved && *final(state) == *old(state),
        },
{
    let most: usize = find_furthest(state);
    let scroll: usize = state.messages_scrolling_state.scroll;
    if up {
        if scroll == 0 {
            return false;
        }
        state.messages_scrolling_state.scroll = scroll - 1;
        state.messages_scrolling_state.stay_at_bottom = false;
    } else {
        if scroll >= most {
            return false;
        }
        state.messages_scrolling_state.scroll = scroll + 1;
        if scroll + 1 >= most {
            state.messages_scrolling_state.stay_at_bottom = true;
        }
    }
    true
}

/// A tick of the clock: the view scrolls by itself while text is selected beyond its edge.
pub fn tick_selection_auto_scroll(state: &mut AppState)
    ensures
        *final(state) == ticked(*old(state)),
{
    let direction: i32 = state.message_interaction_state.selection_auto_scroll;
    if !state.message_interaction_state.selection.active || direction == 0
        || state.messages_scrolling_state.show_collapsed_messages {
        state.message_interaction_state.selection_auto_scroll = 0;
        return;
    }
    if count_lines(&state.messages_scrolling_state) == 0 {
        return;
    }
    if scroll_by_itself(state, direction < 0) {
        handle_scroll_during_selection(state, direction);
    }
}

/// However often the clock ticks, the view stays within the conversation.
pub proof fn law_tick_in_range(s: AppState)
    requires
        s.messages_scrolling_state.scroll <= furthest(s),
    ensures
        ticked(s).messages_scrolling_state.scroll <= furthest(ticked(s)),
        s.messages_scrolling_state.scroll - 1 <= ticked(s).messages_scrolling_state.scroll
            <= s.messages_scrolling_state.scroll + 1,
{
    match s.messages_scrolling_state.assembled_lines_cache {
        Some(v) => {
            assert(v@.len() == v.len());
        },
        None => {},
    }
}

/// A press on the conversation starts a selection in the line and the column under the mouse: the
/// line is as far below the first one in view as the row is below the first row.
pub proof fn law_selection_starts_under_the_mouse(
    pre: AppState,
    post: AppState,
    col: u16,
    row: u16,
    sent: Outbox,
    out: Outbox,
)
    requires
        drag_started(pre, post, col, row, sent, out),
        !pre.messages_scrolling_state.show_collapsed_messages,
        pre.message_interaction_state.input_content_area is None,
        !pre.side_panel_state.is_shown,
        pre.message_interaction_state.message_area_y <= row,
        pre.message_interaction_state.message_area_x <= col,
        pre.messages_scrolling_state.scroll + row <= usize::MAX,
    ensures
        out == sent,
        ({
            let i = pre.message_interaction_state;
            let s = post.message_interaction_state.selection;
            let depth = row - i.message_area_y;
            &&& depth < i.message_area_height ==> {
                &&& s.active
                &&& s.start_line == Some((pre.messages_scrolling_state.scroll + depth) as usize)
                &&& s.start_col == Some((col - i.message_area_x) as u16)
                &&& s.end_line == s.start_line
                &&& s.end_col == s.start_col
            }
            &&& depth >= i.message_area_height ==> !s.active
        }),
{
}

/// What was selected is copied when the mouse is released over the conversation in another place:
/// the selection that is copied starts where it was started.
pub proof fn law_selection_is_copied(
    pre: AppState,
    post: AppState,
    col: u16,
    row: u16,
    sent: Outbox,
    out: Outbox,
)
    requires
        drag_ended(pre, post, col, row, sent, out),
        !pre.messages_scrolling_state.show_collapsed_messages,
        !pre.input_state.text_area@.selecting,
    ensures
        out.output@ == sent.output@,
        out.input@ == sent.input@,
        !pre.message_interaction_state.selection.active ==> out == sent,
        out.effects@ != sent.effects@ ==> {
            &&& out.effects@.len() == sent.effects@.len() + 1
            &&& out.effects@.last() matches Effect::CopySelection(s, collapsed)
            &&& !collapsed
            &&& s.start_line == pre.message_interaction_state.selection.start_line
            &&& s.start_col == pre.message_interaction_state.selection.start_col
        },
{
}

/// A click finds the message of the user that the line belongs to.
pub proof fn law_clicked_line(map: Seq<LineOwner>, line: usize, from: int)
    requires
        0 <= from,
    ensures
        match user_line_at(map, line, from) {
            Some(k) => from <= k < map.len() && map[k].is_user && map[k].start <= line
                < map[k].end && forall|j: int|
                from <= j < k ==> !((#[trigger] map[j]).is_user && map[j].start <= line
                    < map[j].end),
            None => forall|j: int|
                from <= j < map.len() ==> !((#[trigger] map[j]).is_user && map[j].start <= line
                    < map[j].end),
        },
    decreases map.len() - from,
{
    if from < map.len() && !(map[from].is_user && map[from].start <= line < map[from].end) {
        law_clicked_line(map, line, from + 1);
    }
}

/// Dragging over the conversation, away from its edges, ends the selection in the line and the column
/// under the mouse; where it started stays.
pub proof fn law_selection_ends_under_the_mouse(s: AppState, col: u16, row: u16)
    requires
        !s.side_panel_state.is_shown,
        s.message_interaction_state.message_area_x <= col,
        s.message_interaction_state.message_area_y < row,
        row + 1 < s.message_interaction_state.message_area_y
            + s.message_interaction_state.message_area_height,
        s.messages_scrolling_state.scroll + row <= usize::MAX,
    ensures
        ({
            let i = s.message_interaction_state;
            let j = message_dragged(s, col, row);
            &&& j.selection.end_line == Some(
                (s.messages_scrolling_state.scroll + (row - i.message_area_y)) as usize,
            )
            &&& j.selection.end_col == Some((col - i.message_area_x) as u16)
            &&& j.selection.start_line == i.selection.start_line
            &&& j.selection.start_col == i.selection.start_col
            &&& j.selection_auto_scroll == 0
        }),
{
}

} // verus!
