//! Typing, pasting and moving in the input.

use vstd::prelude::*;
use crate::app::AppState;
use crate::app::clear_text;
use crate::app::is_empty;
use crate::app::typed;
use crate::collections::TextMap;
use crate::collections::TextSet;
use crate::dialog::emptied;
use crate::events::EditedText;
use crate::events::Effect;
use crate::events::InputEvent;
use crate::events::Outbox;
use crate::file_search::FileSearch;
use crate::file_search::filter_helpers;
use crate::file_search::helpers_with;
use crate::file_search::is_reset;
use crate::helper_block::block_pushed;
use crate::helper_block::error_rows;
use crate::helper_block::push_error_message;
use crate::images::ClipboardImage;
use crate::images::Draft;
use crate::images::ImageFile;
use crate::images::ImageView;
use crate::images::attach_image;
use crate::images::attached;
use crate::images::check_placeholder_edit;
use crate::images::detect_and_convert_paths;
use crate::images::draft;
use crate::images::image_views;
use crate::images::paths_detected;
use crate::images::redrafted;
use crate::images::revealed;
use crate::models::text_of;
use crate::shell::handle_shell_mode;
use crate::shell::line_feeds;
use crate::shell::only_line_feeds;
use crate::shell::shell_mode_entered;
use crate::text::boundary;
use crate::text::chars_of;
use crate::text::contains;
use crate::text::decimal;
use crate::text::holds_text;
use crate::text::same_text;
use crate::text::texts;
use crate::text::to_decimal;
use crate::text::trim;
use crate::text::trim_of;
use crate::text::utf8_len;
use crate::textarea::TextAreaView;
use crate::tool::bar_at;
use crate::tool::selected_toggled;
use crate::tool::with_bar;
use crate::types::AttachedImage;
use crate::types::DialogApprovalState;
use crate::types::HelperCommand;
use crate::types::InputState;

verus! {

// ----- completions -----

/// Whether the text is a slash command.
pub open spec fn is_slash(s: Seq<char>) -> bool {
    s.len() > 0 && s[0] == '/'
}

/// Whether the text is a slash command.
pub fn starts_slash(s: &str) -> (r: bool)
    ensures
        r == is_slash(s@),
{
    let v: Vec<char> = chars_of(s);
    v.len() > 0 && v[0] == '/'
}

/// The commands that are offered for a text: those that hold what follows the slash. A slash alone
/// gets all of them.
pub open spec fn offered(helpers: Seq<HelperCommand>, text: Seq<char>) -> Seq<HelperCommand> {
    if is_slash(text) && text.len() > 1 {
        helpers_with(helpers, text.drop_first())
    } else {
        helpers
    }
}

fn offer(helpers: &Vec<HelperCommand>, text: &str) -> (r: Vec<HelperCommand>)
    ensures
        r@ == offered(helpers@, text@),
{
    if starts_slash(text) && chars_of(text).len() > 1 {
        filter_helpers(helpers, text)
    } else {
        copy_helpers(helpers)
    }
}

fn copy_helpers(v: &Vec<HelperCommand>) -> (r: Vec<HelperCommand>)
    ensures
        r@ == v@,
{
    let mut r: Vec<HelperCommand> = Vec::new();
    let mut i: usize = 0;
    assert(r@ =~= v@.take(0));
    while i < v.len()
        invariant
            i <= v@.len(),
            r@ == v@.take(i as int),
        decreases v@.len() - i,
    {
        r.push(v[i].clone());
        i += 1;
        assert(r@ =~= v@.take(i as int));
    }
    assert(r@ =~= v@);
    r
}

/// The search for files after a slash command came up: it ends where it was under way.
pub open spec fn search_left(pre: FileSearch, post: FileSearch) -> bool {
    if pre.is_file_mode {
        is_reset(pre, post)
    } else {
        post == pre
    }
}

/// The input while it offers slash commands.
pub open spec fn commands_offered(pre: InputState, post: InputState) -> bool {
    &&& post == (InputState {
        file_search: post.file_search,
        show_helper_dropdown: true,
        helper_scroll: 0,
        helper_selected: 0,
        filtered_helpers: post.filtered_helpers,
        ..pre
    })
    &&& search_left(pre.file_search, post.file_search)
    &&& post.filtered_helpers@ == offered(pre.helpers@, pre.text_area@.text)
}

fn offer_commands(i: &mut InputState)
    ensures
        commands_offered(*old(i), *final(i)),
{
    if i.file_search.is_active() {
        i.file_search.reset();
    }
    i.show_helper_dropdown = true;
    i.helper_scroll = 0;
    let r: Vec<HelperCommand> = offer(&i.helpers, i.text_area.text());
    i.filtered_helpers = r;
    i.helper_selected = 0;
}

/// The input while it offers no slash commands.
pub open spec fn commands_hidden(pre: InputState, post: InputState) -> bool {
    &&& post == (InputState {
        show_helper_dropdown: false,
        helper_scroll: 0,
        helper_selected: 0,
        filtered_helpers: post.filtered_helpers,
        ..pre
    })
    &&& post.filtered_helpers@.len() == 0
}

/// Takes the offers of slash commands away.
pub fn hide_commands(i: &mut InputState)
    ensures
        commands_hidden(*old(i), *final(i)),
{
    i.show_helper_dropdown = false;
    i.filtered_helpers.clear();
    i.helper_selected = 0;
    i.helper_scroll = 0;
}

/// The empty input: nothing is offered and nothing searched for.
pub open spec fn offers_cleared(pre: InputState, post: InputState) -> bool {
    &&& post == (InputState {
        show_helper_dropdown: false,
        helper_scroll: 0,
        helper_selected: 0,
        filtered_helpers: post.filtered_helpers,
        filtered_files: post.filtered_files,
        file_search: post.file_search,
        ..pre
    })
    &&& post.filtered_helpers@.len() == 0
    &&& post.filtered_files@.len() == 0
    &&& is_reset(pre.file_search, post.file_search)
}

fn clear_offers(i: &mut InputState)
    ensures
        offers_cleared(*old(i), *final(i)),
{
    hide_commands(i);
    i.filtered_files.clear();
    i.file_search.reset();
}

/// What the input offers after an edit: slash commands for a text that starts with a slash, and
/// nothing for an empty one.
pub open spec fn offers_renewed(pre: InputState, post: InputState) -> bool {
    let text = pre.text_area@.text;
    if is_slash(text) {
        commands_offered(pre, post)
    } else if text.len() == 0 {
        offers_cleared(pre, post)
    } else {
        post == pre
    }
}

fn renew_offers(i: &mut InputState)
    ensures
        offers_renewed(*old(i), *final(i)),
{
    if starts_slash(i.text_area.text()) {
        offer_commands(i);
    } else if is_empty(i.text_area.text()) {
        clear_offers(i);
    }
}

/// The input without a long paste whose placeholder is gone.
pub open spec fn paste_forgotten(i: InputState) -> InputState {
    match i.pasted_placeholder {
        Some(p) => if holds_text(i.text_area@.text, p@) {
            i
        } else {
            InputState { pasted_long_text: None, pasted_placeholder: None, ..i }
        },
        None => i,
    }
}

fn forget_paste(i: &mut InputState)
    ensures
        *final(i) == paste_forgotten(*old(i)),
{
    let gone: bool = match &i.pasted_placeholder {
        Some(p) => !contains(i.text_area.text(), p.as_str()),
        None => false,
    };
    if gone {
        i.pasted_long_text = None;
        i.pasted_placeholder = None;
    }
}

/// The text and the cursor go to the search for completions.
pub open spec fn search_asked(a: TextAreaView, sent: Outbox, out: Outbox) -> bool {
    sent.affects(
        out,
        |e: Effect| e matches Effect::SearchFiles(t, c) && t@ == a.text && c == a.cursor,
    )
}

fn ask_search(i: &InputState, out: &mut Outbox)
    ensures
        search_asked(i.text_area@, *old(out), *final(out)),
{
    let text: String = i.text_area.text().to_owned();
    out.ask(Effect::SearchFiles(text, i.text_area.cursor()));
}

// ----- typing -----

/// The commands after the list on disk was read again, which is done for a slash alone.
pub open spec fn commands_reloaded(pre: InputState, post: InputState, fresh: Seq<HelperCommand>)
    -> bool {
    &&& post == (InputState { helpers: post.helpers, ..pre })
    &&& post.helpers@ == (if pre.text_area@.text == "/"@ {
        fresh
    } else {
        pre.helpers@
    })
}

fn reload_commands(i: &mut InputState, fresh: Vec<HelperCommand>)
    ensures
        commands_reloaded(*old(i), *final(i), fresh@),
{
    if same_text(i.text_area.text(), "/") {
        i.helpers = fresh;
    }
}

/// The input after a character was typed: a placeholder that is edited shows its path, a complete
/// path of an image becomes a placeholder, and the offers are renewed.
pub open spec fn input_typed(
    pre: InputState,
    post: InputState,
    c: char,
    fresh: Seq<HelperCommand>,
    known: Map<Seq<char>, ImageFile>,
) -> bool {
    exists|a: InputState, b: InputState, d: InputState|
        redrafted(pre, a) && draft(a) == revealed(
            (Draft { area: typed(pre.text_area@, seq![c]), ..draft(pre) }),
        ) && #[trigger] paths_detected(a, b, known) && #[trigger] commands_reloaded(
            paste_forgotten(b),
            d,
            fresh,
        ) && offers_renewed(d, post)
}

fn type_char(
    i: &mut InputState,
    c: char,
    fresh: Vec<HelperCommand>,
    known: &TextMap<ImageFile>,
)
    ensures
        input_typed(*old(i), *final(i), c, fresh@, known@),
{
    let mut s: String = String::new();
    s.push(c);
    assert(s@ =~= seq![c]);
    i.text_area.insert_str(s.as_str());
    check_placeholder_edit(i);
    let ghost a = *i;
    detect_and_convert_paths(i, known);
    let ghost b = *i;
    forget_paste(i);
    reload_commands(i, fresh);
    let ghost d = *i;
    renew_offers(i);
    assert(paths_detected(a, b, known@) && commands_reloaded(paste_forgotten(b), d, fresh@));
}

/// The state in which the shortcuts are not shown below the input.
pub open spec fn hints_hidden(s: AppState) -> AppState {
    AppState {
        dialog_approval_state: DialogApprovalState {
            show_shortcuts: false,
            ..s.dialog_approval_state
        },
        ..s
    }
}

/// What a typed character does. A dollar sign in the empty input is the key for the shell.
pub open spec fn char_typed(
    pre: AppState,
    post: AppState,
    c: char,
    fresh: Seq<HelperCommand>,
    known: Map<Seq<char>, ImageFile>,
    sent: Outbox,
    out: Outbox,
) -> bool {
    let s = hints_hidden(pre);
    if c == '$' && s.input_state.text_area@.text.len() == 0 {
        exists|mid: AppState|
            mid == s.with_text(mid.input_state.text_area) && mid.input_state.text_area@ == emptied(
                s.input_state.text_area@,
            ) && #[trigger] shell_mode_entered(mid, post, sent, out)
    } else {
        &&& post == s.with_input(post.input_state)
        &&& input_typed(s.input_state, post.input_state, c, fresh, known)
        &&& search_asked(post.input_state.text_area@, sent, out)
    }
}

/// A character was typed. `fresh` are the slash commands that can be read now, and `known` the
/// images that the text may name.
pub fn handle_input_changed(
    state: &mut AppState,
    c: char,
    fresh: Vec<HelperCommand>,
    known: &TextMap<ImageFile>,
    out: &mut Outbox,
)
    ensures
        char_typed(*old(state), *final(state), c, fresh@, known@, *old(out), *final(out)),
{
    state.dialog_approval_state.show_shortcuts = false;
    let ghost s = *state;
    assert(s == hints_hidden(*old(state)));
    if c == '$' && is_empty(state.input_state.text_area.text()) {
        clear_text(&mut state.input_state.text_area);
        let ghost mid = *state;
        handle_shell_mode(state, out);
        assert(shell_mode_entered(mid, *state, *old(out), *out));
        return;
    }
    type_char(&mut state.input_state, c, fresh, known);
    ask_search(&state.input_state, out);
}

/// What a typed character does, by what is on the screen: in the bar a space turns the selected
/// call round; in a popup the character goes to its search.
pub open spec fn char_event(
    pre: AppState,
    post: AppState,
    c: char,
    fresh: Seq<HelperCommand>,
    known: Map<Seq<char>, ImageFile>,
    sent: Outbox,
    out: Outbox,
) -> bool {
    if pre.dialog_approval_state.approval_bar.shown() {
        &&& out == sent
        &&& if c == ' ' {
            selected_toggled(pre, post)
        } else {
            post == pre
        }
    } else if pre.shortcuts_panel_state.is_visible {
        post == pre && sent.inputs(
            out,
            |e: InputEvent| e == InputEvent::CommandPaletteSearchInputChanged(c),
        )
    } else if pre.rulebook_switcher_state.show_rulebook_switcher {
        post == pre && sent.inputs(
            out,
            |e: InputEvent|
                if c == ' ' {
                    e == InputEvent::RulebookSwitcherToggle
                } else {
                    e == InputEvent::RulebookSearchInputChanged(c)
                },
        )
    } else {
        char_typed(pre, post, c, fresh, known, sent, out)
    }
}

/// A character was typed, whatever is on the screen.
pub fn handle_input_changed_event(
    state: &mut AppState,
    c: char,
    fresh: Vec<HelperCommand>,
    known: &TextMap<ImageFile>,
    out: &mut Outbox,
)
    ensures
        char_event(*old(state), *final(state), c, fresh@, known@, *old(out), *final(out)),
{
    if state.dialog_approval_state.approval_bar.is_visible() {
        if c == ' ' {
            state.dialog_approval_state.approval_bar.toggle_selected();
        }
        return;
    }
    if state.shortcuts_panel_state.is_visible {
        let _sent: bool = out.send_input(InputEvent::CommandPaletteSearchInputChanged(c));
        return;
    }
    if state.rulebook_switcher_state.show_rulebook_switcher {
        let e: InputEvent = if c == ' ' {
            InputEvent::RulebookSwitcherToggle
        } else {
            InputEvent::RulebookSearchInputChanged(c)
        };
        let _sent: bool = out.send_input(e);
        return;
    }
    handle_input_changed(state, c, fresh, known, out);
}

// ----- deleting -----

/// What an edit makes of the text area.
pub open spec fn assigned(a: TextAreaView, e: EditedText) -> TextAreaView {
    TextAreaView {
        text: e.text@,
        cursor: if boundary(e.text@, e.cursor as int) {
            e.cursor as int
        } else {
            utf8_len(e.text@) as int
        },
        ..a
    }
}

/// The images whose placeholder is in the text, in their order.
pub open spec fn images_in(v: Seq<ImageView>, text: Seq<char>) -> Seq<ImageView>
    decreases v.len(),
{
    if v.len() == 0 {
        Seq::empty()
    } else if holds_text(text, v.last().placeholder) {
        images_in(v.drop_last(), text).push(v.last())
    } else {
        images_in(v.drop_last(), text)
    }
}

fn keep_images(i: &mut InputState)
    ensures
        *final(i) == (InputState { attached_images: final(i).attached_images, ..*old(i) }),
        image_views(final(i).attached_images@) == images_in(
            image_views(old(i).attached_images@),
            old(i).text_area@.text,
        ),
{
    let text: String = i.text_area.text().to_owned();
    let ghost all = image_views(i.attached_images@);
    let mut kept: Vec<AttachedImage> = Vec::new();
    let mut k: usize = 0;
    assert(all.take(0) =~= Seq::<ImageView>::empty());
    assert(image_views(kept@) =~= Seq::<ImageView>::empty());
    while k < i.attached_images.len()
        invariant
            k <= i.attached_images@.len(),
            *i == *old(i),
            all == image_views(i.attached_images@),
            all.len() == i.attached_images@.len(),
            text@ == i.text_area@.text,
            image_views(kept@) == images_in(all.take(k as int), text@),
        decreases i.attached_images@.len() - k,
    {
        proof {
            assert(all.take(k + 1).drop_last() =~= all.take(k as int));
            assert(all.take(k + 1).last() == all[k as int]);
            assert(all[k as int] == i.attached_images@[k as int]@);
        }
        if contains(text.as_str(), i.attached_images[k].placeholder.as_str()) {
            let copy: AttachedImage = crate::images::copy_image(&i.attached_images[k]);
            assert(image_views(kept@.push(copy)) =~= image_views(kept@).push(copy@));
            kept.push(copy);
        }
        k += 1;
    }
    assert(all.take(k as int) =~= all);
    i.attached_images = kept;
}

/// The input after something was deleted: a placeholder that is edited shows its path, images
/// without a placeholder are dropped, and the offers are renewed.
pub open spec fn input_deleted(pre: InputState, post: InputState, e: EditedText) -> bool {
    exists|a: InputState, b: InputState|
        redrafted(pre, a) && draft(a) == revealed(
            (Draft { area: assigned(pre.text_area@, e), ..draft(pre) }),
        ) && b == (InputState { attached_images: b.attached_images, ..paste_forgotten(a) })
            && image_views(b.attached_images@) == images_in(
            image_views(a.attached_images@),
            a.text_area@.text,
        ) && #[trigger] redrafted(paste_forgotten(a), b) && #[trigger] offers_renewed(b, post)
}

fn delete_back(i: &mut InputState, e: &EditedText)
    ensures
        input_deleted(*old(i), *final(i), *e),
{
    i.text_area.assign(e.text.as_str(), e.cursor);
    check_placeholder_edit(i);
    let ghost a = *i;
    forget_paste(i);
    keep_images(i);
    let ghost b = *i;
    renew_offers(i);
    assert(redrafted(paste_forgotten(a), b) && offers_renewed(b, *i));
}

/// The state after something was deleted.
pub open spec fn text_deleted(
    pre: AppState,
    post: AppState,
    e: EditedText,
    sent: Outbox,
    out: Outbox,
) -> bool {
    &&& post == pre.with_input(post.input_state)
    &&& input_deleted(pre.input_state, post.input_state, e)
    &&& search_asked(post.input_state.text_area@, sent, out)
}

/// The character before the cursor was deleted.
pub fn handle_input_backspace(state: &mut AppState, e: &EditedText, out: &mut Outbox)
    ensures
        text_deleted(*old(state), *final(state), *e, *old(out), *final(out)),
{
    delete_back(&mut state.input_state, e);
    ask_search(&state.input_state, out);
}

/// What the key that deletes does, by what is on the screen.
pub open spec fn backspace_event(
    pre: AppState,
    post: AppState,
    e: EditedText,
    sent: Outbox,
    out: Outbox,
) -> bool {
    if pre.dialog_approval_state.approval_bar.shown() {
        post == pre && out == sent
    } else if pre.shortcuts_panel_state.is_visible {
        post == pre && sent.inputs(out, |x: InputEvent| x is CommandPaletteSearchBackspace)
    } else if pre.rulebook_switcher_state.show_rulebook_switcher {
        post == pre && sent.inputs(out, |x: InputEvent| x is RulebookSearchBackspace)
    } else {
        text_deleted(pre, post, e, sent, out)
    }
}

/// The key that deletes was pressed, whatever is on the screen.
pub fn handle_input_backspace_event(state: &mut AppState, e: &EditedText, out: &mut Outbox)
    ensures
        backspace_event(*old(state), *final(state), *e, *old(out), *final(out)),
{
    if state.dialog_approval_state.approval_bar.is_visible() {
        return;
    }
    if state.shortcuts_panel_state.is_visible {
        let _sent: bool = out.send_input(InputEvent::CommandPaletteSearchBackspace);
        return;
    }
    if state.rulebook_switcher_state.show_rulebook_switcher {
        let _sent: bool = out.send_input(InputEvent::RulebookSearchBackspace);
        return;
    }
    handle_input_backspace(state, e, out);
}

/// The state after the whole input was deleted.
pub open spec fn input_cleared(pre: AppState, post: AppState) -> bool {
    exists|mid: InputState|
        mid == (InputState { text_area: mid.text_area, ..pre.input_state }) && mid.text_area@
            == emptied(pre.input_state.text_area@) && #[trigger] commands_hidden(
            mid,
            post.input_state,
        ) && post == pre.with_input(post.input_state)
}

/// The whole input was deleted.
pub fn handle_input_delete(state: &mut AppState)
    ensures
        input_cleared(*old(state), *final(state)),
{
    clear_text(&mut state.input_state.text_area);
    let ghost mid = state.input_state;
    hide_commands(&mut state.input_state);
    assert(commands_hidden(mid, state.input_state));
}

/// The offers of slash commands for the text: they come or go with the slash at its start.
pub open spec fn commands_renewed(pre: InputState, post: InputState) -> bool {
    if is_slash(pre.text_area@.text) {
        commands_offered(pre, post)
    } else {
        commands_hidden(pre, post)
    }
}

fn renew_commands(i: &mut InputState)
    ensures
        commands_renewed(*old(i), *final(i)),
{
    if starts_slash(i.text_area.text()) {
        offer_commands(i);
    } else {
        hide_commands(i);
    }
}

/// The offers of slash commands after a word was deleted; the search for files goes on.
pub open spec fn word_renewed(pre: InputState, post: InputState) -> bool {
    if is_slash(pre.text_area@.text) {
        &&& post == (InputState {
            show_helper_dropdown: true,
            helper_scroll: 0,
            helper_selected: 0,
            filtered_helpers: post.filtered_helpers,
            ..pre
        })
        &&& post.filtered_helpers@ == offered(pre.helpers@, pre.text_area@.text)
    } else {
        commands_hidden(pre, post)
    }
}

/// The state after a word was deleted.
pub open spec fn word_deleted(
    pre: AppState,
    post: AppState,
    e: EditedText,
    sent: Outbox,
    out: Outbox,
) -> bool {
    exists|mid: InputState|
        mid == (InputState { text_area: mid.text_area, ..pre.input_state }) && mid.text_area@
            == assigned(pre.input_state.text_area@, e) && #[trigger] word_renewed(
            mid,
            post.input_state,
        ) && post == pre.with_input(post.input_state) && search_asked(
            post.input_state.text_area@,
            sent,
            out,
        )
}

fn renew_after_word(i: &mut InputState)
    ensures
        word_renewed(*old(i), *final(i)),
{
    if starts_slash(i.text_area.text()) {
        i.show_helper_dropdown = true;
        i.helper_scroll = 0;
        let r: Vec<HelperCommand> = offer(&i.helpers, i.text_area.text());
        i.filtered_helpers = r;
        i.helper_selected = 0;
    } else {
        hide_commands(i);
    }
}

/// The word before the cursor was deleted.
pub fn handle_input_delete_word(state: &mut AppState, e: &EditedText, out: &mut Outbox)
    ensures
        word_deleted(*old(state), *final(state), *e, *old(out), *final(out)),
{
    state.input_state.text_area.assign(e.text.as_str(), e.cursor);
    let ghost mid = state.input_state;
    renew_after_word(&mut state.input_state);
    assert(word_renewed(mid, state.input_state));
    ask_search(&state.input_state, out);
}

// ----- moving -----

/// The state after the cursor was moved.
pub open spec fn cursor_moved(pre: AppState, post: AppState, pos: usize) -> bool {
    let a = pre.input_state.text_area@;
    &&& post == pre.with_text(post.input_state.text_area)
    &&& post.input_state.text_area@ == (TextAreaView {
        cursor: if boundary(a.text, pos as int) {
            pos as int
        } else {
            utf8_len(a.text) as int
        },
        ..a
    })
}

/// The cursor goes to the start of the line.
pub fn handle_input_cursor_start(state: &mut AppState, pos: usize)
    ensures
        cursor_moved(*old(state), *final(state), pos),
{
    state.input_state.text_area.set_cursor(pos);
}

/// The cursor goes to the end of the line.
pub fn handle_input_cursor_end(state: &mut AppState, pos: usize)
    ensures
        cursor_moved(*old(state), *final(state), pos),
{
    state.input_state.text_area.set_cursor(pos);
}

/// The cursor goes to the word before.
pub fn handle_input_cursor_prev_word(state: &mut AppState, pos: usize)
    ensures
        cursor_moved(*old(state), *final(state), pos),
{
    state.input_state.text_area.set_cursor(pos);
}

/// The cursor goes to the end of the next word.
pub fn handle_input_cursor_next_word(state: &mut AppState, pos: usize)
    ensures
        cursor_moved(*old(state), *final(state), pos),
{
    state.input_state.text_area.set_cursor(pos);
}

/// What the key to the left does: in the bar, the call before is selected.
pub open spec fn moved_left(pre: AppState, post: AppState, pos: usize) -> bool {
    let bar = pre.dialog_approval_state.approval_bar;
    if bar.shown() {
        post == with_bar(pre, bar_at(bar, bar.prev_index()))
    } else {
        cursor_moved(pre, post, pos)
    }
}

/// The key to the left.
pub fn handle_cursor_left(state: &mut AppState, pos: usize)
    ensures
        moved_left(*old(state), *final(state), pos),
{
    if state.dialog_approval_state.approval_bar.is_visible() {
        state.dialog_approval_state.approval_bar.select_prev();
    } else {
        state.input_state.text_area.set_cursor(pos);
    }
}

/// What the key to the right does: in the bar, the next call is selected.
pub open spec fn moved_right(pre: AppState, post: AppState, pos: usize) -> bool {
    let bar = pre.dialog_approval_state.approval_bar;
    if bar.shown() {
        post == with_bar(pre, bar_at(bar, bar.next_index()))
    } else {
        cursor_moved(pre, post, pos)
    }
}

/// The key to the right.
pub fn handle_cursor_right(state: &mut AppState, pos: usize)
    ensures
        moved_right(*old(state), *final(state), pos),
{
    if state.dialog_approval_state.approval_bar.is_visible() {
        state.dialog_approval_state.approval_bar.select_next();
    } else {
        state.input_state.text_area.set_cursor(pos);
    }
}

// ----- pasting -----

/// A pasted text with the line ends that the input takes.
pub fn normalize_paste(pasted: &str) -> (r: String)
    ensures
        r@ == line_feeds(pasted@),
{
    only_line_feeds(pasted)
}

/// Whether the text may be the name of a file without a directory.
pub open spec fn is_bare_name(s: Seq<char>) -> bool {
    let t = trim_of(s);
    t.len() > 0 && !t.contains('/') && !t.contains('\\')
}

/// Whether the text may be the name of a file without a directory.
pub fn bare_name(s: &str) -> (r: bool)
    ensures
        r == is_bare_name(s@),
{
    let t: String = trim(s);
    let v: Vec<char> = chars_of(t.as_str());
    let slash: usize = crate::text::find_char(&v, '/', 0);
    let backslash: usize = crate::text::find_char(&v, '\\', 0);
    proof {
        crate::text::lemma_next_char(v@, '/', 0);
        crate::text::lemma_next_char(v@, '\\', 0);
        if slash < v@.len() {
            assert(t@.contains(v@[slash as int]));
        }
        if backslash < v@.len() {
            assert(t@.contains(v@[backslash as int]));
        }
    }
    v.len() > 0 && slash >= v.len() && backslash >= v.len()
}

/// How the names of images end, in the order in which they are tried.
pub open spec fn name_extensions() -> Seq<Seq<char>> {
    seq!["png"@, "jpg"@, "jpeg"@, "gif"@, "webp"@, "bmp"@, "tiff"@, "tif"@]
}

fn name_extension(k: usize) -> (r: &'static str)
    requires
        k < 8,
    ensures
        r@ == name_extensions()[k as int],
{
    match k {
        0 => "png",
        1 => "jpg",
        2 => "jpeg",
        3 => "gif",
        4 => "webp",
        5 => "bmp",
        6 => "tiff",
        _ => "tif",
    }
}

/// The path of a file in a directory.
pub open spec fn in_directory(dir: Seq<char>, name: Seq<char>) -> Seq<char> {
    if dir.len() == 0 || dir.last() == '/' {
        dir + name
    } else {
        dir + "/"@ + name
    }
}

fn join_path(dir: &str, name: &str) -> (r: String)
    ensures
        r@ == in_directory(dir@, name@),
{
    let v: Vec<char> = chars_of(dir);
    let mut r: String = dir.to_owned();
    if v.len() > 0 && v[v.len() - 1] != '/' {
        r.push_str("/");
    }
    r.push_str(name);
    r
}

/// Where an image of the given name may be: in each directory, with each ending.
pub open spec fn image_candidates(name: Seq<char>, dirs: Seq<Seq<char>>, n: int) -> Seq<Seq<char>>
    decreases n,
{
    if n <= 0 {
        Seq::empty()
    } else {
        image_candidates(name, dirs, n - 1).push(
            in_directory(
                dirs[(n - 1) / 8],
                name + "."@ + name_extensions()[(n - 1) % 8],
            ),
        )
    }
}

/// Where an image of the given name may be, in the order in which the places are tried.
pub fn list_image_candidates(name: &str, dirs: &Vec<String>) -> (r: Vec<String>)
    ensures
        texts(r@) == image_candidates(name@, texts(dirs@), (dirs@.len() * 8) as int),
{
    let mut r: Vec<String> = Vec::new();
    let ghost all = texts(dirs@);
    let mut i: usize = 0;
    assert(texts(r@) =~= Seq::<Seq<char>>::empty());
    while i < dirs.len()
        invariant
            i <= dirs@.len(),
            all == texts(dirs@),
            all.len() == dirs@.len(),
            texts(r@) == image_candidates(name@, all, i * 8),
        decreases dirs@.len() - i,
    {
        let mut k: usize = 0;
        while k < 8
            invariant
                k <= 8,
                i < dirs@.len(),
                all == texts(dirs@),
                all.len() == dirs@.len(),
                texts(r@) == image_candidates(name@, all, i * 8 + k),
            decreases 8 - k,
        {
            let mut file: String = name.to_owned();
            file.push_str(".");
            file.push_str(name_extension(k));
            let path: String = join_path(dirs[i].as_str(), file.as_str());
            proof {
                crate::text::lemma_texts_push(r@, path);
                assert(all[i as int] == dirs@[i as int]@);
                assert((i * 8 + k) / 8 == i as int);
                assert((i * 8 + k) % 8 == k as int);
            }
            r.push(path);
            k += 1;
        }
        i += 1;
    }
    r
}

/// The first of the first places, from the `k`th on, at which there is a file.
pub open spec fn first_file(places: Seq<Seq<char>>, files: Set<Seq<char>>, k: int) -> Option<
    Seq<char>,
>
    decreases places.len() - k,
{
    if k < 0 || k >= places.len() {
        None
    } else if files.contains(places[k]) {
        Some(places[k])
    } else {
        first_file(places, files, k + 1)
    }
}

/// The first place at which there is an image of the given name; `files` are the places at which
/// there are files.
pub fn find_image_file_by_name(name: &str, dirs: &Vec<String>, files: &TextSet) -> (r: Option<
    String,
>)
    ensures
        text_of(r) == first_file(
            image_candidates(name@, texts(dirs@), (dirs@.len() * 8) as int),
            files@,
            0,
        ),
{
    let places: Vec<String> = list_image_candidates(name, dirs);
    let ghost all = texts(places@);
    let mut k: usize = 0;
    while k < places.len()
        invariant
            k <= places@.len(),
            all == texts(places@),
            all == image_candidates(name@, texts(dirs@), (dirs@.len() * 8) as int),
            all.len() == places@.len(),
            first_file(all, files@, 0) == first_file(all, files@, k as int),
        decreases places@.len() - k,
    {
        assert(all[k as int] == places@[k as int]@);
        if files.contains(places[k].as_str()) {
            return Some(places[k].clone());
        }
        k += 1;
    }
    None
}

/// What was pasted.
#[derive(Debug)]
pub struct Paste {
    /// The image on the clipboard.
    pub image: Option<ClipboardImage>,
    /// The text, with the line ends that the input takes and without secrets.
    pub text: String,
    /// The image that the text names as a whole.
    pub direct: Option<String>,
    /// The images that the text names somewhere.
    pub extracted: Vec<String>,
    /// The image in a known directory with the text as its name.
    pub named: Option<String>,
    /// How many characters a text may have to be put in as it is.
    pub max_chars: usize,
}

/// The path that a pasted text stands for: the text as a whole, the first path in it, or, for a bare
/// name, the image that was found by it.
pub open spec fn pasted_path(p: Paste) -> Option<Seq<char>> {
    match p.direct {
        Some(d) => Some(d@),
        None => if p.extracted@.len() > 0 {
            Some(p.extracted@[0]@)
        } else if is_bare_name(p.text@) {
            text_of(p.named)
        } else {
            None
        },
    }
}

fn find_pasted_path(p: &Paste) -> (r: Option<String>)
    ensures
        text_of(r) == pasted_path(*p),
{
    match &p.direct {
        Some(d) => Some(d.clone()),
        None => if p.extracted.len() > 0 {
            Some(p.extracted[0].clone())
        } else if bare_name(p.text.as_str()) {
            crate::models::copy_text(&p.named)
        } else {
            None
        },
    }
}

/// What stands in the text for a long paste.
pub open spec fn paste_placeholder(n: nat) -> Seq<char> {
    "[Pasted Content "@ + decimal(n) + " chars]"@
}

/// The input after a text was pasted: a long one is kept beside a placeholder, one that names an
/// image gives its path, and any other is put in as it is.
pub open spec fn text_pasted(pre: InputState, post: InputState, p: Paste) -> bool {
    let n = p.text@.len();
    if n > p.max_chars {
        &&& post == (InputState {
            text_area: post.text_area,
            pending_pastes: post.pending_pastes,
            ..pre
        })
        &&& post.text_area@ == typed(pre.text_area@, paste_placeholder(n))
        &&& post.pending_pastes@.len() == pre.pending_pastes@.len() + 1
        &&& post.pending_pastes@.drop_last() == pre.pending_pastes@
        &&& post.pending_pastes@.last().0@ == paste_placeholder(n)
        &&& post.pending_pastes@.last().1 == p.text
    } else {
        &&& post == (InputState { text_area: post.text_area, ..pre })
        &&& post.text_area@ == typed(
            pre.text_area@,
            if n > 1 && pasted_path(p) is Some {
                pasted_path(p)->0
            } else {
                p.text@
            },
        )
    }
}

fn paste_text(i: &mut InputState, p: &Paste)
    ensures
        text_pasted(*old(i), *final(i), *p),
{
    let n: usize = chars_of(p.text.as_str()).len();
    if n > p.max_chars {
        let mut placeholder: String = "[Pasted Content ".to_owned();
        placeholder.push_str(to_decimal(n as u64).as_str());
        placeholder.push_str(" chars]");
        i.text_area.insert_str(placeholder.as_str());
        i.pending_pastes.push((placeholder, p.text.clone()));
        assert(i.pending_pastes@.drop_last() =~= old(i).pending_pastes@);
        return;
    }
    if n > 1 {
        match find_pasted_path(p) {
            Some(path) => {
                i.text_area.insert_str(path.as_str());
                return;
            },
            None => {},
        }
    }
    i.text_area.insert_str(p.text.as_str());
}

/// What pasting does: an image on the clipboard is attached; else the text is put in, and slash
/// commands are offered for it.
pub open spec fn pasted(pre: AppState, post: AppState, p: Paste) -> bool {
    let i = pre.input_state;
    let k = post.input_state;
    &&& post == pre.with_input(k)
    &&& match p.image {
        Some(image) => redrafted(i, k) && draft(k) == attached(draft(i), image),
        None => exists|mid: InputState| #[trigger]
            text_pasted(i, mid, p) && commands_renewed(mid, k),
    }
}

/// Something was pasted.
pub fn handle_paste(state: &mut AppState, p: Paste) -> (done: bool)
    ensures
        pasted(*old(state), *final(state), p),
        done,
{
    if p.image.is_none() {
        paste_text(&mut state.input_state, &p);
        let ghost mid = state.input_state;
        renew_commands(&mut state.input_state);
        assert(text_pasted(old(state).input_state, mid, p));
        return true;
    }
    match p.image {
        Some(image) => {
            attach_image(&mut state.input_state, image);
        },
        None => {},
    }
    true
}

/// How an error of the clipboard is told to the user.
pub open spec fn clipboard_error(e: Seq<char>) -> Seq<char> {
    if holds_text(e, "clipboard unavailable"@) {
        "Clipboard is not available. Please check system permissions."@
    } else if holds_text(e, "no image"@) {
        "No image found on clipboard. Please copy an image first."@
    } else if holds_text(e, "encode"@) {
        "Failed to process clipboard image. The image format may not be supported."@
    } else if holds_text(e, "io error"@) {
        "Failed to save clipboard image. Please try again."@
    } else {
        "Failed to paste image: "@ + e
    }
}

fn explain_clipboard_error(e: &str) -> (r: String)
    ensures
        r@ == clipboard_error(e@),
{
    if contains(e, "clipboard unavailable") {
        "Clipboard is not available. Please check system permissions.".to_owned()
    } else if contains(e, "no image") {
        "No image found on clipboard. Please copy an image first.".to_owned()
    } else if contains(e, "encode") {
        "Failed to process clipboard image. The image format may not be supported.".to_owned()
    } else if contains(e, "io error") {
        "Failed to save clipboard image. Please try again.".to_owned()
    } else {
        let mut r: String = "Failed to paste image: ".to_owned();
        r.push_str(e);
        r
    }
}

/// The state in which nothing is being pasted.
pub open spec fn not_pasting(s: AppState) -> AppState {
    s.with_input(InputState { is_pasting: false, ..s.input_state })
}

/// What the key that pastes an image does, by what came from the clipboard.
pub open spec fn image_pasted(
    pre: AppState,
    post: AppState,
    result: Result<ClipboardImage, String>,
) -> bool {
    let s = not_pasting(pre);
    match result {
        Ok(image) => {
            &&& post == s.with_input(post.input_state)
            &&& redrafted(s.input_state, post.input_state)
            &&& draft(post.input_state) == attached(draft(s.input_state), image)
        },
        Err(e) => block_pushed(s, post, error_rows(clipboard_error(e@), false)),
    }
}

/// The key that pastes an image was pressed.
pub fn handle_clipboard_image_paste(
    state: &mut AppState,
    result: Result<ClipboardImage, String>,
)
    ensures
        image_pasted(*old(state), *final(state), result),
{
    state.input_state.is_pasting = false;
    match result {
        Ok(image) => {
            attach_image(&mut state.input_state, image);
        },
        Err(e) => {
            let text: String = explain_clipboard_error(e.as_str());
            push_error_message(state, text.as_str(), None);
        },
    }
}

/// A pasted text is not lost. One that is short enough and names no file comes in at the cursor as
/// it is; of a longer one a placeholder that says its length comes in there, and the text itself is
/// kept behind the pastes that were kept before.
pub proof fn law_paste_is_kept(pre: InputState, post: InputState, p: Paste, n: int)
    requires
        text_pasted(pre, post, p),
        0 <= n <= pre.text_area@.text.len(),
        pre.text_area@.cursor == utf8_len(pre.text_area@.text.take(n)),
    ensures
        ({
            let before = pre.text_area@.text;
            let after = post.text_area@.text;
            &&& p.text@.len() <= p.max_chars && p.direct is None && p.extracted@.len() == 0
                && p.named is None ==> {
                &&& after.take(n) == before.take(n)
                &&& after.subrange(n, n + p.text@.len()) == p.text@
                &&& after.skip(n + p.text@.len()) == before.skip(n)
                &&& post.pending_pastes == pre.pending_pastes
            }
            &&& p.text@.len() > p.max_chars ==> {
                let holder = "[Pasted Content "@ + decimal(p.text@.len()) + " chars]"@;
                &&& after.take(n) == before.take(n)
                &&& after.subrange(n, n + holder.len()) == holder
                &&& after.skip(n + holder.len()) == before.skip(n)
                &&& post.pending_pastes@.len() == pre.pending_pastes@.len() + 1
                &&& forall|i: int|
                    0 <= i < pre.pending_pastes@.len() ==> #[trigger] post.pending_pastes@[i]
                        == pre.pending_pastes@[i]
                &&& post.pending_pastes@.last().0@ == holder
                &&& post.pending_pastes@.last().1@ == p.text@
            }
        }),
{
    if p.text@.len() > p.max_chars {
        crate::app::law_typed_at_the_cursor(
            pre.text_area@,
            paste_placeholder(p.text@.len()),
            n,
        );
        assert(forall|i: int|
            0 <= i < pre.pending_pastes@.len() ==> #[trigger] post.pending_pastes@[i]
                == post.pending_pastes@.drop_last()[i]);
    } else {
        crate::app::law_typed_at_the_cursor(pre.text_area@, p.text@, n);
    }
}

/// The images that stay are those whose placeholder is in the text, in their order: of two lists,
/// those of the first and then those of the second.
pub proof fn law_images_in(a: Seq<ImageView>, b: Seq<ImageView>, x: ImageView, text: Seq<char>)
    ensures
        images_in(a + b, text) == images_in(a, text) + images_in(b, text),
        holds_text(text, x.placeholder) ==> images_in(seq![x], text) == seq![x],
        !holds_text(text, x.placeholder) ==> images_in(seq![x], text).len() == 0,
    decreases b.len(),
{
    assert(seq![x].drop_last() =~= Seq::<ImageView>::empty());
    assert(images_in(Seq::<ImageView>::empty(), text) =~= Seq::<ImageView>::empty());
    if b.len() == 0 {
        assert(a + b =~= a);
    } else {
        law_images_in(a, b.drop_last(), x, text);
        assert((a + b).drop_last() =~= a + b.drop_last());
        assert(images_in(a + b, text) =~= images_in(a, text) + images_in(b, text));
    }
}

/// A character that is typed comes in at the cursor, and the text around it stays, where the text
/// names no image.
pub proof fn law_character_comes_in_at_the_cursor(
    pre: InputState,
    post: InputState,
    c: char,
    fresh: Seq<HelperCommand>,
    known: Map<Seq<char>, ImageFile>,
    n: int,
)
    requires
        input_typed(pre, post, c, fresh, known),
        pre.attached_images@.len() == 0,
        0 <= n <= pre.text_area@.text.len(),
        pre.text_area@.cursor == utf8_len(pre.text_area@.text.take(n)),
        crate::images::image_paths(typed(pre.text_area@, seq![c]).text).len() == 0,
    ensures
        post.text_area@.text.len() == pre.text_area@.text.len() + 1,
        post.text_area@.text.take(n) == pre.text_area@.text.take(n),
        post.text_area@.text[n] == c,
        post.text_area@.text.skip(n + 1) == pre.text_area@.text.skip(n),
        post.attached_images@.len() == 0,
{
    crate::app::law_typed_at_the_cursor(pre.text_area@, seq![c], n);
    let t = typed(pre.text_area@, seq![c]);
    assert(t.text.subrange(n, n + 1)[0] == t.text[n]);
    let (a, b, d) = choose|a: InputState, b: InputState, d: InputState|
        redrafted(pre, a) && draft(a) == revealed(
            (Draft { area: typed(pre.text_area@, seq![c]), ..draft(pre) }),
        ) && #[trigger] paths_detected(a, b, known) && #[trigger] commands_reloaded(
            paste_forgotten(b),
            d,
            fresh,
        ) && offers_renewed(d, post);
    assert(draft(pre).images.len() == 0);
    assert(a.text_area@ == t);
    assert(draft(a).images.len() == 0);
    assert(draft(b) == draft(a));
    assert(b.text_area@ == t);
    assert(crate::images::image_views(b.attached_images@).len() == 0);
}

/// The text after an edit is the edited one, with the cursor where the edit left it, or behind the
/// text where that is no place between two characters.
pub proof fn law_edit_is_taken_over(a: TextAreaView, e: EditedText, n: int)
    ensures
        assigned(a, e).text == e.text@,
        0 <= n <= e.text@.len() && e.cursor == utf8_len(e.text@.take(n)) ==> assigned(a, e).cursor
            == e.cursor,
        assigned(a, e).shell_mode == a.shell_mode,
{
    if 0 <= n <= e.text@.len() && e.cursor == utf8_len(e.text@.take(n)) {
        assert(crate::text::byte_of(e.text@, n) == e.cursor);
    }
}

/// The first of the places at which there is a file is taken, and none where there is no file.
pub proof fn law_first_file(places: Seq<Seq<char>>, files: Set<Seq<char>>, k: int)
    requires
        0 <= k,
    ensures
        match first_file(places, files, k) {
            Some(p) => files.contains(p) && exists|i: int|
                {
                    &&& k <= i < places.len()
                    &&& (#[trigger] places[i]) == p
                    &&& forall|j: int| k <= j < i ==> !files.contains(#[trigger] places[j])
                },
            None => forall|j: int|
                k <= j < places.len() ==> !files.contains(#[trigger] places[j]),
        },
    decreases places.len() - k,
{
    if k < places.len() {
        if files.contains(places[k]) {
            assert(places[k] == places[k]);
        } else {
            law_first_file(places, files, k + 1);
        }
    }
}

/// A file in a directory: the directory, one slash, and the name.
pub proof fn law_in_directory(dir: Seq<char>, name: Seq<char>)
    ensures
        dir.len() == 0 ==> in_directory(dir, name) == name,
        dir.len() > 0 && dir.last() == '/' ==> in_directory(dir, name) == dir + name,
        dir.len() > 0 && dir.last() != '/' ==> in_directory(dir, name) == dir + seq!['/'] + name,
{
    reveal_strlit("/");
    assert("/"@ =~= seq!['/']);
    if dir.len() == 0 {
        assert(dir + name =~= name);
    }
}

/// A slash alone offers all commands, and a slash with something behind it those that hold that.
pub proof fn law_offered(helpers: Seq<HelperCommand>, text: Seq<char>)
    requires
        text.len() > 0,
        text[0] == '/',
    ensures
        text.len() == 1 ==> offered(helpers, text) == helpers,
        text.len() > 1 ==> offered(helpers, text) == helpers_with(helpers, text.skip(1)),
{
    assert(text.skip(1) =~= text.drop_first());
}

} // verus!
