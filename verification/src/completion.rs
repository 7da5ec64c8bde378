//! Completing what is typed: files and slash commands.

use vstd::prelude::*;
use crate::app::AppState;
use crate::app::is_empty;
use crate::file_search::FileSearch;
use crate::file_search::at_trigger;
use crate::file_search::before_byte;
use crate::file_search::before_cursor;
use crate::file_search::can_search;
use crate::file_search::current_word;
use crate::file_search::files_fit;
use crate::file_search::filtered;
use crate::file_search::find_trigger;
use crate::file_search::find_word_start;
use crate::file_search::get_current_word;
use crate::file_search::is_reset;
use crate::file_search::last_trigger;
use crate::file_search::word_start;
use crate::input::commands_hidden;
use crate::input::hide_commands;
use crate::text::boundary;
use crate::text::byte_at;
use crate::text::byte_of;
use crate::text::chars_of;
use crate::text::contains;
use crate::text::holds_text;
use crate::text::is_space;
use crate::text::lemma_byte_of_mono;
use crate::text::lemma_utf8_len_add;
use crate::text::same_text;
use crate::text::string_of;
use crate::text::texts;
use crate::text::trim;
use crate::text::trim_of;
use crate::text::utf8_len;
use crate::textarea::TextArea;
use crate::textarea::TextAreaView;
use crate::textarea::lemma_byte_of_inj;
use crate::types::CommandSource;
use crate::types::HelperCommand;
use crate::types::InputState;

verus! {

// ----- files -----

/// Where the name that is completed starts: at the last `@`, or behind the last white space for the
/// tab key.
pub open spec fn name_start(before: Seq<char>, trigger: Option<char>) -> Option<int> {
    let n = before.len() as int;
    match trigger {
        Some(c) => if c == '@' {
            last_trigger(before, n)
        } else {
            None
        },
        None => Some(word_start(before, n)),
    }
}

/// The text area after the name before the cursor gave way to a file.
pub open spec fn completed_with(a: TextAreaView, trigger: Option<char>, file: Seq<char>)
    -> TextAreaView {
    let before = before_byte(a.text, a.cursor);
    match name_start(before, trigger) {
        Some(k) => TextAreaView {
            text: before.take(k) + file + a.text.skip(before.len() as int),
            cursor: (byte_of(a.text, k) + utf8_len(file)) as int,
            ..a
        },
        None => a,
    }
}

fn complete_with(t: &mut TextArea, trigger: Option<char>, file: &str)
    ensures
        final(t)@ == completed_with(old(t)@, trigger, file@),
{
    let cursor: usize = t.cursor();
    let text: String = t.text().to_owned();
    proof {
        let s = text@;
        let i = choose|i: int| 0 <= i <= s.len() && #[trigger] byte_of(s, i) == cursor;
        crate::text::lemma_byte_of_mono(s, i, s.len() as int);
        assert(s.take(s.len() as int) =~= s);
    }
    let s: Vec<char> = chars_of(text.as_str());
    let before: Vec<char> = before_cursor(text.as_str(), cursor);
    let start: Option<usize> = match trigger {
        Some(c) => if c == '@' {
            find_trigger(&before)
        } else {
            None
        },
        None => Some(find_word_start(&before)),
    };
    match start {
        Some(k) => {
            let mut new: String = string_of(&before, 0, k);
            new.push_str(file);
            let n: usize = chars_of(file).len();
            let ghost head = new@;
            let tail: String = string_of(&s, before.len(), s.len());
            new.push_str(tail.as_str());
            let all: Vec<char> = chars_of(new.as_str());
            proof {
                assert(before@.take(k as int) =~= text@.take(k as int));
                assert(head =~= text@.take(k as int) + file@);
                assert(new@ =~= before@.take(k as int) + file@ + text@.skip(before@.len() as int));
                assert(k + n <= all.len());
                assert(new@.take(k + n) =~= head);
                crate::text::lemma_utf8_len_add(text@.take(k as int), file@);
            }
            let at: usize = byte_at(new.as_str(), k + n);
            assert(byte_of(new@, k + n) == at);
            t.assign(new.as_str(), at);
        },
        None => {},
    }
}

/// The input after a file was chosen: it stands in the text, and the search is over.
pub open spec fn file_chosen(pre: InputState, post: InputState, file: Seq<char>) -> bool {
    &&& post == (InputState {
        text_area: post.text_area,
        file_search: post.file_search,
        show_helper_dropdown: false,
        filtered_helpers: post.filtered_helpers,
        helper_selected: 0,
        ..pre
    })
    &&& post.text_area@ == completed_with(pre.text_area@, pre.file_search.trigger_char, file)
    &&& is_reset(pre.file_search, post.file_search)
    &&& post.filtered_helpers@.len() == 0
}

/// Puts the chosen file into the input.
pub fn handle_file_selection(i: &mut InputState, selected_file: &str)
    ensures
        file_chosen(*old(i), *final(i), selected_file@),
{
    let trigger: Option<char> = i.file_search.trigger_char;
    complete_with(&mut i.text_area, trigger, selected_file);
    i.file_search.reset();
    i.show_helper_dropdown = false;
    i.filtered_helpers.clear();
    i.helper_selected = 0;
}

/// The last `@` that starts a name: none stands behind it.
proof fn lemma_last_trigger(s: Seq<char>, n: int)
    requires
        0 <= n <= s.len(),
    ensures
        match last_trigger(s, n) {
            Some(k) => 0 <= k < n && at_trigger(s, k) && forall|j: int|
                k < j < n ==> !at_trigger(s, j),
            None => forall|j: int| 0 <= j < n ==> !at_trigger(s, j),
        },
    decreases n,
{
    if n > 0 && !at_trigger(s, n - 1) {
        lemma_last_trigger(s, n - 1);
    }
}

proof fn lemma_word_start(s: Seq<char>, n: int)
    requires
        0 <= n <= s.len(),
    ensures
        0 <= word_start(s, n) <= n,
        forall|j: int| word_start(s, n) <= j < n ==> !is_space(#[trigger] s[j]),
        word_start(s, n) > 0 ==> is_space(s[word_start(s, n) - 1]),
    decreases n,
{
    if n > 0 && !is_space(s[n - 1]) {
        lemma_word_start(s, n - 1);
    }
}

/// Choosing a file changes nothing but the name in front of the cursor. With the cursor behind the
/// first `n` characters, the first `k` of these stay, then comes the file, then everything that
/// stood behind the cursor; the new cursor is right behind the file. The name that gives way starts
/// at the last `@` that stands at a word's start, or for the tab key behind the last white space.
/// Where there is no such `@`, or the search is for no file, the text stays as it is.
pub proof fn law_only_the_name_gives_way(
    pre: InputState,
    post: InputState,
    file: Seq<char>,
    n: int,
) -> (k: int)
    requires
        file_chosen(pre, post, file),
        0 <= n <= pre.text_area@.text.len(),
        pre.text_area@.cursor == utf8_len(pre.text_area@.text.take(n)),
    ensures
        ({
            let old_text = pre.text_area@.text;
            let text = post.text_area@.text;
            let trigger = pre.file_search.trigger_char;
            let replaced = {
                &&& 0 <= k <= n
                &&& text.len() == k + file.len() + (old_text.len() - n)
                &&& text.take(k) == old_text.take(k)
                &&& text.subrange(k, k + file.len()) == file
                &&& text.skip(k + file.len()) == old_text.skip(n)
                &&& post.text_area@.cursor == utf8_len(text.take(k + file.len()))
            };
            &&& trigger is None ==> {
                &&& replaced
                &&& k > 0 ==> is_space(old_text[k - 1])
                &&& forall|j: int| k <= j < n ==> !is_space(#[trigger] old_text[j])
            }
            &&& trigger == Some('@') && (exists|j: int| #[trigger]
                at_trigger(old_text.take(n), j)) ==> {
                &&& replaced
                &&& k < n
                &&& old_text[k] == '@'
                &&& k == 0 || is_space(old_text[k - 1])
                &&& forall|j: int| k < j ==> !at_trigger(old_text.take(n), j)
            }
            &&& trigger == Some('@') && !(exists|j: int| #[trigger]
                at_trigger(old_text.take(n), j)) ==> post.text_area@ == pre.text_area@
            &&& trigger is Some && trigger != Some('@') ==> post.text_area@ == pre.text_area@
        }),
{
    let s = pre.text_area@.text;
    let c = pre.text_area@.cursor;
    let text = post.text_area@.text;
    lemma_byte_of_mono(s, n, s.len() as int);
    assert(s.take(s.len() as int) =~= s);
    assert(byte_of(s, n) == c);
    let i = choose|i: int| 0 <= i <= s.len() && #[trigger] byte_of(s, i) == c;
    lemma_byte_of_inj(s, i, n);
    let before = before_byte(s, c);
    assert(before == s.take(n));
    lemma_last_trigger(before, n);
    lemma_word_start(before, n);
    assert(forall|j: int| 0 <= j < n ==> before[j] == s[j]);
    match name_start(before, pre.file_search.trigger_char) {
        Some(k) => {
            let head = before.take(k);
            assert(head =~= s.take(k));
            assert(text == head + file + s.skip(n));
            assert(text.take(k) =~= s.take(k));
            assert(text.subrange(k, k + file.len()) =~= file);
            assert(text.skip(k + file.len()) =~= s.skip(n));
            assert(text.take(k + file.len()) =~= head + file);
            lemma_utf8_len_add(head, file);
            k
        },
        None => 0,
    }
}

/// The file at the selected place, where files are offered.
pub open spec fn selected_file(i: InputState) -> Option<Seq<char>> {
    if i.helper_selected < i.file_search.filtered_files@.len() {
        Some(i.file_search.filtered_files@[i.helper_selected as int]@)
    } else {
        None
    }
}

/// The input after the selected file was chosen, where there is one.
pub open spec fn selected_file_chosen(pre: InputState, post: InputState) -> bool {
    match selected_file(pre) {
        Some(f) => file_chosen(pre, post, f),
        None => post == pre,
    }
}

/// Puts the selected file into the input.
pub fn choose_selected_file(i: &mut InputState)
    ensures
        selected_file_chosen(*old(i), *final(i)),
{
    let k: usize = i.helper_selected;
    if k < i.file_search.filtered_files.len() {
        let file: String = i.file_search.filtered_files[k].clone();
        handle_file_selection(i, file.as_str());
    }
}

/// The files of a directory.
#[derive(Debug)]
pub struct Directory {
    pub path: String,
    pub entries: Vec<String>,
}

/// The search after the directory was read, where no file was known.
pub open spec fn files_loaded(pre: FileSearch, post: FileSearch, dir: Option<Directory>) -> bool {
    match dir {
        Some(d) => if pre.file_suggestions@.len() == 0 {
            &&& post.file_suggestions@ == d.entries@
            &&& post.directory() == Some(d.path@)
            &&& post.filtered_files == pre.filtered_files
            &&& post.is_file_mode == pre.is_file_mode
            &&& post.trigger_char == pre.trigger_char
            &&& post.debounced_filter == pre.debounced_filter
        } else {
            post == pre
        },
        None => post == pre,
    }
}

fn load_files(f: &mut FileSearch, dir: Option<Directory>)
    ensures
        files_loaded(*old(f), *final(f), dir),
{
    match dir {
        Some(d) => {
            if f.file_suggestions.len() == 0 {
                f.scanned(d.path.as_str(), d.entries);
            }
        },
        None => {},
    }
}

/// The input after the tab key asked for files: those that match the word before the cursor are
/// offered, where there are any.
pub open spec fn tab_searched(
    pre: InputState,
    post: InputState,
    dir: Option<Directory>,
    now: u64,
    found: bool,
) -> bool {
    let a = pre.text_area@;
    if trim_of(a.text).len() == 0 {
        post == pre && !found
    } else {
        let f = post.file_search;
        &&& found == (f.filtered_files@.len() > 0)
        &&& exists|mid: FileSearch| #[trigger]
            files_loaded(pre.file_search, mid, dir) && filtered(
                mid,
                f,
                current_word(before_byte(a.text, a.cursor), None),
                now,
            ) && f.file_suggestions@ == mid.file_suggestions@ && f.directory() == mid.directory()
                && f.is_file_mode == (found || mid.is_file_mode) && f.trigger_char == (if found {
                None
            } else {
                mid.trigger_char
            })
        &&& post == (InputState {
            file_search: f,
            show_helper_dropdown: found || pre.show_helper_dropdown,
            helper_selected: if found {
                0
            } else {
                pre.helper_selected
            },
            ..pre
        })
    }
}

/// The files that the tab key searches: those that are known, or else those of the directory.
pub open spec fn searched_files(i: InputState, dir: Option<Directory>) -> Seq<Seq<char>> {
    match dir {
        Some(d) => if i.file_search.file_suggestions@.len() == 0 {
            texts(d.entries@)
        } else {
            texts(i.file_search.file_suggestions@)
        },
        None => texts(i.file_search.file_suggestions@),
    }
}

/// Whether the matcher can count for each of the files that the tab key searches.
pub open spec fn can_complete(i: InputState, dir: Option<Directory>) -> bool {
    files_fit(
        current_word(before_byte(i.text_area@.text, i.text_area@.cursor), None),
        searched_files(i, dir),
    )
}

/// Whether the matcher can count for each of the files that the tab key searches.
pub fn can_tab(i: &InputState, dir: &Option<Directory>) -> (r: bool)
    ensures
        r == can_complete(*i, *dir),
{
    let cursor: usize = i.text_area.cursor();
    proof {
        lemma_cursor(i.text_area@.text, cursor as int);
    }
    let word: String = get_current_word(i.text_area.text(), cursor, None);
    match dir {
        Some(d) => if i.file_search.file_suggestions.len() == 0 {
            can_search(word.as_str(), &d.entries)
        } else {
            can_search(word.as_str(), &i.file_search.file_suggestions)
        },
        None => can_search(word.as_str(), &i.file_search.file_suggestions),
    }
}

proof fn lemma_cursor(s: Seq<char>, cursor: int)
    requires
        boundary(s, cursor),
    ensures
        0 <= cursor <= utf8_len(s),
{
    let k = choose|k: int| 0 <= k <= s.len() && #[trigger] byte_of(s, k) == cursor;
    crate::text::lemma_byte_of_mono(s, k, s.len() as int);
    assert(s.take(s.len() as int) =~= s);
}

/// Searches for the file whose name stands before the cursor. Whether any matches.
pub fn handle_tab_trigger(i: &mut InputState, dir: Option<Directory>, now: u64) -> (found: bool)
    requires
        can_complete(*old(i), dir),
    ensures
        tab_searched(*old(i), *final(i), dir, now, found),
{
    let t: String = trim(i.text_area.text());
    if is_empty(t.as_str()) {
        return false;
    }
    load_files(&mut i.file_search, dir);
    let ghost mid = i.file_search;
    let cursor: usize = i.text_area.cursor();
    proof {
        lemma_cursor(i.text_area@.text, cursor as int);
    }
    let word: String = get_current_word(i.text_area.text(), cursor, None);
    i.file_search.filter_files(word.as_str(), now);
    let found: bool = i.file_search.filtered_files.len() > 0;
    if found {
        i.file_search.is_file_mode = true;
        i.file_search.trigger_char = None;
        i.show_helper_dropdown = true;
        i.helper_selected = 0;
    }
    assert(files_loaded(old(i).file_search, mid, dir));
    found
}

// ----- slash commands -----

/// Whether more is to be typed behind the command.
pub open spec fn takes_arguments(h: HelperCommand) -> bool {
    ||| h.command@ == "/editor"@
    ||| h.command@ == "/toggle_auto_approve"@
    ||| h.source is Custom
    ||| h.source matches CommandSource::BuiltInWithPrompt { prompt_content } && holds_text(
        prompt_content@,
        "{input}"@,
    )
}

fn needs_space(h: &HelperCommand) -> (r: bool)
    ensures
        r == takes_arguments(*h),
{
    let by_source: bool = match &h.source {
        CommandSource::BuiltIn => false,
        CommandSource::Custom { .. } => true,
        CommandSource::BuiltInWithPrompt { prompt_content } => contains(
            prompt_content.as_str(),
            "{input}",
        ),
    };
    by_source || same_text(h.command.as_str(), "/editor") || same_text(
        h.command.as_str(),
        "/toggle_auto_approve",
    )
}

/// The input with a text in place of what was typed, and nothing offered.
pub open spec fn command_written(pre: InputState, post: InputState, text: Seq<char>) -> bool {
    exists|mid: InputState|
        mid == (InputState { text_area: mid.text_area, ..pre }) && mid.text_area@ == (
        TextAreaView { text, cursor: utf8_len(text) as int, ..pre.text_area@ })
            && #[trigger] commands_hidden(mid, post)
}

/// Writes a command into the input, with a space behind it where more is to be typed.
pub fn write_command(i: &mut InputState, command: &str, space: bool)
    ensures
        command_written(
            *old(i),
            *final(i),
            if space {
                command@.push(' ')
            } else {
                command@
            },
        ),
{
    let mut text: String = command.to_owned();
    if space {
        text.push(' ');
    }
    i.text_area.set_text(text.as_str());
    let ghost mid = *i;
    hide_commands(i);
    assert(commands_hidden(mid, *i));
}

/// What the tab key does in the input: it goes to the next section of the side panel while nothing
/// is typed, takes over what is offered, or searches for a file.
pub open spec fn tab_pressed(
    pre: AppState,
    post: AppState,
    dir: Option<Directory>,
    now: u64,
) -> bool {
    let i = pre.input_state;
    let k = post.input_state;
    let text = i.text_area@.text;
    if pre.side_panel_state.is_shown && text.len() == 0 {
        post == (AppState {
            side_panel_state: crate::types::SidePanelState {
                focused_section: pre.side_panel_state.focused_section.next(),
                ..pre.side_panel_state
            },
            ..pre
        })
    } else {
        &&& post == pre.with_input(k)
        &&& if i.show_helper_dropdown {
            if i.file_search.is_file_mode {
                selected_file_chosen(i, k)
            } else if i.helper_selected < i.filtered_helpers@.len() && crate::input::is_slash(text) {
                let h = i.filtered_helpers@[i.helper_selected as int];
                command_written(
                    i,
                    k,
                    if takes_arguments(h) {
                        h.command@.push(' ')
                    } else {
                        h.command@
                    },
                )
            } else {
                k == i
            }
        } else {
            exists|found: bool| #[trigger] tab_searched(i, k, dir, now, found)
        }
    }
}

/// The tab key in the input.
pub fn handle_tab_normal(state: &mut AppState, dir: Option<Directory>, now: u64)
    requires
        can_complete(old(state).input_state, dir),
    ensures
        tab_pressed(*old(state), *final(state), dir, now),
{
    if state.side_panel_state.is_shown && is_empty(state.input_state.text_area.text()) {
        state.side_panel_state.focused_section = state.side_panel_state.focused_section.next();
        return;
    }
    if state.input_state.show_helper_dropdown {
        if state.input_state.file_search.is_active() {
            choose_selected_file(&mut state.input_state);
            return;
        }
        let k: usize = state.input_state.helper_selected;
        if k < state.input_state.filtered_helpers.len() && crate::input::starts_slash(
            state.input_state.text_area.text(),
        ) {
            let space: bool = needs_space(&state.input_state.filtered_helpers[k]);
            let command: String = state.input_state.filtered_helpers[k].command.clone();
            write_command(&mut state.input_state, command.as_str(), space);
        }
        return;
    }
    let found: bool = handle_tab_trigger(&mut state.input_state, dir, now);
    assert(tab_searched(old(state).input_state, state.input_state, dir, now, found));
}

/// A command that is written out takes the place of the whole text, with the cursor behind it, and
/// the list is closed.
pub proof fn law_command_is_written(pre: InputState, post: InputState, text: Seq<char>)
    requires
        command_written(pre, post, text),
    ensures
        post.text_area@.text == text,
        post.text_area@.cursor == utf8_len(text),
        post.attached_images == pre.attached_images,
        !post.show_helper_dropdown,
{
}

/// The selected one of the files that are offered is the one that goes into the text; without one
/// nothing changes.
pub proof fn law_selected_file_is_chosen(pre: InputState, post: InputState)
    requires
        selected_file_chosen(pre, post),
    ensures
        pre.helper_selected >= pre.file_search.filtered_files@.len() ==> post == pre,
        pre.helper_selected < pre.file_search.filtered_files@.len() ==> file_chosen(
            pre,
            post,
            pre.file_search.filtered_files@[pre.helper_selected as int]@,
        ),
{
}

} // verus!
