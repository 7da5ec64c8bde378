//! The popup with the files that a session changed: searching, undoing changes, and what it shows.

use vstd::prelude::*;
use crate::app::AppState;
use crate::app::is_empty;
use crate::changeset::Changeset;
use crate::changeset::FileEdit;
use crate::changeset::FileState;
use crate::changeset::TrackedFile;
use crate::changeset::index_of;
use crate::changeset::live_count;
use crate::changeset::reverted_state;
use crate::changeset::state_after_revert;
use crate::events::Effect;
use crate::events::Outbox;
use crate::geometry::Rect;
use crate::geometry::split_rows;
use crate::geometry::stacked_heights;
use crate::helper_block::block_pushed;
use crate::helper_block::error_rows;
use crate::helper_block::push_error_message;
use crate::helper_block::push_styled_message;
use crate::helper_block::row_pushed;
use crate::helper_block::theme;
use crate::helper_block::tinted;
use crate::navigation::less;
use crate::style::Color;
use crate::style::Line;
use crate::style::Span;
use crate::style::SpanView;
use crate::style::Style;
use crate::style::Tone;
use crate::style::line_views;
use crate::text::blanks;
use crate::text::byte_len;
use crate::text::contains;
use crate::text::decimal;
use crate::text::holds_text;
use crate::text::law_lower_empty;
use crate::text::lower_text;
use crate::text::spaces;
use crate::text::texts;
use crate::text::to_decimal;
use crate::text::utf8_len;
use crate::types::FileChangesPopupState;
use crate::types::SidePanelState;

verus! {

// ----- the files that the search leaves -----

/// Whether the search leaves a file with this name: it is empty, or the name holds it, whatever
/// the case.
pub open spec fn name_found(name: Seq<char>, search: Seq<char>) -> bool {
    lower_text(search).len() == 0 || holds_text(lower_text(name), lower_text(search))
}

/// Where the files are that the search leaves, in their order.
pub open spec fn found_files(files: Seq<TrackedFile>, search: Seq<char>) -> Seq<int>
    decreases files.len(),
{
    if files.len() == 0 {
        Seq::empty()
    } else if name_found(files.last().display_name@, search) {
        found_files(files.drop_last(), search).push(files.len() - 1)
    } else {
        found_files(files.drop_last(), search)
    }
}

/// The positions as numbers.
pub open spec fn positions(v: Seq<usize>) -> Seq<int> {
    v.map_values(|i: usize| i as int)
}

/// The files that the search leaves are files of the set, in its order, and are not more than it
/// has.
pub proof fn law_found_files(files: Seq<TrackedFile>, search: Seq<char>)
    ensures
        found_files(files, search).len() <= files.len(),
        forall|i: int|
            0 <= i < found_files(files, search).len() ==> 0 <= #[trigger] found_files(
                files,
                search,
            )[i] < files.len() && name_found(
                files[found_files(files, search)[i]].display_name@,
                search,
            ),
        forall|i: int, j: int|
            0 <= i < j < found_files(files, search).len() ==> #[trigger] found_files(
                files,
                search,
            )[i] < #[trigger] found_files(files, search)[j],
    decreases files.len(),
{
    if files.len() > 0 {
        law_found_files(files.drop_last(), search);
        let rest = found_files(files.drop_last(), search);
        let all = found_files(files, search);
        assert forall|i: int| 0 <= i < all.len() implies 0 <= #[trigger] all[i] < files.len()
            && name_found(files[all[i]].display_name@, search) by {
            if i < rest.len() {
                assert(all[i] == rest[i]);
                assert(files.drop_last()[rest[i]] == files[rest[i]]);
            }
        }
        assert forall|i: int, j: int| 0 <= i < j < all.len() implies #[trigger] all[i]
            < #[trigger] all[j] by {
            assert(all[i] == rest[i]);
            if j < rest.len() {
                assert(all[j] == rest[j]);
            }
        }
    }
}

/// An empty search leaves all files.
pub proof fn law_empty_search_leaves_all(files: Seq<TrackedFile>, search: Seq<char>)
    requires
        search.len() == 0,
    ensures
        found_files(files, search) == Seq::new(files.len(), |i: int| i),
    decreases files.len(),
{
    law_lower_empty(search);
    if files.len() > 0 {
        law_empty_search_leaves_all(files.drop_last(), search);
        assert(name_found(files.last().display_name@, search));
    }
    assert(found_files(files, search) =~= Seq::new(files.len(), |i: int| i));
}

/// Where the files are that the search leaves.
fn find_files(files: &Vec<TrackedFile>, search: &str) -> (r: Vec<usize>)
    ensures
        positions(r@) == found_files(files@, search@),
        forall|i: int| 0 <= i < r@.len() ==> #[trigger] r@[i] < files@.len(),
{
    let query: String = search.to_lowercase();
    let all: bool = is_empty(query.as_str());
    let mut r: Vec<usize> = Vec::new();
    let mut i: usize = 0;
    assert(files@.take(0) =~= Seq::<TrackedFile>::empty());
    assert(positions(r@) =~= Seq::<int>::empty());
    while i < files.len()
        invariant
            i <= files@.len(),
            query@ == lower_text(search@),
            all == (query@.len() == 0),
            positions(r@) == found_files(files@.take(i as int), search@),
            forall|k: int| 0 <= k < r@.len() ==> #[trigger] r@[k] < files@.len(),
        decreases files@.len() - i,
    {
        let ghost before = r@;
        assert(files@.take(i + 1).drop_last() =~= files@.take(i as int));
        assert(files@.take(i + 1).last() == files@[i as int]);
        let name: String = files[i].display_name.as_str().to_lowercase();
        if all || contains(name.as_str(), query.as_str()) {
            r.push(i);
            assert(positions(r@) =~= positions(before).push(i as int));
        }
        i += 1;
    }
    assert(files@.take(i as int) =~= files@);
    r
}

/// The file that is selected, among those that the search leaves.
pub open spec fn chosen_file(files: Seq<TrackedFile>, search: Seq<char>, selected: int) -> Option<
    int,
> {
    let found = found_files(files, search);
    if 0 <= selected < found.len() {
        Some(found[selected])
    } else {
        None
    }
}

fn choose_file(files: &Vec<TrackedFile>, search: &str, selected: usize) -> (r: Option<usize>)
    ensures
        match r {
            Some(i) => chosen_file(files@, search@, selected as int) == Some(i as int) && i
                < files@.len(),
            None => chosen_file(files@, search@, selected as int) is None,
        },
{
    let found: Vec<usize> = find_files(files, search);
    assert(positions(found@).len() == found@.len());
    if selected < found.len() {
        assert(positions(found@)[selected as int] == found@[selected as int]);
        Some(found[selected])
    } else {
        None
    }
}

// ----- the popup -----

/// The state with another popup for the changed files.
pub open spec fn with_popup(s: AppState, p: FileChangesPopupState) -> AppState {
    AppState { file_changes_popup_state: p, ..s }
}

/// Closes the popup.
pub fn handle_file_changes_popup_cancel(state: &mut AppState)
    ensures
        *final(state) == with_popup(
            *old(state),
            FileChangesPopupState {
                is_visible: false,
                ..old(state).file_changes_popup_state
            },
        ),
{
    state.file_changes_popup_state.is_visible = false;
}

/// The popup after its search became another one: it starts at the first file.
pub open spec fn search_set(pre: AppState, post: AppState, search: Seq<char>) -> bool {
    let p = post.file_changes_popup_state;
    &&& post == with_popup(
        pre,
        FileChangesPopupState {
            search: p.search,
            is_selected: 0,
            scroll: 0,
            ..pre.file_changes_popup_state
        },
    )
    &&& p.search@ == search
}

/// A character was typed into the popup's search.
pub fn handle_file_changes_popup_search_input(state: &mut AppState, c: char)
    ensures
        search_set(*old(state), *final(state), old(state).file_changes_popup_state.search@.push(c)),
{
    state.file_changes_popup_state.search.push(c);
    state.file_changes_popup_state.is_selected = 0;
    state.file_changes_popup_state.scroll = 0;
}

/// What the key that deletes does in the popup's search.
pub open spec fn search_deleted(pre: AppState, post: AppState) -> bool {
    let search = pre.file_changes_popup_state.search@;
    if search.len() == 0 {
        post == pre
    } else {
        search_set(pre, post, search.drop_last())
    }
}

/// The last character of the popup's search was deleted.
pub fn handle_file_changes_popup_backspace(state: &mut AppState)
    ensures
        search_deleted(*old(state), *final(state)),
{
    if !is_empty(state.file_changes_popup_state.search.as_str()) {
        let _c: Option<char> = state.file_changes_popup_state.search.pop();
        state.file_changes_popup_state.is_selected = 0;
        state.file_changes_popup_state.scroll = 0;
    }
}

/// A number brought between 0 and `most`.
pub open spec fn clamped(n: int, most: int) -> int {
    if n < 0 {
        0
    } else if n > most {
        most
    } else {
        n
    }
}

/// The first row in view with the given row selected, where it was `scroll`: the selected row is
/// not above it, and at most ten rows below it.
pub open spec fn scrolled_to(selected: int, scroll: int) -> int {
    if selected < scroll {
        selected
    } else if selected > scroll + 10 {
        selected - 10
    } else {
        scroll
    }
}

/// The popup after the selection moved.
pub open spec fn file_passed(s: AppState, delta: int) -> AppState {
    let p = s.file_changes_popup_state;
    let count = found_files(s.side_panel_state.changeset.files@, p.search@).len();
    let selected = clamped(p.is_selected + delta, count - 1);
    if count == 0 {
        s
    } else {
        with_popup(
            s,
            FileChangesPopupState {
                is_selected: selected as usize,
                scroll: scrolled_to(selected, p.scroll as int) as usize,
                ..p
            },
        )
    }
}

/// Moves the selection by `delta` files.
pub fn handle_file_changes_popup_navigate(state: &mut AppState, delta: i32)
    ensures
        *final(state) == file_passed(*old(state), delta as int),
{
    let found: Vec<usize> = find_files(
        &state.side_panel_state.changeset.files,
        state.file_changes_popup_state.search.as_str(),
    );
    assert(positions(found@).len() == found@.len());
    let count: usize = found.len();
    if count == 0 {
        return;
    }
    let wanted: i128 = state.file_changes_popup_state.is_selected as i128 + delta as i128;
    let most: i128 = count as i128 - 1;
    let selected: usize = if wanted < 0 {
        0
    } else if wanted > most {
        count - 1
    } else {
        wanted as usize
    };
    state.file_changes_popup_state.is_selected = selected;
    let scroll: usize = state.file_changes_popup_state.scroll;
    if selected < scroll {
        state.file_changes_popup_state.scroll = selected;
    } else if selected - scroll > 10 {
        state.file_changes_popup_state.scroll = selected - 10;
    }
}

/// Whatever the popup was like, after a move a file is selected where there is one, and it is at
/// most ten rows below the first row in view.
pub proof fn law_file_passed(s: AppState, delta: int)
    ensures
        found_files(
            s.side_panel_state.changeset.files@,
            s.file_changes_popup_state.search@,
        ).len() > 0 ==> {
            let p = file_passed(s, delta).file_changes_popup_state;
            &&& p.is_selected < found_files(s.side_panel_state.changeset.files@, p.search@).len()
            &&& p.scroll <= p.is_selected <= p.scroll + 10
        },
{
    let p = s.file_changes_popup_state;
    let found = found_files(s.side_panel_state.changeset.files@, p.search@);
    law_found_files(s.side_panel_state.changeset.files@, p.search@);
    if found.len() > 0 {
        let selected = clamped(p.is_selected + delta, found.len() - 1);
        assert(found.len() <= s.side_panel_state.changeset.files@.len());
        assert(s.side_panel_state.changeset.files@.len() <= usize::MAX) by {
            assert(s.side_panel_state.changeset.files@.len()
                == s.side_panel_state.changeset.files.len());
        }
    }
}

// ----- undoing changes -----

/// Whether the changes of a file can be undone: a deleted file needs a copy.
pub open spec fn can_revert(f: TrackedFile) -> bool {
    f.state != FileState::Deleted || f.backup_path is Some
}

/// What asking to undo the changes of the selected file does.
pub open spec fn revert_asked(pre: AppState, post: AppState, sent: Outbox, out: Outbox) -> bool {
    let p = pre.file_changes_popup_state;
    let files = pre.side_panel_state.changeset.files@;
    &&& post == pre
    &&& match chosen_file(files, p.search@, p.is_selected as int) {
        Some(i) => if can_revert(files[i]) {
            sent.affects(
                out,
                |e: Effect| e matches Effect::RevertFile(path) && path@ == files[i].path@,
            )
        } else {
            out == sent
        },
        None => out == sent,
    }
}

/// Asks to undo the changes of the selected file.
pub fn handle_file_changes_popup_revert(state: &mut AppState, out: &mut Outbox)
    ensures
        revert_asked(*old(state), *final(state), *old(out), *final(out)),
{
    match choose_file(
        &state.side_panel_state.changeset.files,
        state.file_changes_popup_state.search.as_str(),
        state.file_changes_popup_state.is_selected,
    ) {
        Some(i) => {
            let file: &TrackedFile = &state.side_panel_state.changeset.files[i];
            if file.state != FileState::Deleted || file.backup_path.is_some() {
                out.ask(Effect::RevertFile(file.path.clone()));
            }
        },
        None => {},
    }
}

/// The files after the changes of one were undone.
pub open spec fn files_after(files: Seq<TrackedFile>, path: Seq<char>, exists: bool) -> Seq<
    TrackedFile,
> {
    match index_of(files, path) {
        Some(i) => files.update(
            i,
            TrackedFile { state: state_after_revert(files[i].state, exists), ..files[i] },
        ),
        None => files,
    }
}

fn note_revert(c: &mut Changeset, path: &str, exists: bool)
    ensures
        final(c).files@ == files_after(old(c).files@, path@, exists),
{
    match c.find(path) {
        Some(i) => {
            let state: FileState = reverted_state(c.files[i].state, exists);
            c.set_state(i, state);
        },
        None => {},
    }
}

/// The state with the changed files as they are now.
pub open spec fn with_changeset(s: AppState, c: Changeset) -> AppState {
    AppState {
        side_panel_state: SidePanelState { changeset: c, ..s.side_panel_state },
        ..s
    }
}

/// The popup with so many files that are not undone: it closes without one, and its selection
/// stays among them.
pub open spec fn popup_kept(p: FileChangesPopupState, count: int) -> FileChangesPopupState {
    if count == 0 {
        FileChangesPopupState { is_visible: false, ..p }
    } else if p.is_selected >= count {
        FileChangesPopupState { is_selected: (count - 1) as usize, ..p }
    } else {
        p
    }
}

/// The state after the changes of a file were undone.
pub open spec fn file_reverted(
    pre: AppState,
    post: AppState,
    path: Seq<char>,
    message: Seq<char>,
    exists: bool,
) -> bool {
    let c = post.side_panel_state.changeset;
    &&& c.files@ == files_after(pre.side_panel_state.changeset.files@, path, exists)
    &&& row_pushed(
        with_popup(
            with_changeset(pre, c),
            popup_kept(pre.file_changes_popup_state, live_count(c.files@) as int),
        ),
        post,
        seq![tinted(" ✓ "@, theme(Tone::Green)), tinted(message, theme(Tone::Green))],
    )
}

/// The state after the changes of a file could not be undone.
pub open spec fn revert_failed(pre: AppState, post: AppState, error: Seq<char>) -> bool {
    block_pushed(pre, post, error_rows("Revert failed: "@ + error, false))
}

/// Takes over how undoing the changes of a file went: what to say of it, and whether there is such a
/// file now, or the error.
pub fn handle_file_reverted(
    state: &mut AppState,
    path: &str,
    outcome: Result<(String, bool), String>,
)
    ensures
        match outcome {
            Ok((message, exists)) => file_reverted(
                *old(state),
                *final(state),
                path@,
                message@,
                exists,
            ),
            Err(error) => revert_failed(*old(state), *final(state), error@),
        },
{
    match outcome {
        Ok((message, exists)) => {
            note_revert(&mut state.side_panel_state.changeset, path, exists);
            let count: usize = state.side_panel_state.changeset.file_count();
            if count == 0 {
                state.file_changes_popup_state.is_visible = false;
            } else if state.file_changes_popup_state.is_selected >= count {
                state.file_changes_popup_state.is_selected = count - 1;
            }
            push_styled_message(
                state,
                message.as_str(),
                Color::Theme(Tone::Green),
                " ✓ ",
                Color::Theme(Tone::Green),
            );
        },
        Err(error) => {
            let mut text: String = "Revert failed: ".to_owned();
            text.push_str(error.as_str());
            push_error_message(state, text.as_str(), None);
        },
    }
}

/// Whether undoing everything undoes the changes of this file.
pub open spec fn to_revert(f: TrackedFile) -> bool {
    f.state != FileState::Reverted && can_revert(f)
}

/// The paths of the files whose changes undoing everything undoes, in their order.
pub open spec fn paths_to_revert(files: Seq<TrackedFile>) -> Seq<Seq<char>>
    decreases files.len(),
{
    if files.len() == 0 {
        Seq::empty()
    } else if to_revert(files.last()) {
        paths_to_revert(files.drop_last()).push(files.last().path@)
    } else {
        paths_to_revert(files.drop_last())
    }
}

fn list_to_revert(files: &Vec<TrackedFile>) -> (r: Vec<String>)
    ensures
        texts(r@) == paths_to_revert(files@),
{
    let mut r: Vec<String> = Vec::new();
    let mut i: usize = 0;
    assert(files@.take(0) =~= Seq::<TrackedFile>::empty());
    assert(texts(r@) =~= Seq::<Seq<char>>::empty());
    while i < files.len()
        invariant
            i <= files@.len(),
            texts(r@) == paths_to_revert(files@.take(i as int)),
        decreases files@.len() - i,
    {
        assert(files@.take(i + 1).drop_last() =~= files@.take(i as int));
        assert(files@.take(i + 1).last() == files@[i as int]);
        let f: &TrackedFile = &files[i];
        if f.state != FileState::Reverted && (f.state != FileState::Deleted
            || f.backup_path.is_some()) {
            let path: String = f.path.clone();
            proof {
                crate::text::lemma_texts_push(r@, path);
            }
            r.push(path);
        }
        i += 1;
    }
    assert(files@.take(i as int) =~= files@);
    r
}

/// Asks to undo all changes.
pub fn handle_file_changes_popup_revert_all(state: &mut AppState, out: &mut Outbox)
    ensures
        *final(state) == *old(state),
        old(out).affects(
            *final(out),
            |e: Effect|
                e matches Effect::RevertAll(v) && texts(v@) == paths_to_revert(
                    old(state).side_panel_state.changeset.files@,
                ),
        ),
{
    let paths: Vec<String> = list_to_revert(&state.side_panel_state.changeset.files);
    out.ask(Effect::RevertAll(paths));
}

/// How undoing the changes of one of several files went.
#[derive(Debug)]
pub struct Reverted {
    pub path: String,
    pub done: bool,
    /// Whether there is such a file now.
    pub exists: bool,
}

/// The files after the changes of several were undone, one after the other.
pub open spec fn files_after_all(files: Seq<TrackedFile>, v: Seq<Reverted>) -> Seq<TrackedFile>
    decreases v.len(),
{
    if v.len() == 0 {
        files
    } else {
        let rest = files_after_all(files, v.drop_last());
        if v.last().done {
            files_after(rest, v.last().path@, v.last().exists)
        } else {
            rest
        }
    }
}

/// How many of them went well.
pub open spec fn count_done(v: Seq<Reverted>) -> nat
    decreases v.len(),
{
    if v.len() == 0 {
        0
    } else if v.last().done {
        count_done(v.drop_last()) + 1
    } else {
        count_done(v.drop_last())
    }
}

/// What is said of undoing several files.
pub open spec fn reverted_text(done: nat, failed: nat) -> Seq<char> {
    if failed > 0 {
        "Reverted "@ + decimal(done) + " files ("@ + decimal(failed) + " failed)"@
    } else {
        "Reverted "@ + decimal(done) + " files"@
    }
}

/// The state after the changes of several files were undone, as far as that went.
pub open spec fn files_reverted(pre: AppState, post: AppState, v: Seq<Reverted>) -> bool {
    let c = post.side_panel_state.changeset;
    let p = pre.file_changes_popup_state;
    let mid = with_popup(
        with_changeset(pre, c),
        if live_count(c.files@) == 0 {
            FileChangesPopupState { is_visible: false, ..p }
        } else {
            p
        },
    );
    let done = count_done(v);
    let failed = (v.len() - done) as nat;
    &&& c.files@ == files_after_all(pre.side_panel_state.changeset.files@, v)
    &&& if done > 0 {
        row_pushed(
            mid,
            post,
            seq![
                tinted(" ✓ "@, theme(Tone::Green)),
                tinted(reverted_text(done, failed), theme(Tone::Green)),
            ],
        )
    } else if failed > 0 {
        block_pushed(
            mid,
            post,
            error_rows("Failed to revert "@ + decimal(failed) + " files"@, false),
        )
    } else {
        post == mid
    }
}

fn note_reverts(c: &mut Changeset, v: &Vec<Reverted>) -> (done: usize)
    ensures
        final(c).files@ == files_after_all(old(c).files@, v@),
        done == count_done(v@),
        done <= v@.len(),
{
    let mut done: usize = 0;
    let mut i: usize = 0;
    assert(v@.take(0) =~= Seq::<Reverted>::empty());
    while i < v.len()
        invariant
            i <= v@.len(),
            done <= i,
            done == count_done(v@.take(i as int)),
            c.files@ == files_after_all(old(c).files@, v@.take(i as int)),
        decreases v@.len() - i,
    {
        assert(v@.take(i + 1).drop_last() =~= v@.take(i as int));
        assert(v@.take(i + 1).last() == v@[i as int]);
        if v[i].done {
            note_revert(c, v[i].path.as_str(), v[i].exists);
            done += 1;
        }
        i += 1;
    }
    assert(v@.take(i as int) =~= v@);
    done
}

fn say_reverted(done: usize, failed: usize) -> (r: String)
    ensures
        r@ == reverted_text(done as nat, failed as nat),
{
    let mut text: String = "Reverted ".to_owned();
    text.push_str(to_decimal(done as u64).as_str());
    if failed > 0 {
        text.push_str(" files (");
        text.push_str(to_decimal(failed as u64).as_str());
        text.push_str(" failed)");
    } else {
        text.push_str(" files");
    }
    text
}

/// Takes over how undoing the changes of several files went.
pub fn handle_files_reverted(state: &mut AppState, outcomes: &Vec<Reverted>)
    ensures
        files_reverted(*old(state), *final(state), outcomes@),
{
    let done: usize = note_reverts(&mut state.side_panel_state.changeset, outcomes);
    let failed: usize = outcomes.len() - done;
    if state.side_panel_state.changeset.file_count() == 0 {
        state.file_changes_popup_state.is_visible = false;
    }
    if done > 0 {
        let text: String = say_reverted(done, failed);
        push_styled_message(
            state,
            text.as_str(),
            Color::Theme(Tone::Green),
            " ✓ ",
            Color::Theme(Tone::Green),
        );
    } else if failed > 0 {
        let mut text: String = "Failed to revert ".to_owned();
        text.push_str(to_decimal(failed as u64).as_str());
        text.push_str(" files");
        push_error_message(state, text.as_str(), None);
    }
}

// ----- the editor -----

/// The state with a file that is to be opened in the editor.
pub open spec fn editor_asked(pre: AppState, post: AppState, path: Seq<char>) -> bool {
    let p = post.side_panel_state;
    &&& post == (AppState {
        side_panel_state: SidePanelState {
            pending_editor_open: p.pending_editor_open,
            ..pre.side_panel_state
        },
        ..pre
    })
    &&& p.pending_editor_open matches Some(t) && t@ == path
}

/// What opening a file does: nothing for one that is deleted.
pub open spec fn file_opened(pre: AppState, post: AppState, selected: int) -> bool {
    let files = pre.side_panel_state.changeset.files@;
    match chosen_file(files, pre.file_changes_popup_state.search@, selected) {
        Some(i) => if files[i].state == FileState::Deleted {
            post == pre
        } else {
            editor_asked(pre, post, files[i].path@)
        },
        None => post == pre,
    }
}

fn open_file(state: &mut AppState, selected: usize)
    ensures
        file_opened(*old(state), *final(state), selected as int),
{
    match choose_file(
        &state.side_panel_state.changeset.files,
        state.file_changes_popup_state.search.as_str(),
        selected,
    ) {
        Some(i) => {
            let file: &TrackedFile = &state.side_panel_state.changeset.files[i];
            if file.state != FileState::Deleted {
                let path: String = file.path.clone();
                state.side_panel_state.pending_editor_open = Some(path);
            }
        },
        None => {},
    }
}

/// Has the selected file opened in the editor.
pub fn handle_file_changes_popup_open_editor(state: &mut AppState)
    ensures
        file_opened(
            *old(state),
            *final(state),
            old(state).file_changes_popup_state.is_selected as int,
        ),
{
    let selected: usize = state.file_changes_popup_state.is_selected;
    open_file(state, selected);
}

/// Where the rows of the popup lie inside of its border: the title, the search, the files and the
/// footer.
pub open spec fn popup_rows(inner: Rect) -> Seq<Rect> {
    let h = stacked_heights(inner.height as int);
    seq![
        Rect { height: h[0] as u16, ..inner },
        Rect { y: (inner.y + h[0]) as u16, height: h[1] as u16, ..inner },
        Rect { y: (inner.y + h[0] + h[1]) as u16, height: h[2] as u16, ..inner },
        Rect { y: (inner.y + h[0] + h[1] + h[2]) as u16, height: h[3] as u16, ..inner },
    ]
}

fn lay_out_rows(inner: Rect) -> (r: Vec<Rect>)
    requires
        inner.x + inner.width <= u16::MAX,
        inner.y + inner.height <= u16::MAX,
    ensures
        r@ == popup_rows(inner),
{
    let mut above: Vec<u16> = Vec::new();
    above.push(1);
    above.push(3);
    let mut below: Vec<u16> = Vec::new();
    below.push(1);
    assert(above@ =~= seq![1u16, 3u16]);
    assert(below@ =~= seq![1u16]);
    let r: Vec<Rect> = split_rows(inner, above, 3, below);
    proof {
        let h = stacked_heights(inner.height as int);
        assert(r@.len() == 4);
        assert(r@[0].height == h[0] && r@[1].height == h[1] && r@[2].height == h[2] && r@[3].height
            == h[3]);
        assert(r@[1].y == r@[0].y + r@[0].height);
        assert(r@[2].y == r@[1].y + r@[1].height);
        assert(r@[3].y == r@[2].y + r@[2].height);
        assert(r@ =~= popup_rows(inner));
    }
    r
}

/// Which of the popup's files a click meets, on a terminal of the given size: the one that is drawn on
/// the row of the click.
pub open spec fn clicked_row(width: u16, height: u16, col: u16, row: u16) -> Option<int> {
    let popup = popup_area(Rect { x: 0, y: 0, width, height });
    let files = popup_rows(inside(popup))[2];
    if popup.width >= 2 && popup.height >= 2 && popup.x <= col < popup.x + popup.width && files.y
        <= row < files.y + files.height {
        Some(row - files.y)
    } else {
        None
    }
}

fn find_clicked_row(width: u16, height: u16, col: u16, row: u16) -> (r: Option<usize>)
    ensures
        match r {
            Some(i) => clicked_row(width, height, col, row) == Some(i as int),
            None => clicked_row(width, height, col, row) is None,
        },
{
    let popup: Rect = place_popup(Rect { x: 0, y: 0, width, height });
    if popup.width < 2 || popup.height < 2 || col < popup.x || col - popup.x >= popup.width {
        return None;
    }
    let inner: Rect = Rect {
        x: popup.x + 1,
        y: popup.y + 1,
        width: popup.width - 2,
        height: popup.height - 2,
    };
    let rows: Vec<Rect> = lay_out_rows(inner);
    let files: Rect = rows[2];
    assert(rows@[2] == popup_rows(inside(popup))[2]);
    if row >= files.y && row - files.y < files.height {
        Some((row - files.y) as usize)
    } else {
        None
    }
}

/// A click meets a file exactly where the popup draws its files, and then the one that is drawn on
/// the row of the click.
pub proof fn law_click_meets_drawn_file(
    s: AppState,
    screen: Rect,
    drawn: FileChangesPopup,
    col: u16,
    row: u16,
)
    requires
        screen.x == 0,
        screen.y == 0,
        screen.width >= 2,
        screen.height >= 5,
        popup_drawn(s, screen, drawn),
    ensures
        match clicked_row(screen.width, screen.height, col, row) {
            Some(i) => 0 <= i < drawn.files_area.height && row == drawn.files_area.y + i
                && drawn.area.x <= col < drawn.area.x + drawn.area.width,
            None => !(drawn.area.x <= col < drawn.area.x + drawn.area.width && drawn.files_area.y
                <= row < drawn.files_area.y + drawn.files_area.height),
        },
{
    let rows = seq![drawn.title_area, drawn.search_area, drawn.files_area, drawn.footer_area];
    assert(rows[2] == drawn.files_area);
}

/// What a click on the popup does: the file under it is opened in the editor.
pub open spec fn popup_clicked(
    pre: AppState,
    post: AppState,
    width: u16,
    height: u16,
    col: u16,
    row: u16,
) -> bool {
    match clicked_row(width, height, col, row) {
        Some(i) => file_opened(pre, post, i + pre.file_changes_popup_state.scroll),
        None => post == pre,
    }
}

/// A click on the popup, on a terminal of the given size.
pub fn handle_file_changes_popup_mouse_click(
    state: &mut AppState,
    width: u16,
    height: u16,
    col: u16,
    row: u16,
)
    ensures
        popup_clicked(*old(state), *final(state), width, height, col, row),
{
    match find_clicked_row(width, height, col, row) {
        Some(i) => {
            let scroll: usize = state.file_changes_popup_state.scroll;
            if scroll <= usize::MAX - i {
                open_file(state, scroll + i);
            } else {
                proof {
                    law_found_files(
                        state.side_panel_state.changeset.files@,
                        state.file_changes_popup_state.search@,
                    );
                    assert(state.side_panel_state.changeset.files@.len()
                        == state.side_panel_state.changeset.files.len());
                }
            }
        },
        None => {},
    }
}

// ----- what the popup shows -----

/// Where the popup is on the screen: in the middle, half as wide as the screen but at least 80
/// columns as far as there are so many, and two fifths as high.
pub open spec fn popup_area(screen: Rect) -> Rect {
    let half = screen.width / 2;
    let wanted = if half > 80 {
        half
    } else {
        80
    };
    let width = if wanted > screen.width {
        screen.width
    } else {
        wanted
    };
    let height = (screen.height * 40 / 100) as u16;
    Rect {
        x: ((screen.width - width) / 2) as u16,
        y: ((screen.height - height) / 2) as u16,
        width,
        height,
    }
}

/// The part of an area inside of its border.
pub open spec fn inside(area: Rect) -> Rect {
    Rect {
        x: (area.x + 1) as u16,
        y: (area.y + 1) as u16,
        width: (area.width - 2) as u16,
        height: (area.height - 2) as u16,
    }
}

fn place_popup(screen: Rect) -> (r: Rect)
    ensures
        r == popup_area(screen),
        r.width <= screen.width,
        r.height <= screen.height,
        r.x + r.width <= screen.width,
        r.y + r.height <= screen.height,
        screen.width >= 2 ==> r.width >= 2,
        screen.height >= 5 ==> r.height >= 2,
{
    let half: u16 = screen.width / 2;
    let wanted: u16 = if half > 80 {
        half
    } else {
        80
    };
    let width: u16 = if wanted > screen.width {
        screen.width
    } else {
        wanted
    };
    let height: u16 = (screen.height as u32 * 40 / 100) as u16;
    Rect { x: (screen.width - width) / 2, y: (screen.height - height) / 2, width, height }
}

/// The lines that an edit counts, added up, as far as the machine counts.
pub open spec fn line_sum(edits: Seq<FileEdit>, added: bool) -> nat
    decreases edits.len(),
{
    if edits.len() == 0 {
        0
    } else {
        let n = line_sum(edits.drop_last(), added) + (if added {
            edits.last().lines_added as nat
        } else {
            edits.last().lines_removed as nat
        });
        if n > u64::MAX {
            u64::MAX as nat
        } else {
            n
        }
    }
}

impl TrackedFile {
    fn sum_lines(&self, added: bool) -> (n: u64)
        ensures
            n == line_sum(self.edits@, added),
    {
        let mut n: u64 = 0;
        let mut i: usize = 0;
        assert(self.edits@.take(0) =~= Seq::<FileEdit>::empty());
        while i < self.edits.len()
            invariant
                i <= self.edits@.len(),
                n == line_sum(self.edits@.take(i as int), added),
            decreases self.edits@.len() - i,
        {
            assert(self.edits@.take(i + 1).drop_last() =~= self.edits@.take(i as int));
            assert(self.edits@.take(i + 1).last() == self.edits@[i as int]);
            let k: u64 = if added {
                self.edits[i].lines_added as u64
            } else {
                self.edits[i].lines_removed as u64
            };
            if n > u64::MAX - k {
                n = u64::MAX;
            } else {
                n = n + k;
            }
            i += 1;
        }
        assert(self.edits@.take(i as int) =~= self.edits@);
        n
    }

    /// How many lines the edits of the file added.
    pub fn total_lines_added(&self) -> (n: u64)
        ensures
            n == line_sum(self.edits@, true),
    {
        self.sum_lines(true)
    }

    /// How many lines the edits of the file removed.
    pub fn total_lines_removed(&self) -> (n: u64)
        ensures
            n == line_sum(self.edits@, false),
    {
        self.sum_lines(false)
    }
}

/// Text in a style.
pub open spec fn piece(text: Seq<char>, style: Style) -> SpanView {
    SpanView { content: text, style }
}

/// The title: how many files there are, at the right.
pub open spec fn title_row(width: int, count: nat) -> Seq<SpanView> {
    let text = decimal(count) + (if count == 1 {
        " file changed"@
    } else {
        " files changed"@
    });
    seq![
        piece(
            " Modified Files"@,
            Style::plain().fg(Color::Theme(Tone::Yellow)).strong(),
        ),
        piece(blanks(less(width, (16 + utf8_len(text)) as int) as nat), Style::plain()),
        piece(text, Style::plain().fg(Color::Theme(Tone::Cyan))),
        piece(" "@, Style::plain()),
    ]
}

fn draw_title(width: u16, count: usize) -> (r: Line)
    ensures
        r@ == title_row(width as int, count as nat),
{
    let mut text: String = to_decimal(count as u64);
    if count == 1 {
        text.push_str(" file changed");
    } else {
        text.push_str(" files changed");
    }
    let taken: usize = byte_len(text.as_str());
    let width: usize = width as usize;
    let gap: usize = if taken < width && width - taken > 16 {
        width - taken - 16
    } else {
        0
    };
    let mut r: Line = Line::of(
        Span::styled(
            " Modified Files",
            Style::plain().fg(Color::Theme(Tone::Yellow)).strong(),
        ),
    );
    r.add(Span::raw(spaces(gap).as_str()));
    r.add(Span::styled(text.as_str(), Style::plain().fg(Color::Theme(Tone::Cyan))));
    r.add(Span::raw(" "));
    assert(r@ =~= title_row(width as int, count as nat));
    r
}

/// The row with the search, or with what may be typed there.
pub open spec fn search_row(search: Seq<char>) -> Seq<SpanView> {
    let head = seq![
        piece(" "@, Style::plain()),
        piece(">"@, Style::plain().fg(Color::Theme(Tone::Magenta))),
        piece(" "@, Style::plain()),
    ];
    let cursor = piece("|"@, Style::plain().fg(Color::Theme(Tone::Cyan)));
    if search.len() == 0 {
        head + seq![
            cursor,
            piece("Type to filter"@, Style::plain().fg(Color::Theme(Tone::DarkGray))),
        ]
    } else {
        head + seq![
            piece(search, Style::plain().fg(Color::Theme(Tone::Text)).strong()),
            cursor,
        ]
    }
}

fn draw_search(search: &str) -> (r: Line)
    ensures
        r@ == search_row(search@),
{
    let mut r: Line = Line::of(Span::raw(" "));
    r.add(Span::styled(">", Style::plain().fg(Color::Theme(Tone::Magenta))));
    r.add(Span::raw(" "));
    let cursor: Span = Span::styled("|", Style::plain().fg(Color::Theme(Tone::Cyan)));
    if is_empty(search) {
        r.add(cursor);
        r.add(Span::styled("Type to filter", Style::plain().fg(Color::Theme(Tone::DarkGray))));
    } else {
        r.add(Span::styled(search, Style::plain().fg(Color::Theme(Tone::Text)).strong()));
        r.add(cursor);
    }
    assert(r@ =~= search_row(search@));
    r
}

/// Whether a file is shown as gone.
pub open spec fn is_gone(s: FileState) -> bool {
    s == FileState::Reverted || s == FileState::Deleted || s == FileState::Removed
}

/// The word that stands for a file that is gone.
pub open spec fn gone_word(s: FileState) -> Seq<char> {
    match s {
        FileState::Reverted => "REVERTED"@,
        FileState::Deleted => "DELETED"@,
        _ => "REMOVED"@,
    }
}

/// The background of a row.
pub open spec fn row_bg(selected: bool) -> Color {
    if selected {
        Color::Theme(Tone::HighlightBg)
    } else {
        Color::Reset
    }
}

/// Text at the right of a row, in the given colour where the row is not selected.
pub open spec fn row_piece(text: Seq<char>, tone: Tone, selected: bool) -> SpanView {
    piece(
        text,
        Style::plain().fg(
            Color::Theme(
                if selected {
                    Tone::HighlightFg
                } else {
                    tone
                },
            ),
        ).bg(row_bg(selected)),
    )
}

/// Spaces on the background of a row.
pub open spec fn row_gap(n: nat, selected: bool) -> SpanView {
    piece(blanks(n), Style::plain().bg(row_bg(selected)))
}

/// A space on the background of a row.
pub open spec fn row_space(selected: bool) -> SpanView {
    piece(" "@, Style::plain().bg(row_bg(selected)))
}

/// What stands at the right of a file: the lines that its edits added and removed, or what became
/// of it.
pub open spec fn stats_row(f: TrackedFile, selected: bool) -> Seq<SpanView> {
    if is_gone(f.state) {
        seq![row_piece(gone_word(f.state), Tone::DarkGray, selected), row_space(selected)]
    } else {
        seq![
            row_piece("+"@ + decimal(line_sum(f.edits@, true)), Tone::Green, selected),
            row_space(selected),
            row_piece("-"@ + decimal(line_sum(f.edits@, false)), Tone::Red, selected),
            row_space(selected),
            row_piece("↩"@, Tone::AccentSecondary, selected),
            row_space(selected),
        ]
    }
}

/// How many columns are counted for what stands at the right of a file.
pub open spec fn stats_width(f: TrackedFile) -> nat {
    if is_gone(f.state) {
        utf8_len(gone_word(f.state)) + 1
    } else {
        utf8_len("+"@ + decimal(line_sum(f.edits@, true))) + utf8_len(
            "-"@ + decimal(line_sum(f.edits@, false)),
        ) + 3
    }
}

/// How the name of a file is drawn.
pub open spec fn name_style(s: FileState, selected: bool) -> Style {
    let base = if is_gone(s) {
        Style { crossed_out: true, ..Style::plain().fg(Color::Theme(Tone::DarkGray)) }
    } else {
        Style {
            underlined: true,
            ..Style::plain().fg(
                if selected {
                    Color::Theme(Tone::HighlightFg)
                } else {
                    Color::Reset
                },
            )
        }
    };
    base.bg(row_bg(selected))
}

/// The row of a file.
pub open spec fn file_row(f: TrackedFile, selected: bool, width: int) -> Seq<SpanView> {
    seq![
        row_space(selected),
        piece(f.display_name@, name_style(f.state, selected)),
        row_gap(
            less(width, (2 + utf8_len(f.display_name@) + stats_width(f)) as int) as nat,
            selected,
        ),
    ] + stats_row(f, selected)
}

fn row_span(text: &str, tone: Tone, selected: bool) -> (r: Span)
    ensures
        r@ == row_piece(text@, tone, selected),
{
    if selected {
        Span::styled(
            text,
            Style::plain().fg(Color::Theme(Tone::HighlightFg)).bg(Color::Theme(Tone::HighlightBg)),
        )
    } else {
        Span::styled(text, Style::plain().fg(Color::Theme(tone)).bg(Color::Reset))
    }
}

fn space_span(selected: bool) -> (r: Span)
    ensures
        r@ == row_space(selected),
{
    Span::styled(
        " ",
        Style::plain().bg(
            if selected {
                Color::Theme(Tone::HighlightBg)
            } else {
                Color::Reset
            },
        ),
    )
}

fn name_span(f: &TrackedFile, selected: bool) -> (r: Span)
    ensures
        r@ == piece(f.display_name@, name_style(f.state, selected)),
{
    let bg: Color = if selected {
        Color::Theme(Tone::HighlightBg)
    } else {
        Color::Reset
    };
    let style: Style = match f.state {
        FileState::Reverted | FileState::Deleted | FileState::Removed => Style {
            crossed_out: true,
            ..Style::plain().fg(Color::Theme(Tone::DarkGray))
        },
        _ => Style {
            underlined: true,
            ..Style::plain().fg(
                if selected {
                    Color::Theme(Tone::HighlightFg)
                } else {
                    Color::Reset
                },
            )
        },
    };
    Span::styled(f.display_name.as_str(), style.bg(bg))
}

/// How many columns are left of `width` after the two.
fn columns_left(width: usize, a: usize, b: usize) -> (r: usize)
    ensures
        r == less(width as int, 2 + a + b),
{
    if a >= width || b >= width - a || 2 >= width - a - b {
        0
    } else {
        width - a - b - 2
    }
}

fn draw_gone(f: &TrackedFile, selected: bool, width: usize) -> (r: Line)
    requires
        is_gone(f.state),
    ensures
        r@ == file_row(*f, selected, width as int),
{
    let word: String = match f.state {
        FileState::Reverted => "REVERTED".to_owned(),
        FileState::Deleted => "DELETED".to_owned(),
        _ => "REMOVED".to_owned(),
    };
    let stats: usize = byte_len(word.as_str());
    let name: usize = byte_len(f.display_name.as_str());
    let gap: usize = if stats >= width {
        0
    } else {
        columns_left(width, name, stats + 1)
    };
    let mut r: Line = Line::of(space_span(selected));
    r.add(name_span(f, selected));
    r.add(gap_span(gap, selected));
    r.add(row_span(word.as_str(), Tone::DarkGray, selected));
    r.add(space_span(selected));
    assert(r@ =~= file_row(*f, selected, width as int));
    r
}

fn gap_span(n: usize, selected: bool) -> (r: Span)
    ensures
        r@ == row_gap(n as nat, selected),
{
    let style: Style = Style::plain().bg(
        if selected {
            Color::Theme(Tone::HighlightBg)
        } else {
            Color::Reset
        },
    );
    Span::styled(spaces(n).as_str(), style)
}

fn signed(sign: &str, n: u64) -> (r: String)
    ensures
        r@ == sign@ + decimal(n as nat),
{
    let mut r: String = sign.to_owned();
    r.push_str(to_decimal(n).as_str());
    r
}

fn draw_live(f: &TrackedFile, selected: bool, width: usize) -> (r: Line)
    requires
        !is_gone(f.state),
    ensures
        r@ == file_row(*f, selected, width as int),
{
    let added: String = signed("+", f.total_lines_added());
    let removed: String = signed("-", f.total_lines_removed());
    let left: usize = byte_len(added.as_str());
    let right: usize = byte_len(removed.as_str());
    let name: usize = byte_len(f.display_name.as_str());
    let gap: usize = if left >= width || right >= width - left || 3 >= width - left - right {
        0
    } else {
        columns_left(width, name, left + right + 3)
    };
    let mut r: Line = Line::of(space_span(selected));
    r.add(name_span(f, selected));
    r.add(gap_span(gap, selected));
    r.add(row_span(added.as_str(), Tone::Green, selected));
    r.add(space_span(selected));
    r.add(row_span(removed.as_str(), Tone::Red, selected));
    r.add(space_span(selected));
    r.add(row_span("↩", Tone::AccentSecondary, selected));
    r.add(space_span(selected));
    assert(r@ =~= file_row(*f, selected, width as int));
    r
}

fn draw_file(f: &TrackedFile, selected: bool, width: usize) -> (r: Line)
    ensures
        r@ == file_row(*f, selected, width as int),
{
    match f.state {
        FileState::Reverted | FileState::Deleted | FileState::Removed => draw_gone(
            f,
            selected,
            width,
        ),
        _ => draw_live(f, selected, width),
    }
}

/// The rows of the files in view: as many as there is room for, from the first row in view on.
pub open spec fn file_rows(
    files: Seq<TrackedFile>,
    p: FileChangesPopupState,
    width: int,
    height: int,
) -> Seq<Seq<SpanView>> {
    let found = found_files(files, p.search@);
    let left = less(found.len() as int, p.scroll as int);
    Seq::new(
        (if left < height {
            left
        } else {
            height
        }) as nat,
        |i: int|
            file_row(files[found[p.scroll + i]], p.scroll + i == p.is_selected, width),
    )
}

/// The rows of the files in view, where there is room for `height` of them.
pub fn draw_files(
    files: &Vec<TrackedFile>,
    p: &FileChangesPopupState,
    width: u16,
    height: u16,
) -> (r: Vec<Line>)
    ensures
        line_views(r@) == file_rows(files@, *p, width as int, height as int),
{
    let found: Vec<usize> = find_files(files, p.search.as_str());
    let ghost all = found_files(files@, p.search@);
    assert(all.len() == found@.len());
    let total: usize = found.len();
    let scroll: usize = p.scroll;
    let left: usize = if scroll < total {
        total - scroll
    } else {
        0
    };
    let count: usize = if left < height as usize {
        left
    } else {
        height as usize
    };
    let ghost rows = file_rows(files@, *p, width as int, height as int);
    let mut r: Vec<Line> = Vec::new();
    let mut i: usize = 0;
    assert(line_views(r@) =~= rows.take(0));
    while i < count
        invariant
            i <= count,
            count == rows.len(),
            count > 0 ==> count <= total - scroll,
            scroll == p.scroll,
            total == found@.len(),
            all == positions(found@),
            all == found_files(files@, p.search@),
            all.len() == found@.len(),
            forall|k: int| 0 <= k < found@.len() ==> #[trigger] found@[k] < files@.len(),
            rows == file_rows(files@, *p, width as int, height as int),
            line_views(r@) == rows.take(i as int),
        decreases count - i,
    {
        let at: usize = scroll + i;
        assert(all[at as int] == found@[at as int]);
        let l: Line = draw_file(&files[found[at]], at == p.is_selected, width as usize);
        assert(rows.take(i + 1) =~= rows.take(i as int).push(rows[i as int]));
        assert(l@ == rows[i as int]);
        proof {
            crate::style::lemma_line_views_push(r@, l);
        }
        r.push(l);
        i += 1;
    }
    assert(rows.take(i as int) =~= rows);
    r
}

/// A key and what it does.
pub open spec fn hint(key: Seq<char>, text: Seq<char>) -> Seq<SpanView> {
    seq![
        piece(key, Style::plain().fg(Color::Theme(Tone::Cyan))),
        piece(text, Style::plain().fg(Color::Theme(Tone::DarkGray))),
    ]
}

/// The keys of the popup.
pub open spec fn footer_row() -> Seq<SpanView> {
    seq![piece(" "@, Style::plain())] + hint("↑/↓"@, ": Navigate  "@) + hint(
        "Ctrl+x"@,
        ": Revert  "@,
    ) + hint("Ctrl+z"@, ": Revert All  "@) + hint("Ctrl+n"@, ": Edit  "@) + hint(
        "Esc"@,
        ": Close"@,
    )
}

fn add_hint(l: &mut Line, key: &str, text: &str)
    ensures
        final(l)@ == old(l)@ + hint(key@, text@),
{
    l.add(Span::styled(key, Style::plain().fg(Color::Theme(Tone::Cyan))));
    l.add(Span::styled(text, Style::plain().fg(Color::Theme(Tone::DarkGray))));
    assert(l@ =~= old(l)@ + hint(key@, text@));
}

fn draw_footer() -> (r: Line)
    ensures
        r@ == footer_row(),
{
    let mut r: Line = Line::of(Span::raw(" "));
    add_hint(&mut r, "↑/↓", ": Navigate  ");
    add_hint(&mut r, "Ctrl+x", ": Revert  ");
    add_hint(&mut r, "Ctrl+z", ": Revert All  ");
    add_hint(&mut r, "Ctrl+n", ": Edit  ");
    add_hint(&mut r, "Esc", ": Close");
    r
}

/// What the popup with the changed files shows, and where.
#[derive(Debug)]
pub struct FileChangesPopup {
    pub area: Rect,
    pub title_area: Rect,
    pub title: Line,
    pub search_area: Rect,
    /// The row with the search, between two empty ones.
    pub search: Vec<Line>,
    pub files_area: Rect,
    pub files: Vec<Line>,
    pub footer_area: Rect,
    pub footer: Line,
}

/// What the popup shows, and where.
pub open spec fn popup_drawn(s: AppState, screen: Rect, r: FileChangesPopup) -> bool {
    let files = s.side_panel_state.changeset.files@;
    let p = s.file_changes_popup_state;
    let inner = inside(popup_area(screen));
    let empty = Seq::<SpanView>::empty();
    &&& r.area == popup_area(screen)
    &&& r.title@ == title_row(inner.width as int, found_files(files, p.search@).len())
    &&& line_views(r.search@) == seq![empty, search_row(p.search@), empty]
    &&& line_views(r.files@) == file_rows(
        files,
        p,
        inner.width as int,
        r.files_area.height as int,
    )
    &&& r.footer@ == footer_row()
    &&& seq![r.title_area, r.search_area, r.files_area, r.footer_area] == popup_rows(inner)
}

/// What the popup with the changed files shows on a screen that has room for its border.
pub fn render_file_changes_popup(screen: Rect, state: &AppState) -> (r: FileChangesPopup)
    requires
        screen.width >= 2,
        screen.height >= 5,
    ensures
        popup_drawn(*state, screen, r),
{
    let area: Rect = place_popup(screen);
    let inner: Rect = Rect {
        x: area.x + 1,
        y: area.y + 1,
        width: area.width - 2,
        height: area.height - 2,
    };
    let rows: Vec<Rect> = lay_out_rows(inner);
    let files: &Vec<TrackedFile> = &state.side_panel_state.changeset.files;
    let p: &FileChangesPopupState = &state.file_changes_popup_state;
    let found: Vec<usize> = find_files(files, p.search.as_str());
    assert(positions(found@).len() == found@.len());
    let mut search: Vec<Line> = Vec::new();
    search.push(Line::empty());
    search.push(draw_search(p.search.as_str()));
    search.push(Line::empty());
    assert(line_views(search@) =~= seq![
        Seq::<SpanView>::empty(),
        search_row(p.search@),
        Seq::<SpanView>::empty(),
    ]);
    let r: FileChangesPopup = FileChangesPopup {
        area,
        title_area: rows[0],
        title: draw_title(inner.width, found.len()),
        search_area: rows[1],
        search,
        files_area: rows[2],
        files: draw_files(files, p, inner.width, rows[2].height),
        footer_area: rows[3],
        footer: draw_footer(),
    };
    assert(rows@ =~= seq![r.title_area, r.search_area, r.files_area, r.footer_area]);
    r
}

/// The search leaves a file exactly where its name holds what is searched for, whatever the case, or
/// nothing is searched for.
pub proof fn law_search_leaves(files: Seq<TrackedFile>, search: Seq<char>, k: int)
    ensures
        found_files(files, search).contains(k) <==> 0 <= k < files.len() && (lower_text(
            search,
        ).len() == 0 || holds_text(lower_text(files[k].display_name@), lower_text(search))),
    decreases files.len(),
{
    if files.len() > 0 {
        let rest = files.drop_last();
        let w = found_files(rest, search);
        let r = found_files(files, search);
        let n = files.len() - 1;
        law_search_leaves(rest, search, k);
        law_found_files(rest, search);
        if r.contains(k) {
            let i = choose|i: int| 0 <= i < r.len() && r[i] == k;
            if i < w.len() {
                assert(w[i] == k);
            }
        }
        if 0 <= k < n && w.contains(k) {
            let i = choose|i: int| 0 <= i < w.len() && w[i] == k;
            assert(r[i] == k);
        }
        if k == n && name_found(files[n].display_name@, search) {
            assert(r[w.len() as int] == n);
        }
    }
}

/// Undoing asks for the selected one of the files that the search leaves, by its path, and for no
/// other; nothing is asked for a deleted file without a backup, or where none is selected.
pub proof fn law_revert_asks_for_the_selected(
    pre: AppState,
    post: AppState,
    sent: Outbox,
    out: Outbox,
)
    requires
        revert_asked(pre, post, sent, out),
    ensures
        post == pre,
        ({
            let p = pre.file_changes_popup_state;
            let files = pre.side_panel_state.changeset.files@;
            let found = found_files(files, p.search@);
            &&& p.is_selected >= found.len() ==> out == sent
            &&& p.is_selected < found.len() ==> {
                let f = files[found[p.is_selected as int]];
                &&& f.state == FileState::Deleted && f.backup_path is None ==> out == sent
                &&& f.state != FileState::Deleted || f.backup_path is Some ==> {
                    &&& out.effects@.len() == sent.effects@.len() + 1
                    &&& out.effects@.drop_last() == sent.effects@
                    &&& out.effects@.last() matches Effect::RevertFile(path)
                    &&& path@ == f.path@
                }
            }
        }),
{
}

/// Undoing a file changes the state of that file alone, and no file is lost.
pub proof fn law_revert_changes_one_file(
    pre: AppState,
    post: AppState,
    path: Seq<char>,
    message: Seq<char>,
    exists: bool,
    i: int,
)
    requires
        file_reverted(pre, post, path, message, exists),
        0 <= i < pre.side_panel_state.changeset.files@.len(),
    ensures
        ({
            let before = pre.side_panel_state.changeset.files@;
            let after = post.side_panel_state.changeset.files@;
            &&& after.len() == before.len()
            &&& before[i].path@ != path ==> after[i] == before[i]
            &&& after[i].path == before[i].path
            &&& after[i].edits == before[i].edits
            &&& before[i].path@ == path && (forall|j: int|
                0 <= j < i ==> (#[trigger] before[j]).path@ != path) ==> {
                &&& !exists ==> after[i].state == FileState::Deleted
                &&& exists && before[i].state == FileState::Modified ==> after[i].state
                    == FileState::Reverted
                &&& exists && before[i].state == FileState::Created ==> after[i].state
                    == FileState::Deleted
                &&& exists && before[i].state == FileState::Removed ==> after[i].state
                    == FileState::Modified
            }
        }),
{
    let before = pre.side_panel_state.changeset.files@;
    crate::changeset::law_index_of(before, path);
    assert(before[i].path@ == before[i].path@);
}

/// Each row of the popup shows a file that the search leaves, in their order from the first in view
/// on: its name, and how many lines were added and removed, or what became of it.
pub proof fn law_rows_show_files(s: AppState, screen: Rect, drawn: FileChangesPopup, i: int)
    requires
        popup_drawn(s, screen, drawn),
        0 <= i < drawn.files@.len(),
    ensures
        ({
            let files = s.side_panel_state.changeset.files@;
            let p = s.file_changes_popup_state;
            let found = found_files(files, p.search@);
            let f = files[found[p.scroll + i]];
            let row = drawn.files@[i]@;
            &&& p.scroll + i < found.len()
            &&& row[1].content == f.display_name@
            &&& f.state == FileState::Created || f.state == FileState::Modified ==> {
                &&& row[3].content == "+"@ + decimal(line_sum(f.edits@, true))
                &&& row[5].content == "-"@ + decimal(line_sum(f.edits@, false))
            }
            &&& f.state == FileState::Reverted ==> row[3].content == "REVERTED"@
            &&& f.state == FileState::Deleted ==> row[3].content == "DELETED"@
            &&& f.state == FileState::Removed ==> row[3].content == "REMOVED"@
        }),
{
    let rows = line_views(drawn.files@);
    assert(rows.len() == drawn.files@.len());
    assert(rows[i] == drawn.files@[i]@);
}

/// The lines of edits add up: those of one more edit come on top of those before, as far as the
/// machine counts.
pub proof fn law_line_sum(edits: Seq<FileEdit>, e: FileEdit)
    ensures
        line_sum(edits, true) + e.lines_added <= u64::MAX ==> line_sum(edits.push(e), true)
            == line_sum(edits, true) + e.lines_added,
        line_sum(edits, false) + e.lines_removed <= u64::MAX ==> line_sum(edits.push(e), false)
            == line_sum(edits, false) + e.lines_removed,
        line_sum(Seq::<FileEdit>::empty(), true) == 0,
        line_sum(Seq::<FileEdit>::empty(), false) == 0,
{
    assert(edits.push(e).drop_last() =~= edits);
}

/// Undoing everything undoes every file that is not undone yet and can be: of two lists, those of the
/// first and then those of the second.
pub proof fn law_paths_to_revert(a: Seq<TrackedFile>, b: Seq<TrackedFile>, f: TrackedFile)
    ensures
        paths_to_revert(a + b) == paths_to_revert(a) + paths_to_revert(b),
        f.state == FileState::Reverted || (f.state == FileState::Deleted && f.backup_path is None)
            ==> paths_to_revert(seq![f]).len() == 0,
        f.state != FileState::Reverted && (f.state != FileState::Deleted || f.backup_path is Some)
            ==> paths_to_revert(seq![f]) == seq![f.path@],
    decreases b.len(),
{
    assert(seq![f].drop_last() =~= Seq::<TrackedFile>::empty());
    assert(paths_to_revert(Seq::<TrackedFile>::empty()) =~= Seq::<Seq<char>>::empty());
    if b.len() == 0 {
        assert(a + b =~= a);
    } else {
        law_paths_to_revert(a, b.drop_last(), f);
        assert((a + b).drop_last() =~= a + b.drop_last());
        assert(paths_to_revert(a + b) =~= paths_to_revert(a) + paths_to_revert(b));
    }
}

/// Only what was undone changes, however many files are undone at once: a file of which no undoing
/// succeeded stays as it is, and none is lost.
pub proof fn law_only_undone_files_change(files: Seq<TrackedFile>, v: Seq<Reverted>, i: int)
    requires
        0 <= i < files.len(),
        forall|k: int|
            0 <= k < v.len() && (#[trigger] v[k]).done ==> v[k].path@ != files[i].path@,
    ensures
        files_after_all(files, v).len() == files.len(),
        files_after_all(files, v)[i] == files[i],
    decreases v.len(),
{
    if v.len() > 0 {
        let rest = v.drop_last();
        assert(forall|k: int| 0 <= k < rest.len() ==> #[trigger] rest[k] == v[k]);
        law_only_undone_files_change(files, rest, i);
        let mid = files_after_all(files, rest);
        assert(v[v.len() - 1] == v.last());
        crate::changeset::law_index_of(mid, v.last().path@);
    }
}

/// How many were undone: of two lists, those of both; one counts where it was.
pub proof fn law_count_done(a: Seq<Reverted>, b: Seq<Reverted>, x: Reverted)
    ensures
        count_done(a + b) == count_done(a) + count_done(b),
        count_done(seq![x]) == (if x.done {
            1nat
        } else {
            0nat
        }),
    decreases b.len(),
{
    assert(seq![x].drop_last() =~= Seq::<Reverted>::empty());
    assert(count_done(Seq::<Reverted>::empty()) == 0);
    if b.len() == 0 {
        assert(a + b =~= a);
    } else {
        law_count_done(a, b.drop_last(), x);
        assert((a + b).drop_last() =~= a + b.drop_last());
    }
}

} // verus!
