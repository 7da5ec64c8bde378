//! The files that a session changed.

use vstd::prelude::*;
use crate::models::ToolCall;
use crate::text::same_text;

verus! {

/// A section of the side panel.
#[derive(Clone, Copy, Debug, PartialEq, Eq, Structural)]
pub enum SidePanelSection {
    Context,
    Billing,
    Tasks,
    Changeset,
}

impl SidePanelSection {
    pub open spec fn next_spec(self) -> SidePanelSection {
        match self {
            SidePanelSection::Context => SidePanelSection::Billing,
            SidePanelSection::Billing => SidePanelSection::Tasks,
            SidePanelSection::Tasks => SidePanelSection::Changeset,
            SidePanelSection::Changeset => SidePanelSection::Context,
        }
    }

    /// The section below; below the last, the first.
    #[verifier::when_used_as_spec(next_spec)]
    pub fn next(self) -> (r: SidePanelSection)
        ensures
            r == self.next_spec(),
    {
        match self {
            SidePanelSection::Context => SidePanelSection::Billing,
            SidePanelSection::Billing => SidePanelSection::Tasks,
            SidePanelSection::Tasks => SidePanelSection::Changeset,
            SidePanelSection::Changeset => SidePanelSection::Context,
        }
    }
}

/// Going on from section to section comes back after the last.
pub proof fn law_sections_cycle(s: SidePanelSection)
    ensures
        s.next().next().next().next() == s,
        s.next() != s,
        s.next().next() != s,
{
}

/// Which sections are collapsed.
#[derive(Clone, Copy, Debug, PartialEq, Eq, Structural)]
pub struct SectionFlags {
    pub context: bool,
    pub billing: bool,
    pub tasks: bool,
    pub changeset: bool,
}

impl SectionFlags {
    pub open spec fn flag(self, s: SidePanelSection) -> bool {
        match s {
            SidePanelSection::Context => self.context,
            SidePanelSection::Billing => self.billing,
            SidePanelSection::Tasks => self.tasks,
            SidePanelSection::Changeset => self.changeset,
        }
    }

    pub open spec fn with(self, s: SidePanelSection, on: bool) -> SectionFlags {
        match s {
            SidePanelSection::Context => SectionFlags { context: on, ..self },
            SidePanelSection::Billing => SectionFlags { billing: on, ..self },
            SidePanelSection::Tasks => SectionFlags { tasks: on, ..self },
            SidePanelSection::Changeset => SectionFlags { changeset: on, ..self },
        }
    }

    pub open spec fn toggled(self, s: SidePanelSection) -> SectionFlags {
        self.with(s, !self.flag(s))
    }

    /// Whether the section is collapsed.
    pub fn get(&self, s: SidePanelSection) -> (r: bool)
        ensures
            r == self.flag(s),
    {
        match s {
            SidePanelSection::Context => self.context,
            SidePanelSection::Billing => self.billing,
            SidePanelSection::Tasks => self.tasks,
            SidePanelSection::Changeset => self.changeset,
        }
    }

    /// Collapses the section where it is open, and opens it where it is collapsed.
    pub fn toggle(&mut self, s: SidePanelSection)
        ensures
            *final(self) == old(self).toggled(s),
    {
        match s {
            SidePanelSection::Context => {
                self.context = !self.context;
            },
            SidePanelSection::Billing => {
                self.billing = !self.billing;
            },
            SidePanelSection::Tasks => {
                self.tasks = !self.tasks;
            },
            SidePanelSection::Changeset => {
                self.changeset = !self.changeset;
            },
        }
    }
}

/// Toggling a section twice changes nothing; toggling it leaves the other sections alone.
pub proof fn law_toggle_section(f: SectionFlags, s: SidePanelSection, t: SidePanelSection)
    ensures
        f.toggled(s).toggled(s) == f,
        f.toggled(s).flag(s) == !f.flag(s),
        t != s ==> f.toggled(s).flag(t) == f.flag(t),
{
}

/// What became of a file.
#[derive(Clone, Copy, Debug, PartialEq, Eq, Structural)]
pub enum FileState {
    Created,
    Modified,
    /// Removed by a tool.
    Removed,
    Reverted,
    /// No longer on disk.
    Deleted,
}

/// An edit of a file.
#[derive(Debug)]
pub struct FileEdit {
    pub summary: String,
    pub lines_added: usize,
    pub lines_removed: usize,
    pub diff_preview: Option<String>,
    pub tool_call: Option<ToolCall>,
    pub user_message_index: usize,
}

/// A file that the session changed.
#[derive(Debug)]
pub struct TrackedFile {
    pub path: String,
    pub display_name: String,
    pub state: FileState,
    pub edits: Vec<FileEdit>,
    /// Where a removed file was put.
    pub backup_path: Option<String>,
    /// Where the file's first content was put.
    pub original_backup: Option<String>,
}

/// The files that a session changed, in the order in which they were changed first.
#[derive(Debug)]
pub struct Changeset {
    pub files: Vec<TrackedFile>,
}

/// Where the file with the given path is.
pub open spec fn index_of(files: Seq<TrackedFile>, path: Seq<char>) -> Option<int>
    decreases files.len(),
{
    if files.len() == 0 {
        None
    } else if files[0].path@ == path {
        Some(0)
    } else {
        match index_of(files.drop_first(), path) {
            Some(i) => Some(i + 1),
            None => None,
        }
    }
}

/// How many of the files are not reverted.
pub open spec fn live_count(files: Seq<TrackedFile>) -> nat
    decreases files.len(),
{
    if files.len() == 0 {
        0
    } else {
        live_count(files.drop_last()) + (if files.last().state == FileState::Reverted {
            0nat
        } else {
            1nat
        })
    }
}

proof fn lemma_index_of(files: Seq<TrackedFile>, path: Seq<char>)
    ensures
        match index_of(files, path) {
            Some(i) => 0 <= i < files.len() && files[i].path@ == path && forall|j: int|
                0 <= j < i ==> (#[trigger] files[j]).path@ != path,
            None => forall|j: int| 0 <= j < files.len() ==> (#[trigger] files[j]).path@ != path,
        },
    decreases files.len(),
{
    if files.len() > 0 && files[0].path@ != path {
        let rest = files.drop_first();
        lemma_index_of(rest, path);
        match index_of(rest, path) {
            Some(k) => {
                assert forall|j: int| 0 <= j < k + 1 implies (#[trigger] files[j]).path@ != path by {
                    if j > 0 {
                        assert(rest[j - 1].path@ != path);
                    }
                }
            },
            None => {
                assert forall|j: int| 0 <= j < files.len() implies (#[trigger] files[j]).path@
                    != path by {
                    if j > 0 {
                        assert(rest[j - 1].path@ != path);
                    }
                }
            },
        }
    }
}

/// The file as it is after another edit.
pub open spec fn edited(old_file: TrackedFile, new_file: TrackedFile, edit: FileEdit) -> bool {
    &&& new_file.edits@ == old_file.edits@.push(edit)
    &&& new_file == (TrackedFile {
        edits: new_file.edits,
        state: if old_file.state == FileState::Created {
            FileState::Created
        } else {
            FileState::Modified
        },
        ..old_file
    })
}

/// The files after an edit of one.
pub open spec fn file_tracked(
    pre: Seq<TrackedFile>,
    post: Seq<TrackedFile>,
    path: Seq<char>,
    display_name: Seq<char>,
    edit: FileEdit,
    created: bool,
) -> bool {
    match index_of(pre, path) {
        Some(i) => {
            &&& 0 <= i < pre.len()
            &&& post.len() == pre.len()
            &&& forall|j: int| 0 <= j < pre.len() && j != i ==> #[trigger] post[j] == pre[j]
            &&& edited(pre[i], post[i], edit)
        },
        None => {
            let f = post.last();
            &&& post.len() == pre.len() + 1
            &&& post.drop_last() == pre
            &&& f.path@ == path
            &&& f.display_name@ == display_name
            &&& f.state == (if created {
                FileState::Created
            } else {
                FileState::Modified
            })
            &&& f.edits@ == seq![edit]
            &&& f.backup_path is None
            &&& f.original_backup is None
        },
    }
}

/// The files after one was removed.
pub open spec fn file_removed(
    pre: Seq<TrackedFile>,
    post: Seq<TrackedFile>,
    path: Seq<char>,
    display_name: Seq<char>,
    backup: Option<String>,
) -> bool {
    match index_of(pre, path) {
        Some(i) => 0 <= i < pre.len() && post == pre.update(
            i,
            TrackedFile { state: FileState::Removed, backup_path: backup, ..pre[i] },
        ),
        None => {
            let f = post.last();
            &&& post.len() == pre.len() + 1
            &&& post.drop_last() == pre
            &&& f.path@ == path
            &&& f.display_name@ == display_name
            &&& f.state == FileState::Removed
            &&& f.edits@.len() == 0
            &&& f.backup_path == backup
            &&& f.original_backup is None
        },
    }
}

/// The files after the first content of one was put away.
pub open spec fn backup_noted(
    pre: Seq<TrackedFile>,
    post: Seq<TrackedFile>,
    path: Seq<char>,
    backup: String,
) -> bool {
    match index_of(pre, path) {
        Some(i) => 0 <= i < pre.len() && post == pre.update(
            i,
            TrackedFile { original_backup: Some(backup), ..pre[i] },
        ),
        None => post == pre,
    }
}

impl Changeset {
    /// No file was changed.
    pub fn new() -> (r: Changeset)
        ensures
            r.files@.len() == 0,
    {
        Changeset { files: Vec::new() }
    }

    /// How many files are changed and not reverted.
    pub fn file_count(&self) -> (n: usize)
        ensures
            n == live_count(self.files@),
            n <= self.files@.len(),
    {
        let mut n: usize = 0;
        let mut i: usize = 0;
        assert(self.files@.take(0) =~= Seq::<TrackedFile>::empty());
        while i < self.files.len()
            invariant
                i <= self.files@.len(),
                n <= i,
                n == live_count(self.files@.take(i as int)),
            decreases self.files@.len() - i,
        {
            assert(self.files@.take(i + 1).drop_last() =~= self.files@.take(i as int));
            if self.files[i].state != FileState::Reverted {
                n += 1;
            }
            i += 1;
        }
        assert(self.files@.take(i as int) =~= self.files@);
        n
    }

    /// Where the file with the given path is.
    pub fn find(&self, path: &str) -> (r: Option<usize>)
        ensures
            r is Some <==> index_of(self.files@, path@) is Some,
            r is Some ==> r->0 < self.files@.len() && index_of(self.files@, path@) == Some(
                r->0 as int,
            ),
    {
        let ghost files = self.files@;
        proof {
            lemma_index_of(files, path@);
        }
        let mut i: usize = 0;
        while i < self.files.len()
            invariant
                i <= self.files@.len(),
                files == self.files@,
                forall|j: int| 0 <= j < i ==> (#[trigger] files[j]).path@ != path@,
            decreases self.files@.len() - i,
        {
            if same_text(self.files[i].path.as_str(), path) {
                proof {
                    lemma_index_of(files, path@);
                }
                return Some(i);
            }
            i += 1;
        }
        None
    }

    /// Records an edit of a file. A file is created by its first edit or modified by it; a further
    /// edit of a created file leaves it created.
    pub fn track_file(&mut self, path: &str, display_name: String, edit: FileEdit, created: bool)
        ensures
            file_tracked(old(self).files@, final(self).files@, path@, display_name@, edit, created),
    {
        proof {
            lemma_index_of(self.files@, path@);
        }
        match self.find(path) {
            Some(i) => {
                let ghost before = self.files@;
                let mut f: TrackedFile = self.files.remove(i);
                f.edits.push(edit);
                if f.state != FileState::Created {
                    f.state = FileState::Modified;
                }
                self.files.insert(i, f);
                proof {
                    assert(self.files@ =~= before.update(i as int, f));
                }
            },
            None => {
                let ghost before = self.files@;
                let mut edits: Vec<FileEdit> = Vec::new();
                edits.push(edit);
                assert(edits@ =~= seq![edit]);
                self.files.push(
                    TrackedFile {
                        path: path.to_owned(),
                        display_name,
                        state: if created {
                            FileState::Created
                        } else {
                            FileState::Modified
                        },
                        edits,
                        backup_path: None,
                        original_backup: None,
                    },
                );
                assert(self.files@.drop_last() =~= before);
            },
        }
    }

    /// Gives a file another state.
    pub fn set_state(&mut self, i: usize, state: FileState)
        requires
            i < old(self).files@.len(),
        ensures
            final(self).files@ == old(self).files@.update(
                i as int,
                TrackedFile { state, ..old(self).files@[i as int] },
            ),
    {
        let ghost before = self.files@;
        let mut f: TrackedFile = self.files.remove(i);
        f.state = state;
        self.files.insert(i, f);
        assert(self.files@ =~= before.update(
            i as int,
            TrackedFile { state, ..before[i as int] },
        ));
    }

    /// Records that a file was removed, and where it was put. A file that was not changed before is
    /// recorded too.
    pub fn mark_removed(&mut self, path: &str, display_name: String, backup: Option<String>)
        ensures
            file_removed(old(self).files@, final(self).files@, path@, display_name@, backup),
    {
        proof {
            lemma_index_of(self.files@, path@);
        }
        let ghost before = self.files@;
        match self.find(path) {
            Some(i) => {
                let mut f: TrackedFile = self.files.remove(i);
                f.state = FileState::Removed;
                f.backup_path = backup;
                self.files.insert(i, f);
                assert(self.files@ =~= before.update(
                    i as int,
                    TrackedFile {
                        state: FileState::Removed,
                        backup_path: backup,
                        ..before[i as int]
                    },
                ));
            },
            None => {
                self.files.push(
                    TrackedFile {
                        path: path.to_owned(),
                        display_name,
                        state: FileState::Removed,
                        edits: Vec::new(),
                        backup_path: backup,
                        original_backup: None,
                    },
                );
                assert(self.files@.drop_last() =~= before);
            },
        }
    }

    /// Records where the first content of a file was put.
    pub fn set_original_backup(&mut self, path: &str, backup: String)
        ensures
            backup_noted(old(self).files@, final(self).files@, path@, backup),
    {
        proof {
            lemma_index_of(self.files@, path@);
        }
        let ghost before = self.files@;
        match self.find(path) {
            Some(i) => {
                let mut f: TrackedFile = self.files.remove(i);
                f.original_backup = Some(backup);
                self.files.insert(i, f);
                assert(self.files@ =~= before.update(
                    i as int,
                    TrackedFile { original_backup: Some(backup), ..before[i as int] },
                ));
            },
            None => {},
        }
    }
}

/// What a file's state is after it was reverted: deleted, where it is gone from disk. A restored
/// file is back as it was before it was deleted or removed; any other has its edits undone.
pub open spec fn state_after_revert(old_state: FileState, exists: bool) -> FileState {
    if !exists {
        FileState::Deleted
    } else {
        match old_state {
            FileState::Deleted => FileState::Created,
            FileState::Removed => FileState::Modified,
            FileState::Created => FileState::Deleted,
            _ => FileState::Reverted,
        }
    }
}

/// What a file's state is after it was reverted.
pub fn reverted_state(old_state: FileState, exists: bool) -> (r: FileState)
    ensures
        r == state_after_revert(old_state, exists),
{
    if !exists {
        return FileState::Deleted;
    }
    match old_state {
        FileState::Deleted => FileState::Created,
        FileState::Removed => FileState::Modified,
        FileState::Created => FileState::Deleted,
        _ => FileState::Reverted,
    }
}

/// The first file with a path is found: none before it has it; where none is found, none has it.
pub proof fn law_index_of(files: Seq<TrackedFile>, path: Seq<char>)
    ensures
        match index_of(files, path) {
            Some(i) => 0 <= i < files.len() && files[i].path@ == path && forall|j: int|
                0 <= j < i ==> (#[trigger] files[j]).path@ != path,
            None => forall|j: int| 0 <= j < files.len() ==> (#[trigger] files[j]).path@ != path,
        },
{
    lemma_index_of(files, path);
}

/// An edit is recorded for its file alone: a known file gets it behind its other edits and counts
/// as modified, unless the session created it; an unknown file comes last, with this edit alone.
/// Every other file stays as it is and where it is.
pub proof fn law_edit_is_tracked(
    pre: Seq<TrackedFile>,
    post: Seq<TrackedFile>,
    path: Seq<char>,
    display_name: Seq<char>,
    edit: FileEdit,
    created: bool,
)
    requires
        file_tracked(pre, post, path, display_name, edit, created),
    ensures
        (exists|j: int| 0 <= j < pre.len() && (#[trigger] pre[j]).path@ == path) ==> exists|i: int|
            {
                &&& 0 <= i < pre.len()
                &&& (#[trigger] pre[i]).path@ == path
                &&& post.len() == pre.len()
                &&& post[i].path == pre[i].path
                &&& post[i].edits@ == pre[i].edits@.push(edit)
                &&& post[i].state == (if pre[i].state == FileState::Created {
                    FileState::Created
                } else {
                    FileState::Modified
                })
                &&& post[i].original_backup == pre[i].original_backup
                &&& forall|j: int| 0 <= j < pre.len() && j != i ==> #[trigger] post[j] == pre[j]
            },
        !(exists|j: int| 0 <= j < pre.len() && (#[trigger] pre[j]).path@ == path) ==> {
            &&& post.len() == pre.len() + 1
            &&& forall|j: int| 0 <= j < pre.len() ==> #[trigger] post[j] == pre[j]
            &&& post.last().path@ == path
            &&& post.last().display_name@ == display_name
            &&& post.last().edits@.len() == 1
            &&& post.last().edits@[0] == edit
            &&& post.last().state == (if created {
                FileState::Created
            } else {
                FileState::Modified
            })
        },
{
    law_index_of(pre, path);
    match index_of(pre, path) {
        Some(i) => {
            assert(pre[i].path@ == path);
        },
        None => {
            assert(forall|j: int|
                0 <= j < pre.len() ==> #[trigger] post[j] == post.drop_last()[j]);
        },
    }
}

/// A removed file keeps its edits and counts as removed, with the place where it was put; one that
/// was unknown comes last. Every other file stays as it is.
pub proof fn law_removal_is_tracked(
    pre: Seq<TrackedFile>,
    post: Seq<TrackedFile>,
    path: Seq<char>,
    display_name: Seq<char>,
    backup: Option<String>,
)
    requires
        file_removed(pre, post, path, display_name, backup),
    ensures
        (exists|j: int| 0 <= j < pre.len() && (#[trigger] pre[j]).path@ == path) ==> exists|i: int|
            {
                &&& 0 <= i < pre.len()
                &&& (#[trigger] pre[i]).path@ == path
                &&& post.len() == pre.len()
                &&& post[i].path == pre[i].path
                &&& post[i].edits == pre[i].edits
                &&& post[i].state == FileState::Removed
                &&& post[i].backup_path == backup
                &&& forall|j: int| 0 <= j < pre.len() && j != i ==> #[trigger] post[j] == pre[j]
            },
        !(exists|j: int| 0 <= j < pre.len() && (#[trigger] pre[j]).path@ == path) ==> {
            &&& post.len() == pre.len() + 1
            &&& forall|j: int| 0 <= j < pre.len() ==> #[trigger] post[j] == pre[j]
            &&& post.last().path@ == path
            &&& post.last().state == FileState::Removed
            &&& post.last().backup_path == backup
        },
{
    law_index_of(pre, path);
    match index_of(pre, path) {
        Some(i) => {
            assert(pre[i].path@ == path);
        },
        None => {
            assert(forall|j: int|
                0 <= j < pre.len() ==> #[trigger] post[j] == post.drop_last()[j]);
        },
    }
}

/// The files that count: of two lists, those of both; a single file counts unless it was reverted.
pub proof fn law_live_count(a: Seq<TrackedFile>, b: Seq<TrackedFile>, f: TrackedFile)
    ensures
        live_count(a + b) == live_count(a) + live_count(b),
        live_count(seq![f]) == (if f.state == FileState::Reverted {
            0nat
        } else {
            1nat
        }),
    decreases b.len(),
{
    assert(seq![f].drop_last() =~= Seq::<TrackedFile>::empty());
    assert(live_count(Seq::<TrackedFile>::empty()) == 0);
    if b.len() == 0 {
        assert(a + b =~= a);
    } else {
        law_live_count(a, b.drop_last(), f);
        assert((a + b).drop_last() =~= a + b.drop_last());
    }
}

/// Reverting never leaves a file that is gone from disk as anything but deleted, undoes a creation,
/// a deletion and a removal, and leaves any other file as reverted.
pub proof fn law_state_after_revert(s: FileState, exists: bool)
    ensures
        !exists ==> state_after_revert(s, exists) == FileState::Deleted,
        exists ==> {
            &&& s == FileState::Created <==> state_after_revert(s, exists) == FileState::Deleted
            &&& s == FileState::Deleted <==> state_after_revert(s, exists) == FileState::Created
            &&& s == FileState::Removed <==> state_after_revert(s, exists) == FileState::Modified
            &&& s == FileState::Modified || s == FileState::Reverted <==> state_after_revert(
                s,
                exists,
            ) == FileState::Reverted
        },
{
}

/// The place of a file's first content is noted for that file alone.
pub proof fn law_backup_is_noted(
    pre: Seq<TrackedFile>,
    post: Seq<TrackedFile>,
    path: Seq<char>,
    backup: String,
    i: int,
)
    requires
        backup_noted(pre, post, path, backup),
        0 <= i < pre.len(),
    ensures
        post.len() == pre.len(),
        pre[i].path@ != path ==> post[i] == pre[i],
        post[i].edits == pre[i].edits,
        post[i].state == pre[i].state,
        pre[i].path@ == path && (forall|j: int| 0 <= j < i ==> (#[trigger] pre[j]).path@ != path)
            ==> post[i].original_backup == Some(backup),
{
    law_index_of(pre, path);
    assert(pre[i].path@ == pre[i].path@);
}

} // verus!
