//! What a successful tool call did to files.

use vstd::prelude::*;
use crate::app::AppState;
use crate::app::is_empty;
use crate::arguments::Field;
use crate::arguments::FieldView;
use crate::arguments::as_flag;
use crate::arguments::as_text;
use crate::arguments::either;
use crate::arguments::field;
use crate::arguments::field_views;
use crate::arguments::first_of;
use crate::arguments::flag_value;
use crate::arguments::get;
use crate::arguments::json_object;
use crate::arguments::parse_arguments;
use crate::arguments::text_value;
use crate::changeset::FileEdit;
use crate::changeset::FileState;
use crate::changeset::TrackedFile;
use crate::changeset::backup_noted;
use crate::changeset::file_removed;
use crate::changeset::file_tracked;
use crate::changeset::index_of;
use crate::changeset::law_index_of;
use crate::models::ToolCall;
use crate::models::ToolCallResult;
use crate::models::ToolCallResultStatus;
use crate::models::copy_text;
use crate::models::text_of;
use crate::text::chars_of;
use crate::text::contains;
use crate::text::find_chars;
use crate::text::find_from;
use crate::text::has_prefix;
use crate::text::holds_text;
use crate::text::is_space;
use crate::text::join;
use crate::text::joined;
use crate::text::last_piece;
use crate::text::law_trim;
use crate::text::lines;
use crate::text::lines_ended;
use crate::text::lines_of;
use crate::text::next_char;
use crate::text::occurs_at;
use crate::text::same_text;
use crate::text::starts_with;
use crate::text::string_of;
use crate::text::texts;
use crate::text::trim;
use crate::text::trim_of;
use crate::types::SidePanelState;

verus! {

// ----- reading a result -----

/// The path between quotes behind `backup_path=`, where there is one.
pub open spec fn backup_in(s: Seq<char>) -> Option<Seq<char>> {
    match find_from(s, "backup_path=\""@, 0) {
        Some(i) => {
            let j = i + "backup_path=\""@.len();
            let e = next_char(s, '"', j);
            if e < s.len() {
                Some(s.subrange(j, e))
            } else {
                None
            }
        },
        None => None,
    }
}

/// The path between quotes behind `backup_path=`, where there is one.
pub fn extract_backup_path(result: &str) -> (r: Option<String>)
    ensures
        text_of(r) == backup_in(result@),
{
    let v: Vec<char> = chars_of(result);
    let p: Vec<char> = chars_of("backup_path=\"");
    proof {
        crate::text::lemma_find_from(result@, p@, 0);
    }
    match find_chars(&v, &p, 0) {
        Some(i) => {
            let j: usize = i + p.len();
            let e: usize = crate::text::find_char(&v, '"', j);
            if e < v.len() {
                Some(string_of(&v, j, e))
            } else {
                None
            }
        },
        None => None,
    }
}

/// Whether the line opens a block with a diff.
pub open spec fn opens_diff(line: Seq<char>) -> bool {
    has_prefix(trim_of(line), "```diff"@)
}

/// Whether the line ends a block.
pub open spec fn ends_block(line: Seq<char>) -> bool {
    has_prefix(trim_of(line), "```"@)
}

/// Whether the line is part of a diff's head.
pub open spec fn diff_head(line: Seq<char>) -> bool {
    has_prefix(line, "---"@) || has_prefix(line, "+++"@) || has_prefix(line, "@@"@)
}

/// How many lines the diffs of a text add and remove.
pub struct DiffStats {
    pub in_block: bool,
    pub added: nat,
    pub removed: nat,
}

/// The count after another line.
pub open spec fn counted(d: DiffStats, line: Seq<char>) -> DiffStats {
    if opens_diff(line) {
        DiffStats { in_block: true, ..d }
    } else if ends_block(line) && d.in_block {
        DiffStats { in_block: false, ..d }
    } else if !d.in_block || diff_head(line) {
        d
    } else if has_prefix(line, "+"@) {
        DiffStats { added: d.added + 1, ..d }
    } else if has_prefix(line, "-"@) {
        DiffStats { removed: d.removed + 1, ..d }
    } else {
        d
    }
}

/// The count of the first `n` lines.
pub open spec fn counted_lines(all: Seq<Seq<char>>, n: int) -> DiffStats
    decreases n,
{
    if n <= 0 || n > all.len() {
        DiffStats { in_block: false, added: 0, removed: 0 }
    } else {
        counted(counted_lines(all, n - 1), all[n - 1])
    }
}

/// How many lines the diffs of a text add and remove.
pub open spec fn diff_stats(s: Seq<char>) -> (nat, nat) {
    let all = lines_of(s);
    let d = counted_lines(all, all.len() as int);
    (d.added, d.removed)
}

/// How many lines the diffs of a text add and remove.
pub fn parse_diff_stats(message: &str) -> (r: (usize, usize))
    ensures
        (r.0 as nat, r.1 as nat) == diff_stats(message@),
{
    let v: Vec<String> = lines(message);
    let ghost all = lines_of(message@);
    assert(texts(v@).len() == v@.len());
    let mut in_block: bool = false;
    let mut added: usize = 0;
    let mut removed: usize = 0;
    let mut i: usize = 0;
    while i < v.len()
        invariant
            i <= v@.len(),
            all == lines_of(message@),
            texts(v@) == all,
            all.len() == v@.len(),
            added + removed <= i,
            counted_lines(all, i as int) == (DiffStats {
                in_block,
                added: added as nat,
                removed: removed as nat,
            }),
        decreases v@.len() - i,
    {
        let line: &str = v[i].as_str();
        assert(all[i as int] == line@);
        let t: String = trim(line);
        if starts_with(t.as_str(), "```diff") {
            in_block = true;
        } else if starts_with(t.as_str(), "```") && in_block {
            in_block = false;
        } else if !in_block || starts_with(line, "---") || starts_with(line, "+++") || starts_with(
            line,
            "@@",
        ) {
        } else if starts_with(line, "+") {
            added += 1;
        } else if starts_with(line, "-") {
            removed += 1;
        }
        i += 1;
    }
    (added, removed)
}

/// Whether each block with a diff is closed: behind a line that opens one comes a line that ends it.
pub open spec fn blocks_closed(all: Seq<Seq<char>>) -> bool {
    forall|i: int|
        0 <= i < all.len() && opens_diff(#[trigger] all[i]) ==> exists|j: int|
            i < j < all.len() && ends_block(#[trigger] all[j]) && !opens_diff(all[j])
}

/// The count of two texts behind one another.
pub open spec fn stats_sum(a: (nat, nat), b: (nat, nat)) -> (nat, nat) {
    (a.0 + b.0, a.1 + b.1)
}

proof fn lemma_in_block(all: Seq<Seq<char>>, n: int) -> (i: int)
    requires
        0 <= n <= all.len(),
        counted_lines(all, n).in_block,
    ensures
        0 <= i < n,
        opens_diff(all[i]),
        forall|j: int| i < j < n ==> !(ends_block(#[trigger] all[j]) && !opens_diff(all[j])),
    decreases n,
{
    if opens_diff(all[n - 1]) {
        n - 1
    } else {
        lemma_in_block(all, n - 1)
    }
}

proof fn lemma_counted_behind(a: Seq<Seq<char>>, b: Seq<Seq<char>>, n: int)
    requires
        0 <= n <= b.len(),
        !counted_lines(a, a.len() as int).in_block,
    ensures
        ({
            let c = counted_lines(a, a.len() as int);
            let d = counted_lines(b, n);
            counted_lines(a + b, a.len() + n) == (DiffStats {
                in_block: d.in_block,
                added: c.added + d.added,
                removed: c.removed + d.removed,
            })
        }),
    decreases n,
{
    if n == 0 {
        lemma_counted_start(a, b, a.len() as int);
    } else {
        lemma_counted_behind(a, b, n - 1);
        assert((a + b)[a.len() + n - 1] == b[n - 1]);
    }
}

proof fn lemma_counted_start(a: Seq<Seq<char>>, b: Seq<Seq<char>>, n: int)
    requires
        0 <= n <= a.len(),
    ensures
        counted_lines(a + b, n) == counted_lines(a, n),
    decreases n,
{
    if n > 0 {
        lemma_counted_start(a, b, n - 1);
        assert((a + b)[n - 1] == a[n - 1]);
    }
}

proof fn lemma_prefix_push(x: Seq<char>, c: char, p: Seq<char>)
    requires
        p.len() > 0,
        p.last() != c,
    ensures
        has_prefix(x.push(c), p) == has_prefix(x, p),
{
    let y = x.push(c);
    if has_prefix(y, p) {
        if p.len() == y.len() {
            assert(y.subrange(0, p.len() as int).last() == c);
        } else {
            assert(y.subrange(0, p.len() as int) =~= x.subrange(0, p.len() as int));
        }
    } else if has_prefix(x, p) {
        assert(y.subrange(0, p.len() as int) =~= x.subrange(0, p.len() as int));
    }
}

proof fn lemma_counted_return(d: DiffStats, x: Seq<char>)
    ensures
        counted(d, x.push('\r')) == counted(d, x),
{
    crate::text::lemma_trim_push(x, '\r');
    reveal_strlit("---");
    reveal_strlit("+++");
    reveal_strlit("@@");
    reveal_strlit("+");
    reveal_strlit("-");
    lemma_prefix_push(x, '\r', "---"@);
    lemma_prefix_push(x, '\r', "+++"@);
    lemma_prefix_push(x, '\r', "@@"@);
    lemma_prefix_push(x, '\r', "+"@);
    lemma_prefix_push(x, '\r', "-"@);
}

proof fn lemma_counted_empty(d: DiffStats)
    ensures
        counted(d, Seq::empty()) == d,
{
    let line = Seq::<char>::empty();
    reveal_strlit("```diff");
    reveal_strlit("```");
    reveal_strlit("---");
    reveal_strlit("+++");
    reveal_strlit("@@");
    reveal_strlit("+");
    reveal_strlit("-");
    assert(trim_of(line) =~= line);
}

/// Lines count as they do with a line feed behind them.
proof fn lemma_counted_ended(a: Seq<Seq<char>>, b: Seq<Seq<char>>)
    requires
        lines_ended(a, b),
    ensures
        counted_lines(b, b.len() as int) == counted_lines(a, a.len() as int),
{
    let empty = Seq::<char>::empty();
    if b == a {
    } else if b == a.push(empty) {
        lemma_counted_start(a, seq![empty], a.len() as int);
        assert(a + seq![empty] =~= b);
        lemma_counted_empty(counted_lines(a, a.len() as int));
    } else {
        let x = a.last().drop_last();
        let start = a.drop_last();
        assert(x.push('\r') =~= a.last());
        assert(start + seq![a.last()] =~= a);
        assert(start + seq![x] =~= b);
        lemma_counted_start(start, seq![a.last()], start.len() as int);
        lemma_counted_start(start, seq![x], start.len() as int);
        lemma_counted_return(counted_lines(start, start.len() as int), x);
    }
}

/// The counts of two messages add up, where the first has closed all of its blocks.
pub proof fn law_stats_add_up(m1: Seq<char>, m2: Seq<char>)
    requires
        blocks_closed(lines_of(m1)),
    ensures
        diff_stats(m1 + "\n"@ + m2) == stats_sum(diff_stats(m1), diff_stats(m2)),
{
    let all = m1.push('\n') + m2;
    reveal_strlit("\n");
    assert(m1 + "\n"@ + m2 =~= all);
    let a = lines_of(m1);
    let b = lines_of(m2);
    if counted_lines(a, a.len() as int).in_block {
        let i = lemma_in_block(a, a.len() as int);
        assert(opens_diff(a[i]));
    }
    let first = crate::text::lemma_lines_joined(m1, m2, 0);
    lemma_counted_ended(a, first);
    lemma_counted_behind(first, b, b.len() as int);
}

/// A text that opens no block with a diff counts nothing.
pub proof fn law_no_diff_counts_nothing(m: Seq<char>)
    requires
        forall|i: int| 0 <= i < lines_of(m).len() ==> !opens_diff(#[trigger] lines_of(m)[i]),
    ensures
        diff_stats(m) == (0nat, 0nat),
{
    lemma_no_diff(lines_of(m), lines_of(m).len() as int);
}

proof fn lemma_no_diff(all: Seq<Seq<char>>, n: int)
    requires
        0 <= n <= all.len(),
        forall|i: int| 0 <= i < all.len() ==> !opens_diff(#[trigger] all[i]),
    ensures
        counted_lines(all, n) == (DiffStats { in_block: false, added: 0, removed: 0 }),
    decreases n,
{
    if n > 0 {
        lemma_no_diff(all, n - 1);
        assert(!opens_diff(all[n - 1]));
    }
}

/// The lines of the first diff from line `i` on, behind those in `acc`, up to five.
pub open spec fn preview_from(
    all: Seq<Seq<char>>,
    i: int,
    in_block: bool,
    acc: Seq<Seq<char>>,
) -> Seq<Seq<char>>
    decreases all.len() - i,
{
    if i < 0 || i >= all.len() {
        acc
    } else if opens_diff(all[i]) {
        preview_from(all, i + 1, true, acc)
    } else if ends_block(all[i]) && in_block {
        acc
    } else if in_block {
        if acc.len() + 1 >= 5 {
            acc.push(all[i])
        } else {
            preview_from(all, i + 1, in_block, acc.push(all[i]))
        }
    } else {
        preview_from(all, i + 1, in_block, acc)
    }
}

/// The first lines of the first diff of a text, where it has any.
pub open spec fn diff_preview_of(s: Seq<char>) -> Option<Seq<char>> {
    let l = preview_from(lines_of(s), 0, false, Seq::empty());
    if l.len() == 0 {
        None
    } else {
        Some(joined(l, "\n"@))
    }
}

/// The first lines of the first diff of a text, where it has any.
pub fn extract_diff_preview(message: &str) -> (r: Option<String>)
    ensures
        text_of(r) == diff_preview_of(message@),
{
    let v: Vec<String> = lines(message);
    let ghost all = lines_of(message@);
    assert(texts(v@).len() == v@.len());
    let mut kept: Vec<String> = Vec::new();
    let mut in_block: bool = false;
    let mut i: usize = 0;
    assert(texts(kept@) =~= Seq::<Seq<char>>::empty());
    while i < v.len()
        invariant_except_break
            preview_from(all, 0, false, Seq::empty()) == preview_from(
                all,
                i as int,
                in_block,
                texts(kept@),
            ),
        invariant
            i <= v@.len(),
            all == lines_of(message@),
            texts(v@) == all,
            all.len() == v@.len(),
        ensures
            preview_from(all, 0, false, Seq::empty()) == texts(kept@),
        decreases v@.len() - i,
    {
        let line: &str = v[i].as_str();
        assert(all[i as int] == line@);
        assert(texts(kept@).len() == kept@.len());
        let t: String = trim(line);
        if starts_with(t.as_str(), "```diff") {
            in_block = true;
        } else if starts_with(t.as_str(), "```") && in_block {
            break;
        } else if in_block {
            let copy: String = v[i].clone();
            proof {
                crate::text::lemma_texts_push(kept@, copy);
            }
            kept.push(copy);
            if kept.len() >= 5 {
                break;
            }
        }
        i += 1;
    }
    assert(texts(kept@).len() == kept@.len());
    if kept.len() == 0 {
        None
    } else {
        let text: String = join(&kept, kept.len(), "\n");
        assert(kept@.take(kept@.len() as int) =~= kept@);
        Some(text)
    }
}

/// The preview of a diff has at most five lines.
pub proof fn law_preview_short(
    all: Seq<Seq<char>>,
    i: int,
    in_block: bool,
    acc: Seq<Seq<char>>,
)
    requires
        acc.len() < 5,
    ensures
        preview_from(all, i, in_block, acc).len() <= 5,
    decreases all.len() - i,
{
    if 0 <= i < all.len() {
        if opens_diff(all[i]) {
            law_preview_short(all, i + 1, true, acc);
        } else if ends_block(all[i]) && in_block {
        } else if in_block {
            if acc.len() + 1 < 5 {
                law_preview_short(all, i + 1, in_block, acc.push(all[i]));
            }
        } else {
            law_preview_short(all, i + 1, in_block, acc);
        }
    }
}

// ----- reading a call -----

/// What a look at a file was asked for: the path, a pattern for the text, and one for the names.
pub open spec fn view_params(fields: Seq<(Seq<char>, FieldView)>) -> (
    Option<Seq<char>>,
    Option<Seq<char>>,
    Option<Seq<char>>,
) {
    (
        as_text(
            either(
                either(field(fields, "path"@), field(fields, "filePath"@)),
                field(fields, "file_path"@),
            ),
        ),
        as_text(field(fields, "grep"@)),
        as_text(field(fields, "glob"@)),
    )
}

/// What the arguments of a look at a file ask for.
pub fn view_params_in_fields(fields: &Vec<Field>) -> (r: (
    Option<String>,
    Option<String>,
    Option<String>,
))
    ensures
        (text_of(r.0), text_of(r.1), text_of(r.2)) == view_params(field_views(fields@)),
{
    let path: Option<String> = text_value(
        first_of(
            first_of(get(fields, "path"), get(fields, "filePath")),
            get(fields, "file_path"),
        ),
    );
    (path, text_value(get(fields, "grep")), text_value(get(fields, "glob")))
}

/// What a look at a file was asked for.
pub fn extract_view_params_from_tool_call(tool_call: &ToolCall) -> (r: (
    Option<String>,
    Option<String>,
    Option<String>,
))
    ensures
        (text_of(r.0), text_of(r.1), text_of(r.2)) == (match json_object(
            tool_call.function.arguments@,
        ) {
            Ok(fields) => view_params(fields),
            Err(_) => (None, None, None),
        }),
{
    match parse_arguments(tool_call.function.arguments.as_str()) {
        Ok(fields) => view_params_in_fields(&fields),
        Err(_) => (None, None, None),
    }
}

/// What a tool call did to a file.
#[derive(Debug)]
pub enum ToolChange {
    /// A file was written, with so many lines where the call says so.
    Write { path: String, lines: Option<usize>, overwrite: bool },
    /// A file was edited. Where `new_str` is there, the file has to hold it still.
    Edit {
        path: String,
        new_str: Option<String>,
        single: bool,
        added: usize,
        removed: usize,
        preview: Option<String>,
    },
    /// A file was removed, and put somewhere where `backup` is there.
    Remove { path: String, backup: Option<String> },
}

/// What a tool call did to a file.
pub enum ChangeView {
    Write { path: Seq<char>, lines: Option<nat>, overwrite: bool },
    Edit {
        path: Seq<char>,
        new_str: Option<Seq<char>>,
        single: bool,
        added: nat,
        removed: nat,
        preview: Option<Seq<char>>,
    },
    Remove { path: Seq<char>, backup: Option<Seq<char>> },
}

pub open spec fn number_of(n: Option<usize>) -> Option<nat> {
    match n {
        Some(k) => Some(k as nat),
        None => None,
    }
}

impl View for ToolChange {
    type V = ChangeView;

    open spec fn view(&self) -> ChangeView {
        match self {
            ToolChange::Write { path, lines, overwrite } => ChangeView::Write {
                path: path@,
                lines: number_of(*lines),
                overwrite: *overwrite,
            },
            ToolChange::Edit { path, new_str, single, added, removed, preview } => {
                ChangeView::Edit {
                    path: path@,
                    new_str: text_of(*new_str),
                    single: *single,
                    added: *added as nat,
                    removed: *removed as nat,
                    preview: text_of(*preview),
                }
            },
            ToolChange::Remove { path, backup } => ChangeView::Remove {
                path: path@,
                backup: text_of(*backup),
            },
        }
    }
}

/// Whether the tool writes a file.
pub open spec fn writes(name: Seq<char>) -> bool {
    name == "write_to_file"@ || name == "create"@ || name == "create_file"@
}

/// Whether the tool edits a file.
pub open spec fn edits(name: Seq<char>) -> bool {
    name == "replace_file_content"@ || name == "multi_replace_file_content"@ || name
        == "str_replace"@ || name == "edit_file"@
}

/// Whether the tool removes a file.
pub open spec fn removes(name: Seq<char>) -> bool {
    name == "remove_file"@ || name == "delete_file"@ || name == "stakpak__remove"@ || name
        == "remove"@
}

/// The text that a writing tool was given.
pub open spec fn written_text(fields: Seq<(Seq<char>, FieldView)>) -> Seq<char> {
    let v = either(
        either(
            either(
                either(field(fields, "CodeContent"@), field(fields, "content"@)),
                field(fields, "file_content"@),
            ),
            field(fields, "body"@),
        ),
        field(fields, "text"@),
    );
    match as_text(v) {
        Some(t) => t,
        None => Seq::empty(),
    }
}

/// What a tool with the given name, arguments and result did to a file.
pub open spec fn change_of(
    name: Seq<char>,
    fields: Seq<(Seq<char>, FieldView)>,
    result: Seq<char>,
) -> Option<ChangeView> {
    let target = as_text(either(field(fields, "TargetFile"@), field(fields, "path"@)));
    if writes(name) {
        match target {
            Some(path) => Some(
                ChangeView::Write {
                    path,
                    lines: if written_text(fields).len() == 0 {
                        None
                    } else {
                        Some(lines_of(written_text(fields)).len())
                    },
                    overwrite: as_flag(field(fields, "Overwrite"@)) == Some(true),
                },
            ),
            None => None,
        }
    } else if edits(name) {
        match target {
            Some(path) => Some(
                ChangeView::Edit {
                    path,
                    new_str: if name == "str_replace"@ {
                        as_text(field(fields, "new_str"@))
                    } else {
                        None
                    },
                    single: name == "replace_file_content"@ || name == "str_replace"@,
                    added: diff_stats(result).0,
                    removed: diff_stats(result).1,
                    preview: diff_preview_of(result),
                },
            ),
            None => None,
        }
    } else if removes(name) {
        match as_text(either(field(fields, "path"@), field(fields, "TargetFile"@))) {
            Some(path) => Some(ChangeView::Remove { path, backup: backup_in(result) }),
            None => None,
        }
    } else {
        None
    }
}

pub open spec fn change_view(c: Option<ToolChange>) -> Option<ChangeView> {
    match c {
        Some(x) => Some(x@),
        None => None,
    }
}

fn is_write(name: &str) -> (r: bool)
    ensures
        r == writes(name@),
{
    same_text(name, "write_to_file") || same_text(name, "create") || same_text(name, "create_file")
}

fn is_edit(name: &str) -> (r: bool)
    ensures
        r == edits(name@),
{
    same_text(name, "replace_file_content") || same_text(name, "multi_replace_file_content")
        || same_text(name, "str_replace") || same_text(name, "edit_file")
}

fn is_remove(name: &str) -> (r: bool)
    ensures
        r == removes(name@),
{
    same_text(name, "remove_file") || same_text(name, "delete_file") || same_text(
        name,
        "stakpak__remove",
    ) || same_text(name, "remove")
}

/// How many lines a writing tool was given; nothing where it was given no text.
fn given_lines(fields: &Vec<Field>) -> (r: Option<usize>)
    ensures
        number_of(r) == (if written_text(field_views(fields@)).len() == 0 {
            None
        } else {
            Some(lines_of(written_text(field_views(fields@))).len())
        }),
{
    let v: Option<String> = text_value(
        first_of(
            first_of(
                first_of(
                    first_of(get(fields, "CodeContent"), get(fields, "content")),
                    get(fields, "file_content"),
                ),
                get(fields, "body"),
            ),
            get(fields, "text"),
        ),
    );
    match v {
        Some(t) => {
            if is_empty(t.as_str()) {
                None
            } else {
                let l: Vec<String> = lines(t.as_str());
                assert(texts(l@).len() == l@.len());
                Some(l.len())
            }
        },
        None => None,
    }
}

/// What a tool with the given name, arguments and result did to a file.
pub fn change_in_fields(name: &str, fields: &Vec<Field>, result: &str) -> (r: Option<ToolChange>)
    ensures
        change_view(r) == change_of(name@, field_views(fields@), result@),
{
    if is_write(name) {
        match text_value(first_of(get(fields, "TargetFile"), get(fields, "path"))) {
            Some(path) => {
                let overwrite: bool = match flag_value(get(fields, "Overwrite")) {
                    Some(b) => b,
                    None => false,
                };
                Some(ToolChange::Write { path, lines: given_lines(fields), overwrite })
            },
            None => None,
        }
    } else if is_edit(name) {
        match text_value(first_of(get(fields, "TargetFile"), get(fields, "path"))) {
            Some(path) => {
                let (added, removed): (usize, usize) = parse_diff_stats(result);
                let new_str: Option<String> = if same_text(name, "str_replace") {
                    text_value(get(fields, "new_str"))
                } else {
                    None
                };
                Some(
                    ToolChange::Edit {
                        path,
                        new_str,
                        single: same_text(name, "replace_file_content") || same_text(
                            name,
                            "str_replace",
                        ),
                        added,
                        removed,
                        preview: extract_diff_preview(result),
                    },
                )
            },
            None => None,
        }
    } else if is_remove(name) {
        match text_value(first_of(get(fields, "path"), get(fields, "TargetFile"))) {
            Some(path) => Some(ToolChange::Remove { path, backup: extract_backup_path(result) }),
            None => None,
        }
    } else {
        None
    }
}

/// What a tool call did to a file: only a call that succeeded and was not rejected did anything.
pub open spec fn result_change(r: ToolCallResult) -> Option<ChangeView> {
    if r.status != ToolCallResultStatus::Success || holds_text(r.result@, "TOOL_CALL_REJECTED"@) {
        None
    } else {
        match json_object(r.call.function.arguments@) {
            Ok(fields) => change_of(r.call.function.bare_name@, fields, r.result@),
            Err(_) => None,
        }
    }
}

/// What a tool call did to a file.
pub fn tool_change(result: &ToolCallResult) -> (r: Option<ToolChange>)
    ensures
        change_view(r) == result_change(*result),
{
    if result.status != ToolCallResultStatus::Success || contains(
        result.result.as_str(),
        "TOOL_CALL_REJECTED",
    ) {
        return None;
    }
    match parse_arguments(result.call.function.arguments.as_str()) {
        Ok(fields) => change_in_fields(
            result.call.function.bare_name.as_str(),
            &fields,
            result.result.as_str(),
        ),
        Err(_) => None,
    }
}

// ----- taking a change over -----

/// What is on disk: what the file holds, whether it is there, and where its first content was put.
#[derive(Debug)]
pub struct DiskFacts {
    pub content: Option<String>,
    pub exists: bool,
    pub backup: Option<String>,
}

/// Whether the first content of the file is to be put away before the change is taken over: it is an
/// edit that the file still shows, the first one of this file, and the file is there.
pub open spec fn backup_wanted(
    files: Seq<TrackedFile>,
    c: ChangeView,
    content: Option<Seq<char>>,
    exists: bool,
) -> bool {
    match c {
        ChangeView::Edit { path, .. } => !outdated(c, content) && index_of(files, path) is None
            && exists,
        _ => false,
    }
}

/// Whether the first content of the file is to be put away before the change is taken over.
pub fn wants_backup(
    state: &AppState,
    change: &ToolChange,
    content: &Option<String>,
    exists: bool,
) -> (r: bool)
    ensures
        r == backup_wanted(
            state.side_panel_state.changeset.files@,
            change@,
            text_of(*content),
            exists,
        ),
{
    match change {
        ToolChange::Edit { path, new_str, .. } => {
            let gone: bool = is_gone(new_str, content);
            !gone && exists && state.side_panel_state.changeset.find(path.as_str()).is_none()
        },
        _ => false,
    }
}

fn is_gone(new_str: &Option<String>, content: &Option<String>) -> (r: bool)
    ensures
        r == (match (text_of(*new_str), text_of(*content)) {
            (Some(s), Some(t)) => !holds_text(t, s),
            _ => false,
        }),
{
    match (new_str, content) {
        (Some(s), Some(t)) => !contains(t.as_str(), s.as_str()),
        _ => false,
    }
}

/// Whether the edit says what was done.
pub open spec fn describes(
    e: FileEdit,
    summary: Seq<char>,
    added: nat,
    removed: nat,
    preview: Option<Seq<char>>,
    call: ToolCall,
    index: usize,
) -> bool {
    &&& e.summary@ == summary
    &&& e.lines_added == added
    &&& e.lines_removed == removed
    &&& text_of(e.diff_preview) == preview
    &&& e.tool_call == Some(call)
    &&& e.user_message_index == index
}

/// How many lines a written file has: as many as were given, else as many as are on disk.
pub open spec fn written_lines(given: Option<nat>, content: Option<Seq<char>>) -> nat {
    match given {
        Some(n) => n,
        None => match content {
            Some(t) => if lines_of(t).len() == 0 {
                1
            } else {
                lines_of(t).len()
            },
            None => 0,
        },
    }
}

/// The name under which a file is shown: what follows the last slash of its path.
pub open spec fn shown_name(path: Seq<char>) -> Seq<char> {
    last_piece(path, '/', path.len() as int)
}

/// The files after a change was taken over: the edit is recorded, the place of the first content
/// is noted, and a file that is gone from disk counts as removed.
pub open spec fn recorded(
    pre: Seq<TrackedFile>,
    post: Seq<TrackedFile>,
    path: Seq<char>,
    e: FileEdit,
    created: bool,
    backup: Option<String>,
    exists: bool,
) -> bool {
    exists|a: Seq<TrackedFile>, b: Seq<TrackedFile>| #[trigger]
        file_tracked(pre, a, path, shown_name(path), e, created) && #[trigger] noted(
            a,
            b,
            path,
            backup,
        ) && (if exists {
            post == b
        } else {
            file_removed(b, post, path, shown_name(path), None)
        })
}

/// The files after the place of the first content was noted, where there is one.
pub open spec fn noted(
    pre: Seq<TrackedFile>,
    post: Seq<TrackedFile>,
    path: Seq<char>,
    backup: Option<String>,
) -> bool {
    match backup {
        Some(p) => backup_noted(pre, post, path, p),
        None => post == pre,
    }
}

/// How a written file is summed up.
pub open spec fn write_summary(overwrite: bool) -> Seq<char> {
    if overwrite {
        "Overwrote file"@
    } else {
        "Created file"@
    }
}

/// How an edited file is summed up.
pub open spec fn edit_summary(single: bool) -> Seq<char> {
    if single {
        "Edited file"@
    } else {
        "Multi-edit file"@
    }
}

/// Whether the change is not taken over: the text that was put in is no longer in the file.
pub open spec fn outdated(c: ChangeView, content: Option<Seq<char>>) -> bool {
    match c {
        ChangeView::Edit { new_str, .. } => match (new_str, content) {
            (Some(s), Some(t)) => !holds_text(t, s),
            _ => false,
        },
        _ => false,
    }
}

/// What a written file does to the files that the session changed.
pub open spec fn write_taken(
    pre: Seq<TrackedFile>,
    post: Seq<TrackedFile>,
    path: Seq<char>,
    lines: nat,
    created: bool,
    call: ToolCall,
    index: usize,
    there: bool,
) -> bool {
    exists|e: FileEdit|
        describes(e, write_summary(!created), lines, 0, None, call, index) && #[trigger] recorded(
            pre,
            post,
            path,
            e,
            created,
            None,
            there,
        )
}

/// What an edited file does to the files that the session changed.
pub open spec fn edit_taken(
    pre: Seq<TrackedFile>,
    post: Seq<TrackedFile>,
    path: Seq<char>,
    c: ChangeView,
    call: ToolCall,
    index: usize,
    backup: Option<String>,
    there: bool,
) -> bool {
    exists|e: FileEdit|
        describes(
            e,
            edit_summary(c->single),
            c->added,
            c->removed,
            c->preview,
            call,
            index,
        ) && #[trigger] recorded(pre, post, path, e, false, backup, there)
}

/// What a removed file does to the files that the session changed.
pub open spec fn removal_taken(
    pre: Seq<TrackedFile>,
    post: Seq<TrackedFile>,
    path: Seq<char>,
    backup: Option<Seq<char>>,
) -> bool {
    exists|b: Option<String>|
        text_of(b) == backup && #[trigger] file_removed(pre, post, path, shown_name(path), b)
}

/// Where the first content of the file was put, if this is the first edit of it.
pub open spec fn first_backup(
    pre: Seq<TrackedFile>,
    path: Seq<char>,
    backup: Option<String>,
) -> Option<String> {
    if index_of(pre, path) is None {
        backup
    } else {
        None
    }
}

/// What a change does to the files that the session changed.
pub open spec fn change_taken(
    pre: Seq<TrackedFile>,
    post: Seq<TrackedFile>,
    c: ChangeView,
    call: ToolCall,
    index: usize,
    disk: DiskFacts,
) -> bool {
    if outdated(c, text_of(disk.content)) {
        post == pre
    } else {
        match c {
            ChangeView::Write { path, lines, overwrite } => write_taken(
                pre,
                post,
                path,
                written_lines(lines, text_of(disk.content)),
                !overwrite,
                call,
                index,
                disk.exists,
            ),
            ChangeView::Edit { path, .. } => edit_taken(
                pre,
                post,
                path,
                c,
                call,
                index,
                first_backup(pre, path, disk.backup),
                disk.exists,
            ),
            ChangeView::Remove { path, backup } => removal_taken(pre, post, path, backup),
        }
    }
}

fn record(
    p: &mut SidePanelState,
    path: &str,
    edit: FileEdit,
    created: bool,
    backup: Option<String>,
    exists: bool,
)
    ensures
        *final(p) == (SidePanelState { changeset: final(p).changeset, ..*old(p) }),
        recorded(
            old(p).changeset.files@,
            final(p).changeset.files@,
            path@,
            edit,
            created,
            backup,
            exists,
        ),
{
    let name: String = crate::text::after_last(path, '/');
    p.changeset.track_file(path, name.clone(), edit, created);
    let ghost a = p.changeset.files@;
    match &backup {
        Some(place) => {
            p.changeset.set_original_backup(path, place.clone());
        },
        None => {},
    }
    let ghost b = p.changeset.files@;
    if !exists {
        p.changeset.mark_removed(path, name, None);
    }
    assert(noted(a, b, path@, backup));
    assert(file_tracked(old(p).changeset.files@, a, path@, shown_name(path@), edit, created));
}

fn count_lines(given: Option<usize>, content: &Option<String>) -> (n: usize)
    ensures
        n == written_lines(number_of(given), text_of(*content)),
{
    match given {
        Some(n) => n,
        None => match content {
            Some(t) => {
                let l: Vec<String> = lines(t.as_str());
                assert(texts(l@).len() == l@.len());
                if l.len() == 0 {
                    1
                } else {
                    l.len()
                }
            },
            None => 0,
        },
    }
}

/// The state after a change was taken over.
pub open spec fn result_taken(
    pre: AppState,
    post: AppState,
    c: ChangeView,
    call: ToolCall,
    disk: DiskFacts,
) -> bool {
    &&& post == (AppState {
        side_panel_state: SidePanelState {
            changeset: post.side_panel_state.changeset,
            ..pre.side_panel_state
        },
        ..pre
    })
    &&& change_taken(
        pre.side_panel_state.changeset.files@,
        post.side_panel_state.changeset.files@,
        c,
        call,
        pre.message_revert_state.user_message_count,
        disk,
    )
}

/// Takes over what a tool call did to a file.
pub fn handle_tool_result(
    state: &mut AppState,
    change: ToolChange,
    call: &ToolCall,
    disk: DiskFacts,
)
    ensures
        result_taken(*old(state), *final(state), change@, *call, disk),
{
    let index: usize = state.message_revert_state.user_message_count;
    let ghost c = change@;
    let ghost before = state.side_panel_state.changeset.files@;
    match change {
        ToolChange::Write { path, lines, overwrite } => {
            let edit: FileEdit = FileEdit {
                summary: if overwrite {
                    "Overwrote file".to_owned()
                } else {
                    "Created file".to_owned()
                },
                lines_added: count_lines(lines, &disk.content),
                lines_removed: 0,
                diff_preview: None,
                tool_call: Some(call.clone()),
                user_message_index: index,
            };
            assert(describes(
                edit,
                write_summary(overwrite),
                written_lines(number_of(lines), text_of(disk.content)),
                0,
                None,
                *call,
                index,
            ));
            record(
                &mut state.side_panel_state,
                path.as_str(),
                edit,
                !overwrite,
                None,
                disk.exists,
            );
            assert(change_taken(
                before,
                state.side_panel_state.changeset.files@,
                c,
                *call,
                index,
                disk,
            ));
        },
        ToolChange::Edit { path, new_str, single, added, removed, preview } => {
            if is_gone(&new_str, &disk.content) {
                return;
            }
            let first: bool = state.side_panel_state.changeset.find(path.as_str()).is_none();
            let edit: FileEdit = FileEdit {
                summary: if single {
                    "Edited file".to_owned()
                } else {
                    "Multi-edit file".to_owned()
                },
                lines_added: added,
                lines_removed: removed,
                diff_preview: copy_text(&preview),
                tool_call: Some(call.clone()),
                user_message_index: index,
            };
            assert(describes(
                edit,
                edit_summary(single),
                added as nat,
                removed as nat,
                text_of(preview),
                *call,
                index,
            ));
            let backup: Option<String> = if first {
                copy_text(&disk.backup)
            } else {
                None
            };
            record(
                &mut state.side_panel_state,
                path.as_str(),
                edit,
                false,
                backup,
                disk.exists,
            );
            assert(change_taken(
                before,
                state.side_panel_state.changeset.files@,
                c,
                *call,
                index,
                disk,
            ));
        },
        ToolChange::Remove { path, backup } => {
            let name: String = crate::text::after_last(path.as_str(), '/');
            state.side_panel_state.changeset.mark_removed(path.as_str(), name, copy_text(&backup));
            assert(file_removed(
                before,
                state.side_panel_state.changeset.files@,
                path@,
                shown_name(path@),
                backup,
            ));
            assert(change_taken(
                before,
                state.side_panel_state.changeset.files@,
                c,
                *call,
                index,
                disk,
            ));
        },
    }
}

// ----- what holds of results -----

/// The path of a backup is what stands between the quotes behind the first `backup_path=`, whatever
/// stands around it.
pub proof fn law_backup_is_found(a: Seq<char>, path: Seq<char>, b: Seq<char>)
    requires
        forall|i: int|
            0 <= i < a.len() ==> !occurs_at(
                a + "backup_path=\""@ + path + seq!['"'] + b,
                "backup_path=\""@,
                i,
            ),
        forall|i: int| 0 <= i < path.len() ==> #[trigger] path[i] != '"',
    ensures
        backup_in(a + "backup_path=\""@ + path + seq!['"'] + b) == Some(path),
{
    let p = "backup_path=\""@;
    let s = a + p + path + seq!['"'] + b;
    let j = a.len() as int + p.len();
    assert(s.subrange(a.len() as int, j) =~= p);
    assert(occurs_at(s, p, a.len() as int));
    crate::text::lemma_find_from(s, p, 0);
    assert(find_from(s, p, 0) == Some(a.len() as int));
    crate::text::lemma_next_char(s, '"', j);
    let e = next_char(s, '"', j);
    assert(s[j + path.len()] == '"');
    assert(forall|i: int| j <= i < j + path.len() ==> s[i] == path[i - j]);
    assert(e == j + path.len());
    assert(s.subrange(j, e) =~= path);
}

/// In a diff, a line that starts with one plus sign counts as added and one that starts with one
/// minus sign as removed; the head of the diff and its other lines count as neither. Nothing counts
/// outside a diff.
pub proof fn law_diff_line(d: DiffStats, line: Seq<char>)
    requires
        line.len() > 0,
        line[0] != '`',
        !is_space(line[0]),
    ensures
        counted(d, line).in_block == d.in_block,
        !d.in_block ==> counted(d, line) == d,
        d.in_block && line[0] == '+' && !(line.len() > 2 && line[1] == '+' && line[2] == '+') ==> {
            &&& counted(d, line).added == d.added + 1
            &&& counted(d, line).removed == d.removed
        },
        d.in_block && line[0] == '-' && !(line.len() > 2 && line[1] == '-' && line[2] == '-') ==> {
            &&& counted(d, line).added == d.added
            &&& counted(d, line).removed == d.removed + 1
        },
        line[0] != '+' && line[0] != '-' ==> counted(d, line) == d,
        line.len() > 2 && line[0] == '+' && line[1] == '+' && line[2] == '+' ==> counted(d, line)
            == d,
        line.len() > 2 && line[0] == '-' && line[1] == '-' && line[2] == '-' ==> counted(d, line)
            == d,
{
    assert(!opens_diff(line) && !ends_block(line)) by {
        let from = law_trim(line);
        let t = trim_of(line);
        if from > 0 || t.len() == 0 {
            assert(is_space(line[0]));
        }
        assert(t[0] == line[0]);
        reveal_strlit("```diff");
        reveal_strlit("```");
        lemma_prefix(t, "```diff"@);
        lemma_prefix(t, "```"@);
        assert("```diff"@[0] == '`' && "```"@[0] == '`');
    }
    assert(has_prefix(line, "+"@) <==> line[0] == '+') by {
        reveal_strlit("+");
        lemma_prefix(line, "+"@);
        assert("+"@[0] == '+');
    }
    assert(has_prefix(line, "-"@) <==> line[0] == '-') by {
        reveal_strlit("-");
        lemma_prefix(line, "-"@);
        assert("-"@[0] == '-');
    }
    assert(has_prefix(line, "+++"@) <==> line.len() > 2 && line[0] == '+' && line[1] == '+'
        && line[2] == '+') by {
        reveal_strlit("+++");
        lemma_prefix(line, "+++"@);
        assert("+++"@[0] == '+' && "+++"@[1] == '+' && "+++"@[2] == '+');
    }
    assert(has_prefix(line, "---"@) <==> line.len() > 2 && line[0] == '-' && line[1] == '-'
        && line[2] == '-') by {
        reveal_strlit("---");
        lemma_prefix(line, "---"@);
        assert("---"@[0] == '-' && "---"@[1] == '-' && "---"@[2] == '-');
    }
    assert(has_prefix(line, "@@"@) ==> line[0] == '@') by {
        reveal_strlit("@@");
        lemma_prefix(line, "@@"@);
        assert("@@"@[0] == '@');
    }
}

proof fn lemma_prefix(s: Seq<char>, p: Seq<char>)
    ensures
        has_prefix(s, p) <==> p.len() <= s.len() && forall|i: int|
            0 <= i < p.len() ==> #[trigger] s[i] == p[i],
{
    if p.len() <= s.len() {
        let h = s.subrange(0, p.len() as int);
        assert(forall|i: int| 0 <= i < p.len() ==> #[trigger] h[i] == s[i]);
        if forall|i: int| 0 <= i < p.len() ==> #[trigger] s[i] == p[i] {
            assert(h =~= p);
        }
        if has_prefix(s, p) {
            assert forall|i: int| 0 <= i < p.len() implies #[trigger] s[i] == p[i] by {
                assert(h[i] == s[i]);
            }
        }
    }
}

proof fn lemma_preview_lines(all: Seq<Seq<char>>, i: int, k: int, acc: Seq<Seq<char>>)
    requires
        0 <= i <= k < all.len(),
        acc.len() < 5,
        forall|j: int| i <= j < k ==> !opens_diff(#[trigger] all[j]) && !ends_block(all[j]),
        ends_block(all[k]),
        !opens_diff(all[k]),
    ensures
        preview_from(all, i, true, acc) == acc + all.subrange(
            i,
            if k - i <= 5 - acc.len() {
                k
            } else {
                i + 5 - acc.len()
            },
        ),
    decreases k - i,
{
    if i == k {
        assert(acc + all.subrange(i, k) =~= acc);
    } else if acc.len() == 4 {
        assert(acc.push(all[i]) =~= acc + all.subrange(i, i + 1));
    } else {
        lemma_preview_lines(all, i + 1, k, acc.push(all[i]));
        let e = if k - i <= 5 - acc.len() {
            k
        } else {
            i + 5 - acc.len()
        };
        assert(acc.push(all[i]) + all.subrange(i + 1, e) =~= acc + all.subrange(i, e));
    }
}

proof fn lemma_preview_before(all: Seq<Seq<char>>, i: int, b: int)
    requires
        0 <= i <= b < all.len(),
        forall|j: int| i <= j < b ==> !opens_diff(#[trigger] all[j]),
        opens_diff(all[b]),
    ensures
        preview_from(all, i, false, Seq::empty()) == preview_from(all, b + 1, true, Seq::empty()),
    decreases b - i,
{
    if i < b {
        lemma_preview_before(all, i + 1, b);
    }
}

/// The preview of a text with a diff between line `b`, which opens it, and line `k`, which ends it,
/// is made of the lines between these, the first five of them, in their order.
pub proof fn law_preview_shows_the_first_diff(s: Seq<char>, b: int, k: int)
    requires
        0 <= b < k < lines_of(s).len(),
        b + 1 < k,
        forall|j: int| 0 <= j < b ==> !opens_diff(#[trigger] lines_of(s)[j]),
        opens_diff(lines_of(s)[b]),
        forall|j: int|
            b < j < k ==> !opens_diff(#[trigger] lines_of(s)[j]) && !ends_block(lines_of(s)[j]),
        ends_block(lines_of(s)[k]),
        !opens_diff(lines_of(s)[k]),
    ensures
        diff_preview_of(s) == Some(
            joined(
                lines_of(s).subrange(
                    b + 1,
                    if k <= b + 6 {
                        k
                    } else {
                        b + 6
                    },
                ),
                "\n"@,
            ),
        ),
{
    let all = lines_of(s);
    let none = Seq::<Seq<char>>::empty();
    lemma_preview_before(all, 0, b);
    lemma_preview_lines(all, b + 1, k, none);
    let e = if k <= b + 6 {
        k
    } else {
        b + 6
    };
    assert(none + all.subrange(b + 1, e) =~= all.subrange(b + 1, e));
}

/// An edit whose new text is no longer in the file changes nothing. Any other edit of a file that is
/// on disk is recorded for it with its call and its counts, behind the edits before; every other
/// file stays as it is.
pub proof fn law_edit_is_recorded(
    pre: AppState,
    post: AppState,
    c: ChangeView,
    call: ToolCall,
    disk: DiskFacts,
    path: Seq<char>,
)
    requires
        result_taken(pre, post, c, call, disk),
        c is Edit,
        c->Edit_path == path,
        disk.exists,
    ensures
        ({
            let before = pre.side_panel_state.changeset.files@;
            let after = post.side_panel_state.changeset.files@;
            let gone = c->new_str is Some && disk.content is Some && !holds_text(
                disk.content->0@,
                c->new_str->0,
            );
            &&& gone ==> after == before
            &&& !gone ==> exists|i: int|
                {
                    &&& 0 <= i < after.len()
                    &&& (#[trigger] after[i]).path@ == path
                    &&& after[i].edits@.len() > 0
                    &&& after[i].edits@.last().tool_call == Some(call)
                    &&& after[i].edits@.last().lines_added == c->added
                    &&& after[i].edits@.last().lines_removed == c->removed
                    &&& after[i].edits@.last().user_message_index
                        == pre.message_revert_state.user_message_count
                    &&& i < before.len() ==> after.len() == before.len() && after[i].edits@.drop_last()
                        == before[i].edits@
                    &&& i >= before.len() ==> after.len() == before.len() + 1
                        && after[i].edits@.len() == 1
                    &&& forall|j: int|
                        0 <= j < before.len() && j != i ==> #[trigger] after[j] == before[j]
                }
        }),
{
    let before = pre.side_panel_state.changeset.files@;
    let after = post.side_panel_state.changeset.files@;
    if !outdated(c, text_of(disk.content)) {
        let backup = first_backup(before, path, disk.backup);
        let index = pre.message_revert_state.user_message_count;
        let e = choose|e: FileEdit|
            describes(
                e,
                edit_summary(c->single),
                c->added,
                c->removed,
                c->preview,
                call,
                index,
            ) && #[trigger] recorded(before, after, path, e, false, backup, true);
        let (a, b) = choose|a: Seq<TrackedFile>, b: Seq<TrackedFile>| #[trigger]
            file_tracked(before, a, path, shown_name(path), e, false) && #[trigger] noted(
                a,
                b,
                path,
                backup,
            ) && after == b;
        law_index_of(before, path);
        law_index_of(a, path);
        match index_of(before, path) {
            Some(i) => {
                assert(after == a);
                assert(after[i].path@ == path);
                assert(after[i].edits@.drop_last() =~= before[i].edits@);
            },
            None => {
                let n = before.len() as int;
                assert(forall|j: int| 0 <= j < n ==> #[trigger] a[j] == a.drop_last()[j]);
                assert(a[n].path@ == path);
                assert(index_of(a, path) == Some(n)) by {
                    match index_of(a, path) {
                        Some(i) => {
                            if i < n {
                                assert(before[i].path@ == path);
                            }
                        },
                        None => {},
                    }
                }
                assert(after[n].path@ == path);
                assert(after[n].edits@ == a[n].edits@);
            },
        }
    }
}

/// A file that is shown by its name is shown without any slash: what follows the last one.
pub proof fn law_shown_name(path: Seq<char>)
    ensures
        shown_name(path).len() <= path.len(),
        shown_name(path) == path.skip(path.len() - shown_name(path).len()),
        forall|i: int| 0 <= i < shown_name(path).len() ==> #[trigger] shown_name(path)[i] != '/',
        shown_name(path).len() < path.len() ==> path[path.len() - shown_name(path).len() - 1]
            == '/',
{
    crate::text::law_last_piece(path, '/', path.len() as int);
}

/// A written file that is on disk is recorded: with the lines that were written, as created unless it
/// was overwritten, for its path alone.
pub proof fn law_write_is_recorded(
    pre: AppState,
    post: AppState,
    path: Seq<char>,
    lines: nat,
    overwrite: bool,
    call: ToolCall,
    disk: DiskFacts,
)
    requires
        result_taken(
            pre,
            post,
            ChangeView::Write { path, lines: Some(lines), overwrite },
            call,
            disk,
        ),
        disk.exists,
        forall|j: int|
            0 <= j < pre.side_panel_state.changeset.files@.len() ==> (
            #[trigger] pre.side_panel_state.changeset.files@[j]).path@ != path,
    ensures
        ({
            let before = pre.side_panel_state.changeset.files@;
            let after = post.side_panel_state.changeset.files@;
            let f = after.last();
            &&& after.len() == before.len() + 1
            &&& after.drop_last() == before
            &&& f.path@ == path
            &&& f.state == (if overwrite {
                FileState::Modified
            } else {
                FileState::Created
            })
            &&& f.edits@.len() == 1
            &&& f.edits@[0].lines_added == lines
            &&& f.edits@[0].lines_removed == 0
            &&& f.edits@[0].tool_call == Some(call)
            &&& f.edits@[0].summary@ == (if overwrite {
                "Overwrote file"@
            } else {
                "Created file"@
            })
        }),
{
    law_index_of(pre.side_panel_state.changeset.files@, path);
}

/// A removed file counts as removed, with the place where it was put, and no other file changes.
pub proof fn law_removal_is_recorded(
    pre: AppState,
    post: AppState,
    path: Seq<char>,
    backup: Option<Seq<char>>,
    call: ToolCall,
    disk: DiskFacts,
    i: int,
)
    requires
        result_taken(pre, post, ChangeView::Remove { path, backup }, call, disk),
        0 <= i < pre.side_panel_state.changeset.files@.len(),
    ensures
        ({
            let before = pre.side_panel_state.changeset.files@;
            let after = post.side_panel_state.changeset.files@;
            &&& after.len() >= before.len()
            &&& before[i].path@ != path ==> after[i] == before[i]
            &&& before[i].path@ == path && (forall|j: int|
                0 <= j < i ==> (#[trigger] before[j]).path@ != path) ==> {
                &&& after.len() == before.len()
                &&& after[i].state == FileState::Removed
                &&& text_of(after[i].backup_path) == backup
                &&& after[i].edits == before[i].edits
            }
        }),
{
    let before = pre.side_panel_state.changeset.files@;
    let after = post.side_panel_state.changeset.files@;
    law_index_of(before, path);
    let b = choose|b: Option<String>|
        text_of(b) == backup && #[trigger] file_removed(before, after, path, shown_name(path), b);
    match index_of(before, path) {
        Some(k) => {
            assert(before[k].path@ == path);
            assert(before[i].path@ == before[i].path@);
        },
        None => {
            assert(after.drop_last()[i] == after[i]);
        },
    }
}

/// The first content of a file is put away exactly before the first edit of it, where the file is on
/// disk and still shows the edit.
pub proof fn law_backup_before_the_first_edit(
    files: Seq<TrackedFile>,
    c: ChangeView,
    content: Option<Seq<char>>,
    there: bool,
)
    ensures
        !(c is Edit) ==> !backup_wanted(files, c, content, there),
        !there ==> !backup_wanted(files, c, content, there),
        c is Edit && (exists|j: int|
            0 <= j < files.len() && (#[trigger] files[j]).path@ == c->Edit_path) ==> !backup_wanted(
            files,
            c,
            content,
            there,
        ),
        c is Edit && there && (forall|j: int|
            0 <= j < files.len() ==> (#[trigger] files[j]).path@ != c->Edit_path) && (
        c->new_str is None || content is None || holds_text(content->0, c->new_str->0))
            ==> backup_wanted(files, c, content, there),
{
    if c is Edit {
        law_index_of(files, c->Edit_path);
    }
}

/// What a call did to a file is read off its tool and its arguments: a tool that creates a file at
/// the path that it was given wrote it, one that replaces text there edited it, and any other tool
/// than those that write, edit or remove changed no file.
pub proof fn law_change_of(
    name: Seq<char>,
    fields: Seq<(Seq<char>, FieldView)>,
    result: Seq<char>,
    path: Seq<char>,
)
    requires
        field(fields, "TargetFile"@) is None,
        field(fields, "path"@) == Some(FieldView::Text(path)),
    ensures
        name == "create"@ ==> {
            &&& change_of(name, fields, result) is Some
            &&& change_of(name, fields, result)->0 is Write
            &&& change_of(name, fields, result)->0->Write_path == path
        },
        name == "str_replace"@ ==> {
            &&& change_of(name, fields, result) is Some
            &&& change_of(name, fields, result)->0 is Edit
            &&& change_of(name, fields, result)->0->Edit_path == path
            &&& change_of(name, fields, result)->0->new_str == as_text(field(fields, "new_str"@))
            &&& change_of(name, fields, result)->0->added == diff_stats(result).0
            &&& change_of(name, fields, result)->0->removed == diff_stats(result).1
        },
        name == "remove"@ ==> {
            &&& change_of(name, fields, result) is Some
            &&& change_of(name, fields, result)->0 is Remove
            &&& change_of(name, fields, result)->0->Remove_path == path
        },
        name == "view"@ || name == "run_command"@ ==> change_of(name, fields, result) is None,
{
    lemma_names_differ();
}

proof fn lemma_names_differ()
    ensures
        !writes("str_replace"@),
        !writes("remove"@),
        !edits("remove"@),
        !writes("view"@) && !edits("view"@) && !removes("view"@),
        !writes("run_command"@) && !edits("run_command"@) && !removes("run_command"@),
{
    reveal_strlit("write_to_file");
    reveal_strlit("create");
    reveal_strlit("create_file");
    reveal_strlit("replace_file_content");
    reveal_strlit("multi_replace_file_content");
    reveal_strlit("str_replace");
    reveal_strlit("edit_file");
    reveal_strlit("remove_file");
    reveal_strlit("delete_file");
    reveal_strlit("stakpak__remove");
    reveal_strlit("remove");
    reveal_strlit("view");
    reveal_strlit("run_command");
    assert("str_replace"@[0] == 's' && "remove"@[0] == 'r' && "view"@[0] == 'v'
        && "run_command"@[1] == 'u');
    assert("write_to_file"@[0] == 'w' && "create"@[0] == 'c' && "create_file"@[0] == 'c');
    assert("multi_replace_file_content"@[0] == 'm' && "edit_file"@[0] == 'e'
        && "delete_file"@[0] == 'd' && "stakpak__remove"@[0] == 's');
    assert("replace_file_content"@[1] == 'e' && "replace_file_content"@[2] == 'p');
    assert("remove"@[2] == 'm' && "remove_file"@[1] == 'e' && "remove"@[1] == 'e');
}

} // verus!
