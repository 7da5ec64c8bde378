//! Images in the input: paths that are typed or pasted turn into placeholders.

use vstd::prelude::*;
use crate::collections::TextMap;
use crate::models::copy_text;
use crate::models::text_of;
use crate::text::boundary;
use crate::text::byte_at;
use crate::text::byte_len;
use crate::text::byte_of;
use crate::text::chars_of;
use crate::text::decimal;
use crate::text::ends_with;
use crate::text::find_char;
use crate::text::find_chars;
use crate::text::find_from;
use crate::text::fold_chars;
use crate::text::folded;
use crate::text::has_prefix;
use crate::text::has_suffix;
use crate::text::index_at;
use crate::text::lemma_byte_of_mono;
use crate::text::lemma_find_from;
use crate::text::lemma_next_char;
use crate::text::next_char;
use crate::text::occurs_at;
use crate::text::same_text;
use crate::text::starts_with;
use crate::text::string_of;
use crate::text::to_decimal;
use crate::text::utf8_len;
use crate::textarea::TextArea;
use crate::textarea::TextAreaView;
use crate::textarea::lemma_byte_of_inj;
use crate::textarea::lemma_split_at;
use crate::textarea::spliced;
use crate::textarea::spliced_cursor;
use crate::textarea::split_at_byte;
use crate::types::AttachedImage;
use crate::types::InputState;

verus! {

// ----- finding paths -----

/// The part of a text from the character `start` to before the character `end`.
pub struct PathSpan {
    pub start: int,
    pub end: int,
}

/// How the names of images end.
pub open spec fn image_extensions() -> Seq<Seq<char>> {
    seq![".png"@, ".jpg"@, ".jpeg"@, ".gif"@, ".webp"@, ".bmp"@, ".tiff"@, ".tif"@]
}

fn image_extension(k: usize) -> (r: &'static str)
    requires
        k < 8,
    ensures
        r@ == image_extensions()[k as int],
        utf8_len(r@) > 0,
        r@.len() > 0,
{
    let r: &'static str = match k {
        0 => ".png",
        1 => ".jpg",
        2 => ".jpeg",
        3 => ".gif",
        4 => ".webp",
        5 => ".bmp",
        6 => ".tiff",
        _ => ".tif",
    };
    proof {
        reveal_strlit(".png");
        reveal_strlit(".jpg");
        reveal_strlit(".jpeg");
        reveal_strlit(".gif");
        reveal_strlit(".webp");
        reveal_strlit(".bmp");
        reveal_strlit(".tiff");
        reveal_strlit(".tif");
        lemma_byte_of_mono(r@, 0, r@.len() as int);
        assert(r@.take(r@.len() as int) =~= r@);
        assert(r@.take(0) =~= Seq::<char>::empty());
    }
    r
}

/// Whether the text ends as the name of an image does, whatever the case.
pub open spec fn is_image_name(s: Seq<char>) -> bool {
    exists|k: int|
        0 <= k < image_extensions().len() && has_suffix(
            folded(s),
            #[trigger] image_extensions()[k],
        )
}

fn names_image(s: &Vec<char>, a: usize, b: usize) -> (r: bool)
    requires
        a <= b <= s@.len(),
    ensures
        r == is_image_name(s@.subrange(a as int, b as int)),
{
    let part: Vec<char> = chars_of(string_of(s, a, b).as_str());
    let low: Vec<char> = fold_chars(&part);
    let text: String = string_of(&low, 0, low.len());
    assert(text@ =~= folded(s@.subrange(a as int, b as int)));
    let mut k: usize = 0;
    while k < 8
        invariant
            k <= 8,
            text@ == folded(s@.subrange(a as int, b as int)),
            image_extensions().len() == 8,
            forall|j: int|
                0 <= j < k ==> !has_suffix(text@, #[trigger] image_extensions()[j]),
        decreases 8 - k,
    {
        if ends_with(text.as_str(), image_extension(k)) {
            return true;
        }
        k += 1;
    }
    false
}

/// The paths between two quotes, from the character `i` on, behind those in `found`. The quotes
/// belong to a path, and it may hold spaces.
pub open spec fn quoted_paths(s: Seq<char>, quote: char, i: int, found: Seq<PathSpan>) -> Seq<
    PathSpan,
>
    decreases s.len() - i,
{
    let a = next_char(s, quote, i);
    let b = next_char(s, quote, a + 1);
    if i < 0 || a < i || a >= s.len() || b <= a || b >= s.len() {
        found
    } else if is_image_name(s.subrange(a + 1, b)) {
        quoted_paths(s, quote, b + 1, found.push(PathSpan { start: a, end: b + 1 }))
    } else {
        quoted_paths(s, quote, b + 1, found)
    }
}

/// The spans that pairs of indices stand for.
pub open spec fn spans(v: Seq<(usize, usize)>) -> Seq<PathSpan> {
    v.map_values(|p: (usize, usize)| PathSpan { start: p.0 as int, end: p.1 as int })
}

proof fn lemma_spans_push(v: Seq<(usize, usize)>, p: (usize, usize))
    ensures
        spans(v.push(p)) == spans(v).push(PathSpan { start: p.0 as int, end: p.1 as int }),
{
    assert(spans(v.push(p)) =~= spans(v).push(PathSpan { start: p.0 as int, end: p.1 as int }));
}

/// Whether the spans are parts of a text with `n` characters.
pub open spec fn within(v: Seq<PathSpan>, n: int) -> bool {
    forall|i: int| 0 <= i < v.len() ==> 0 <= (#[trigger] v[i]).start < v[i].end <= n
}

fn find_quoted(s: &Vec<char>, quote: char, found: &mut Vec<(usize, usize)>)
    requires
        within(spans(old(found)@), s@.len() as int),
    ensures
        spans(final(found)@) == quoted_paths(s@, quote, 0, spans(old(found)@)),
        within(spans(final(found)@), s@.len() as int),
{
    let mut i: usize = 0;
    let ghost all = quoted_paths(s@, quote, 0, spans(found@));
    while i < s.len()
        invariant_except_break
            all == quoted_paths(s@, quote, i as int, spans(found@)),
        invariant
            i <= s@.len(),
            within(spans(found@), s@.len() as int),
        ensures
            all == spans(found@),
        decreases s@.len() - i,
    {
        let a: usize = find_char(s, quote, i);
        proof {
            lemma_next_char(s@, quote, i as int);
        }
        if a >= s.len() {
            break;
        }
        let b: usize = find_char(s, quote, a + 1);
        proof {
            lemma_next_char(s@, quote, a + 1);
        }
        if b >= s.len() {
            break;
        }
        if names_image(s, a + 1, b) {
            proof {
                lemma_spans_push(found@, (a, (b + 1) as usize));
            }
            found.push((a, b + 1));
        }
        i = b + 1;
    }
    proof {
        lemma_next_char(s@, quote, s@.len() as int);
    }
}

/// Whether a path without quotes ends before the character.
pub open spec fn is_break(c: char) -> bool {
    c == ' ' || c == '\n' || c == '\t' || c == '\'' || c == '"'
}

/// Where the path without quotes that reaches up to the character `n` begins.
pub open spec fn path_begin(s: Seq<char>, n: int) -> int
    decreases n,
{
    if n <= 0 || n > s.len() {
        0
    } else if is_break(s[n - 1]) {
        n
    } else {
        path_begin(s, n - 1)
    }
}

/// Whether the text looks like a path, not only like a word that ends as one.
pub open spec fn looks_like_path(t: Seq<char>) -> bool {
    ||| t.contains('/')
    ||| t.contains('\\')
    ||| t.len() > 0 && t[0] == '~'
    ||| t.len() > 0 && t[0] == '.'
    ||| has_prefix(t, "[Image "@)
}

/// Whether one of the spans covers the characters from `k` to before `e`.
pub open spec fn covered(v: Seq<PathSpan>, k: int, e: int) -> bool {
    exists|i: int| 0 <= i < v.len() && (#[trigger] v[i]).start <= k && v[i].end >= e
}

/// The index of the character that starts at the byte offset, where there is one.
pub open spec fn byte_index(s: Seq<char>, b: int) -> Option<int> {
    if boundary(s, b) {
        Some(choose|i: int| 0 <= i <= s.len() && #[trigger] byte_of(s, i) == b)
    } else {
        None
    }
}

/// The paths without quotes that end in `ext`, whatever the case, from the character `i` on, behind
/// those in `found`. A path that another one covers is left out.
pub open spec fn bare_paths(s: Seq<char>, ext: Seq<char>, i: int, found: Seq<PathSpan>) -> Seq<
    PathSpan,
>
    decreases s.len() - i,
{
    match find_from(folded(s), ext, i) {
        None => found,
        Some(p) => {
            let e = p + ext.len();
            let k = path_begin(s, p);
            if i < 0 || e <= i || e > s.len() {
                found
            } else if covered(found, k, e) || !looks_like_path(s.subrange(k, e)) {
                bare_paths(s, ext, e, found)
            } else {
                bare_paths(s, ext, e, found.push(PathSpan { start: k, end: e }))
            }
        },
    }
}

fn find_break(s: &Vec<char>, n: usize) -> (k: usize)
    requires
        n <= s@.len(),
    ensures
        k == path_begin(s@, n as int),
        k <= n,
{
    let mut k: usize = n;
    while k > 0 && s[k - 1] != ' ' && s[k - 1] != '\n' && s[k - 1] != '\t' && s[k - 1] != '\''
        && s[k - 1] != '"'
        invariant
            k <= n <= s@.len(),
            path_begin(s@, n as int) == path_begin(s@, k as int),
        decreases k,
    {
        k -= 1;
    }
    k
}

fn seems_path(t: &str) -> (r: bool)
    ensures
        r == looks_like_path(t@),
{
    let v: Vec<char> = chars_of(t);
    let first: bool = v.len() > 0 && (v[0] == '~' || v[0] == '.');
    let slash: usize = find_char(&v, '/', 0);
    let backslash: usize = find_char(&v, '\\', 0);
    proof {
        lemma_next_char(v@, '/', 0);
        lemma_next_char(v@, '\\', 0);
        if slash < v@.len() {
            assert(t@.contains(v@[slash as int]));
        }
        if backslash < v@.len() {
            assert(t@.contains(v@[backslash as int]));
        }
    }
    first || slash < v.len() || backslash < v.len() || starts_with(t, "[Image ")
}

fn is_covered(found: &Vec<(usize, usize)>, k: usize, e: usize) -> (r: bool)
    ensures
        r == covered(spans(found@), k as int, e as int),
{
    let mut i: usize = 0;
    while i < found.len()
        invariant
            i <= found@.len(),
            forall|j: int|
                0 <= j < i ==> !((#[trigger] spans(found@)[j]).start <= k && spans(found@)[j].end >= e),
        decreases found@.len() - i,
    {
        let p: (usize, usize) = found[i];
        assert(spans(found@)[i as int] == (PathSpan { start: p.0 as int, end: p.1 as int }));
        if p.0 <= k && p.1 >= e {
            return true;
        }
        i += 1;
    }
    false
}

fn find_bare(s: &Vec<char>, low: &Vec<char>, ext: &str, found: &mut Vec<(usize, usize)>)
    requires
        low@ == folded(s@),
        ext@.len() > 0,
        within(spans(old(found)@), s@.len() as int),
    ensures
        spans(final(found)@) == bare_paths(s@, ext@, 0, spans(old(found)@)),
        within(spans(final(found)@), s@.len() as int),
{
    let wanted: Vec<char> = chars_of(ext);
    let ghost all = bare_paths(s@, ext@, 0, spans(found@));
    let mut i: usize = 0;
    loop
        invariant
            i <= s@.len(),
            low@ == folded(s@),
            wanted@ == ext@,
            ext@.len() > 0,
            all == bare_paths(s@, ext@, 0, spans(old(found)@)),
            all == bare_paths(s@, ext@, i as int, spans(found@)),
            within(spans(found@), s@.len() as int),
        decreases s@.len() - i,
    {
        match find_chars(low, &wanted, i) {
            None => {
                return;
            },
            Some(p) => {
                proof {
                    crate::text::lemma_find_from(low@, wanted@, i as int);
                    assert(p + wanted@.len() <= low.len());
                }
                let e: usize = p + wanted.len();
                let k: usize = find_break(s, p);
                let t: String = string_of(s, k, e);
                if !is_covered(found, k, e) && seems_path(t.as_str()) {
                    proof {
                        lemma_spans_push(found@, (k, e));
                    }
                    found.push((k, e));
                }
                i = e;
            },
        }
    }
}

/// The spans with another one put in its place by where it starts. Where one starts there already,
/// it stays.
pub open spec fn put(v: Seq<PathSpan>, x: PathSpan) -> Seq<PathSpan>
    decreases v.len(),
{
    if v.len() == 0 || v.last().start < x.start {
        v.push(x)
    } else if v.last().start == x.start {
        v
    } else {
        put(v.drop_last(), x).push(v.last())
    }
}

/// The spans in the order in which they start, the first of each start only.
pub open spec fn in_order(v: Seq<PathSpan>) -> Seq<PathSpan>
    decreases v.len(),
{
    if v.len() == 0 {
        Seq::empty()
    } else {
        put(in_order(v.drop_last()), v.last())
    }
}

/// Whether each span starts behind the one before it.
pub open spec fn ascending(v: Seq<PathSpan>) -> bool {
    forall|i: int, j: int|
        0 <= i < j < v.len() ==> (#[trigger] v[i]).start < (#[trigger] v[j]).start
}

proof fn lemma_put(v: Seq<PathSpan>, x: PathSpan, n: int)
    requires
        ascending(v),
        within(v, n),
        0 <= x.start < x.end <= n,
    ensures
        ascending(put(v, x)),
        within(put(v, x), n),
        v.len() > 0 && v.last().start > x.start ==> put(v, x).last() == v.last(),
        v.len() > 0 && v.last().start <= x.start ==> put(v, x).last().start == x.start,
        v.len() == 0 ==> put(v, x).last() == x,
        put(v, x).len() > 0,
    decreases v.len(),
{
    if v.len() > 0 && v.last().start > x.start {
        let rest = v.drop_last();
        assert(ascending(rest));
        assert(within(rest, n));
        lemma_put(rest, x, n);
        let p = put(rest, x);
        assert(p.last().start < v.last().start) by {
            if rest.len() > 0 {
                assert(rest.last() == v[v.len() - 2]);
            }
        }
    }
}

/// The paths of a text come in the order in which they start, and no two start at one place.
pub proof fn law_paths_in_order(v: Seq<PathSpan>, n: int)
    requires
        within(v, n),
    ensures
        ascending(in_order(v)),
        within(in_order(v), n),
    decreases v.len(),
{
    if v.len() > 0 {
        law_paths_in_order(v.drop_last(), n);
        assert(v.last() == v[v.len() - 1]);
        lemma_put(in_order(v.drop_last()), v.last(), n);
    }
}

fn place(v: &mut Vec<(usize, usize)>, x: (usize, usize))
    ensures
        spans(final(v)@) == put(
            spans(old(v)@),
            PathSpan { start: x.0 as int, end: x.1 as int },
        ),
{
    let ghost before = spans(v@);
    let ghost y = PathSpan { start: x.0 as int, end: x.1 as int };
    let mut j: usize = v.len();
    assert(before.take(j as int) =~= before);
    assert(put(before.take(j as int), y) + before.skip(j as int) =~= put(before, y));
    while j > 0 && v[j - 1].0 > x.0
        invariant
            j <= v@.len(),
            v@ == old(v)@,
            before == spans(v@),
            before.len() == v@.len(),
            y == (PathSpan { start: x.0 as int, end: x.1 as int }),
            put(before.take(j as int), y) + before.skip(j as int) == put(before, y),
        decreases j,
    {
        proof {
            let t = before.take(j as int);
            assert(t.last() == before[j - 1]);
            assert(t.drop_last() =~= before.take(j - 1));
            assert(put(t, y) == put(before.take(j - 1), y).push(before[j - 1]));
            assert(put(before.take(j - 1), y).push(before[j - 1]) + before.skip(j as int) =~= put(
                before.take(j - 1),
                y,
            ) + before.skip(j - 1));
        }
        j -= 1;
    }
    let ghost t = before.take(j as int);
    if j > 0 && v[j - 1].0 == x.0 {
        assert(t.last() == before[j - 1]);
        assert(t + before.skip(j as int) =~= before);
    } else {
        proof {
            if j > 0 {
                assert(t.last() == before[j - 1]);
            }
            assert(put(t, y) == t.push(y));
        }
        v.insert(j, x);
        assert(spans(v@) =~= t.push(y) + before.skip(j as int));
    }
}

fn arrange(v: &Vec<(usize, usize)>) -> (r: Vec<(usize, usize)>)
    ensures
        spans(r@) == in_order(spans(v@)),
{
    let mut r: Vec<(usize, usize)> = Vec::new();
    let mut i: usize = 0;
    let ghost all = spans(v@);
    assert(all.take(0) =~= Seq::<PathSpan>::empty());
    assert(spans(r@) =~= Seq::<PathSpan>::empty());
    while i < v.len()
        invariant
            i <= v@.len(),
            all == spans(v@),
            all.len() == v@.len(),
            spans(r@) == in_order(all.take(i as int)),
        decreases v@.len() - i,
    {
        proof {
            assert(all.take(i + 1).drop_last() =~= all.take(i as int));
            assert(all.take(i + 1).last() == all[i as int]);
        }
        place(&mut r, v[i]);
        i += 1;
    }
    assert(all.take(i as int) =~= all);
    r
}

/// The paths of a text in the order in which they are found: those in single quotes, those in
/// double quotes, then those without quotes for the first `k` extensions.
pub open spec fn found_paths(s: Seq<char>, k: int) -> Seq<PathSpan>
    decreases k,
{
    if k <= 0 {
        quoted_paths(s, '"', 0, quoted_paths(s, '\'', 0, Seq::empty()))
    } else {
        bare_paths(s, image_extensions()[k - 1], 0, found_paths(s, k - 1))
    }
}

/// The paths of images in a text, in the order in which they start.
pub open spec fn image_paths(s: Seq<char>) -> Seq<PathSpan> {
    in_order(found_paths(s, 8))
}

/// The paths of images in a text, each as the index of its first character and that behind its
/// last.
pub fn find_all_image_paths(input: &str) -> (r: Vec<(usize, usize)>)
    ensures
        spans(r@) == image_paths(input@),
        within(spans(r@), input@.len() as int),
{
    let s: Vec<char> = chars_of(input);
    let low: Vec<char> = fold_chars(&s);
    let mut found: Vec<(usize, usize)> = Vec::new();
    assert(spans(found@) =~= Seq::<PathSpan>::empty());
    find_quoted(&s, '\'', &mut found);
    find_quoted(&s, '"', &mut found);
    let mut k: usize = 0;
    while k < 8
        invariant
            k <= 8,
            s@ == input@,
            low@ == folded(s@),
            found_paths(input@, k as int) == spans(found@),
            within(spans(found@), input@.len() as int),
        decreases 8 - k,
    {
        find_bare(&s, &low, image_extension(k), &mut found);
        k += 1;
    }
    proof {
        law_paths_in_order(spans(found@), input@.len() as int);
    }
    arrange(&found)
}

// ----- what is being written -----

/// An image that the input holds a placeholder for.
pub struct ImageView {
    pub placeholder: Seq<char>,
    pub path: Seq<char>,
    pub filename: Seq<char>,
    pub extension: Option<Seq<char>>,
    pub dimensions: (u32, u32),
    pub start: int,
    pub end: int,
}

impl View for AttachedImage {
    type V = ImageView;

    open spec fn view(&self) -> ImageView {
        ImageView {
            placeholder: self.placeholder@,
            path: self.path@,
            filename: self.filename@,
            extension: text_of(self.extension),
            dimensions: self.dimensions,
            start: self.start_pos as int,
            end: self.end_pos as int,
        }
    }
}

pub open spec fn image_views(v: Seq<AttachedImage>) -> Seq<ImageView> {
    v.map_values(|i: AttachedImage| i@)
}

/// What is being written: the text and its images.
pub struct Draft {
    pub area: TextAreaView,
    pub images: Seq<ImageView>,
}

/// What the input holds.
pub open spec fn draft(i: InputState) -> Draft {
    Draft { area: i.text_area@, images: image_views(i.attached_images@) }
}

/// The input with another text and other images.
pub open spec fn redrafted(pre: InputState, post: InputState) -> bool {
    post == (InputState {
        text_area: post.text_area,
        attached_images: post.attached_images,
        ..pre
    })
}

// ----- placeholders that are edited -----

/// The characters between two byte offsets.
pub open spec fn cut(s: Seq<char>, a: int, b: int) -> Seq<char> {
    s.subrange(byte_index(s, a)->0, byte_index(s, b)->0)
}

/// Whether the cursor is in the image's placeholder and the text there is another one. An image
/// whose ends do not lie between characters of the text is left alone.
pub open spec fn is_edited(a: TextAreaView, img: ImageView) -> bool {
    &&& img.start <= a.cursor <= img.end
    &&& img.end <= utf8_len(a.text)
    &&& boundary(a.text, img.start)
    &&& boundary(a.text, img.end)
    &&& cut(a.text, img.start, img.end) != img.placeholder
}

/// The first image from `k` on whose placeholder is edited.
pub open spec fn edited_at(d: Draft, k: int) -> Option<int>
    decreases d.images.len() - k,
{
    if k < 0 || k >= d.images.len() {
        None
    } else if is_edited(d.area, d.images[k]) {
        Some(k)
    } else {
        edited_at(d, k + 1)
    }
}

/// The images without those that start at the offset, in their order.
pub open spec fn without_start(v: Seq<ImageView>, start: int) -> Seq<ImageView>
    decreases v.len(),
{
    if v.len() == 0 {
        Seq::empty()
    } else if v.last().start == start {
        without_start(v.drop_last(), start)
    } else {
        without_start(v.drop_last(), start).push(v.last())
    }
}

/// The draft after an edited placeholder gave way to the path that it stands for.
pub open spec fn revealed(d: Draft) -> Draft {
    match edited_at(d, 0) {
        None => d,
        Some(k) => {
            let img = d.images[k];
            Draft {
                area: TextAreaView {
                    text: spliced(d.area.text, img.start, img.end, img.path),
                    cursor: img.start + utf8_len(img.path),
                    ..d.area
                },
                images: without_start(d.images, img.start),
            }
        },
    }
}

fn placeholder_edited(t: &TextArea, img: &AttachedImage) -> (r: bool)
    ensures
        r == is_edited(t@, img@),
{
    let cursor: usize = t.cursor();
    let text: &str = t.text();
    if cursor < img.start_pos || cursor > img.end_pos || img.end_pos > byte_len(text) {
        return false;
    }
    match (index_at(text, img.start_pos), index_at(text, img.end_pos)) {
        (Some(a), Some(b)) => {
            proof {
                let s = text@;
                let x = choose|x: int|
                    0 <= x <= s.len() && #[trigger] byte_of(s, x) == img.start_pos;
                let y = choose|y: int| 0 <= y <= s.len() && #[trigger] byte_of(s, y) == img.end_pos;
                lemma_byte_of_inj(s, x, a as int);
                lemma_byte_of_inj(s, y, b as int);
                if b < a {
                    lemma_byte_of_mono(s, b as int, a as int);
                }
            }
            let v: Vec<char> = chars_of(text);
            let now: String = string_of(&v, a, b);
            !same_text(now.as_str(), img.placeholder.as_str())
        },
        _ => false,
    }
}

fn drop_start(v: &mut Vec<AttachedImage>, start: usize)
    ensures
        image_views(final(v)@) == without_start(image_views(old(v)@), start as int),
{
    let ghost all = image_views(v@);
    let mut kept: Vec<AttachedImage> = Vec::new();
    let mut i: usize = 0;
    assert(all.take(0) =~= Seq::<ImageView>::empty());
    assert(image_views(kept@) =~= Seq::<ImageView>::empty());
    while i < v.len()
        invariant
            i <= v@.len(),
            v@ == old(v)@,
            all == image_views(v@),
            all.len() == v@.len(),
            image_views(kept@) == without_start(all.take(i as int), start as int),
        decreases v@.len() - i,
    {
        proof {
            assert(all.take(i + 1).drop_last() =~= all.take(i as int));
            assert(all.take(i + 1).last() == all[i as int]);
            assert(all[i as int] == v@[i as int]@);
        }
        if v[i].start_pos != start {
            let copy: AttachedImage = copy_image(&v[i]);
            assert(image_views(kept@.push(copy)) =~= image_views(kept@).push(copy@));
            kept.push(copy);
        }
        i += 1;
    }
    assert(all.take(i as int) =~= all);
    *v = kept;
}

/// A copy of the image.
pub fn copy_image(i: &AttachedImage) -> (r: AttachedImage)
    ensures
        r == *i,
{
    AttachedImage {
        placeholder: i.placeholder.clone(),
        path: i.path.clone(),
        filename: i.filename.clone(),
        extension: copy_text(&i.extension),
        dimensions: i.dimensions,
        start_pos: i.start_pos,
        end_pos: i.end_pos,
    }
}

fn find_edited(i: &InputState) -> (r: Option<usize>)
    ensures
        r is Some <==> edited_at(draft(*i), 0) is Some,
        r is Some ==> edited_at(draft(*i), 0) == Some(r->0 as int) && r->0
            < i.attached_images@.len() && is_edited(
            i.text_area@,
            i.attached_images@[r->0 as int]@,
        ),
{
    let ghost d = draft(*i);
    let mut k: usize = 0;
    while k < i.attached_images.len()
        invariant
            k <= i.attached_images@.len(),
            d == draft(*i),
            d.images.len() == i.attached_images@.len(),
            edited_at(d, 0) == edited_at(d, k as int),
        decreases i.attached_images@.len() - k,
    {
        assert(d.images[k as int] == i.attached_images@[k as int]@);
        if placeholder_edited(&i.text_area, &i.attached_images[k]) {
            return Some(k);
        }
        k += 1;
    }
    None
}

/// Puts the path in the place of a placeholder that the user edits.
pub fn check_placeholder_edit(i: &mut InputState)
    ensures
        redrafted(*old(i), *final(i)),
        draft(*final(i)) == revealed(draft(*old(i))),
{
    match find_edited(i) {
        Some(k) => {
            let start: usize = i.attached_images[k].start_pos;
            let end: usize = i.attached_images[k].end_pos;
            let path: String = i.attached_images[k].path.clone();
            assert(draft(*i).images[k as int] == i.attached_images@[k as int]@);
            replace_and_follow(&mut i.text_area, start, end, path.as_str());
            drop_start(&mut i.attached_images, start);
        },
        None => {},
    }
}

fn replace_and_follow(t: &mut TextArea, start: usize, end: usize, path: &str)
    requires
        start <= end,
        boundary(old(t)@.text, start as int),
        boundary(old(t)@.text, end as int),
    ensures
        final(t)@ == (TextAreaView {
            text: spliced(old(t)@.text, start as int, end as int, path@),
            cursor: start + utf8_len(path@),
            ..old(t)@
        }),
{
    let at: Option<usize> = index_at(t.text(), start);
    let ghost s = t@.text;
    t.replace_range(start, end, path);
    let ghost new = t@.text;
    let text: &str = t.text();
    match at {
        Some(a) => {
            let n: usize = chars_of(path).len();
            proof {
                let x = choose|x: int| 0 <= x <= s.len() && #[trigger] byte_of(s, x) == start;
                lemma_byte_of_inj(s, x, a as int);
                assert(split_at_byte(s, start as int).0 == s.take(a as int));
                assert(new.take(a + n) =~= s.take(a as int) + path@);
                crate::text::lemma_utf8_len_add(s.take(a as int), path@);
                assert(byte_of(new, a + n) == start + utf8_len(path@));
            }
            let all: Vec<char> = chars_of(text);
            assert(a + n <= all.len());
            let to: usize = byte_at(text, a + n);
            t.set_cursor(to);
        },
        None => {},
    }
}

// ----- paths that turn into placeholders -----

/// A file on disk that is an image.
#[derive(Debug)]
pub struct ImageFile {
    pub path: String,
    /// The file's name without what follows its last dot.
    pub stem: Option<String>,
    /// What follows the last dot of the file's name.
    pub extension: Option<String>,
    pub width: u32,
    pub height: u32,
}

/// A capital letter of ASCII as a small one.
pub open spec fn small_letter(c: char) -> char {
    if 'A' <= c <= 'Z' {
        ((c as u32) + 32) as char
    } else {
        c
    }
}

/// The text with small letters in place of the capital ones of ASCII.
pub open spec fn small_letters(s: Seq<char>) -> Seq<char> {
    s.map_values(|c: char| small_letter(c))
}

fn to_small(s: &str) -> (r: String)
    ensures
        r@ == small_letters(s@),
{
    let v: Vec<char> = chars_of(s);
    let mut r: String = String::new();
    let mut i: usize = 0;
    assert(r@ =~= small_letters(s@).take(0));
    while i < v.len()
        invariant
            i <= v@.len(),
            v@ == s@,
            small_letters(s@).len() == v@.len(),
            r@ == small_letters(s@).take(i as int),
        decreases v@.len() - i,
    {
        let c: char = v[i];
        let d: char = if 'A' <= c && c <= 'Z' {
            ((c as u8) + 32) as char
        } else {
            c
        };
        proof {
            assert(small_letters(s@)[i as int] == small_letter(c));
            assert(small_letters(s@).take(i + 1) =~= small_letters(s@).take(i as int).push(
                small_letter(c),
            ));
        }
        r.push(d);
        i += 1;
    }
    assert(small_letters(s@).take(i as int) =~= small_letters(s@));
    r
}

/// Whether the model takes images with the extension.
pub open spec fn supported(extension: Option<Seq<char>>) -> bool {
    match extension {
        Some(e) => {
            let t = small_letters(e);
            t != "tiff"@ && t != "tif"@ && t != "bmp"@
        },
        None => true,
    }
}

/// Whether the model takes images with the extension.
pub fn is_supported_format(extension: &Option<String>) -> (r: bool)
    ensures
        r == supported(text_of(*extension)),
{
    match extension {
        Some(e) => {
            let t: String = to_small(e.as_str());
            !same_text(t.as_str(), "tiff") && !same_text(t.as_str(), "tif") && !same_text(
                t.as_str(),
                "bmp",
            )
        },
        None => true,
    }
}

/// The name that an image is shown under.
pub open spec fn image_name(stem: Option<Seq<char>>) -> Seq<char> {
    match stem {
        Some(t) => t,
        None => "untitled"@,
    }
}

/// What stands in the text for an image.
pub open spec fn image_placeholder(name: Seq<char>, width: u32, height: u32, kind: Seq<char>)
    -> Seq<char> {
    "[Image "@ + name + " "@ + decimal(width as nat) + "x"@ + decimal(height as nat) + " "@ + kind
        + "]"@
}

fn name_of(stem: &Option<String>) -> (r: String)
    ensures
        r@ == image_name(text_of(*stem)),
{
    match stem {
        Some(t) => t.clone(),
        None => "untitled".to_owned(),
    }
}

fn write_placeholder(name: &str, width: u32, height: u32, kind: &str) -> (r: String)
    ensures
        r@ == image_placeholder(name@, width, height, kind@),
{
    let mut r: String = "[Image ".to_owned();
    r.push_str(name);
    r.push_str(" ");
    r.push_str(to_decimal(width as u64).as_str());
    r.push_str("x");
    r.push_str(to_decimal(height as u64).as_str());
    r.push_str(" ");
    r.push_str(kind);
    r.push_str("]");
    r
}

/// The index of the first character from `i` on that is not `c`.
pub open spec fn skip_char(s: Seq<char>, c: char, i: int) -> int
    decreases s.len() - i,
{
    if 0 <= i < s.len() && s[i] == c {
        skip_char(s, c, i + 1)
    } else {
        i
    }
}

/// The end of the text up to `n` without the characters `c` at its end, but not before `from`.
pub open spec fn drop_char(s: Seq<char>, c: char, from: int, n: int) -> int
    decreases n,
{
    if from < n <= s.len() && n > 0 && s[n - 1] == c {
        drop_char(s, c, from, n - 1)
    } else {
        n
    }
}

/// The text without the characters `c` at its ends.
pub open spec fn stripped(s: Seq<char>, c: char) -> Seq<char> {
    let a = skip_char(s, c, 0);
    s.subrange(a, drop_char(s, c, a, s.len() as int))
}

fn strip(s: &str, c: char) -> (r: String)
    ensures
        r@ == stripped(s@, c),
{
    let v: Vec<char> = chars_of(s);
    let mut a: usize = 0;
    while a < v.len() && v[a] == c
        invariant
            a <= v@.len(),
            v@ == s@,
            skip_char(s@, c, 0) == skip_char(s@, c, a as int),
        decreases v@.len() - a,
    {
        a += 1;
    }
    let mut b: usize = v.len();
    while b > a && v[b - 1] == c
        invariant
            a <= b <= v@.len(),
            v@ == s@,
            drop_char(s@, c, a as int, s@.len() as int) == drop_char(s@, c, a as int, b as int),
        decreases b,
    {
        b -= 1;
    }
    string_of(&v, a, b)
}

/// The path without the quotes round it.
pub open spec fn clean_path(s: Seq<char>) -> Seq<char> {
    stripped(stripped(s, '\''), '"')
}

/// The path without the quotes round it.
pub fn strip_quotes(path: &str) -> (r: String)
    ensures
        r@ == clean_path(path@),
{
    let inner: String = strip(path, '\'');
    strip(inner.as_str(), '"')
}

/// Whether the file is attached.
pub open spec fn has_image(images: Seq<ImageView>, path: Seq<char>) -> bool {
    exists|i: int| 0 <= i < images.len() && (#[trigger] images[i]).path == path
}

fn is_attached(images: &Vec<AttachedImage>, path: &str) -> (r: bool)
    ensures
        r == has_image(image_views(images@), path@),
{
    let ghost all = image_views(images@);
    let mut i: usize = 0;
    while i < images.len()
        invariant
            i <= images@.len(),
            all == image_views(images@),
            all.len() == images@.len(),
            forall|j: int| 0 <= j < i ==> (#[trigger] all[j]).path != path@,
        decreases images@.len() - i,
    {
        assert(all[i as int] == images@[i as int]@);
        if same_text(images[i].path.as_str(), path) {
            return true;
        }
        i += 1;
    }
    false
}

/// The image of a file whose placeholder starts at the byte offset.
pub open spec fn image_of(f: ImageFile, placeholder: Seq<char>, start: int) -> ImageView {
    ImageView {
        placeholder,
        path: f.path@,
        filename: image_name(text_of(f.stem)),
        extension: text_of(f.extension),
        dimensions: (f.width, f.height),
        start,
        end: start + utf8_len(placeholder),
    }
}

/// The draft after a path gave way to a placeholder: the path has to name an image that the model
/// takes. A file that is attached already is not attached again.
pub open spec fn converted(d: Draft, p: PathSpan, known: Map<Seq<char>, ImageFile>) -> Option<
    Draft,
> {
    let s = d.area.text;
    let path = clean_path(s.subrange(p.start, p.end));
    if known.contains_key(path) && supported(text_of(known[path].extension)) {
        let f = known[path];
        let t = image_placeholder(image_name(text_of(f.stem)), f.width, f.height, "JPEG"@);
        let a = byte_of(s, p.start) as int;
        let b = byte_of(s, p.end) as int;
        Some(
            Draft {
                area: TextAreaView {
                    text: s.take(p.start) + t + s.skip(p.end),
                    cursor: spliced_cursor(d.area.cursor, a, b, utf8_len(t) as int),
                    ..d.area
                },
                images: if has_image(d.images, f.path@) {
                    d.images
                } else {
                    d.images.push(image_of(f, t, a))
                },
            },
        )
    } else {
        None
    }
}

fn convert_path_to_placeholder(
    i: &mut InputState,
    start: usize,
    end: usize,
    known: &TextMap<ImageFile>,
) -> (done: bool)
    requires
        start < end <= old(i).text_area@.text.len(),
    ensures
        redrafted(*old(i), *final(i)),
        ({
            let c = converted(
                draft(*old(i)),
                PathSpan { start: start as int, end: end as int },
                known@,
            );
            &&& done == (c is Some)
            &&& done ==> c == Some(draft(*final(i)))
            &&& !done ==> *final(i) == *old(i)
        }),
{
    let ghost s = i.text_area@.text;
    let text: String = i.text_area.text().to_owned();
    let v: Vec<char> = chars_of(text.as_str());
    let written: String = string_of(&v, start, end);
    let path: String = strip_quotes(written.as_str());
    let f: &ImageFile = match known.get(path.as_str()) {
        Some(f) => f,
        None => {
            return false;
        },
    };
    if !is_supported_format(&f.extension) {
        return false;
    }
    let name: String = name_of(&f.stem);
    let t: String = write_placeholder(name.as_str(), f.width, f.height, "JPEG");
    let a: usize = byte_at(text.as_str(), start);
    let b: usize = byte_at(text.as_str(), end);
    proof {
        lemma_split_at(s, start as int);
        lemma_split_at(s, end as int);
        lemma_byte_of_mono(s, start as int, end as int);
    }
    i.text_area.replace_range(a, b, t.as_str());
    let ghost new = i.text_area@.text;
    assert(new == s.take(start as int) + t@ + s.skip(end as int));
    let n: usize = chars_of(t.as_str()).len();
    let now: &str = i.text_area.text();
    let all: Vec<char> = chars_of(now);
    proof {
        assert(start + n <= all.len());
        assert(new.take(start + n) =~= s.take(start as int) + t@);
        crate::text::lemma_utf8_len_add(s.take(start as int), t@);
    }
    let behind: usize = byte_at(now, start + n);
    if !is_attached(&i.attached_images, f.path.as_str()) {
        let img: AttachedImage = AttachedImage {
            placeholder: t,
            path: f.path.clone(),
            filename: name,
            extension: copy_text(&f.extension),
            dimensions: (f.width, f.height),
            start_pos: a,
            end_pos: behind,
        };
        assert(image_views(i.attached_images@.push(img)) =~= image_views(i.attached_images@).push(
            img@,
        ));
        i.attached_images.push(img);
    }
    true
}

/// The image at the place where its placeholder stands in the text, where it stands there.
pub open spec fn placed(img: ImageView, text: Seq<char>) -> ImageView {
    match find_from(text, img.placeholder, 0) {
        Some(p) => {
            let b = byte_of(text, p) as int;
            ImageView { start: b, end: b + utf8_len(img.placeholder), ..img }
        },
        None => img,
    }
}

/// The draft with each image at the place where its placeholder stands.
pub open spec fn all_placed(d: Draft) -> Draft {
    Draft { images: d.images.map_values(|i: ImageView| placed(i, d.area.text)), ..d }
}

fn place_image(img: &AttachedImage, text: &str, s: &Vec<char>) -> (r: AttachedImage)
    requires
        s@ == text@,
    ensures
        r@ == placed(img@, text@),
{
    let p: Vec<char> = chars_of(img.placeholder.as_str());
    let mut r: AttachedImage = copy_image(img);
    match find_chars(s, &p, 0) {
        Some(k) => {
            proof {
                crate::text::lemma_find_from(s@, p@, 0);
                assert(k + p@.len() <= s.len());
                assert(text@.take(k + p@.len()) =~= text@.take(k as int) + p@);
                crate::text::lemma_utf8_len_add(text@.take(k as int), p@);
            }
            r.start_pos = byte_at(text, k);
            r.end_pos = byte_at(text, k + p.len());
        },
        None => {},
    }
    r
}

fn update_placeholder_positions_after_replacement(i: &mut InputState)
    ensures
        *final(i) == (InputState { attached_images: final(i).attached_images, ..*old(i) }),
        draft(*final(i)) == all_placed(draft(*old(i))),
{
    let text: String = i.text_area.text().to_owned();
    let s: Vec<char> = chars_of(text.as_str());
    let ghost d = draft(*i);
    let ghost want = all_placed(d).images;
    let mut moved: Vec<AttachedImage> = Vec::new();
    let mut k: usize = 0;
    assert(image_views(moved@) =~= want.take(0));
    while k < i.attached_images.len()
        invariant
            k <= i.attached_images@.len(),
            *i == *old(i),
            d == draft(*i),
            want == all_placed(d).images,
            want.len() == i.attached_images@.len(),
            s@ == text@,
            text@ == d.area.text,
            image_views(moved@) == want.take(k as int),
        decreases i.attached_images@.len() - k,
    {
        let img: AttachedImage = place_image(&i.attached_images[k], text.as_str(), &s);
        proof {
            assert(d.images[k as int] == i.attached_images@[k as int]@);
            assert(want[k as int] == img@);
            assert(image_views(moved@.push(img)) =~= image_views(moved@).push(img@));
            assert(want.take(k + 1) =~= want.take(k as int).push(want[k as int]));
        }
        moved.push(img);
        k += 1;
    }
    assert(want.take(k as int) =~= want);
    i.attached_images = moved;
}

/// Whether the text is a path that is to be converted: it is no placeholder and no address.
pub open spec fn unconverted(t: Seq<char>) -> bool {
    !has_prefix(t, "[Image "@) && !has_prefix(t, "http://"@) && !has_prefix(t, "https://"@)
}

fn is_unconverted(s: &Vec<char>, start: usize, end: usize) -> (r: bool)
    requires
        start <= end <= s@.len(),
    ensures
        r == unconverted(s@.subrange(start as int, end as int)),
{
    let t: String = string_of(s, start, end);
    !starts_with(t.as_str(), "[Image ") && !starts_with(t.as_str(), "http://") && !starts_with(
        t.as_str(),
        "https://",
    )
}

/// The first path from the `k`th on that is to be converted now: text stands behind it, or the
/// cursor does.
pub open spec fn ready_path(a: TextAreaView, paths: Seq<PathSpan>, k: int) -> Option<PathSpan>
    decreases paths.len() - k,
{
    if k < 0 || k >= paths.len() {
        None
    } else {
        let p = paths[k];
        if unconverted(a.text.subrange(p.start, p.end)) && (p.end < a.text.len() || a.cursor
            > byte_of(a.text, p.end)) {
            Some(p)
        } else {
            ready_path(a, paths, k + 1)
        }
    }
}

/// The last of the first `n` paths that is to be converted at some time.
pub open spec fn last_unconverted(s: Seq<char>, paths: Seq<PathSpan>, n: int) -> Option<PathSpan>
    decreases n,
{
    if n <= 0 || n > paths.len() {
        None
    } else if unconverted(s.subrange(paths[n - 1].start, paths[n - 1].end)) {
        Some(paths[n - 1])
    } else {
        last_unconverted(s, paths, n - 1)
    }
}

/// What follows an edit: the first path that is complete turns into a placeholder where it names an
/// image. A path at the end of the text waits, and where it starts is kept.
pub open spec fn paths_detected(
    pre: InputState,
    post: InputState,
    known: Map<Seq<char>, ImageFile>,
) -> bool {
    let d = draft(pre);
    let e = draft(post);
    let paths = image_paths(d.area.text);
    &&& post == (InputState {
        text_area: post.text_area,
        attached_images: post.attached_images,
        pending_path_start: post.pending_path_start,
        ..pre
    })
    &&& match ready_path(d.area, paths, 0) {
        Some(p) => {
            &&& e == (match converted(d, p, known) {
                Some(c) => all_placed(c),
                None => d,
            })
            &&& post.pending_path_start is None
        },
        None => {
            &&& e == d
            &&& match last_unconverted(d.area.text, paths, paths.len() as int) {
                Some(p) => post.pending_path_start is Some && post.pending_path_start->0
                    == byte_of(d.area.text, p.start),
                None => post.pending_path_start == pre.pending_path_start,
            }
        },
    }
}

fn find_ready(t: &TextArea, s: &Vec<char>, paths: &Vec<(usize, usize)>) -> (r: Option<
    (usize, usize),
>)
    requires
        s@ == t@.text,
        within(spans(paths@), s@.len() as int),
    ensures
        match r {
            Some(p) => ready_path(t@, spans(paths@), 0) == Some(
                PathSpan { start: p.0 as int, end: p.1 as int },
            ) && p.0 < p.1 <= s@.len(),
            None => ready_path(t@, spans(paths@), 0) is None,
        },
{
    let cursor: usize = t.cursor();
    let ghost all = spans(paths@);
    let mut k: usize = 0;
    while k < paths.len()
        invariant
            k <= paths@.len(),
            all == spans(paths@),
            all.len() == paths@.len(),
            within(all, s@.len() as int),
            s@ == t@.text,
            cursor == t@.cursor,
            ready_path(t@, all, 0) == ready_path(t@, all, k as int),
        decreases paths@.len() - k,
    {
        let p: (usize, usize) = paths[k];
        assert(all[k as int] == (PathSpan { start: p.0 as int, end: p.1 as int }));
        if is_unconverted(s, p.0, p.1) && (p.1 < s.len() || cursor > byte_at(t.text(), p.1)) {
            return Some(p);
        }
        k += 1;
    }
    None
}

fn find_last(s: &Vec<char>, paths: &Vec<(usize, usize)>) -> (r: Option<(usize, usize)>)
    requires
        within(spans(paths@), s@.len() as int),
    ensures
        match r {
            Some(p) => last_unconverted(s@, spans(paths@), paths@.len() as int) == Some(
                PathSpan { start: p.0 as int, end: p.1 as int },
            ) && p.0 < p.1 <= s@.len(),
            None => last_unconverted(s@, spans(paths@), paths@.len() as int) is None,
        },
{
    let ghost all = spans(paths@);
    let mut n: usize = paths.len();
    while n > 0
        invariant
            n <= paths@.len(),
            all == spans(paths@),
            all.len() == paths@.len(),
            within(all, s@.len() as int),
            last_unconverted(s@, all, all.len() as int) == last_unconverted(s@, all, n as int),
        decreases n,
    {
        let p: (usize, usize) = paths[n - 1];
        assert(all[n - 1] == (PathSpan { start: p.0 as int, end: p.1 as int }));
        if is_unconverted(s, p.0, p.1) {
            return Some(p);
        }
        n -= 1;
    }
    None
}

/// Turns the first complete path of the input into a placeholder, where it names an image.
pub fn detect_and_convert_paths(i: &mut InputState, known: &TextMap<ImageFile>)
    ensures
        paths_detected(*old(i), *final(i), known@),
{
    let s: Vec<char> = chars_of(i.text_area.text());
    let paths: Vec<(usize, usize)> = find_all_image_paths(i.text_area.text());
    match find_ready(&i.text_area, &s, &paths) {
        Some(p) => {
            if convert_path_to_placeholder(i, p.0, p.1, known) {
                update_placeholder_positions_after_replacement(i);
            }
            i.pending_path_start = None;
        },
        None => {
            assert(spans(paths@).len() == paths@.len());
            match find_last(&s, &paths) {
                Some(p) => {
                    let b: usize = byte_at(i.text_area.text(), p.0);
                    i.pending_path_start = Some(b);
                },
                None => {},
            }
        },
    }
}

/// The first path from the `k`th on that is to be converted.
pub open spec fn first_unconverted(s: Seq<char>, paths: Seq<PathSpan>, k: int) -> Option<PathSpan>
    decreases paths.len() - k,
{
    if k < 0 || k >= paths.len() {
        None
    } else if unconverted(s.subrange(paths[k].start, paths[k].end)) {
        Some(paths[k])
    } else {
        first_unconverted(s, paths, k + 1)
    }
}

/// The draft after up to `n` paths, one after the other, turned into placeholders. The first path
/// that names no image ends this, and so does a text that stays the same.
pub open spec fn all_converted(d: Draft, known: Map<Seq<char>, ImageFile>, n: nat) -> Draft
    decreases n,
{
    if n == 0 {
        d
    } else {
        match first_unconverted(d.area.text, image_paths(d.area.text), 0) {
            None => d,
            Some(p) => match converted(d, p, known) {
                None => d,
                Some(c) => {
                    let next = all_placed(c);
                    if next.area.text == d.area.text {
                        next
                    } else {
                        all_converted(next, known, (n - 1) as nat)
                    }
                },
            },
        }
    }
}

fn find_first(s: &Vec<char>, paths: &Vec<(usize, usize)>) -> (r: Option<(usize, usize)>)
    requires
        within(spans(paths@), s@.len() as int),
    ensures
        match r {
            Some(p) => first_unconverted(s@, spans(paths@), 0) == Some(
                PathSpan { start: p.0 as int, end: p.1 as int },
            ) && p.0 < p.1 <= s@.len(),
            None => first_unconverted(s@, spans(paths@), 0) is None,
        },
{
    let ghost all = spans(paths@);
    let mut k: usize = 0;
    while k < paths.len()
        invariant
            k <= paths@.len(),
            all == spans(paths@),
            all.len() == paths@.len(),
            within(all, s@.len() as int),
            first_unconverted(s@, all, 0) == first_unconverted(s@, all, k as int),
        decreases paths@.len() - k,
    {
        let p: (usize, usize) = paths[k];
        assert(all[k as int] == (PathSpan { start: p.0 as int, end: p.1 as int }));
        if is_unconverted(s, p.0, p.1) {
            return Some(p);
        }
        k += 1;
    }
    None
}

/// How many paths of one message are converted at most.
pub const MAX_ATTEMPTS: usize = 20;

fn convert_paths(i: &mut InputState, known: &TextMap<ImageFile>)
    ensures
        redrafted(*old(i), *final(i)),
        draft(*final(i)) == all_converted(draft(*old(i)), known@, MAX_ATTEMPTS as nat),
{
    let ghost all = all_converted(draft(*i), known@, MAX_ATTEMPTS as nat);
    let mut left: usize = MAX_ATTEMPTS;
    while left > 0
        invariant_except_break
            all == all_converted(draft(*i), known@, left as nat),
        invariant
            redrafted(*old(i), *i),
        ensures
            all == draft(*i),
        decreases left,
    {
        let before: String = i.text_area.text().to_owned();
        let s: Vec<char> = chars_of(before.as_str());
        let paths: Vec<(usize, usize)> = find_all_image_paths(before.as_str());
        match find_first(&s, &paths) {
            Some(p) => {
                if !convert_path_to_placeholder(i, p.0, p.1, known) {
                    break;
                }
                update_placeholder_positions_after_replacement(i);
                if same_text(i.text_area.text(), before.as_str()) {
                    break;
                }
            },
            None => {
                break;
            },
        }
        left -= 1;
    }
}

/// The text of the input after every path that names an image turned into a placeholder.
pub fn converted_text(i: &InputState, known: &TextMap<ImageFile>) -> (r: String)
    ensures
        r@ == all_converted(draft(*i), known@, MAX_ATTEMPTS as nat).area.text,
{
    let mut copy: InputState = InputState {
        text_area: TextArea::new(),
        cursor_visible: false,
        helpers: Vec::new(),
        show_helper_dropdown: false,
        helper_selected: 0,
        helper_scroll: 0,
        filtered_helpers: Vec::new(),
        filtered_files: Vec::new(),
        file_search: crate::file_search::FileSearch::new(0),
        is_pasting: false,
        pasted_long_text: None,
        pasted_placeholder: None,
        pending_pastes: Vec::new(),
        attached_images: copy_images(&i.attached_images),
        pending_path_start: None,
        interactive_commands: Vec::new(),
    };
    let cursor: usize = i.text_area.cursor();
    copy.text_area.assign(i.text_area.text(), cursor);
    copy.text_area.set_shell_mode(i.text_area.shell_mode());
    copy.text_area.set_selecting(i.text_area.selecting());
    copy.text_area.set_session_empty(i.text_area.session_empty());
    assert(draft(copy) == draft(*i));
    convert_paths(&mut copy, known);
    copy.text_area.text().to_owned()
}

fn copy_images(v: &Vec<AttachedImage>) -> (r: Vec<AttachedImage>)
    ensures
        r@ == v@,
{
    let mut r: Vec<AttachedImage> = Vec::new();
    let mut i: usize = 0;
    assert(r@ =~= v@.take(0));
    while i < v.len()
        invariant
            i <= v@.len(),
            r@ == v@.take(i as int),
        decreases v@.len() - i,
    {
        r.push(copy_image(&v[i]));
        i += 1;
        assert(r@ =~= v@.take(i as int));
    }
    assert(r@ =~= v@);
    r
}

/// The input after every path that names an image turned into a placeholder.
pub open spec fn pending_converted(
    pre: InputState,
    post: InputState,
    known: Map<Seq<char>, ImageFile>,
) -> bool {
    &&& post == (InputState {
        text_area: post.text_area,
        attached_images: post.attached_images,
        pending_path_start: None,
        ..pre
    })
    &&& draft(post) == all_converted(draft(pre), known, MAX_ATTEMPTS as nat)
}

/// Turns the paths of the input that name images into placeholders.
pub fn convert_all_pending_paths(i: &mut InputState, known: &TextMap<ImageFile>)
    ensures
        pending_converted(*old(i), *final(i), known@),
{
    convert_paths(i, known);
    i.pending_path_start = None;
}

// ----- images of the clipboard -----

/// An image that was on the clipboard, saved to a file.
#[derive(Debug)]
pub struct ClipboardImage {
    pub file: ImageFile,
    /// The name of its format.
    pub kind: String,
}

/// The draft with an image at the cursor.
pub open spec fn attached(d: Draft, image: ClipboardImage) -> Draft {
    let f = image.file;
    let t = image_placeholder(image_name(text_of(f.stem)), f.width, f.height, image.kind@);
    Draft {
        area: crate::app::typed(d.area, t),
        images: d.images.push(image_of(f, t, d.area.cursor)),
    }
}

/// Puts an image in at the cursor.
pub fn attach_image(i: &mut InputState, image: ClipboardImage)
    ensures
        redrafted(*old(i), *final(i)),
        draft(*final(i)) == attached(draft(*old(i)), image),
{
    let f: ImageFile = image.file;
    let name: String = name_of(&f.stem);
    let t: String = write_placeholder(
        name.as_str(),
        f.width,
        f.height,
        image.kind.as_str(),
    );
    let cursor: usize = i.text_area.cursor();
    i.text_area.insert_str(t.as_str());
    let behind: usize = i.text_area.cursor();
    let img: AttachedImage = AttachedImage {
        placeholder: t,
        path: f.path,
        filename: name,
        extension: f.extension,
        dimensions: (f.width, f.height),
        start_pos: cursor,
        end_pos: behind,
    };
    assert(image_views(i.attached_images@.push(img)) =~= image_views(i.attached_images@).push(img@));
    i.attached_images.push(img);
}

// ----- what holds of images in the text -----

/// A path that gives way to a placeholder is all that changes in the text: what stands in front of
/// it and behind it stays. The placeholder is that of the file that the path names, the images that
/// were attached stay in front, and the file is attached.
pub proof fn law_only_the_path_gives_way(d: Draft, p: PathSpan, known: Map<Seq<char>, ImageFile>)
    requires
        0 <= p.start <= p.end <= d.area.text.len(),
        converted(d, p, known) is Some,
    ensures
        ({
            let s = d.area.text;
            let c = converted(d, p, known)->0;
            let r = c.area.text;
            let path = clean_path(s.subrange(p.start, p.end));
            let n = r.len() - s.len() + (p.end - p.start);
            &&& known.contains_key(path)
            &&& n >= 0
            &&& r.take(p.start) == s.take(p.start)
            &&& r.skip(p.start + n) == s.skip(p.end)
            &&& r.subrange(p.start, p.start + n) == "[Image "@ + image_name(
                text_of(known[path].stem),
            ) + " "@ + decimal(known[path].width as nat) + "x"@ + decimal(
                known[path].height as nat,
            ) + " "@ + "JPEG"@ + "]"@
            &&& c.images.len() >= d.images.len()
            &&& c.images.take(d.images.len() as int) == d.images
            &&& exists|i: int|
                0 <= i < c.images.len() && (#[trigger] c.images[i]).path == known[path].path@
            &&& forall|i: int|
                d.images.len() <= i < c.images.len() ==> (#[trigger] c.images[i]).path
                    == known[path].path@
        }),
{
    let s = d.area.text;
    let c = converted(d, p, known)->0;
    let r = c.area.text;
    let path = clean_path(s.subrange(p.start, p.end));
    let f = known[path];
    let t = image_placeholder(image_name(text_of(f.stem)), f.width, f.height, "JPEG"@);
    assert(r == s.take(p.start) + t + s.skip(p.end));
    let n = t.len() as int;
    assert(r.len() - s.len() + (p.end - p.start) == n);
    assert(r.take(p.start) =~= s.take(p.start));
    assert(r.skip(p.start + n) =~= s.skip(p.end));
    assert(r.subrange(p.start, p.start + n) =~= t);
    assert(c.images.take(d.images.len() as int) =~= d.images);
    if has_image(d.images, f.path@) {
        let i = choose|i: int| 0 <= i < d.images.len() && (#[trigger] d.images[i]).path == f.path@;
        assert(c.images[i].path == f.path@);
    } else {
        assert(c.images[d.images.len() as int].path == f.path@);
    }
}

/// An image points at its placeholder: where the text holds it, the image starts and ends with the
/// first of them, and nothing else of the image changes.
pub proof fn law_image_points_at_its_placeholder(img: ImageView, text: Seq<char>, k: int)
    requires
        occurs_at(text, img.placeholder, k),
        forall|j: int| 0 <= j < k ==> !occurs_at(text, img.placeholder, j),
    ensures
        placed(img, text).start == byte_of(text, k),
        placed(img, text).end == byte_of(text, k + img.placeholder.len()),
        placed(img, text).placeholder == img.placeholder,
        placed(img, text).path == img.path,
{
    lemma_find_from(text, img.placeholder, 0);
    let n = img.placeholder.len() as int;
    assert(text.take(k + n) =~= text.take(k) + text.subrange(k, k + n));
    crate::text::lemma_utf8_len_add(text.take(k), img.placeholder);
}

/// A placeholder that is edited gives way to the path that it stands for, and nothing else changes
/// in the text; the image is no longer attached. Where none is edited, nothing changes.
pub proof fn law_edited_placeholder_gives_way(d: Draft, k: int, a: int, b: int)
    requires
        0 <= k < d.images.len(),
        is_edited(d.area, d.images[k]),
        forall|j: int| 0 <= j < k ==> !is_edited(d.area, #[trigger] d.images[j]),
        0 <= a <= b <= d.area.text.len(),
        byte_of(d.area.text, a) == d.images[k].start,
        byte_of(d.area.text, b) == d.images[k].end,
    ensures
        ({
            let s = d.area.text;
            let r = revealed(d).area.text;
            let path = d.images[k].path;
            &&& r.take(a) == s.take(a)
            &&& r.subrange(a, a + path.len()) == path
            &&& r.skip(a + path.len()) == s.skip(b)
            &&& revealed(d).area.cursor == d.images[k].start + utf8_len(path)
            &&& !revealed(d).images.contains(d.images[k])
        }),
{
    lemma_edited_at(d, 0, k);
    crate::textarea::law_spliced(d.area.text, a, b, d.images[k].path);
    law_without_start(d.images, d.images[k].start, d.images[k]);
}

proof fn lemma_edited_at(d: Draft, i: int, k: int)
    requires
        0 <= i <= k < d.images.len(),
        is_edited(d.area, d.images[k]),
        forall|j: int| i <= j < k ==> !is_edited(d.area, #[trigger] d.images[j]),
    ensures
        edited_at(d, i) == Some(k),
    decreases k - i,
{
    if i < k {
        lemma_edited_at(d, i + 1, k);
    }
}

/// Taking out the images that start somewhere takes out those and no others.
pub proof fn law_without_start(v: Seq<ImageView>, start: int, x: ImageView)
    ensures
        without_start(v, start).contains(x) <==> v.contains(x) && x.start != start,
    decreases v.len(),
{
    if v.len() > 0 {
        let rest = v.drop_last();
        let w = without_start(rest, start);
        let r = without_start(v, start);
        law_without_start(rest, start, x);
        if r.contains(x) {
            let k = choose|k: int| 0 <= k < r.len() && r[k] == x;
            if k < w.len() {
                assert(w[k] == x);
                let j = choose|j: int| 0 <= j < rest.len() && rest[j] == x;
                assert(v[j] == x);
            } else {
                assert(v[v.len() - 1] == x);
            }
        }
        if v.contains(x) && x.start != start {
            let j = choose|j: int| 0 <= j < v.len() && v[j] == x;
            if j < rest.len() {
                assert(rest[j] == x);
                let k = choose|k: int| 0 <= k < w.len() && w[k] == x;
                assert(r[k] == x);
            } else {
                assert(r[w.len() as int] == x);
            }
        }
    }
}

proof fn lemma_put_keeps(v: Seq<PathSpan>, x: PathSpan, y: PathSpan)
    ensures
        put(v, x).contains(y) ==> v.contains(y) || y == x,
        v.contains(y) ==> put(v, x).contains(y),
        exists|i: int| 0 <= i < put(v, x).len() && (#[trigger] put(v, x)[i]).start == x.start,
    decreases v.len(),
{
    let r = put(v, x);
    if v.len() == 0 || v.last().start < x.start {
        assert(r[v.len() as int] == x);
        if v.contains(y) {
            let k = choose|k: int| 0 <= k < v.len() && v[k] == y;
            assert(r[k] == y);
        }
        if r.contains(y) {
            let k = choose|k: int| 0 <= k < r.len() && r[k] == y;
            if k < v.len() {
                assert(v[k] == y);
            }
        }
    } else if v.last().start == x.start {
        assert(r[v.len() - 1].start == x.start);
    } else {
        let rest = v.drop_last();
        let w = put(rest, x);
        lemma_put_keeps(rest, x, y);
        let i = choose|i: int| 0 <= i < w.len() && (#[trigger] w[i]).start == x.start;
        assert(r[i].start == x.start);
        if v.contains(y) {
            let k = choose|k: int| 0 <= k < v.len() && v[k] == y;
            if k < rest.len() {
                assert(rest[k] == y);
                let j = choose|j: int| 0 <= j < w.len() && w[j] == y;
                assert(r[j] == y);
            } else {
                assert(r[w.len() as int] == y);
            }
        }
        if r.contains(y) {
            let k = choose|k: int| 0 <= k < r.len() && r[k] == y;
            if k < w.len() {
                assert(w[k] == y);
                if rest.contains(y) {
                    let j = choose|j: int| 0 <= j < rest.len() && rest[j] == y;
                    assert(v[j] == y);
                }
            } else {
                assert(v[v.len() - 1] == y);
            }
        }
    }
}

/// Putting spans in order invents none, and loses none but where another one starts at the same
/// place.
pub proof fn law_order_keeps_spans(v: Seq<PathSpan>, y: PathSpan)
    ensures
        in_order(v).contains(y) ==> v.contains(y),
        v.contains(y) ==> exists|i: int|
            0 <= i < in_order(v).len() && (#[trigger] in_order(v)[i]).start == y.start,
    decreases v.len(),
{
    if v.len() > 0 {
        let rest = v.drop_last();
        let w = in_order(rest);
        let x = v.last();
        let r = in_order(v);
        law_order_keeps_spans(rest, y);
        lemma_put_keeps(w, x, y);
        if r.contains(y) {
            if w.contains(y) {
                let j = choose|j: int| 0 <= j < rest.len() && rest[j] == y;
                assert(v[j] == y);
            } else {
                assert(v[v.len() - 1] == y);
            }
        }
        if v.contains(y) {
            let k = choose|k: int| 0 <= k < v.len() && v[k] == y;
            if k < rest.len() {
                assert(rest[k] == y);
                let i = choose|i: int| 0 <= i < w.len() && (#[trigger] w[i]).start == y.start;
                lemma_put_keeps(w, x, w[i]);
                assert(w.contains(w[i]));
                let j = choose|j: int| 0 <= j < r.len() && r[j] == w[i];
                assert(r[j].start == y.start);
            }
        }
    }
}

proof fn lemma_skip_char(s: Seq<char>, c: char, i: int)
    requires
        0 <= i <= s.len(),
    ensures
        i <= skip_char(s, c, i) <= s.len(),
        forall|j: int| i <= j < skip_char(s, c, i) ==> #[trigger] s[j] == c,
        skip_char(s, c, i) < s.len() ==> s[skip_char(s, c, i)] != c,
    decreases s.len() - i,
{
    if i < s.len() && s[i] == c {
        lemma_skip_char(s, c, i + 1);
    }
}

proof fn lemma_drop_char(s: Seq<char>, c: char, from: int, n: int)
    requires
        0 <= from <= n <= s.len(),
    ensures
        from <= drop_char(s, c, from, n) <= n,
        forall|j: int| drop_char(s, c, from, n) <= j < n ==> #[trigger] s[j] == c,
        drop_char(s, c, from, n) > from ==> s[drop_char(s, c, from, n) - 1] != c,
    decreases n,
{
    if from < n && s[n - 1] == c {
        lemma_drop_char(s, c, from, n - 1);
    }
}

/// Without a character at its ends a text is a part of itself, with that character alone around it
/// and another one at both ends.
pub proof fn law_stripped(s: Seq<char>, c: char) -> (from: int)
    ensures
        0 <= from,
        from + stripped(s, c).len() <= s.len(),
        stripped(s, c) == s.subrange(from, from + stripped(s, c).len()),
        forall|i: int|
            0 <= i < from || from + stripped(s, c).len() <= i < s.len() ==> #[trigger] s[i] == c,
        stripped(s, c).len() > 0 ==> stripped(s, c)[0] != c && stripped(s, c).last() != c,
{
    let a = skip_char(s, c, 0);
    lemma_skip_char(s, c, 0);
    lemma_drop_char(s, c, a, s.len() as int);
    assert(stripped(s, c) =~= s.subrange(a, a + stripped(s, c).len()));
    a
}

/// Where a path without quotes begins: nothing ends a path between there and its end, and right
/// before it something does, unless it is the start of the text.
pub proof fn law_path_begin(s: Seq<char>, n: int)
    requires
        0 <= n <= s.len(),
    ensures
        0 <= path_begin(s, n) <= n,
        forall|i: int|
            path_begin(s, n) <= i < n ==> {
                &&& #[trigger] s[i] != ' '
                &&& s[i] != '\n'
                &&& s[i] != '\t'
                &&& s[i] != '\''
                &&& s[i] != '"'
            },
        path_begin(s, n) > 0 ==> {
            let c = s[path_begin(s, n) - 1];
            c == ' ' || c == '\n' || c == '\t' || c == '\'' || c == '"'
        },
    decreases n,
{
    if n > 0 && !is_break(s[n - 1]) {
        law_path_begin(s, n - 1);
    }
}

/// An image from the clipboard comes in at the cursor: the text around it stays, its placeholder
/// stands there, and it is attached behind the others, where its placeholder starts.
pub proof fn law_image_comes_in_at_the_cursor(d: Draft, image: ClipboardImage, n: int)
    requires
        0 <= n <= d.area.text.len(),
        d.area.cursor == utf8_len(d.area.text.take(n)),
    ensures
        ({
            let f = image.file;
            let t = "[Image "@ + image_name(text_of(f.stem)) + " "@ + decimal(f.width as nat)
                + "x"@ + decimal(f.height as nat) + " "@ + image.kind@ + "]"@;
            let r = attached(d, image);
            &&& r.area.text.take(n) == d.area.text.take(n)
            &&& r.area.text.subrange(n, n + t.len()) == t
            &&& r.area.text.skip(n + t.len()) == d.area.text.skip(n)
            &&& r.images.len() == d.images.len() + 1
            &&& r.images.drop_last() == d.images
            &&& r.images.last().path == f.path@
            &&& r.images.last().placeholder == t
            &&& r.images.last().start == d.area.cursor
            &&& r.images.last().end == r.area.cursor
        }),
{
    let f = image.file;
    let t = image_placeholder(image_name(text_of(f.stem)), f.width, f.height, image.kind@);
    crate::app::law_typed_at_the_cursor(d.area, t, n);
    assert(attached(d, image).images.drop_last() =~= d.images);
}

/// The model takes every kind of image but the three that it does not, whatever the case: PNG, JPEG,
/// GIF and WebP among them.
pub proof fn law_supported(e: Seq<char>)
    ensures
        e == "png"@ || e == "jpg"@ || e == "jpeg"@ || e == "gif"@ || e == "webp"@ ==> supported(
            Some(e),
        ),
        e == "bmp"@ || e == "tif"@ || e == "tiff"@ || e == "BMP"@ || e == "TIF"@ || e == "TIFF"@
            ==> !supported(Some(e)),
        supported(None),
{
    reveal_strlit("png");
    reveal_strlit("jpg");
    reveal_strlit("jpeg");
    reveal_strlit("gif");
    reveal_strlit("webp");
    reveal_strlit("bmp");
    reveal_strlit("tif");
    reveal_strlit("tiff");
    reveal_strlit("BMP");
    reveal_strlit("TIF");
    reveal_strlit("TIFF");
    let t = small_letters(e);
    assert(t.len() == e.len());
    if e.len() > 0 {
        assert(t[0] == small_letter(e[0]));
    }
    assert(e == "bmp"@ || e == "BMP"@ ==> t =~= "bmp"@);
    assert(e == "tif"@ || e == "TIF"@ ==> t =~= "tif"@);
    assert(e == "tiff"@ || e == "TIFF"@ ==> t =~= "tiff"@);
    if e == "png"@ || e == "jpg"@ || e == "jpeg"@ || e == "gif"@ || e == "webp"@ {
        assert(t[0] != 'b' && t[0] != 't');
        assert("bmp"@[0] == 'b' && "tif"@[0] == 't' && "tiff"@[0] == 't');
    }
}

/// Whether the span is the path of an image: it ends as one, whatever the case, or stands between two
/// quotes and does so inside them.
pub open spec fn spans_image(s: Seq<char>, p: PathSpan) -> bool {
    &&& 0 <= p.start < p.end <= s.len()
    &&& {
        ||| is_image_name(s.subrange(p.start, p.end))
        ||| {
            &&& s[p.start] == '\'' || s[p.start] == '"'
            &&& p.start + 1 < p.end
            &&& s[p.end - 1] == s[p.start]
            &&& is_image_name(s.subrange(p.start + 1, p.end - 1))
        }
    }
}

proof fn lemma_quoted_span_images(s: Seq<char>, quote: char, i: int, found: Seq<PathSpan>)
    requires
        quote == '\'' || quote == '"',
        0 <= i <= s.len(),
        forall|j: int| 0 <= j < found.len() ==> spans_image(s, #[trigger] found[j]),
    ensures
        forall|j: int|
            0 <= j < quoted_paths(s, quote, i, found).len() ==> spans_image(
                s,
                #[trigger] quoted_paths(s, quote, i, found)[j],
            ),
    decreases s.len() - i,
{
    lemma_next_char(s, quote, i);
    let a = next_char(s, quote, i);
    if a < s.len() {
        lemma_next_char(s, quote, a + 1);
        let b = next_char(s, quote, a + 1);
        if b < s.len() {
            if is_image_name(s.subrange(a + 1, b)) {
                let more = found.push(PathSpan { start: a, end: b + 1 });
                assert forall|j: int| 0 <= j < more.len() implies spans_image(
                    s,
                    #[trigger] more[j],
                ) by {
                    if j < found.len() {
                        assert(more[j] == found[j]);
                    }
                }
                lemma_quoted_span_images(s, quote, b + 1, more);
                assert(quoted_paths(s, quote, i, found) == quoted_paths(s, quote, b + 1, more));
            } else {
                lemma_quoted_span_images(s, quote, b + 1, found);
                assert(quoted_paths(s, quote, i, found) == quoted_paths(s, quote, b + 1, found));
            }
        } else {
            assert(quoted_paths(s, quote, i, found) == found);
        }
    } else {
        assert(quoted_paths(s, quote, i, found) == found);
    }
}

proof fn lemma_bare_span_images(s: Seq<char>, x: int, i: int, found: Seq<PathSpan>)
    requires
        0 <= x < image_extensions().len(),
        image_extensions()[x].len() > 0,
        0 <= i <= s.len(),
        forall|j: int| 0 <= j < found.len() ==> spans_image(s, #[trigger] found[j]),
    ensures
        forall|j: int|
            0 <= j < bare_paths(s, image_extensions()[x], i, found).len() ==> spans_image(
                s,
                #[trigger] bare_paths(s, image_extensions()[x], i, found)[j],
            ),
    decreases s.len() - i,
{
    let ext = image_extensions()[x];
    let low = folded(s);
    lemma_find_from(low, ext, i);
    match find_from(low, ext, i) {
        None => {
            assert(bare_paths(s, ext, i, found) == found);
        },
        Some(p) => {
            let e = p + ext.len();
            let k = path_begin(s, p);
            law_path_begin(s, p);
            let part = s.subrange(k, e);
            let more = found.push(PathSpan { start: k, end: e });
            assert(is_image_name(part)) by {
                assert(folded(part) =~= low.subrange(k, e));
                let at = part.len() - ext.len();
                assert(folded(part).subrange(at, at + ext.len()) =~= low.subrange(p, e));
                assert(has_suffix(folded(part), image_extensions()[x]));
            }
            assert forall|j: int| 0 <= j < more.len() implies spans_image(s, #[trigger] more[j]) by {
                if j < found.len() {
                    assert(more[j] == found[j]);
                }
            }
            if covered(found, k, e) || !looks_like_path(part) {
                lemma_bare_span_images(s, x, e, found);
                assert(bare_paths(s, ext, i, found) == bare_paths(s, ext, e, found));
            } else {
                lemma_bare_span_images(s, x, e, more);
                assert(bare_paths(s, ext, i, found) == bare_paths(s, ext, e, more));
            }
        },
    }
}

proof fn lemma_found_span_images(s: Seq<char>, k: int)
    requires
        0 <= k <= 8,
    ensures
        forall|j: int|
            0 <= j < found_paths(s, k).len() ==> spans_image(s, #[trigger] found_paths(s, k)[j]),
    decreases k,
{
    if k == 0 {
        let none = Seq::<PathSpan>::empty();
        lemma_quoted_span_images(s, '\'', 0, none);
        lemma_quoted_span_images(s, '"', 0, quoted_paths(s, '\'', 0, none));
    } else {
        lemma_found_span_images(s, k - 1);
        reveal_strlit(".png");
        reveal_strlit(".jpg");
        reveal_strlit(".jpeg");
        reveal_strlit(".gif");
        reveal_strlit(".webp");
        reveal_strlit(".bmp");
        reveal_strlit(".tiff");
        reveal_strlit(".tif");
        assert(image_extensions()[k - 1].len() > 0);
        lemma_bare_span_images(s, k - 1, 0, found_paths(s, k - 1));
    }
}

/// Whatever is found as the path of an image in a text is one: it lies in the text and ends as the
/// name of an image does, inside its quotes where it has any.
pub proof fn law_found_paths_name_images(s: Seq<char>, i: int)
    requires
        0 <= i < image_paths(s).len(),
    ensures
        spans_image(s, image_paths(s)[i]),
{
    let found = found_paths(s, 8);
    let p = image_paths(s)[i];
    lemma_found_span_images(s, 8);
    assert(image_paths(s).contains(p));
    law_order_keeps_spans(found, p);
    let j = choose|j: int| 0 <= j < found.len() && found[j] == p;
    assert(spans_image(s, found[j]));
}

} // verus!
