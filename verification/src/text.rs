//! Text as a sequence of characters: searching, trimming, splitting and measuring.
//!
//! Every function here reads a string as the sequence `s@` of its characters. Offsets that callers
//! keep (a cursor, the ends of a placeholder) count bytes of the UTF-8 form; `utf8_len` and
//! `boundary` relate the two.

use vstd::prelude::*;
use vstd::utf8::char_is_scalar;
use vstd::utf8::encode_scalar;
use vstd::utf8::encode_utf8;

verus! {

/// `String::push` puts the character behind the ones that are there.
pub assume_specification[ String::push ](s: &mut String, c: char)
    ensures
        final(s)@ == old(s)@.push(c),
;

/// `String::push_str` puts the whole of `t` behind what is there.
pub assume_specification[ String::push_str ](s: &mut String, t: &str)
    ensures
        final(s)@ == old(s)@ + t@,
;

/// `String::pop` takes the last character off, where there is one.
pub assume_specification[ String::pop ](s: &mut String) -> (r: Option<char>)
    ensures
        old(s)@.len() == 0 ==> r is None && final(s)@ == old(s)@,
        old(s)@.len() > 0 ==> r == Some(old(s)@.last()) && final(s)@ == old(s)@.drop_last(),
;

/// `String::clear` leaves nothing.
pub assume_specification[ String::clear ](s: &mut String)
    ensures
        final(s)@ == Seq::<char>::empty(),
;

/// Whether all characters of a text are ASCII characters.
pub open spec fn all_ascii(s: Seq<char>) -> bool {
    forall|i: int| 0 <= i < s.len() ==> (#[trigger] s[i]) <= '\u{7f}'
}

/// The character, an ASCII letter in lower case.
pub open spec fn ascii_low(c: char) -> char {
    if 'A' <= c <= 'Z' {
        (c as u32 + 32) as char
    } else {
        c
    }
}

/// The text with its ASCII letters in lower case.
pub open spec fn folded(s: Seq<char>) -> Seq<char> {
    s.map_values(|c: char| ascii_low(c))
}

/// The lower-case form of a text that is not all ASCII, by the Unicode case mapping.
pub uninterp spec fn lowercase_of(s: Seq<char>) -> Seq<char>;

/// The lower-case form of a text.
pub open spec fn lower_text(s: Seq<char>) -> Seq<char> {
    if all_ascii(s) {
        folded(s)
    } else {
        lowercase_of(s)
    }
}

/// `str::to_lowercase`: of an ASCII text it maps the letters one by one and leaves the other
/// characters; of any other text the result is a function of the characters alone.
pub assume_specification[ str::to_lowercase ](s: &str) -> (r: String)
    ensures
        all_ascii(s@) ==> r@ == folded(s@),
        !all_ascii(s@) ==> r@ == lowercase_of(s@),
;

/// The lower-case form of nothing is nothing.
pub proof fn law_lower_empty(s: Seq<char>)
    requires
        s.len() == 0,
    ensures
        lower_text(s).len() == 0,
{
}

// ----- single characters -----

/// The characters with the Unicode property White_Space.
pub open spec fn is_space(c: char) -> bool {
    ||| '\u{9}' <= c <= '\u{d}'
    ||| c == ' '
    ||| c == '\u{85}'
    ||| c == '\u{a0}'
    ||| c == '\u{1680}'
    ||| '\u{2000}' <= c <= '\u{200a}'
    ||| c == '\u{2028}'
    ||| c == '\u{2029}'
    ||| c == '\u{202f}'
    ||| c == '\u{205f}'
    ||| c == '\u{3000}'
}

/// Whether the character is white space.
pub fn is_white(c: char) -> (r: bool)
    ensures
        r == is_space(c),
{
    ('\u{9}' <= c && c <= '\u{d}') || c == ' ' || c == '\u{85}' || c == '\u{a0}' || c == '\u{1680}'
        || ('\u{2000}' <= c && c <= '\u{200a}') || c == '\u{2028}' || c == '\u{2029}'
        || c == '\u{202f}' || c == '\u{205f}' || c == '\u{3000}'
}

/// How many bytes the UTF-8 form of a character takes.
pub open spec fn char_width(c: char) -> nat {
    if c <= '\u{7f}' {
        1
    } else if c <= '\u{7ff}' {
        2
    } else if c <= '\u{ffff}' {
        3
    } else {
        4
    }
}

/// The number of bytes in the UTF-8 form of a character.
pub fn len_utf8(c: char) -> (n: usize)
    ensures
        n == char_width(c),
{
    if c <= '\u{7f}' {
        1
    } else if c <= '\u{7ff}' {
        2
    } else if c <= '\u{ffff}' {
        3
    } else {
        4
    }
}

// ----- to and from vectors of characters -----

/// The characters of a string, in order.
pub fn chars_of(s: &str) -> (r: Vec<char>)
    ensures
        r@ == s@,
{
    let mut r: Vec<char> = Vec::new();
    for c in it: s.chars()
        invariant
            it.seq() == s@,
            r@ == s@.take(it.index() as int),
    {
        r.push(c);
        assert(s@.take(it.index() as int + 1) =~= s@.take(it.index() as int).push(c));
    }
    assert(s@.take(s@.len() as int) =~= s@);
    r
}

fn lower_char(c: char) -> (r: char)
    ensures
        r == ascii_low(c),
{
    if 'A' <= c && c <= 'Z' {
        (c as u8 + 32) as char
    } else {
        c
    }
}

/// The characters with the ASCII letters among them in lower case.
pub fn fold_chars(v: &Vec<char>) -> (r: Vec<char>)
    ensures
        r@ == folded(v@),
{
    let mut r: Vec<char> = Vec::new();
    let mut i: usize = 0;
    while i < v.len()
        invariant
            i <= v@.len(),
            r@ == folded(v@).take(i as int),
        decreases v@.len() - i,
    {
        r.push(lower_char(v[i]));
        assert(folded(v@).take(i + 1) =~= folded(v@).take(i as int).push(ascii_low(v@[i as int])));
        i += 1;
    }
    assert(folded(v@).take(i as int) =~= folded(v@));
    r
}

/// The string made of `v[from..to]`.
pub fn string_of(v: &Vec<char>, from: usize, to: usize) -> (r: String)
    requires
        from <= to <= v@.len(),
    ensures
        r@ == v@.subrange(from as int, to as int),
{
    let mut r: String = String::new();
    let mut i: usize = from;
    while i < to
        invariant
            from <= i <= to <= v@.len(),
            r@ == v@.subrange(from as int, i as int),
        decreases to - i,
    {
        r.push(v[i]);
        i += 1;
        assert(v@.subrange(from as int, i as int) =~= v@.subrange(from as int, i - 1).push(
            v@[i - 1],
        ));
    }
    r
}

/// The string made of all of `v`.
pub fn string_from(v: &Vec<char>) -> (r: String)
    ensures
        r@ == v@,
{
    let r: String = string_of(v, 0, v.len());
    assert(v@.subrange(0, v@.len() as int) =~= v@);
    r
}

// ----- comparing and searching -----

/// Whether `p` stands in `s` at index `i`.
pub open spec fn occurs_at(s: Seq<char>, p: Seq<char>, i: int) -> bool {
    0 <= i && i + p.len() <= s.len() && s.subrange(i, i + p.len()) == p
}

/// Whether `s` begins with `p`.
pub open spec fn has_prefix(s: Seq<char>, p: Seq<char>) -> bool {
    occurs_at(s, p, 0)
}

/// Whether `s` ends with `p`.
pub open spec fn has_suffix(s: Seq<char>, p: Seq<char>) -> bool {
    occurs_at(s, p, s.len() - p.len())
}

/// Whether `p` stands anywhere in `s`.
pub open spec fn holds_text(s: Seq<char>, p: Seq<char>) -> bool {
    exists|i: int| occurs_at(s, p, i)
}

/// The first index from `from` on at which `p` stands in `s`.
pub open spec fn find_from(s: Seq<char>, p: Seq<char>, from: int) -> Option<int>
    decreases s.len() + 1 - from,
{
    if from < 0 || from + p.len() > s.len() {
        None
    } else if occurs_at(s, p, from) {
        Some(from)
    } else {
        find_from(s, p, from + 1)
    }
}

/// `find_from` gives an index at which the pattern stands, none before it does, and it gives
/// nothing only where there is no such index.
pub proof fn lemma_find_from(s: Seq<char>, p: Seq<char>, from: int)
    requires
        0 <= from,
    ensures
        match find_from(s, p, from) {
            Some(i) => from <= i && occurs_at(s, p, i) && forall|j: int|
                from <= j < i ==> !occurs_at(s, p, j),
            None => forall|j: int| from <= j ==> !occurs_at(s, p, j),
        },
    decreases s.len() + 1 - from,
{
    if from + p.len() > s.len() {
    } else if occurs_at(s, p, from) {
    } else {
        lemma_find_from(s, p, from + 1);
    }
}

/// Whether `p` stands in `s` at index `i`.
pub fn matches_at(s: &Vec<char>, p: &Vec<char>, i: usize) -> (r: bool)
    ensures
        r == occurs_at(s@, p@, i as int),
{
    if i > s.len() || p.len() > s.len() - i {
        return false;
    }
    let mut k: usize = 0;
    while k < p.len()
        invariant
            k <= p@.len(),
            i + p@.len() <= s.len(),
            s@.subrange(i as int, i + k) == p@.subrange(0, k as int),
        decreases p@.len() - k,
    {
        if s[i + k] != p[k] {
            assert(s@.subrange(i as int, i + p@.len())[k as int] != p@[k as int]);
            return false;
        }
        k += 1;
        assert(s@.subrange(i as int, i + k) =~= s@.subrange(i as int, i + k - 1).push(
            s@[i + k - 1],
        ));
        assert(p@.subrange(0, k as int) =~= p@.subrange(0, k - 1).push(p@[k - 1]));
    }
    assert(p@.subrange(0, k as int) =~= p@);
    true
}

/// The first index from `from` on at which `p` stands in `s`.
pub fn find_chars(s: &Vec<char>, p: &Vec<char>, from: usize) -> (r: Option<usize>)
    ensures
        r is Some <==> find_from(s@, p@, from as int) is Some,
        r is Some ==> r->0 == find_from(s@, p@, from as int)->0,
{
    let mut i: usize = from;
    loop
        invariant
            from <= i,
            find_from(s@, p@, from as int) == find_from(s@, p@, i as int),
        decreases s@.len() + 1 - i,
    {
        if i > s.len() || p.len() > s.len() - i {
            return None;
        }
        if matches_at(s, p, i) {
            return Some(i);
        }
        if i == s.len() {
            assert(find_from(s@, p@, i + 1) is None);
            return None;
        }
        i += 1;
    }
}

/// Whether `s` begins with `p`.
pub fn starts_with(s: &str, p: &str) -> (r: bool)
    ensures
        r == has_prefix(s@, p@),
{
    let sv: Vec<char> = chars_of(s);
    let pv: Vec<char> = chars_of(p);
    matches_at(&sv, &pv, 0)
}

/// Whether `s` ends with `p`.
pub fn ends_with(s: &str, p: &str) -> (r: bool)
    ensures
        r == has_suffix(s@, p@),
{
    let sv: Vec<char> = chars_of(s);
    let pv: Vec<char> = chars_of(p);
    if pv.len() > sv.len() {
        return false;
    }
    matches_at(&sv, &pv, sv.len() - pv.len())
}

/// Whether `p` stands anywhere in `s`.
pub fn contains(s: &str, p: &str) -> (r: bool)
    ensures
        r == holds_text(s@, p@),
{
    let sv: Vec<char> = chars_of(s);
    let pv: Vec<char> = chars_of(p);
    proof {
        lemma_find_from(s@, p@, 0);
    }
    find_chars(&sv, &pv, 0).is_some()
}

/// Whether the two strings hold the same characters.
pub fn same_text(a: &str, b: &str) -> (r: bool)
    ensures
        r == (a@ == b@),
{
    let av: Vec<char> = chars_of(a);
    let bv: Vec<char> = chars_of(b);
    if av.len() != bv.len() {
        return false;
    }
    let r: bool = matches_at(&av, &bv, 0);
    assert(a@.subrange(0, b@.len() as int) =~= a@);
    r
}

// ----- trimming -----

/// The index of the first character from `i` on that is no white space (or the length).
pub open spec fn skip_space(s: Seq<char>, i: int) -> int
    decreases s.len() - i,
{
    if i < 0 || i >= s.len() || !is_space(s[i]) {
        i
    } else {
        skip_space(s, i + 1)
    }
}

/// The index behind the last character before `i` that is no white space (or zero).
pub open spec fn drop_space(s: Seq<char>, i: int) -> int
    decreases i,
{
    if i <= 0 || i > s.len() || !is_space(s[i - 1]) {
        i
    } else {
        drop_space(s, i - 1)
    }
}

/// The text without the white space in front.
pub open spec fn trim_start_of(s: Seq<char>) -> Seq<char> {
    s.subrange(skip_space(s, 0), s.len() as int)
}

/// The text without the white space at its end.
pub open spec fn trim_end_of(s: Seq<char>) -> Seq<char> {
    s.subrange(0, drop_space(s, s.len() as int))
}

/// The text without the white space at either end.
pub open spec fn trim_of(s: Seq<char>) -> Seq<char> {
    trim_end_of(trim_start_of(s))
}

/// `skip_space` stays inside the text, steps over white space only, and stops at the first
/// character that is none.
pub proof fn lemma_skip_space(s: Seq<char>, i: int)
    requires
        0 <= i <= s.len(),
    ensures
        i <= skip_space(s, i) <= s.len(),
        forall|j: int| i <= j < skip_space(s, i) ==> is_space(s[j]),
        skip_space(s, i) < s.len() ==> !is_space(s[skip_space(s, i)]),
    decreases s.len() - i,
{
    if i < s.len() && is_space(s[i]) {
        lemma_skip_space(s, i + 1);
    }
}

/// `drop_space` stays inside the text, steps over white space only, and stops behind the last
/// character that is none.
pub proof fn lemma_drop_space(s: Seq<char>, i: int)
    requires
        0 <= i <= s.len(),
    ensures
        0 <= drop_space(s, i) <= i,
        forall|j: int| drop_space(s, i) <= j < i ==> is_space(s[j]),
        drop_space(s, i) > 0 ==> !is_space(s[drop_space(s, i) - 1]),
    decreases i,
{
    if i > 0 && is_space(s[i - 1]) {
        lemma_drop_space(s, i - 1);
    }
}

/// The index of the first character from `from` on that is no white space.
pub fn skip_white(s: &Vec<char>, from: usize) -> (r: usize)
    requires
        from <= s@.len(),
    ensures
        r == skip_space(s@, from as int),
        from <= r <= s@.len(),
{
    let mut i: usize = from;
    while i < s.len() && is_white(s[i])
        invariant
            from <= i <= s@.len(),
            skip_space(s@, from as int) == skip_space(s@, i as int),
        decreases s@.len() - i,
    {
        i += 1;
    }
    i
}

/// The index behind the last character before `to` that is no white space.
pub fn drop_white(s: &Vec<char>, to: usize) -> (r: usize)
    requires
        to <= s@.len(),
    ensures
        r == drop_space(s@, to as int),
        r <= to,
{
    let mut i: usize = to;
    while i > 0 && is_white(s[i - 1])
        invariant
            i <= to <= s@.len(),
            drop_space(s@, to as int) == drop_space(s@, i as int),
        decreases i,
    {
        i -= 1;
    }
    i
}

/// The text without the white space in front.
pub fn trim_start(s: &str) -> (r: String)
    ensures
        r@ == trim_start_of(s@),
{
    let v: Vec<char> = chars_of(s);
    let i: usize = skip_white(&v, 0);
    string_of(&v, i, v.len())
}

/// The text without the white space at its end.
pub fn trim_end(s: &str) -> (r: String)
    ensures
        r@ == trim_end_of(s@),
{
    let v: Vec<char> = chars_of(s);
    let i: usize = drop_white(&v, v.len());
    string_of(&v, 0, i)
}

/// The text without the white space at either end.
pub fn trim(s: &str) -> (r: String)
    ensures
        r@ == trim_of(s@),
{
    let t: String = trim_start(s);
    trim_end(&t)
}

// ----- splitting -----

/// The index of the first `c` from `i` on (or the length).
pub open spec fn next_char(s: Seq<char>, c: char, i: int) -> int
    decreases s.len() - i,
{
    if i < 0 || i >= s.len() || s[i] == c {
        i
    } else {
        next_char(s, c, i + 1)
    }
}

pub proof fn lemma_next_char(s: Seq<char>, c: char, i: int)
    requires
        0 <= i <= s.len(),
    ensures
        i <= next_char(s, c, i) <= s.len(),
        forall|j: int| i <= j < next_char(s, c, i) ==> s[j] != c,
        next_char(s, c, i) < s.len() ==> s[next_char(s, c, i)] == c,
    decreases s.len() - i,
{
    if i < s.len() && s[i] != c {
        lemma_next_char(s, c, i + 1);
    }
}

/// The index of the first `c` from `from` on (or the length).
pub fn find_char(s: &Vec<char>, c: char, from: usize) -> (r: usize)
    requires
        from <= s@.len(),
    ensures
        r == next_char(s@, c, from as int),
        from <= r <= s@.len(),
{
    let mut i: usize = from;
    while i < s.len() && s[i] != c
        invariant
            from <= i <= s@.len(),
            next_char(s@, c, from as int) == next_char(s@, c, i as int),
        decreases s@.len() - i,
    {
        i += 1;
    }
    i
}

/// The pieces of `s[i..]` between the occurrences of `c`; there is always at least one.
pub open spec fn split_from(s: Seq<char>, c: char, i: int) -> Seq<Seq<char>>
    decreases s.len() - i,
{
    if i < 0 || i > s.len() {
        Seq::empty()
    } else {
        let e = next_char(s, c, i);
        proof {
            lemma_next_char(s, c, i);
        }
        if e >= s.len() {
            seq![s.subrange(i, s.len() as int)]
        } else {
            seq![s.subrange(i, e)] + split_from(s, c, e + 1)
        }
    }
}

/// The last of the pieces between the occurrences of `c`: what follows the last one.
pub open spec fn last_piece(s: Seq<char>, c: char, to: int) -> Seq<char>
    decreases to,
{
    if to <= 0 || to > s.len() || s[to - 1] == c {
        s.subrange(to, s.len() as int)
    } else {
        last_piece(s, c, to - 1)
    }
}

/// What follows the last `c` of the text; the whole text where there is none.
pub fn after_last(s: &str, c: char) -> (r: String)
    ensures
        r@ == last_piece(s@, c, s@.len() as int),
{
    let v: Vec<char> = chars_of(s);
    let mut i: usize = v.len();
    while i > 0 && v[i - 1] != c
        invariant
            i <= v@.len(),
            v@ == s@,
            last_piece(s@, c, s@.len() as int) == last_piece(s@, c, i as int),
        decreases i,
    {
        i -= 1;
    }
    string_of(&v, i, v.len())
}

/// A line that stood before a line feed, without a carriage return at its end.
pub open spec fn strip_return(l: Seq<char>) -> Seq<char> {
    if l.len() > 0 && l.last() == '\r' {
        l.drop_last()
    } else {
        l
    }
}

/// The lines of `s[i..]`: each ends at a line feed or at the end of the text, and a text that ends
/// in a line feed has no empty line behind it.
pub open spec fn lines_from(s: Seq<char>, i: int) -> Seq<Seq<char>>
    decreases s.len() - i,
{
    if i < 0 || i >= s.len() {
        Seq::empty()
    } else {
        let e = next_char(s, '\n', i);
        proof {
            lemma_next_char(s, '\n', i);
        }
        if e >= s.len() {
            seq![s.subrange(i, s.len() as int)]
        } else {
            seq![strip_return(s.subrange(i, e))] + lines_from(s, e + 1)
        }
    }
}

/// The lines of a text.
pub open spec fn lines_of(s: Seq<char>) -> Seq<Seq<char>> {
    lines_from(s, 0)
}

proof fn lemma_skip_space_push(x: Seq<char>, c: char, i: int)
    requires
        is_space(c),
        0 <= i <= x.len(),
    ensures
        skip_space(x.push(c), i) == (if skip_space(x, i) < x.len() {
            skip_space(x, i)
        } else {
            x.len() as int + 1
        }),
    decreases x.len() - i,
{
    if i < x.len() {
        if is_space(x[i]) {
            lemma_skip_space_push(x, c, i + 1);
        }
    } else {
        assert(skip_space(x.push(c), i + 1) == i + 1);
    }
}

proof fn lemma_drop_space_push(x: Seq<char>, c: char, i: int)
    requires
        0 <= i <= x.len(),
    ensures
        drop_space(x.push(c), i) == drop_space(x, i),
    decreases i,
{
    if i > 0 {
        lemma_drop_space_push(x, c, i - 1);
    }
}

/// White space at the end of a text makes no difference to what is left without it.
pub proof fn lemma_trim_push(x: Seq<char>, c: char)
    requires
        is_space(c),
    ensures
        trim_of(x.push(c)) == trim_of(x),
{
    lemma_skip_space_push(x, c, 0);
    lemma_skip_space(x, 0);
    let k = skip_space(x, 0);
    let y = trim_start_of(x);
    if k < x.len() {
        assert(trim_start_of(x.push(c)) =~= y.push(c));
        lemma_drop_space_push(y, c, y.len() as int);
        lemma_drop_space(y, y.len() as int);
        assert(drop_space(y.push(c), y.len() as int + 1) == drop_space(y.push(c), y.len() as int));
        assert(trim_of(x.push(c)) =~= trim_of(x));
    } else {
        assert(trim_start_of(x.push(c)) =~= Seq::<char>::empty());
        assert(y =~= Seq::<char>::empty());
    }
}

/// Whether `b` are the lines `a`, but for what a line feed behind them makes of them: a carriage
/// return at the end of the last is gone, or an empty line has come behind them.
pub open spec fn lines_ended(a: Seq<Seq<char>>, b: Seq<Seq<char>>) -> bool {
    ||| b == a
    ||| b == a.push(Seq::empty())
    ||| a.len() > 0 && a.last().len() > 0 && a.last().last() == '\r' && b == a.drop_last().push(
        a.last().drop_last(),
    )
}

proof fn lemma_next_char_joined(s: Seq<char>, t: Seq<char>, i: int)
    requires
        0 <= i <= s.len(),
    ensures
        next_char(s.push('\n') + t, '\n', i) == next_char(s, '\n', i),
    decreases s.len() - i,
{
    let all = s.push('\n') + t;
    if i < s.len() {
        assert(all[i] == s[i]);
        if s[i] != '\n' {
            lemma_next_char_joined(s, t, i + 1);
        }
    } else {
        assert(all[i] == '\n');
    }
}

proof fn lemma_lines_behind(s: Seq<char>, t: Seq<char>, i: int)
    requires
        0 <= i <= t.len(),
    ensures
        lines_from(s + t, s.len() + i) == lines_from(t, i),
        next_char(s + t, '\n', s.len() + i) == s.len() + next_char(t, '\n', i),
    decreases t.len() - i,
{
    let all = s + t;
    if i < t.len() {
        assert(all[s.len() + i] == t[i]);
        lemma_lines_behind(s, t, i + 1);
        lemma_next_char(t, '\n', i);
        let e = next_char(t, '\n', i);
        assert(next_char(all, '\n', s.len() + i) == s.len() + e);
        assert(all.subrange(s.len() + i, s.len() + e) =~= t.subrange(i, e));
        if e < t.len() {
            lemma_lines_behind(s, t, e + 1);
        } else {
            assert(all.subrange(s.len() + i, all.len() as int) =~= t.subrange(
                i,
                t.len() as int,
            ));
        }
    }
}

/// The lines of two texts with a line feed between them are those of the first, as a line feed ends
/// them, and then those of the second.
pub proof fn lemma_lines_joined(s: Seq<char>, t: Seq<char>, i: int) -> (first: Seq<Seq<char>>)
    requires
        0 <= i <= s.len(),
    ensures
        lines_from(s.push('\n') + t, i) == first + lines_of(t),
        lines_ended(lines_from(s, i), first),
    decreases s.len() - i,
{
    let all = s.push('\n') + t;
    lemma_next_char(s, '\n', i);
    lemma_next_char_joined(s, t, i);
    let e = next_char(s, '\n', i);
    assert(all.subrange(i, e) =~= s.subrange(i, e));
    if e < s.len() {
        let rest = lemma_lines_joined(s, t, e + 1);
        let line = seq![strip_return(s.subrange(i, e))];
        let a = lines_from(s, e + 1);
        let first = line + rest;
        assert(lines_from(all, i) =~= first + lines_of(t));
        assert(lines_from(s, i) == line + a);
        if rest == a {
        } else if rest == a.push(Seq::empty()) {
            assert(first =~= (line + a).push(Seq::empty()));
        } else {
            assert((line + a).last() == a.last());
            assert(first =~= (line + a).drop_last().push(a.last().drop_last()));
        }
        first
    } else {
        lemma_lines_behind(s.push('\n'), t, 0);
        let line = s.subrange(i, s.len() as int);
        let first = seq![strip_return(line)];
        assert(lines_from(all, i) =~= first + lines_of(t));
        if i >= s.len() {
            assert(line =~= Seq::<char>::empty());
            assert(first =~= lines_from(s, i).push(Seq::empty()));
        } else if strip_return(line) != line {
            assert(first =~= lines_from(s, i).drop_last().push(line.drop_last()));
        } else {
            assert(first =~= lines_from(s, i));
        }
        first
    }
}

/// The texts of a vector of strings.
pub open spec fn texts(v: Seq<String>) -> Seq<Seq<char>> {
    v.map_values(|x: String| x@)
}

pub proof fn lemma_texts_push(v: Seq<String>, x: String)
    ensures
        texts(v.push(x)) == texts(v).push(x@),
{
    assert(texts(v.push(x)) =~= texts(v).push(x@));
}

/// The lines of a text.
pub fn lines(s: &str) -> (r: Vec<String>)
    ensures
        texts(r@) == lines_of(s@),
{
    let v: Vec<char> = chars_of(s);
    let mut r: Vec<String> = Vec::new();
    let mut i: usize = 0;
    assert(texts(r@) =~= Seq::<Seq<char>>::empty());
    while i < v.len()
        invariant
            i <= v@.len() + 1,
            v@ == s@,
            texts(r@) + lines_from(s@, i as int) == lines_of(s@),
        decreases v@.len() + 1 - i,
    {
        let e: usize = find_char(&v, '\n', i);
        let mut stop: usize = e;
        if e < v.len() && e > i && v[e - 1] == '\r' {
            stop = e - 1;
        }
        let l: String = string_of(&v, i, stop);
        let ghost before = texts(r@);
        proof {
            lemma_texts_push(r@, l);
            if e < v@.len() {
                assert(l@ =~= strip_return(s@.subrange(i as int, e as int)));
                assert(before.push(l@) + lines_from(s@, e + 1) =~= before + (seq![l@]
                    + lines_from(s@, e + 1)));
            } else {
                assert(lines_from(s@, i as int) =~= seq![l@]);
                assert(before.push(l@) =~= before + seq![l@]);
            }
        }
        r.push(l);
        if e >= v.len() {
            return r;
        }
        i = e + 1;
    }
    assert(texts(r@) =~= texts(r@) + Seq::<Seq<char>>::empty());
    r
}

/// The texts put one behind the other with `sep` between each two.
pub open spec fn joined(v: Seq<Seq<char>>, sep: Seq<char>) -> Seq<char>
    decreases v.len(),
{
    if v.len() == 0 {
        Seq::empty()
    } else if v.len() == 1 {
        v[0]
    } else {
        joined(v.drop_last(), sep) + sep + v.last()
    }
}

/// The first `n` strings with `sep` between each two.
pub fn join(v: &Vec<String>, n: usize, sep: &str) -> (r: String)
    requires
        n <= v@.len(),
    ensures
        r@ == joined(texts(v@.take(n as int)), sep@),
{
    let mut r: String = String::new();
    let mut i: usize = 0;
    assert(texts(v@.take(0)) =~= Seq::<Seq<char>>::empty());
    while i < n
        invariant
            i <= n <= v@.len(),
            r@ == joined(texts(v@.take(i as int)), sep@),
        decreases n - i,
    {
        proof {
            let next = texts(v@.take(i + 1));
            assert(next.drop_last() =~= texts(v@.take(i as int)));
            assert(next.last() == v@[i as int]@);
            if i == 0 {
                assert(r@ + v@[0]@ =~= v@[0]@);
            }
        }
        if i > 0 {
            r.push_str(sep);
        }
        r.push_str(v[i].as_str());
        i += 1;
    }
    r
}

// ----- replacing -----

/// `s[i..]` with `r` in front of each character and at the end.
pub open spec fn spread(s: Seq<char>, r: Seq<char>, i: int) -> Seq<char>
    decreases s.len() - i,
{
    if i < 0 || i >= s.len() {
        r
    } else {
        r + seq![s[i]] + spread(s, r, i + 1)
    }
}

/// `s[i..]` with `r` in place of each `p`, found from left to right without overlap.
pub open spec fn replaced_from(s: Seq<char>, p: Seq<char>, r: Seq<char>, i: int) -> Seq<char>
    decreases s.len() - i,
    when 0 <= i && p.len() > 0
{
    match find_from(s, p, i) {
        None => s.subrange(i, s.len() as int),
        Some(k) => {
            if k < i || k + p.len() > s.len() {
                s.subrange(i, s.len() as int)
            } else {
                s.subrange(i, k) + r + replaced_from(s, p, r, k + p.len())
            }
        },
    }
}

/// `s` with `r` in place of each `p`. An empty `p` stands before each character and at the end.
pub open spec fn replaced(s: Seq<char>, p: Seq<char>, r: Seq<char>) -> Seq<char> {
    if p.len() == 0 {
        spread(s, r, 0)
    } else {
        replaced_from(s, p, r, 0)
    }
}

/// `s` with `r` in place of each `p`.
pub fn replace(s: &str, p: &str, r: &str) -> (out: String)
    ensures
        out@ == replaced(s@, p@, r@),
{
    let sv: Vec<char> = chars_of(s);
    let pv: Vec<char> = chars_of(p);
    let mut out: String = String::new();
    let mut i: usize = 0;
    if pv.len() == 0 {
        while i < sv.len()
            invariant
                i <= sv@.len(),
                sv@ == s@,
                out@ + spread(s@, r@, i as int) == spread(s@, r@, 0),
            decreases sv@.len() - i,
        {
            let ghost before = out@;
            out.push_str(r);
            out.push(sv[i]);
            i += 1;
            assert(out@ + spread(s@, r@, i as int) =~= before + (r@ + seq![s@[i - 1]] + spread(
                s@,
                r@,
                i as int,
            )));
        }
        out.push_str(r);
        return out;
    }
    assert(out@ + replaced_from(s@, p@, r@, 0) =~= replaced_from(s@, p@, r@, 0));
    loop
        invariant
            i <= sv@.len(),
            sv@ == s@,
            pv@ == p@,
            p@.len() > 0,
            out@ + replaced_from(s@, p@, r@, i as int) == replaced_from(s@, p@, r@, 0),
        decreases sv@.len() - i,
    {
        proof {
            lemma_find_from(s@, p@, i as int);
        }
        let ghost before = out@;
        match find_chars(&sv, &pv, i) {
            None => {
                let tail: String = string_of(&sv, i, sv.len());
                out.push_str(tail.as_str());
                return out;
            },
            Some(k) => {
                let head: String = string_of(&sv, i, k);
                out.push_str(head.as_str());
                out.push_str(r);
                assert(out@ + replaced_from(s@, p@, r@, k + p@.len()) =~= before + (s@.subrange(
                    i as int,
                    k as int,
                ) + r@ + replaced_from(s@, p@, r@, k + p@.len())));
                assert(k + p@.len() <= sv.len());
                i = k + pv.len();
            },
        }
    }
}

// ----- numbers -----

/// The decimal digit of a number below ten.
pub open spec fn digit(d: nat) -> char {
    if d == 0 {
        '0'
    } else if d == 1 {
        '1'
    } else if d == 2 {
        '2'
    } else if d == 3 {
        '3'
    } else if d == 4 {
        '4'
    } else if d == 5 {
        '5'
    } else if d == 6 {
        '6'
    } else if d == 7 {
        '7'
    } else if d == 8 {
        '8'
    } else {
        '9'
    }
}

/// A number in decimal, without leading zeros.
pub open spec fn decimal(n: nat) -> Seq<char>
    decreases n,
{
    if n < 10 {
        seq![digit(n)]
    } else {
        decimal(n / 10).push(digit(n % 10))
    }
}

fn digit_char(d: u64) -> (c: char)
    requires
        d < 10,
    ensures
        c == digit(d as nat),
{
    match d {
        0 => '0',
        1 => '1',
        2 => '2',
        3 => '3',
        4 => '4',
        5 => '5',
        6 => '6',
        7 => '7',
        8 => '8',
        _ => '9',
    }
}

/// A number in decimal.
pub fn to_decimal(n: u64) -> (r: String)
    ensures
        r@ == decimal(n as nat),
    decreases n,
{
    if n < 10 {
        let mut r: String = String::new();
        r.push(digit_char(n));
        assert(r@ =~= seq![digit(n as nat)]);
        r
    } else {
        let mut r: String = to_decimal(n / 10);
        r.push(digit_char(n % 10));
        r
    }
}

/// Spaces.
pub open spec fn blanks(n: nat) -> Seq<char> {
    Seq::new(n, |i: int| ' ')
}

/// A string of `n` spaces.
pub fn spaces(n: usize) -> (r: String)
    ensures
        r@ == blanks(n as nat),
{
    let mut r: String = String::new();
    let mut i: usize = 0;
    assert(r@ =~= blanks(0));
    while i < n
        invariant
            i <= n,
            r@ == blanks(i as nat),
        decreases n - i,
    {
        r.push(' ');
        i += 1;
        assert(r@ =~= blanks(i as nat));
    }
    r
}

/// A text put behind as many spaces as bring it to the width, where it is shorter.
pub open spec fn right_aligned(s: Seq<char>, width: nat) -> Seq<char> {
    if s.len() < width {
        blanks((width - s.len()) as nat) + s
    } else {
        s
    }
}

/// The number in decimal, right-aligned in four columns.
pub fn four_columns(n: usize) -> (r: String)
    ensures
        r@ == right_aligned(decimal(n as nat), 4),
{
    let d: String = to_decimal(n as u64);
    let len: usize = chars_of(d.as_str()).len();
    if len < 4 {
        let mut r: String = spaces(4 - len);
        r.push_str(d.as_str());
        r
    } else {
        d
    }
}

/// The value of a decimal digit.
pub open spec fn digit_value(c: char) -> Option<nat> {
    if '0' <= c <= '9' {
        Some((c as u32 - '0' as u32) as nat)
    } else {
        None
    }
}

/// The number that a text of decimal digits writes.
pub open spec fn number_of(s: Seq<char>) -> Option<nat>
    decreases s.len(),
{
    if s.len() == 0 {
        Some(0)
    } else {
        match (number_of(s.drop_last()), digit_value(s.last())) {
            (Some(n), Some(d)) => Some(n * 10 + d),
            _ => None,
        }
    }
}

/// The number that a text writes: decimal digits, at least one, with or without a plus sign before
/// them, and no more than `max`.
pub open spec fn parsed_number(s: Seq<char>, max: nat) -> Option<nat> {
    let digits = if s.len() > 0 && s[0] == '+' {
        s.drop_first()
    } else {
        s
    };
    match number_of(digits) {
        Some(n) => if digits.len() > 0 && n <= max {
            Some(n)
        } else {
            None
        },
        None => None,
    }
}

/// A prefix that is no number makes the whole none; one that is, makes the whole no smaller.
proof fn lemma_number_prefix(s: Seq<char>, i: int)
    requires
        0 <= i <= s.len(),
    ensures
        number_of(s.take(i)) is None ==> number_of(s) is None,
        number_of(s.take(i)) is Some && number_of(s) is Some ==> number_of(s.take(i))->0
            <= number_of(s)->0,
    decreases s.len() - i,
{
    if i == s.len() {
        assert(s.take(i) =~= s);
    } else {
        lemma_number_prefix(s, i + 1);
        assert(s.take(i + 1).drop_last() =~= s.take(i));
    }
}

/// The number that a text writes.
pub fn parse_number(s: &str) -> (r: Option<usize>)
    ensures
        r is Some <==> parsed_number(s@, usize::MAX as nat) is Some,
        r is Some ==> parsed_number(s@, usize::MAX as nat) == Some(r->0 as nat),
{
    let v: Vec<char> = chars_of(s);
    let from: usize = if v.len() > 0 && v[0] == '+' {
        1
    } else {
        0
    };
    let ghost digits = s@.subrange(from as int, s@.len() as int);
    assert(from == 1 ==> digits =~= s@.drop_first());
    assert(from == 0 ==> digits =~= s@);
    if from == v.len() {
        return None;
    }
    let mut n: usize = 0;
    let mut i: usize = from;
    assert(digits.take(0) =~= Seq::<char>::empty());
    while i < v.len()
        invariant
            from <= i <= v@.len(),
            v@ == s@,
            from == 1 ==> digits == s@.drop_first() && s@[0] == '+',
            from == 0 ==> digits == s@ && s@[0] != '+',
            from <= 1,
            from < v@.len(),
            digits == s@.subrange(from as int, s@.len() as int),
            number_of(digits.take(i - from)) == Some(n as nat),
        decreases v@.len() - i,
    {
        let c: char = v[i];
        proof {
            assert(digits.take(i - from + 1).drop_last() =~= digits.take(i - from));
            assert(digits.take(i - from + 1).last() == c);
            lemma_number_prefix(digits, i - from + 1);
        }
        if c < '0' || c > '9' {
            return None;
        }
        let d: usize = c as usize - '0' as usize;
        if n > usize::MAX / 10 || n * 10 > usize::MAX - d {
            return None;
        }
        n = n * 10 + d;
        i += 1;
    }
    assert(digits.take(i - from) =~= digits);
    Some(n)
}

// ----- bytes -----

/// How many bytes the UTF-8 form of a text takes.
pub open spec fn utf8_len(s: Seq<char>) -> nat
    decreases s.len(),
{
    if s.len() == 0 {
        0
    } else {
        utf8_len(s.drop_last()) + char_width(s.last())
    }
}

/// The byte offset at which the character with the given index starts.
pub open spec fn byte_of(s: Seq<char>, i: int) -> nat {
    utf8_len(s.take(i))
}

/// Whether a byte offset lies between two characters (or at an end) of the text.
pub open spec fn boundary(s: Seq<char>, b: int) -> bool {
    exists|i: int| 0 <= i <= s.len() && #[trigger] byte_of(s, i) == b
}

/// Offsets grow with the index, by the width of the character in between.
pub proof fn lemma_byte_of_step(s: Seq<char>, i: int)
    requires
        0 <= i < s.len(),
    ensures
        byte_of(s, i + 1) == byte_of(s, i) + char_width(s[i]),
{
    assert(s.take(i + 1).drop_last() =~= s.take(i));
}

pub proof fn lemma_byte_of_mono(s: Seq<char>, i: int, j: int)
    requires
        0 <= i <= j <= s.len(),
    ensures
        byte_of(s, i) + (j - i) <= byte_of(s, j),
    decreases j - i,
{
    if i < j {
        lemma_byte_of_mono(s, i, j - 1);
        lemma_byte_of_step(s, j - 1);
    }
}

proof fn lemma_encode_one(c: char)
    ensures
        encode_scalar(c as u32).len() == char_width(c),
{
    char_is_scalar(c);
}

proof fn lemma_encode_len(s: Seq<char>)
    ensures
        encode_utf8(s).len() == utf8_len(s),
    decreases s.len(),
{
    if s.len() > 0 {
        let rest = s.drop_first();
        lemma_encode_len(rest);
        lemma_utf8_len_first(s);
        lemma_encode_one(s[0]);
    }
}

proof fn lemma_utf8_len_first(s: Seq<char>)
    requires
        s.len() > 0,
    ensures
        utf8_len(s) == char_width(s[0]) + utf8_len(s.drop_first()),
    decreases s.len(),
{
    if s.len() == 1 {
        assert(s.drop_last() =~= Seq::<char>::empty());
        assert(s.drop_first() =~= Seq::<char>::empty());
    } else {
        lemma_utf8_len_first(s.drop_last());
        assert(s.drop_last().drop_first() =~= s.drop_first().drop_last());
    }
}

/// The length of two texts put together.
pub proof fn lemma_utf8_len_add(a: Seq<char>, b: Seq<char>)
    ensures
        utf8_len(a + b) == utf8_len(a) + utf8_len(b),
    decreases b.len(),
{
    if b.len() == 0 {
        assert(a + b =~= a);
    } else {
        lemma_utf8_len_add(a, b.drop_last());
        assert((a + b).drop_last() =~= a + b.drop_last());
    }
}

/// The number of bytes in the UTF-8 form of a text.
pub fn byte_len(s: &str) -> (n: usize)
    ensures
        n == utf8_len(s@),
{
    proof {
        lemma_encode_len(s@);
    }
    s.as_bytes().len()
}

/// The index of the character that starts at the byte offset (or the number of characters, at the
/// end), where the offset lies between two characters.
pub fn index_at(s: &str, b: usize) -> (r: Option<usize>)
    ensures
        r is Some <==> boundary(s@, b as int),
        r is Some ==> r->0 <= s@.len() && byte_of(s@, r->0 as int) == b,
{
    let v: Vec<char> = chars_of(s);
    let total: usize = byte_len(s);
    let mut i: usize = 0;
    let mut at: usize = 0;
    assert(s@.take(0) =~= Seq::<char>::empty());
    assert(s@.take(s@.len() as int) =~= s@);
    while i < v.len() && at < b
        invariant
            i <= v@.len(),
            v@ == s@,
            at == byte_of(s@, i as int),
            total == utf8_len(s@),
            s@.take(s@.len() as int) == s@,
            forall|j: int| 0 <= j < i ==> byte_of(s@, j) < b,
        decreases v@.len() - i,
    {
        proof {
            lemma_byte_of_step(s@, i as int);
            lemma_byte_of_mono(s@, i + 1, s@.len() as int);
        }
        at = at + len_utf8(v[i]);
        i += 1;
    }
    if at == b {
        Some(i)
    } else {
        proof {
            assert forall|j: int| 0 <= j <= s@.len() implies byte_of(s@, j) != b by {
                if j > i {
                    lemma_byte_of_mono(s@, i as int, j);
                }
            }
        }
        None
    }
}

/// The byte offset at which the character with index `i` starts.
pub fn byte_at(s: &str, i: usize) -> (b: usize)
    requires
        i <= s@.len(),
    ensures
        b == byte_of(s@, i as int),
{
    let v: Vec<char> = chars_of(s);
    let head: String = string_of(&v, 0, i);
    assert(head@ =~= s@.take(i as int));
    byte_len(head.as_str())
}

// ----- what holds of texts -----

/// The first hundred and twenty-eight characters that are white space: the space, the tab, the line
/// feed, the carriage return, and the vertical tab and form feed between them.
pub proof fn law_ascii_space(c: char)
    requires
        c <= '\u{7f}',
    ensures
        is_space(c) <==> c == ' ' || c == '\t' || c == '\n' || c == '\u{b}' || c == '\u{c}' || c
            == '\r',
{
}

/// Without the white space at its end a text starts as it did, ends in something else, and has lost
/// nothing but white space.
pub proof fn law_trim_end(s: Seq<char>)
    ensures
        trim_end_of(s).len() <= s.len(),
        trim_end_of(s) == s.take(trim_end_of(s).len() as int),
        forall|i: int| trim_end_of(s).len() <= i < s.len() ==> is_space(#[trigger] s[i]),
        trim_end_of(s).len() > 0 ==> !is_space(trim_end_of(s).last()),
{
    lemma_drop_space(s, s.len() as int);
    assert(trim_end_of(s) =~= s.take(trim_end_of(s).len() as int));
}

/// Without the white space in front a text ends as it did, starts with something else, and has lost
/// nothing but white space.
pub proof fn law_trim_start(s: Seq<char>)
    ensures
        trim_start_of(s).len() <= s.len(),
        trim_start_of(s) == s.skip(s.len() - trim_start_of(s).len()),
        forall|i: int|
            0 <= i < s.len() - trim_start_of(s).len() ==> is_space(#[trigger] s[i]),
        trim_start_of(s).len() > 0 ==> !is_space(trim_start_of(s)[0]),
{
    lemma_skip_space(s, 0);
    assert(trim_start_of(s) =~= s.skip(s.len() - trim_start_of(s).len()));
}

/// Without the white space at either end a text is a part of itself, with something else at both
/// ends, and white space alone around it.
pub proof fn law_trim(s: Seq<char>) -> (from: int)
    ensures
        0 <= from,
        from + trim_of(s).len() <= s.len(),
        trim_of(s) == s.subrange(from, from + trim_of(s).len()),
        forall|i: int|
            0 <= i < from || from + trim_of(s).len() <= i < s.len() ==> is_space(#[trigger] s[i]),
        trim_of(s).len() > 0 ==> !is_space(trim_of(s)[0]) && !is_space(trim_of(s).last()),
{
    let t = trim_start_of(s);
    let from = s.len() - t.len();
    law_trim_start(s);
    law_trim_end(t);
    assert(trim_of(s) =~= s.subrange(from, from + trim_of(s).len()));
    assert forall|i: int| from + trim_of(s).len() <= i < s.len() implies is_space(
        #[trigger] s[i],
    ) by {
        assert(t[i - from] == s[i]);
    }
    from
}

/// A text holds another exactly where it can be cut in front of it and behind it.
pub proof fn law_holds_text(s: Seq<char>, p: Seq<char>)
    ensures
        holds_text(s, p) <==> exists|a: Seq<char>, b: Seq<char>| s == #[trigger] (a + p + b),
        has_prefix(s, p) <==> p.len() <= s.len() && s.take(p.len() as int) == p,
        has_suffix(s, p) <==> p.len() <= s.len() && s.skip(s.len() - p.len()) == p,
{
    if holds_text(s, p) {
        let i = choose|i: int| occurs_at(s, p, i);
        assert(s =~= s.take(i) + p + s.skip(i + p.len()));
    }
    if exists|a: Seq<char>, b: Seq<char>| s == #[trigger] (a + p + b) {
        let (a, b) = choose|a: Seq<char>, b: Seq<char>| s == #[trigger] (a + p + b);
        assert(s.subrange(a.len() as int, a.len() as int + p.len()) =~= p);
        assert(occurs_at(s, p, a.len() as int));
    }
    if p.len() <= s.len() {
        assert(s.subrange(0, p.len() as int) =~= s.take(p.len() as int));
        assert(s.subrange(s.len() - p.len(), s.len() as int) =~= s.skip(s.len() - p.len()));
    }
}

proof fn lemma_find_behind(x: Seq<char>, b: Seq<char>, p: Seq<char>, i: int)
    requires
        0 <= i,
    ensures
        find_from(x + b, p, x.len() + i) == (match find_from(b, p, i) {
            Some(k) => Some(x.len() + k),
            None => None::<int>,
        }),
    decreases b.len() + 1 - i,
{
    if i + p.len() <= b.len() {
        assert((x + b).subrange(x.len() + i, x.len() + i + p.len()) =~= b.subrange(
            i,
            i + p.len(),
        ));
        assert(occurs_at(x + b, p, x.len() + i) == occurs_at(b, p, i));
        lemma_find_behind(x, b, p, i + 1);
    }
}

proof fn lemma_replaced_behind(x: Seq<char>, b: Seq<char>, p: Seq<char>, r: Seq<char>, i: int)
    requires
        0 <= i <= b.len(),
        p.len() > 0,
    ensures
        replaced_from(x + b, p, r, x.len() + i) == replaced_from(b, p, r, i),
    decreases b.len() - i,
{
    lemma_find_behind(x, b, p, i);
    lemma_find_from(b, p, i);
    match find_from(b, p, i) {
        None => {
            assert((x + b).subrange(x.len() + i, (x + b).len() as int) =~= b.subrange(
                i,
                b.len() as int,
            ));
        },
        Some(k) => {
            lemma_replaced_behind(x, b, p, r, k + p.len());
            assert((x + b).subrange(x.len() + i, x.len() + k) =~= b.subrange(i, k));
        },
    }
}

/// Where the pattern does not occur, nothing is replaced.
pub proof fn law_replaced_nothing(s: Seq<char>, p: Seq<char>, r: Seq<char>)
    requires
        p.len() > 0,
        forall|i: int| !occurs_at(s, p, i),
    ensures
        replaced(s, p, r) == s,
{
    lemma_find_from(s, p, 0);
    assert(s.subrange(0, s.len() as int) =~= s);
}

/// The first occurrence of the pattern gives way to the replacement: what stands before it stays,
/// and what stands behind it is replaced in turn.
pub proof fn law_replaced_first(a: Seq<char>, b: Seq<char>, p: Seq<char>, r: Seq<char>)
    requires
        p.len() > 0,
        forall|i: int| 0 <= i < a.len() ==> !occurs_at(a + p + b, p, i),
    ensures
        replaced(a + p + b, p, r) == a + r + replaced(b, p, r),
{
    let s = a + p + b;
    lemma_find_from(s, p, 0);
    assert(s.subrange(a.len() as int, a.len() as int + p.len()) =~= p);
    assert(occurs_at(s, p, a.len() as int));
    assert(find_from(s, p, 0) == Some(a.len() as int));
    lemma_replaced_behind(a + p, b, p, r, 0);
    assert(s.subrange(0, a.len() as int) =~= a);
}

proof fn lemma_lines_from(s: Seq<char>, i: int, k: int)
    requires
        0 <= i,
        0 <= k < lines_from(s, i).len(),
    ensures
        forall|j: int| 0 <= j < lines_from(s, i)[k].len() ==> lines_from(s, i)[k][j] != '\n',
    decreases s.len() - i,
{
    let e = next_char(s, '\n', i);
    lemma_next_char(s, '\n', i);
    if e < s.len() && k > 0 {
        lemma_lines_from(s, e + 1, k - 1);
    }
}

/// No line of a text holds a line feed. A text without one is its only line; and with one, the
/// lines are what stands before the first, without a carriage return at its end, and the lines of
/// what stands behind it.
pub proof fn law_lines(s: Seq<char>, t: Seq<char>)
    requires
        forall|i: int| 0 <= i < s.len() ==> #[trigger] s[i] != '\n',
    ensures
        s.len() > 0 ==> lines_of(s) == seq![s],
        s.len() == 0 ==> lines_of(s).len() == 0,
        lines_of(s + seq!['\n'] + t) == seq![
            if s.len() > 0 && s.last() == '\r' {
                s.drop_last()
            } else {
                s
            },
        ] + lines_of(t),
        forall|k: int, j: int|
            0 <= k < lines_of(t).len() && 0 <= j < lines_of(t)[k].len()
                ==> #[trigger] lines_of(t)[k][j] != '\n',
{
    lemma_next_char(s, '\n', 0);
    if s.len() > 0 {
        assert(s.subrange(0, s.len() as int) =~= s);
        assert(lines_of(s) =~= seq![s]);
    }
    let all = s + seq!['\n'] + t;
    lemma_next_char(all, '\n', 0);
    assert(all[s.len() as int] == '\n');
    assert(forall|i: int| 0 <= i < s.len() ==> all[i] == s[i]);
    assert(next_char(all, '\n', 0) == s.len());
    assert(all.subrange(0, s.len() as int) =~= s);
    lemma_lines_shifted(s + seq!['\n'], t, 0);
    assert forall|k: int, j: int|
        0 <= k < lines_of(t).len() && 0 <= j < lines_of(t)[k].len() implies #[trigger] lines_of(
        t,
    )[k][j] != '\n' by {
        lemma_lines_from(t, 0, k);
    }
}

proof fn lemma_next_shifted(x: Seq<char>, t: Seq<char>, c: char, i: int)
    requires
        0 <= i <= t.len(),
    ensures
        next_char(x + t, c, x.len() + i) == x.len() + next_char(t, c, i),
    decreases t.len() - i,
{
    if i < t.len() {
        assert((x + t)[x.len() + i] == t[i]);
        lemma_next_shifted(x, t, c, i + 1);
    }
}

proof fn lemma_lines_shifted(x: Seq<char>, t: Seq<char>, i: int)
    requires
        0 <= i <= t.len(),
    ensures
        lines_from(x + t, x.len() + i) == lines_from(t, i),
    decreases t.len() - i,
{
    if i < t.len() {
        lemma_next_char(t, '\n', i);
        lemma_next_shifted(x, t, '\n', i);
        let e = next_char(t, '\n', i);
        if e < t.len() {
            lemma_lines_shifted(x, t, e + 1);
            assert((x + t).subrange(x.len() + i, x.len() + e) =~= t.subrange(i, e));
        } else {
            assert((x + t).subrange(x.len() + i, (x + t).len() as int) =~= t.subrange(
                i,
                t.len() as int,
            ));
        }
    }
}

/// What follows the last occurrence of a character holds it no more; the whole text where it does
/// not occur.
pub proof fn law_last_piece(s: Seq<char>, c: char, to: int)
    requires
        0 <= to <= s.len(),
        forall|i: int| to <= i < s.len() ==> #[trigger] s[i] != c,
    ensures
        ({
            let p = last_piece(s, c, to);
            &&& p.len() <= s.len()
            &&& p == s.skip(s.len() - p.len())
            &&& forall|i: int| 0 <= i < p.len() ==> #[trigger] p[i] != c
            &&& p.len() < s.len() ==> s[s.len() - p.len() - 1] == c
        }),
    decreases to,
{
    if to > 0 && s[to - 1] != c {
        law_last_piece(s, c, to - 1);
    } else {
        assert(last_piece(s, c, to) =~= s.skip(to));
    }
}

proof fn lemma_digit(d: nat)
    requires
        d < 10,
    ensures
        digit_value(digit(d)) == Some(d),
        '0' <= digit(d) <= '9',
{
}

/// A number in decimal reads back as itself. It has digits only, at least one, and no zero in front
/// but for zero itself.
pub proof fn law_decimal_reads_back(n: nat)
    ensures
        number_of(decimal(n)) == Some(n),
        parsed_number(decimal(n), n) == Some(n),
        decimal(n).len() > 0,
        forall|i: int| 0 <= i < decimal(n).len() ==> '0' <= #[trigger] decimal(n)[i] <= '9',
        n > 0 ==> decimal(n)[0] != '0',
    decreases n,
{
    lemma_digit(n % 10);
    if n < 10 {
        assert(seq![digit(n)].drop_last() =~= Seq::<char>::empty());
        assert(number_of(Seq::<char>::empty()) == Some(0nat));
    } else {
        law_decimal_reads_back(n / 10);
        assert(decimal(n).drop_last() =~= decimal(n / 10));
        assert((n / 10) * 10 + n % 10 == n);
    }
    assert(number_of(decimal(n)) == Some(n));
}

/// A text put to the right ends as it did, with spaces alone in front of it, and is as wide as was
/// asked for where it was not wider already.
pub proof fn law_right_aligned(s: Seq<char>, width: nat)
    ensures
        ({
            let r = right_aligned(s, width);
            &&& r.len() >= width
            &&& r.len() == width || r.len() == s.len()
            &&& r.len() >= s.len()
            &&& r.skip(r.len() - s.len()) == s
            &&& forall|i: int| 0 <= i < r.len() - s.len() ==> #[trigger] r[i] == ' '
        }),
{
    let r = right_aligned(s, width);
    assert(r.skip(r.len() - s.len()) =~= s);
}

/// The lower-case form of an ASCII text has the same length; a capital letter gives way to the small
/// one, and every other character stays.
pub proof fn law_lower_ascii(s: Seq<char>, i: int)
    requires
        forall|k: int| 0 <= k < s.len() ==> #[trigger] s[k] <= '\u{7f}',
        0 <= i < s.len(),
    ensures
        lower_text(s).len() == s.len(),
        'A' <= s[i] <= 'Z' ==> lower_text(s)[i] as u32 == s[i] as u32 + 32,
        !('A' <= s[i] <= 'Z') ==> lower_text(s)[i] == s[i],
{
}

/// Texts put together: none give nothing, one gives itself, and one more adds the separator and
/// itself.
pub proof fn law_joined(v: Seq<Seq<char>>, x: Seq<char>, sep: Seq<char>)
    ensures
        joined(Seq::<Seq<char>>::empty(), sep).len() == 0,
        v.len() == 0 ==> joined(v.push(x), sep) == x,
        v.len() > 0 ==> joined(v.push(x), sep) == joined(v, sep) + sep + x,
{
    assert(v.push(x).drop_last() =~= v);
}

proof fn lemma_joined_front(x: Seq<char>, v: Seq<Seq<char>>, sep: Seq<char>)
    requires
        v.len() > 0,
    ensures
        joined(seq![x] + v, sep) == x + sep + joined(v, sep),
    decreases v.len(),
{
    let all = seq![x] + v;
    assert(all.drop_last() =~= seq![x] + v.drop_last());
    assert(all.last() == v.last());
    if v.len() == 1 {
        assert(all.drop_last() =~= seq![x]);
        assert(joined(seq![x], sep) == x);
    } else {
        lemma_joined_front(x, v.drop_last(), sep);
        assert(x + sep + joined(v.drop_last(), sep) + sep + v.last() =~= x + sep + (joined(
            v.drop_last(),
            sep,
        ) + sep + v.last()));
    }
}

proof fn lemma_split_joins(s: Seq<char>, c: char, i: int)
    requires
        0 <= i <= s.len(),
    ensures
        split_from(s, c, i).len() > 0,
        joined(split_from(s, c, i), seq![c]) == s.subrange(i, s.len() as int),
        forall|k: int, j: int|
            0 <= k < split_from(s, c, i).len() && 0 <= j < split_from(s, c, i)[k].len()
                ==> #[trigger] split_from(s, c, i)[k][j] != c,
    decreases s.len() - i,
{
    let e = next_char(s, c, i);
    lemma_next_char(s, c, i);
    if e < s.len() {
        let rest = split_from(s, c, e + 1);
        let head = s.subrange(i, e);
        lemma_split_joins(s, c, e + 1);
        lemma_joined_front(head, rest, seq![c]);
        assert(head + seq![c] + s.subrange(e + 1, s.len() as int) =~= s.subrange(
            i,
            s.len() as int,
        ));
        let all = split_from(s, c, i);
        assert forall|k: int, j: int|
            0 <= k < all.len() && 0 <= j < all[k].len() implies #[trigger] all[k][j] != c by {
            if k > 0 {
                assert(all[k] == rest[k - 1]);
                assert(rest[k - 1][j] != c);
            }
        }
    }
}

/// The pieces of a text between the occurrences of a character hold it no more, and with it between
/// each two they are the text.
pub proof fn law_split_joins(s: Seq<char>, c: char)
    ensures
        split_from(s, c, 0).len() > 0,
        joined(split_from(s, c, 0), seq![c]) == s,
        forall|k: int, j: int|
            0 <= k < split_from(s, c, 0).len() && 0 <= j < split_from(s, c, 0)[k].len()
                ==> #[trigger] split_from(s, c, 0)[k][j] != c,
{
    lemma_split_joins(s, c, 0);
    assert(s.subrange(0, s.len() as int) =~= s);
}

} // verus!
