//! The text that the user is typing, with the cursor in it.

use vstd::prelude::*;
use crate::text::boundary;
use crate::text::byte_at;
use crate::text::byte_len;
use crate::text::byte_of;
use crate::text::chars_of;
use crate::text::index_at;
use crate::text::lemma_byte_of_mono;
use crate::text::string_of;
use crate::text::utf8_len;

verus! {

/// What a text area holds. The cursor is a byte offset.
#[verifier::ext_equal]
pub struct TextAreaView {
    pub text: Seq<char>,
    pub cursor: int,
    pub shell_mode: bool,
    pub session_empty: bool,
    pub selecting: bool,
}

/// A text with a cursor between two of its characters.
#[derive(Debug)]
pub struct TextArea {
    text: String,
    cursor: usize,
    shell_mode: bool,
    session_empty: bool,
    selecting: bool,
}

impl View for TextArea {
    type V = TextAreaView;

    closed spec fn view(&self) -> TextAreaView {
        TextAreaView {
            text: self.text@,
            cursor: self.cursor as int,
            shell_mode: self.shell_mode,
            session_empty: self.session_empty,
            selecting: self.selecting,
        }
    }
}

/// The text in front of the byte offset, and that behind it.
pub open spec fn split_at_byte(s: Seq<char>, b: int) -> (Seq<char>, Seq<char>) {
    let i = choose|i: int| 0 <= i <= s.len() && #[trigger] byte_of(s, i) == b;
    (s.take(i), s.skip(i))
}

/// A byte offset picks one index.
pub proof fn lemma_byte_of_inj(s: Seq<char>, i: int, j: int)
    requires
        0 <= i <= s.len(),
        0 <= j <= s.len(),
        byte_of(s, i) == byte_of(s, j),
    ensures
        i == j,
{
    if i < j {
        lemma_byte_of_mono(s, i, j);
    } else if j < i {
        lemma_byte_of_mono(s, j, i);
    }
}

/// Splitting at the offset of a character splits before the character.
pub proof fn lemma_split_at(s: Seq<char>, i: int)
    requires
        0 <= i <= s.len(),
    ensures
        boundary(s, byte_of(s, i) as int),
        split_at_byte(s, byte_of(s, i) as int) == (s.take(i), s.skip(i)),
{
    let b = byte_of(s, i) as int;
    let j = choose|j: int| 0 <= j <= s.len() && #[trigger] byte_of(s, j) == b;
    lemma_byte_of_inj(s, i, j);
}

/// The area's text with `t` in place of the bytes from `start` to `end`.
pub open spec fn spliced(s: Seq<char>, start: int, end: int, t: Seq<char>) -> Seq<char> {
    split_at_byte(s, start).0 + t + split_at_byte(s, end).1
}

/// Where the cursor stands after such a replacement: it goes with the text behind the range, stays
/// before it, and leaves the range to stand behind the new text.
pub open spec fn spliced_cursor(cursor: int, start: int, end: int, len: int) -> int {
    if cursor < start {
        cursor
    } else if cursor <= end {
        start + len
    } else {
        cursor - (end - start) + len
    }
}

impl TextArea {
    #[verifier::type_invariant]
    spec fn between(&self) -> bool {
        boundary(self.text@, self.cursor as int)
    }

    /// An empty text.
    pub fn new() -> (r: TextArea)
        ensures
            r@ == (TextAreaView {
                text: Seq::empty(),
                cursor: 0,
                shell_mode: false,
                session_empty: false,
                selecting: false,
            }),
    {
        let text: String = String::new();
        proof {
            assert(text@.take(0) =~= Seq::<char>::empty());
            assert(byte_of(text@, 0) == 0);
        }
        TextArea { text, cursor: 0, shell_mode: false, session_empty: false, selecting: false }
    }

    /// The text.
    pub fn text(&self) -> (r: &str)
        ensures
            r@ == self@.text,
    {
        self.text.as_str()
    }

    /// The byte offset of the cursor. It lies between two characters.
    pub fn cursor(&self) -> (r: usize)
        ensures
            r == self@.cursor,
            boundary(self@.text, r as int),
    {
        proof {
            use_type_invariant(self);
        }
        self.cursor
    }

    /// Whether the text goes to a shell.
    pub fn shell_mode(&self) -> (r: bool)
        ensures
            r == self@.shell_mode,
    {
        self.shell_mode
    }

    /// Whether the user is selecting a part of the text.
    pub fn selecting(&self) -> (r: bool)
        ensures
            r == self@.selecting,
    {
        self.selecting
    }

    /// Whether the session has no message yet.
    pub fn session_empty(&self) -> (r: bool)
        ensures
            r == self@.session_empty,
    {
        self.session_empty
    }

    /// Puts another text in place of the one that is there, with the cursor at its end.
    pub fn set_text(&mut self, s: &str)
        ensures
            final(self)@ == (TextAreaView {
                text: s@,
                cursor: utf8_len(s@) as int,
                ..old(self)@
            }),
    {
        proof {
            assert(s@.take(s@.len() as int) =~= s@);
            assert(byte_of(s@, s@.len() as int) == utf8_len(s@));
        }
        *self = TextArea {
            text: s.to_owned(),
            cursor: byte_len(s),
            shell_mode: self.shell_mode,
            session_empty: self.session_empty,
            selecting: self.selecting,
        };
    }

    /// Takes over a text and a cursor. A cursor that lies in a character goes to the end.
    pub fn assign(&mut self, s: &str, cursor: usize)
        ensures
            final(self)@ == (TextAreaView {
                text: s@,
                cursor: if boundary(s@, cursor as int) {
                    cursor as int
                } else {
                    utf8_len(s@) as int
                },
                ..old(self)@
            }),
    {
        proof {
            assert(s@.take(s@.len() as int) =~= s@);
            assert(byte_of(s@, s@.len() as int) == utf8_len(s@));
        }
        let at: usize = if index_at(s, cursor).is_some() {
            cursor
        } else {
            byte_len(s)
        };
        *self = TextArea {
            text: s.to_owned(),
            cursor: at,
            shell_mode: self.shell_mode,
            session_empty: self.session_empty,
            selecting: self.selecting,
        };
    }

    /// Moves the cursor. An offset that lies in a character, or behind the text, is its end.
    pub fn set_cursor(&mut self, pos: usize)
        ensures
            final(self)@ == (TextAreaView {
                cursor: if boundary(old(self)@.text, pos as int) {
                    pos as int
                } else {
                    utf8_len(old(self)@.text) as int
                },
                ..old(self)@
            }),
    {
        let text: String = self.text.clone();
        self.assign(text.as_str(), pos);
    }

    /// Puts `t` in place of the bytes from `start` to `end`.
    pub fn replace_range(&mut self, start: usize, end: usize, t: &str)
        requires
            start <= end,
            boundary(old(self)@.text, start as int),
            boundary(old(self)@.text, end as int),
        ensures
            final(self)@ == (TextAreaView {
                text: spliced(old(self)@.text, start as int, end as int, t@),
                cursor: spliced_cursor(
                    old(self)@.cursor,
                    start as int,
                    end as int,
                    utf8_len(t@) as int,
                ),
                ..old(self)@
            }),
    {
        proof {
            use_type_invariant(&*self);
        }
        let ghost s = self.text@;
        let v: Vec<char> = chars_of(self.text.as_str());
        let i: usize = match index_at(self.text.as_str(), start) {
            Some(i) => i,
            None => 0,
        };
        let j: usize = match index_at(self.text.as_str(), end) {
            Some(j) => j,
            None => 0,
        };
        let k: usize = match index_at(self.text.as_str(), self.cursor) {
            Some(k) => k,
            None => 0,
        };
        let n: usize = chars_of(t).len();
        proof {
            let ci = choose|x: int| 0 <= x <= s.len() && #[trigger] byte_of(s, x) == start;
            let cj = choose|x: int| 0 <= x <= s.len() && #[trigger] byte_of(s, x) == end;
            lemma_byte_of_inj(s, i as int, ci);
            lemma_byte_of_inj(s, j as int, cj);
            if j < i {
                lemma_byte_of_mono(s, j as int, i as int);
            }
        }
        let mut text: String = string_of(&v, 0, i);
        text.push_str(t);
        let tail: String = string_of(&v, j, v.len());
        text.push_str(tail.as_str());
        let ghost new = s.take(i as int) + t@ + s.skip(j as int);
        proof {
            assert(text@ =~= new);
        }
        let cursor: usize = if self.cursor < start {
            proof {
                if k >= i {
                    lemma_byte_of_mono(s, i as int, k as int);
                }
                assert(new.take(k as int) =~= s.take(k as int));
                assert(byte_of(new, k as int) == self.cursor);
            }
            self.cursor
        } else if self.cursor <= end {
            proof {
                lemma_splice_bytes(s, i as int, j as int, t@, j as int);
                assert(i + n <= new.len());
            }
            let all: Vec<char> = chars_of(text.as_str());
            assert(all@.len() == new.len());
            assert(i + n <= all.len());
            byte_at(text.as_str(), i + n)
        } else {
            proof {
                if k <= j {
                    lemma_byte_of_mono(s, k as int, j as int);
                }
                lemma_splice_bytes(s, i as int, j as int, t@, k as int);
            }
            let all: Vec<char> = chars_of(text.as_str());
            assert(all@.len() == new.len());
            assert(i + n + (k - j) <= all.len());
            byte_at(text.as_str(), i + n + (k - j))
        };
        *self = TextArea {
            text,
            cursor,
            shell_mode: self.shell_mode,
            session_empty: self.session_empty,
            selecting: self.selecting,
        };
    }

    /// Puts `t` in at the cursor, which then stands behind it.
    pub fn insert_str(&mut self, t: &str)
        ensures
            final(self)@ == (TextAreaView {
                text: spliced(old(self)@.text, old(self)@.cursor, old(self)@.cursor, t@),
                cursor: old(self)@.cursor + utf8_len(t@),
                ..old(self)@
            }),
    {
        proof {
            use_type_invariant(&*self);
        }
        let at: usize = self.cursor;
        self.replace_range(at, at, t);
    }

    /// Says whether the text goes to a shell.
    pub fn set_shell_mode(&mut self, on: bool)
        ensures
            final(self)@ == (TextAreaView { shell_mode: on, ..old(self)@ }),
    {
        proof {
            use_type_invariant(&*self);
        }
        self.shell_mode = on;
    }

    /// Says whether the session has no message yet.
    pub fn set_session_empty(&mut self, on: bool)
        ensures
            final(self)@ == (TextAreaView { session_empty: on, ..old(self)@ }),
    {
        proof {
            use_type_invariant(&*self);
        }
        self.session_empty = on;
    }

    /// Says whether the user is selecting a part of the text.
    pub fn set_selecting(&mut self, on: bool)
        ensures
            final(self)@ == (TextAreaView { selecting: on, ..old(self)@ }),
    {
        proof {
            use_type_invariant(&*self);
        }
        self.selecting = on;
    }
}

proof fn lemma_splice_bytes(s: Seq<char>, i: int, j: int, t: Seq<char>, k: int)
    requires
        0 <= i <= j <= k <= s.len(),
    ensures
        ({
            let new = s.take(i) + t + s.skip(j);
            byte_of(new, i + t.len() + (k - j)) == byte_of(s, i) + utf8_len(t) + (byte_of(s, k)
                - byte_of(s, j))
        }),
{
    let new = s.take(i) + t + s.skip(j);
    let mid = s.subrange(j, k);
    assert(new.take(i + t.len() + (k - j)) =~= s.take(i) + t + mid);
    crate::text::lemma_utf8_len_add(s.take(i) + t, mid);
    crate::text::lemma_utf8_len_add(s.take(i), t);
    assert(s.take(k) =~= s.take(j) + mid);
    crate::text::lemma_utf8_len_add(s.take(j), mid);
}

/// A replacement changes nothing around it: the characters in front of the range stay, then comes
/// the new text, then the characters behind the range.
pub proof fn law_spliced(s: Seq<char>, a: int, b: int, t: Seq<char>)
    requires
        0 <= a <= b <= s.len(),
    ensures
        ({
            let r = spliced(s, byte_of(s, a) as int, byte_of(s, b) as int, t);
            &&& r.len() == a + t.len() + (s.len() - b)
            &&& r.take(a) == s.take(a)
            &&& r.subrange(a, a + t.len()) == t
            &&& r.skip(a + t.len()) == s.skip(b)
        }),
{
    lemma_split_at(s, a);
    lemma_split_at(s, b);
    let r = spliced(s, byte_of(s, a) as int, byte_of(s, b) as int, t);
    assert(r.take(a) =~= s.take(a));
    assert(r.subrange(a, a + t.len()) =~= t);
    assert(r.skip(a + t.len()) =~= s.skip(b));
}

/// The cursor stays with the character that it stands in front of: in front of the range it does
/// not move, behind the range it moves with the text, and from inside the range it goes behind the
/// new text.
pub proof fn law_cursor_stays_with_its_text(s: Seq<char>, a: int, b: int, t: Seq<char>, c: int)
    requires
        0 <= a <= b <= s.len(),
        0 <= c <= s.len(),
    ensures
        ({
            let (x, y) = (byte_of(s, a) as int, byte_of(s, b) as int);
            let r = spliced(s, x, y, t);
            spliced_cursor(byte_of(s, c) as int, x, y, utf8_len(t) as int) == byte_of(
                r,
                if c < a {
                    c
                } else if c <= b {
                    a + t.len()
                } else {
                    c - (b - a) + t.len()
                },
            )
        }),
{
    let (x, y) = (byte_of(s, a) as int, byte_of(s, b) as int);
    let r = spliced(s, x, y, t);
    law_spliced(s, a, b, t);
    lemma_split_at(s, a);
    lemma_split_at(s, b);
    let behind = r.take(a + t.len());
    assert(behind =~= s.take(a) + t);
    crate::text::lemma_utf8_len_add(s.take(a), t);
    let moved = spliced_cursor(byte_of(s, c) as int, x, y, utf8_len(t) as int);
    if c < a {
        lemma_byte_of_mono(s, c, a);
        assert(r.take(c) =~= s.take(c)) by {
            assert(forall|i: int| 0 <= i < c ==> r[i] == r.take(a)[i]);
            assert(forall|i: int| 0 <= i < c ==> s[i] == s.take(a)[i]);
        }
        assert(moved == byte_of(r, c));
    } else if c <= b {
        lemma_byte_of_mono(s, a, c);
        lemma_byte_of_mono(s, c, b);
        assert(moved == byte_of(r, a + t.len()));
    } else {
        lemma_byte_of_mono(s, b, c);
        let rest = s.subrange(b, c);
        assert(s.take(c) =~= s.take(b) + rest);
        crate::text::lemma_utf8_len_add(s.take(b), rest);
        let k = c - (b - a) + t.len();
        assert(r == s.take(a) + t + s.skip(b));
        assert(r.take(k) =~= behind + rest);
        crate::text::lemma_utf8_len_add(behind, rest);
        lemma_byte_of_mono(s, a, b);
        assert(moved == byte_of(r, k));
    }
}

/// What comes in at a place stands there, and ends where the text in front of it and itself do.
pub proof fn law_inserted(s: Seq<char>, n: int, t: Seq<char>)
    requires
        0 <= n <= s.len(),
    ensures
        ({
            let b = byte_of(s, n) as int;
            let r = spliced(s, b, b, t);
            byte_of(r, n + t.len()) == b + utf8_len(t)
        }),
{
    law_cursor_stays_with_its_text(s, n, n, t, n);
}

} // verus!
