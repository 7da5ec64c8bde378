//! Completing the names of files and slash commands in the input.

use vstd::multiset::Multiset;
use vstd::prelude::*;
use crate::text::boundary;
use crate::text::byte_at;
use crate::text::byte_len;
use crate::text::byte_of;
use crate::text::chars_of;
use crate::text::contains;
use crate::text::holds_text;
use crate::text::index_at;
use crate::text::is_space;
use crate::text::is_white;
use crate::text::lower_text;
use crate::text::same_text;
use crate::text::string_of;
use crate::text::texts;
use crate::text::utf8_len;
use crate::types::FileSearchResult;
use crate::types::HelperCommand;

verus! {

/// How many files a search gives at most.
pub const MAX_MATCHES: usize = 50;

/// After so many files a search stops where it has found enough.
pub const ENOUGH_FILES: usize = 500;

/// How long a search for the same text waits, in milliseconds.
pub const DEBOUNCE_MS: u64 = 120;

// ----- the outside matcher -----

/// The scratch memory of the matcher.
#[verifier::external_type_specification]
#[verifier::external_body]
pub struct ExMatcher(nucleo_matcher::Matcher);

/// `Matcher::new` of the nucleo-matcher crate: a matcher, of which nothing is claimed.
#[verifier::external_body]
fn new_matcher() -> nucleo_matcher::Matcher {
    nucleo_matcher::Matcher::new(nucleo_matcher::Config::DEFAULT)
}

/// How well a path matches a query; nothing where it does not.
pub uninterp spec fn match_score(query: Seq<char>, path: Seq<char>) -> Option<u32>;

/// So many characters can match at least: a matched character counts at most 26, the first one 36,
/// and the sum of the matcher is one of 16 bits.
pub const LONGEST_MATCH: usize = 2520;

/// So long a query can be searched for at least: its words count at most 36 for each character, and
/// their sum is one of 32 bits.
pub const LONGEST_QUERY: usize = 100000000;

/// Whether the matcher can count how well the path matches the query.
pub open spec fn fits_matcher(query: Seq<char>, path: Seq<char>) -> bool {
    &&& query.len() <= LONGEST_MATCH || path.len() <= LONGEST_MATCH
    &&& query.len() <= LONGEST_QUERY
    &&& utf8_len(path) <= u32::MAX
}

/// Whether the matcher can count for each of the files; nothing is counted for an empty query.
pub open spec fn files_fit(query: Seq<char>, files: Seq<Seq<char>>) -> bool {
    query.len() > 0 ==> forall|i: int|
        0 <= i < files.len() ==> fits_matcher(query, #[trigger] files[i])
}

/// Whether the matcher can count for each of the files.
pub fn can_search(query: &str, files: &Vec<String>) -> (r: bool)
    ensures
        r == files_fit(query@, texts(files@)),
{
    let ghost all = texts(files@);
    let n: usize = chars_of(query).len();
    if n == 0 {
        return true;
    }
    let mut i: usize = 0;
    while i < files.len()
        invariant
            i <= files@.len(),
            n == query@.len(),
            n > 0,
            all == texts(files@),
            all.len() == files@.len(),
            forall|j: int| 0 <= j < i ==> fits_matcher(query@, #[trigger] all[j]),
        decreases files@.len() - i,
    {
        let path: &str = files[i].as_str();
        assert(all[i as int] == path@);
        if (n > LONGEST_MATCH && chars_of(path).len() > LONGEST_MATCH) || n > LONGEST_QUERY
            || byte_len(path) > 4294967295 {
            assert(!fits_matcher(query@, all[i as int]));
            return false;
        }
        i += 1;
    }
    true
}

/// `Pattern::score` of the nucleo-matcher crate, for the pattern that `Pattern::new` makes of the
/// query with smart case, smart normalisation and fuzzy atoms, in the default configuration: the
/// score is a function of the two texts alone. The matcher panics on longer paths, and where more
/// matches than it can count its sums can overflow.
#[verifier::external_body]
fn score_of(query: &str, path: &str, matcher: &mut nucleo_matcher::Matcher) -> (r: Option<u32>)
    requires
        fits_matcher(query@, path@),
    ensures
        r == match_score(query@, path@),
{
    let mut buf: Vec<char> = Vec::new();
    matcher.config = nucleo_matcher::Config::DEFAULT;
    let pattern = nucleo_matcher::pattern::Pattern::new(
        query,
        nucleo_matcher::pattern::CaseMatching::Smart,
        nucleo_matcher::pattern::Normalization::Smart,
        nucleo_matcher::pattern::AtomKind::Fuzzy,
    );
    pattern.score(nucleo_matcher::Utf32Str::new(path, &mut buf), matcher)
}

// ----- order of texts -----

/// Whether `a` stands before `b` in the order of their characters.
pub open spec fn text_before(a: Seq<char>, b: Seq<char>) -> bool
    decreases a.len(),
{
    if b.len() == 0 {
        false
    } else if a.len() == 0 {
        true
    } else if a[0] != b[0] {
        a[0] < b[0]
    } else {
        text_before(a.drop_first(), b.drop_first())
    }
}

/// Of two texts one stands before the other, unless they are equal; and no text stands both before
/// and behind another.
pub proof fn law_text_order(a: Seq<char>, b: Seq<char>)
    ensures
        a == b || text_before(a, b) || text_before(b, a),
        !(text_before(a, b) && text_before(b, a)),
        a == b ==> !text_before(a, b),
    decreases a.len(),
{
    if a.len() > 0 && b.len() > 0 {
        law_text_order(a.drop_first(), b.drop_first());
        if a[0] == b[0] && a.drop_first() == b.drop_first() {
            assert(a =~= seq![a[0]] + a.drop_first());
            assert(b =~= seq![b[0]] + b.drop_first());
        }
    } else if a.len() == 0 && b.len() == 0 {
        assert(a =~= b);
    }
}

/// The order of texts is transitive.
pub proof fn law_text_order_transitive(a: Seq<char>, b: Seq<char>, c: Seq<char>)
    requires
        text_before(a, b),
        text_before(b, c),
    ensures
        text_before(a, c),
    decreases a.len(),
{
    if a.len() > 0 && a[0] == b[0] && b[0] == c[0] {
        law_text_order_transitive(a.drop_first(), b.drop_first(), c.drop_first());
    }
}

/// Whether `a` stands before `b`.
pub fn is_before(a: &str, b: &str) -> (r: bool)
    ensures
        r == text_before(a@, b@),
{
    let x: Vec<char> = chars_of(a);
    let y: Vec<char> = chars_of(b);
    let mut i: usize = 0;
    assert(x@.skip(0) =~= x@);
    assert(y@.skip(0) =~= y@);
    while i < x.len() && i < y.len()
        invariant
            i <= x@.len(),
            i <= y@.len(),
            x@ == a@,
            y@ == b@,
            text_before(a@, b@) == text_before(x@.skip(i as int), y@.skip(i as int)),
        decreases x@.len() - i,
    {
        if x[i] != y[i] {
            return x[i] < y[i];
        }
        assert(x@.skip(i as int).drop_first() =~= x@.skip(i + 1));
        assert(y@.skip(i as int).drop_first() =~= y@.skip(i + 1));
        i += 1;
    }
    i < y.len()
}

// ----- the best matches -----

/// A path with its score.
pub type Match = (u32, Seq<char>);

/// Whether the worst of several matches is rather `a` than `b`: it has the lower score, or the same
/// score and the earlier path.
pub open spec fn worse(a: Match, b: Match) -> bool {
    a.0 < b.0 || (a.0 == b.0 && text_before(a.1, b.1))
}

/// Where the worst of the first `n` matches is.
pub open spec fn worst(s: Seq<Match>, n: int) -> int
    decreases n,
{
    if n <= 1 {
        0
    } else {
        let w = worst(s, n - 1);
        if worse(s[n - 1], s[w]) {
            n - 1
        } else {
            w
        }
    }
}

/// The best matches after another path. While there is room, a match is kept; then it takes the
/// place of the worst, where its score is higher.
pub open spec fn keep_best(s: Seq<Match>, found: Option<u32>, path: Seq<char>, max: nat) -> Seq<
    Match,
> {
    match found {
        None => s,
        Some(score) => if s.len() < max {
            s.push((score, path))
        } else if s.len() > 0 && score > s[worst(s, s.len() as int)].0 {
            s.remove(worst(s, s.len() as int)).push((score, path))
        } else {
            s
        },
    }
}

/// The order in which matches are offered: by descending score, then by path.
pub open spec fn ranked_before(a: Match, b: Match) -> bool {
    a.0 > b.0 || (a.0 == b.0 && !text_before(b.1, a.1))
}

/// Whether the matches stand in that order.
pub open spec fn ranked(s: Seq<Match>) -> bool {
    forall|i: int, j: int|
        0 <= i < j < s.len() ==> ranked_before(#[trigger] s[i], #[trigger] s[j])
}

/// The paths of matches.
pub open spec fn paths(s: Seq<Match>) -> Seq<Seq<char>> {
    s.map_values(|m: Match| m.1)
}

/// Whether the texts are the paths of the matches in the order in which they are offered.
pub open spec fn offers(files: Seq<Seq<char>>, s: Seq<Match>) -> bool {
    exists|order: Seq<Match>| #[trigger]
        ranked(order) && order.to_multiset() == s.to_multiset() && files == paths(order)
}

proof fn lemma_ranked_before_trans(a: Match, b: Match, c: Match)
    requires
        ranked_before(a, b),
        ranked_before(b, c),
    ensures
        ranked_before(a, c),
{
    if a.0 == b.0 && b.0 == c.0 {
        law_text_order(a.1, b.1);
        law_text_order(b.1, c.1);
        law_text_order(a.1, c.1);
        if a.1 == b.1 || b.1 == c.1 {
        } else {
            law_text_order_transitive(a.1, b.1, c.1);
        }
    }
}

proof fn lemma_ranked_before_total(a: Match, b: Match)
    ensures
        ranked_before(a, b) || ranked_before(b, a),
        ranked_before(a, b) && ranked_before(b, a) ==> a == b,
        ranked_before(a, a),
{
    law_text_order(a.1, b.1);
    law_text_order(a.1, a.1);
}

/// Matches can be offered in one order only.
pub proof fn law_one_order(a: Seq<Match>, b: Seq<Match>)
    requires
        ranked(a),
        ranked(b),
        a.to_multiset() == b.to_multiset(),
    ensures
        a == b,
    decreases a.len(),
{
    broadcast use vstd::seq_lib::group_to_multiset_ensures;

    a.to_multiset_ensures();
    b.to_multiset_ensures();
    assert(a.len() == b.len());
    if a.len() > 0 {
        // Each first element stands in the other sequence, so each stands before the other.
        assert(a.contains(a[0]));
        assert(b.contains(b[0]));
        assert(b.to_multiset().count(a[0]) > 0);
        assert(a.to_multiset().count(b[0]) > 0);
        assert(b.contains(a[0]));
        assert(a.contains(b[0]));
        let i = choose|i: int| 0 <= i < b.len() && b[i] == a[0];
        let j = choose|j: int| 0 <= j < a.len() && a[j] == b[0];
        lemma_ranked_before_total(a[0], b[0]);
        assert(ranked_before(b[0], a[0])) by {
            if i == 0 {
                lemma_ranked_before_total(a[0], a[0]);
            } else {
                assert(ranked_before(b[0], b[i]));
            }
        }
        assert(ranked_before(a[0], b[0])) by {
            if j == 0 {
                lemma_ranked_before_total(b[0], b[0]);
            } else {
                assert(ranked_before(a[0], a[j]));
            }
        }
        let x = a.remove(0);
        let y = b.remove(0);
        assert(x.to_multiset() == y.to_multiset());
        assert forall|p: int, q: int| 0 <= p < q < x.len() implies ranked_before(
            #[trigger] x[p],
            #[trigger] x[q],
        ) by {
            assert(ranked_before(a[p + 1], a[q + 1]));
        }
        assert forall|p: int, q: int| 0 <= p < q < y.len() implies ranked_before(
            #[trigger] y[p],
            #[trigger] y[q],
        ) by {
            assert(ranked_before(b[p + 1], b[q + 1]));
        }
        law_one_order(x, y);
        assert(a =~= seq![a[0]] + x);
        assert(b =~= seq![b[0]] + y);
    } else {
        assert(a =~= b);
    }
}

pub open spec fn match_views(v: Seq<(u32, String)>) -> Seq<Match> {
    v.map_values(|m: (u32, String)| (m.0, m.1@))
}

/// The best matches of a query so far.
#[derive(Debug)]
pub struct BestMatchesList {
    max_count: usize,
    entries: Vec<(u32, String)>,
}

impl BestMatchesList {
    pub closed spec fn max(&self) -> nat {
        self.max_count as nat
    }

    /// No match yet; at most `max_count` are kept.
    pub fn new(max_count: usize) -> (r: BestMatchesList)
        ensures
            r.max() == max_count,
            r@ == Seq::<Match>::empty(),
    {
        let r: BestMatchesList = BestMatchesList { max_count, entries: Vec::new() };
        assert(r@ =~= Seq::<Match>::empty());
        r
    }

    /// How many matches are kept.
    pub fn len(&self) -> (n: usize)
        ensures
            n == self@.len(),
    {
        self.entries.len()
    }

    fn worst_index(&self) -> (w: usize)
        requires
            self@.len() > 0,
        ensures
            w == worst(self@, self@.len() as int),
            w < self@.len(),
    {
        let mut w: usize = 0;
        let mut i: usize = 1;
        while i < self.entries.len()
            invariant
                1 <= i <= self.entries@.len(),
                w < i,
                w == worst(self@, i as int),
            decreases self.entries@.len() - i,
        {
            let a: u32 = self.entries[i].0;
            let b: u32 = self.entries[w].0;
            assert(self@[i as int] == (a, self.entries@[i as int].1@));
            assert(self@[w as int] == (b, self.entries@[w as int].1@));
            if a < b || (a == b && is_before(
                self.entries[i].1.as_str(),
                self.entries[w].1.as_str(),
            )) {
                w = i;
            }
            i += 1;
        }
        w
    }

    /// Takes a path in, with what the matcher gave for it.
    pub fn insert(&mut self, score: Option<u32>, path: &str)
        ensures
            final(self)@ == keep_best(old(self)@, score, path@, old(self).max()),
            final(self).max() == old(self).max(),
    {
        let ghost before = self.entries@;
        match score {
            None => {},
            Some(found) => {
                if self.entries.len() < self.max_count {
                    self.entries.push((found, path.to_owned()));
                    assert(self@ =~= match_views(before).push((found, path@)));
                } else if self.entries.len() > 0 {
                    let w: usize = self.worst_index();
                    assert(self@[w as int].0 == self.entries@[w as int].0);
                    if found > self.entries[w].0 {
                        let _gone: (u32, String) = self.entries.remove(w);
                        self.entries.push((found, path.to_owned()));
                        assert(self@ =~= match_views(before).remove(w as int).push((found, path@)));
                    }
                }
            },
        }
    }

    /// The paths of the matches in the order in which they are offered.
    pub fn get_sorted_matches(self) -> (r: Vec<String>)
        ensures
            offers(texts(r@), self@),
    {
        let mut rest: Vec<(u32, String)> = self.entries;
        let mut r: Vec<String> = Vec::new();
        let ghost mut order: Seq<Match> = Seq::empty();
        proof {
            assert(texts(r@) =~= paths(order));
            assert(match_views(rest@) == self@);
            order.to_multiset_ensures();
            assert(order.to_multiset().len() == 0);
            assert(order.to_multiset() =~= Multiset::empty());
            assert(order.to_multiset().add(match_views(rest@).to_multiset())
                =~= self@.to_multiset());
        }
        while rest.len() > 0
            invariant
                ranked(order),
                texts(r@) == paths(order),
                order.to_multiset().add(match_views(rest@).to_multiset()) == self@.to_multiset(),
                forall|i: int, j: int|
                    0 <= i < order.len() && 0 <= j < rest@.len() ==> ranked_before(
                        #[trigger] order[i],
                        #[trigger] match_views(rest@)[j],
                    ),
            decreases rest@.len(),
        {
            let b: usize = best_index(&rest);
            let ghost before = rest@;
            let (found, path): (u32, String) = rest.remove(b);
            let ghost m: Match = (found, path@);
            let ghost old_texts = texts(r@);
            r.push(path);
            proof {
                crate::text::lemma_texts_push(r@.drop_last(), path);
                assert(r@.drop_last().push(path) =~= r@);
                assert(match_views(before)[b as int] == m);
                assert(match_views(rest@) =~= match_views(before).remove(b as int));
                let next = order.push(m);
                broadcast use vstd::seq_lib::group_to_multiset_ensures;

                match_views(before).to_multiset_ensures();
                order.to_multiset_ensures();
                assert(match_views(before).contains(m));
                assert(next.to_multiset() =~= order.to_multiset().insert(m));
                assert(match_views(rest@).to_multiset() =~= match_views(before).to_multiset().remove(
                    m,
                ));
                assert(next.to_multiset().add(match_views(rest@).to_multiset())
                    =~= order.to_multiset().add(match_views(before).to_multiset()));
                assert(paths(next) =~= paths(order).push(m.1));
                assert forall|i: int, j: int|
                    0 <= i < next.len() && 0 <= j < rest@.len() implies ranked_before(
                    #[trigger] next[i],
                    #[trigger] match_views(rest@)[j],
                ) by {
                    let k = if j < b {
                        j
                    } else {
                        j + 1
                    };
                    assert(match_views(rest@)[j] == match_views(before)[k]);
                    if i < order.len() {
                        assert(next[i] == order[i]);
                    }
                }
                assert forall|i: int, j: int| 0 <= i < j < next.len() implies ranked_before(
                    #[trigger] next[i],
                    #[trigger] next[j],
                ) by {
                    if j == order.len() {
                        assert(ranked_before(order[i], match_views(before)[b as int]));
                    }
                }
                order = next;
            }
        }
        proof {
            assert(match_views(rest@) =~= Seq::<Match>::empty());
            assert(order.to_multiset() =~= self@.to_multiset());
        }
        r
    }
}

impl View for BestMatchesList {
    type V = Seq<Match>;

    closed spec fn view(&self) -> Seq<Match> {
        match_views(self.entries@)
    }
}

fn best_index(v: &Vec<(u32, String)>) -> (b: usize)
    requires
        v@.len() > 0,
    ensures
        b < v@.len(),
        forall|j: int|
            0 <= j < v@.len() ==> ranked_before(
                match_views(v@)[b as int],
                #[trigger] match_views(v@)[j],
            ),
{
    let mut b: usize = 0;
    let mut i: usize = 1;
    proof {
        lemma_ranked_before_total(match_views(v@)[0], match_views(v@)[0]);
    }
    while i < v.len()
        invariant
            1 <= i <= v@.len(),
            b < i,
            forall|j: int|
                0 <= j < i ==> ranked_before(
                    match_views(v@)[b as int],
                    #[trigger] match_views(v@)[j],
                ),
        decreases v@.len() - i,
    {
        let x: u32 = v[i].0;
        let y: u32 = v[b].0;
        let ghost m = match_views(v@);
        assert(m[i as int] == (x, v@[i as int].1@));
        assert(m[b as int] == (y, v@[b as int].1@));
        proof {
            lemma_ranked_before_total(m[i as int], m[b as int]);
            lemma_ranked_before_total(m[i as int], m[i as int]);
            law_text_order(m[i as int].1, m[b as int].1);
        }
        if x > y || (x == y && is_before(v[i].1.as_str(), v[b].1.as_str())) {
            assert forall|j: int| 0 <= j < i + 1 implies ranked_before(
                m[i as int],
                #[trigger] m[j],
            ) by {
                if j < i {
                    lemma_ranked_before_trans(m[i as int], m[b as int], m[j]);
                }
            }
            b = i;
        } else {
            assert(ranked_before(m[b as int], m[i as int]));
        }
        i += 1;
    }
    b
}

/// The best matches of a query among the files from the `i`-th on, after those kept before them. A
/// search that has looked at many files stops as soon as it has found enough.
pub open spec fn best_from(
    query: Seq<char>,
    files: Seq<Seq<char>>,
    i: int,
    kept: Seq<Match>,
) -> Seq<Match>
    decreases files.len() - i,
{
    if i < 0 || i >= files.len() {
        kept
    } else {
        let next = keep_best(kept, match_score(query, files[i]), files[i], MAX_MATCHES as nat);
        if i + 1 > ENOUGH_FILES && next.len() >= MAX_MATCHES {
            next
        } else {
            best_from(query, files, i + 1, next)
        }
    }
}

/// Whether the texts are what a search for the query offers.
pub open spec fn search_offers(
    files: Seq<Seq<char>>,
    query: Seq<char>,
    found: Seq<Seq<char>>,
) -> bool {
    if query.len() == 0 {
        found == files.take(if files.len() < MAX_MATCHES {
            files.len() as int
        } else {
            MAX_MATCHES as int
        })
    } else {
        offers(found, best_from(query, files, 0, Seq::empty()))
    }
}

// ----- waiting -----

/// Lets a text be searched for again only after a while.
#[derive(Debug)]
pub struct DebouncedFilter {
    last_query: String,
    last_update: u64,
    debounce_ms: u64,
}

/// What a filter remembers.
pub struct DebouncedView {
    pub last_query: Seq<char>,
    pub last_update: u64,
    pub debounce_ms: u64,
}

impl View for DebouncedFilter {
    type V = DebouncedView;

    closed spec fn view(&self) -> DebouncedView {
        DebouncedView {
            last_query: self.last_query@,
            last_update: self.last_update,
            debounce_ms: self.debounce_ms,
        }
    }
}

impl DebouncedFilter {
    /// A filter that has seen the empty text now.
    pub fn new(debounce_ms: u64, now: u64) -> (r: DebouncedFilter)
        ensures
            r@ == (DebouncedView { last_query: Seq::empty(), last_update: now, debounce_ms }),
    {
        let last_query: String = String::new();
        assert(last_query@ =~= Seq::<char>::empty());
        DebouncedFilter { last_query, last_update: now, debounce_ms }
    }

    /// Whether to search for the text now: where it is another one than before, or enough time has
    /// gone by.
    pub fn should_filter(&mut self, query: &str, now: u64) -> (r: bool)
        ensures
            r == (query@ != old(self)@.last_query || now - old(self)@.last_update > old(
                self,
            )@.debounce_ms),
            final(self)@ == (if r {
                DebouncedView { last_query: query@, last_update: now, ..old(self)@ }
            } else {
                old(self)@
            }),
    {
        let update: bool = !same_text(query, self.last_query.as_str()) || (now > self.last_update
            && now - self.last_update > self.debounce_ms);
        if update {
            self.last_query = query.to_owned();
            self.last_update = now;
        }
        update
    }
}

/// A text that was just searched for is not searched for again at once.
pub proof fn law_debounce(d: DebouncedView, query: Seq<char>, now: u64, later: u64)
    requires
        d.last_query == query,
        d.last_update == now,
        later - now <= d.debounce_ms,
    ensures
        !(query != d.last_query || later - d.last_update > d.debounce_ms),
{
}

// ----- the search -----

/// The files that can be completed, and those that match what is typed.
#[derive(Debug)]
pub struct FileSearch {
    pub file_suggestions: Vec<String>,
    pub filtered_files: Vec<String>,
    pub is_file_mode: bool,
    /// `@`, or nothing for the tab key.
    pub trigger_char: Option<char>,
    pub debounced_filter: DebouncedFilter,
    /// The directory whose files are known.
    pub last_directory: Option<String>,
}

impl FileSearch {
    /// The directory whose files are known.
    pub open spec fn directory(&self) -> Option<Seq<char>> {
        crate::models::text_of(self.last_directory)
    }

    /// No file is known yet.
    pub fn new(now: u64) -> (r: FileSearch)
        ensures
            r.file_suggestions@.len() == 0,
            r.filtered_files@.len() == 0,
            !r.is_file_mode,
            r.trigger_char is None,
            r.debounced_filter@ == (DebouncedView {
                last_query: Seq::empty(),
                last_update: now,
                debounce_ms: DEBOUNCE_MS,
            }),
            r.directory() is None,
    {
        FileSearch {
            file_suggestions: Vec::new(),
            filtered_files: Vec::new(),
            is_file_mode: false,
            trigger_char: None,
            debounced_filter: DebouncedFilter::new(DEBOUNCE_MS, now),
            last_directory: None,
        }
    }

    /// Whether the directory has to be read: it is another one, or no file is known.
    pub fn needs_scan(&self, dir: &str) -> (r: bool)
        ensures
            r == (self.directory() != Some(dir@) || self.file_suggestions@.len() == 0),
    {
        let known: bool = match &self.last_directory {
            Some(d) => same_text(d.as_str(), dir),
            None => false,
        };
        !known || self.file_suggestions.len() == 0
    }

    /// Takes over what the directory holds.
    pub fn scanned(&mut self, dir: &str, entries: Vec<String>)
        ensures
            final(self).directory() == Some(dir@),
            final(self).file_suggestions == entries,
            final(self).filtered_files == old(self).filtered_files,
            final(self).is_file_mode == old(self).is_file_mode,
            final(self).trigger_char == old(self).trigger_char,
            final(self).debounced_filter == old(self).debounced_filter,
    {
        self.file_suggestions = entries;
        self.last_directory = Some(dir.to_owned());
    }

    /// Filters the files by the word that is typed: those that match best, the best first. Where the
    /// word is empty, the first files are offered.
    pub fn filter_files(&mut self, current_word: &str, now: u64)
        requires
            files_fit(current_word@, texts(old(self).file_suggestions@)),
        ensures
            final(self).file_suggestions@ == old(self).file_suggestions@,
            final(self).is_file_mode == old(self).is_file_mode,
            final(self).trigger_char == old(self).trigger_char,
            final(self).directory() == old(self).directory(),
            filtered(*old(self), *final(self), current_word@, now),
    {
        if !self.debounced_filter.should_filter(current_word, now) {
            return;
        }
        let ghost all = texts(self.file_suggestions@);
        let n: usize = chars_of(current_word).len();
        if n == 0 {
            let mut found: Vec<String> = Vec::new();
            let mut i: usize = 0;
            assert(texts(found@) =~= all.take(0));
            while i < self.file_suggestions.len() && i < MAX_MATCHES
                invariant
                    i <= self.file_suggestions@.len(),
                    i <= MAX_MATCHES,
                    all == texts(self.file_suggestions@),
                    texts(found@) == all.take(i as int),
                decreases self.file_suggestions@.len() - i,
            {
                let path: String = self.file_suggestions[i].clone();
                proof {
                    crate::text::lemma_texts_push(found@, path);
                    assert(all.take(i + 1) =~= all.take(i as int).push(all[i as int]));
                }
                found.push(path);
                i += 1;
            }
            self.filtered_files = found;
            return;
        }
        let mut matcher: nucleo_matcher::Matcher = new_matcher();
        let mut best: BestMatchesList = BestMatchesList::new(MAX_MATCHES);
        let mut i: usize = 0;
        while i < self.file_suggestions.len()
            invariant_except_break
                best_from(current_word@, all, 0, Seq::empty()) == best_from(
                    current_word@,
                    all,
                    i as int,
                    best@,
                ),
            invariant
                i <= self.file_suggestions@.len(),
                all == texts(self.file_suggestions@),
                best.max() == MAX_MATCHES,
                n == current_word@.len(),
                n > 0,
                files_fit(current_word@, all),
            ensures
                best@ == best_from(current_word@, all, 0, Seq::empty()),
            decreases self.file_suggestions@.len() - i,
        {
            let path: &str = self.file_suggestions[i].as_str();
            assert(all[i as int] == path@);
            let found: Option<u32> = score_of(current_word, path, &mut matcher);
            best.insert(found, path);
            i += 1;
            if i > ENOUGH_FILES && best.len() >= MAX_MATCHES {
                break;
            }
        }
        self.filtered_files = best.get_sorted_matches();
    }

    /// The files that match.
    pub fn get_filtered_files(&self) -> (r: &Vec<String>)
        ensures
            *r == self.filtered_files,
    {
        &self.filtered_files
    }

    /// The file with the given index, where there is one.
    pub fn get_file_at_index(&self, index: usize) -> (r: Option<&str>)
        ensures
            r is Some <==> index < self.filtered_files@.len(),
            r is Some ==> r->0@ == self.filtered_files@[index as int]@,
    {
        if index < self.filtered_files.len() {
            Some(self.filtered_files[index].as_str())
        } else {
            None
        }
    }

    /// How many files match.
    pub fn filtered_count(&self) -> (n: usize)
        ensures
            n == self.filtered_files@.len(),
    {
        self.filtered_files.len()
    }

    /// Ends the search. The files stay known.
    pub fn reset(&mut self)
        ensures
            is_reset(*old(self), *final(self)),
    {
        self.filtered_files.clear();
        self.is_file_mode = false;
        self.trigger_char = None;
    }

    /// Whether files are searched for.
    pub fn is_active(&self) -> (r: bool)
        ensures
            r == self.is_file_mode,
    {
        self.is_file_mode
    }

    /// Forgets the files.
    pub fn clear_caches(&mut self)
        ensures
            final(self).file_suggestions@.len() == 0,
            final(self).directory() is None,
            final(self).filtered_files == old(self).filtered_files,
            final(self).is_file_mode == old(self).is_file_mode,
            final(self).trigger_char == old(self).trigger_char,
            final(self).debounced_filter == old(self).debounced_filter,
    {
        self.file_suggestions.clear();
        self.last_directory = None;
    }

    /// Takes over what the directory holds now, whatever was known before.
    pub fn force_reload_files(&mut self, dir: &str, entries: Vec<String>)
        ensures
            final(self).directory() == Some(dir@),
            final(self).file_suggestions == entries,
            final(self).filtered_files == old(self).filtered_files,
            final(self).is_file_mode == old(self).is_file_mode,
            final(self).trigger_char == old(self).trigger_char,
            final(self).debounced_filter == old(self).debounced_filter,
    {
        self.clear_caches();
        self.scanned(dir, entries);
    }
}

/// The files that match after filtering: those of a search, unless it is too early for one.
pub open spec fn filtered(pre: FileSearch, post: FileSearch, word: Seq<char>, now: u64) -> bool {
    let d = pre.debounced_filter@;
    if word != d.last_query || now - d.last_update > d.debounce_ms {
        &&& post.debounced_filter@ == (DebouncedView { last_query: word, last_update: now, ..d })
        &&& search_offers(texts(pre.file_suggestions@), word, texts(post.filtered_files@))
    } else {
        &&& post.debounced_filter@ == d
        &&& post.filtered_files@ == pre.filtered_files@
    }
}

/// The search after it was ended.
pub open spec fn is_reset(pre: FileSearch, post: FileSearch) -> bool {
    &&& post.filtered_files@.len() == 0
    &&& !post.is_file_mode
    &&& post.trigger_char is None
    &&& post.file_suggestions == pre.file_suggestions
    &&& post.debounced_filter == pre.debounced_filter
    &&& post.directory() == pre.directory()
}

/// How a directory entry is written: a directory ends in a slash.
pub fn entry_text(path: &str, is_dir: bool) -> (r: String)
    ensures
        r@ == (if is_dir {
            path@.push('/')
        } else {
            path@
        }),
{
    let mut r: String = path.to_owned();
    if is_dir {
        r.push('/');
    }
    r
}

// ----- what is typed -----

/// Whether the character at `k` starts a file name: it is an `@` at the start or behind white space,
/// and no white space follows it.
pub open spec fn at_trigger(s: Seq<char>, k: int) -> bool {
    &&& 0 <= k < s.len()
    &&& s[k] == '@'
    &&& k == 0 || is_space(s[k - 1])
    &&& !(k + 1 < s.len() && is_space(s[k + 1]))
}

/// The last such character before `n`.
pub open spec fn last_trigger(s: Seq<char>, n: int) -> Option<int>
    decreases n,
{
    if n <= 0 {
        None
    } else if at_trigger(s, n - 1) {
        Some(n - 1)
    } else {
        last_trigger(s, n - 1)
    }
}

/// The byte offset, or the end where it lies behind the text.
pub open spec fn safe_pos(s: Seq<char>, cursor: int) -> int {
    if cursor > utf8_len(s) {
        utf8_len(s) as int
    } else {
        cursor
    }
}

/// The text in front of a byte offset.
pub open spec fn before_byte(s: Seq<char>, b: int) -> Seq<char> {
    crate::textarea::split_at_byte(s, safe_pos(s, b)).0
}

/// The text in front of the cursor, as characters.
pub fn before_cursor(input: &str, cursor_pos: usize) -> (r: Vec<char>)
    requires
        boundary(input@, safe_pos(input@, cursor_pos as int)),
    ensures
        r@ == before_byte(input@, cursor_pos as int),
        r@ == input@.take(r@.len() as int),
        r@.len() <= input@.len(),
{
    let len: usize = byte_len(input);
    let pos: usize = if cursor_pos > len {
        len
    } else {
        cursor_pos
    };
    let v: Vec<char> = chars_of(input);
    match index_at(input, pos) {
        Some(n) => {
            let mut r: Vec<char> = Vec::new();
            let mut i: usize = 0;
            assert(r@ =~= v@.take(0));
            while i < n
                invariant
                    i <= n <= v@.len(),
                    r@ == v@.take(i as int),
                decreases n - i,
            {
                r.push(v[i]);
                i += 1;
                assert(r@ =~= v@.take(i as int));
            }
            proof {
                let k = choose|k: int|
                    0 <= k <= input@.len() && #[trigger] byte_of(input@, k) == pos;
                crate::textarea::lemma_byte_of_inj(input@, n as int, k);
            }
            r
        },
        None => v,
    }
}

/// The byte offset of the last `@` before the cursor that starts a file name.
pub fn find_at_trigger(input: &str, cursor_pos: usize) -> (r: Option<usize>)
    requires
        boundary(input@, safe_pos(input@, cursor_pos as int)),
    ensures
        match last_trigger(
            before_byte(input@, cursor_pos as int),
            before_byte(input@, cursor_pos as int).len() as int,
        ) {
            Some(k) => r == Some(byte_of(input@, k) as usize) && byte_of(input@, k) <= usize::MAX,
            None => r is None,
        },
{
    let s: Vec<char> = before_cursor(input, cursor_pos);
    match find_trigger(&s) {
        Some(k) => Some(byte_at(input, k)),
        None => None,
    }
}

/// Where the last character that starts a file name is.
pub fn find_trigger(s: &Vec<char>) -> (r: Option<usize>)
    ensures
        r is Some <==> last_trigger(s@, s@.len() as int) is Some,
        r is Some ==> last_trigger(s@, s@.len() as int) == Some(r->0 as int) && r->0 < s.len(),
{
    let mut n: usize = s.len();
    while n > 0
        invariant
            n <= s@.len(),
            last_trigger(s@, s@.len() as int) == last_trigger(s@, n as int),
        decreases n,
    {
        let k: usize = n - 1;
        if s[k] == '@' && (k == 0 || is_white(s[k - 1])) && !(n < s.len() && is_white(s[n])) {
            return Some(k);
        }
        n -= 1;
    }
    None
}

/// Where the word that ends at `n` starts: behind the last white space.
pub open spec fn word_start(s: Seq<char>, n: int) -> int
    decreases n,
{
    if n <= 0 || n > s.len() || is_space(s[n - 1]) {
        n
    } else {
        word_start(s, n - 1)
    }
}

/// Where the last word starts.
pub fn find_word_start(s: &Vec<char>) -> (n: usize)
    ensures
        n == word_start(s@, s@.len() as int),
        n <= s@.len(),
{
    let mut n: usize = s.len();
    while n > 0 && !is_white(s[n - 1])
        invariant
            n <= s@.len(),
            word_start(s@, s@.len() as int) == word_start(s@, n as int),
        decreases n,
    {
        n -= 1;
    }
    n
}

/// The word that is typed: what follows the `@`, or the last white space for the tab key.
pub open spec fn current_word(before: Seq<char>, trigger: Option<char>) -> Seq<char> {
    let n = before.len() as int;
    match trigger {
        Some(c) => if c == '@' {
            match last_trigger(before, n) {
                Some(k) => before.subrange(k + 1, n),
                None => Seq::empty(),
            }
        } else {
            Seq::empty()
        },
        None => before.subrange(word_start(before, n), n),
    }
}

/// The word that is typed in front of the cursor.
pub fn get_current_word(input: &str, cursor_pos: usize, trigger_char: Option<char>) -> (r: String)
    requires
        boundary(input@, safe_pos(input@, cursor_pos as int)),
    ensures
        r@ == current_word(before_byte(input@, cursor_pos as int), trigger_char),
{
    let s: Vec<char> = before_cursor(input, cursor_pos);
    match trigger_char {
        Some(c) => {
            if c == '@' {
                match find_trigger(&s) {
                    Some(k) => string_of(&s, k + 1, s.len()),
                    None => {
                        let r: String = String::new();
                        assert(r@ =~= Seq::<char>::empty());
                        r
                    },
                }
            } else {
                let r: String = String::new();
                assert(r@ =~= Seq::<char>::empty());
                r
            }
        },
        None => string_of(&s, find_word_start(&s), s.len()),
    }
}

/// Searches for the file name behind the last `@`. Whether files match.
pub fn handle_at_trigger(
    input: &str,
    cursor_pos: usize,
    file_search: &mut FileSearch,
    now: u64,
) -> (r: bool)
    requires
        boundary(input@, safe_pos(input@, cursor_pos as int)),
        files_fit(
            current_word(before_byte(input@, cursor_pos as int), Some('@')),
            texts(old(file_search).file_suggestions@),
        ),
    ensures
        filtered(
            *old(file_search),
            *final(file_search),
            current_word(before_byte(input@, cursor_pos as int), Some('@')),
            now,
        ),
        final(file_search).file_suggestions@ == old(file_search).file_suggestions@,
        final(file_search).is_file_mode == old(file_search).is_file_mode,
        final(file_search).trigger_char == old(file_search).trigger_char,
        final(file_search).directory() == old(file_search).directory(),
        r == (final(file_search).filtered_files@.len() > 0),
{
    let word: String = get_current_word(input, cursor_pos, Some('@'));
    file_search.filter_files(word.as_str(), now);
    file_search.filtered_files.len() > 0
}

// ----- slash commands -----

/// The commands whose name holds the text, whatever the case.
pub open spec fn helpers_with(helpers: Seq<HelperCommand>, text: Seq<char>) -> Seq<HelperCommand>
    decreases helpers.len(),
{
    if helpers.len() == 0 {
        Seq::empty()
    } else if holds_text(lower_text(helpers.last().command@), lower_text(text)) {
        helpers_with(helpers.drop_last(), text).push(helpers.last())
    } else {
        helpers_with(helpers.drop_last(), text)
    }
}

/// The commands that an input asks for: where it starts with a slash, those that hold the rest.
pub open spec fn asked_helpers(helpers: Seq<HelperCommand>, input: Seq<char>) -> Seq<
    HelperCommand,
> {
    if input.len() > 0 && input[0] == '/' {
        helpers_with(helpers, input.drop_first())
    } else {
        Seq::empty()
    }
}

/// The commands that an input asks for.
pub fn filter_helpers(helpers: &Vec<HelperCommand>, input: &str) -> (r: Vec<HelperCommand>)
    ensures
        r@ == asked_helpers(helpers@, input@),
{
    let v: Vec<char> = chars_of(input);
    let mut r: Vec<HelperCommand> = Vec::new();
    if v.len() == 0 || v[0] != '/' {
        assert(r@ =~= Seq::<HelperCommand>::empty());
        return r;
    }
    let rest: String = string_of(&v, 1, v.len());
    assert(rest@ =~= input@.drop_first());
    let wanted: String = rest.as_str().to_lowercase();
    let mut i: usize = 0;
    assert(helpers@.take(0) =~= Seq::<HelperCommand>::empty());
    while i < helpers.len()
        invariant
            i <= helpers@.len(),
            wanted@ == lower_text(rest@),
            r@ == helpers_with(helpers@.take(i as int), rest@),
        decreases helpers@.len() - i,
    {
        assert(helpers@.take(i + 1).drop_last() =~= helpers@.take(i as int));
        let name: String = helpers[i].command.as_str().to_lowercase();
        if contains(name.as_str(), wanted.as_str()) {
            r.push(helpers[i].clone());
        }
        i += 1;
    }
    assert(helpers@.take(i as int) =~= helpers@);
    r
}

/// Whether the matcher can count for each of the files that a request for completions searches.
pub open spec fn request_fits(f: FileSearch, input: Seq<char>, cursor: int) -> bool {
    let before = before_byte(input, cursor);
    last_trigger(before, before.len() as int) is Some ==> files_fit(
        current_word(before, Some('@')),
        texts(f.file_suggestions@),
    )
}

/// Whether the matcher can count for each of the files that a request for completions searches.
pub fn can_answer(file_search: &FileSearch, input: &str, cursor_position: usize) -> (r: bool)
    requires
        boundary(input@, safe_pos(input@, cursor_position as int)),
    ensures
        r == request_fits(*file_search, input@, cursor_position as int),
{
    if find_at_trigger(input, cursor_position).is_none() {
        return true;
    }
    let word: String = get_current_word(input, cursor_position, Some('@'));
    can_search(word.as_str(), &file_search.file_suggestions)
}

/// Answers one request for completions: the slash commands that the input asks for, and the files
/// that match the name behind the last `@`.
pub fn search_once(
    file_search: &mut FileSearch,
    helpers: &Vec<HelperCommand>,
    input: String,
    cursor_position: usize,
    now: u64,
) -> (r: FileSearchResult)
    requires
        boundary(input@, safe_pos(input@, cursor_position as int)),
        request_fits(*old(file_search), input@, cursor_position as int),
    ensures
        r.input == input,
        r.cursor_position == cursor_position,
        r.filtered_helpers@ == asked_helpers(helpers@, input@),
        final(file_search).file_suggestions@ == old(file_search).file_suggestions@,
        final(file_search).directory() == old(file_search).directory(),
        ({
            let before = before_byte(input@, cursor_position as int);
            if last_trigger(before, before.len() as int) is Some {
                &&& filtered(
                    *old(file_search),
                    *final(file_search),
                    current_word(before, Some('@')),
                    now,
                )
                &&& texts(r.filtered_files@) == texts(final(file_search).filtered_files@)
                &&& if final(file_search).filtered_files@.len() > 0 {
                    final(file_search).is_file_mode && final(file_search).trigger_char == Some('@')
                } else {
                    final(file_search).is_file_mode == old(file_search).is_file_mode
                        && final(file_search).trigger_char == old(file_search).trigger_char
                }
            } else {
                r.filtered_files@.len() == 0 && *final(file_search) == *old(file_search)
            }
        }),
{
    let filtered_helpers: Vec<HelperCommand> = filter_helpers(helpers, input.as_str());
    let mut filtered_files: Vec<String> = Vec::new();
    if find_at_trigger(input.as_str(), cursor_position).is_some() {
        if handle_at_trigger(input.as_str(), cursor_position, file_search, now) {
            file_search.is_file_mode = true;
            file_search.trigger_char = Some('@');
            filtered_files = file_search.filtered_files.clone();
            assert(filtered_files@ =~= file_search.filtered_files@);
        } else {
            assert(filtered_files@ =~= file_search.filtered_files@);
        }
    }
    FileSearchResult { filtered_helpers, filtered_files, cursor_position, input }
}

// ----- what holds of a search -----

proof fn lemma_worst(s: Seq<Match>, n: int)
    requires
        0 < n <= s.len(),
    ensures
        0 <= worst(s, n) < n,
        forall|k: int| 0 <= k < n ==> s[worst(s, n)].0 <= (#[trigger] s[k]).0,
    decreases n,
{
    if n > 1 {
        lemma_worst(s, n - 1);
    }
}

/// Whether the matches are the best of the first `i` files: each is one of these with its score, and
/// one that was left out is no better than any of them.
spec fn best_of(query: Seq<char>, files: Seq<Seq<char>>, i: int, kept: Seq<Match>) -> bool {
    &&& kept.len() <= MAX_MATCHES
    &&& forall|k: int|
        0 <= k < kept.len() ==> files.contains((#[trigger] kept[k]).1) && match_score(
            query,
            kept[k].1,
        ) == Some(kept[k].0)
    &&& forall|j: int|
        0 <= j < i && match_score(query, #[trigger] files[j]) is Some ==> left_out_rightly(
            query,
            files[j],
            kept,
        )
}

/// Whether the file is among the matches, or these are full and none of them is worse than it.
spec fn left_out_rightly(query: Seq<char>, file: Seq<char>, kept: Seq<Match>) -> bool {
    let score = match_score(query, file)->0;
    ||| exists|k: int| 0 <= k < kept.len() && (#[trigger] kept[k]).1 == file
    ||| kept.len() == MAX_MATCHES && forall|k: int|
        0 <= k < kept.len() ==> score <= (#[trigger] kept[k]).0
}

proof fn lemma_keep_best(query: Seq<char>, files: Seq<Seq<char>>, i: int, kept: Seq<Match>)
    requires
        0 <= i < files.len(),
        best_of(query, files, i, kept),
    ensures
        best_of(
            query,
            files,
            i + 1,
            keep_best(kept, match_score(query, files[i]), files[i], MAX_MATCHES as nat),
        ),
{
    let found = match_score(query, files[i]);
    let next = keep_best(kept, found, files[i], MAX_MATCHES as nat);
    match found {
        None => {},
        Some(score) => {
            if kept.len() < MAX_MATCHES {
                assert(next[kept.len() as int].1 == files[i]);
                assert forall|j: int|
                    0 <= j < i + 1 && match_score(
                        query,
                        #[trigger] files[j],
                    ) is Some implies left_out_rightly(query, files[j], next) by {
                    if j < i {
                        let k = choose|k: int|
                            0 <= k < kept.len() && (#[trigger] kept[k]).1 == files[j];
                        assert(next[k].1 == files[j]);
                    }
                }
            } else {
                let w = worst(kept, kept.len() as int);
                lemma_worst(kept, kept.len() as int);
                if score > kept[w].0 {
                    assert(next.last() == (score, files[i]));
                    assert(next[next.len() - 1].1 == files[i]);
                    assert forall|k: int| 0 <= k < next.len() implies (#[trigger] next[k]).0
                        >= kept[w].0 && files.contains(next[k].1) && match_score(query, next[k].1)
                        == Some(next[k].0) by {
                        if k < w {
                            assert(next[k] == kept[k]);
                        } else if k < next.len() - 1 {
                            assert(next[k] == kept[k + 1]);
                        }
                    }
                    assert forall|j: int|
                        0 <= j < i + 1 && match_score(
                            query,
                            #[trigger] files[j],
                        ) is Some implies left_out_rightly(query, files[j], next) by {
                        if j < i {
                            let sc = match_score(query, files[j])->0;
                            if exists|k: int| 0 <= k < kept.len() && (#[trigger] kept[k]).1
                                == files[j] {
                                let k = choose|k: int|
                                    0 <= k < kept.len() && (#[trigger] kept[k]).1 == files[j];
                                if k < w {
                                    assert(next[k].1 == files[j]);
                                } else if k > w {
                                    assert(next[k - 1].1 == files[j]);
                                }
                            } else {
                                assert(sc <= kept[w].0);
                            }
                        }
                    }
                } else {
                    assert(left_out_rightly(query, files[i], next));
                }
            }
        },
    }
}

proof fn lemma_best_from(query: Seq<char>, files: Seq<Seq<char>>, i: int, kept: Seq<Match>)
    requires
        0 <= i <= files.len(),
        best_of(query, files, i, kept),
    ensures
        best_of(
            query,
            files,
            if files.len() <= ENOUGH_FILES {
                files.len() as int
            } else {
                0
            },
            best_from(query, files, i, kept),
        ),
    decreases files.len() - i,
{
    if i < files.len() {
        lemma_keep_best(query, files, i, kept);
        let next = keep_best(kept, match_score(query, files[i]), files[i], MAX_MATCHES as nat);
        if !(i + 1 > ENOUGH_FILES && next.len() >= MAX_MATCHES) {
            lemma_best_from(query, files, i + 1, next);
        }
    }
}

/// A search offers at most fifty files, each of them one of the files that matches, the better ones
/// first. Among no more than five hundred files, one that matches and is not offered is no better
/// than any that is, and is left out only where fifty are offered. Without a text the first fifty
/// files are offered as they come.
pub proof fn law_search_offers_the_best(
    files: Seq<Seq<char>>,
    query: Seq<char>,
    found: Seq<Seq<char>>,
)
    requires
        search_offers(files, query, found),
    ensures
        found.len() <= 50,
        query.len() == 0 ==> {
            &&& found.len() == files.len() || found.len() == 50
            &&& found.len() <= files.len()
            &&& forall|i: int| 0 <= i < found.len() ==> #[trigger] found[i] == files[i]
        },
        query.len() > 0 ==> {
            &&& forall|i: int|
                0 <= i < found.len() ==> files.contains(#[trigger] found[i]) && match_score(
                    query,
                    found[i],
                ) is Some
            &&& forall|i: int, j: int|
                0 <= i < j < found.len() ==> match_score(query, #[trigger] found[i])->0
                    >= match_score(query, #[trigger] found[j])->0
            &&& files.len() <= 500 ==> forall|k: int|
                0 <= k < files.len() && match_score(query, #[trigger] files[k]) is Some
                    && !found.contains(files[k]) ==> {
                    &&& found.len() == 50
                    &&& forall|i: int|
                        0 <= i < found.len() ==> match_score(query, files[k])->0 <= match_score(
                            query,
                            #[trigger] found[i],
                        )->0
                }
        },
{
    if query.len() > 0 {
        let none = Seq::<Match>::empty();
        let best = best_from(query, files, 0, none);
        lemma_best_from(query, files, 0, none);
        let order = choose|order: Seq<Match>| #[trigger]
            ranked(order) && order.to_multiset() == best.to_multiset() && found == paths(order);
        broadcast use vstd::seq_lib::group_to_multiset_ensures;

        assert(order.len() == order.to_multiset().len() == best.len());
        assert forall|i: int| 0 <= i < order.len() implies best.contains(#[trigger] order[i]) by {
            assert(order.to_multiset().count(order[i]) > 0) by {
                assert(order.contains(order[i]));
            }
            assert(best.to_multiset().count(order[i]) > 0);
        }
        assert forall|i: int| 0 <= i < found.len() implies files.contains(#[trigger] found[i])
            && match_score(query, found[i]) == Some(order[i].0) by {
            assert(found[i] == order[i].1);
            let k = choose|k: int| 0 <= k < best.len() && best[k] == order[i];
            assert(files.contains(best[k].1));
        }
        if files.len() <= ENOUGH_FILES {
            assert forall|k: int|
                0 <= k < files.len() && match_score(query, #[trigger] files[k]) is Some
                    && !found.contains(files[k]) implies {
                &&& found.len() == 50
                &&& forall|i: int|
                    0 <= i < found.len() ==> match_score(query, files[k])->0 <= match_score(
                        query,
                        #[trigger] found[i],
                    )->0
            } by {
                assert(left_out_rightly(query, files[k], best));
                if exists|x: int| 0 <= x < best.len() && (#[trigger] best[x]).1 == files[k] {
                    let x = choose|x: int| 0 <= x < best.len() && (#[trigger] best[x]).1 == files[k];
                    assert(best.contains(best[x]));
                    assert(best.to_multiset().count(best[x]) > 0);
                    assert(order.contains(best[x]));
                    let y = choose|y: int| 0 <= y < order.len() && order[y] == best[x];
                    assert(found[y] == files[k]);
                }
                assert forall|i: int| 0 <= i < found.len() implies match_score(query, files[k])->0
                    <= match_score(query, #[trigger] found[i])->0 by {
                    let x = choose|x: int| 0 <= x < best.len() && best[x] == order[i];
                    assert(match_score(query, files[k])->0 <= best[x].0);
                }
            }
        }
    }
}

/// The word that is typed: behind the last `@` that starts a name it is all that follows; for the
/// tab key it is all behind the last white space.
pub proof fn law_current_word(before: Seq<char>, k: int)
    requires
        0 <= k < before.len(),
    ensures
        before[k] == '@' && (k == 0 || is_space(before[k - 1])) && (forall|i: int|
            k < i < before.len() ==> #[trigger] before[i] != '@' && !is_space(before[i]))
            ==> current_word(before, Some('@')) == before.skip(k + 1),
        is_space(before[k]) && (forall|i: int|
            k < i < before.len() ==> !is_space(#[trigger] before[i])) ==> current_word(before, None)
            == before.skip(k + 1),
        (forall|i: int| 0 <= i < before.len() ==> !is_space(#[trigger] before[i]))
            ==> current_word(before, None) == before,
        (forall|i: int| 0 <= i < before.len() ==> #[trigger] before[i] != '@') ==> current_word(
            before,
            Some('@'),
        ).len() == 0,
{
    let n = before.len() as int;
    if before[k] == '@' && (k == 0 || is_space(before[k - 1])) && (forall|i: int|
        k < i < before.len() ==> #[trigger] before[i] != '@' && !is_space(before[i])) {
        lemma_trigger_down(before, n, k);
        assert(before.subrange(k + 1, n) =~= before.skip(k + 1));
    }
    if forall|i: int| 0 <= i < before.len() ==> #[trigger] before[i] != '@' {
        lemma_no_trigger(before, n);
    }
    if is_space(before[k]) && (forall|i: int| k < i < before.len() ==> !is_space(
        #[trigger] before[i],
    )) {
        lemma_word_down(before, n, k + 1);
        assert(before.subrange(k + 1, n) =~= before.skip(k + 1));
    }
    if forall|i: int| 0 <= i < before.len() ==> !is_space(#[trigger] before[i]) {
        lemma_word_down(before, n, 0);
        assert(before.subrange(0, n) =~= before);
    }
}

proof fn lemma_trigger_down(s: Seq<char>, n: int, k: int)
    requires
        0 <= k < n <= s.len(),
        at_trigger(s, k),
        forall|i: int| k < i < s.len() ==> #[trigger] s[i] != '@',
    ensures
        last_trigger(s, n) == Some(k),
    decreases n,
{
    if n - 1 > k {
        assert(s[n - 1] != '@');
        lemma_trigger_down(s, n - 1, k);
    }
}

proof fn lemma_no_trigger(s: Seq<char>, n: int)
    requires
        n <= s.len(),
        forall|i: int| 0 <= i < s.len() ==> #[trigger] s[i] != '@',
    ensures
        last_trigger(s, n) is None,
    decreases n,
{
    if n > 0 {
        assert(s[n - 1] != '@');
        lemma_no_trigger(s, n - 1);
    }
}

proof fn lemma_word_down(s: Seq<char>, n: int, k: int)
    requires
        0 <= k <= n <= s.len(),
        k > 0 ==> is_space(s[k - 1]),
        forall|i: int| k <= i < s.len() ==> !is_space(#[trigger] s[i]),
    ensures
        word_start(s, n) == k,
    decreases n,
{
    if n > k {
        lemma_word_down(s, n - 1, k);
    }
}

/// The commands that hold a text, whatever the case: of two lists, those of the first and then those
/// of the second; a single command by its name alone.
pub proof fn law_helpers_with(
    a: Seq<HelperCommand>,
    b: Seq<HelperCommand>,
    h: HelperCommand,
    text: Seq<char>,
)
    ensures
        helpers_with(a + b, text) == helpers_with(a, text) + helpers_with(b, text),
        holds_text(lower_text(h.command@), lower_text(text)) ==> helpers_with(seq![h], text)
            == seq![h],
        !holds_text(lower_text(h.command@), lower_text(text)) ==> helpers_with(
            seq![h],
            text,
        ).len() == 0,
    decreases b.len(),
{
    assert(seq![h].drop_last() =~= Seq::<HelperCommand>::empty());
    assert(helpers_with(Seq::<HelperCommand>::empty(), text) =~= Seq::<HelperCommand>::empty());
    if b.len() == 0 {
        assert(a + b =~= a);
    } else {
        law_helpers_with(a, b.drop_last(), h, text);
        assert((a + b).drop_last() =~= a + b.drop_last());
        assert(helpers_with(a + b, text) =~= helpers_with(a, text) + helpers_with(b, text));
    }
}

/// The same text is not searched for again before the time is over; then, and for another text, it
/// is, and the time starts anew.
pub proof fn law_search_waits(pre: FileSearch, post: FileSearch, word: Seq<char>, now: u64)
    requires
        filtered(pre, post, word, now),
    ensures
        word == pre.debounced_filter@.last_query && now - pre.debounced_filter@.last_update
            <= pre.debounced_filter@.debounce_ms ==> post.filtered_files@ == pre.filtered_files@,
        word != pre.debounced_filter@.last_query || now - pre.debounced_filter@.last_update
            > pre.debounced_filter@.debounce_ms ==> {
            &&& search_offers(texts(pre.file_suggestions@), word, texts(post.filtered_files@))
            &&& post.debounced_filter@.last_query == word
            &&& post.debounced_filter@.last_update == now
        },
{
}

/// Commands are asked for by a slash alone: behind it stands what they hold, and without it there is
/// none.
pub proof fn law_asked_helpers(helpers: Seq<HelperCommand>, input: Seq<char>)
    ensures
        input.len() == 0 || input[0] != '/' ==> asked_helpers(helpers, input).len() == 0,
        input.len() > 0 && input[0] == '/' ==> asked_helpers(helpers, input) == helpers_with(
            helpers,
            input.skip(1),
        ),
{
    if input.len() > 0 {
        assert(input.skip(1) =~= input.drop_first());
    }
}

} // verus!
