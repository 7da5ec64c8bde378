//! Maps and sets keyed by text.

use vstd::prelude::*;
use crate::text::lemma_texts_push;
use crate::text::same_text;
use crate::text::texts;

verus! {

/// The map that a list of entries stands for: the first entry with a key counts.
pub open spec fn map_of<V>(entries: Seq<(String, V)>) -> Map<Seq<char>, V>
    decreases entries.len(),
{
    if entries.len() == 0 {
        Map::empty()
    } else {
        map_of(entries.drop_first()).insert(entries[0].0@, entries[0].1)
    }
}

proof fn lemma_map_of_has<V>(entries: Seq<(String, V)>, key: Seq<char>)
    ensures
        map_of(entries).contains_key(key) <==> exists|i: int|
            0 <= i < entries.len() && (#[trigger] entries[i]).0@ == key,
    decreases entries.len(),
{
    if entries.len() > 0 {
        let rest = entries.drop_first();
        lemma_map_of_has(rest, key);
        if map_of(rest).contains_key(key) {
            let j = choose|j: int| 0 <= j < rest.len() && (#[trigger] rest[j]).0@ == key;
            assert(entries[j + 1].0@ == key);
        }
        if exists|i: int| 0 <= i < entries.len() && (#[trigger] entries[i]).0@ == key {
            let i = choose|i: int| 0 <= i < entries.len() && (#[trigger] entries[i]).0@ == key;
            if i > 0 {
                assert(rest[i - 1].0@ == key);
            }
        }
    }
}

proof fn lemma_map_of_first<V>(entries: Seq<(String, V)>, i: int)
    requires
        0 <= i < entries.len(),
        forall|j: int| 0 <= j < i ==> (#[trigger] entries[j]).0@ != entries[i].0@,
    ensures
        map_of(entries).contains_key(entries[i].0@),
        map_of(entries)[entries[i].0@] == entries[i].1,
    decreases entries.len(),
{
    if i > 0 {
        let rest = entries.drop_first();
        assert(entries[0].0@ != entries[i].0@);
        assert forall|j: int| 0 <= j < i - 1 implies (#[trigger] rest[j]).0@ != rest[i - 1].0@ by {
            assert(entries[j + 1].0@ != entries[i].0@);
        }
        lemma_map_of_first(rest, i - 1);
    }
}

proof fn lemma_map_of_update<V>(entries: Seq<(String, V)>, i: int, key: String, v: V)
    requires
        0 <= i < entries.len(),
        key@ == entries[i].0@,
        forall|j: int| 0 <= j < i ==> (#[trigger] entries[j]).0@ != entries[i].0@,
    ensures
        map_of(entries.update(i, (key, v))) == map_of(entries).insert(entries[i].0@, v),
    decreases entries.len(),
{
    let new = entries.update(i, (key, v));
    if i == 0 {
        assert(new.drop_first() =~= entries.drop_first());
        assert(map_of(new) =~= map_of(entries).insert(entries[i].0@, v));
    } else {
        let rest = entries.drop_first();
        assert(entries[0].0@ != entries[i].0@);
        assert forall|j: int| 0 <= j < i - 1 implies (#[trigger] rest[j]).0@ != rest[i - 1].0@ by {
            assert(entries[j + 1].0@ != entries[i].0@);
        }
        lemma_map_of_update(rest, i - 1, key, v);
        assert(new.drop_first() =~= rest.update(i - 1, (key, v)));
        assert(map_of(new) =~= map_of(entries).insert(entries[i].0@, v));
    }
}

proof fn lemma_map_of_push<V>(entries: Seq<(String, V)>, key: String, v: V)
    requires
        forall|j: int| 0 <= j < entries.len() ==> (#[trigger] entries[j]).0@ != key@,
    ensures
        map_of(entries.push((key, v))) == map_of(entries).insert(key@, v),
    decreases entries.len(),
{
    let new = entries.push((key, v));
    if entries.len() == 0 {
        assert(new.drop_first() =~= entries);
        assert(map_of(new) =~= map_of(entries).insert(key@, v));
    } else {
        let rest = entries.drop_first();
        assert(entries[0].0@ != key@);
        assert forall|j: int| 0 <= j < rest.len() implies (#[trigger] rest[j]).0@ != key@ by {
            assert(entries[j + 1].0@ != key@);
        }
        lemma_map_of_push(rest, key, v);
        assert(new.drop_first() =~= rest.push((key, v)));
        assert(map_of(new) =~= map_of(entries).insert(key@, v));
    }
}

proof fn lemma_map_of_pairs<V>(
    a: Seq<(String, V)>,
    b: Seq<(String, V)>,
    related: spec_fn(V, V) -> bool,
)
    requires
        a.len() == b.len(),
        forall|i: int|
            0 <= i < a.len() ==> (#[trigger] a[i]).0@ == b[i].0@ && related(a[i].1, b[i].1),
    ensures
        map_of(b).dom() == map_of(a).dom(),
        forall|k: Seq<char>| #[trigger]
            map_of(a).contains_key(k) ==> related(map_of(a)[k], map_of(b)[k]),
    decreases a.len(),
{
    if a.len() > 0 {
        let x = a.drop_first();
        let y = b.drop_first();
        assert forall|i: int| 0 <= i < x.len() implies (#[trigger] x[i]).0@ == y[i].0@ && related(
            x[i].1,
            y[i].1,
        ) by {
            assert(a[i + 1].0@ == b[i + 1].0@);
        }
        lemma_map_of_pairs(x, y, related);
        assert(a[0].0@ == b[0].0@);
        assert(map_of(b).dom() =~= map_of(a).dom());
        assert forall|k: Seq<char>| #[trigger] map_of(a).contains_key(k) implies related(
            map_of(a)[k],
            map_of(b)[k],
        ) by {
            if k != a[0].0@ {
                assert(map_of(x).contains_key(k));
            }
        }
    } else {
        assert(map_of(b).dom() =~= map_of(a).dom());
    }
}

/// A map from texts to values.
#[derive(Debug)]
pub struct TextMap<V> {
    entries: Vec<(String, V)>,
}

impl<V> View for TextMap<V> {
    type V = Map<Seq<char>, V>;

    closed spec fn view(&self) -> Map<Seq<char>, V> {
        map_of(self.entries@)
    }
}

impl<V> TextMap<V> {
    /// The map without entries.
    pub fn new() -> (r: TextMap<V>)
        ensures
            r@ == Map::<Seq<char>, V>::empty(),
    {
        TextMap { entries: Vec::new() }
    }

    /// Whether there is no entry.
    pub fn is_empty(&self) -> (r: bool)
        ensures
            r == (self@ == Map::<Seq<char>, V>::empty()),
    {
        proof {
            if self.entries@.len() > 0 {
                lemma_map_of_first(self.entries@, 0);
            }
        }
        self.entries.len() == 0
    }

    /// Takes all entries out.
    pub fn clear(&mut self)
        ensures
            final(self)@ == Map::<Seq<char>, V>::empty(),
    {
        self.entries.clear();
    }

    /// The map with each value replaced by what `f` makes of it.
    pub fn copied<F: Fn(&V) -> V>(&self, f: F) -> (r: TextMap<V>)
        requires
            forall|v: &V| f.requires((v,)),
        ensures
            r@.dom() == self@.dom(),
            forall|k: Seq<char>| #[trigger]
                self@.contains_key(k) ==> f.ensures((&self@[k],), r@[k]),
    {
        let mut entries: Vec<(String, V)> = Vec::new();
        let mut i: usize = 0;
        while i < self.entries.len()
            invariant
                i <= self.entries@.len(),
                i == entries@.len(),
                forall|v: &V| f.requires((v,)),
                forall|j: int|
                    0 <= j < i ==> (#[trigger] self.entries@[j]).0@ == entries@[j].0@ && f.ensures(
                        (&self.entries@[j].1,),
                        entries@[j].1,
                    ),
            decreases self.entries@.len() - i,
        {
            let v: V = f(&self.entries[i].1);
            entries.push((self.entries[i].0.clone(), v));
            i += 1;
        }
        proof {
            lemma_map_of_pairs(self.entries@, entries@, |a: V, b: V| f.ensures((&a,), b));
        }
        TextMap { entries }
    }

    fn position(&self, key: &str) -> (r: Option<usize>)
        ensures
            match r {
                Some(i) => i < self.entries@.len() && self.entries@[i as int].0@ == key@ && forall|
                    j: int,
                | 0 <= j < i ==> (#[trigger] self.entries@[j]).0@ != key@,
                None => forall|j: int|
                    0 <= j < self.entries@.len() ==> (#[trigger] self.entries@[j]).0@ != key@,
            },
    {
        let mut i: usize = 0;
        while i < self.entries.len()
            invariant
                i <= self.entries@.len(),
                forall|j: int| 0 <= j < i ==> (#[trigger] self.entries@[j]).0@ != key@,
            decreases self.entries@.len() - i,
        {
            if same_text(self.entries[i].0.as_str(), key) {
                return Some(i);
            }
            i += 1;
        }
        None
    }

    /// The value of a key.
    pub fn get(&self, key: &str) -> (r: Option<&V>)
        ensures
            r is Some <==> self@.contains_key(key@),
            r is Some ==> *r->0 == self@[key@],
    {
        proof {
            lemma_map_of_has(self.entries@, key@);
        }
        match self.position(key) {
            Some(i) => {
                proof {
                    lemma_map_of_first(self.entries@, i as int);
                }
                Some(&self.entries[i].1)
            },
            None => None,
        }
    }

    /// Gives a key a value, in place of the one it had.
    pub fn insert(&mut self, key: String, value: V)
        ensures
            final(self)@ == old(self)@.insert(key@, value),
    {
        match self.position(key.as_str()) {
            Some(i) => {
                proof {
                    lemma_map_of_update(self.entries@, i as int, key, value);
                }
                self.entries.set(i, (key, value));
            },
            None => {
                proof {
                    lemma_map_of_push(self.entries@, key, value);
                }
                self.entries.push((key, value));
            },
        }
    }

    /// Takes a key out, where it is there.
    pub fn remove(&mut self, key: &str)
        ensures
            final(self)@ == old(self)@.remove(key@),
    {
        loop
            invariant
                self@.remove(key@) == old(self)@.remove(key@),
            decreases self.entries@.len(),
        {
            match self.position(key) {
                Some(i) => {
                    proof {
                        lemma_map_of_remove(self.entries@, i as int);
                    }
                    let _gone: (String, V) = self.entries.remove(i);
                },
                None => {
                    proof {
                        lemma_map_of_has(self.entries@, key@);
                        assert(self@.remove(key@) =~= self@);
                    }
                    return;
                },
            }
        }
    }
}

proof fn lemma_map_of_remove<V>(entries: Seq<(String, V)>, i: int)
    requires
        0 <= i < entries.len(),
    ensures
        map_of(entries.remove(i)).remove(entries[i].0@) == map_of(entries).remove(entries[i].0@),
    decreases entries.len(),
{
    let key = entries[i].0@;
    let new = entries.remove(i);
    if i == 0 {
        assert(new =~= entries.drop_first());
    } else {
        let rest = entries.drop_first();
        lemma_map_of_remove(rest, i - 1);
        assert(new.drop_first() =~= rest.remove(i - 1));
        assert(new[0] == entries[0]);
        let a = map_of(rest.remove(i - 1));
        let b = map_of(rest);
        assert(a.remove(key) == b.remove(key));
        let k0 = entries[0].0@;
        let v0 = entries[0].1;
        if k0 == key {
            assert(a.insert(k0, v0).remove(key) =~= a.remove(key));
            assert(b.insert(k0, v0).remove(key) =~= b.remove(key));
        } else {
            assert(a.insert(k0, v0).remove(key) =~= a.remove(key).insert(k0, v0));
            assert(b.insert(k0, v0).remove(key) =~= b.remove(key).insert(k0, v0));
        }
    }
    assert(map_of(new).remove(key) =~= map_of(entries).remove(key));
}

/// A set of texts.
#[derive(Debug)]
pub struct TextSet {
    items: Vec<String>,
}

impl View for TextSet {
    type V = Set<Seq<char>>;

    closed spec fn view(&self) -> Set<Seq<char>> {
        texts(self.items@).to_set()
    }
}

impl TextSet {
    #[verifier::type_invariant]
    spec fn distinct(&self) -> bool {
        texts(self.items@).no_duplicates()
    }

    /// The set without members.
    pub fn new() -> (r: TextSet)
        ensures
            r@ == Set::<Seq<char>>::empty(),
    {
        let items: Vec<String> = Vec::new();
        proof {
            assert(texts(items@) =~= Seq::<Seq<char>>::empty());
            assert(texts(items@).to_set() =~= Set::<Seq<char>>::empty());
        }
        TextSet { items }
    }

    fn position(items: &Vec<String>, text: &str) -> (r: Option<usize>)
        ensures
            match r {
                Some(i) => i < items@.len() && texts(items@)[i as int] == text@,
                None => !texts(items@).contains(text@),
            },
    {
        let mut i: usize = 0;
        while i < items.len()
            invariant
                i <= items@.len(),
                forall|j: int| 0 <= j < i ==> #[trigger] texts(items@)[j] != text@,
            decreases items@.len() - i,
        {
            assert(texts(items@)[i as int] == items@[i as int]@);
            if same_text(items[i].as_str(), text) {
                return Some(i);
            }
            i += 1;
        }
        None
    }

    /// Whether the text is a member.
    pub fn contains(&self, text: &str) -> (r: bool)
        ensures
            r == self@.contains(text@),
    {
        let r: Option<usize> = TextSet::position(&self.items, text);
        proof {
            if r is Some {
                assert(texts(self.items@).contains(text@));
            }
        }
        r.is_some()
    }

    /// How many members there are.
    pub fn len(&self) -> (n: usize)
        ensures
            self@.finite(),
            n == self@.len(),
    {
        proof {
            use_type_invariant(self);
            texts(self.items@).unique_seq_to_set();
        }
        self.items.len()
    }

    /// The members, each once.
    pub fn to_vec(&self) -> (r: Vec<String>)
        ensures
            texts(r@).to_set() == self@,
            texts(r@).no_duplicates(),
    {
        proof {
            use_type_invariant(self);
        }
        let r: Vec<String> = self.items.clone();
        assert(r@ =~= self.items@);
        r
    }

    /// Makes the text a member.
    pub fn insert(&mut self, text: String)
        ensures
            final(self)@ == old(self)@.insert(text@),
    {
        proof {
            use_type_invariant(&*self);
        }
        let ghost before = texts(self.items@);
        let mut items: Vec<String> = Vec::new();
        assert(texts(items@) =~= Seq::<Seq<char>>::empty());
        std::mem::swap(&mut items, &mut self.items);
        let at: Option<usize> = TextSet::position(&items, text.as_str());
        proof {
            lemma_texts_push(items@, text);
            let after = before.push(text@);
            assert(after.to_set() =~= before.to_set().insert(text@)) by {
                assert forall|x: Seq<char>|
                    after.contains(x) <==> (before.contains(x) || x == text@) by {
                    if before.contains(x) {
                        let j = choose|j: int| 0 <= j < before.len() && before[j] == x;
                        assert(after[j] == x);
                    }
                    assert(after[before.len() as int] == text@);
                    if after.contains(x) {
                        let j = choose|j: int| 0 <= j < after.len() && after[j] == x;
                        if j < before.len() {
                            assert(before[j] == x);
                        }
                    }
                }
            }
            if at is Some {
                assert(before.contains(text@));
                assert(before.to_set().insert(text@) =~= before.to_set());
            } else {
                assert(after.no_duplicates());
            }
        }
        if at.is_none() {
            items.push(text);
        }
        self.items = items;
    }

    /// Takes the text out, where it is a member.
    pub fn remove(&mut self, text: &str)
        ensures
            final(self)@ == old(self)@.remove(text@),
    {
        proof {
            use_type_invariant(&*self);
        }
        let ghost before = texts(self.items@);
        let mut items: Vec<String> = Vec::new();
        assert(texts(items@) =~= Seq::<Seq<char>>::empty());
        std::mem::swap(&mut items, &mut self.items);
        match TextSet::position(&items, text) {
            Some(i) => {
                let _gone: String = items.remove(i);
                proof {
                    let after = before.remove(i as int);
                    assert(texts(items@) =~= after);
                    assert(after.no_duplicates());
                    assert(after.to_set() =~= before.to_set().remove(text@)) by {
                        assert forall|x: Seq<char>|
                            after.contains(x) <==> (before.contains(x) && x != text@) by {
                            if after.contains(x) {
                                let j = choose|j: int| 0 <= j < after.len() && after[j] == x;
                                if j < i {
                                    assert(before[j] == x);
                                } else {
                                    assert(before[j + 1] == x);
                                }
                            }
                            if before.contains(x) && x != text@ {
                                let j = choose|j: int| 0 <= j < before.len() && before[j] == x;
                                if j < i {
                                    assert(after[j] == x);
                                } else {
                                    assert(after[j - 1] == x);
                                }
                            }
                        }
                    }
                }
            },
            None => {
                proof {
                    assert(before.to_set().remove(text@) =~= before.to_set());
                }
            },
        }
        self.items = items;
    }

    /// Takes all members out.
    pub fn clear(&mut self)
        ensures
            final(self)@ == Set::<Seq<char>>::empty(),
    {
        let items: Vec<String> = Vec::new();
        proof {
            assert(texts(items@) =~= Seq::<Seq<char>>::empty());
            assert(texts(items@).to_set() =~= Set::<Seq<char>>::empty());
        }
        self.items = items;
    }

    /// The set of the given texts.
    pub fn from_vec(v: Vec<String>) -> (r: TextSet)
        ensures
            r@ == texts(v@).to_set(),
    {
        let mut r: TextSet = TextSet::new();
        let mut i: usize = 0;
        let ghost all = texts(v@);
        assert(all.take(0).to_set() =~= Set::<Seq<char>>::empty());
        while i < v.len()
            invariant
                i <= v@.len(),
                all == texts(v@),
                r@ == all.take(i as int).to_set(),
            decreases v@.len() - i,
        {
            proof {
                let a = all.take(i as int);
                let b = all.take(i + 1);
                assert(b =~= a.push(all[i as int]));
                assert forall|x: Seq<char>|
                    b.contains(x) <==> (a.contains(x) || x == all[i as int]) by {
                    if a.contains(x) {
                        let j = choose|j: int| 0 <= j < a.len() && a[j] == x;
                        assert(b[j] == x);
                    }
                    assert(b[i as int] == all[i as int]);
                    if b.contains(x) {
                        let j = choose|j: int| 0 <= j < b.len() && b[j] == x;
                        if j < a.len() {
                            assert(a[j] == x);
                        }
                    }
                }
                assert(b.to_set() =~= a.to_set().insert(all[i as int]));
            }
            r.insert(v[i].clone());
            i += 1;
        }
        assert(all.take(i as int) =~= all);
        r
    }
}

} // verus!
