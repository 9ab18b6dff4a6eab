//! Instance metadata: a map from text keys to text values.

use vstd::prelude::*;
use crate::text::text_equal;

verus! {

/// The map that a list of entries stands for, later entries winning.
pub open spec fn entries_map(s: Seq<(Seq<char>, Seq<char>)>) -> Map<Seq<char>, Seq<char>>
    decreases s.len(),
{
    if s.len() == 0 {
        Map::empty()
    } else {
        entries_map(s.drop_last()).insert(s.last().0, s.last().1)
    }
}

/// Whether no two entries share a key.
pub open spec fn keys_unique(s: Seq<(Seq<char>, Seq<char>)>) -> bool {
    forall|i: int, j: int| 0 <= i < j < s.len() ==> #[trigger] s[i].0 != #[trigger] s[j].0
}

/// The views of a list of entries.
pub open spec fn entry_views(v: Seq<(String, String)>) -> Seq<(Seq<char>, Seq<char>)> {
    v.map_values(|e: (String, String)| (e.0@, e.1@))
}

/// A key is in the map exactly when some entry has it, and with unique keys
/// each entry's value is the map's value for its key.
pub proof fn lemma_entries_map(s: Seq<(Seq<char>, Seq<char>)>)
    ensures
        forall|k: Seq<char>|
            #[trigger] entries_map(s).contains_key(k) <==> exists|i: int|
                0 <= i < s.len() && (#[trigger] s[i]).0 == k,
        keys_unique(s) ==> forall|i: int|
            0 <= i < s.len() ==> entries_map(s)[(#[trigger] s[i]).0] == s[i].1,
    decreases s.len(),
{
    if s.len() > 0 {
        let p = s.drop_last();
        lemma_entries_map(p);
        assert forall|i: int| 0 <= i < p.len() implies #[trigger] p[i] == s[i] by {}
        assert forall|k: Seq<char>| #[trigger] entries_map(s).contains_key(k) implies exists|i: int|
            0 <= i < s.len() && (#[trigger] s[i]).0 == k by {
            if k == s.last().0 {
                assert(s[s.len() - 1].0 == k);
            } else {
                assert(entries_map(p).contains_key(k));
                let i = choose|i: int| 0 <= i < p.len() && (#[trigger] p[i]).0 == k;
                assert(s[i].0 == k);
            }
        }
        assert forall|k: Seq<char>|
            (exists|i: int| 0 <= i < s.len() && (#[trigger] s[i]).0 == k) implies #[trigger] entries_map(
            s,
        ).contains_key(k) by {
            let i = choose|i: int| 0 <= i < s.len() && (#[trigger] s[i]).0 == k;
            if i < p.len() {
                assert(p[i].0 == k);
                assert(entries_map(p).contains_key(k));
            } else {
                assert(k == s.last().0);
            }
        }
        if keys_unique(s) {
            assert(keys_unique(p)) by {
                assert forall|i: int, j: int| 0 <= i < j < p.len() implies #[trigger] p[i].0
                    != #[trigger] p[j].0 by {
                    assert(s[i].0 != s[j].0);
                }
            }
            assert forall|i: int| 0 <= i < s.len() implies entries_map(s)[(#[trigger] s[i]).0]
                == s[i].1 by {
                if i < p.len() {
                    assert(s[i].0 != s[s.len() - 1].0);
                    assert(p[i] == s[i]);
                }
            }
        }
    }
}

/// Whether text `a` comes before text `b` in code point order, as `String`'s
/// ordering (bytewise on UTF-8, which keeps code point order) ranks them.
pub open spec fn key_lt(a: Seq<char>, b: Seq<char>) -> bool
    decreases a.len(),
{
    if a.len() == 0 {
        b.len() > 0
    } else if b.len() == 0 {
        false
    } else if a[0] != b[0] {
        a[0] < b[0]
    } else {
        key_lt(a.drop_first(), b.drop_first())
    }
}

/// The order on keys is strict, transitive and total.
pub proof fn lemma_key_order(a: Seq<char>, b: Seq<char>, c: Seq<char>)
    ensures
        !key_lt(a, a),
        key_lt(a, b) ==> !key_lt(b, a),
        key_lt(a, b) && key_lt(b, c) ==> key_lt(a, c),
        a != b ==> key_lt(a, b) || key_lt(b, a),
    decreases a.len(),
{
    if a.len() > 0 {
        lemma_key_order(a.drop_first(), a.drop_first(), a.drop_first());
        if b.len() > 0 {
            lemma_key_order(a.drop_first(), b.drop_first(), b.drop_first());
            if c.len() > 0 {
                lemma_key_order(a.drop_first(), b.drop_first(), c.drop_first());
            }
            if a != b && a[0] == b[0] {
                assert(a.drop_first() != b.drop_first()) by {
                    if a.drop_first() == b.drop_first() {
                        assert(a =~= seq![a[0]] + a.drop_first());
                        assert(b =~= seq![b[0]] + b.drop_first());
                    }
                }
            }
        }
    } else {
        if b.len() == 0 {
            assert(a =~= b);
        }
    }
}

/// Whether the entries are in increasing key order.
pub open spec fn keys_sorted(s: Seq<(Seq<char>, Seq<char>)>) -> bool {
    forall|i: int, j: int| 0 <= i < j < s.len() ==> key_lt(#[trigger] s[i].0, #[trigger] s[j].0)
}

/// Whether text `a` comes before text `b`.
fn text_lt(a: &str, b: &str) -> (r: bool)
    ensures
        r == key_lt(a@, b@),
{
    let x = crate::text::chars_of(a);
    let y = crate::text::chars_of(b);
    let mut i: usize = 0;
    assert(a@.skip(0) =~= a@);
    assert(b@.skip(0) =~= b@);
    while i < x.len() && i < y.len() && x[i] == y[i]
        invariant
            i <= x@.len(),
            i <= y@.len(),
            x@ == a@,
            y@ == b@,
            key_lt(a@, b@) == key_lt(a@.skip(i as int), b@.skip(i as int)),
        decreases x@.len() - i,
    {
        proof {
            assert(a@.skip(i as int).drop_first() =~= a@.skip(i + 1));
            assert(b@.skip(i as int).drop_first() =~= b@.skip(i + 1));
        }
        i = i + 1;
    }
    if i == x.len() {
        i < y.len()
    } else if i == y.len() {
        false
    } else {
        x[i] < y[i]
    }
}

/// Metadata of an instance, as text keys mapped to text values, kept in
/// increasing key order.
#[derive(Debug)]
pub struct Metadata {
    entries: Vec<(String, String)>,
}

impl Metadata {
    #[verifier::type_invariant]
    spec fn keys_distinct(self) -> bool {
        &&& keys_unique(entry_views(self.entries@))
        &&& keys_sorted(entry_views(self.entries@))
    }
}

impl View for Metadata {
    type V = Map<Seq<char>, Seq<char>>;

    closed spec fn view(&self) -> Map<Seq<char>, Seq<char>> {
        entries_map(entry_views(self.entries@))
    }
}

impl Metadata {
    /// No metadata.
    pub fn new() -> (r: Metadata)
        ensures
            r@ == Map::<Seq<char>, Seq<char>>::empty(),
    {
        let entries: Vec<(String, String)> = Vec::new();
        assert(entry_views(entries@) =~= Seq::<(Seq<char>, Seq<char>)>::empty());
        Metadata { entries }
    }

    /// The index of the entry with key `key`, if any.
    fn position(&self, key: &str) -> (r: Option<usize>)
        ensures
            match r {
                Some(i) => i < self.entries@.len() && entry_views(self.entries@)[i as int].0
                    == key@,
                None => forall|i: int|
                    0 <= i < self.entries@.len() ==> (#[trigger] entry_views(self.entries@)[i]).0
                        != key@,
            },
    {
        let ghost views = entry_views(self.entries@);
        let mut i: usize = 0;
        while i < self.entries.len()
            invariant
                i <= self.entries@.len(),
                views == entry_views(self.entries@),
                forall|j: int| 0 <= j < i ==> (#[trigger] views[j]).0 != key@,
            decreases self.entries@.len() - i,
        {
            if text_equal(self.entries[i].0.as_str(), key) {
                assert(views[i as int].0 == key@);
                return Some(i);
            }
            i = i + 1;
        }
        None
    }

    /// Where an entry with `key` goes to keep the keys in order: after
    /// every key before it, at the first key that is not.
    fn insert_position(&self, key: &str) -> (r: usize)
        ensures
            r <= self.entries@.len(),
            forall|j: int| 0 <= j < r ==> key_lt((#[trigger] entry_views(self.entries@)[j]).0, key@),
            r < self.entries@.len() ==> !key_lt(entry_views(self.entries@)[r as int].0, key@),
    {
        let ghost views = entry_views(self.entries@);
        let mut i: usize = 0;
        while i < self.entries.len()
            invariant
                i <= self.entries@.len(),
                views == entry_views(self.entries@),
                forall|j: int| 0 <= j < i ==> key_lt((#[trigger] views[j]).0, key@),
            decreases self.entries@.len() - i,
        {
            if !text_lt(self.entries[i].0.as_str(), key) {
                assert(views[i as int].0 == self.entries@[i as int].0@);
                return i;
            }
            assert(views[i as int].0 == self.entries@[i as int].0@);
            i = i + 1;
        }
        i
    }

    /// The value of `key`, if any.
    pub fn get(&self, key: &str) -> (r: Option<&String>)
        ensures
            match r {
                Some(v) => self@.contains_key(key@) && self@[key@] == v@,
                None => !self@.contains_key(key@),
            },
    {
        proof {
            use_type_invariant(self);
            lemma_entries_map(entry_views(self.entries@));
        }
        match self.position(key) {
            Some(i) => {
                assert(entry_views(self.entries@)[i as int].0 == key@);
                Some(&self.entries[i].1)
            },
            None => None,
        }
    }

    /// Sets `key` to `value`.
    pub fn insert(&mut self, key: String, value: String)
        ensures
            final(self)@ == old(self)@.insert(key@, value@),
    {
        proof {
            use_type_invariant(&*self);
            lemma_entries_map(entry_views(self.entries@));
        }
        let ghost old_views = entry_views(self.entries@);
        let pos = self.position(key.as_str());
        let ghost k = key@;
        let ghost v = value@;
        match pos {
            Some(i) => {
                let mut entries: Vec<(String, String)> = Vec::new();
                std::mem::swap(&mut entries, &mut self.entries);
                entries.set(i, (key, value));
                let ghost new_views = entry_views(entries@);
                proof {
                    assert(new_views =~= old_views.update(i as int, (k, v)));
                    assert(keys_unique(new_views));
                    assert(keys_sorted(new_views)) by {
                        assert forall|a: int, b: int| 0 <= a < b < new_views.len() implies key_lt(
                            #[trigger] new_views[a].0,
                            #[trigger] new_views[b].0,
                        ) by {
                            assert(new_views[a].0 == old_views[a].0);
                            assert(new_views[b].0 == old_views[b].0);
                        }
                    }
                    lemma_entries_map(new_views);
                    assert(entries_map(new_views) =~= entries_map(old_views).insert(k, v)) by {
                        assert forall|x: Seq<char>| #[trigger]
                            entries_map(new_views).contains_key(x) implies entries_map(
                            old_views,
                        ).insert(k, v).contains_key(x) by {
                            let j = choose|j: int|
                                0 <= j < new_views.len() && (#[trigger] new_views[j]).0 == x;
                            if j != i {
                                assert(old_views[j].0 == x);
                            }
                        }
                        assert forall|x: Seq<char>| #[trigger]
                            entries_map(old_views).insert(k, v).contains_key(x) implies entries_map(
                            new_views,
                        ).contains_key(x) && entries_map(new_views)[x] == entries_map(
                            old_views,
                        ).insert(k, v)[x] by {
                            if x == k {
                                assert(new_views[i as int].0 == k);
                            } else {
                                let j = choose|j: int|
                                    0 <= j < old_views.len() && (#[trigger] old_views[j]).0 == x;
                                assert(new_views[j] == old_views[j]);
                            }
                        }
                    }
                }
                self.entries = entries;
            },
            None => {
                let p = self.insert_position(key.as_str());
                let mut entries: Vec<(String, String)> = Vec::new();
                std::mem::swap(&mut entries, &mut self.entries);
                entries.insert(p, (key, value));
                let ghost new_views = entry_views(entries@);
                proof {
                    assert(new_views =~= old_views.insert(p as int, (k, v)));
                    assert forall|j: int| p <= j < old_views.len() implies key_lt(
                        k,
                        #[trigger] old_views[j].0,
                    ) by {
                        lemma_key_order(k, old_views[p as int].0, old_views[j].0);
                        lemma_key_order(old_views[p as int].0, k, k);
                        if j > p {
                            assert(key_lt(old_views[p as int].0, old_views[j].0));
                        }
                    }
                    assert(keys_sorted(new_views)) by {
                        assert forall|a: int, b: int| 0 <= a < b < new_views.len() implies key_lt(
                            #[trigger] new_views[a].0,
                            #[trigger] new_views[b].0,
                        ) by {
                            if b < p {
                                assert(new_views[a] == old_views[a]);
                                assert(new_views[b] == old_views[b]);
                            } else if b == p {
                                assert(new_views[a] == old_views[a]);
                            } else if a < p {
                                assert(new_views[a] == old_views[a]);
                                assert(new_views[b] == old_views[b - 1]);
                                lemma_key_order(old_views[a].0, k, old_views[b - 1].0);
                            } else if a == p {
                                assert(new_views[b] == old_views[b - 1]);
                            } else {
                                assert(new_views[a] == old_views[a - 1]);
                                assert(new_views[b] == old_views[b - 1]);
                            }
                        }
                    }
                    assert(keys_unique(new_views)) by {
                        assert forall|a: int, b: int| 0 <= a < b < new_views.len() implies
                            #[trigger] new_views[a].0 != #[trigger] new_views[b].0 by {
                            lemma_key_order(new_views[a].0, new_views[b].0, new_views[b].0);
                        }
                    }
                    lemma_entries_map(new_views);
                    assert(entries_map(new_views) =~= entries_map(old_views).insert(k, v)) by {
                        assert forall|x: Seq<char>| #[trigger]
                            entries_map(new_views).contains_key(x) implies entries_map(
                            old_views,
                        ).insert(k, v).contains_key(x) by {
                            let j = choose|j: int|
                                0 <= j < new_views.len() && (#[trigger] new_views[j]).0 == x;
                            if j < p {
                                assert(old_views[j].0 == x);
                            } else if j > p {
                                assert(old_views[j - 1].0 == x);
                            }
                        }
                        assert forall|x: Seq<char>| #[trigger]
                            entries_map(old_views).insert(k, v).contains_key(x) implies entries_map(
                            new_views,
                        ).contains_key(x) && entries_map(new_views)[x] == entries_map(
                            old_views,
                        ).insert(k, v)[x] by {
                            if x == k {
                                assert(new_views[p as int].0 == k);
                            } else {
                                let j = choose|j: int|
                                    0 <= j < old_views.len() && (#[trigger] old_views[j]).0 == x;
                                if j < p {
                                    assert(new_views[j] == old_views[j]);
                                } else {
                                    assert(new_views[j + 1] == old_views[j]);
                                }
                            }
                        }
                    }
                }
                self.entries = entries;
            },
        }
    }

    /// Removes `key`, if present.
    pub fn remove(&mut self, key: &str)
        ensures
            final(self)@ == old(self)@.remove(key@),
    {
        proof {
            use_type_invariant(&*self);
            lemma_entries_map(entry_views(self.entries@));
        }
        let ghost old_views = entry_views(self.entries@);
        match self.position(key) {
            Some(i) => {
                let mut entries: Vec<(String, String)> = Vec::new();
                std::mem::swap(&mut entries, &mut self.entries);
                let _ = entries.remove(i);
                let ghost new_views = entry_views(entries@);
                proof {
                    assert(new_views =~= old_views.remove(i as int));
                    assert(keys_unique(new_views)) by {
                        assert forall|a: int, b: int| 0 <= a < b < new_views.len() implies
                            #[trigger] new_views[a].0 != #[trigger] new_views[b].0 by {
                            let a0 = if a < i { a } else { a + 1 };
                            let b0 = if b < i { b } else { b + 1 };
                            assert(new_views[a] == old_views[a0]);
                            assert(new_views[b] == old_views[b0]);
                            assert(old_views[a0].0 != old_views[b0].0);
                        }
                    }
                    lemma_entries_map(new_views);
                    assert(entries_map(new_views) =~= entries_map(old_views).remove(key@)) by {
                        assert forall|x: Seq<char>| #[trigger]
                            entries_map(new_views).contains_key(x) implies entries_map(
                            old_views,
                        ).remove(key@).contains_key(x) && entries_map(new_views)[x]
                            == entries_map(old_views)[x] by {
                            let j = choose|j: int|
                                0 <= j < new_views.len() && (#[trigger] new_views[j]).0 == x;
                            let j0 = if j < i { j } else { j + 1 };
                            assert(new_views[j] == old_views[j0]);
                            assert(old_views[j0].0 != old_views[i as int].0);
                        }
                        assert forall|x: Seq<char>| #[trigger]
                            entries_map(old_views).remove(key@).contains_key(x) implies entries_map(
                            new_views,
                        ).contains_key(x) by {
                            let j = choose|j: int|
                                0 <= j < old_views.len() && (#[trigger] old_views[j]).0 == x;
                            assert(j != i);
                            let j1 = if j < i { j } else { j - 1 };
                            assert(new_views[j1] == old_views[j]);
                        }
                    }
                }
                self.entries = entries;
            },
            None => {
                assert(!self@.contains_key(key@));
                assert(self@.remove(key@) =~= self@);
            },
        }
    }

    /// Whether this metadata and `other` map the same keys to the same
    /// values.
    pub fn same_as(&self, other: &Metadata) -> (r: bool)
        ensures
            r == (self@ == other@),
    {
        let a = self.contained_in(other);
        let b = other.contained_in(self);
        proof {
            if a && b {
                assert(self@ =~= other@);
            }
        }
        a && b
    }

    /// Whether every entry of this metadata is also in `other`.
    fn contained_in(&self, other: &Metadata) -> (r: bool)
        ensures
            r == (forall|k: Seq<char>| #[trigger] self@.contains_key(k) ==> other@.contains_key(k)
                && other@[k] == self@[k]),
    {
        proof {
            use_type_invariant(self);
            lemma_entries_map(entry_views(self.entries@));
        }
        let ghost views = entry_views(self.entries@);
        proof {
            assert forall|j: int| 0 <= j < views.len() implies self@.contains_key(
                (#[trigger] views[j]).0,
            ) by {
                assert(views[j].0 == views[j].0);
            }
        }
        let mut i: usize = 0;
        while i < self.entries.len()
            invariant
                i <= self.entries@.len(),
                views == entry_views(self.entries@),
                keys_unique(views),
                self@ == entries_map(views),
                forall|j: int| 0 <= j < views.len() ==> self@.contains_key((#[trigger] views[j]).0),
                forall|j: int| 0 <= j < views.len() ==> self@[(#[trigger] views[j]).0] == views[j].1,
                forall|j: int|
                    0 <= j < i ==> other@.contains_key((#[trigger] views[j]).0) && other@[views[j].0]
                        == views[j].1,
            decreases self.entries@.len() - i,
        {
            let k = self.entries[i].0.as_str();
            let v = self.entries[i].1.as_str();
            match other.get(k) {
                Some(w) => {
                    if !text_equal(w.as_str(), v) {
                        assert(self@.contains_key(views[i as int].0));
                        return false;
                    }
                },
                None => {
                    assert(self@.contains_key(views[i as int].0));
                    return false;
                },
            }
            i = i + 1;
        }
        proof {
            assert forall|k: Seq<char>| #[trigger] self@.contains_key(k) implies other@.contains_key(k)
                && other@[k] == self@[k] by {
                let j = choose|j: int| 0 <= j < views.len() && (#[trigger] views[j]).0 == k;
            }
        }
        true
    }

    /// An independent copy of this metadata.
    pub fn copy(&self) -> (r: Metadata)
        ensures
            r@ == self@,
    {
        proof {
            use_type_invariant(self);
        }
        let ghost views = entry_views(self.entries@);
        let mut entries: Vec<(String, String)> = Vec::new();
        let mut i: usize = 0;
        while i < self.entries.len()
            invariant
                i <= self.entries@.len(),
                views == entry_views(self.entries@),
                keys_unique(views),
                entries@.len() == i,
                forall|j: int|
                    0 <= j < i ==> (#[trigger] entries@[j]).0@ == views[j].0 && entries@[j].1@
                        == views[j].1,
            decreases self.entries@.len() - i,
        {
            let k = self.entries[i].0.clone();
            let v = self.entries[i].1.clone();
            entries.push((k, v));
            i = i + 1;
        }
        proof {
            assert(entry_views(entries@) =~= views);
        }
        Metadata { entries }
    }

    /// The entries, each key once, in increasing key order.
    pub fn entries(&self) -> (r: &Vec<(String, String)>)
        ensures
            entries_map(entry_views(r@)) == self@,
            keys_unique(entry_views(r@)),
            keys_sorted(entry_views(r@)),
    {
        proof {
            use_type_invariant(self);
        }
        &self.entries
    }
}

} // verus!
