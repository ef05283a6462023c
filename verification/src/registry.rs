//! Entries kept in the lexical order of their names, each name once.

use crate::text::{before, rank, Rank};
use crate::text::{lemma_before_irreflexive, lemma_before_transitive};
use vstd::prelude::*;

verus! {

/// Something that is found by a name.
pub trait Keyed: Sized {
    /// What the entry says, as a mathematical value.
    type Entry;

    /// The name that the entry is found by.
    spec fn key(&self) -> Seq<char>;

    spec fn entry(&self) -> Self::Entry;

    fn key_text(&self) -> (r: &str)
        ensures
            r@ == self.key(),
    ;
}

/// Strictly in lexical order, so that no name occurs twice.
pub open spec fn ordered<T: Keyed>(s: Seq<T>) -> bool {
    forall|i: int, j: int|
        0 <= i < j < s.len() ==> before((#[trigger] s[i]).key(), (#[trigger] s[j]).key())
}

/// Some entry of `s` has the name `k`.
pub open spec fn has_key<T: Keyed>(s: Seq<T>, k: Seq<char>) -> bool {
    exists|i: int| 0 <= i < s.len() && (#[trigger] s[i]).key() == k
}

pub open spec fn key_at<T: Keyed>(s: Seq<T>, k: Seq<char>) -> int {
    choose|i: int| 0 <= i < s.len() && (#[trigger] s[i]).key() == k
}

/// The entries of `s` by name.
pub open spec fn table<T: Keyed>(s: Seq<T>) -> Map<Seq<char>, T::Entry> {
    Map::new(|k: Seq<char>| has_key(s, k), |k: Seq<char>| s[key_at(s, k)].entry())
}

/// In an ordered sequence a name stands in one place only.
pub proof fn lemma_key_unique<T: Keyed>(s: Seq<T>, i: int, j: int)
    requires
        ordered(s),
        0 <= i < s.len(),
        0 <= j < s.len(),
        s[i].key() == s[j].key(),
    ensures
        i == j,
{
    lemma_before_irreflexive(s[i].key());
    if i < j {
        assert(before(s[i].key(), s[j].key()));
    } else if j < i {
        assert(before(s[j].key(), s[i].key()));
    }
}

/// What the table says of an entry's name is that entry.
pub proof fn lemma_table_at<T: Keyed>(s: Seq<T>, i: int)
    requires
        ordered(s),
        0 <= i < s.len(),
    ensures
        table(s).contains_key(s[i].key()),
        table(s)[s[i].key()] == s[i].entry(),
        key_at(s, s[i].key()) == i,
{
    assert(has_key(s, s[i].key()));
    lemma_key_unique(s, i, key_at(s, s[i].key()));
}

pub proof fn lemma_table_insert<T: Keyed>(s: Seq<T>, p: int, item: T)
    requires
        ordered(s),
        0 <= p <= s.len(),
        ordered(s.insert(p, item)),
    ensures
        table(s.insert(p, item)) == table(s).insert(item.key(), item.entry()),
        !has_key(s, item.key()),
{
    let t = s.insert(p, item);
    assert(t[p] == item);
    if has_key(s, item.key()) {
        let i = key_at(s, item.key());
        let j = if i < p { i } else { i + 1 };
        assert(t[j] == s[i]);
        lemma_key_unique(t, j, p);
    }
    let u = table(s).insert(item.key(), item.entry());
    assert forall|k: Seq<char>| #[trigger] table(t).contains_key(k) == u.contains_key(k) by {
        if has_key(t, k) {
            let j = key_at(t, k);
            if j != p {
                let i = if j < p { j } else { j - 1 };
                assert(s[i] == t[j]);
                assert(has_key(s, k));
            }
        }
        if has_key(s, k) {
            let i = key_at(s, k);
            let j = if i < p { i } else { i + 1 };
            assert(t[j] == s[i]);
            assert(has_key(t, k));
        }
        if k == item.key() {
            assert(t[p].key() == k);
            assert(has_key(t, k));
        }
    }
    assert forall|k: Seq<char>| #[trigger] table(t).contains_key(k) implies table(t)[k] == u[k] by {
        let j = key_at(t, k);
        lemma_table_at(t, j);
        if j == p {
            assert(t[j].key() == item.key());
        } else {
            let i = if j < p { j } else { j - 1 };
            assert(s[i] == t[j]);
            lemma_table_at(s, i);
        }
    }
    assert(table(t) =~= u);
}

pub proof fn lemma_table_update<T: Keyed>(s: Seq<T>, p: int, item: T)
    requires
        ordered(s),
        0 <= p < s.len(),
        s[p].key() == item.key(),
    ensures
        ordered(s.update(p, item)),
        table(s.update(p, item)) == table(s).insert(item.key(), item.entry()),
{
    let t = s.update(p, item);
    assert(t[p] == item);
    assert forall|i: int| 0 <= i < s.len() implies (#[trigger] t[i]).key() == s[i].key() by {}
    assert forall|i: int, j: int| 0 <= i < j < t.len() implies before(
        (#[trigger] t[i]).key(),
        (#[trigger] t[j]).key(),
    ) by {
        assert(before(s[i].key(), s[j].key()));
    }
    let u = table(s).insert(item.key(), item.entry());
    lemma_table_at(s, p);
    lemma_table_at(t, p);
    assert forall|k: Seq<char>| #[trigger] table(t).contains_key(k) == u.contains_key(k) by {
        if has_key(t, k) {
            let j = key_at(t, k);
            assert(s[j].key() == k);
        }
        if has_key(s, k) {
            let j = key_at(s, k);
            assert(t[j].key() == k);
        }
    }
    assert forall|k: Seq<char>| #[trigger] table(t).contains_key(k) implies table(t)[k] == u[k] by {
        let j = key_at(t, k);
        lemma_table_at(t, j);
        assert(s[j].key() == k);
        lemma_table_at(s, j);
    }
    assert(table(t) =~= u);
}

/// The table has as many names as there are entries.
pub proof fn lemma_table_len<T: Keyed>(s: Seq<T>)
    requires
        ordered(s),
    ensures
        table(s).dom().finite(),
        table(s).len() == s.len(),
    decreases s.len(),
{
    if s.len() == 0 {
        assert(table(s).dom() =~= Set::<Seq<char>>::empty());
    } else {
        let r = s.drop_last();
        let last = s.last();
        assert forall|i: int, j: int| 0 <= i < j < r.len() implies before(
            (#[trigger] r[i]).key(),
            (#[trigger] r[j]).key(),
        ) by {
            assert(before(s[i].key(), s[j].key()));
        }
        assert(s =~= r.insert(r.len() as int, last));
        lemma_table_len(r);
        lemma_table_insert(r, r.len() as int, last);
        assert(table(s).dom() =~= table(r).dom().insert(last.key()));
    }
}

/// Entries in the lexical order of their names.
#[derive(Clone, Debug)]
pub struct Registry<T> {
    items: Vec<T>,
}

impl<T: Keyed> View for Registry<T> {
    type V = Seq<T>;

    closed spec fn view(&self) -> Seq<T> {
        self.items@
    }
}

impl<T: Keyed> Registry<T> {
    pub open spec fn wf(&self) -> bool {
        ordered(self@)
    }

    pub fn new() -> (r: Self)
        ensures
            r.wf(),
            r@ == Seq::<T>::empty(),
    {
        Registry { items: Vec::new() }
    }

    pub fn items(&self) -> (r: &Vec<T>)
        ensures
            r@ == self@,
    {
        &self.items
    }

    /// The place of the entry named `key`, or the place where it would have to go.
    pub fn find(&self, key: &str) -> (r: Result<usize, usize>)
        requires
            self.wf(),
        ensures
            match r {
                Ok(p) => p < self@.len() && self@[p as int].key() == key@,
                Err(p) => {
                    &&& p <= self@.len()
                    &&& !has_key(self@, key@)
                    &&& forall|i: int| 0 <= i < p ==> before((#[trigger] self@[i]).key(), key@)
                    &&& forall|i: int|
                        p <= i < self@.len() ==> before(key@, (#[trigger] self@[i]).key())
                },
            },
    {
        let mut low: usize = 0;
        let mut high: usize = self.items.len();
        while low < high
            invariant
                self.wf(),
                low <= high <= self@.len(),
                self@ == self.items@,
                forall|i: int| 0 <= i < low ==> before((#[trigger] self@[i]).key(), key@),
                forall|i: int| high <= i < self@.len() ==> before(key@, (#[trigger] self@[i]).key()),
            decreases high - low,
        {
            let mid: usize = low + (high - low) / 2;
            match rank(self.items[mid].key_text(), key) {
                Rank::Same => {
                    return Ok(mid);
                },
                Rank::Earlier => {
                    assert forall|i: int| 0 <= i < mid + 1 implies before(
                        (#[trigger] self@[i]).key(),
                        key@,
                    ) by {
                        if i < mid {
                            lemma_before_transitive(self@[i].key(), self@[mid as int].key(), key@);
                        }
                    }
                    low = mid + 1;
                },
                Rank::Later => {
                    assert forall|i: int| mid <= i < self@.len() implies before(
                        key@,
                        (#[trigger] self@[i]).key(),
                    ) by {
                        if i > mid {
                            lemma_before_transitive(key@, self@[mid as int].key(), self@[i].key());
                        }
                    }
                    high = mid;
                },
            }
        }
        proof {
            lemma_before_irreflexive(key@);
            if has_key(self@, key@) {
                let i = key_at(self@, key@);
                assert(self@[i].key() == key@);
            }
        }
        Err(low)
    }

    /// The entry named `key`.
    pub fn get(&self, key: &str) -> (r: Option<&T>)
        requires
            self.wf(),
        ensures
            match r {
                Some(t) => table(self@).contains_key(key@) && t.key() == key@ && t.entry() == table(
                    self@,
                )[key@] && self@.contains(*t),
                None => !table(self@).contains_key(key@),
            },
    {
        match self.find(key) {
            Ok(p) => {
                proof {
                    lemma_table_at(self@, p as int);
                }
                Some(&self.items[p])
            },
            Err(_) => None,
        }
    }

    /// Adds an entry under a name that is not taken.
    pub fn insert(&mut self, item: T)
        requires
            old(self).wf(),
            !table(old(self)@).contains_key(item.key()),
        ensures
            final(self).wf(),
            table(final(self)@) == table(old(self)@).insert(item.key(), item.entry()),
            exists|p: int|
                0 <= p <= old(self)@.len() && final(self)@ == #[trigger] old(self)@.insert(p, item),
    {
        match self.find(item.key_text()) {
            Ok(p) => {
                assert(has_key(self@, item.key()));
            },
            Err(p) => {
                let ghost s = self@;
                let ghost t = s.insert(p as int, item);
                assert forall|i: int, j: int| 0 <= i < j < t.len() implies before(
                    (#[trigger] t[i]).key(),
                    (#[trigger] t[j]).key(),
                ) by {
                    let a = if i < p { i } else { i - 1 };
                    let b = if j < p { j } else { j - 1 };
                    if i == p {
                        assert(t[j] == s[b]);
                    } else if j == p {
                        assert(t[i] == s[a]);
                    } else {
                        assert(t[i] == s[a] && t[j] == s[b]);
                        assert(before(s[a].key(), s[b].key()));
                    }
                }
                proof {
                    lemma_table_insert(s, p as int, item);
                }
                self.items.insert(p, item);
            },
        }
    }

    /// Puts another entry of the same name in the place of the entry at `p`.
    pub fn replace(&mut self, p: usize, item: T)
        requires
            old(self).wf(),
            p < old(self)@.len(),
            old(self)@[p as int].key() == item.key(),
        ensures
            final(self).wf(),
            final(self)@ == old(self)@.update(p as int, item),
            table(final(self)@) == table(old(self)@).insert(item.key(), item.entry()),
    {
        proof {
            lemma_table_update(self@, p as int, item);
        }
        self.items[p] = item;
    }
}

} // verus!
