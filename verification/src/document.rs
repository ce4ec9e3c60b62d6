use vstd::prelude::*;
use vstd::pervasive::VecAdditionalExecFns;
use crate::value::{Value, ValModel};

verus! {

/// The model of an association list read as a keyed mapping: a later entry
/// for the same key overrides an earlier one.
pub open spec fn assoc_model(s: Seq<(String, Value)>) -> Map<Seq<char>, ValModel>
    decreases s.len(),
{
    if s.len() == 0 {
        Map::empty()
    } else {
        assoc_model(s.drop_last()).insert(s.last().0@, s.last().1.model())
    }
}

/// Every key occurs at most once.
pub open spec fn keys_unique(s: Seq<(String, Value)>) -> bool {
    forall|i: int, j: int| 0 <= i < j < s.len() ==> s[i].0@ != s[j].0@
}

proof fn lemma_assoc_absent(s: Seq<(String, Value)>, k: Seq<char>)
    requires
        forall|j: int| 0 <= j < s.len() ==> s[j].0@ != k,
    ensures
        !assoc_model(s).contains_key(k),
    decreases s.len(),
{
    if s.len() > 0 {
        lemma_assoc_absent(s.drop_last(), k);
    }
}

proof fn lemma_assoc_get(s: Seq<(String, Value)>, i: int)
    requires
        keys_unique(s),
        0 <= i < s.len(),
    ensures
        assoc_model(s).contains_key(s[i].0@),
        assoc_model(s)[s[i].0@] == s[i].1.model(),
    decreases s.len(),
{
    if i == s.len() - 1 {
    } else {
        lemma_assoc_get(s.drop_last(), i);
    }
}

proof fn lemma_assoc_update(s: Seq<(String, Value)>, i: int, key: String, value: Value)
    requires
        keys_unique(s),
        0 <= i < s.len(),
        key@ == s[i].0@,
    ensures
        assoc_model(s.update(i, (key, value))) =~= assoc_model(s).insert(key@, value.model()),
    decreases s.len(),
{
    let s2 = s.update(i, (key, value));
    if i == s.len() - 1 {
        assert(s2.drop_last() =~= s.drop_last());
    } else {
        lemma_assoc_update(s.drop_last(), i, key, value);
        assert(s2.drop_last() =~= s.drop_last().update(i, (key, value)));
        assert(s2.last() == s.last());
    }
}

proof fn lemma_assoc_dom_len(s: Seq<(String, Value)>)
    requires
        keys_unique(s),
    ensures
        assoc_model(s).dom().finite(),
        assoc_model(s).dom().len() == s.len(),
    decreases s.len(),
{
    if s.len() > 0 {
        lemma_assoc_dom_len(s.drop_last());
        lemma_assoc_absent(s.drop_last(), s.last().0@);
    }
}

/// The accumulating result document: an ordered mapping from field key to
/// collected value, created empty when a traversal starts, grown one field
/// at a time, and handed back whole when the traversal ends. Insertion
/// order is kept; inserting an existing key replaces its value.
pub struct Document {
    entries: Vec<(String, Value)>,
}

impl Document {
    /// The mapping this document holds.
    pub closed spec fn model(self) -> Map<Seq<char>, ValModel> {
        assoc_model(self.entries@)
    }

    /// The keys in insertion order.
    pub closed spec fn key_order(self) -> Seq<Seq<char>> {
        Seq::new(self.entries@.len(), |i: int| if 0 <= i < self.entries@.len() {
            self.entries@[i].0@
        } else {
            Seq::empty()
        })
    }

    pub closed spec fn wf(self) -> bool {
        keys_unique(self.entries@)
    }

    pub fn new() -> (r: Document)
        ensures
            r.wf(),
            r.model() == Map::<Seq<char>, ValModel>::empty(),
            r.key_order() == Seq::<Seq<char>>::empty(),
    {
        let r = Document { entries: Vec::new() };
        proof {
            assert(r.key_order() =~= Seq::<Seq<char>>::empty());
        }
        r
    }

    /// Inserts a value under a key: the mapping gains (or replaces) that key,
    /// and a genuinely new key is appended to the order.
    pub fn insert(&mut self, key: &String, value: Value)
        requires
            old(self).wf(),
        ensures
            final(self).wf(),
            final(self).model() == old(self).model().insert(key@, value.model()),
            final(self).key_order() == if old(self).model().contains_key(key@) {
                old(self).key_order()
            } else {
                old(self).key_order().push(key@)
            },
    {
        let n = self.entries.len();
        let mut i: usize = 0;
        while i < n
            invariant
                i <= n,
                n == self.entries@.len(),
                old(self).wf(),
                *self == *old(self),
                forall|j: int| 0 <= j < i ==> self.entries@[j].0@ != key@,
            decreases n - i,
        {
            let same = self.entries[i].0 == *key;
            if same {
                proof {
                    lemma_assoc_get(self.entries@, i as int);
                    lemma_assoc_update(self.entries@, i as int, *key, value);
                }
                let ghost before = self.entries@;
                self.entries.set(i, (key.clone(), value));
                proof {
                    assert(final(self).key_order() =~= old(self).key_order());
                }
                return;
            }
            i += 1;
        }
        proof {
            lemma_assoc_absent(self.entries@, key@);
        }
        let ghost before = self.entries@;
        self.entries.push((key.clone(), value));
        proof {
            assert(self.entries@.drop_last() =~= before);
            assert(final(self).key_order() =~= old(self).key_order().push(key@));
        }
    }

    /// Looks a key up.
    pub fn get(&self, key: &String) -> (r: Option<&Value>)
        requires
            self.wf(),
        ensures
            match r {
                Some(v) => self.model().contains_key(key@) && v.model() == self.model()[key@],
                None => !self.model().contains_key(key@),
            },
    {
        let n = self.entries.len();
        let mut i: usize = 0;
        while i < n
            invariant
                i <= n,
                n == self.entries@.len(),
                self.wf(),
                forall|j: int| 0 <= j < i ==> self.entries@[j].0@ != key@,
            decreases n - i,
        {
            let same = self.entries[i].0 == *key;
            if same {
                proof {
                    lemma_assoc_get(self.entries@, i as int);
                }
                return Some(&self.entries[i].1);
            }
            i += 1;
        }
        proof {
            lemma_assoc_absent(self.entries@, key@);
        }
        None
    }

    /// How many fields were collected.
    pub fn len(&self) -> (n: usize)
        requires
            self.wf(),
        ensures
            n == self.model().dom().len(),
            n == self.key_order().len(),
    {
        proof {
            lemma_assoc_dom_len(self.entries@);
        }
        self.entries.len()
    }
}

} // verus!
