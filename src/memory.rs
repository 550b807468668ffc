//! The memory table: names bound to values, each name at most once.
use vstd::prelude::*;
use crate::value::{Value, Val};

verus! {

/// The models of the entries, in the order they were first bound.
pub open spec fn pairs(s: Seq<(String, Value)>) -> Seq<(Seq<char>, Val)> {
    s.map_values(|e: (String, Value)| (e.0@, e.1@))
}

/// The table that a list of entries describes; a later entry wins.
pub open spec fn map_of(s: Seq<(Seq<char>, Val)>) -> Map<Seq<char>, Val>
    decreases s.len(),
{
    if s.len() == 0 {
        Map::empty()
    } else {
        map_of(s.drop_last()).insert(s.last().0, s.last().1)
    }
}

pub open spec fn unique_keys(s: Seq<(Seq<char>, Val)>) -> bool {
    forall|i: int, j: int| 0 <= i < s.len() && 0 <= j < s.len() && i != j ==> s[i].0 != s[j].0
}

proof fn lemma_map_of_index(s: Seq<(Seq<char>, Val)>, k: Seq<char>)
    requires
        unique_keys(s),
    ensures
        map_of(s).contains_key(k) <==> exists|i: int| 0 <= i < s.len() && s[i].0 == k,
        forall|i: int| 0 <= i < s.len() && s[i].0 == k ==> map_of(s)[k] == s[i].1,
    decreases s.len(),
{
    if s.len() > 0 {
        let t = s.drop_last();
        assert(unique_keys(t));
        lemma_map_of_index(t, k);
        if map_of(s).contains_key(k) && s.last().0 != k {
            let i = choose|i: int| 0 <= i < t.len() && t[i].0 == k;
            assert(s[i].0 == k);
        }
        assert forall|i: int| 0 <= i < s.len() && s[i].0 == k implies map_of(s).contains_key(k)
            && map_of(s)[k] == s[i].1 by {
            if i < s.len() - 1 {
                assert(t[i].0 == k);
            }
        }
    }
}

proof fn lemma_map_of_update(s: Seq<(Seq<char>, Val)>, i: int, v: Val)
    requires
        unique_keys(s),
        0 <= i < s.len(),
    ensures
        map_of(s.update(i, (s[i].0, v))) == map_of(s).insert(s[i].0, v),
        unique_keys(s.update(i, (s[i].0, v))),
    decreases s.len(),
{
    let u = s.update(i, (s[i].0, v));
    assert(unique_keys(u));
    if i == s.len() - 1 {
        assert(u.drop_last() == s.drop_last());
        assert(map_of(s).insert(s[i].0, v) == map_of(s.drop_last()).insert(s[i].0, v));
    } else {
        let t = s.drop_last();
        assert(unique_keys(t));
        lemma_map_of_update(t, i, v);
        assert(u.drop_last() == t.update(i, (t[i].0, v)));
        assert(s.last().0 != s[i].0);
        assert(map_of(u) =~= map_of(s).insert(s[i].0, v));
    }
}

/// Names bound to values.
pub struct Memory {
    entries: Vec<(String, Value)>,
}

impl View for Memory {
    type V = Map<Seq<char>, Val>;

    closed spec fn view(&self) -> Map<Seq<char>, Val> {
        map_of(pairs(self.entries@))
    }
}

impl Memory {
    /// Each name is bound at most once.
    pub closed spec fn wf(&self) -> bool {
        unique_keys(pairs(self.entries@))
    }

    /// An empty table.
    pub fn new() -> (r: Memory)
        ensures
            r.wf(),
            r@ == Map::<Seq<char>, Val>::empty(),
    {
        Memory { entries: Vec::new() }
    }

    /// Where the name is bound, if it is.
    fn find(&self, name: &String) -> (r: Option<usize>)
        requires
            self.wf(),
        ensures
            match r {
                Some(i) => i < self.entries@.len() && self.entries@[i as int].0@ == name@
                    && self@.contains_key(name@) && self@[name@] == self.entries@[i as int].1@,
                None => !self@.contains_key(name@),
            },
    {
        proof {
            lemma_map_of_index(pairs(self.entries@), name@);
        }
        let mut i: usize = 0;
        while i < self.entries.len()
            invariant
                self.wf(),
                i <= self.entries@.len(),
                forall|j: int| 0 <= j < i ==> self.entries@[j].0@ != name@,
            decreases self.entries.len() - i,
        {
            if self.entries[i].0 == *name {
                assert(pairs(self.entries@)[i as int] == (self.entries@[i as int].0@,
                    self.entries@[i as int].1@));
                proof {
                    lemma_map_of_index(pairs(self.entries@), name@);
                }
                return Some(i);
            }
            i = i + 1;
        }
        proof {
            if self@.contains_key(name@) {
                let j = choose|j: int|
                    0 <= j < pairs(self.entries@).len() && pairs(self.entries@)[j].0 == name@;
                assert(self.entries@[j].0@ == name@);
            }
        }
        None
    }

    /// The value bound to the name, if any.
    pub fn get(&self, name: &String) -> (r: Option<&Value>)
        requires
            self.wf(),
        ensures
            r is Some <==> self@.contains_key(name@),
            r is Some ==> r->0@ == self@[name@],
    {
        match self.find(name) {
            Some(i) => Some(&self.entries[i].1),
            None => None,
        }
    }

    /// Binds the name to the value, replacing what it was bound to.
    pub fn assign(&mut self, name: String, value: Value)
        requires
            old(self).wf(),
        ensures
            final(self).wf(),
            final(self)@ == old(self)@.insert(name@, value@),
    {
        match self.find(&name) {
            Some(i) => {
                proof {
                    lemma_map_of_update(pairs(self.entries@), i as int, value@);
                }
                let ghost s = pairs(self.entries@);
                let ghost k = name@;
                let ghost v = value@;
                self.entries.set(i, (name, value));
                assert(pairs(self.entries@) == s.update(i as int, (s[i as int].0, v)));
            },
            None => {
                let ghost s = pairs(self.entries@);
                let ghost e = (name@, value@);
                self.entries.push((name, value));
                assert(pairs(self.entries@).drop_last() == s);
                assert(pairs(self.entries@) == s.push(e));
                proof {
                    lemma_map_of_index(s, e.0);
                }
            },
        }
    }

    /// Binds the name to the value unless the name is bound already.
    pub fn assign_if_absent(&mut self, name: String, value: Value)
        requires
            old(self).wf(),
        ensures
            final(self).wf(),
            final(self)@ == if old(self)@.contains_key(name@) {
                old(self)@
            } else {
                old(self)@.insert(name@, value@)
            },
    {
        if self.find(&name).is_none() {
            self.assign(name, value);
        }
    }
}

} // verus!
