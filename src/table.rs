//! A table from names to values: the shape of the two result sets that a
//! structured query fills.
use vstd::prelude::*;
use vstd::string::*;

verus! {

/// The map that a list of `(name, value)` pairs denotes, later pairs overriding
/// earlier ones.
pub open spec fn assoc<V>(e: Seq<(Seq<char>, V)>) -> Map<Seq<char>, V>
    decreases e.len(),
{
    if e.len() == 0 {
        Map::empty()
    } else {
        assoc(e.drop_last()).insert(e.last().0, e.last().1)
    }
}

pub open spec fn keys_unique<V>(e: Seq<(Seq<char>, V)>) -> bool {
    forall|i: int, j: int| 0 <= i < j < e.len() ==> e[i].0 != e[j].0
}

proof fn lemma_assoc_lookup<V>(e: Seq<(Seq<char>, V)>, k: Seq<char>)
    requires
        keys_unique(e),
    ensures
        assoc(e).contains_key(k) <==> exists|i: int| 0 <= i < e.len() && e[i].0 == k,
        forall|i: int| 0 <= i < e.len() && e[i].0 == k ==> assoc(e)[k] == e[i].1,
    decreases e.len(),
{
    if e.len() > 0 {
        let d = e.drop_last();
        lemma_assoc_lookup(d, k);
        if assoc(e).contains_key(k) && e.last().0 != k {
            let i = choose|i: int| 0 <= i < d.len() && d[i].0 == k;
            assert(e[i].0 == k);
        }
        if exists|i: int| 0 <= i < e.len() && e[i].0 == k {
            let i = choose|i: int| 0 <= i < e.len() && e[i].0 == k;
            if i < e.len() - 1 {
                assert(d[i].0 == k);
            }
        }
        assert forall|i: int| 0 <= i < e.len() && e[i].0 == k implies assoc(e)[k] == e[i].1 by {
            if i < e.len() - 1 {
                assert(d[i].0 == k);
            }
        }
    }
}

proof fn lemma_assoc_update<V>(e: Seq<(Seq<char>, V)>, i: int, v: V)
    requires
        keys_unique(e),
        0 <= i < e.len(),
    ensures
        assoc(e.update(i, (e[i].0, v))) == assoc(e).insert(e[i].0, v),
    decreases e.len(),
{
    let u = e.update(i, (e[i].0, v));
    if i == e.len() - 1 {
        assert(u.drop_last() =~= e.drop_last());
        assert(assoc(u) =~= assoc(e).insert(e[i].0, v));
    } else {
        let d = e.drop_last();
        lemma_assoc_update(d, i, v);
        assert(u.drop_last() =~= d.update(i, (d[i].0, v)));
        assert(assoc(u) =~= assoc(e).insert(e[i].0, v));
    }
}

/// Names mapped to values, each name at most once.
pub struct NameTable<V> {
    entries: Vec<(String, V)>,
}

impl<V: DeepView> NameTable<V> {
    /// The entries as names and values.
    pub closed spec fn pairs(&self) -> Seq<(Seq<char>, V::V)> {
        self.entries@.map_values(|p: (String, V)| (p.0@, p.1.deep_view()))
    }

    pub open spec fn wf(&self) -> bool {
        keys_unique(self.pairs())
    }

    /// What the table maps each name to.
    pub open spec fn map(&self) -> Map<Seq<char>, V::V> {
        assoc(self.pairs())
    }

    pub fn new() -> (r: Self)
        ensures
            r.wf(),
            r.map() == Map::<Seq<char>, V::V>::empty(),
    {
        let r = NameTable { entries: Vec::new() };
        assert(r.pairs() =~= Seq::<(Seq<char>, V::V)>::empty());
        r
    }

    fn position(&self, key: &String) -> (r: Option<usize>)
        ensures
            match r {
                Some(i) => i < self.pairs().len() && self.pairs()[i as int].0 == key@,
                None => forall|i: int| 0 <= i < self.pairs().len() ==> self.pairs()[i].0 != key@,
            },
    {
        let mut i: usize = 0;
        while i < self.entries.len()
            invariant
                i <= self.entries.len(),
                forall|j: int| 0 <= j < i ==> self.pairs()[j].0 != key@,
            decreases self.entries.len() - i,
        {
            if self.entries[i].0 == *key {
                return Some(i);
            }
            i = i + 1;
        }
        None
    }

    /// Maps `key` to `value`, replacing what it was mapped to before.
    pub fn insert(&mut self, key: String, value: V)
        requires
            old(self).wf(),
        ensures
            final(self).wf(),
            final(self).map() == old(self).map().insert(key@, value.deep_view()),
    {
        let ghost e = self.pairs();
        let ghost kv = key@;
        let ghost vv = value.deep_view();
        match self.position(&key) {
            Some(i) => {
                self.entries.set(i, (key, value));
                proof {
                    assert(self.pairs() =~= e.update(i as int, (e[i as int].0, vv)));
                    lemma_assoc_update(e, i as int, vv);
                }
            },
            None => {
                self.entries.push((key, value));
                proof {
                    assert(self.pairs() =~= e.push((kv, vv)));
                    assert(self.pairs().drop_last() =~= e);
                }
            },
        }
    }

    /// The value that `key` is mapped to, if any.
    pub fn get(&self, key: &str) -> (r: Option<&V>)
        requires
            self.wf(),
        ensures
            match r {
                Some(v) => self.map().contains_key(key@) && self.map()[key@] == v.deep_view(),
                None => !self.map().contains_key(key@),
            },
    {
        let k = String::from_str(key);
        proof {
            lemma_assoc_lookup(self.pairs(), key@);
        }
        match self.position(&k) {
            Some(i) => Some(&self.entries[i].1),
            None => None,
        }
    }

    /// The entries, each name once, in the order in which names were first added.
    pub fn entries(&self) -> (r: &Vec<(String, V)>)
        ensures
            r@.map_values(|p: (String, V)| (p.0@, p.1.deep_view())) == self.pairs(),
    {
        &self.entries
    }
}

} // verus!
