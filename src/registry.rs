use vstd::prelude::*;

verus! {

/// Whether no id occurs twice.
pub open spec fn unique_ids<V>(s: Seq<(String, V)>) -> bool {
    forall|i: int, j: int|
        0 <= i < s.len() && 0 <= j < s.len() && i != j ==> (#[trigger] s[i]).0@ != (#[trigger] s[j]).0@
}

/// The position of the entry with the given id, if there is one.
pub open spec fn position<V>(s: Seq<(String, V)>, id: Seq<char>) -> Option<int> {
    if exists|i: int| 0 <= i < s.len() && (#[trigger] s[i]).0@ == id {
        Some(choose|i: int| 0 <= i < s.len() && (#[trigger] s[i]).0@ == id)
    } else {
        None
    }
}

/// The value kept under an id.
pub open spec fn lookup<V>(s: Seq<(String, V)>, id: Seq<char>) -> Option<V> {
    match position(s, id) {
        Some(i) => Some(s[i].1),
        None => None,
    }
}

/// Entries after storing `v` under `id`: an entry with that id is replaced in
/// place, else the new entry goes last.
pub open spec fn insert_spec<V>(s: Seq<(String, V)>, id: String, v: V) -> Seq<(String, V)> {
    match position(s, id@) {
        Some(i) => s.update(i, (id, v)),
        None => s.push((id, v)),
    }
}

/// Entries after removing the one with `id`, if any; the rest keep their order.
pub open spec fn remove_spec<V>(s: Seq<(String, V)>, id: Seq<char>) -> Seq<(String, V)> {
    match position(s, id) {
        Some(i) => s.remove(i),
        None => s,
    }
}

/// With ids unique, the position of an id is the one place that holds it.
pub proof fn lemma_position<V>(s: Seq<(String, V)>, i: int)
    requires
        unique_ids(s),
        0 <= i < s.len(),
    ensures
        position(s, s[i].0@) == Some(i),
{
    let k = choose|k: int| 0 <= k < s.len() && (#[trigger] s[k]).0@ == s[i].0@;
    assert(s[k].0@ == s[i].0@);
}

/// Storing keeps ids unique and puts the value under its id.
pub proof fn lemma_insert<V>(s: Seq<(String, V)>, id: String, v: V)
    requires
        unique_ids(s),
    ensures
        unique_ids(insert_spec(s, id, v)),
        lookup(insert_spec(s, id, v), id@) == Some(v),
{
    let t = insert_spec(s, id, v);
    match position(s, id@) {
        Some(i) => {
            let k = choose|k: int| 0 <= k < s.len() && (#[trigger] s[k]).0@ == id@;
            assert(s[k].0@ == id@);
            assert forall|a: int, b: int|
                0 <= a < t.len() && 0 <= b < t.len() && a != b implies (#[trigger] t[a]).0@ != (
            #[trigger] t[b]).0@ by {
                if a != i && b != i {
                    assert(s[a] == t[a] && s[b] == t[b]);
                } else if a == i {
                    assert(s[b] == t[b] && s[i].0@ == id@);
                } else {
                    assert(s[a] == t[a] && s[i].0@ == id@);
                }
            }
            lemma_position(t, i);
        },
        None => {
            assert forall|a: int, b: int|
                0 <= a < t.len() && 0 <= b < t.len() && a != b implies (#[trigger] t[a]).0@ != (
            #[trigger] t[b]).0@ by {
                if a < s.len() && b < s.len() {
                    assert(s[a] == t[a] && s[b] == t[b]);
                } else if a < s.len() {
                    assert(s[a] == t[a] && t[a].0@ != id@);
                } else {
                    assert(s[b] == t[b] && t[b].0@ != id@);
                }
            }
            lemma_position(t, s.len() as int);
        },
    }
}

/// Removing keeps ids unique and leaves no entry under the removed id.
pub proof fn lemma_remove<V>(s: Seq<(String, V)>, id: Seq<char>)
    requires
        unique_ids(s),
    ensures
        unique_ids(remove_spec(s, id)),
        position(remove_spec(s, id), id) is None,
{
    let t = remove_spec(s, id);
    match position(s, id) {
        Some(i) => {
            let k = choose|k: int| 0 <= k < s.len() && (#[trigger] s[k]).0@ == id;
            assert(s[k].0@ == id);
            assert forall|a: int, b: int|
                0 <= a < t.len() && 0 <= b < t.len() && a != b implies (#[trigger] t[a]).0@ != (
            #[trigger] t[b]).0@ by {
                let sa = if a < i {
                    a
                } else {
                    a + 1
                };
                let sb = if b < i {
                    b
                } else {
                    b + 1
                };
                assert(t[a] == s[sa] && t[b] == s[sb]);
            }
            if exists|j: int| 0 <= j < t.len() && (#[trigger] t[j]).0@ == id {
                let j = choose|j: int| 0 <= j < t.len() && (#[trigger] t[j]).0@ == id;
                let sj = if j < i {
                    j
                } else {
                    j + 1
                };
                assert(t[j] == s[sj]);
            }
        },
        None => {},
    }
}

/// Changing the value of an entry keeps ids unique.
pub proof fn lemma_update_value<V>(s: Seq<(String, V)>, i: int, v: V)
    requires
        unique_ids(s),
        0 <= i < s.len(),
    ensures
        unique_ids(s.update(i, (s[i].0, v))),
{
    let t = s.update(i, (s[i].0, v));
    assert forall|a: int, b: int|
        0 <= a < t.len() && 0 <= b < t.len() && a != b implies (#[trigger] t[a]).0@ != (
    #[trigger] t[b]).0@ by {
        assert(t[a].0 == s[a].0 && t[b].0 == s[b].0);
    }
}

/// Values kept under unique string ids, in the order in which the ids first
/// arrived.
pub struct Registry<V> {
    entries: Vec<(String, V)>,
}

impl<V> View for Registry<V> {
    type V = Seq<(String, V)>;

    closed spec fn view(&self) -> Seq<(String, V)> {
        self.entries@
    }
}

impl<V> Registry<V> {
    pub open spec fn wf(&self) -> bool {
        unique_ids(self@)
    }

    pub fn new() -> (r: Self)
        ensures
            r@ == Seq::<(String, V)>::empty(),
            r.wf(),
    {
        Registry { entries: Vec::new() }
    }

    pub fn len(&self) -> (r: usize)
        ensures
            r == self@.len(),
    {
        self.entries.len()
    }

    /// The position of the entry with the given id.
    pub fn find(&self, id: &String) -> (r: Option<usize>)
        requires
            self.wf(),
        ensures
            r is None <==> position(self@, id@) is None,
            r matches Some(i) ==> position(self@, id@) == Some(i as int),
    {
        let mut i: usize = 0;
        while i < self.entries.len()
            invariant
                i <= self@.len(),
                self.wf(),
                forall|j: int| 0 <= j < i ==> (#[trigger] self@[j]).0@ != id@,
            decreases self@.len() - i,
        {
            if self.entries[i].0 == *id {
                proof {
                    lemma_position(self@, i as int);
                }
                return Some(i);
            }
            i += 1;
        }
        None
    }

    /// All entries, in order.
    pub fn entries(&self) -> (r: &Vec<(String, V)>)
        ensures
            r@ == self@,
    {
        &self.entries
    }

    pub fn get(&self, id: &String) -> (r: Option<&V>)
        requires
            self.wf(),
        ensures
            r is None <==> lookup(self@, id@) is None,
            r matches Some(v) ==> lookup(self@, id@) == Some(*v),
    {
        match self.find(id) {
            Some(i) => Some(&self.entries[i].1),
            None => None,
        }
    }

    /// Stores `v` under `id`; returns the value it replaces.
    pub fn insert(&mut self, id: String, v: V) -> (r: Option<V>)
        requires
            old(self).wf(),
        ensures
            final(self)@ == insert_spec(old(self)@, id, v),
            r == lookup(old(self)@, id@),
            final(self).wf(),
    {
        proof {
            lemma_insert(self@, id, v);
        }
        match self.find(&id) {
            Some(i) => {
                let (_, prev) = self.entries.remove(i);
                self.entries.insert(i, (id, v));
                assert(self@ =~= insert_spec(old(self)@, id, v));
                Some(prev)
            },
            None => {
                self.entries.push((id, v));
                None
            },
        }
    }

    /// Removes the entry under `id`; returns its value.
    pub fn remove(&mut self, id: &String) -> (r: Option<V>)
        requires
            old(self).wf(),
        ensures
            final(self)@ == remove_spec(old(self)@, id@),
            r == lookup(old(self)@, id@),
            final(self).wf(),
    {
        proof {
            lemma_remove(self@, id@);
        }
        match self.find(id) {
            Some(i) => {
                let (_, prev) = self.entries.remove(i);
                Some(prev)
            },
            None => None,
        }
    }

    /// The value at position `i`, to be changed in place.
    pub fn value_mut_at(&mut self, i: usize) -> (r: &mut V)
        requires
            i < old(self)@.len(),
        ensures
            *r == old(self)@[i as int].1,
            final(self)@ == old(self)@.update(i as int, (old(self)@[i as int].0, *final(r))),
    {
        &mut self.entries[i].1
    }

    /// The ids, in order.
    pub fn ids(&self) -> (r: Vec<String>)
        ensures
            r@.len() == self@.len(),
            forall|i: int| 0 <= i < r@.len() ==> r@[i] == (#[trigger] self@[i]).0,
    {
        let mut r: Vec<String> = Vec::new();
        let mut i: usize = 0;
        while i < self.entries.len()
            invariant
                i <= self@.len(),
                r@.len() == i,
                forall|j: int| 0 <= j < i ==> r@[j] == (#[trigger] self@[j]).0,
            decreases self@.len() - i,
        {
            r.push(self.entries[i].0.clone());
            i += 1;
        }
        r
    }
}

} // verus!
