//! The registry of live sessions, keyed by session identifier.
use vstd::prelude::*;

verus! {

/// The map that a list of entries denotes; a later entry shadows an earlier
/// one with the same identifier (never the case in a well-formed registry).
pub open spec fn map_of<H>(entries: Seq<(String, H)>) -> Map<Seq<char>, H>
    decreases entries.len(),
{
    if entries.len() == 0 {
        Map::empty()
    } else {
        map_of(entries.drop_last()).insert(entries.last().0@, entries.last().1)
    }
}

/// No two entries share an identifier.
pub open spec fn unique_ids<H>(entries: Seq<(String, H)>) -> bool {
    forall|i: int, j: int|
        0 <= i < entries.len() && 0 <= j < entries.len() && i != j ==> entries[i].0@ != entries[j].0@
}

proof fn lemma_map_of_lookup<H>(entries: Seq<(String, H)>, i: int)
    requires
        unique_ids(entries),
        0 <= i < entries.len(),
    ensures
        map_of(entries).contains_key(entries[i].0@),
        map_of(entries)[entries[i].0@] == entries[i].1,
    decreases entries.len(),
{
    if i < entries.len() - 1 {
        lemma_map_of_lookup(entries.drop_last(), i);
    }
}

proof fn lemma_map_of_domain<H>(entries: Seq<(String, H)>, k: Seq<char>)
    ensures
        map_of(entries).contains_key(k) <==> exists|i: int| 0 <= i < entries.len() && entries[i].0@ == k,
    decreases entries.len(),
{
    if entries.len() > 0 {
        let init = entries.drop_last();
        lemma_map_of_domain(init, k);
        if map_of(init).contains_key(k) {
            let i = choose|i: int| 0 <= i < init.len() && init[i].0@ == k;
            assert(entries[i].0@ == k);
        }
        if exists|i: int| 0 <= i < entries.len() && entries[i].0@ == k {
            let i = choose|i: int| 0 <= i < entries.len() && entries[i].0@ == k;
            if i < init.len() {
                assert(init[i].0@ == k);
            }
        }
    }
}

proof fn lemma_map_of_remove<H>(entries: Seq<(String, H)>, i: int)
    requires
        unique_ids(entries),
        0 <= i < entries.len(),
    ensures
        map_of(entries.remove(i)) =~= map_of(entries).remove(entries[i].0@),
    decreases entries.len(),
{
    let init = entries.drop_last();
    let k = entries[i].0@;
    if i == entries.len() - 1 {
        assert(entries.remove(i) =~= init);
        lemma_map_of_domain(init, k);
        assert(!map_of(init).contains_key(k));
    } else {
        assert(init[i] == entries[i]);
        lemma_map_of_remove(init, i);
        assert(entries.remove(i) =~= init.remove(i).push(entries.last()));
        assert(entries.remove(i).drop_last() =~= init.remove(i));
    }
}

/// The sessions in flight: each identifier maps to a handle that callers use
/// to act on that session.  Identifiers are unique; registering one that is
/// already present is refused.
pub struct SessionRegistry<H> {
    entries: Vec<(String, H)>,
}

impl<H> SessionRegistry<H> {
    /// The identifier-to-handle map that the registry holds.
    pub closed spec fn view(&self) -> Map<Seq<char>, H> {
        map_of(self.entries@)
    }

    pub closed spec fn wf(&self) -> bool {
        unique_ids(self.entries@)
    }

    /// An empty registry.
    pub fn new() -> (r: Self)
        ensures
            r.wf(),
            r@ == Map::<Seq<char>, H>::empty(),
    {
        SessionRegistry { entries: Vec::new() }
    }

    fn find(&self, id: &String) -> (r: Option<usize>)
        requires
            self.wf(),
        ensures
            r matches Some(i) ==> i < self.entries@.len() && self.entries@[i as int].0@ == id@,
            r is None ==> !self@.contains_key(id@),
    {
        let mut i: usize = 0;
        while i < self.entries.len()
            invariant
                i <= self.entries@.len(),
                forall|j: int| 0 <= j < i ==> self.entries@[j].0@ != id@,
            decreases self.entries@.len() - i,
        {
            if self.entries[i].0.eq(id) {
                return Some(i);
            }
            i = i + 1;
        }
        proof {
            lemma_map_of_domain(self.entries@, id@);
        }
        None
    }

    /// Whether `id` names a registered session.
    pub fn contains(&self, id: &String) -> (r: bool)
        requires
            self.wf(),
        ensures
            r == self@.contains_key(id@),
    {
        match self.find(id) {
            Some(i) => {
                proof {
                    lemma_map_of_lookup(self.entries@, i as int);
                }
                true
            },
            None => false,
        }
    }

    /// The handle registered under `id`, if any.
    pub fn lookup(&self, id: &String) -> (r: Option<&H>)
        requires
            self.wf(),
        ensures
            r is Some == self@.contains_key(id@),
            r matches Some(h) ==> *h == self@[id@],
    {
        match self.find(id) {
            Some(i) => {
                proof {
                    lemma_map_of_lookup(self.entries@, i as int);
                }
                Some(&self.entries[i].1)
            },
            None => None,
        }
    }

    /// Registers `handle` under `id`.  An identifier that is already present
    /// is refused and the registry is left as it was.
    pub fn insert(&mut self, id: String, handle: H) -> (r: bool)
        requires
            old(self).wf(),
        ensures
            final(self).wf(),
            r == !old(self)@.contains_key(id@),
            r ==> final(self)@ == old(self)@.insert(id@, handle),
            !r ==> final(self)@ == old(self)@,
    {
        if self.contains(&id) {
            return false;
        }
        proof {
            lemma_map_of_domain(self.entries@, id@);
        }
        let ghost before = self.entries@;
        self.entries.push((id, handle));
        proof {
            assert(self.entries@.drop_last() =~= before);
            assert forall|i: int, j: int|
                0 <= i < self.entries@.len() && 0 <= j < self.entries@.len() && i != j implies
                self.entries@[i].0@ != self.entries@[j].0@ by {
                if i < before.len() && j < before.len() {
                    assert(before[i] == self.entries@[i] && before[j] == self.entries@[j]);
                } else if i < before.len() {
                    assert(before[i] == self.entries@[i]);
                } else if j < before.len() {
                    assert(before[j] == self.entries@[j]);
                }
            }
        }
        true
    }

    /// Removes the session registered under `id` and hands back its handle.
    pub fn remove(&mut self, id: &String) -> (r: Option<H>)
        requires
            old(self).wf(),
        ensures
            final(self).wf(),
            r is Some == old(self)@.contains_key(id@),
            r matches Some(h) ==> h == old(self)@[id@],
            final(self)@ == old(self)@.remove(id@),
    {
        match self.find(id) {
            Some(i) => {
                let ghost before = self.entries@;
                proof {
                    lemma_map_of_lookup(before, i as int);
                    lemma_map_of_remove(before, i as int);
                }
                let (_, h) = self.entries.remove(i);
                proof {
                    assert forall|a: int, b: int|
                        0 <= a < self.entries@.len() && 0 <= b < self.entries@.len() && a != b implies
                        self.entries@[a].0@ != self.entries@[b].0@ by {
                        let a0 = if a < i { a } else { a + 1 };
                        let b0 = if b < i { b } else { b + 1 };
                        assert(self.entries@[a] == before[a0] && self.entries@[b] == before[b0]);
                    }
                }
                Some(h)
            },
            None => {
                assert(self@ =~= self@.remove(id@));
                None
            },
        }
    }

    /// The number of registered sessions.
    pub fn len(&self) -> (r: usize)
        requires
            self.wf(),
        ensures
            r == self@.len(),
    {
        proof {
            lemma_map_of_len(self.entries@);
        }
        self.entries.len()
    }
}

proof fn lemma_map_of_len<H>(entries: Seq<(String, H)>)
    requires
        unique_ids(entries),
    ensures
        map_of(entries).dom().finite(),
        map_of(entries).len() == entries.len(),
    decreases entries.len(),
{
    if entries.len() > 0 {
        let init = entries.drop_last();
        lemma_map_of_len(init);
        lemma_map_of_domain(init, entries.last().0@);
        if map_of(init).contains_key(entries.last().0@) {
            let i = choose|i: int| 0 <= i < init.len() && init[i].0@ == entries.last().0@;
            assert(entries[i] == init[i]);
        }
    }
}

} // verus!
