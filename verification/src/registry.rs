use vstd::prelude::*;

verus! {

use crate::strutil::str_eq;

/// The session registry: the one owner of the mapping from visitor id to
/// that visitor's outbound channel handle.
pub struct LocalManager<T> {
    pub senders: Vec<(String, T)>,
}

/// The handle stored under the first entry with the given id, if any.
pub open spec fn spec_reg_get<T>(s: Seq<(String, T)>, id: Seq<char>) -> Option<T>
    decreases s.len(),
{
    if s.len() == 0 {
        None
    } else if s[0].0@ == id {
        Some(s[0].1)
    } else {
        spec_reg_get(s.drop_first(), id)
    }
}

pub open spec fn spec_reg_unique<T>(s: Seq<(String, T)>) -> bool {
    forall|i: int, j: int| 0 <= i < j < s.len() ==> s[i].0@ != s[j].0@
}

proof fn lemma_reg_get_absent<T>(s: Seq<(String, T)>, id: Seq<char>)
    ensures
        (spec_reg_get(s, id) is None) <==> (forall|j: int| 0 <= j < s.len() ==> s[j].0@ != id),
    decreases s.len(),
{
    if s.len() > 0 {
        lemma_reg_get_absent(s.drop_first(), id);
        if spec_reg_get(s, id) is None {
            assert forall|j: int| 0 <= j < s.len() implies s[j].0@ != id by {
                if j > 0 {
                    assert(s.drop_first()[j - 1] == s[j]);
                }
            }
        }
    }
}

proof fn lemma_reg_found<T>(s: Seq<(String, T)>, i: int, id: Seq<char>)
    requires
        0 <= i < s.len(),
        s[i].0@ == id,
        forall|j: int| 0 <= j < i ==> s[j].0@ != id,
    ensures
        spec_reg_get(s, id) == Some(s[i].1),
    decreases i,
{
    if i == 0 {
    } else {
        assert forall|j: int| 0 <= j < i - 1 implies s.drop_first()[j].0@ != id by {
            assert(s.drop_first()[j] == s[j + 1]);
        }
        assert(s.drop_first()[i - 1] == s[i]);
        lemma_reg_found(s.drop_first(), i - 1, id);
    }
}

proof fn lemma_reg_remove<T>(s: Seq<(String, T)>, i: int, id: Seq<char>)
    requires
        0 <= i < s.len(),
        s[i].0@ == id,
        spec_reg_unique(s),
    ensures
        spec_reg_get(s.remove(i), id) is None,
        forall|k: Seq<char>| k != id ==> spec_reg_get(s.remove(i), k) == spec_reg_get(s, k),
        spec_reg_unique(s.remove(i)),
    decreases i,
{
    assert forall|a: int, b: int| 0 <= a < b < s.remove(i).len() implies s.remove(i)[a].0@ != s.remove(
        i,
    )[b].0@ by {
        assert(s.remove(i)[a] == if a < i {
            s[a]
        } else {
            s[a + 1]
        });
        assert(s.remove(i)[b] == if b < i {
            s[b]
        } else {
            s[b + 1]
        });
    }
    if i == 0 {
        assert(s.remove(0) =~= s.drop_first());
        lemma_reg_get_absent(s.drop_first(), id);
        assert forall|j: int| 0 <= j < s.drop_first().len() implies s.drop_first()[j].0@ != id by {
            assert(s.drop_first()[j] == s[j + 1]);
        }
        assert forall|k: Seq<char>| k != id implies spec_reg_get(s.remove(0), k) == spec_reg_get(
            s,
            k,
        ) by {
            assert(s[0].0@ != k);
            assert(spec_reg_get(s, k) == spec_reg_get(s.drop_first(), k));
        }
    } else {
        assert(s.remove(i).drop_first() =~= s.drop_first().remove(i - 1));
        assert(s.drop_first()[i - 1] == s[i]);
        assert forall|a: int, b: int|
            0 <= a < b < s.drop_first().len() implies s.drop_first()[a].0@ != s.drop_first()[b].0@ by {
            assert(s.drop_first()[a] == s[a + 1]);
            assert(s.drop_first()[b] == s[b + 1]);
        }
        lemma_reg_remove(s.drop_first(), i - 1, id);
        assert(s.remove(i)[0] == s[0]);
        assert(s[0].0@ != id);
        assert(spec_reg_get(s.remove(i), id) == spec_reg_get(s.remove(i).drop_first(), id));
        assert forall|k: Seq<char>| k != id implies spec_reg_get(s.remove(i), k) == spec_reg_get(
            s,
            k,
        ) by {
            if s[0].0@ == k {
                assert(spec_reg_get(s.remove(i), k) == Some(s[0].1));
                assert(spec_reg_get(s, k) == Some(s[0].1));
            } else {
                assert(spec_reg_get(s.remove(i), k) == spec_reg_get(
                    s.drop_first().remove(i - 1),
                    k,
                ));
                assert(spec_reg_get(s, k) == spec_reg_get(s.drop_first(), k));
            }
        }
    }
}

proof fn lemma_reg_push<T>(s: Seq<(String, T)>, p: (String, T))
    requires
        forall|j: int| 0 <= j < s.len() ==> s[j].0@ != p.0@,
        spec_reg_unique(s),
    ensures
        spec_reg_get(s.push(p), p.0@) == Some(p.1),
        forall|k: Seq<char>| k != p.0@ ==> spec_reg_get(s.push(p), k) == spec_reg_get(s, k),
        spec_reg_unique(s.push(p)),
    decreases s.len(),
{
    assert forall|a: int, b: int| 0 <= a < b < s.push(p).len() implies s.push(p)[a].0@ != s.push(
        p,
    )[b].0@ by {
        if b < s.len() {
            assert(s.push(p)[a] == s[a] && s.push(p)[b] == s[b]);
        } else {
            assert(s.push(p)[a] == s[a] && s.push(p)[b] == p);
        }
    }
    if s.len() == 0 {
        assert(s.push(p)[0] == p);
        assert(s.push(p).drop_first() =~= s);
        assert forall|k: Seq<char>| k != p.0@ implies spec_reg_get(s.push(p), k) == spec_reg_get(
            s,
            k,
        ) by {
            assert(spec_reg_get(s.push(p), k) == spec_reg_get(s, k));
        }
    } else {
        assert(s.push(p)[0] == s[0]);
        assert(s.push(p).drop_first() =~= s.drop_first().push(p));
        assert forall|j: int| 0 <= j < s.drop_first().len() implies s.drop_first()[j].0@ != p.0@ by {
            assert(s.drop_first()[j] == s[j + 1]);
        }
        assert forall|a: int, b: int|
            0 <= a < b < s.drop_first().len() implies s.drop_first()[a].0@ != s.drop_first()[b].0@ by {
            assert(s.drop_first()[a] == s[a + 1]);
            assert(s.drop_first()[b] == s[b + 1]);
        }
        lemma_reg_push(s.drop_first(), p);
        assert(spec_reg_get(s.push(p), p.0@) == spec_reg_get(s.drop_first().push(p), p.0@));
        assert forall|k: Seq<char>| k != p.0@ implies spec_reg_get(s.push(p), k) == spec_reg_get(
            s,
            k,
        ) by {
            if s[0].0@ == k {
                assert(spec_reg_get(s.push(p), k) == Some(s[0].1));
            } else {
                assert(spec_reg_get(s.push(p), k) == spec_reg_get(s.drop_first().push(p), k));
                assert(spec_reg_get(s, k) == spec_reg_get(s.drop_first(), k));
            }
        }
    }
}

impl<T> LocalManager<T> {
    /// At most one live entry per visitor id.
    pub open spec fn wf(&self) -> bool {
        spec_reg_unique(self.senders@)
    }

    /// The handle registered under an id, if any.
    pub open spec fn spec_get(&self, id: Seq<char>) -> Option<T> {
        spec_reg_get(self.senders@, id)
    }

    /// An empty registry.
    pub fn new() -> (r: Self)
        ensures
            r.wf(),
            forall|id: Seq<char>| #[trigger] r.spec_get(id) is None,
    {
        LocalManager { senders: Vec::new() }
    }

    fn find_index(&self, visitor_id: &str) -> (r: Option<usize>)
        ensures
            match r {
                Some(i) => i < self.senders@.len() && self.senders@[i as int].0@ == visitor_id@
                    && forall|j: int| 0 <= j < i ==> self.senders@[j].0@ != visitor_id@,
                None => forall|j: int|
                    0 <= j < self.senders@.len() ==> self.senders@[j].0@ != visitor_id@,
            },
    {
        let mut i: usize = 0;
        while i < self.senders.len()
            invariant
                0 <= i <= self.senders@.len(),
                forall|j: int| 0 <= j < i ==> self.senders@[j].0@ != visitor_id@,
            decreases self.senders@.len() - i,
        {
            if str_eq(self.senders[i].0.as_str(), visitor_id) {
                return Some(i);
            }
            i += 1;
        }
        None
    }

    /// Register a sender under a visitor id, replacing any prior entry for
    /// the same id: exactly one live sender per id.
    pub fn put_sender(&mut self, visitor_id: String, sender: T)
        requires
            old(self).wf(),
        ensures
            final(self).wf(),
            final(self).spec_get(visitor_id@) == Some(sender),
            forall|k: Seq<char>|
                k != visitor_id@ ==> #[trigger] final(self).spec_get(k) == old(self).spec_get(k),
    {
        self.remove_sender(visitor_id.as_str());
        let ghost mid = *self;
        let ghost p = (visitor_id, sender);
        proof {
            lemma_reg_get_absent(mid.senders@, visitor_id@);
            lemma_reg_push(mid.senders@, p);
        }
        self.senders.push((visitor_id, sender));
        proof {
            assert(self.senders@ == mid.senders@.push(p));
            assert forall|k: Seq<char>|
                k != p.0@ implies #[trigger] self.spec_get(k) == old(self).spec_get(k) by {
                assert(mid.spec_get(k) == old(self).spec_get(k));
                assert(spec_reg_get(mid.senders@.push(p), k) == spec_reg_get(mid.senders@, k));
            }
        }
    }

    /// Look a visitor id up; a removed or never-registered id resolves to
    /// "not found", which callers treat as recoverable.
    pub fn get_sender(&self, visitor_id: &str) -> (r: Option<&T>)
        ensures
            match r {
                Some(t) => self.spec_get(visitor_id@) == Some(*t),
                None => self.spec_get(visitor_id@) is None,
            },
    {
        match self.find_index(visitor_id) {
            Some(i) => {
                proof {
                    lemma_reg_found(self.senders@, i as int, visitor_id@);
                }
                Some(&self.senders[i].1)
            },
            None => {
                proof {
                    lemma_reg_get_absent(self.senders@, visitor_id@);
                }
                None
            },
        }
    }

    /// Remove a visitor's entry if present; reports whether anything was
    /// removed. Removing an absent id changes nothing.
    pub fn remove_sender(&mut self, visitor_id: &str) -> (r: bool)
        requires
            old(self).wf(),
        ensures
            final(self).wf(),
            final(self).spec_get(visitor_id@) is None,
            forall|k: Seq<char>|
                k != visitor_id@ ==> #[trigger] final(self).spec_get(k) == old(self).spec_get(k),
            r == (old(self).spec_get(visitor_id@) is Some),
            old(self).spec_get(visitor_id@) is None ==> *final(self) == *old(self),
    {
        match self.find_index(visitor_id) {
            Some(i) => {
                proof {
                    lemma_reg_found(self.senders@, i as int, visitor_id@);
                    lemma_reg_remove(self.senders@, i as int, visitor_id@);
                }
                self.senders.remove(i);
                true
            },
            None => {
                proof {
                    lemma_reg_get_absent(self.senders@, visitor_id@);
                }
                false
            },
        }
    }

    /// How many sessions are registered.
    pub fn len(&self) -> (r: usize)
        ensures
            r == self.senders@.len(),
    {
        self.senders.len()
    }
}

} // verus!
