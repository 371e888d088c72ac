//! The session registry that pairs split-mode requests: a map from the
//! request path to an in-flight pairing slot. The slot payload is generic:
//! the caller keeps its upload channel and notifier there.

use vstd::prelude::*;

use crate::address::bytes_eq;

verus! {

/// The path is already occupied by a live session.
#[derive(Clone, Copy, PartialEq, Eq, Structural, Debug)]
pub struct SessionCollision;

/// A registry of in-flight sessions keyed by the request path.
pub struct SessionRegistry<T> {
    entries: Vec<(Vec<u8>, T)>,
    model: Ghost<Map<Seq<u8>, T>>,
}

impl<T> View for SessionRegistry<T> {
    type V = Map<Seq<u8>, T>;

    /// The map from path to session.
    closed spec fn view(&self) -> Map<Seq<u8>, T> {
        self.model@
    }
}

impl<T> SessionRegistry<T> {
    /// Keys are unique and match the map exactly.
    pub closed spec fn inv(&self) -> bool {
        &&& forall|i: int, j: int|
            0 <= i < j < self.entries@.len() ==> self.entries@[i].0@ != self.entries@[j].0@
        &&& forall|i: int|
            0 <= i < self.entries@.len() ==> self.model@.dom().contains(
                #[trigger] self.entries@[i].0@,
            ) && self.model@[self.entries@[i].0@] == self.entries@[i].1
        &&& forall|k: Seq<u8>|
            self.model@.dom().contains(k) ==> exists|i: int|
                0 <= i < self.entries@.len() && (#[trigger] self.entries@[i]).0@ == k
    }

    /// An empty registry.
    pub fn new() -> (r: SessionRegistry<T>)
        ensures
            r.inv(),
            r@ == Map::<Seq<u8>, T>::empty(),
    {
        SessionRegistry { entries: Vec::new(), model: Ghost(Map::empty()) }
    }

    /// Whether a live session occupies the path.
    pub fn contains_key(&self, path: &Vec<u8>) -> (r: bool)
        requires
            self.inv(),
        ensures
            r == self@.dom().contains(path@),
    {
        let mut i: usize = 0;
        while i < self.entries.len()
            invariant
                self.inv(),
                i <= self.entries@.len(),
                forall|j: int| 0 <= j < i ==> (#[trigger] self.entries@[j]).0@ != path@,
            decreases self.entries@.len() - i,
        {
            let e = &self.entries[i];
            if bytes_eq(&e.0, path) {
                return true;
            }
            i = i + 1;
        }
        proof {
            if self@.dom().contains(path@) {
                let w = choose|j: int|
                    0 <= j < self.entries@.len() && (#[trigger] self.entries@[j]).0@ == path@;
            }
        }
        false
    }

    /// The session registered at a path, if any.
    pub fn get(&self, path: &Vec<u8>) -> (r: Option<&T>)
        requires
            self.inv(),
        ensures
            match r {
                Some(t) => self@.dom().contains(path@) && self@[path@] == *t,
                None => !self@.dom().contains(path@),
            },
    {
        let mut i: usize = 0;
        while i < self.entries.len()
            invariant
                self.inv(),
                i <= self.entries@.len(),
                forall|j: int| 0 <= j < i ==> (#[trigger] self.entries@[j]).0@ != path@,
            decreases self.entries@.len() - i,
        {
            let e = &self.entries[i];
            if bytes_eq(&e.0, path) {
                return Some(&e.1);
            }
            i = i + 1;
        }
        proof {
            if self@.dom().contains(path@) {
                let w = choose|j: int|
                    0 <= j < self.entries@.len() && (#[trigger] self.entries@[j]).0@ == path@;
            }
        }
        None
    }

    /// Registers a session at a free path; an occupied path is refused and
    /// the registry is unchanged.
    pub fn insert(&mut self, path: Vec<u8>, session: T) -> (r: Result<(), SessionCollision>)
        requires
            old(self).inv(),
        ensures
            final(self).inv(),
            match r {
                Ok(()) => !old(self)@.dom().contains(path@) && final(self)@ == old(self)@.insert(
                    path@,
                    session,
                ),
                Err(SessionCollision) => old(self)@.dom().contains(path@) && final(self)@ == old(
                    self,
                )@,
            },
    {
        let mut i: usize = 0;
        while i < self.entries.len()
            invariant
                self.inv(),
                self.entries@ == old(self).entries@,
                self.model@ == old(self)@,
                i <= self.entries@.len(),
                forall|j: int| 0 <= j < i ==> (#[trigger] self.entries@[j]).0@ != path@,
            decreases self.entries@.len() - i,
        {
            let e = &self.entries[i];
            if bytes_eq(&e.0, &path) {
                return Err(SessionCollision);
            }
            i = i + 1;
        }
        proof {
            if self@.dom().contains(path@) {
                let w = choose|j: int|
                    0 <= j < self.entries@.len() && (#[trigger] self.entries@[j]).0@ == path@;
            }
            self.model@ = self.model@.insert(path@, session);
        }
        let ghost oes = self.entries@;
        self.entries.push((path, session));
        proof {
            let es = self.entries@;
            assert forall|a: int, b: int| 0 <= a < b < es.len() implies es[a].0@ != es[b].0@ by {
                if b == es.len() - 1 {
                    assert(oes[a].0@ != es[b].0@);
                }
            }
            assert forall|k: Seq<u8>| self.model@.dom().contains(k) implies exists|i2: int|
                0 <= i2 < es.len() && (#[trigger] es[i2]).0@ == k by {
                if k == es[es.len() - 1].0@ {
                    assert(es[es.len() - 1].0@ == k);
                } else {
                    let w = choose|i2: int| 0 <= i2 < oes.len() && (#[trigger] oes[i2]).0@ == k;
                    assert(es[w].0@ == k);
                }
            }
        }
        Ok(())
    }

    /// Removes the session at a path; removing an absent path is a no-op.
    pub fn remove(&mut self, path: &Vec<u8>)
        requires
            old(self).inv(),
        ensures
            final(self).inv(),
            final(self)@ == old(self)@.remove(path@),
    {
        proof {
            self.model@ = self.model@.remove(path@);
        }
        let mut i: usize = 0;
        while i < self.entries.len()
            invariant
                old(self).inv(),
                i <= self.entries@.len(),
                self.entries@ == old(self).entries@,
                self.model@ == old(self)@.remove(path@),
                forall|j: int| 0 <= j < i ==> (#[trigger] self.entries@[j]).0@ != path@,
            decreases self.entries@.len() - i,
        {
            let e = &self.entries[i];
            if bytes_eq(&e.0, path) {
                let _removed = self.entries.swap_remove(i);
                proof {
                    let oes = old(self).entries@;
                    let es = self.entries@;
                    let at = i as int;
                    assert(es =~= oes.update(at, oes[oes.len() - 1]).drop_last());
                    assert forall|a: int, b: int| 0 <= a < b < es.len() implies es[a].0@
                        != es[b].0@ by {
                        if a == at {
                            if at != oes.len() - 1 {
                                assert(es[a] == oes[oes.len() - 1]);
                                assert(oes[b] == es[b]);
                            }
                        } else if b == at {
                            if at != oes.len() - 1 {
                                assert(es[b] == oes[oes.len() - 1]);
                                assert(oes[a] == es[a]);
                            }
                        }
                    }
                    assert forall|ii: int|
                        0 <= ii < es.len() implies self.model@.dom().contains(
                        #[trigger] es[ii].0@,
                    ) && self.model@[es[ii].0@] == es[ii].1 by {
                        if ii == at {
                            assert(es[ii] == oes[oes.len() - 1]);
                            if at != oes.len() - 1 {
                                assert(oes[at].0@ != oes[oes.len() - 1].0@);
                            }
                        } else {
                            assert(es[ii] == oes[ii]);
                            assert(oes[ii].0@ != path@);
                        }
                    }
                    assert forall|k: Seq<u8>| self.model@.dom().contains(k) implies exists|
                        i2: int,
                    |
                        0 <= i2 < es.len() && (#[trigger] es[i2]).0@ == k by {
                        let w = choose|i2: int|
                            0 <= i2 < oes.len() && (#[trigger] oes[i2]).0@ == k;
                        if w == oes.len() - 1 {
                            if at != oes.len() - 1 {
                                assert(es[at].0@ == k);
                            } else {
                                assert(k == path@);
                            }
                        } else if w == at {
                            assert(k == path@);
                        } else {
                            assert(es[w].0@ == k);
                        }
                    }
                }
                return ;
            }
            i = i + 1;
        }
        proof {
            if old(self)@.dom().contains(path@) {
                let w = choose|j: int|
                    0 <= j < old(self).entries@.len() && (#[trigger] old(self).entries@[j]).0@
                        == path@;
            }
            assert(self.model@ =~= old(self)@.remove(path@));
        }
    }
}

/// Every registration is balanced by a removal: inserting a session at a
/// free path and then removing that path restores the registry exactly, so
/// a handler that removes its path on every exit leaves no entry behind.
pub proof fn lemma_insert_remove_balanced<T>(m: Map<Seq<u8>, T>, path: Seq<u8>, session: T)
    requires
        !m.dom().contains(path),
    ensures
        m.insert(path, session).remove(path) == m,
{
    assert(m.insert(path, session).remove(path) =~= m);
}

/// Removal is idempotent: removing a path twice is the same as once.
pub proof fn lemma_remove_idempotent<T>(m: Map<Seq<u8>, T>, path: Seq<u8>)
    ensures
        m.remove(path).remove(path) == m.remove(path),
{
    assert(m.remove(path).remove(path) =~= m.remove(path));
}

} // verus!
