use vstd::prelude::*;
use crate::token::{Session, TokenError};

verus! {

/// Volatile cache from token strings to resolved sessions.
pub struct SessionCache {
    entries: Vec<(String, Session)>,
    online: bool,
}

/// Whether `k` is the key of some entry.
pub open spec fn keyed(entries: Seq<(String, Session)>, k: Seq<char>) -> bool {
    exists|i: int| 0 <= i < entries.len() && (#[trigger] entries[i]).0@ == k
}

impl View for SessionCache {
    type V = Map<Seq<char>, Session>;

    closed spec fn view(&self) -> Map<Seq<char>, Session> {
        Map::new(
            |k: Seq<char>| keyed(self.entries@, k),
            |k: Seq<char>|
                self.entries@[choose|i: int|
                    0 <= i < self.entries@.len() && (#[trigger] self.entries@[i]).0@ == k].1,
        )
    }
}

impl SessionCache {
    /// Whether the cache can currently be reached.
    pub closed spec fn is_online(&self) -> bool {
        self.online
    }

    /// No two entries share a key.
    pub closed spec fn wf(&self) -> bool {
        forall|i: int, j: int|
            0 <= i < j < self.entries@.len() ==> (#[trigger] self.entries@[i]).0@
                != (#[trigger] self.entries@[j]).0@
    }

    proof fn lemma_entry(&self, i: int)
        requires
            self.wf(),
            0 <= i < self.entries@.len(),
        ensures
            self@.contains_key(self.entries@[i].0@),
            self@[self.entries@[i].0@] == self.entries@[i].1,
    {
        let k = self.entries@[i].0@;
        assert(keyed(self.entries@, k));
        let j = choose|j: int| 0 <= j < self.entries@.len() && (#[trigger] self.entries@[j]).0@ == k;
        assert(i == j) by {
            if i < j {
                assert(self.entries@[i].0@ != self.entries@[j].0@);
            } else if j < i {
                assert(self.entries@[j].0@ != self.entries@[i].0@);
            }
        }
    }

    /// An empty, reachable cache.
    pub fn new() -> (c: SessionCache)
        ensures
            c.wf(),
            c@ == Map::<Seq<char>, Session>::empty(),
            c.is_online(),
    {
        let c = SessionCache { entries: Vec::new(), online: true };
        assert(c@ =~= Map::<Seq<char>, Session>::empty());
        c
    }

    /// Marks the cache as reachable or unreachable.
    pub fn set_online(&mut self, online: bool)
        requires
            old(self).wf(),
        ensures
            final(self).wf(),
            final(self)@ == old(self)@,
            final(self).is_online() == online,
    {
        self.online = online;
        assert(final(self)@ =~= old(self)@);
    }

    /// Whether the cache can currently be reached.
    pub fn online(&self) -> (r: bool)
        ensures
            r == self.is_online(),
    {
        self.online
    }

    /// The position of the entry keyed by `key`, if any.
    fn position(&self, key: &String) -> (r: Option<usize>)
        requires
            self.wf(),
        ensures
            r.is_none() <==> !self@.contains_key(key@),
            r matches Some(i) ==> i < self.entries@.len() && self.entries@[i as int].0@ == key@
                && self@[key@] == self.entries@[i as int].1,
    {
        let mut i: usize = 0;
        while i < self.entries.len()
            invariant
                self.wf(),
                i <= self.entries@.len(),
                forall|j: int| 0 <= j < i ==> (#[trigger] self.entries@[j]).0@ != key@,
            decreases self.entries@.len() - i,
        {
            if self.entries[i].0 == *key {
                proof {
                    self.lemma_entry(i as int);
                }
                return Some(i);
            }
            i += 1;
        }
        None
    }

    /// The session cached for `key`, or `None` on a miss; fails only when
    /// the cache is unreachable. Reading changes nothing.
    pub fn lookup(&self, key: &String) -> (r: Result<Option<Session>, TokenError>)
        requires
            self.wf(),
        ensures
            self.is_online() <==> r.is_ok(),
            r matches Err(e) ==> e == TokenError::Infrastructure,
            r matches Ok(o) ==> o == (if self@.contains_key(key@) {
                Some(self@[key@])
            } else {
                None::<Session>
            }),
    {
        if !self.online {
            return Err(TokenError::Infrastructure);
        }
        match self.position(key) {
            Some(i) => Ok(Some(self.entries[i].1)),
            None => Ok(None),
        }
    }

    /// Caches `session` under `key`, replacing any earlier entry; fails,
    /// changing nothing, only when the cache is unreachable.
    pub fn put(&mut self, key: String, session: Session) -> (r: Result<(), TokenError>)
        requires
            old(self).wf(),
        ensures
            final(self).wf(),
            final(self).is_online() == old(self).is_online(),
            old(self).is_online() <==> r.is_ok(),
            r.is_ok() ==> final(self)@ == old(self)@.insert(key@, session),
            r matches Err(e) ==> e == TokenError::Infrastructure && final(self)@ == old(self)@,
    {
        if !self.online {
            return Err(TokenError::Infrastructure);
        }
        let ghost k = key@;
        let ghost pre = self.entries@;
        match self.position(&key) {
            Some(i) => {
                self.entries.set(i, (key, session));
                proof {
                    assert forall|a: int, b: int|
                        0 <= a < b < self.entries@.len() implies (#[trigger] self.entries@[a]).0@
                        != (#[trigger] self.entries@[b]).0@ by {
                        if a != i && b != i {
                            assert(pre[a].0@ != pre[b].0@);
                        } else if a == i {
                            assert(pre[a].0@ != pre[b].0@);
                        } else {
                            assert(pre[a].0@ != pre[b].0@);
                        }
                    }
                    assert forall|q: Seq<char>| #![auto]
                        final(self)@.contains_key(q) == old(self)@.insert(k, session).contains_key(q)
                        by {
                        if q != k && keyed(pre, q) {
                            let j = choose|j: int| 0 <= j < pre.len() && (#[trigger] pre[j]).0@ == q;
                            assert(self.entries@[j].0@ == q);
                        }
                        if keyed(self.entries@, q) && q != k {
                            let j = choose|j: int|
                                0 <= j < self.entries@.len() && (#[trigger] self.entries@[j]).0@ == q;
                            assert(pre[j].0@ == q);
                        }
                        assert(self.entries@[i as int].0@ == k);
                    }
                    assert forall|q: Seq<char>| #[trigger]
                        final(self)@.contains_key(q) implies final(self)@[q] == old(self)@.insert(
                        k,
                        session,
                    )[q] by {
                        let j = choose|j: int|
                            0 <= j < self.entries@.len() && (#[trigger] self.entries@[j]).0@ == q;
                        self.lemma_entry(j);
                        if j != i {
                            old(self).lemma_entry(j);
                        }
                    }
                    assert(final(self)@ =~= old(self)@.insert(k, session));
                }
            },
            None => {
                self.entries.push((key, session));
                proof {
                    assert forall|q: Seq<char>| #![auto]
                        final(self)@.contains_key(q) == old(self)@.insert(k, session).contains_key(q)
                        by {
                        if q != k && keyed(pre, q) {
                            let j = choose|j: int| 0 <= j < pre.len() && (#[trigger] pre[j]).0@ == q;
                            assert(self.entries@[j].0@ == q);
                        }
                        if keyed(self.entries@, q) && q != k {
                            let j = choose|j: int|
                                0 <= j < self.entries@.len() && (#[trigger] self.entries@[j]).0@ == q;
                            assert(pre[j].0@ == q);
                        }
                        assert(self.entries@[pre.len() as int].0@ == k);
                    }
                    assert forall|q: Seq<char>| #[trigger]
                        final(self)@.contains_key(q) implies final(self)@[q] == old(self)@.insert(
                        k,
                        session,
                    )[q] by {
                        let j = choose|j: int|
                            0 <= j < self.entries@.len() && (#[trigger] self.entries@[j]).0@ == q;
                        self.lemma_entry(j);
                        if j < pre.len() {
                            old(self).lemma_entry(j);
                        }
                    }
                    assert(final(self)@ =~= old(self)@.insert(k, session));
                }
            },
        }
        Ok(())
    }

    /// Drops the entry for `key`. Best effort: an absent key, or an
    /// unreachable cache, is no error, and nothing is reported.
    pub fn delete(&mut self, key: &String)
        requires
            old(self).wf(),
        ensures
            final(self).wf(),
            final(self).is_online() == old(self).is_online(),
            final(self)@ == old(self)@.remove(key@),
    {
        let ghost k = key@;
        let ghost pre = self.entries@;
        match self.position(key) {
            Some(i) => {
                self.entries.remove(i);
                proof {
                    assert(forall|a: int|
                        0 <= a < self.entries@.len() ==> #[trigger] self.entries@[a] == pre[if a < i {
                            a
                        } else {
                            a + 1
                        }]);
                    assert forall|a: int, b: int|
                        0 <= a < b < self.entries@.len() implies (#[trigger] self.entries@[a]).0@
                        != (#[trigger] self.entries@[b]).0@ by {
                        let a2 = if a < i { a } else { a + 1 };
                        let b2 = if b < i { b } else { b + 1 };
                        assert(pre[a2].0@ != pre[b2].0@);
                    }
                    assert forall|q: Seq<char>| #![auto]
                        final(self)@.contains_key(q) == old(self)@.remove(k).contains_key(q) by {
                        if q != k && keyed(pre, q) {
                            let j = choose|j: int| 0 <= j < pre.len() && (#[trigger] pre[j]).0@ == q;
                            assert(j != i);
                            let j2 = if j < i { j } else { j - 1 };
                            assert(self.entries@[j2].0@ == q);
                        }
                        if keyed(self.entries@, q) {
                            let j = choose|j: int|
                                0 <= j < self.entries@.len() && (#[trigger] self.entries@[j]).0@ == q;
                            let j2 = if j < i { j } else { j + 1 };
                            assert(pre[j2].0@ == q);
                            assert(j2 != i ==> pre[j2].0@ != pre[i as int].0@);
                        }
                    }
                    assert forall|q: Seq<char>| #[trigger]
                        final(self)@.contains_key(q) implies final(self)@[q] == old(self)@.remove(
                        k,
                    )[q] by {
                        let j = choose|j: int|
                            0 <= j < self.entries@.len() && (#[trigger] self.entries@[j]).0@ == q;
                        self.lemma_entry(j);
                        let j2 = if j < i { j } else { j + 1 };
                        old(self).lemma_entry(j2);
                    }
                    assert(final(self)@ =~= old(self)@.remove(k));
                }
            },
            None => {
                assert(old(self)@ =~= old(self)@.remove(k));
            },
        }
    }
}

} // verus!
