use vstd::prelude::*;
use crate::token::{AccessToken, TokenError};

verus! {

broadcast use vstd::seq_lib::group_filter_ensures;

/// The records of one account, in store order.
pub open spec fn owned_by(records: Seq<AccessToken>, account_id: u64) -> Seq<AccessToken> {
    records.filter(|r: AccessToken| r.account_id == account_id)
}

/// The records whose id differs from `id`, in store order.
pub open spec fn without_id(records: Seq<AccessToken>, id: u64) -> Seq<AccessToken> {
    records.filter(|r: AccessToken| r.id != id)
}

/// Whether some record carries the token string `t`.
pub open spec fn has_token(records: Seq<AccessToken>, t: Seq<char>) -> bool {
    exists|i: int| 0 <= i < records.len() && (#[trigger] records[i]).token@ == t
}

/// The record that carries token string `t` (meaningful when `has_token`).
pub open spec fn token_record(records: Seq<AccessToken>, t: Seq<char>) -> AccessToken {
    records[choose|i: int| 0 <= i < records.len() && (#[trigger] records[i]).token@ == t]
}

/// Whether some record carries the id `id`.
pub open spec fn has_id(records: Seq<AccessToken>, id: u64) -> bool {
    exists|i: int| 0 <= i < records.len() && (#[trigger] records[i]).id == id
}

/// Durable store of access-token records.
pub struct TokenStore {
    records: Vec<AccessToken>,
    next_id: u64,
    online: bool,
}

impl TokenStore {
    /// The persisted records, in creation order.
    pub closed spec fn records(&self) -> Seq<AccessToken> {
        self.records@
    }

    /// Whether the store can currently be reached.
    pub closed spec fn is_online(&self) -> bool {
        self.online
    }

    /// The id that the next successful `create` assigns.
    pub closed spec fn next_id(&self) -> u64 {
        self.next_id
    }

    /// Ids and token strings are unique, and every id lies below `next_id`.
    pub closed spec fn wf(&self) -> bool {
        &&& forall|i: int, j: int|
            0 <= i < j < self.records@.len() ==> (#[trigger] self.records@[i]).id
                != (#[trigger] self.records@[j]).id && self.records@[i].token@
                != self.records@[j].token@
        &&& forall|i: int|
            0 <= i < self.records@.len() ==> (#[trigger] self.records@[i]).id < self.next_id
    }

    /// An empty, reachable store.
    pub fn new() -> (s: TokenStore)
        ensures
            s.wf(),
            s.records() == Seq::<AccessToken>::empty(),
            s.next_id() == 0,
            s.is_online(),
    {
        TokenStore { records: Vec::new(), next_id: 0, online: true }
    }

    /// Marks the store as reachable or unreachable.
    pub fn set_online(&mut self, online: bool)
        requires
            old(self).wf(),
        ensures
            final(self).wf(),
            final(self).records() == old(self).records(),
            final(self).next_id() == old(self).next_id(),
            final(self).is_online() == online,
    {
        self.online = online;
    }

    /// Whether the store can currently be reached.
    pub fn online(&self) -> (r: bool)
        ensures
            r == self.is_online(),
    {
        self.online
    }

    /// All records of `account_id`, in store order; fails only when the
    /// store is unreachable.
    pub fn list(&self, account_id: u64) -> (r: Result<Vec<AccessToken>, TokenError>)
        requires
            self.wf(),
        ensures
            self.is_online() <==> r.is_ok(),
            r matches Ok(v) ==> v@ == owned_by(self.records(), account_id),
            r matches Err(e) ==> e == TokenError::Infrastructure,
    {
        if !self.online {
            return Err(TokenError::Infrastructure);
        }
        let mut out: Vec<AccessToken> = Vec::new();
        let mut i: usize = 0;
        while i < self.records.len()
            invariant
                i <= self.records@.len(),
                out@ == owned_by(self.records@.subrange(0, i as int), account_id),
            decreases self.records@.len() - i,
        {
            proof {
                let s = self.records@.subrange(0, i as int + 1);
                assert(s.drop_last() == self.records@.subrange(0, i as int));
                reveal(Seq::filter);
            }
            if self.records[i].account_id == account_id {
                out.push(self.records[i].duplicate());
            }
            i += 1;
        }
        assert(self.records@.subrange(0, self.records@.len() as int) == self.records@);
        Ok(out)
    }

    /// Persists a new record for `account_id` with token string `token`.
    /// Fails with `Conflict` when the string is already taken and with
    /// `Infrastructure` when the store is unreachable or its ids are spent;
    /// a failure changes nothing.
    pub fn create(&mut self, account_id: u64, token: String, created_at: u64) -> (r: Result<
        AccessToken,
        TokenError,
    >)
        requires
            old(self).wf(),
        ensures
            final(self).wf(),
            final(self).is_online() == old(self).is_online(),
            r.is_ok() <==> old(self).is_online() && !has_token(old(self).records(), token@)
                && old(self).next_id() < u64::MAX,
            r matches Err(e) ==> *final(self) == *old(self) && (e == TokenError::Conflict <==> old(self).is_online()
                && has_token(old(self).records(), token@)) && (e == TokenError::Conflict || e
                == TokenError::Infrastructure),
            r matches Ok(t) ==> {
                &&& t.id == old(self).next_id()
                &&& t.account_id == account_id
                &&& t.token@ == token@
                &&& t.created_at == created_at
                &&& final(self).records() == old(self).records().push(t)
                &&& final(self).next_id() == t.id + 1
            },
    {
        if !self.online {
            return Err(TokenError::Infrastructure);
        }
        if self.find_index(&token).is_some() {
            return Err(TokenError::Conflict);
        }
        if self.next_id == u64::MAX {
            return Err(TokenError::Infrastructure);
        }
        let rec = AccessToken { id: self.next_id, account_id, token, created_at };
        let out = rec.duplicate();
        self.records.push(rec);
        self.next_id = self.next_id + 1;
        Ok(out)
    }

    /// The position of the record carrying token string `t`, if any.
    fn find_index(&self, t: &String) -> (r: Option<usize>)
        requires
            self.wf(),
        ensures
            r.is_none() <==> !has_token(self.records(), t@),
            r matches Some(i) ==> i < self.records@.len() && self.records@[i as int].token@ == t@,
    {
        let mut i: usize = 0;
        while i < self.records.len()
            invariant
                i <= self.records@.len(),
                forall|j: int| 0 <= j < i ==> (#[trigger] self.records@[j]).token@ != t@,
            decreases self.records@.len() - i,
        {
            if self.records[i].token == *t {
                return Some(i);
            }
            i += 1;
        }
        None
    }

    /// The record carrying token string `t`, if any; fails only when the
    /// store is unreachable.
    pub fn find_by_token(&self, t: &String) -> (r: Result<Option<AccessToken>, TokenError>)
        requires
            self.wf(),
        ensures
            self.is_online() <==> r.is_ok(),
            r matches Err(e) ==> e == TokenError::Infrastructure,
            r matches Ok(o) ==> (o.is_none() <==> !has_token(self.records(), t@)),
            r matches Ok(Some(rec)) ==> rec == token_record(self.records(), t@),
    {
        if !self.online {
            return Err(TokenError::Infrastructure);
        }
        match self.find_index(t) {
            Some(i) => {
                proof {
                    let j = choose|j: int|
                        0 <= j < self.records@.len() && (#[trigger] self.records@[j]).token@ == t@;
                    assert(i == j) by {
                        if (i as int) < j {
                            assert(self.records@[i as int].token@ != self.records@[j].token@);
                        } else if j < i {
                            assert(self.records@[j].token@ != self.records@[i as int].token@);
                        }
                    }
                }
                Ok(Some(self.records[i].duplicate()))
            },
            None => Ok(None),
        }
    }

    /// Removes the record with id `id`. Fails with `NotFound` when there is
    /// none and with `Infrastructure` when the store is unreachable; a
    /// failure changes nothing.
    pub fn delete(&mut self, id: u64) -> (r: Result<(), TokenError>)
        requires
            old(self).wf(),
        ensures
            final(self).wf(),
            final(self).is_online() == old(self).is_online(),
            final(self).next_id() == old(self).next_id(),
            r.is_ok() <==> old(self).is_online() && has_id(old(self).records(), id),
            r.is_ok() ==> final(self).records() == without_id(old(self).records(), id),
            r matches Err(e) ==> *final(self) == *old(self) && (e
                == TokenError::NotFound <==> old(self).is_online()) && (e == TokenError::NotFound
                || e == TokenError::Infrastructure),
    {
        if !self.online {
            return Err(TokenError::Infrastructure);
        }
        let mut found: bool = false;
        let mut kept: Vec<AccessToken> = Vec::new();
        let mut i: usize = 0;
        while i < self.records.len()
            invariant
                i <= self.records@.len(),
                kept@ == without_id(self.records@.subrange(0, i as int), id),
                found <==> exists|j: int| 0 <= j < i && (#[trigger] self.records@[j]).id == id,
            decreases self.records@.len() - i,
        {
            proof {
                let s = self.records@.subrange(0, i as int + 1);
                assert(s.drop_last() == self.records@.subrange(0, i as int));
                reveal(Seq::filter);
            }
            if self.records[i].id != id {
                kept.push(self.records[i].duplicate());
            } else {
                found = true;
            }
            i += 1;
        }
        assert(self.records@.subrange(0, self.records@.len() as int) == self.records@);
        if !found {
            return Err(TokenError::NotFound);
        }
        proof {
            let pred = |r: AccessToken| r.id != id;
            assert forall|a: int| 0 <= a < kept@.len() implies (#[trigger] kept@[a]).id
                < self.next_id by {
                assert(kept@.contains(kept@[a]));
                self.records@.lemma_filter_contains_rev(pred, kept@[a]);
            }
            assert forall|a: int, b: int| 0 <= a < b < kept@.len() implies (#[trigger] kept@[a]).id
                != (#[trigger] kept@[b]).id && kept@[a].token@ != kept@[b].token@ by {
                lemma_filter_order(self.records@, pred, a, b);
            }
        }
        self.records = kept;
        Ok(())
    }
}

/// Ids are pairwise distinct in `records`.
pub open spec fn ids_unique(records: Seq<AccessToken>) -> bool {
    forall|i: int, j: int|
        0 <= i < j < records.len() ==> (#[trigger] records[i]).id != (#[trigger] records[j]).id
}

/// Removing an id that occurs once drops exactly one record.
proof fn lemma_without_id_len(records: Seq<AccessToken>, id: u64)
    requires
        ids_unique(records),
    ensures
        without_id(records, id).len() == records.len() - (if has_id(records, id) {
            1int
        } else {
            0int
        }),
    decreases records.len(),
{
    reveal(Seq::filter);
    if records.len() > 0 {
        let p = records.drop_last();
        assert(ids_unique(p)) by {
            assert forall|i: int, j: int| 0 <= i < j < p.len() implies (#[trigger] p[i]).id
                != (#[trigger] p[j]).id by {
                assert(p[i] == records[i] && p[j] == records[j]);
            }
        }
        lemma_without_id_len(p, id);
        if has_id(p, id) {
            let k = choose|k: int| 0 <= k < p.len() && (#[trigger] p[k]).id == id;
            assert(records[k] == p[k]);
            assert(records.last().id != id) by {
                assert(records[k].id != records[records.len() - 1].id);
            }
        } else if has_id(records, id) {
            let k = choose|k: int| 0 <= k < records.len() && (#[trigger] records[k]).id == id;
            if k < records.len() - 1 {
                assert(p[k] == records[k]);
            }
        } else {
            assert(records[records.len() - 1].id != id);
        }
        if has_id(p, id) {
            let k = choose|k: int| 0 <= k < p.len() && (#[trigger] p[k]).id == id;
            assert(records[k] == p[k]);
        }
    }
}

impl TokenStore {
    /// Deleting an existing id removes exactly that record: one record
    /// fewer, none left with that id, and every other record kept.
    pub proof fn lemma_delete_exact(&self, id: u64)
        requires
            self.wf(),
            has_id(self.records(), id),
        ensures
            without_id(self.records(), id).len() == self.records().len() - 1,
            !has_id(without_id(self.records(), id), id),
            forall|i: int|
                0 <= i < self.records().len() && (#[trigger] self.records()[i]).id != id
                    ==> without_id(self.records(), id).contains(self.records()[i]),
    {
        let rs = self.records@;
        assert(ids_unique(rs));
        lemma_without_id_len(rs, id);
        let w = without_id(rs, id);
        if has_id(w, id) {
            let k = choose|k: int| 0 <= k < w.len() && (#[trigger] w[k]).id == id;
        }
    }
}

/// Two positions of a filtered sequence come from two ordered positions of
/// the original.
proof fn lemma_filter_order(s: Seq<AccessToken>, pred: spec_fn(AccessToken) -> bool, a: int, b: int)
    requires
        0 <= a < b < s.filter(pred).len(),
    ensures
        exists|i: int, j: int|
            0 <= i < j < s.len() && s[i] == s.filter(pred)[a] && s[j] == s.filter(pred)[b],
    decreases s.len(),
{
    reveal(Seq::filter);
    let f = s.filter(pred);
    let p = s.drop_last();
    if pred(s.last()) && b == f.len() - 1 {
        assert(f[a] == p.filter(pred)[a]);
        assert(p.filter(pred).contains(f[a]));
        p.lemma_filter_contains_rev(pred, f[a]);
        let i = choose|i: int| 0 <= i < p.len() && p[i] == f[a];
        assert(s[i] == f[a]);
        assert(s[s.len() - 1] == f[b]);
    } else {
        lemma_filter_order(p, pred, a, b);
        let (i, j) = choose|i: int, j: int|
            0 <= i < j < p.len() && p[i] == p.filter(pred)[a] && p[j] == p.filter(pred)[b];
        assert(s[i] == f[a] && s[j] == f[b]);
    }
}

} // verus!
