use vstd::prelude::*;
use crate::accounts::AccountDirectory;
use crate::cache::SessionCache;
use crate::store::{has_id, has_token, owned_by, token_record, without_id, TokenStore};
use crate::token::{AccessToken, Session, TokenError};

verus! {

/// The token strings carried by `records`.
pub open spec fn token_keys(records: Seq<AccessToken>) -> Set<Seq<char>> {
    Set::new(|k: Seq<char>| has_token(records, k))
}

/// The token store, the session cache in front of it, and the account
/// directory that sessions are resolved against.
pub struct TokenService {
    pub store: TokenStore,
    pub cache: SessionCache,
    pub accounts: AccountDirectory,
}

/// What `authorize` returns for token string `t` on service state `s`.
pub open spec fn resolution(s: TokenService, t: Seq<char>) -> Result<Session, TokenError> {
    if !s.cache.is_online() {
        Err(TokenError::Infrastructure)
    } else if s.cache@.contains_key(t) {
        Ok(s.cache@[t])
    } else if !s.store.is_online() {
        Err(TokenError::Infrastructure)
    } else if !has_token(s.store.records(), t) {
        Err(TokenError::Unauthorized)
    } else if !s.accounts@.contains_key(token_record(s.store.records(), t).account_id) {
        Err(TokenError::NotFound)
    } else {
        let owner = token_record(s.store.records(), t).account_id;
        Ok(Session { account_id: owner, flags: s.accounts@[owner] })
    }
}

/// Whether `authorize` on `t` is answered by the cache alone.
pub open spec fn cache_hit(s: TokenService, t: Seq<char>) -> bool {
    s.cache.is_online() && s.cache@.contains_key(t)
}

/// What a call of `issue(account_id, token, created_at)` that returned `r`
/// did to the service, from state `s0` to state `s1`.
pub open spec fn issue_post(
    s0: TokenService,
    s1: TokenService,
    account_id: u64,
    token: Seq<char>,
    created_at: u64,
    r: Result<AccessToken, TokenError>,
) -> bool {
    &&& s1.accounts == s0.accounts
    &&& s1.store.is_online() == s0.store.is_online()
    &&& s1.cache.is_online() == s0.cache.is_online()
    &&& r.is_ok() <==> s0.store.is_online() && !has_token(s0.store.records(), token)
        && s0.store.next_id() < u64::MAX
    &&& r matches Err(e) ==> s1 == s0 && (e == TokenError::Issue <==> s0.store.is_online()
        && has_token(s0.store.records(), token)) && (e == TokenError::Issue || e
        == TokenError::Infrastructure)
    &&& r matches Ok(t) ==> {
        &&& t.id == s0.store.next_id()
        &&& t.account_id == account_id
        &&& t.token@ == token
        &&& t.created_at == created_at
        &&& s1.store.records() == s0.store.records().push(t)
        &&& s1.store.next_id() == t.id + 1
        &&& s1.cache@ == s0.cache@.remove_keys(token_keys(owned_by(s0.store.records(), account_id)))
    }
}

/// What a call of `revoke(account_id, token_id)` that returned `r` did to
/// the service, from state `s0` to state `s1`.
pub open spec fn revoke_post(
    s0: TokenService,
    s1: TokenService,
    account_id: u64,
    token_id: u64,
    r: Result<(), TokenError>,
) -> bool {
    &&& s1.accounts == s0.accounts
    &&& s1.store.is_online() == s0.store.is_online()
    &&& s1.cache.is_online() == s0.cache.is_online()
    &&& r.is_ok() <==> s0.store.is_online() && has_id(s0.store.records(), token_id)
    &&& r matches Err(e) ==> s1 == s0 && (e == TokenError::NotFound <==> s0.store.is_online()) && (e
        == TokenError::NotFound || e == TokenError::Infrastructure)
    &&& r.is_ok() ==> {
        &&& s1.store.records() == without_id(s0.store.records(), token_id)
        &&& s1.store.next_id() == s0.store.next_id()
        &&& s1.cache@ == s0.cache@.remove_keys(token_keys(owned_by(s0.store.records(), account_id)))
    }
}

/// What a call of `authorize` on token string `t` that returned `r` did to
/// the service, from state `s0` to state `s1`: only a resolution found
/// outside the cache is written into it.
pub open spec fn authorize_post(
    s0: TokenService,
    s1: TokenService,
    t: Seq<char>,
    r: Result<Session, TokenError>,
) -> bool {
    &&& r == resolution(s0, t)
    &&& s1.store == s0.store
    &&& s1.accounts == s0.accounts
    &&& s1.cache.is_online() == s0.cache.is_online()
    &&& s1.cache@ == (match r {
        Ok(v) => s0.cache@.insert(t, v),
        Err(_) => s0.cache@,
    })
}

/// Drops the cache entry of every token string in `tokens`.
fn purge(cache: &mut SessionCache, tokens: &Vec<AccessToken>)
    requires
        old(cache).wf(),
    ensures
        final(cache).wf(),
        final(cache).is_online() == old(cache).is_online(),
        final(cache)@ == old(cache)@.remove_keys(token_keys(tokens@)),
{
    let mut i: usize = 0;
    while i < tokens.len()
        invariant
            cache.wf(),
            cache.is_online() == old(cache).is_online(),
            i <= tokens@.len(),
            cache@ == old(cache)@.remove_keys(token_keys(tokens@.subrange(0, i as int))),
        decreases tokens@.len() - i,
    {
        let ghost before = cache@;
        cache.delete(&tokens[i].token);
        proof {
            let prev = tokens@.subrange(0, i as int);
            let next = tokens@.subrange(0, i as int + 1);
            assert forall|k: Seq<char>| #[trigger]
                token_keys(next).contains(k) == token_keys(prev).insert(tokens@[i as int].token@).contains(k) by {
                if has_token(next, k) {
                    let j = choose|j: int| 0 <= j < next.len() && (#[trigger] next[j]).token@ == k;
                    if j < i {
                        assert(prev[j] == next[j]);
                    }
                }
                if has_token(prev, k) {
                    let j = choose|j: int| 0 <= j < prev.len() && (#[trigger] prev[j]).token@ == k;
                    assert(next[j] == prev[j]);
                }
                if k == tokens@[i as int].token@ {
                    assert(next[i as int] == tokens@[i as int]);
                }
            }
            assert(token_keys(next) =~= token_keys(prev).insert(tokens@[i as int].token@));
            assert(cache@ =~= old(cache)@.remove_keys(token_keys(next)));
        }
        i += 1;
    }
    assert(tokens@.subrange(0, tokens@.len() as int) == tokens@);
}

impl TokenService {
    /// Both stores are well formed.
    pub open spec fn wf(&self) -> bool {
        self.store.wf() && self.cache.wf()
    }

    /// An empty, reachable service over `accounts`.
    pub fn new(accounts: AccountDirectory) -> (s: TokenService)
        ensures
            s.wf(),
            s.store.records() == Seq::<AccessToken>::empty(),
            s.store.next_id() == 0,
            s.store.is_online(),
            s.cache@ == Map::<Seq<char>, Session>::empty(),
            s.cache.is_online(),
            s.accounts == accounts,
    {
        TokenService { store: TokenStore::new(), cache: SessionCache::new(), accounts }
    }

    /// Issues `token` as a new access token of `account_id`.
    ///
    /// The account's current tokens are read first, the new record is then
    /// persisted, and only after that are the cache entries of the earlier
    /// tokens dropped; the new token's own entry is left alone. The earlier
    /// tokens stay valid in the store. A taken token string fails with
    /// `Issue`, an unreachable store with `Infrastructure`; a failure
    /// changes nothing.
    pub fn issue(&mut self, account_id: u64, token: String, created_at: u64) -> (r: Result<
        AccessToken,
        TokenError,
    >)
        requires
            old(self).wf(),
        ensures
            final(self).wf(),
            issue_post(*old(self), *final(self), account_id, token@, created_at, r),
    {
        let earlier = match self.store.list(account_id) {
            Ok(v) => v,
            Err(e) => {
                return Err(e);
            },
        };
        let created = match self.store.create(account_id, token, created_at) {
            Ok(t) => t,
            Err(TokenError::Conflict) => {
                return Err(TokenError::Issue);
            },
            Err(e) => {
                return Err(e);
            },
        };
        purge(&mut self.cache, &earlier);
        Ok(created)
    }

    /// Revokes the token with id `token_id`, then drops the cache entry of
    /// every token that `account_id` held when the call began. An unknown id
    /// fails with `NotFound`, an unreachable store with `Infrastructure`; a
    /// failure changes nothing.
    pub fn revoke(&mut self, account_id: u64, token_id: u64) -> (r: Result<(), TokenError>)
        requires
            old(self).wf(),
        ensures
            final(self).wf(),
            revoke_post(*old(self), *final(self), account_id, token_id, r),
    {
        let held = match self.store.list(account_id) {
            Ok(v) => v,
            Err(e) => {
                return Err(e);
            },
        };
        match self.store.delete(token_id) {
            Ok(()) => {},
            Err(e) => {
                return Err(e);
            },
        }
        purge(&mut self.cache, &held);
        Ok(())
    }

    /// Resolves `token` to a session: from the cache when it holds one,
    /// otherwise from the store and the account directory, caching what was
    /// found. A token string that no record carries fails with
    /// `Unauthorized`; an unreachable store or cache with `Infrastructure`.
    pub fn authorize(&mut self, token: &String) -> (r: Result<Session, TokenError>)
        requires
            old(self).wf(),
        ensures
            final(self).wf(),
            authorize_post(*old(self), *final(self), token@, r),
    {
        match self.cache.lookup(token) {
            Err(e) => {
                return Err(e);
            },
            Ok(Some(s)) => {
                assert(self.cache@.insert(token@, s) =~= self.cache@);
                return Ok(s);
            },
            Ok(None) => {},
        }
        let rec = match self.store.find_by_token(token) {
            Err(e) => {
                return Err(e);
            },
            Ok(None) => {
                return Err(TokenError::Unauthorized);
            },
            Ok(Some(rec)) => rec,
        };
        let flags = match self.accounts.flags_of(rec.account_id) {
            None => {
                return Err(TokenError::NotFound);
            },
            Some(f) => f,
        };
        let session = Session { account_id: rec.account_id, flags };
        match self.cache.put(token.clone(), session) {
            Err(e) => {
                return Err(e);
            },
            Ok(()) => {},
        }
        Ok(session)
    }
}

} // verus!
