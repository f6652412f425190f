use vstd::prelude::*;
use crate::cache::SessionCache;
use crate::lifecycle::{
    authorize_post, cache_hit, issue_post, resolution, revoke_post, token_keys, TokenService,
};
use crate::store::{has_id, has_token, owned_by, token_record, without_id};
use crate::token::{AccessToken, Session, TokenError};

verus! {

broadcast use vstd::seq_lib::group_filter_ensures;

/// Every record of an account is a record of the store.
proof fn lemma_owned_in(records: Seq<AccessToken>, account_id: u64, r: AccessToken)
    requires
        owned_by(records, account_id).contains(r),
    ensures
        records.contains(r),
{
    records.lemma_filter_contains_rev(|x: AccessToken| x.account_id == account_id, r);
}

/// A token string carried by none of the records is carried by none of one
/// account's records.
proof fn lemma_fresh_not_owned(records: Seq<AccessToken>, account_id: u64, t: Seq<char>)
    requires
        !has_token(records, t),
    ensures
        !token_keys(owned_by(records, account_id)).contains(t),
{
    let o = owned_by(records, account_id);
    if has_token(o, t) {
        let i = choose|i: int| 0 <= i < o.len() && (#[trigger] o[i]).token@ == t;
        assert(o.contains(o[i]));
        lemma_owned_in(records, account_id, o[i]);
    }
}

/// The record appended last is the one that carries a token string that
/// the earlier records did not.
proof fn lemma_record_of_fresh(records: Seq<AccessToken>, t: AccessToken)
    requires
        !has_token(records, t.token@),
    ensures
        has_token(records.push(t), t.token@),
        token_record(records.push(t), t.token@) == t,
{
    let s = records.push(t);
    assert(s[records.len() as int] == t);
    let i = choose|i: int| 0 <= i < s.len() && (#[trigger] s[i]).token@ == t.token@;
    if i < records.len() {
        assert(s[i] == records[i]);
    }
}

/// Issuing never touches the new token's own cache entry: it is there after
/// the call exactly when it was there before, with the same session, so a
/// token string that was never cached is not cached right after it was
/// issued.
pub proof fn lemma_issue_spares_new_entry(
    s0: TokenService,
    s1: TokenService,
    account_id: u64,
    token: Seq<char>,
    created_at: u64,
    t: AccessToken,
)
    requires
        issue_post(s0, s1, account_id, token, created_at, Ok(t)),
    ensures
        s1.cache@.contains_key(t.token@) == s0.cache@.contains_key(t.token@),
        s0.cache@.contains_key(t.token@) ==> s1.cache@[t.token@] == s0.cache@[t.token@],
        !s0.cache@.contains_key(t.token@) ==> !cache_hit(s1, t.token@),
{
    lemma_fresh_not_owned(s0.store.records(), account_id, t.token@);
}

/// After a successful issue, authorize on the new token, a token string
/// never cached before, resolves to the issuing account with its flags,
/// first from the store and then, with the same session, from the cache.
pub proof fn lemma_issued_token_authorizes(
    s0: TokenService,
    s1: TokenService,
    s2: TokenService,
    s3: TokenService,
    account_id: u64,
    flags: u32,
    token: Seq<char>,
    created_at: u64,
    t: AccessToken,
    r1: Result<Session, TokenError>,
    r2: Result<Session, TokenError>,
)
    requires
        issue_post(s0, s1, account_id, token, created_at, Ok(t)),
        !s0.cache@.contains_key(token),
        s1.cache.is_online(),
        s1.accounts@.contains_key(account_id),
        s1.accounts@[account_id] == flags,
        authorize_post(s1, s2, token, r1),
        authorize_post(s2, s3, token, r2),
    ensures
        r1 == Ok::<Session, TokenError>(Session { account_id, flags }),
        !cache_hit(s1, token),
        cache_hit(s2, token),
        r2 == r1,
{
    lemma_issue_spares_new_entry(s0, s1, account_id, token, created_at, t);
    lemma_record_of_fresh(s0.store.records(), t);
}

/// After a successful issue, every token the account held before is still
/// in the store, listed for the account ahead of the new one, and none of
/// them has a cache entry left, so the next authorize on any of them goes
/// to the store.
pub proof fn lemma_issue_keeps_earlier_tokens(
    s0: TokenService,
    s1: TokenService,
    account_id: u64,
    token: Seq<char>,
    created_at: u64,
    t: AccessToken,
)
    requires
        issue_post(s0, s1, account_id, token, created_at, Ok(t)),
    ensures
        owned_by(s1.store.records(), account_id) == owned_by(s0.store.records(), account_id).push(t),
        forall|i: int|
            0 <= i < owned_by(s0.store.records(), account_id).len() ==> {
                let e = #[trigger] owned_by(s0.store.records(), account_id)[i];
                &&& s1.store.records().contains(e)
                &&& !s1.cache@.contains_key(e.token@)
                &&& !cache_hit(s1, e.token@)
            },
{
    let rs = s0.store.records();
    let o = owned_by(rs, account_id);
    reveal(Seq::filter);
    assert(rs.push(t).drop_last() == rs);
    assert forall|i: int| 0 <= i < o.len() implies {
        let e = #[trigger] o[i];
        &&& s1.store.records().contains(e)
        &&& !s1.cache@.contains_key(e.token@)
    } by {
        assert(o.contains(o[i]));
        lemma_owned_in(rs, account_id, o[i]);
        let j = choose|j: int| 0 <= j < rs.len() && rs[j] == o[i];
        assert(rs.push(t)[j] == o[i]);
        assert(token_keys(o).contains(o[i].token@));
    }
}

/// Revoking an id that no record carries, on a reachable store, fails with
/// `NotFound` and changes neither the store nor the cache.
pub proof fn lemma_revoke_unknown_id(
    s0: TokenService,
    s1: TokenService,
    account_id: u64,
    token_id: u64,
    r: Result<(), TokenError>,
)
    requires
        s0.store.is_online(),
        !has_id(s0.store.records(), token_id),
        revoke_post(s0, s1, account_id, token_id, r),
    ensures
        r == Err::<(), TokenError>(TokenError::NotFound),
        s1 == s0,
        s1.store.records() == s0.store.records(),
        s1.cache@ == s0.cache@,
{
}

/// Revoking an existing id removes exactly that record from the store and
/// drops the cache entry of every token the account held when the call
/// began; other cache entries stay as they were.
pub proof fn lemma_revoke_removes_exactly(
    s0: TokenService,
    s1: TokenService,
    account_id: u64,
    token_id: u64,
    r: Result<(), TokenError>,
)
    requires
        s0.wf(),
        s0.store.is_online(),
        has_id(s0.store.records(), token_id),
        revoke_post(s0, s1, account_id, token_id, r),
    ensures
        r is Ok,
        s1.store.records().len() == s0.store.records().len() - 1,
        !has_id(s1.store.records(), token_id),
        forall|i: int|
            0 <= i < s0.store.records().len() && (#[trigger] s0.store.records()[i]).id
                != token_id ==> s1.store.records().contains(s0.store.records()[i]),
        forall|i: int|
            0 <= i < owned_by(s0.store.records(), account_id).len()
                ==> !s1.cache@.contains_key(
                (#[trigger] owned_by(s0.store.records(), account_id)[i]).token@,
            ),
        forall|k: Seq<char>|
            !token_keys(owned_by(s0.store.records(), account_id)).contains(k) ==> (
            #[trigger] s1.cache@.contains_key(k) == s0.cache@.contains_key(k) && (
            s0.cache@.contains_key(k) ==> s1.cache@[k] == s0.cache@[k])),
{
    s0.store.lemma_delete_exact(token_id);
    let o = owned_by(s0.store.records(), account_id);
    assert forall|i: int| 0 <= i < o.len() implies !s1.cache@.contains_key(
        (#[trigger] o[i]).token@,
    ) by {
        assert(token_keys(o).contains(o[i].token@));
    }
}

/// On a reachable store and cache, authorize on a token string that no
/// record carries and the cache does not hold fails with `Unauthorized`
/// and caches nothing.
pub proof fn lemma_unknown_token_unauthorized(
    s0: TokenService,
    s1: TokenService,
    t: Seq<char>,
    r: Result<Session, TokenError>,
)
    requires
        s0.cache.is_online(),
        s0.store.is_online(),
        !has_token(s0.store.records(), t),
        !s0.cache@.contains_key(t),
        authorize_post(s0, s1, t, r),
    ensures
        r == Err::<Session, TokenError>(TokenError::Unauthorized),
        s1.cache@ == s0.cache@,
{
}

/// When the cache is unreachable, or the cache misses and the store is
/// unreachable, authorize fails with `Infrastructure`, never with
/// `Unauthorized`.
pub proof fn lemma_outage_is_not_unauthorized(
    s0: TokenService,
    s1: TokenService,
    t: Seq<char>,
    r: Result<Session, TokenError>,
)
    requires
        !s0.cache.is_online() || (!s0.cache@.contains_key(t) && !s0.store.is_online()),
        authorize_post(s0, s1, t, r),
    ensures
        r == Err::<Session, TokenError>(TokenError::Infrastructure),
        r != Err::<Session, TokenError>(TokenError::Unauthorized),
        s1.cache@ == s0.cache@,
{
}

/// Deleting a cache key twice leaves the cache as the first delete left it,
/// and deleting a key that is not there leaves the cache as it was.
pub proof fn lemma_cache_delete_idempotent(
    c0: SessionCache,
    c1: SessionCache,
    c2: SessionCache,
    k: Seq<char>,
)
    requires
        c1@ == c0@.remove(k),
        c2@ == c1@.remove(k),
    ensures
        c2@ == c1@,
        !c0@.contains_key(k) ==> c1@ == c0@,
{
    assert(c2@ =~= c1@);
    if !c0@.contains_key(k) {
        assert(c1@ =~= c0@);
    }
}

} // verus!
