use builder_api::accounts::AccountDirectory;
use builder_api::lifecycle::TokenService;
use builder_api::token::{Session, TokenError};

const READ: u32 = 1;
const WRITE: u32 = 2;

fn service_with(accounts: &[(u64, u32)]) -> TokenService {
    let mut dir = AccountDirectory::new();
    for &(id, flags) in accounts {
        dir.set_flags(id, flags);
    }
    TokenService::new(dir)
}

fn s(text: &str) -> String {
    text.to_string()
}

fn token_strings(svc: &TokenService, account_id: u64) -> Vec<String> {
    svc.store.list(account_id).unwrap().into_iter().map(|t| t.token).collect()
}

#[test]
fn end_to_end_issue_authorize_revoke() {
    let mut svc = service_with(&[(42, READ)]);
    assert!(svc.store.list(42).unwrap().is_empty());

    let abc = svc.issue(42, s("abc"), 100).unwrap();
    assert_eq!(abc.token, "abc");
    assert_eq!(abc.account_id, 42);
    assert_eq!(abc.created_at, 100);
    let expected = Session { account_id: 42, flags: READ };

    // first use: cache miss, resolved from the store and cached
    assert_eq!(svc.cache.lookup(&s("abc")).unwrap(), None);
    assert_eq!(svc.authorize(&s("abc")), Ok(expected));
    assert_eq!(svc.cache.lookup(&s("abc")).unwrap(), Some(expected));

    // second use: cache hit, even with the store unreachable
    svc.store.set_online(false);
    assert_eq!(svc.authorize(&s("abc")), Ok(expected));
    svc.store.set_online(true);

    let xyz = svc.issue(42, s("xyz"), 200).unwrap();
    assert_eq!(xyz.token, "xyz");
    assert_ne!(xyz.id, abc.id);
    // the earlier token is no longer cached but still valid
    assert_eq!(svc.cache.lookup(&s("abc")).unwrap(), None);
    assert_eq!(svc.authorize(&s("abc")), Ok(expected));

    assert_eq!(svc.revoke(42, abc.id), Ok(()));
    assert_eq!(svc.authorize(&s("abc")), Err(TokenError::Unauthorized));
    assert_eq!(svc.authorize(&s("xyz")), Ok(expected));
}

#[test]
fn issued_token_authorizes_with_account_and_flags() {
    let mut svc = service_with(&[(7, READ | WRITE), (8, READ)]);
    let t = svc.issue(7, s("tok-7"), 1).unwrap();
    let first = svc.authorize(&s("tok-7"));
    let second = svc.authorize(&s("tok-7"));
    assert_eq!(first, Ok(Session { account_id: 7, flags: READ | WRITE }));
    assert_eq!(second, first);
    assert_eq!(t.account_id, 7);
}

#[test]
fn issue_keeps_earlier_tokens_but_drops_their_cache_entries() {
    let mut svc = service_with(&[(1, READ), (2, READ)]);
    svc.issue(1, s("a1"), 1).unwrap();
    svc.issue(1, s("a2"), 2).unwrap();
    svc.issue(2, s("b1"), 3).unwrap();
    for t in ["a1", "a2", "b1"] {
        svc.authorize(&s(t)).unwrap();
    }
    svc.issue(1, s("a3"), 4).unwrap();
    assert_eq!(token_strings(&svc, 1), vec![s("a1"), s("a2"), s("a3")]);
    assert_eq!(svc.cache.lookup(&s("a1")).unwrap(), None);
    assert_eq!(svc.cache.lookup(&s("a2")).unwrap(), None);
    // another account's entry is left alone
    assert_eq!(
        svc.cache.lookup(&s("b1")).unwrap(),
        Some(Session { account_id: 2, flags: READ })
    );
    // the earlier tokens still authorize, from the store
    assert_eq!(svc.authorize(&s("a1")), Ok(Session { account_id: 1, flags: READ }));
}

#[test]
fn issue_leaves_new_token_uncached() {
    let mut svc = service_with(&[(3, READ)]);
    svc.issue(3, s("old"), 1).unwrap();
    svc.authorize(&s("old")).unwrap();
    svc.issue(3, s("new"), 2).unwrap();
    assert_eq!(svc.cache.lookup(&s("new")).unwrap(), None);
}

#[test]
fn issue_with_taken_token_fails_and_changes_nothing() {
    let mut svc = service_with(&[(1, READ), (2, WRITE)]);
    svc.issue(1, s("same"), 1).unwrap();
    svc.authorize(&s("same")).unwrap();
    assert_eq!(svc.issue(2, s("same"), 2).unwrap_err(), TokenError::Issue);
    assert_eq!(token_strings(&svc, 1), vec![s("same")]);
    assert!(token_strings(&svc, 2).is_empty());
    assert_eq!(
        svc.cache.lookup(&s("same")).unwrap(),
        Some(Session { account_id: 1, flags: READ })
    );
}

#[test]
fn issue_on_unreachable_store_fails_with_infrastructure() {
    let mut svc = service_with(&[(1, READ)]);
    svc.store.set_online(false);
    assert_eq!(svc.issue(1, s("t"), 1).unwrap_err(), TokenError::Infrastructure);
    svc.store.set_online(true);
    assert!(token_strings(&svc, 1).is_empty());
}

#[test]
fn revoke_unknown_id_is_not_found_and_changes_nothing() {
    let mut svc = service_with(&[(5, READ)]);
    let t = svc.issue(5, s("five"), 1).unwrap();
    svc.authorize(&s("five")).unwrap();
    assert_eq!(svc.revoke(5, t.id + 100), Err(TokenError::NotFound));
    assert_eq!(token_strings(&svc, 5), vec![s("five")]);
    assert_eq!(
        svc.cache.lookup(&s("five")).unwrap(),
        Some(Session { account_id: 5, flags: READ })
    );
}

#[test]
fn revoke_on_unreachable_store_fails_with_infrastructure() {
    let mut svc = service_with(&[(5, READ)]);
    let t = svc.issue(5, s("five"), 1).unwrap();
    svc.store.set_online(false);
    assert_eq!(svc.revoke(5, t.id), Err(TokenError::Infrastructure));
    svc.store.set_online(true);
    assert_eq!(token_strings(&svc, 5), vec![s("five")]);
}

#[test]
fn revoke_removes_one_record_and_purges_all_of_the_account() {
    let mut svc = service_with(&[(1, READ), (2, WRITE)]);
    let a = svc.issue(1, s("a"), 1).unwrap();
    let b = svc.issue(1, s("b"), 2).unwrap();
    svc.issue(2, s("c"), 3).unwrap();
    for t in ["a", "b", "c"] {
        svc.authorize(&s(t)).unwrap();
    }
    assert_eq!(svc.revoke(1, a.id), Ok(()));
    assert_eq!(token_strings(&svc, 1), vec![s("b")]);
    assert_eq!(token_strings(&svc, 2), vec![s("c")]);
    assert_eq!(svc.cache.lookup(&s("a")).unwrap(), None);
    assert_eq!(svc.cache.lookup(&s("b")).unwrap(), None);
    assert_eq!(
        svc.cache.lookup(&s("c")).unwrap(),
        Some(Session { account_id: 2, flags: WRITE })
    );
    assert_eq!(svc.authorize(&s("b")), Ok(Session { account_id: 1, flags: READ }));
    assert_eq!(svc.revoke(1, b.id), Ok(()));
    assert!(token_strings(&svc, 1).is_empty());
}

#[test]
fn authorize_unknown_token_is_unauthorized() {
    let mut svc = service_with(&[(1, READ)]);
    assert_eq!(svc.authorize(&s("never")), Err(TokenError::Unauthorized));
    assert_eq!(svc.authorize(&s("")), Err(TokenError::Unauthorized));
    assert_eq!(svc.cache.lookup(&s("never")).unwrap(), None);
}

#[test]
fn authorize_outage_is_infrastructure() {
    let mut svc = service_with(&[(1, READ)]);
    svc.issue(1, s("t"), 1).unwrap();
    svc.store.set_online(false);
    assert_eq!(svc.authorize(&s("t")), Err(TokenError::Infrastructure));
    assert_eq!(svc.authorize(&s("never")), Err(TokenError::Infrastructure));
    svc.store.set_online(true);
    svc.cache.set_online(false);
    assert_eq!(svc.authorize(&s("t")), Err(TokenError::Infrastructure));
    assert_eq!(svc.authorize(&s("never")), Err(TokenError::Infrastructure));
    svc.cache.set_online(true);
    assert_eq!(svc.authorize(&s("t")), Ok(Session { account_id: 1, flags: READ }));
}

#[test]
fn authorize_token_of_unknown_account_is_not_found() {
    let mut svc = service_with(&[]);
    svc.issue(9, s("orphan"), 1).unwrap();
    assert_eq!(svc.authorize(&s("orphan")), Err(TokenError::NotFound));
    assert_eq!(svc.cache.lookup(&s("orphan")).unwrap(), None);
}
