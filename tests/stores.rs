use builder_api::cache::SessionCache;
use builder_api::lifecycle::TokenService;
use builder_api::accounts::AccountDirectory;
use builder_api::metrics::Counter;
use builder_api::profile::{do_get_access_tokens, Profile, ProfileRoute, UserUpdateReq, Verb};
use builder_api::store::TokenStore;
use builder_api::token::{Session, TokenError};

#[test]
fn cache_delete_twice_or_absent_is_harmless() {
    let mut c = SessionCache::new();
    let k = "k".to_string();
    let other = "other".to_string();
    let v = Session { account_id: 1, flags: 4 };
    c.delete(&k);
    assert_eq!(c.lookup(&k), Ok(None));
    c.put(k.clone(), v).unwrap();
    c.put(other.clone(), v).unwrap();
    c.delete(&k);
    c.delete(&k);
    assert_eq!(c.lookup(&k), Ok(None));
    assert_eq!(c.lookup(&other), Ok(Some(v)));
}

#[test]
fn cache_put_replaces_and_outage_fails() {
    let mut c = SessionCache::new();
    let k = "k".to_string();
    c.put(k.clone(), Session { account_id: 1, flags: 1 }).unwrap();
    c.put(k.clone(), Session { account_id: 1, flags: 3 }).unwrap();
    assert_eq!(c.lookup(&k), Ok(Some(Session { account_id: 1, flags: 3 })));
    c.set_online(false);
    assert!(!c.online());
    assert_eq!(c.lookup(&k), Err(TokenError::Infrastructure));
    assert_eq!(c.put(k.clone(), Session { account_id: 2, flags: 0 }), Err(TokenError::Infrastructure));
    c.set_online(true);
    assert_eq!(c.lookup(&k), Ok(Some(Session { account_id: 1, flags: 3 })));
}

#[test]
fn store_create_list_delete() {
    let mut st = TokenStore::new();
    let a = st.create(1, "a".to_string(), 10).unwrap();
    let b = st.create(2, "b".to_string(), 11).unwrap();
    assert_eq!(a.id, 0);
    assert_eq!(b.id, 1);
    assert_eq!(st.create(3, "a".to_string(), 12).unwrap_err(), TokenError::Conflict);
    let listed = st.list(1).unwrap();
    assert_eq!(listed.len(), 1);
    assert_eq!(listed[0].token, "a");
    assert_eq!(st.find_by_token(&"b".to_string()).unwrap().map(|t| t.id), Some(1));
    assert_eq!(st.delete(a.id), Ok(()));
    assert_eq!(st.delete(a.id), Err(TokenError::NotFound));
    assert!(st.list(1).unwrap().is_empty());
    let c = st.create(1, "c".to_string(), 13).unwrap();
    assert_eq!(c.id, 2);
    st.set_online(false);
    assert!(!st.online());
    assert_eq!(st.list(1).unwrap_err(), TokenError::Infrastructure);
    assert_eq!(st.find_by_token(&"c".to_string()).unwrap_err(), TokenError::Infrastructure);
}

#[test]
fn access_tokens_of_account() {
    let mut dir = AccountDirectory::new();
    dir.set_flags(1, 1);
    assert_eq!(dir.flags_of(1), Some(1));
    assert_eq!(dir.flags_of(2), None);
    let mut svc = TokenService::new(dir);
    svc.issue(1, "x".to_string(), 0).unwrap();
    svc.issue(2, "y".to_string(), 0).unwrap();
    let mine = do_get_access_tokens(&svc, 1).unwrap();
    assert_eq!(mine.len(), 1);
    assert_eq!(mine[0].token, "x");
    assert!(do_get_access_tokens(&svc, 3).unwrap().is_empty());
    svc.store.set_online(false);
    assert_eq!(do_get_access_tokens(&svc, 1).unwrap_err(), TokenError::Infrastructure);
}

#[test]
fn counter_ids() {
    assert_eq!(Counter::InstallationToken.id(), "github.installation-token");
    assert_eq!(Counter::Repo.id(), "github.api.repo");
    assert_eq!(Counter::Contents.id(), "github.api.contents");
}

#[test]
fn profile_routes_and_updates() {
    let routes = Profile::routes();
    let table: Vec<(String, Verb)> = routes.iter().map(|r| (r.path(), r.verb())).collect();
    assert_eq!(
        table,
        vec![
            ("/profile".to_string(), Verb::Get),
            ("/profile".to_string(), Verb::Patch),
            ("/profile/access-tokens".to_string(), Verb::Get),
            ("/profile/access-tokens".to_string(), Verb::Post),
            ("/profile/access-tokens/{id}".to_string(), Verb::Delete),
        ]
    );
    assert_eq!(routes[4], ProfileRoute::RevokeAccessToken);
    assert!(UserUpdateReq { email: "a@b.c".to_string() }.is_valid());
    assert!(!UserUpdateReq { email: String::new() }.is_valid());
}
