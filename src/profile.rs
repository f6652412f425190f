use vstd::prelude::*;
use crate::lifecycle::TokenService;
use crate::store::owned_by;
use crate::token::{AccessToken, TokenError};

verus! {

/// A request to change the signed-in account's profile.
#[derive(Clone, Debug)]
pub struct UserUpdateReq {
    pub email: String,
}

impl UserUpdateReq {
    /// An update is accepted only with a non-empty email address.
    pub fn is_valid(&self) -> (r: bool)
        ensures
            r == (self.email@.len() > 0),
    {
        !self.email.as_str().is_empty()
    }
}

/// The profile endpoints of the signed-in account.
pub struct Profile {}

/// An HTTP method that a profile endpoint answers.
#[derive(Clone, Copy, Debug, PartialEq, Eq, Structural)]
pub enum Verb {
    Get,
    Patch,
    Post,
    Delete,
}

/// The operations that the profile endpoints offer.
#[derive(Clone, Copy, Debug, PartialEq, Eq, Structural)]
pub enum ProfileRoute {
    GetAccount,
    UpdateAccount,
    ListAccessTokens,
    GenerateAccessToken,
    RevokeAccessToken,
}

/// The path pattern of each route.
pub open spec fn route_path(r: ProfileRoute) -> Seq<char> {
    match r {
        ProfileRoute::GetAccount | ProfileRoute::UpdateAccount => "/profile"@,
        ProfileRoute::ListAccessTokens | ProfileRoute::GenerateAccessToken =>
            "/profile/access-tokens"@,
        ProfileRoute::RevokeAccessToken => "/profile/access-tokens/{id}"@,
    }
}

/// The method of each route.
pub open spec fn route_verb(r: ProfileRoute) -> Verb {
    match r {
        ProfileRoute::GetAccount | ProfileRoute::ListAccessTokens => Verb::Get,
        ProfileRoute::UpdateAccount => Verb::Patch,
        ProfileRoute::GenerateAccessToken => Verb::Post,
        ProfileRoute::RevokeAccessToken => Verb::Delete,
    }
}

impl ProfileRoute {
    /// The path pattern this route is registered under.
    pub fn path(&self) -> (r: String)
        ensures
            r@ == route_path(*self),
    {
        match *self {
            ProfileRoute::GetAccount | ProfileRoute::UpdateAccount => "/profile".to_owned(),
            ProfileRoute::ListAccessTokens | ProfileRoute::GenerateAccessToken =>
                "/profile/access-tokens".to_owned(),
            ProfileRoute::RevokeAccessToken => "/profile/access-tokens/{id}".to_owned(),
        }
    }

    /// The method this route answers.
    pub fn verb(&self) -> (r: Verb)
        ensures
            r == route_verb(*self),
    {
        match *self {
            ProfileRoute::GetAccount | ProfileRoute::ListAccessTokens => Verb::Get,
            ProfileRoute::UpdateAccount => Verb::Patch,
            ProfileRoute::GenerateAccessToken => Verb::Post,
            ProfileRoute::RevokeAccessToken => Verb::Delete,
        }
    }
}

impl Profile {
    /// Every profile route, in registration order.
    pub fn routes() -> (r: Vec<ProfileRoute>)
        ensures
            r@ == seq![
                ProfileRoute::GetAccount,
                ProfileRoute::UpdateAccount,
                ProfileRoute::ListAccessTokens,
                ProfileRoute::GenerateAccessToken,
                ProfileRoute::RevokeAccessToken,
            ],
    {
        let r = vec![
            ProfileRoute::GetAccount,
            ProfileRoute::UpdateAccount,
            ProfileRoute::ListAccessTokens,
            ProfileRoute::GenerateAccessToken,
            ProfileRoute::RevokeAccessToken,
        ];
        assert(r@ =~= seq![
            ProfileRoute::GetAccount,
            ProfileRoute::UpdateAccount,
            ProfileRoute::ListAccessTokens,
            ProfileRoute::GenerateAccessToken,
            ProfileRoute::RevokeAccessToken,
        ]);
        r
    }
}

/// The access tokens of `account_id`; fails only when the store is
/// unreachable.
pub fn do_get_access_tokens(service: &TokenService, account_id: u64) -> (r: Result<
    Vec<AccessToken>,
    TokenError,
>)
    requires
        service.wf(),
    ensures
        service.store.is_online() <==> r.is_ok(),
        r matches Ok(v) ==> v@ == owned_by(service.store.records(), account_id),
        r matches Err(e) ==> e == TokenError::Infrastructure,
{
    service.store.list(account_id)
}

} // verus!
