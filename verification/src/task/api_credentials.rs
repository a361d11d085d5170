//! The credentials of an account.

use vstd::prelude::*;

verus! {

/// Credentials, as a mathematical value.
pub struct ApiCredentialsView {
    pub user: Seq<char>,
    pub key: Seq<char>,
}

/// The identifier of a user and the secret token that goes with it. Both
/// are kept as they were given.
pub struct ApiCredentials {
    api_user: String,
    api_key: String,
}

impl View for ApiCredentials {
    type V = ApiCredentialsView;

    closed spec fn view(&self) -> ApiCredentialsView {
        ApiCredentialsView { user: self.api_user@, key: self.api_key@ }
    }
}

impl ApiCredentials {
    pub fn new(api_user: String, api_key: String) -> (credentials: ApiCredentials)
        ensures
            credentials@ == (ApiCredentialsView { user: api_user@, key: api_key@ }),
    {
        ApiCredentials { api_user: api_user, api_key: api_key }
    }

    pub fn get_user(&self) -> (user: &String)
        ensures
            user@ == self@.user,
    {
        &self.api_user
    }

    pub fn get_key(&self) -> (key: &String)
        ensures
            key@ == self@.key,
    {
        &self.api_key
    }
}

} // verus!
