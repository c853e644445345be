//! Provider access credentials as they are cached and persisted.

use vstd::prelude::*;
use crate::repo::clone_string;
use crate::repo::clone_opt_string;
use crate::repo::opt_view;

verus! {

/// Mathematical model of a [`BitbucketAuthInfo`].
#[verifier::ext_equal]
pub ghost struct BitbucketAuthInfoModel {
    pub access_token: Seq<char>,
    pub refresh_token: Seq<char>,
    pub expires_in: u64,
    pub timestamp: Option<u64>,
}

/// A Bitbucket OAuth credential: the access token, the refresh token that
/// can replace it, the server-declared lifetime in seconds, and the epoch
/// second at which it was cached (absent until first persisted).
pub struct BitbucketAuthInfo {
    access_token: String,
    refresh_token: String,
    expires_in: u64,
    timestamp: Option<u64>,
}

impl View for BitbucketAuthInfo {
    type V = BitbucketAuthInfoModel;

    closed spec fn view(&self) -> BitbucketAuthInfoModel {
        BitbucketAuthInfoModel {
            access_token: self.access_token@,
            refresh_token: self.refresh_token@,
            expires_in: self.expires_in,
            timestamp: self.timestamp,
        }
    }
}

impl BitbucketAuthInfo {
    pub fn new(
        access_token: String,
        refresh_token: String,
        expires_in: u64,
        timestamp: Option<u64>,
    ) -> (r: Self)
        ensures
            r@ == (BitbucketAuthInfoModel {
                access_token: access_token@,
                refresh_token: refresh_token@,
                expires_in,
                timestamp,
            }),
    {
        Self { access_token, refresh_token, expires_in, timestamp }
    }

    pub fn access_token(&self) -> (r: &String)
        ensures
            r@ == self@.access_token,
    {
        &self.access_token
    }

    pub fn refresh_token(&self) -> (r: &String)
        ensures
            r@ == self@.refresh_token,
    {
        &self.refresh_token
    }

    pub fn expires_in(&self) -> (r: u64)
        ensures
            r == self@.expires_in,
    {
        self.expires_in
    }

    pub fn timestamp(&self) -> (r: &Option<u64>)
        ensures
            *r == self@.timestamp,
    {
        &self.timestamp
    }

    pub fn set_timestamp(&mut self, timestamp: u64)
        ensures
            final(self)@ == (BitbucketAuthInfoModel {
                timestamp: Option::Some(timestamp),
                ..old(self)@
            }),
    {
        self.timestamp = Some(timestamp);
    }
}

impl Clone for BitbucketAuthInfo {
    fn clone(&self) -> (r: Self)
        ensures
            r@ == self@,
    {
        BitbucketAuthInfo {
            access_token: clone_string(&self.access_token),
            refresh_token: clone_string(&self.refresh_token),
            expires_in: self.expires_in,
            timestamp: self.timestamp,
        }
    }
}

/// Mathematical model of a [`GithubAuthInfo`].
#[verifier::ext_equal]
pub ghost struct GithubAuthInfoModel {
    pub token: Seq<char>,
    pub expires_at: Seq<char>,
    pub installation_id: Option<Seq<char>>,
}

/// A GitHub App installation credential: the installation token, its
/// server-declared expiry instant as RFC 3339 text, and the installation it
/// was minted for.
pub struct GithubAuthInfo {
    token: String,
    expires_at: String,
    installation_id: Option<String>,
}

impl View for GithubAuthInfo {
    type V = GithubAuthInfoModel;

    closed spec fn view(&self) -> GithubAuthInfoModel {
        GithubAuthInfoModel {
            token: self.token@,
            expires_at: self.expires_at@,
            installation_id: opt_view(self.installation_id),
        }
    }
}

impl GithubAuthInfo {
    pub fn new(token: String, expires_at: String, installation_id: Option<String>) -> (r: Self)
        ensures
            r@ == (GithubAuthInfoModel {
                token: token@,
                expires_at: expires_at@,
                installation_id: opt_view(installation_id),
            }),
    {
        Self { token, expires_at, installation_id }
    }

    pub fn token(&self) -> (r: &String)
        ensures
            r@ == self@.token,
    {
        &self.token
    }

    pub fn expires_at(&self) -> (r: &String)
        ensures
            r@ == self@.expires_at,
    {
        &self.expires_at
    }

    pub fn installation_id(&self) -> (r: &Option<String>)
        ensures
            opt_view(*r) == self@.installation_id,
    {
        &self.installation_id
    }

    pub fn set_installation_id(&mut self, installation_id: &String)
        ensures
            final(self)@ == (GithubAuthInfoModel {
                installation_id: Option::Some(installation_id@),
                ..old(self)@
            }),
    {
        self.installation_id = Some(clone_string(installation_id));
    }
}

impl Clone for GithubAuthInfo {
    fn clone(&self) -> (r: Self)
        ensures
            r@ == self@,
    {
        GithubAuthInfo {
            token: clone_string(&self.token),
            expires_at: clone_string(&self.expires_at),
            installation_id: clone_opt_string(&self.installation_id),
        }
    }
}

} // verus!
