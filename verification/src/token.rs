//! Token lifecycle: decide from a cached credential and the current time
//! whether the token can be used as it is, or must be minted or refreshed.
//!
//! The decisions are pure; the provider exchange itself is a network call
//! that the caller performs when a decision demands it.

use vstd::prelude::*;
use crate::auth_info::BitbucketAuthInfo;
use crate::auth_info::BitbucketAuthInfoModel;
use crate::auth_info::GithubAuthInfo;
use crate::repo::clone_string;

verus! {

/// The epoch second from which the timestamp cannot be used any more:
/// the second it was cached plus its server-declared lifetime.  A credential
/// that was never stamped has no known mint time and counts as expired.
pub open spec fn spec_bitbucket_token_expired(c: BitbucketAuthInfoModel, now: u64) -> bool {
    match c.timestamp {
        Option::None => true,
        Option::Some(ts) => ts + c.expires_in <= now,
    }
}

/// Whether a cached Bitbucket credential has outlived its declared lifetime.
pub fn bitbucket_token_expired(auth_info: &BitbucketAuthInfo, now: u64) -> (r: bool)
    ensures
        r == spec_bitbucket_token_expired(auth_info@, now),
{
    match *auth_info.timestamp() {
        None => true,
        Some(ts) => match ts.checked_add(auth_info.expires_in()) {
            Some(expires_at) => expires_at <= now,
            None => false,
        },
    }
}

/// Model of the one step `GetUsableToken` takes on a cached credential.
pub ghost enum TokenStepModel {
    /// The cached credential is still live: reuse it unchanged, no call.
    Usable(BitbucketAuthInfoModel),
    /// Nothing is cached: mint a credential from the installation code.
    Mint,
    /// The cached credential has expired: exchange its refresh token.
    Refresh(Seq<char>),
}

/// What `GetUsableToken` must do, as a function of the cache and the clock.
pub open spec fn spec_usable_token_step(
    cached: Option<BitbucketAuthInfoModel>,
    now: u64,
) -> TokenStepModel {
    match cached {
        Option::None => TokenStepModel::Mint,
        Option::Some(c) => if spec_bitbucket_token_expired(c, now) {
            TokenStepModel::Refresh(c.refresh_token)
        } else {
            TokenStepModel::Usable(c)
        },
    }
}

/// The one step `GetUsableToken` takes on a cached credential.
pub enum TokenStep {
    Usable(BitbucketAuthInfo),
    Mint,
    Refresh(String),
}

impl View for TokenStep {
    type V = TokenStepModel;

    open spec fn view(&self) -> TokenStepModel {
        match self {
            TokenStep::Usable(c) => TokenStepModel::Usable(c@),
            TokenStep::Mint => TokenStepModel::Mint,
            TokenStep::Refresh(t) => TokenStepModel::Refresh(t@),
        }
    }
}

/// Decide what to do for a cached Bitbucket credential: reuse it while it is
/// live, refresh it once expired, mint one when nothing is cached.
pub fn usable_token_step(cached: Option<BitbucketAuthInfo>, now: u64) -> (r: TokenStep)
    ensures
        r@ == spec_usable_token_step(
            match cached {
                Option::None => Option::None,
                Option::Some(c) => Option::Some(c@),
            },
            now,
        ),
{
    match cached {
        None => TokenStep::Mint,
        Some(c) => {
            if bitbucket_token_expired(&c, now) {
                TokenStep::Refresh(clone_string(c.refresh_token()))
            } else {
                TokenStep::Usable(c)
            }
        },
    }
}

/// Token reuse law: while a cached credential's expiry lies in the future,
/// `GetUsableToken` performs no provider call and yields the cached
/// credential exactly as it was stored.
pub proof fn lemma_token_reuse(c: BitbucketAuthInfoModel, now: u64)
    requires
        !spec_bitbucket_token_expired(c, now),
    ensures
        spec_usable_token_step(Option::Some(c), now) == TokenStepModel::Usable(c),
{
}

/// Token refresh law: once a cached credential's expiry has passed, the one
/// step `GetUsableToken` takes is a refresh with that credential's refresh
/// token; the cached token is never reused.
pub proof fn lemma_token_refresh(c: BitbucketAuthInfoModel, now: u64)
    requires
        spec_bitbucket_token_expired(c, now),
    ensures
        spec_usable_token_step(Option::Some(c), now) == TokenStepModel::Refresh(c.refresh_token),
{
}

/// The epoch second a piece of RFC 3339 text denotes, if it parses.
pub uninterp spec fn rfc3339_epoch_seconds(s: Seq<char>) -> Option<i64>;

/// Relies on chrono's `DateTime::parse_from_rfc3339`, composed with
/// `DateTime::timestamp`: whether the text parses, and the epoch second it
/// denotes when it does, depend on the text alone.
#[verifier::external_body]
pub fn parse_rfc3339_epoch_seconds(s: &String) -> (r: Option<i64>)
    ensures
        r == rfc3339_epoch_seconds(s@),
{
    match chrono::DateTime::parse_from_rfc3339(s.as_str()) {
        Ok(dt) => Some(dt.timestamp()),
        Err(_) => None,
    }
}

/// Why a cached GitHub credential cannot be checked against the clock.
pub enum TokenCheckError {
    /// The credential carries no installation id to mint a replacement for.
    MissingInstallationId,
    /// Its recorded expiry is not RFC 3339 text.
    MalformedExpiry,
}

/// What to do with a cached GitHub App credential.
pub enum GithubTokenAction {
    /// Not yet expired: use the cached credential unchanged, no call.
    UseCached,
    /// Expired: mint a replacement for this installation id.
    RefreshFor(String),
}

/// Decide whether a cached GitHub App credential is still usable.
///
/// The credential's `expires_at` text is compared against `now_ts` (epoch
/// seconds): strictly later means reuse, anything else means a replacement
/// must be minted for the credential's installation id.
pub fn check_github_token(auth_info: &GithubAuthInfo, now_ts: i64) -> (r: Result<
    GithubTokenAction,
    TokenCheckError,
>)
    ensures
        match r {
            Ok(GithubTokenAction::UseCached) => {
                &&& auth_info@.installation_id is Some
                &&& rfc3339_epoch_seconds(auth_info@.expires_at) matches Some(ts) && ts > now_ts
            },
            Ok(GithubTokenAction::RefreshFor(id)) => {
                &&& auth_info@.installation_id == Option::Some(id@)
                &&& rfc3339_epoch_seconds(auth_info@.expires_at) matches Some(ts) && ts <= now_ts
            },
            Err(TokenCheckError::MissingInstallationId) => auth_info@.installation_id is None,
            Err(TokenCheckError::MalformedExpiry) => {
                &&& auth_info@.installation_id is Some
                &&& rfc3339_epoch_seconds(auth_info@.expires_at) is None
            },
        },
{
    let installation_id = match auth_info.installation_id() {
        None => {
            return Err(TokenCheckError::MissingInstallationId);
        },
        Some(id) => clone_string(id),
    };
    match parse_rfc3339_epoch_seconds(auth_info.expires_at()) {
        None => Err(TokenCheckError::MalformedExpiry),
        Some(expires_at_ts) => {
            if expires_at_ts > now_ts {
                Ok(GithubTokenAction::UseCached)
            } else {
                Ok(GithubTokenAction::RefreshFor(installation_id))
            }
        },
    }
}

/// How long a freshly minted App JWT stays valid, in seconds.
pub const JWT_LIFETIME_SECONDS: i64 = 300;

/// The issued-at and expiry instants to claim in an App JWT: issued now,
/// expiring five minutes later.
pub fn jwt_claim_times(now_ts: i64) -> (r: (i64, i64))
    requires
        now_ts + JWT_LIFETIME_SECONDS <= i64::MAX,
    ensures
        r.0 == now_ts,
        r.1 == now_ts + JWT_LIFETIME_SECONDS,
{
    (now_ts, now_ts + JWT_LIFETIME_SECONDS)
}

} // verus!
