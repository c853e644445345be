//! The store layout: the key of each entity and the save/load operation of
//! each component, together with the laws that make re-syncing safe.

use vstd::prelude::*;
use crate::auth_info::BitbucketAuthInfo;
use crate::auth_info::BitbucketAuthInfoModel;
use crate::codec::dec_auth_info;
use crate::codec::dec_pr_info;
use crate::codec::enc_auth_info;
use crate::codec::enc_pr_info;
use crate::codec::enc_webhook;
use crate::codec::lemma_auth_info_round_trip;
use crate::codec::spec_dec_auth_info;
use crate::codec::spec_dec_pr_info;
use crate::codec::spec_enc_auth_info;
use crate::codec::spec_enc_pr_info;
use crate::codec::spec_enc_webhook;
use crate::prs::PrInfo;
use crate::prs::PrInfoModel;
use crate::repo::clone_string;
use crate::store::Store;
use crate::store::StoreError;
use crate::store::store_view;
use crate::token::TokenStep;
use crate::token::TokenStepModel;
use crate::token::spec_bitbucket_token_expired;
use crate::token::spec_usable_token_step;
use crate::token::usable_token_step;
use crate::webhook::Webhook;

verus! {

/// The store key of the cached credential for a provider.
pub open spec fn spec_auth_info_key(provider: Seq<char>) -> Seq<char> {
    provider + "_auth_info"@
}

/// Build the credential-cache key for a provider.
pub fn auth_info_key(provider: &String) -> (r: String)
    ensures
        r@ == spec_auth_info_key(provider@),
{
    let mut k = clone_string(provider);
    k.append("_auth_info");
    k
}

/// The store key of a pull-request snapshot: the repository key and the
/// commit pair, separated by slashes.
pub open spec fn spec_pr_snapshot_key(repo_key: Seq<char>, base: Seq<char>, head: Seq<char>) -> Seq<
    char,
> {
    repo_key + seq!['/'] + base + seq!['/'] + head
}

/// Build the snapshot key for a commit pair of a repository.
pub fn pr_snapshot_key(repo_key: &String, base: &String, head: &String) -> (r: String)
    ensures
        r@ == spec_pr_snapshot_key(repo_key@, base@, head@),
{
    let mut k = clone_string(repo_key);
    k.append("/");
    k.append(base.as_str());
    k.append("/");
    k.append(head.as_str());
    proof {
        reveal_strlit("/");
        assert("/"@ =~= seq!['/']);
        assert(k@ =~= spec_pr_snapshot_key(repo_key@, base@, head@));
    }
    k
}

/// Persist a Bitbucket credential: stamp it with the present epoch second
/// and overwrite the provider's single cache entry.  Reads never write;
/// this is the one writer of that entry.
pub fn save_bitbucket_auth_info_to_db(
    store: &mut Store,
    auth_info: &mut BitbucketAuthInfo,
    now: u64,
) -> (r: Result<(), StoreError>)
    ensures
        final(auth_info)@ == (BitbucketAuthInfoModel {
            timestamp: Option::Some(now),
            ..old(auth_info)@
        }),
        r is Ok ==> store_view(*final(store)) == store_view(*old(store)).insert(
            spec_auth_info_key("bitbucket"@),
            spec_enc_auth_info(final(auth_info)@),
        ),
{
    auth_info.set_timestamp(now);
    let provider = String::from_str("bitbucket");
    let key = auth_info_key(&provider);
    let value = enc_auth_info(auth_info);
    store.put(&key, &value)
}

/// Load the cached Bitbucket credential.  Whatever the storage engine
/// reports, a returned credential is exactly the decoding of the stored
/// entry; [`dec_auth_info`] says precisely which texts decode.
pub fn bitbucket_auth_info(store: &Store) -> (r: Option<BitbucketAuthInfo>)
    ensures
        match r {
            Some(a) => store_view(*store).contains_key(spec_auth_info_key("bitbucket"@))
                && spec_dec_auth_info(
                store_view(*store)[spec_auth_info_key("bitbucket"@)],
            ) == Option::Some(a@),
            None => true,
        },
{
    let provider = String::from_str("bitbucket");
    let key = auth_info_key(&provider);
    match store.get(&key) {
        Ok(Some(v)) => dec_auth_info(&v),
        _ => None,
    }
}

/// `GetUsableToken`, up to the provider call: load the cached Bitbucket
/// credential and decide.  A usable credential is returned exactly as it
/// was stored and is not expired; a refresh carries the stored credential's
/// refresh token; anything unreadable falls back to minting.
pub fn usable_token_step_from_store(store: &Store, now: u64) -> (r: TokenStep)
    ensures
        ({
            let k = spec_auth_info_key("bitbucket"@);
            match r {
                TokenStep::Usable(c) => store_view(*store).contains_key(k) && spec_dec_auth_info(
                    store_view(*store)[k],
                ) == Option::Some(c@) && !spec_bitbucket_token_expired(c@, now),
                TokenStep::Refresh(t) => exists|c: BitbucketAuthInfoModel|
                    {
                        &&& store_view(*store).contains_key(k)
                        &&& #[trigger] spec_dec_auth_info(store_view(*store)[k]) == Option::Some(c)
                        &&& spec_bitbucket_token_expired(c, now)
                        &&& t@ == c.refresh_token
                    },
                TokenStep::Mint => true,
            }
        }),
{
    let cached = bitbucket_auth_info(store);
    proof {
        let k = spec_auth_info_key("bitbucket"@);
        if cached is Some {
            assert(spec_dec_auth_info(store_view(*store)[k]) == Option::Some(cached->Some_0@));
        }
    }
    usable_token_step(cached, now)
}

/// Persist one pull-request snapshot under its commit-pair key.
pub fn save_pr_info_to_db(store: &mut Store, repo_key: &String, pr_info: &PrInfo) -> (r: Result<
    (),
    StoreError,
>)
    ensures
        r is Ok ==> store_view(*final(store)) == store_view(*old(store)).insert(
            spec_pr_snapshot_key(repo_key@, pr_info@.base_head_commit, pr_info@.pr_head_commit),
            spec_enc_pr_info(pr_info@),
        ),
{
    let key = pr_snapshot_key(repo_key, pr_info.base_head_commit(), pr_info.pr_head_commit());
    let value = enc_pr_info(pr_info);
    store.put(&key, &value)
}

/// Load the pull-request snapshot stored for a commit pair, if any.
pub fn get_pr_info_from_db(
    store: &Store,
    repo_key: &String,
    base: &String,
    head: &String,
) -> (r: Option<PrInfo>)
    ensures
        match r {
            Some(p) => store_view(*store).contains_key(
                spec_pr_snapshot_key(repo_key@, base@, head@),
            ) && spec_dec_pr_info(
                store_view(*store)[spec_pr_snapshot_key(repo_key@, base@, head@)],
            ) == Option::Some(p@),
            None => true,
        },
{
    let key = pr_snapshot_key(repo_key, base, head);
    match store.get(&key) {
        Ok(Some(v)) => dec_pr_info(&v),
        _ => None,
    }
}

/// Relies on uuid's `Uuid::new_v4` and its hyphenated text form: a fresh
/// random identifier, 36 characters long.  Nothing more can be promised of
/// a random value.
#[verifier::external_body]
fn new_unique_id() -> (r: String)
    ensures
        r@.len() == 36,
{
    uuid::Uuid::new_v4().to_string()
}

/// Persist a webhook record under a freshly generated unique id, which is
/// returned.
pub fn save_webhook_to_db(store: &mut Store, webhook: &Webhook) -> (r: Result<String, StoreError>)
    ensures
        match r {
            Ok(id) => id@.len() == 36 && store_view(*final(store)) == store_view(
                *old(store),
            ).insert(id@, spec_enc_webhook(webhook@)),
            Err(_) => true,
        },
{
    let id = new_unique_id();
    let value = enc_webhook(webhook);
    match store.put(&id, &value) {
        Ok(_) => Ok(id),
        Err(e) => Err(e),
    }
}

/// Token refresh law, persistence half: once an expired credential forces a
/// refresh, persisting the minted replacement leaves the cache entry
/// holding exactly that replacement, stamped with the persist time — and
/// reading it back decodes to the same value.
pub proof fn lemma_refresh_persists(
    view: Map<Seq<char>, Seq<char>>,
    cached: BitbucketAuthInfoModel,
    minted: BitbucketAuthInfoModel,
    now: u64,
)
    requires
        spec_bitbucket_token_expired(cached, now),
    ensures
        spec_usable_token_step(Option::Some(cached), now) == TokenStepModel::Refresh(
            cached.refresh_token,
        ),
        ({
            let stamped = BitbucketAuthInfoModel { timestamp: Option::Some(now), ..minted };
            let k = spec_auth_info_key("bitbucket"@);
            let view2 = view.insert(k, spec_enc_auth_info(stamped));
            view2[k] == spec_enc_auth_info(stamped) && spec_dec_auth_info(view2[k])
                == Option::Some(stamped)
        }),
{
    let stamped = BitbucketAuthInfoModel { timestamp: Option::Some(now), ..minted };
    lemma_auth_info_round_trip(stamped);
}

/// Snapshot idempotence law: re-syncing an unchanged pull request writes
/// the same text under the same key, so the store after the second write is
/// exactly the store after the first.
pub proof fn lemma_pr_snapshot_idempotent(
    view: Map<Seq<char>, Seq<char>>,
    repo_key: Seq<char>,
    p: PrInfoModel,
)
    ensures
        ({
            let k = spec_pr_snapshot_key(repo_key, p.base_head_commit, p.pr_head_commit);
            let v = spec_enc_pr_info(p);
            view.insert(k, v).insert(k, v) == view.insert(k, v)
        }),
{
    let k = spec_pr_snapshot_key(repo_key, p.base_head_commit, p.pr_head_commit);
    let v = spec_enc_pr_info(p);
    assert(view.insert(k, v).insert(k, v) =~= view.insert(k, v));
}

/// New-commit append law: when a pull request's head commit changes, the
/// new snapshot gets a key of its own, and storing it leaves the prior
/// snapshot in place, unchanged.
pub proof fn lemma_new_commit_appends(
    view: Map<Seq<char>, Seq<char>>,
    repo_key: Seq<char>,
    p1: PrInfoModel,
    p2: PrInfoModel,
)
    requires
        p2.base_head_commit == p1.base_head_commit,
        p2.pr_head_commit != p1.pr_head_commit,
    ensures
        ({
            let k1 = spec_pr_snapshot_key(repo_key, p1.base_head_commit, p1.pr_head_commit);
            let k2 = spec_pr_snapshot_key(repo_key, p2.base_head_commit, p2.pr_head_commit);
            let after_first = view.insert(k1, spec_enc_pr_info(p1));
            let after_second = after_first.insert(k2, spec_enc_pr_info(p2));
            k2 != k1 && after_second.contains_key(k1) && after_second[k1] == spec_enc_pr_info(p1)
                && after_second.contains_key(k2) && after_second[k2] == spec_enc_pr_info(p2)
        }),
{
    let h1 = p1.pr_head_commit;
    let h2 = p2.pr_head_commit;
    let prefix = repo_key + seq!['/'] + p1.base_head_commit + seq!['/'];
    let k1 = spec_pr_snapshot_key(repo_key, p1.base_head_commit, p1.pr_head_commit);
    let k2 = spec_pr_snapshot_key(repo_key, p2.base_head_commit, p2.pr_head_commit);
    assert(k1 == prefix + h1);
    assert(k2 == prefix + h2);
    if k1 == k2 {
        assert(h1.len() == h2.len());
        assert forall|i: int| 0 <= i < h1.len() implies h1[i] == h2[i] by {
            assert((prefix + h1)[prefix.len() + i] == h1[i]);
            assert((prefix + h2)[prefix.len() + i] == h2[i]);
        }
        assert(h1 =~= h2);
    }
}

} // verus!
