use vibi_dpu::auth_info::BitbucketAuthInfo;
use vibi_dpu::db::auth_info_key;
use vibi_dpu::db::bitbucket_auth_info;
use vibi_dpu::db::get_pr_info_from_db;
use vibi_dpu::db::pr_snapshot_key;
use vibi_dpu::db::save_bitbucket_auth_info_to_db;
use vibi_dpu::db::save_pr_info_to_db;
use vibi_dpu::db::save_webhook_to_db;
use vibi_dpu::db::usable_token_step_from_store;
use vibi_dpu::token::TokenStep;
use vibi_dpu::prs::PrInfo;
use vibi_dpu::prs::PrState;
use vibi_dpu::store::Store;
use vibi_dpu::webhook::Webhook;

fn open_store(name: &str) -> Store {
    let path = format!("/tmp/vibi_dpu_test_{name}");
    match Store::open(&path) {
        Ok(s) => s,
        Err(_) => panic!("could not open a store under /tmp"),
    }
}

fn snapshot(base: &str, head: &str) -> PrInfo {
    PrInfo::new(base.to_string(), head.to_string(), PrState::Open, "feature".to_string())
}

#[test]
fn auth_info_key_is_provider_prefixed() {
    assert_eq!(auth_info_key(&"bitbucket".to_string()), "bitbucket_auth_info");
}

#[test]
fn snapshot_key_joins_repo_and_commit_pair() {
    let k = pr_snapshot_key(
        &"acme/svc-a".to_string(),
        &"aaa111".to_string(),
        &"bbb222".to_string(),
    );
    assert_eq!(k, "acme/svc-a/aaa111/bbb222");
}

#[test]
fn persisted_credential_reads_back_stamped() {
    let mut store = open_store("auth");
    let mut minted = BitbucketAuthInfo::new(
        "tok-new".to_string(),
        "ref-new".to_string(),
        7_200,
        None,
    );
    save_bitbucket_auth_info_to_db(&mut store, &mut minted, 1_234)
        .expect("persisting the credential must succeed");
    assert_eq!(*minted.timestamp(), Some(1_234));
    let cached = bitbucket_auth_info(&store).expect("the credential was just stored");
    assert_eq!(cached.access_token(), "tok-new");
    assert_eq!(cached.refresh_token(), "ref-new");
    assert_eq!(cached.expires_in(), 7_200);
    assert_eq!(*cached.timestamp(), Some(1_234));
}

#[test]
fn resyncing_same_commit_pair_is_a_no_op_overwrite() {
    let mut store = open_store("sync_idem");
    let repo_key = "acme/svc-a".to_string();
    let snap = snapshot("aaa111", "bbb222");
    save_pr_info_to_db(&mut store, &repo_key, &snap).expect("first sync stores");
    save_pr_info_to_db(&mut store, &repo_key, &snap).expect("second sync stores");
    let read = get_pr_info_from_db(
        &store,
        &repo_key,
        &"aaa111".to_string(),
        &"bbb222".to_string(),
    ).expect("the snapshot is stored");
    assert_eq!(read.base_head_commit(), "aaa111");
    assert_eq!(read.pr_head_commit(), "bbb222");
    assert_eq!(read.state(), PrState::Open);
    assert_eq!(read.pr_branch(), "feature");
}

#[test]
fn new_head_commit_appends_without_deleting_prior_snapshot() {
    let mut store = open_store("sync_append");
    let repo_key = "acme/svc-a".to_string();
    let first = snapshot("aaa111", "bbb222");
    let second = snapshot("aaa111", "ccc333");
    save_pr_info_to_db(&mut store, &repo_key, &first).expect("first sync stores");
    save_pr_info_to_db(&mut store, &repo_key, &second).expect("second sync stores");
    let old_entry = get_pr_info_from_db(
        &store,
        &repo_key,
        &"aaa111".to_string(),
        &"bbb222".to_string(),
    ).expect("the prior snapshot must survive");
    assert_eq!(old_entry.pr_head_commit(), "bbb222");
    let new_entry = get_pr_info_from_db(
        &store,
        &repo_key,
        &"aaa111".to_string(),
        &"ccc333".to_string(),
    ).expect("the new snapshot is stored under the new pair");
    assert_eq!(new_entry.pr_head_commit(), "ccc333");
}

#[test]
fn webhook_is_stored_under_a_36_char_unique_id() {
    let mut store = open_store("webhook");
    let hook = Webhook::new(
        "h-9".to_string(),
        true,
        "2024-01-01T00:00:00Z".to_string(),
        vec!["pullrequest:created".to_string()],
        "https://api.example.test/hooks/h-9".to_string(),
        "https://server.example.test/cb".to_string(),
    );
    let id1 = save_webhook_to_db(&mut store, &hook).expect("storing the webhook succeeds");
    let id2 = save_webhook_to_db(&mut store, &hook).expect("storing the webhook succeeds");
    assert_eq!(id1.chars().count(), 36);
    assert_eq!(id2.chars().count(), 36);
    assert_ne!(id1, id2);
}

#[test]
fn token_step_reads_the_persisted_credential() {
    let mut store = open_store("token_step");
    // a credential stamped at second 50 with a 100 s lifetime
    let mut minted = BitbucketAuthInfo::new(
        "tok-step".to_string(),
        "ref-step".to_string(),
        100,
        None,
    );
    save_bitbucket_auth_info_to_db(&mut store, &mut minted, 50)
        .expect("persisting the credential must succeed");
    // at second 100 it is still live: reused exactly as stored
    match usable_token_step_from_store(&store, 100) {
        TokenStep::Usable(c) => assert_eq!(c.access_token(), "tok-step"),
        _ => panic!("the credential lives until second 150"),
    }
    // at second 150 it has expired: refresh with the stored refresh token
    match usable_token_step_from_store(&store, 150) {
        TokenStep::Refresh(refresh_token) => assert_eq!(refresh_token, "ref-step"),
        _ => panic!("the credential expired at second 150"),
    }
}
