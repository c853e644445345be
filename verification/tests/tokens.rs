use vibi_dpu::auth_info::BitbucketAuthInfo;
use vibi_dpu::auth_info::GithubAuthInfo;
use vibi_dpu::token::GithubTokenAction;
use vibi_dpu::token::TokenCheckError;
use vibi_dpu::token::TokenStep;
use vibi_dpu::token::bitbucket_token_expired;
use vibi_dpu::token::check_github_token;
use vibi_dpu::token::jwt_claim_times;
use vibi_dpu::token::usable_token_step;

fn cred(access: &str, refresh: &str, expires_in: u64, ts: Option<u64>) -> BitbucketAuthInfo {
    BitbucketAuthInfo::new(access.to_string(), refresh.to_string(), expires_in, ts)
}

#[test]
fn live_token_is_reused_unchanged() {
    // cached at epoch second 1_000, lives 7_200 s, asked at 2_000: still live
    let c = cred("tok-live", "ref-1", 7_200, Some(1_000));
    assert!(!bitbucket_token_expired(&c, 2_000));
    match usable_token_step(Some(c), 2_000) {
        TokenStep::Usable(got) => {
            assert_eq!(got.access_token(), "tok-live");
            assert_eq!(got.refresh_token(), "ref-1");
            assert_eq!(got.expires_in(), 7_200);
            assert_eq!(*got.timestamp(), Some(1_000));
        }
        _ => panic!("a live token must be reused, with no provider call"),
    }
}

#[test]
fn expired_token_forces_one_refresh() {
    // cached at 1_000, lives 3_600 s, asked at 4_600: expired exactly now
    let c = cred("tok-old", "ref-2", 3_600, Some(1_000));
    assert!(bitbucket_token_expired(&c, 4_600));
    match usable_token_step(Some(c), 4_600) {
        TokenStep::Refresh(refresh_token) => assert_eq!(refresh_token, "ref-2"),
        _ => panic!("an expired token must be refreshed"),
    }
}

#[test]
fn unstamped_token_counts_as_expired() {
    let c = cred("tok-x", "ref-3", 3_600, None);
    assert!(bitbucket_token_expired(&c, 0));
}

#[test]
fn empty_cache_mints() {
    match usable_token_step(None, 5) {
        TokenStep::Mint => {}
        _ => panic!("an empty cache must mint"),
    }
}

#[test]
fn lifetime_overflow_means_never_expired() {
    let c = cred("tok-y", "ref-4", u64::MAX, Some(10));
    assert!(!bitbucket_token_expired(&c, u64::MAX));
}

#[test]
fn github_token_not_yet_expired_is_used_cached() {
    let info = GithubAuthInfo::new(
        "ghs_token".to_string(),
        "2030-01-01T00:00:00Z".to_string(),
        Some("12345".to_string()),
    );
    // epoch second 1_700_000_000 is in 2023, well before 2030
    match check_github_token(&info, 1_700_000_000) {
        Ok(GithubTokenAction::UseCached) => {}
        _ => panic!("a credential expiring in 2030 is still usable in 2023"),
    }
}

#[test]
fn github_token_past_expiry_is_refreshed_for_installation() {
    let info = GithubAuthInfo::new(
        "ghs_token".to_string(),
        "2020-01-01T00:00:00Z".to_string(),
        Some("12345".to_string()),
    );
    match check_github_token(&info, 1_700_000_000) {
        Ok(GithubTokenAction::RefreshFor(id)) => assert_eq!(id, "12345"),
        _ => panic!("a credential expired in 2020 must be replaced"),
    }
}

#[test]
fn github_token_without_installation_id_is_rejected() {
    let info = GithubAuthInfo::new(
        "ghs_token".to_string(),
        "2030-01-01T00:00:00Z".to_string(),
        None,
    );
    match check_github_token(&info, 0) {
        Err(TokenCheckError::MissingInstallationId) => {}
        _ => panic!("no installation id, no replacement"),
    }
}

#[test]
fn github_token_with_malformed_expiry_is_rejected() {
    let info = GithubAuthInfo::new(
        "ghs_token".to_string(),
        "soon".to_string(),
        Some("12345".to_string()),
    );
    match check_github_token(&info, 0) {
        Err(TokenCheckError::MalformedExpiry) => {}
        _ => panic!("unparsable expiry text must be rejected"),
    }
}

#[test]
fn jwt_claims_expire_five_minutes_after_issue() {
    let (iat, exp) = jwt_claim_times(1_700_000_000);
    assert_eq!(iat, 1_700_000_000);
    assert_eq!(exp, 1_700_000_300);
}
