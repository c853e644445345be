use vibi_dpu::auth_info::BitbucketAuthInfo;
use vibi_dpu::codec::dec_auth_info;
use vibi_dpu::codec::dec_field;
use vibi_dpu::codec::dec_pr_info;
use vibi_dpu::codec::dec_u64_field;
use vibi_dpu::codec::dec_webhook;
use vibi_dpu::codec::enc_auth_info;
use vibi_dpu::codec::enc_pr_info;
use vibi_dpu::codec::enc_webhook;
use vibi_dpu::codec::u64_to_dec_string;
use vibi_dpu::prs::PrInfo;
use vibi_dpu::prs::PrState;
use vibi_dpu::webhook::Webhook;

#[test]
fn decimal_text_of_numbers() {
    assert_eq!(u64_to_dec_string(0), "0");
    assert_eq!(u64_to_dec_string(7), "7");
    assert_eq!(u64_to_dec_string(1234567890), "1234567890");
    assert_eq!(u64_to_dec_string(u64::MAX), "18446744073709551615");
}

#[test]
fn field_encoding_is_length_prefixed() {
    let snap = PrInfo::new("ab".to_string(), "c".to_string(), PrState::Open, "d".to_string());
    assert_eq!(enc_pr_info(&snap), "2:ab1:c4:OPEN1:d");
}

#[test]
fn field_decoding_reads_one_field() {
    let text = "2:ab1:c".to_string();
    let (v, p) = dec_field(&text, 0).expect("a well-formed field decodes");
    assert_eq!(v, "ab");
    assert_eq!(p, 4);
    let (v2, p2) = dec_field(&text, p).expect("the next field decodes");
    assert_eq!(v2, "c");
    assert_eq!(p2, 7);
}

#[test]
fn malformed_fields_are_rejected() {
    assert!(dec_field(&"".to_string(), 0).is_none());
    assert!(dec_field(&":ab".to_string(), 0).is_none());
    assert!(dec_field(&"5:ab".to_string(), 0).is_none());
    assert!(dec_field(&"2ab".to_string(), 0).is_none());
    assert!(dec_u64_field(&"2:ab".to_string(), 0).is_none());
    assert!(dec_u64_field(&"20:99999999999999999999".to_string(), 0).is_none());
}

#[test]
fn auth_info_round_trips_through_text() {
    let a = BitbucketAuthInfo::new(
        "tok: with punct".to_string(),
        "refresh/2".to_string(),
        3_600,
        Some(42),
    );
    let text = enc_auth_info(&a);
    let b = dec_auth_info(&text).expect("its own encoding decodes");
    assert_eq!(b.access_token(), "tok: with punct");
    assert_eq!(b.refresh_token(), "refresh/2");
    assert_eq!(b.expires_in(), 3_600);
    assert_eq!(*b.timestamp(), Some(42));
    // absent timestamp round-trips too
    let c = BitbucketAuthInfo::new("t".to_string(), "r".to_string(), 1, None);
    let d = dec_auth_info(&enc_auth_info(&c)).expect("decodes");
    assert_eq!(*d.timestamp(), None);
}

#[test]
fn truncated_auth_text_is_rejected() {
    let a = BitbucketAuthInfo::new("tok".to_string(), "ref".to_string(), 9, Some(1));
    let text = enc_auth_info(&a);
    let mut cut = String::new();
    for (i, ch) in text.chars().enumerate() {
        if i + 1 < text.chars().count() {
            cut.push(ch);
        }
    }
    assert!(dec_auth_info(&cut).is_none());
}

#[test]
fn webhook_round_trips_through_text() {
    let h = Webhook::new(
        "{0a1b}".to_string(),
        true,
        "2024-06-01T10:00:00Z".to_string(),
        vec!["pullrequest:created".to_string(), "pullrequest:updated".to_string()],
        "https://api.example.test/hooks/1".to_string(),
        "https://server.example.test/cb".to_string(),
    );
    let text = enc_webhook(&h);
    let g = dec_webhook(&text).expect("its own encoding decodes");
    assert_eq!(g.uuid(), "{0a1b}");
    assert!(g.active());
    assert_eq!(g.created_at(), "2024-06-01T10:00:00Z");
    assert_eq!(
        *g.events(),
        vec!["pullrequest:created".to_string(), "pullrequest:updated".to_string()]
    );
    assert_eq!(g.self_link(), "https://api.example.test/hooks/1");
    assert_eq!(g.url(), "https://server.example.test/cb");
}

#[test]
fn pr_info_round_trips_through_text() {
    let p = PrInfo::new(
        "aaa111".to_string(),
        "bbb222".to_string(),
        PrState::Merged,
        "feature/x".to_string(),
    );
    let q = dec_pr_info(&enc_pr_info(&p)).expect("its own encoding decodes");
    assert_eq!(q.base_head_commit(), "aaa111");
    assert_eq!(q.pr_head_commit(), "bbb222");
    assert_eq!(q.state(), PrState::Merged);
    assert_eq!(q.pr_branch(), "feature/x");
}

#[test]
fn snapshots_of_equal_content_encode_identically() {
    let p1 = PrInfo::new("a".to_string(), "b".to_string(), PrState::Open, "m".to_string());
    let p2 = PrInfo::new("a".to_string(), "b".to_string(), PrState::Open, "m".to_string());
    assert_eq!(enc_pr_info(&p1), enc_pr_info(&p2));
}
