use vibi_dpu::aliases::AliasHandles;
use vibi_dpu::aliases::collect_provider_handles;
use vibi_dpu::aliases::handles_map_for_provider;
use vibi_dpu::provider::Provider;
use vibi_dpu::provider::parse_provider;
use vibi_dpu::provider::provider_name;
use vibi_dpu::prs::PrState;
use vibi_dpu::prs::collect_pr_ids;
use vibi_dpu::prs::normalize_bitbucket_state;
use vibi_dpu::prs::normalize_github_state;
use vibi_dpu::prs::pr_numbers_to_strings;
use vibi_dpu::repo::Repository;
use vibi_dpu::repo::UserSelectedRepo;
use vibi_dpu::repo::filter_repos_by_selection;
use vibi_dpu::repo::filter_user_selected_repos;
use vibi_dpu::repo::github_repo_from_fields;
use vibi_dpu::setup::WebhookStep;
use vibi_dpu::setup::plan_webhook_steps;
use vibi_dpu::setup::plan_onboarding;
use vibi_dpu::setup::plan_workspace_onboarding;
use vibi_dpu::webhook::Webhook;

fn repo(name: &str, owner: &str, provider: &str) -> Repository {
    Repository::new(
        name.to_string(),
        format!("uuid-{name}"),
        owner.to_string(),
        true,
        format!("git@host:{owner}/{name}.git"),
        None,
        None,
        owner.to_string(),
        None,
        provider.to_string(),
    )
}

fn listed_hook(uuid: &str, url: &str) -> Webhook {
    Webhook::new(
        uuid.to_string(),
        true,
        "2024-01-01T00:00:00Z".to_string(),
        vec!["pullrequest:created".to_string()],
        format!("https://api.example.test/hooks/{uuid}"),
        url.to_string(),
    )
}

#[test]
fn absent_selection_yields_nothing() {
    assert!(filter_user_selected_repos("acme".to_string(), None).is_none());
}

#[test]
fn empty_selection_yields_nothing_not_the_full_listing() {
    assert!(filter_user_selected_repos("acme".to_string(), Some(vec![])).is_none());
    // the selection-identity filter fails closed the same way
    let discovered = vec![repo("svc-a", "acme", "github"), repo("svc-b", "acme", "github")];
    let kept = filter_repos_by_selection(discovered, &vec![]);
    assert_eq!(kept.len(), 0);
}

#[test]
fn selection_is_narrowed_to_the_workspace() {
    let selection = vec![
        repo("svc-a", "acme", "bitbucket"),
        repo("other", "globex", "bitbucket"),
        repo("svc-b", "acme", "bitbucket"),
    ];
    let kept = filter_user_selected_repos("acme".to_string(), Some(selection))
        .expect("a non-empty selection yields a plan");
    let names: Vec<&String> = kept.iter().map(|r| r.name()).collect();
    assert_eq!(names, ["svc-a", "svc-b"]);
}

#[test]
fn selection_filter_keeps_every_match_not_only_the_first() {
    let discovered = vec![
        repo("svc-a", "acme", "github"),
        repo("svc-b", "acme", "github"),
        repo("svc-c", "acme", "github"),
    ];
    let selection = vec![
        UserSelectedRepo {
            name: "svc-a".to_string(),
            owner: "acme".to_string(),
            provider: "github".to_string(),
        },
        UserSelectedRepo {
            name: "svc-c".to_string(),
            owner: "acme".to_string(),
            provider: "github".to_string(),
        },
    ];
    let kept = filter_repos_by_selection(discovered, &selection);
    let names: Vec<&String> = kept.iter().map(|r| r.name()).collect();
    assert_eq!(names, ["svc-a", "svc-c"]);
}

#[test]
fn webhook_failure_of_one_repository_is_isolated() {
    let cb = "https://server.example.test/api/bitbucket/callbacks/webhook".to_string();
    // three repositories; the second one's webhook listing failed
    let listings = vec![
        Some(vec![listed_hook("h-1", &cb)]),
        None,
        Some(vec![listed_hook("h-3", "https://elsewhere.example.test")]),
    ];
    let steps = plan_webhook_steps(&listings, &cb);
    assert_eq!(steps.len(), 3);
    match &steps[0] {
        WebhookStep::Reuse(w) => assert_eq!(w.uuid(), "h-1"),
        _ => panic!("repository one reuses its hook"),
    }
    match &steps[1] {
        WebhookStep::Skip => {}
        _ => panic!("only the failed repository's webhook step is skipped"),
    }
    match &steps[2] {
        WebhookStep::Create => {}
        _ => panic!("repository three still gets its hook created"),
    }
}

#[test]
fn acme_bitbucket_onboarding_scenario() {
    // account `acme` on provider `bitbucket`, two selected repositories
    let selection = Some(vec![
        repo("svc-a", "acme", "bitbucket"),
        repo("svc-b", "acme", "bitbucket"),
    ]);
    let plan = plan_workspace_onboarding(
        &"bitbucket".to_string(),
        &"acme".to_string(),
        selection,
    ).expect("the selection yields a plan");
    assert_eq!(plan.repos.len(), 2);
    // with no pre-existing hooks, each repository gets one webhook created
    let cb = "https://server.example.test/api/bitbucket/callbacks/webhook".to_string();
    let listings = vec![Some(vec![]), Some(vec![])];
    let steps = plan_webhook_steps(&listings, &cb);
    assert_eq!(steps.len(), 2);
    for step in &steps {
        match step {
            WebhookStep::Create => {}
            _ => panic!("no hook pre-exists, so each repository needs a create"),
        }
    }
    // the summary reported upstream
    assert_eq!(plan.setup_info.provider, "bitbucket");
    assert_eq!(plan.setup_info.owner, "acme");
    assert_eq!(plan.setup_info.repos, vec!["svc-a".to_string(), "svc-b".to_string()]);
}

#[test]
fn bitbucket_states_pass_through_to_canonical() {
    assert_eq!(normalize_bitbucket_state(&"OPEN".to_string()), PrState::Open);
    assert_eq!(normalize_bitbucket_state(&"MERGED".to_string()), PrState::Merged);
    assert_eq!(normalize_bitbucket_state(&"DECLINED".to_string()), PrState::Declined);
    assert_eq!(normalize_bitbucket_state(&"SUPERSEDED".to_string()), PrState::Other);
}

#[test]
fn github_states_normalize_with_merged_indicator() {
    assert_eq!(normalize_github_state(&"open".to_string(), false), PrState::Open);
    assert_eq!(normalize_github_state(&"closed".to_string(), true), PrState::Merged);
    assert_eq!(normalize_github_state(&"closed".to_string(), false), PrState::Declined);
    assert_eq!(normalize_github_state(&"draft".to_string(), false), PrState::Other);
}

#[test]
fn pr_ids_keep_present_entries_in_order() {
    let ids = collect_pr_ids(vec![Some(4), None, Some(9)]);
    assert_eq!(ids, vec![4, 9]);
    // identifiers are truncated to 32 bits, as throughout this system
    let big = collect_pr_ids(vec![Some(0x1_0000_0005)]);
    assert_eq!(big, vec![5]);
}

#[test]
fn pr_numbers_become_decimal_texts() {
    let texts = pr_numbers_to_strings(&vec![4, 123]);
    assert_eq!(texts, vec!["4".to_string(), "123".to_string()]);
}

#[test]
fn provider_names_parse_back() {
    assert_eq!(parse_provider(&provider_name(Provider::Github)), Some(Provider::Github));
    assert_eq!(parse_provider(&provider_name(Provider::Bitbucket)), Some(Provider::Bitbucket));
    assert_eq!(parse_provider(&"gitlab".to_string()), None);
}

#[test]
fn alias_handles_are_narrowed_to_one_provider() {
    let handles = vec![
        AliasHandles {
            git_alias: "dev@example.test".to_string(),
            github: Some(vec!["octo-dev".to_string()]),
            bitbucket: None,
        },
        AliasHandles {
            git_alias: "ops@example.test".to_string(),
            github: None,
            bitbucket: Some(vec!["bb-ops".to_string(), "bb-ops2".to_string()]),
        },
    ];
    let gh = collect_provider_handles(&handles, Provider::Github);
    assert_eq!(gh.len(), 1);
    assert_eq!(gh[0].0, "dev@example.test");
    assert_eq!(gh[0].1, vec!["octo-dev".to_string()]);
    let bb = collect_provider_handles(&handles, Provider::Bitbucket);
    assert_eq!(bb.len(), 1);
    assert_eq!(bb[0].0, "ops@example.test");
    // an entry set that offers nothing for the provider yields nothing
    let none_for_github = vec![AliasHandles {
        git_alias: "x".to_string(),
        github: None,
        bitbucket: None,
    }];
    assert!(handles_map_for_provider(&none_for_github, Provider::Github).is_none());
}

#[test]
fn github_repo_fields_default_to_private() {
    let r = github_repo_from_fields(
        "svc-a".to_string(),
        "77".to_string(),
        "acme".to_string(),
        None,
        "git@github.test:acme/svc-a.git".to_string(),
    );
    assert_eq!(r.name(), "svc-a");
    assert_eq!(r.owner(), "acme");
    assert_eq!(r.workspace(), "acme");
    assert_eq!(r.provider(), "github");
    let mut open_repo = github_repo_from_fields(
        "svc-b".to_string(),
        "78".to_string(),
        "acme".to_string(),
        Some(false),
        "git@github.test:acme/svc-b.git".to_string(),
    );
    assert_eq!(open_repo.clone_ssh_url(), "git@github.test:acme/svc-b.git");
    open_repo.set_local_dir(&"/var/work/svc-b".to_string());
    assert_eq!(*open_repo.local_dir(), Some("/var/work/svc-b".to_string()));
}

#[test]
fn whole_pass_plans_each_workspace_from_the_shared_selection() {
    let workspaces = vec!["acme".to_string(), "globex".to_string(), "initech".to_string()];
    // the selection names repositories of acme and initech only
    let selection = Some(vec![
        repo("svc-a", "acme", "bitbucket"),
        repo("svc-i", "initech", "bitbucket"),
    ]);
    let plans = plan_onboarding(&"bitbucket".to_string(), &workspaces, &selection);
    // globex contributes nothing; the others keep workspace order
    assert_eq!(plans.len(), 3);
    assert_eq!(plans[0].setup_info.owner, "acme");
    assert_eq!(plans[0].setup_info.repos, vec!["svc-a".to_string()]);
    assert_eq!(plans[1].setup_info.owner, "globex");
    assert_eq!(plans[1].setup_info.repos, Vec::<String>::new());
    assert_eq!(plans[2].setup_info.owner, "initech");
    assert_eq!(plans[2].setup_info.repos, vec!["svc-i".to_string()]);
}
