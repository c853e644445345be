use vibi_dpu::webhook::ReconcileAction;
use vibi_dpu::webhook::Webhook;
use vibi_dpu::webhook::reconcile_webhooks;
use vibi_dpu::webhook::webhook_callback_url;
use vibi_dpu::webhook::webhook_subscription_events;

fn hook(uuid: &str, url: &str) -> Webhook {
    Webhook::new(
        uuid.to_string(),
        true,
        "2024-01-01T00:00:00Z".to_string(),
        vec!["pullrequest:created".to_string(), "pullrequest:updated".to_string()],
        format!("https://api.example.test/hooks/{uuid}"),
        url.to_string(),
    )
}

#[test]
fn reconcile_reuses_existing_hook() {
    let cb = "https://server.example.test/api/bitbucket/callbacks/webhook".to_string();
    let hooks = vec![hook("h-1", "https://elsewhere.example.test/hook"), hook("h-2", &cb)];
    match reconcile_webhooks(&hooks, &cb) {
        ReconcileAction::Reuse(w) => assert_eq!(w.uuid(), "h-2"),
        ReconcileAction::Create => panic!("must reuse the existing hook"),
    }
}

#[test]
fn reconcile_creates_when_no_hook_matches() {
    let cb = "https://server.example.test/api/bitbucket/callbacks/webhook".to_string();
    let hooks = vec![hook("h-1", "https://elsewhere.example.test/hook")];
    match reconcile_webhooks(&hooks, &cb) {
        ReconcileAction::Reuse(_) => panic!("nothing matches, must create"),
        ReconcileAction::Create => {}
    }
}

#[test]
fn reconcile_twice_never_creates_two_hooks() {
    let cb = "https://server.example.test/api/bitbucket/callbacks/webhook".to_string();
    // first run: the provider has no matching hook, so one is created
    let mut provider_hooks = vec![hook("h-1", "https://elsewhere.example.test/hook")];
    let first_id;
    match reconcile_webhooks(&provider_hooks, &cb) {
        ReconcileAction::Reuse(_) => panic!("nothing matches yet"),
        ReconcileAction::Create => {
            // the provider registers the new hook and assigns it an id
            let created = hook("h-new", &cb);
            first_id = created.uuid().clone();
            provider_hooks.push(created);
        }
    }
    // second run over the provider's new listing: no second create, and the
    // record returned carries the id of the hook the first run created
    match reconcile_webhooks(&provider_hooks, &cb) {
        ReconcileAction::Reuse(w) => assert_eq!(*w.uuid(), first_id),
        ReconcileAction::Create => panic!("second run must not create a duplicate hook"),
    }
    assert_eq!(provider_hooks.len(), 2);
}

#[test]
fn reconcile_picks_first_of_several_matches() {
    let cb = "https://server.example.test/cb".to_string();
    let hooks = vec![hook("a", &cb), hook("b", &cb)];
    match reconcile_webhooks(&hooks, &cb) {
        ReconcileAction::Reuse(w) => assert_eq!(w.uuid(), "a"),
        ReconcileAction::Create => panic!("must reuse"),
    }
}

#[test]
fn callback_url_is_server_url_plus_path() {
    let url = webhook_callback_url(&"https://server.example.test".to_string());
    assert_eq!(url, "https://server.example.test/api/bitbucket/callbacks/webhook");
}

#[test]
fn subscription_covers_created_and_updated() {
    let events = webhook_subscription_events();
    assert_eq!(events, vec!["pullrequest:created".to_string(), "pullrequest:updated".to_string()]);
}
