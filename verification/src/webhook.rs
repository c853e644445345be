//! Webhook records and the reconciliation that keeps exactly one automation
//! webhook per repository: reuse the hook whose target is our callback URL
//! when the provider already has one, create one only when it does not.

use vstd::prelude::*;
use crate::repo::clone_string;

verus! {

/// Mathematical model of a [`Webhook`].
#[verifier::ext_equal]
pub ghost struct WebhookModel {
    pub uuid: Seq<char>,
    pub active: bool,
    pub created_at: Seq<char>,
    pub events: Seq<Seq<char>>,
    pub self_link: Seq<char>,
    pub url: Seq<char>,
}

/// A webhook as the provider reports it: its provider-assigned id, whether
/// it is active, when it was created, the events it subscribes to, its own
/// API link, and the URL it calls back.
pub struct Webhook {
    uuid: String,
    active: bool,
    created_at: String,
    events: Vec<String>,
    self_link: String,
    url: String,
}

impl View for Webhook {
    type V = WebhookModel;

    closed spec fn view(&self) -> WebhookModel {
        WebhookModel {
            uuid: self.uuid@,
            active: self.active,
            created_at: self.created_at@,
            events: self.events@.map_values(|e: String| e@),
            self_link: self.self_link@,
            url: self.url@,
        }
    }
}

impl Webhook {
    pub fn new(
        uuid: String,
        active: bool,
        created_at: String,
        events: Vec<String>,
        self_link: String,
        url: String,
    ) -> (r: Self)
        ensures
            r@ == (WebhookModel {
                uuid: uuid@,
                active,
                created_at: created_at@,
                events: events@.map_values(|e: String| e@),
                self_link: self_link@,
                url: url@,
            }),
    {
        Self { uuid, active, created_at, events, self_link, url }
    }

    pub fn uuid(&self) -> (r: &String)
        ensures
            r@ == self@.uuid,
    {
        &self.uuid
    }

    pub fn active(&self) -> (r: bool)
        ensures
            r == self@.active,
    {
        self.active
    }

    pub fn created_at(&self) -> (r: &String)
        ensures
            r@ == self@.created_at,
    {
        &self.created_at
    }

    pub fn events(&self) -> (r: &Vec<String>)
        ensures
            r@.map_values(|e: String| e@) == self@.events,
    {
        &self.events
    }

    pub fn self_link(&self) -> (r: &String)
        ensures
            r@ == self@.self_link,
    {
        &self.self_link
    }

    pub fn url(&self) -> (r: &String)
        ensures
            r@ == self@.url,
    {
        &self.url
    }
}

impl Clone for Webhook {
    fn clone(&self) -> (r: Self)
        ensures
            r@ == self@,
    {
        let mut events: Vec<String> = Vec::new();
        let mut i: usize = 0;
        while i < self.events.len()
            invariant
                i <= self.events.len(),
                events@.len() == i,
                forall|j: int| 0 <= j < i ==> #[trigger] (events@[j]@) == self.events@[j]@,
            decreases self.events.len() - i,
        {
            events.push(clone_string(&self.events[i]));
            i = i + 1;
        }
        proof {
            assert(events@.map_values(|e: String| e@) =~= self.events@.map_values(
                |e: String| e@,
            ));
        }
        Webhook {
            uuid: clone_string(&self.uuid),
            active: self.active,
            created_at: clone_string(&self.created_at),
            events,
            self_link: clone_string(&self.self_link),
            url: clone_string(&self.url),
        }
    }
}

/// The index of the first hook in `hooks` whose target is `cb`, if any.
pub open spec fn spec_first_matching(hooks: Seq<WebhookModel>, cb: Seq<char>) -> Option<int>
    decreases hooks.len(),
{
    if hooks.len() == 0 {
        Option::None
    } else if hooks[0].url == cb {
        Option::Some(0)
    } else {
        match spec_first_matching(hooks.drop_first(), cb) {
            Option::None => Option::None,
            Option::Some(i) => Option::Some(i + 1),
        }
    }
}

/// What reconciliation decides for a repository's listed hooks: the hook to
/// reuse, or nothing when one must be created.
pub open spec fn spec_reconcile(hooks: Seq<WebhookModel>, cb: Seq<char>) -> Option<WebhookModel> {
    match spec_first_matching(hooks, cb) {
        Option::None => Option::None,
        Option::Some(i) => Option::Some(hooks[i]),
    }
}

/// The first matching index is in range, matches, and nothing before it
/// matches; where there is none, nothing matches at all.
pub proof fn lemma_first_matching_characterization(hooks: Seq<WebhookModel>, cb: Seq<char>)
    ensures
        match spec_first_matching(hooks, cb) {
            Option::None => forall|j: int|
                0 <= j < hooks.len() ==> #[trigger] (hooks[j].url) != cb,
            Option::Some(i) => 0 <= i < hooks.len() && hooks[i].url == cb && forall|j: int|
                0 <= j < i ==> #[trigger] (hooks[j].url) != cb,
        },
    decreases hooks.len(),
{
    if hooks.len() > 0 && hooks[0].url != cb {
        let rest = hooks.drop_first();
        lemma_first_matching_characterization(rest, cb);
        assert(forall|j: int| 1 <= j < hooks.len() ==> hooks[j] == #[trigger] (rest[j - 1]));
        match spec_first_matching(rest, cb) {
            Option::None => {
                assert forall|j: int| 0 <= j < hooks.len() implies #[trigger] (hooks[j].url)
                    != cb by {
                    if j >= 1 {
                        assert(hooks[j] == rest[j - 1]);
                        assert(rest[j - 1].url != cb);
                    }
                }
            },
            Option::Some(i) => {
                assert(hooks[i + 1] == rest[i]);
                assert forall|j: int| 0 <= j < i + 1 implies #[trigger] (hooks[j].url) != cb by {
                    if j >= 1 {
                        assert(hooks[j] == rest[j - 1]);
                    }
                }
            },
        }
    }
}

/// What `EnsureWebhook` decides after listing a repository's hooks.
pub enum ReconcileAction {
    /// A hook already points at the callback URL: persist and return it,
    /// with no provider mutation.
    Reuse(Webhook),
    /// No hook points there: one must be created.
    Create,
}

/// Reconcile a repository's listed webhooks against our callback URL:
/// reuse the first hook already pointing there, create one only when none
/// does.
pub fn reconcile_webhooks(hooks: &Vec<Webhook>, callback_url: &String) -> (r: ReconcileAction)
    ensures
        match r {
            ReconcileAction::Reuse(w) => spec_reconcile(
                hooks@.map_values(|h: Webhook| h@),
                callback_url@,
            ) == Option::Some(w@),
            ReconcileAction::Create => spec_reconcile(
                hooks@.map_values(|h: Webhook| h@),
                callback_url@,
            ) is None,
        },
{
    let ghost hs = hooks@.map_values(|h: Webhook| h@);
    proof {
        lemma_first_matching_characterization(hs, callback_url@);
    }
    let mut i: usize = 0;
    while i < hooks.len()
        invariant
            i <= hooks.len(),
            hs == hooks@.map_values(|h: Webhook| h@),
            forall|j: int| 0 <= j < i ==> #[trigger] (hs[j].url) != callback_url@,
        decreases hooks.len() - i,
    {
        let hook = &hooks[i];
        if *hook.url() == *callback_url {
            proof {
                lemma_first_matching_characterization(hs, callback_url@);
                assert(hs[i as int].url == callback_url@);
            }
            return ReconcileAction::Reuse(hook.clone());
        }
        i = i + 1;
    }
    proof {
        lemma_first_matching_characterization(hs, callback_url@);
    }
    ReconcileAction::Create
}

/// Idempotent reconciliation, first half: a run that finds a hook pointing
/// at the callback URL reuses it and mutates nothing, so an immediate
/// second run over the unchanged listing reuses the very same hook.
pub proof fn lemma_reconcile_reuse_stable(hooks: Seq<WebhookModel>, cb: Seq<char>, w: WebhookModel)
    requires
        spec_reconcile(hooks, cb) == Option::Some(w),
    ensures
        w.url == cb,
        spec_reconcile(hooks, cb) == Option::Some(w),
{
    lemma_first_matching_characterization(hooks, cb);
}

pub proof fn lemma_first_matching_push_no_match(
    hooks: Seq<WebhookModel>,
    created: WebhookModel,
    cb: Seq<char>,
)
    requires
        spec_first_matching(hooks, cb) is None,
        created.url == cb,
    ensures
        spec_first_matching(hooks.push(created), cb) == Option::Some(hooks.len() as int),
    decreases hooks.len(),
{
    lemma_first_matching_characterization(hooks, cb);
    if hooks.len() == 0 {
        assert(hooks.push(created)[0] == created);
    } else {
        assert(hooks.push(created)[0] == hooks[0]);
        assert(hooks.drop_first().push(created) =~= hooks.push(created).drop_first());
        lemma_first_matching_characterization(hooks.drop_first(), cb);
        assert(forall|j: int|
            1 <= j < hooks.len() ==> hooks[j] == #[trigger] (hooks.drop_first()[j - 1]));
        if spec_first_matching(hooks.drop_first(), cb) is Some {
            let i = spec_first_matching(hooks.drop_first(), cb)->Some_0;
            lemma_first_matching_characterization(hooks.drop_first(), cb);
            assert(hooks[i + 1].url == cb);
            assert(false);
        }
        lemma_first_matching_push_no_match(hooks.drop_first(), created, cb);
    }
}

/// Idempotent reconciliation, second half: when the first run found no
/// matching hook and created one targeting the callback URL, the provider's
/// next listing holds that hook, so the second run reuses exactly the hook
/// the first run created — the provider never ends up with two hooks for
/// the same repository and callback URL.
pub proof fn lemma_reconcile_second_run_reuses_created(
    hooks: Seq<WebhookModel>,
    created: WebhookModel,
    cb: Seq<char>,
)
    requires
        spec_reconcile(hooks, cb) is None,
        created.url == cb,
    ensures
        spec_reconcile(hooks.push(created), cb) == Option::Some(created),
{
    lemma_first_matching_push_no_match(hooks, created, cb);
    assert(hooks.push(created)[hooks.len() as int] == created);
}

/// The fixed event subscription of the automation webhook: pull-request
/// created and pull-request updated.
pub fn webhook_subscription_events() -> (r: Vec<String>)
    ensures
        r@.map_values(|s: String| s@) == seq!["pullrequest:created"@, "pullrequest:updated"@],
{
    let mut events: Vec<String> = Vec::new();
    events.push(String::from_str("pullrequest:created"));
    events.push(String::from_str("pullrequest:updated"));
    proof {
        assert(events@.map_values(|s: String| s@) =~= seq![
            "pullrequest:created"@,
            "pullrequest:updated"@,
        ]);
    }
    events
}

/// The callback URL our webhooks must target, under the given server URL.
pub fn webhook_callback_url(server_url: &String) -> (r: String)
    ensures
        r@ == server_url@ + "/api/bitbucket/callbacks/webhook"@,
{
    let mut url = clone_string(server_url);
    url.append("/api/bitbucket/callbacks/webhook");
    url
}

} // verus!
