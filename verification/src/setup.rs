//! The onboarding pass: what one run decides for each workspace and each
//! repository before touching the network, and the summary it reports
//! upstream.  Every per-repository decision is a function of that
//! repository's own data alone, so one repository's failure cannot disturb
//! its siblings.

use vstd::prelude::*;
use crate::repo::Repository;
use crate::repo::RepositoryModel;
use crate::repo::clone_string;
use crate::repo::clone_repository_selection;
use crate::repo::filter_by_owner;
use crate::repo::filter_user_selected_repos;
use crate::webhook::ReconcileAction;
use crate::webhook::Webhook;
use crate::webhook::WebhookModel;
use crate::webhook::reconcile_webhooks;
use crate::webhook::spec_reconcile;

verus! {

/// Mathematical model of a [`SetupInfo`].
#[verifier::ext_equal]
pub ghost struct SetupInfoModel {
    pub provider: Seq<char>,
    pub owner: Seq<char>,
    pub repos: Seq<Seq<char>>,
}

/// The onboarding summary for one workspace: the provider, the workspace,
/// and the names of the repositories onboarded there, in order.
pub struct SetupInfo {
    pub provider: String,
    pub owner: String,
    pub repos: Vec<String>,
}

impl View for SetupInfo {
    type V = SetupInfoModel;

    open spec fn view(&self) -> SetupInfoModel {
        SetupInfoModel {
            provider: self.provider@,
            owner: self.owner@,
            repos: self.repos@.map_values(|s: String| s@),
        }
    }
}

/// The names of the given repositories, in order.
pub open spec fn spec_repo_names(repos: Seq<RepositoryModel>) -> Seq<Seq<char>> {
    repos.map_values(|r: RepositoryModel| r.name)
}

/// Build the onboarding summary for one workspace from the repositories
/// onboarded there.
pub fn setup_info_for_workspace(
    provider: &String,
    workspace_slug: &String,
    repos: &Vec<Repository>,
) -> (r: SetupInfo)
    ensures
        r@ == (SetupInfoModel {
            provider: provider@,
            owner: workspace_slug@,
            repos: spec_repo_names(repos@.map_values(|x: Repository| x@)),
        }),
{
    let mut names: Vec<String> = Vec::new();
    let mut i: usize = 0;
    while i < repos.len()
        invariant
            i <= repos.len(),
            names@.len() == i,
            forall|j: int| 0 <= j < i ==> #[trigger] (names@[j]@) == repos@[j]@.name,
        decreases repos.len() - i,
    {
        names.push(clone_string(repos[i].name()));
        i = i + 1;
    }
    proof {
        assert(names@.map_values(|s: String| s@) =~= spec_repo_names(
            repos@.map_values(|x: Repository| x@),
        ));
    }
    SetupInfo { provider: clone_string(provider), owner: clone_string(workspace_slug), repos: names }
}

/// Mathematical model of a [`WebhookStep`].
pub ghost enum WebhookStepModel {
    /// The listing failed: skip the webhook step for this repository only;
    /// its pull-request sync still proceeds.
    Skip,
    /// A hook already points at the callback URL: reuse it.
    Reuse(WebhookModel),
    /// No hook points there: create one.
    Create,
}

/// The webhook step an onboarding pass takes for one repository.
pub enum WebhookStep {
    Skip,
    Reuse(Webhook),
    Create,
}

impl View for WebhookStep {
    type V = WebhookStepModel;

    open spec fn view(&self) -> WebhookStepModel {
        match self {
            WebhookStep::Skip => WebhookStepModel::Skip,
            WebhookStep::Reuse(w) => WebhookStepModel::Reuse(w@),
            WebhookStep::Create => WebhookStepModel::Create,
        }
    }
}

/// The webhook step for one repository, as a function of that repository's
/// own listing outcome alone.
pub open spec fn spec_webhook_step(
    listing: Option<Seq<WebhookModel>>,
    cb: Seq<char>,
) -> WebhookStepModel {
    match listing {
        Option::None => WebhookStepModel::Skip,
        Option::Some(hooks) => match spec_reconcile(hooks, cb) {
            Option::None => WebhookStepModel::Create,
            Option::Some(w) => WebhookStepModel::Reuse(w),
        },
    }
}

/// The model of one repository's listing outcome.
pub open spec fn spec_listing_view(listing: Option<&Vec<Webhook>>) -> Option<Seq<WebhookModel>> {
    match listing {
        Option::None => Option::None,
        Option::Some(hooks) => Option::Some(hooks@.map_values(|h: Webhook| h@)),
    }
}

/// Decide the webhook step for one repository: a failed listing skips the
/// webhook step only; an intact listing is reconciled against the callback
/// URL.
pub fn webhook_step(listing: Option<&Vec<Webhook>>, callback_url: &String) -> (r: WebhookStep)
    ensures
        r@ == spec_webhook_step(spec_listing_view(listing), callback_url@),
{
    match listing {
        None => WebhookStep::Skip,
        Some(hooks) => match reconcile_webhooks(hooks, callback_url) {
            ReconcileAction::Reuse(w) => WebhookStep::Reuse(w),
            ReconcileAction::Create => WebhookStep::Create,
        },
    }
}

/// Decide the webhook step of every repository in one pass, each from its
/// own listing alone.
pub fn plan_webhook_steps(listings: &Vec<Option<Vec<Webhook>>>, callback_url: &String) -> (r: Vec<
    WebhookStep,
>)
    ensures
        r@.len() == listings@.len(),
        forall|i: int|
            0 <= i < r@.len() ==> #[trigger] (r@[i]@) == spec_webhook_step(
                match listings@[i] {
                    Option::None => Option::None,
                    Option::Some(hooks) => Option::Some(hooks@.map_values(|h: Webhook| h@)),
                },
                callback_url@,
            ),
{
    let mut steps: Vec<WebhookStep> = Vec::new();
    let mut i: usize = 0;
    while i < listings.len()
        invariant
            i <= listings.len(),
            steps@.len() == i,
            forall|j: int|
                0 <= j < i ==> #[trigger] (steps@[j]@) == spec_webhook_step(
                    match listings@[j] {
                        Option::None => Option::None,
                        Option::Some(hooks) => Option::Some(hooks@.map_values(|h: Webhook| h@)),
                    },
                    callback_url@,
                ),
        decreases listings.len() - i,
    {
        let listing_ref = match &listings[i] {
            None => None,
            Some(hooks) => Some(hooks),
        };
        let step = webhook_step(listing_ref, callback_url);
        steps.push(step);
        i = i + 1;
    }
    steps
}

/// Partial-failure isolation law: the webhook step planned for a
/// repository is a function of that repository's own listing alone, so
/// another repository's failed listing cannot change it.
pub proof fn lemma_webhook_step_isolation(
    a: Seq<Option<Seq<WebhookModel>>>,
    b: Seq<Option<Seq<WebhookModel>>>,
    cb: Seq<char>,
    i: int,
)
    requires
        0 <= i < a.len(),
        0 <= i < b.len(),
        a[i] == b[i],
    ensures
        spec_webhook_step(a[i], cb) == spec_webhook_step(b[i], cb),
{
}

/// Mathematical model of a [`WorkspacePlan`].
#[verifier::ext_equal]
pub ghost struct WorkspacePlanModel {
    pub repos: Seq<RepositoryModel>,
    pub setup_info: SetupInfoModel,
}

/// Everything one onboarding pass decides for a single workspace before
/// touching the network: the repositories to onboard there and the summary
/// entry to report for them.
pub struct WorkspacePlan {
    pub repos: Vec<Repository>,
    pub setup_info: SetupInfo,
}

impl View for WorkspacePlan {
    type V = WorkspacePlanModel;

    open spec fn view(&self) -> WorkspacePlanModel {
        WorkspacePlanModel {
            repos: self.repos@.map_values(|x: Repository| x@),
            setup_info: self.setup_info@,
        }
    }
}

/// What one workspace's onboarding looks like: nothing when the selection
/// yields no repository (fail-closed), else the selected repositories owned
/// by the workspace, with their summary entry.
pub open spec fn spec_workspace_plan(
    provider: Seq<char>,
    slug: Seq<char>,
    selection: Option<Seq<RepositoryModel>>,
) -> Option<WorkspacePlanModel> {
    match selection {
        Option::None => Option::None,
        Option::Some(sel) => if sel.len() == 0 {
            Option::None
        } else {
            let repos = filter_by_owner(sel, slug);
            Option::Some(
                WorkspacePlanModel {
                    repos,
                    setup_info: SetupInfoModel {
                        provider,
                        owner: slug,
                        repos: spec_repo_names(repos),
                    },
                },
            )
        },
    }
}

/// Plan one workspace's onboarding from the user's selection.
pub fn plan_workspace_onboarding(
    provider: &String,
    workspace_slug: &String,
    user_selected: Option<Vec<Repository>>,
) -> (r: Option<WorkspacePlan>)
    ensures
        match r {
            Some(plan) => spec_workspace_plan(
                provider@,
                workspace_slug@,
                match user_selected {
                    Option::None => Option::None,
                    Option::Some(sel) => Option::Some(sel@.map_values(|x: Repository| x@)),
                },
            ) == Option::Some(plan@),
            None => spec_workspace_plan(
                provider@,
                workspace_slug@,
                match user_selected {
                    Option::None => Option::None,
                    Option::Some(sel) => Option::Some(sel@.map_values(|x: Repository| x@)),
                },
            ) is None,
        },
{
    let slug_copy = clone_string(workspace_slug);
    match filter_user_selected_repos(slug_copy, user_selected) {
        None => None,
        Some(repos) => {
            let setup_info = setup_info_for_workspace(provider, workspace_slug, &repos);
            Some(WorkspacePlan { repos, setup_info })
        },
    }
}

/// What a whole onboarding pass plans: one entry per workspace for which
/// the selection yields repositories, in workspace order.  Each entry is a
/// function of its own workspace and the one shared selection, so no
/// workspace's outcome can disturb another's.
pub open spec fn spec_plan_onboarding(
    provider: Seq<char>,
    slugs: Seq<Seq<char>>,
    selection: Option<Seq<RepositoryModel>>,
) -> Seq<WorkspacePlanModel>
    decreases slugs.len(),
{
    if slugs.len() == 0 {
        Seq::empty()
    } else {
        let rest = spec_plan_onboarding(provider, slugs.drop_last(), selection);
        match spec_workspace_plan(provider, slugs.last(), selection) {
            Option::Some(p) => rest.push(p),
            Option::None => rest,
        }
    }
}

/// Plan a whole onboarding pass over an account's workspaces.
pub fn plan_onboarding(
    provider: &String,
    workspace_slugs: &Vec<String>,
    user_selected: &Option<Vec<Repository>>,
) -> (r: Vec<WorkspacePlan>)
    ensures
        r@.map_values(|p: WorkspacePlan| p@) == spec_plan_onboarding(
            provider@,
            workspace_slugs@.map_values(|s: String| s@),
            match *user_selected {
                Option::None => Option::None,
                Option::Some(ref sel) => Option::Some(sel@.map_values(|x: Repository| x@)),
            },
        ),
{
    let ghost slugs = workspace_slugs@.map_values(|s: String| s@);
    let ghost sel_model = match *user_selected {
        Option::None => Option::<Seq<RepositoryModel>>::None,
        Option::Some(ref sel) => Option::Some(sel@.map_values(|x: Repository| x@)),
    };
    let mut plans: Vec<WorkspacePlan> = Vec::new();
    let mut i: usize = 0;
    proof {
        assert(slugs.take(0int) =~= Seq::<Seq<char>>::empty());
        assert(plans@.map_values(|p: WorkspacePlan| p@) =~= spec_plan_onboarding(
            provider@,
            slugs.take(0int),
            sel_model,
        ));
    }
    while i < workspace_slugs.len()
        invariant
            i <= workspace_slugs.len(),
            slugs == workspace_slugs@.map_values(|s: String| s@),
            sel_model == (match *user_selected {
                Option::None => Option::<Seq<RepositoryModel>>::None,
                Option::Some(ref sel) => Option::Some(sel@.map_values(|x: Repository| x@)),
            }),
            plans@.map_values(|p: WorkspacePlan| p@) == spec_plan_onboarding(
                provider@,
                slugs.take(i as int),
                sel_model,
            ),
        decreases workspace_slugs.len() - i,
    {
        let slug = &workspace_slugs[i];
        let selection_copy = clone_repository_selection(user_selected);
        let plan_opt = plan_workspace_onboarding(provider, slug, selection_copy);
        match plan_opt {
            Some(plan) => {
                plans.push(plan);
            },
            None => {},
        }
        proof {
            assert(slugs.take(i + 1int).drop_last() =~= slugs.take(i as int));
            assert(slugs.take(i + 1int).last() == slugs[i as int]);
            assert(slugs[i as int] == workspace_slugs@[i as int]@);
            assert(plans@.map_values(|p: WorkspacePlan| p@) =~= spec_plan_onboarding(
                provider@,
                slugs.take(i + 1int),
                sel_model,
            ));
        }
        i = i + 1;
    }
    proof {
        assert(slugs.take(workspace_slugs@.len() as int) =~= slugs);
    }
    plans
}

} // verus!
