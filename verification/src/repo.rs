//! Repository references discovered on a provider account, and the
//! fail-closed filtering that narrows them to the caller's selection.

use vstd::prelude::*;

verus! {

/// Mathematical model of a [`Repository`]: every text field as a sequence of
/// characters.
#[verifier::ext_equal]
pub ghost struct RepositoryModel {
    pub name: Seq<char>,
    pub uuid: Seq<char>,
    pub owner: Seq<char>,
    pub is_private: bool,
    pub clone_ssh_url: Seq<char>,
    pub project_name: Option<Seq<char>>,
    pub project_type: Option<Seq<char>>,
    pub workspace: Seq<char>,
    pub local_dir: Option<Seq<char>>,
    pub provider: Seq<char>,
}

/// A repository as discovered on a provider account.  Identity is
/// `(provider, owner, name)`; `local_dir` is filled in later, once a working
/// copy exists.
pub struct Repository {
    name: String,
    uuid: String,
    owner: String,
    is_private: bool,
    clone_ssh_url: String,
    project_name: Option<String>,
    project_type: Option<String>,
    workspace: String,
    local_dir: Option<String>,
    provider: String,
}

pub open spec fn opt_view(o: Option<String>) -> Option<Seq<char>> {
    match o {
        Option::None => Option::None,
        Option::Some(s) => Option::Some(s@),
    }
}

impl View for Repository {
    type V = RepositoryModel;

    closed spec fn view(&self) -> RepositoryModel {
        RepositoryModel {
            name: self.name@,
            uuid: self.uuid@,
            owner: self.owner@,
            is_private: self.is_private,
            clone_ssh_url: self.clone_ssh_url@,
            project_name: opt_view(self.project_name),
            project_type: opt_view(self.project_type),
            workspace: self.workspace@,
            local_dir: opt_view(self.local_dir),
            provider: self.provider@,
        }
    }
}

impl Repository {
    pub fn new(
        name: String,
        uuid: String,
        owner: String,
        is_private: bool,
        clone_ssh_url: String,
        project_name: Option<String>,
        project_type: Option<String>,
        workspace: String,
        local_dir: Option<String>,
        provider: String,
    ) -> (r: Self)
        ensures
            r@ == (RepositoryModel {
                name: name@,
                uuid: uuid@,
                owner: owner@,
                is_private,
                clone_ssh_url: clone_ssh_url@,
                project_name: opt_view(project_name),
                project_type: opt_view(project_type),
                workspace: workspace@,
                local_dir: opt_view(local_dir),
                provider: provider@,
            }),
    {
        Self {
            name,
            uuid,
            owner,
            is_private,
            clone_ssh_url,
            project_name,
            project_type,
            workspace,
            local_dir,
            provider,
        }
    }

    pub fn name(&self) -> (r: &String)
        ensures
            r@ == self@.name,
    {
        &self.name
    }

    pub fn owner(&self) -> (r: &String)
        ensures
            r@ == self@.owner,
    {
        &self.owner
    }

    pub fn clone_ssh_url(&self) -> (r: &String)
        ensures
            r@ == self@.clone_ssh_url,
    {
        &self.clone_ssh_url
    }

    pub fn workspace(&self) -> (r: &String)
        ensures
            r@ == self@.workspace,
    {
        &self.workspace
    }

    pub fn local_dir(&self) -> (r: &Option<String>)
        ensures
            opt_view(*r) == self@.local_dir,
    {
        &self.local_dir
    }

    pub fn provider(&self) -> (r: &String)
        ensures
            r@ == self@.provider,
    {
        &self.provider
    }

    pub fn set_local_dir(&mut self, local_dir: &String)
        ensures
            final(self)@ == (RepositoryModel {
                local_dir: Option::Some(local_dir@),
                ..old(self)@
            }),
    {
        self.local_dir = Some(clone_string(local_dir));
    }
}

impl Clone for Repository {
    fn clone(&self) -> (r: Self)
        ensures
            r@ == self@,
    {
        Repository {
            name: clone_string(&self.name),
            uuid: clone_string(&self.uuid),
            owner: clone_string(&self.owner),
            is_private: self.is_private,
            clone_ssh_url: clone_string(&self.clone_ssh_url),
            project_name: clone_opt_string(&self.project_name),
            project_type: clone_opt_string(&self.project_type),
            workspace: clone_string(&self.workspace),
            local_dir: clone_opt_string(&self.local_dir),
            provider: clone_string(&self.provider),
        }
    }
}

/// Clone a string; unlike `String::clone`, the result's relation to the
/// input is stated over views.
pub fn clone_string(s: &String) -> (r: String)
    ensures
        r@ == s@,
{
    s.clone()
}

pub fn clone_opt_string(o: &Option<String>) -> (r: Option<String>)
    ensures
        opt_view(r) == opt_view(*o),
{
    match o {
        None => None,
        Some(s) => Some(clone_string(s)),
    }
}

/// Mathematical model of a [`UserSelectedRepo`].
#[verifier::ext_equal]
pub ghost struct UserSelectedRepoModel {
    pub name: Seq<char>,
    pub owner: Seq<char>,
    pub provider: Seq<char>,
}

/// One entry of the caller-supplied selection of repositories: the identity
/// `(provider, owner, name)` of a repository the user chose to onboard.
pub struct UserSelectedRepo {
    pub name: String,
    pub owner: String,
    pub provider: String,
}

impl View for UserSelectedRepo {
    type V = UserSelectedRepoModel;

    open spec fn view(&self) -> UserSelectedRepoModel {
        UserSelectedRepoModel { name: self.name@, owner: self.owner@, provider: self.provider@ }
    }
}

/// Whether selection entry `sel` names repository `r`: all of name, owner
/// and provider agree.
pub open spec fn spec_selection_names(sel: UserSelectedRepoModel, r: RepositoryModel) -> bool {
    sel.name == r.name && sel.provider == r.provider && sel.owner == r.owner
}

/// Whether some entry of `sels` names `r`.
pub open spec fn spec_selected(r: RepositoryModel, sels: Seq<UserSelectedRepoModel>) -> bool {
    exists|j: int| 0 <= j < sels.len() && spec_selection_names(#[trigger] sels[j], r)
}

/// The repositories of `repos` the selection names, in discovery order.
pub open spec fn spec_filter_by_selection(
    repos: Seq<RepositoryModel>,
    sels: Seq<UserSelectedRepoModel>,
) -> Seq<RepositoryModel> {
    repos.filter(|r: RepositoryModel| spec_selected(r, sels))
}

/// Whether the user's selection names this repository.
pub fn repo_matches_selection(repo: &Repository, selection: &Vec<UserSelectedRepo>) -> (found:
    bool)
    ensures
        found == spec_selected(repo@, selection@.map_values(|s: UserSelectedRepo| s@)),
{
    let ghost sels = selection@.map_values(|s: UserSelectedRepo| s@);
    let mut j: usize = 0;
    let mut found = false;
    while j < selection.len()
        invariant
            j <= selection.len(),
            sels == selection@.map_values(|s: UserSelectedRepo| s@),
            found ==> exists|k: int|
                0 <= k < j && spec_selection_names(#[trigger] sels[k], repo@),
            !found ==> forall|k: int|
                0 <= k < j ==> !spec_selection_names(#[trigger] sels[k], repo@),
        decreases selection.len() - j,
    {
        if !found {
            let s = &selection[j];
            if *repo.name() == s.name && *repo.provider() == s.provider && *repo.owner()
                == s.owner {
                found = true;
                proof {
                    assert(spec_selection_names(sels[j as int], repo@));
                }
            }
        }
        j = j + 1;
    }
    found
}

/// Narrow discovered repositories to those the user selected.  The flawless
/// counterpart of discovery-time filtering: every selected repository is
/// kept, in order, and nothing else.
pub fn filter_repos_by_selection(
    repos: Vec<Repository>,
    selection: &Vec<UserSelectedRepo>,
) -> (r: Vec<Repository>)
    ensures
        r@.map_values(|x: Repository| x@) == spec_filter_by_selection(
            repos@.map_values(|x: Repository| x@),
            selection@.map_values(|s: UserSelectedRepo| s@),
        ),
{
    let ghost all = repos@.map_values(|x: Repository| x@);
    let ghost sels = selection@.map_values(|s: UserSelectedRepo| s@);
    let mut kept: Vec<Repository> = Vec::new();
    let mut i: usize = 0;
    proof {
        assert(all.take(0int) =~= Seq::<RepositoryModel>::empty());
        assert(spec_filter_by_selection(all.take(0int), sels) =~= Seq::<RepositoryModel>::empty());
    }
    while i < repos.len()
        invariant
            i <= repos.len(),
            all == repos@.map_values(|x: Repository| x@),
            sels == selection@.map_values(|s: UserSelectedRepo| s@),
            kept@.map_values(|x: Repository| x@) == spec_filter_by_selection(
                all.take(i as int),
                sels,
            ),
        decreases repos.len() - i,
    {
        let repo = &repos[i];
        let is_selected = repo_matches_selection(repo, selection);
        if is_selected {
            kept.push(repo.clone());
        }
        proof {
            reveal(Seq::filter);
            assert(all.take(i + 1int).drop_last() =~= all.take(i as int));
            assert(all.take(i + 1int).last() == all[i as int]);
            assert(all[i as int] == repos@[i as int]@);
            assert(is_selected == spec_selected(all[i as int], sels));
            assert(kept@.map_values(|x: Repository| x@) =~= spec_filter_by_selection(
                all.take(i + 1int),
                sels,
            ));
        }
        i = i + 1;
    }
    proof {
        assert(all.take(repos@.len() as int) =~= all);
    }
    kept
}

/// Fail-closed filtering law: an empty selection names nothing, so
/// discovery narrowed by it yields no repository — never the full provider
/// listing.
pub proof fn lemma_fail_closed_empty_selection(repos: Seq<RepositoryModel>)
    ensures
        spec_filter_by_selection(repos, Seq::<UserSelectedRepoModel>::empty())
            == Seq::<RepositoryModel>::empty(),
    decreases repos.len(),
{
    reveal(Seq::filter);
    if repos.len() > 0 {
        lemma_fail_closed_empty_selection(repos.drop_last());
        assert(!spec_selected(repos.last(), Seq::<UserSelectedRepoModel>::empty()));
    }
    assert(spec_filter_by_selection(repos, Seq::<UserSelectedRepoModel>::empty())
        =~= Seq::<RepositoryModel>::empty());
}

/// The repositories of `repos` whose owner is `owner`, in order.
pub open spec fn filter_by_owner(repos: Seq<RepositoryModel>, owner: Seq<char>) -> Seq<
    RepositoryModel,
> {
    repos.filter(|r: RepositoryModel| r.owner == owner)
}

/// Narrow a user-supplied repository selection to one workspace.
///
/// Fail-closed: an absent or empty selection yields `None`, never the full
/// provider listing.  Otherwise the result keeps exactly the selected
/// repositories owned by `workspace_slug`, in their given order.
pub fn filter_user_selected_repos(
    workspace_slug: String,
    user_selected_repos_opt: Option<Vec<Repository>>,
) -> (r: Option<Vec<Repository>>)
    ensures
        r is Some <==> (user_selected_repos_opt is Some
            && user_selected_repos_opt->Some_0@.len() > 0),
        r is Some ==> r->Some_0@.map_values(|x: Repository| x@) == filter_by_owner(
            user_selected_repos_opt->Some_0@.map_values(|x: Repository| x@),
            workspace_slug@,
        ),
{
    if user_selected_repos_opt.is_none() {
        return None;
    }
    let user_repos = user_selected_repos_opt.unwrap();
    if user_repos.len() == 0 {
        return None;
    }
    let mut filtered: Vec<Repository> = Vec::new();
    let ghost all = user_repos@.map_values(|x: Repository| x@);
    let mut i: usize = 0;
    proof {
        assert(all.take(0int) =~= Seq::<RepositoryModel>::empty());
        assert(filter_by_owner(all.take(0int), workspace_slug@) =~= Seq::<
            RepositoryModel,
        >::empty());
    }
    while i < user_repos.len()
        invariant
            i <= user_repos.len(),
            all == user_repos@.map_values(|x: Repository| x@),
            filtered@.map_values(|x: Repository| x@) == filter_by_owner(
                all.take(i as int),
                workspace_slug@,
            ),
        decreases user_repos.len() - i,
    {
        let repo = &user_repos[i];
        let is_selected = *repo.owner() == workspace_slug;
        if is_selected {
            filtered.push(repo.clone());
        }
        proof {
            reveal(Seq::filter);
            assert(all.take(i + 1int).drop_last() =~= all.take(i as int));
            assert(all.take(i + 1int).last() == all[i as int]);
            assert(all[i as int] == user_repos@[i as int]@);
            assert(is_selected == (all[i as int].owner == workspace_slug@));
            assert(filtered@.map_values(|x: Repository| x@) =~= filter_by_owner(
                all.take(i + 1int),
                workspace_slug@,
            ));
        }
        i = i + 1;
    }
    proof {
        assert(all.take(user_repos@.len() as int) =~= all);
    }
    Some(filtered)
}

/// Build a repository from the fields a GitHub repository object carries.
/// A repository whose privacy field was missing counts as private; the
/// owner's login is both the owner and the workspace.
pub fn github_repo_from_fields(
    name: String,
    id: String,
    owner_login: String,
    is_private: Option<bool>,
    ssh_url: String,
) -> (r: Repository)
    ensures
        r@ == (RepositoryModel {
            name: name@,
            uuid: id@,
            owner: owner_login@,
            is_private: match is_private {
                Option::Some(b) => b,
                Option::None => true,
            },
            clone_ssh_url: ssh_url@,
            project_name: Option::None,
            project_type: Option::None,
            workspace: owner_login@,
            local_dir: Option::None,
            provider: "github"@,
        }),
{
    let private_flag = match is_private {
        Some(b) => b,
        None => true,
    };
    let workspace = clone_string(&owner_login);
    Repository::new(
        name,
        id,
        owner_login,
        private_flag,
        ssh_url,
        None,
        None,
        workspace,
        None,
        String::from_str("github"),
    )
}

/// Clone a user's repository selection, so that each workspace of one pass
/// can be planned against the same selection.
pub fn clone_repository_selection(selection: &Option<Vec<Repository>>) -> (r: Option<
    Vec<Repository>,
>)
    ensures
        (match r {
            Option::None => Option::<Seq<RepositoryModel>>::None,
            Option::Some(sel) => Option::Some(sel@.map_values(|x: Repository| x@)),
        }) == (match *selection {
            Option::None => Option::<Seq<RepositoryModel>>::None,
            Option::Some(ref sel) => Option::Some(sel@.map_values(|x: Repository| x@)),
        }),
{
    match selection {
        None => None,
        Some(repos) => {
            let mut out: Vec<Repository> = Vec::new();
            let mut i: usize = 0;
            while i < repos.len()
                invariant
                    i <= repos.len(),
                    out@.len() == i,
                    forall|j: int| 0 <= j < i ==> #[trigger] (out@[j]@) == repos@[j]@,
                decreases repos.len() - i,
            {
                out.push(repos[i].clone());
                i = i + 1;
            }
            proof {
                assert(out@.map_values(|x: Repository| x@) =~= repos@.map_values(
                    |x: Repository| x@,
                ));
            }
            Some(out)
        },
    }
}

} // verus!
