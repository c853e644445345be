//! Alias handles delivered by the control plane, narrowed to the handles
//! of one provider.

use vstd::prelude::*;
use crate::provider::Provider;
use crate::repo::clone_string;

verus! {

/// Mathematical model of an [`AliasHandles`].
#[verifier::ext_equal]
pub ghost struct AliasHandlesModel {
    pub git_alias: Seq<char>,
    pub github: Option<Seq<Seq<char>>>,
    pub bitbucket: Option<Seq<Seq<char>>>,
}

/// One alias entry as the control plane reports it: a git alias and,
/// per provider, the handles known for it there.
pub struct AliasHandles {
    pub git_alias: String,
    pub github: Option<Vec<String>>,
    pub bitbucket: Option<Vec<String>>,
}

pub open spec fn spec_opt_handles_view(o: Option<Vec<String>>) -> Option<Seq<Seq<char>>> {
    match o {
        Option::None => Option::None,
        Option::Some(v) => Option::Some(v@.map_values(|s: String| s@)),
    }
}

impl View for AliasHandles {
    type V = AliasHandlesModel;

    open spec fn view(&self) -> AliasHandlesModel {
        AliasHandlesModel {
            git_alias: self.git_alias@,
            github: spec_opt_handles_view(self.github),
            bitbucket: spec_opt_handles_view(self.bitbucket),
        }
    }
}

/// The handles an entry offers for a provider.
pub open spec fn spec_handles_for(h: AliasHandlesModel, p: Provider) -> Option<Seq<Seq<char>>> {
    match p {
        Provider::Github => h.github,
        Provider::Bitbucket => h.bitbucket,
    }
}

/// Each alias paired with the handles it offers for the provider, in
/// order; entries offering none are dropped.
pub open spec fn spec_collect_handles(hs: Seq<AliasHandlesModel>, p: Provider) -> Seq<
    (Seq<char>, Seq<Seq<char>>),
>
    decreases hs.len(),
{
    if hs.len() == 0 {
        Seq::empty()
    } else {
        let rest = spec_collect_handles(hs.drop_last(), p);
        match spec_handles_for(hs.last(), p) {
            Option::Some(handles) => rest.push((hs.last().git_alias, handles)),
            Option::None => rest,
        }
    }
}

fn clone_string_vec(v: &Vec<String>) -> (r: Vec<String>)
    ensures
        r@.map_values(|s: String| s@) == v@.map_values(|s: String| s@),
{
    let mut out: Vec<String> = Vec::new();
    let mut i: usize = 0;
    while i < v.len()
        invariant
            i <= v.len(),
            out@.len() == i,
            forall|j: int| 0 <= j < i ==> #[trigger] (out@[j]@) == v@[j]@,
        decreases v.len() - i,
    {
        out.push(clone_string(&v[i]));
        i = i + 1;
    }
    proof {
        assert(out@.map_values(|s: String| s@) =~= v@.map_values(|s: String| s@));
    }
    out
}

/// Collect each alias with the handles it offers for `provider`, in the
/// order the control plane reported them.
pub fn collect_provider_handles(handles: &Vec<AliasHandles>, provider: Provider) -> (r: Vec<
    (String, Vec<String>),
>)
    ensures
        r@.map_values(
            |p: (String, Vec<String>)| (p.0@, p.1@.map_values(|s: String| s@)),
        ) == spec_collect_handles(handles@.map_values(|h: AliasHandles| h@), provider),
{
    let ghost hs = handles@.map_values(|h: AliasHandles| h@);
    let mut out: Vec<(String, Vec<String>)> = Vec::new();
    let mut i: usize = 0;
    proof {
        assert(hs.take(0int) =~= Seq::<AliasHandlesModel>::empty());
        assert(out@.map_values(|p: (String, Vec<String>)| (p.0@, p.1@.map_values(|s: String| s@)))
            =~= spec_collect_handles(hs.take(0int), provider));
    }
    while i < handles.len()
        invariant
            i <= handles.len(),
            hs == handles@.map_values(|h: AliasHandles| h@),
            out@.map_values(|p: (String, Vec<String>)| (p.0@, p.1@.map_values(|s: String| s@)))
                == spec_collect_handles(hs.take(i as int), provider),
        decreases handles.len() - i,
    {
        let entry = &handles[i];
        let provider_handles = match provider {
            Provider::Github => &entry.github,
            Provider::Bitbucket => &entry.bitbucket,
        };
        match provider_handles {
            Some(list) => {
                out.push((clone_string(&entry.git_alias), clone_string_vec(list)));
            },
            None => {},
        }
        proof {
            assert(hs.take(i + 1int).drop_last() =~= hs.take(i as int));
            assert(hs.take(i + 1int).last() == hs[i as int]);
            assert(hs[i as int] == handles@[i as int]@);
            assert(out@.map_values(
                |p: (String, Vec<String>)| (p.0@, p.1@.map_values(|s: String| s@)),
            ) =~= spec_collect_handles(hs.take(i + 1int), provider));
        }
        i = i + 1;
    }
    proof {
        assert(hs.take(handles@.len() as int) =~= hs);
    }
    out
}

/// Collect a provider's alias handles, yielding nothing when no entry
/// offers any — the caller treats that as "no aliases known".
pub fn handles_map_for_provider(handles: &Vec<AliasHandles>, provider: Provider) -> (r: Option<
    Vec<(String, Vec<String>)>,
>)
    ensures
        match r {
            Some(pairs) => pairs@.len() > 0 && pairs@.map_values(
                |p: (String, Vec<String>)| (p.0@, p.1@.map_values(|s: String| s@)),
            ) == spec_collect_handles(handles@.map_values(|h: AliasHandles| h@), provider),
            None => spec_collect_handles(
                handles@.map_values(|h: AliasHandles| h@),
                provider,
            ).len() == 0,
        },
{
    let pairs = collect_provider_handles(handles, provider);
    if pairs.len() == 0 {
        None
    } else {
        Some(pairs)
    }
}

} // verus!
