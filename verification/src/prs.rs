//! Pull-request snapshots and the provider-specific normalization of their
//! state into the canonical four-way enumeration that downstream logic
//! branches on.

use vstd::prelude::*;
use crate::codec::spec_dec_digits;
use crate::codec::u64_to_dec_string;
use crate::repo::clone_string;

verus! {

/// The canonical pull-request state, regardless of provider vocabulary.
#[derive(Clone, Copy, PartialEq, Eq, Structural, Debug)]
pub enum PrState {
    Open,
    Merged,
    Declined,
    Other,
}

/// Mathematical model of a [`PrInfo`].
#[verifier::ext_equal]
pub ghost struct PrInfoModel {
    pub base_head_commit: Seq<char>,
    pub pr_head_commit: Seq<char>,
    pub state: PrState,
    pub pr_branch: Seq<char>,
}

/// What one sync pass captures of a pull request: the base and head commit
/// SHAs, the canonical state, and the head branch name.
pub struct PrInfo {
    base_head_commit: String,
    pr_head_commit: String,
    state: PrState,
    pr_branch: String,
}

impl View for PrInfo {
    type V = PrInfoModel;

    closed spec fn view(&self) -> PrInfoModel {
        PrInfoModel {
            base_head_commit: self.base_head_commit@,
            pr_head_commit: self.pr_head_commit@,
            state: self.state,
            pr_branch: self.pr_branch@,
        }
    }
}

impl PrInfo {
    pub fn new(
        base_head_commit: String,
        pr_head_commit: String,
        state: PrState,
        pr_branch: String,
    ) -> (r: Self)
        ensures
            r@ == (PrInfoModel {
                base_head_commit: base_head_commit@,
                pr_head_commit: pr_head_commit@,
                state,
                pr_branch: pr_branch@,
            }),
    {
        Self { base_head_commit, pr_head_commit, state, pr_branch }
    }

    pub fn base_head_commit(&self) -> (r: &String)
        ensures
            r@ == self@.base_head_commit,
    {
        &self.base_head_commit
    }

    pub fn pr_head_commit(&self) -> (r: &String)
        ensures
            r@ == self@.pr_head_commit,
    {
        &self.pr_head_commit
    }

    pub fn state(&self) -> (r: PrState)
        ensures
            r == self@.state,
    {
        self.state
    }

    pub fn pr_branch(&self) -> (r: &String)
        ensures
            r@ == self@.pr_branch,
    {
        &self.pr_branch
    }
}

impl Clone for PrInfo {
    fn clone(&self) -> (r: Self)
        ensures
            r@ == self@,
    {
        PrInfo {
            base_head_commit: clone_string(&self.base_head_commit),
            pr_head_commit: clone_string(&self.pr_head_commit),
            state: self.state,
            pr_branch: clone_string(&self.pr_branch),
        }
    }
}

/// How Bitbucket's raw state text maps into the canonical enumeration.
pub open spec fn spec_normalize_bitbucket_state(s: Seq<char>) -> PrState {
    if s == "OPEN"@ {
        PrState::Open
    } else if s == "MERGED"@ {
        PrState::Merged
    } else if s == "DECLINED"@ {
        PrState::Declined
    } else {
        PrState::Other
    }
}

/// Normalize Bitbucket's raw pull-request state.
pub fn normalize_bitbucket_state(s: &String) -> (r: PrState)
    ensures
        r == spec_normalize_bitbucket_state(s@),
{
    if *s == String::from_str("OPEN") {
        PrState::Open
    } else if *s == String::from_str("MERGED") {
        PrState::Merged
    } else if *s == String::from_str("DECLINED") {
        PrState::Declined
    } else {
        PrState::Other
    }
}

/// How GitHub's state field and merged indicator map into the canonical
/// enumeration: an open pull request is `Open`; a closed one is `Merged`
/// when it was merged and `Declined` when it was not; anything else is
/// `Other`.
pub open spec fn spec_normalize_github_state(s: Seq<char>, merged: bool) -> PrState {
    if s == "open"@ {
        PrState::Open
    } else if s == "closed"@ && merged {
        PrState::Merged
    } else if s == "closed"@ {
        PrState::Declined
    } else {
        PrState::Other
    }
}

/// Normalize GitHub's pull-request state field plus merged indicator.
pub fn normalize_github_state(s: &String, merged: bool) -> (r: PrState)
    ensures
        r == spec_normalize_github_state(s@, merged),
{
    if *s == String::from_str("open") {
        PrState::Open
    } else if *s == String::from_str("closed") && merged {
        PrState::Merged
    } else if *s == String::from_str("closed") {
        PrState::Declined
    } else {
        PrState::Other
    }
}

/// The canonical text of a state, as it is persisted.
pub open spec fn spec_pr_state_code(st: PrState) -> Seq<char> {
    match st {
        PrState::Open => "OPEN"@,
        PrState::Merged => "MERGED"@,
        PrState::Declined => "DECLINED"@,
        PrState::Other => "OTHER"@,
    }
}

/// The canonical text of a state.
pub fn pr_state_code(st: PrState) -> (r: String)
    ensures
        r@ == spec_pr_state_code(st),
{
    match st {
        PrState::Open => String::from_str("OPEN"),
        PrState::Merged => String::from_str("MERGED"),
        PrState::Declined => String::from_str("DECLINED"),
        PrState::Other => String::from_str("OTHER"),
    }
}

/// The state a canonical text denotes, if any.
pub open spec fn spec_pr_state_of_code(s: Seq<char>) -> Option<PrState> {
    if s == "OPEN"@ {
        Option::Some(PrState::Open)
    } else if s == "MERGED"@ {
        Option::Some(PrState::Merged)
    } else if s == "DECLINED"@ {
        Option::Some(PrState::Declined)
    } else if s == "OTHER"@ {
        Option::Some(PrState::Other)
    } else {
        Option::None
    }
}

/// The state a canonical text denotes.
pub fn pr_state_of_code(s: &String) -> (r: Option<PrState>)
    ensures
        r == spec_pr_state_of_code(s@),
{
    if *s == String::from_str("OPEN") {
        Some(PrState::Open)
    } else if *s == String::from_str("MERGED") {
        Some(PrState::Merged)
    } else if *s == String::from_str("DECLINED") {
        Some(PrState::Declined)
    } else if *s == String::from_str("OTHER") {
        Some(PrState::Other)
    } else {
        None
    }
}

/// A state's canonical text decodes back to that state.
pub proof fn lemma_pr_state_code_round_trip(st: PrState)
    ensures
        spec_pr_state_of_code(spec_pr_state_code(st)) == Option::Some(st),
{
    reveal_strlit("OPEN");
    reveal_strlit("MERGED");
    reveal_strlit("DECLINED");
    reveal_strlit("OTHER");
    // the four codes differ pairwise: their lengths already do
    assert("OPEN"@.len() == 4);
    assert("MERGED"@.len() == 6);
    assert("DECLINED"@.len() == 8);
    assert("OTHER"@.len() == 5);
}

/// Keep the identifiers of the pull requests a provider listing reported,
/// in order, dropping entries whose identifier was missing; identifiers are
/// truncated to 32 bits as they are throughout this system.
pub open spec fn spec_collect_pr_ids(s: Seq<Option<u64>>) -> Seq<u32>
    decreases s.len(),
{
    if s.len() == 0 {
        Seq::empty()
    } else {
        let rest = spec_collect_pr_ids(s.drop_last());
        match s.last() {
            Option::Some(id) => rest.push((id % 0x1_0000_0000) as u32),
            Option::None => rest,
        }
    }
}

/// Collect the pull-request identifiers present in a provider listing.
pub fn collect_pr_ids(ids: Vec<Option<u64>>) -> (r: Vec<u32>)
    ensures
        r@ == spec_collect_pr_ids(ids@),
{
    let mut out: Vec<u32> = Vec::new();
    let mut i: usize = 0;
    while i < ids.len()
        invariant
            i <= ids.len(),
            out@ == spec_collect_pr_ids(ids@.take(i as int)),
        decreases ids.len() - i,
    {
        proof {
            assert(ids@.take(i + 1int).drop_last() =~= ids@.take(i as int));
            assert(ids@.take(i + 1int).last() == ids@[i as int]);
        }
        match ids[i] {
            Some(id) => {
                out.push((id % 0x1_0000_0000) as u32);
            },
            None => {},
        }
        i = i + 1;
    }
    proof {
        assert(ids@.take(ids@.len() as int) =~= ids@);
    }
    out
}

/// The decimal texts of the pull-request numbers a GitHub listing
/// reported, in order.
pub fn pr_numbers_to_strings(numbers: &Vec<u64>) -> (r: Vec<String>)
    ensures
        r@.map_values(|s: String| s@) == numbers@.map_values(|n: u64| spec_dec_digits(n as nat)),
{
    let mut out: Vec<String> = Vec::new();
    let mut i: usize = 0;
    while i < numbers.len()
        invariant
            i <= numbers.len(),
            out@.len() == i,
            forall|j: int|
                0 <= j < i ==> #[trigger] (out@[j]@) == spec_dec_digits(numbers@[j] as nat),
        decreases numbers.len() - i,
    {
        out.push(u64_to_dec_string(numbers[i]));
        i = i + 1;
    }
    proof {
        assert(out@.map_values(|s: String| s@) =~= numbers@.map_values(
            |n: u64| spec_dec_digits(n as nat),
        ));
    }
    out
}

} // verus!
