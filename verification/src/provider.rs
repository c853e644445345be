//! The two code-hosting providers and the dispatch on a review's provider
//! text, which decides where an access token must come from.

use vstd::prelude::*;

verus! {

/// A code-hosting provider this system can onboard.
#[derive(Clone, Copy, PartialEq, Eq, Structural, Debug)]
pub enum Provider {
    Github,
    Bitbucket,
}

/// The canonical lower-case name of a provider.
pub open spec fn spec_provider_name(p: Provider) -> Seq<char> {
    match p {
        Provider::Github => "github"@,
        Provider::Bitbucket => "bitbucket"@,
    }
}

/// The canonical lower-case name of a provider.
pub fn provider_name(p: Provider) -> (r: String)
    ensures
        r@ == spec_provider_name(p),
{
    match p {
        Provider::Github => String::from_str("github"),
        Provider::Bitbucket => String::from_str("bitbucket"),
    }
}

/// The provider a piece of text names, if it names one.  An access token
/// can only be obtained for a known provider; anything else is rejected.
pub open spec fn spec_parse_provider(s: Seq<char>) -> Option<Provider> {
    if s == "github"@ {
        Option::Some(Provider::Github)
    } else if s == "bitbucket"@ {
        Option::Some(Provider::Bitbucket)
    } else {
        Option::None
    }
}

/// Decide which provider's token path serves a review: its provider text
/// must name a known provider, else no token can be obtained.
pub fn parse_provider(s: &String) -> (r: Option<Provider>)
    ensures
        r == spec_parse_provider(s@),
{
    if *s == String::from_str("github") {
        Some(Provider::Github)
    } else if *s == String::from_str("bitbucket") {
        Some(Provider::Bitbucket)
    } else {
        None
    }
}

/// A provider's name parses back to that provider.
pub proof fn lemma_provider_name_round_trip(p: Provider)
    ensures
        spec_parse_provider(spec_provider_name(p)) == Option::Some(p),
{
    reveal_strlit("github");
    reveal_strlit("bitbucket");
    assert("github"@.len() == 6);
    assert("bitbucket"@.len() == 9);
}

} // verus!
