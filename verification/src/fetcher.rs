//! The bound on the redirects that a fetch follows.

use vstd::prelude::*;

verus! {

/// How many redirects a fetch follows at most.
pub const MAX_REDIRECTS: usize = 5;

/// What to do with a redirect.
#[derive(Clone, Copy, PartialEq, Eq, Structural, Debug)]
pub enum RedirectDecision {
    /// Ask the next URL.
    Follow,
    /// Give the fetch up: it fails.
    TooManyRedirects,
}

/// Whether a fetch that has been redirected `hops` times, this redirect
/// included, goes on.
pub open spec fn follows(hops: nat) -> bool {
    hops <= MAX_REDIRECTS
}

/// Decides on a redirect. `requested` counts the URLs that the fetch has
/// asked so far: the first one and one for each redirect that was followed,
/// so it is the number of the redirect that is decided on.
pub fn redirect_decision(requested: usize) -> (decision: RedirectDecision)
    ensures
        decision == (if follows(requested as nat) {
            RedirectDecision::Follow
        } else {
            RedirectDecision::TooManyRedirects
        }),
{
    if requested > MAX_REDIRECTS {
        RedirectDecision::TooManyRedirects
    } else {
        RedirectDecision::Follow
    }
}

/// A fetch that meets `redirects` redirects in a row before the answer
/// comes gets to the answer: every one of them is followed.
pub open spec fn reaches_the_answer(redirects: nat) -> bool {
    forall|hop: nat| 1 <= hop <= redirects ==> #[trigger] follows(hop)
}

/// A fetch fails on more than five redirects in a row, and on no fewer.
pub proof fn lemma_fetch_fails_beyond_the_limit(redirects: nat)
    ensures
        reaches_the_answer(redirects) <==> redirects <= 5,
{
    if redirects > 5 {
        assert(!follows(redirects));
    }
}

} // verus!
