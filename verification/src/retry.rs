//! Asking again.

use vstd::prelude::*;

verus! {

/// How often something may still be tried.
#[derive(Debug)]
pub struct Retry {
    pub left: u32,
}

/// Whether to try once more, where something may still be tried `left` times and `done` says whether
/// what was wanted is there.
pub open spec fn goes_on(left: nat, done: bool) -> bool {
    !done && left > 0
}

impl Retry {
    /// Something may be tried `limit` times.
    pub fn new(limit: u32) -> (retry: Retry)
        ensures
            retry.left == limit,
    {
        Retry { left: limit }
    }

    /// Whether to try once more; `done` says whether what was wanted is there.
    pub fn again(&mut self, done: bool) -> (yes: bool)
        ensures
            yes == goes_on(old(self).left as nat, done),
            final(self).left == if yes {
                old(self).left - 1
            } else {
                old(self).left as int
            },
    {
        if done || self.left == 0 {
            return false;
        }
        self.left = self.left - 1;
        true
    }
}

/// How often something is tried, where `outcomes` says of each try in turn whether it succeeds.
pub open spec fn tries(left: nat, done: bool, outcomes: Seq<bool>) -> nat
    decreases outcomes.len(),
{
    if !goes_on(left, done) || outcomes.len() == 0 {
        0
    } else {
        1 + tries((left - 1) as nat, outcomes.first(), outcomes.drop_first())
    }
}

/// Nothing is tried more often than allowed. What has failed is tried again as long as it may be,
/// and what has succeeded is not.
pub proof fn law_tries_are_bounded(limit: nat, outcomes: Seq<bool>)
    ensures
        ({
            let n = tries(limit, false, outcomes);
            &&& n <= limit
            &&& n <= outcomes.len()
            &&& forall|i: int| 0 <= i < n - 1 ==> !#[trigger] outcomes[i]
            &&& n == limit || n == outcomes.len() || outcomes[n - 1]
        }),
    decreases outcomes.len(),
{
    if limit > 0 && outcomes.len() > 0 {
        let n = tries(limit, false, outcomes);
        let rest = outcomes.drop_first();
        if outcomes.first() {
            assert(tries((limit - 1) as nat, true, rest) == 0);
        } else {
            law_tries_are_bounded((limit - 1) as nat, rest);
            assert forall|i: int| 0 <= i < n - 1 implies !#[trigger] outcomes[i] by {
                if i > 0 {
                    assert(outcomes[i] == rest[i - 1]);
                }
            }
        }
    }
}

/// What is not done is tried again exactly as long as a try is left.
pub proof fn law_tries_are_used_up(left: nat, done: bool)
    ensures
        goes_on(left, true) == false,
        goes_on(0, done) == false,
        left > 0 ==> goes_on(left, false),
{
}

} // verus!
