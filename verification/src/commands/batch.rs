//! Commands that work on several modules, one after the other.

use vstd::prelude::*;

verus! {

/// What to do with the remaining modules once one has failed.
#[derive(Clone, Copy, Debug, PartialEq, Eq, Structural)]
pub enum OnFailure {
    /// Leave them alone.
    Stop,
    /// Go on with them.
    Continue,
}

/// Whether to go on to the next module after one that ended as `succeeded`
/// says.
pub fn goes_on(policy: OnFailure, succeeded: bool) -> (on: bool)
    ensures
        on == (succeeded || policy == OnFailure::Continue),
{
    match policy {
        OnFailure::Continue => true,
        OnFailure::Stop => succeeded,
    }
}

/// The position of the first of the first `n` modules that failed, or -1.
pub open spec fn first_failed(succeeded: Seq<bool>, n: nat) -> int
    decreases n,
{
    if n == 0 {
        -1
    } else {
        let before = first_failed(succeeded, (n - 1) as nat);
        if before >= 0 {
            before
        } else if !succeeded[n - 1] {
            n - 1
        } else {
            -1
        }
    }
}

proof fn lemma_first_failed_found(succeeded: Seq<bool>, at: nat, n: nat)
    requires
        at < n <= succeeded.len(),
        first_failed(succeeded, at) == -1,
        !succeeded[at as int],
    ensures
        first_failed(succeeded, n) == at,
    decreases n,
{
    if n > at + 1 {
        lemma_first_failed_found(succeeded, at, (n - 1) as nat);
    }
}

/// The module whose failure decides how the command ends: the first that
/// failed, if any did. `succeeded` says of each module that was worked on,
/// in order, whether it succeeded.
pub fn deciding_failure(succeeded: &Vec<bool>) -> (failed: Option<usize>)
    ensures
        match failed {
            Some(at) => at == first_failed(succeeded@, succeeded.len() as nat),
            None => first_failed(succeeded@, succeeded.len() as nat) == -1,
        },
{
    let mut i: usize = 0;
    while i < succeeded.len()
        invariant
            i <= succeeded.len(),
            first_failed(succeeded@, i as nat) == -1,
        decreases succeeded.len() - i,
    {
        if !succeeded[i] {
            proof {
                lemma_first_failed_found(succeeded@, i as nat, succeeded.len() as nat);
            }
            return Some(i);
        }
        i += 1;
    }
    None
}

} // verus!
