//! The fail-together supervision rule: the process runs its long-lived
//! tasks side by side, waits for all of them, and exits by the first
//! task that did not complete cleanly.

use vstd::prelude::*;

verus! {

/// How one long-lived task ended.
#[derive(Clone, Copy, Debug, PartialEq, Eq, Structural)]
pub enum TaskOutcome {
    /// The task ended without an error.
    Completed,
    /// The task ended with an error.
    Failed,
}

/// Picks the outcome the process exits by: the first failed task, in
/// the fixed supervision order the outcomes are listed in; a process
/// whose tasks all completed cleanly exits cleanly.
pub fn first_failure(outcomes: &Vec<TaskOutcome>) -> (r: Option<usize>)
    ensures
        r is None <==> (forall|i: int| 0 <= i < outcomes@.len() ==> outcomes@[i] is Completed),
        r matches Some(k) ==> k < outcomes@.len() && outcomes@[k as int] is Failed && (forall|j: int|
            0 <= j < k ==> outcomes@[j] is Completed),
{
    let n = outcomes.len();
    let mut i: usize = 0;
    while i < n
        invariant
            0 <= i <= n,
            n == outcomes@.len(),
            forall|j: int| 0 <= j < i ==> outcomes@[j] is Completed,
        decreases n - i,
    {
        match outcomes[i] {
            TaskOutcome::Failed => {
                return Some(i);
            },
            TaskOutcome::Completed => {
                i = i + 1;
            },
        }
    }
    None
}

} // verus!
