//! What a worker is configured with before it starts.

use vstd::prelude::*;

verus! {

/// The number of jobs a worker runs at a time for one task: what was asked
/// for, but at least one, and one where nothing was asked for.
pub open spec fn threads_for(requested: Option<usize>) -> usize {
    match requested {
        Some(n) => if n >= 1 {
            n
        } else {
            1
        },
        None => 1,
    }
}

/// The number of jobs a worker runs at a time for one task.
pub fn per_task_threads(requested: Option<usize>) -> (threads: usize)
    ensures
        threads == threads_for(requested),
        threads >= 1,
{
    match requested {
        Some(n) => if n >= 1 {
            n
        } else {
            1
        },
        None => 1,
    }
}

} // verus!
