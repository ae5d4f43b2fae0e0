//! What every scheduler offers, whatever the architecture.
use vstd::prelude::*;
use crate::errors::ErrCode;

verus! {

/// A scheduler takes the tasks it is given and runs them.
pub trait Scheduler {
    type Task;

    /// Takes `task` to run it.
    fn add_task(&mut self, task: Self::Task) -> Result<(), ErrCode>;
}

/// A scheduler that takes no task.
pub struct NullScheduler {}

impl Scheduler for NullScheduler {
    type Task = ();

    fn add_task(&mut self, _task: ()) -> (r: Result<(), ErrCode>)
        ensures
            r == Err::<(), ErrCode>(ErrCode::Unimplemented),
    {
        Err(ErrCode::Unimplemented)
    }
}

} // verus!
