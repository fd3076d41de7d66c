//! Walker types and traits.

use vstd::prelude::*;

use std::ops::ControlFlow;

use crate::sys::{WALK_DONE, WALK_ERR, WALK_NEXT};
use crate::Addr;

verus! {

/// A trait for an MDB walker.
pub trait Walker {}

/// Trait implementing a single step in an MDB walker.
///
/// This is the main trait a walker needs to implement. The other, `Walker`,
/// marks the type as a walker.
pub trait WalkStep {
    /// Take a walk step.
    fn step(&mut self) -> StepResult;
}

/// The output of a successful walk step.
///
/// If the step succeeded and has more work to do, then `Continue(Addr)` is
/// returned. If the step succeeded and the walk is complete, then
/// `Break(())` is returned.
pub type StepOutput = ControlFlow<(), Addr>;

/// The result of a walk step, with `Err(())` indicating the step failed.
pub type StepResult = Result<StepOutput, ()>;

/// What a walk step reports to MDB: `WALK_NEXT` with the address to visit
/// when the walk goes on, `WALK_DONE` when it is complete, `WALK_ERR` when
/// the step failed.
pub fn step_status(r: StepResult) -> (s: (i32, Option<Addr>))
    ensures
        match r {
            Ok(ControlFlow::Continue(a)) => s.0 == WALK_NEXT && s.1 == Some(a),
            Ok(ControlFlow::Break(())) => s.0 == WALK_DONE && s.1 is None,
            Err(()) => s.0 == WALK_ERR && s.1 is None,
        },
{
    match r {
        Ok(ControlFlow::Continue(a)) => (WALK_NEXT, Some(a)),
        Ok(ControlFlow::Break(())) => (WALK_DONE, None),
        Err(()) => (WALK_ERR, None),
    }
}

} // verus!
