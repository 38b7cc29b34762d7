//! One paint, and what is done where the render target is lost in the middle of
//! it.
use vstd::prelude::*;

verus! {

/// What is done about a paint.
#[derive(Debug, Clone, Copy, PartialEq, Eq, Structural)]
pub enum PaintStep {
    Draw,
    /// The render target was lost: make a new one.
    Recreate,
    /// Draw once more on the new target.
    DrawAgain,
    Done,
}

/// How a step of a paint went.
#[derive(Debug, Clone, Copy, PartialEq, Eq, Structural)]
pub enum PaintResult {
    Good,
    /// The render target is lost.
    Lost,
    Failed,
}

/// The step after `step`: a lost target is made anew and drawn on once more,
/// and nothing is tried a third time.
pub fn do_paint(step: PaintStep, result: PaintResult) -> (r: PaintStep)
    ensures
        r == match (step, result) {
            (PaintStep::Draw, PaintResult::Lost) => PaintStep::Recreate,
            (PaintStep::Recreate, PaintResult::Good) => PaintStep::DrawAgain,
            _ => PaintStep::Done,
        },
{
    match (step, result) {
        (PaintStep::Draw, PaintResult::Lost) => PaintStep::Recreate,
        (PaintStep::Recreate, PaintResult::Good) => PaintStep::DrawAgain,
        _ => PaintStep::Done,
    }
}

} // verus!
