use vstd::prelude::*;

verus! {

/// Wakes the presentation layer when background work has something new.
/// Any number of implementations fit: one that does nothing, one that asks
/// a window to redraw.
pub trait Repaint {
    fn repaint(&self);
}

impl Repaint for () {
    fn repaint(&self) {
    }
}

/// One of two values.
pub enum Either<L, R> {
    Left(L),
    Right(R),
}

} // verus!
