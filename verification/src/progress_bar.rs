//! The arithmetic of a progress bar: how many marks of a bar of fixed width
//! a step of progress adds. Drawing them is left to the caller.

use vstd::prelude::*;

verus! {

/// The number of marks in a full bar.
pub const BAR_WIDTH: usize = 50;

/// A bar over `size` bytes of work that remembers how far the work has come.
#[derive(Debug)]
pub struct ProgressBar {
    size: usize,
    progress: usize,
}

/// The number of marks that stand for `progress` out of `size` bytes.
pub open spec fn marks_for(progress: nat, size: nat) -> int {
    (progress * BAR_WIDTH) as int / size as int
}

impl ProgressBar {
    #[verifier::type_invariant]
    spec fn fits(self) -> bool {
        self.progress * BAR_WIDTH <= usize::MAX
    }

    /// The number of bytes the bar stands for.
    pub closed spec fn total(self) -> nat {
        self.size as nat
    }

    /// The number of bytes reported as done.
    pub closed spec fn done(self) -> nat {
        self.progress as nat
    }

    /// A bar over `size` bytes with nothing done yet.
    pub fn new(size: usize) -> (bar: Self)
        ensures
            bar.total() == size,
            bar.done() == 0,
    {
        ProgressBar { size, progress: 0 }
    }

    /// The number of bytes the bar stands for.
    pub fn size(&self) -> (size: usize)
        ensures
            size == self.total(),
    {
        self.size
    }

    /// Records that `progress` bytes are done and returns the number of marks
    /// to add to the bar: the marks that stand for the new progress less
    /// those that stood for the old one, and none where the bar would shrink.
    pub fn progress(&mut self, progress: usize) -> (marks: usize)
        requires
            old(self).total() > 0,
            progress * BAR_WIDTH <= usize::MAX,
        ensures
            final(self).total() == old(self).total(),
            final(self).done() == progress,
            marks_for(progress as nat, old(self).total()) >= marks_for(
                old(self).done(),
                old(self).total(),
            ) ==> marks == marks_for(progress as nat, old(self).total()) - marks_for(
                old(self).done(),
                old(self).total(),
            ),
            marks_for(progress as nat, old(self).total()) < marks_for(
                old(self).done(),
                old(self).total(),
            ) ==> marks == 0,
    {
        proof {
            use_type_invariant(&*self);
        }
        let current = self.progress * BAR_WIDTH / self.size;
        self.progress = progress;
        let updated = self.progress * BAR_WIDTH / self.size;
        if updated > current {
            updated - current
        } else {
            0
        }
    }
}

} // verus!
