//! The training/evaluation mode of inverted dropout.
use vstd::prelude::*;

verus! {

/// Mode of a dropout layer: in training mode it zeroes inputs at random and rescales the
/// rest; in evaluation mode it passes its input through unchanged.
pub struct DropoutMode {
    training: bool,
}

impl DropoutMode {
    pub closed spec fn spec_training(self) -> bool {
        self.training
    }

    /// A dropout starts in training mode.
    pub fn new() -> (d: DropoutMode)
        ensures
            d.spec_training(),
    {
        DropoutMode { training: true }
    }

    /// Switches to training mode.
    pub fn train(&mut self)
        ensures
            final(self).spec_training(),
    {
        self.training = true;
    }

    /// Switches to evaluation mode.
    pub fn eval(&mut self)
        ensures
            !final(self).spec_training(),
    {
        self.training = false;
    }

    pub fn is_training(&self) -> (b: bool)
        ensures
            b == self.spec_training(),
    {
        self.training
    }
}

} // verus!
