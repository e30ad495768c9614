use vstd::prelude::*;

verus! {

/// A value that is not meant to change after it was built.
#[derive(Copy, Clone, Default, Debug)]
pub struct Frozen<T>(pub T);

impl<T> Frozen<T> {
    /// Gives back the wrapped value.
    pub fn into_inner(self) -> (r: T)
        ensures
            r == self.0,
    {
        self.0
    }
}

impl<T> core::ops::Deref for Frozen<T> {
    type Target = T;

    fn deref(&self) -> (r: &T)
        ensures
            *r == self.0,
    {
        &self.0
    }
}

} // verus!
