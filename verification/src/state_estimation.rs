//! Alternative estimator scaffolding kept alongside the particle
//! filter.

use vstd::prelude::*;

verus! {

/// An unscented Kalman filter over the same state space.  Only its
/// interface is carried here; estimation runs through the particle
/// filter instead.
pub struct UKFilter {}

impl UKFilter {
    /// The update step; it leaves the estimator as it was.
    pub fn update(&mut self)
        ensures
            *final(self) == *old(self),
    {
    }
}

} // verus!
