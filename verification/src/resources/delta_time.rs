//! The length of the step that the systems are asked to advance by.

use crate::scalar::Scalar;
use vstd::prelude::*;

verus! {

/// Seconds that one step advances the simulation by.
#[derive(Clone, Copy, Debug, PartialEq, Eq)]
pub struct DeltaTime(pub Scalar);

} // verus!
