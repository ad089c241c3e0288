//! Interfaces between regulators and the measurements they act on.
use vstd::prelude::*;

verus! {

/// A set of measurements that can feed the regulator `T`.
pub trait AsInput<T> {
    type Value;

    /// The measurement that `T` regulates.
    fn as_input(&self) -> Self::Value;
}

} // verus!
