//! Results as the contracts speak of them.
use vstd::prelude::*;

verus! {

/// A result with what it holds taken by its view.
pub open spec fn outcome<T: DeepView, E: DeepView>(r: Result<T, E>) -> Result<T::V, E::V> {
    match r {
        Ok(t) => Ok(t.deep_view()),
        Err(e) => Err(e.deep_view()),
    }
}

} // verus!
