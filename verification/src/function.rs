//! Callbacks as sinks of deltas.
use crate::error::Error;
use crate::model::ModelDelta;
use vstd::prelude::*;

verus! {

/// A callback that takes each delta as it comes. Nothing is queued or kept.
pub struct FunctionDeltaSink<F>(F);

impl<F> FunctionDeltaSink<F> {
    /// The callback.
    pub closed spec fn callback(&self) -> F {
        self.0
    }

    pub fn new(callback: F) -> (r: FunctionDeltaSink<F>)
        ensures
            r.callback() == callback,
    {
        FunctionDeltaSink(callback)
    }
}

impl<F: Fn(ModelDelta) -> Result<(), Error>> FunctionDeltaSink<F> {
    /// Hands a delta to the callback, and hands back what that says.
    pub fn emit(&self, delta: ModelDelta) -> (r: Result<(), Error>)
        requires
            call_requires(self.callback(), (delta,)),
        ensures
            call_ensures(self.callback(), (delta,), r),
    {
        (self.0)(delta)
    }
}

} // verus!
