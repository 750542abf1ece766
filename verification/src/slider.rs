//! The streaming capability interface.

use crate::fixed::in_bounds;
use crate::model::{last_of, step, wf, Model};
use vstd::prelude::*;

verus! {

/// The mathematical value of an optional sample.
pub open spec fn opt_value(r: Option<i128>) -> Option<int> {
    match r {
        Some(v) => Some(v as int),
        None => None,
    }
}

/// The streaming capability every indicator implements: push one sample,
/// read the latest derived value.  `model` is the capability's ghost state
/// and `inv` its representation invariant; a push follows [`step`] and the
/// latest derived value follows [`last_of`] exactly.
pub trait Slider: Sized {
    /// Ghost state of this capability, inner chain included.
    spec fn model(&self) -> Model;

    /// Representation invariant; it subsumes well-formedness of the model.
    spec fn inv(&self) -> bool;

    /// The representation invariant carries well-formedness of the model.
    proof fn inv_implies_wf(&self)
        requires
            self.inv(),
        ensures
            wf(self.model()),
    ;

    /// The latest derived value, or absent before the first push.
    fn last(&self) -> (r: Option<i128>)
        requires
            self.inv(),
        ensures
            opt_value(r) == last_of(self.model()),
    ;

    /// Feed one sample.
    fn push(&mut self, item: i128)
        requires
            old(self).inv(),
            in_bounds(item as int),
        ensures
            final(self).inv(),
            final(self).model() == step(old(self).model(), item as int),
    ;
}

} // verus!
