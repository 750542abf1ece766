//! The trivial streaming capability.

use crate::chain::Chain;
use crate::frame::Frameable;
use crate::model::{identity_init, wf, Model};
use crate::slider::{opt_value, Slider};
use vstd::prelude::*;
use vstd::string::StringExecFns;

verus! {

/// Remembers the last pushed value and nothing else: the neutral element of
/// composition, and the default inner stage of every indicator.
pub struct Identity {
    last: Option<i128>,
}

impl Identity {
    /// A fresh identity with no value yet.
    pub fn new() -> (s: Identity)
        ensures
            s.inv(),
            s.model() == identity_init(),
    {
        Identity { last: None }
    }

    /// Pack this capability into a [`Chain`], so that a wrapping indicator
    /// or an aggregator can own it.
    pub fn into_chain(self) -> (c: Chain)
        requires
            self.inv(),
        ensures
            c.inv(),
            c.model() == self.model(),
    {
        Chain::Identity(self)
    }

    /// Remember one sample.
    pub fn push(&mut self, item: i128)
        requires
            old(self).inv(),
            crate::fixed::in_bounds(item as int),
        ensures
            final(self).inv(),
            final(self).model() == crate::model::step(old(self).model(), item as int),
    {
        self.last = Some(item);
    }

    /// The last pushed value, or absent before the first push.
    pub fn last(&self) -> (r: Option<i128>)
        requires
            self.inv(),
        ensures
            opt_value(r) == crate::model::last_of(self.model()),
    {
        self.last
    }
}

impl Slider for Identity {
    closed spec fn model(&self) -> Model {
        Model::Identity { last: opt_value(self.last) }
    }

    closed spec fn inv(&self) -> bool {
        wf(self.model())
    }

    proof fn inv_implies_wf(&self) {
    }

    fn last(&self) -> (r: Option<i128>) {
        self.last()
    }

    fn push(&mut self, item: i128) {
        self.push(item)
    }
}

impl Frameable for Identity {
    fn name(&self) -> (r: String) {
        String::from_str("identity")
    }
}

} // verus!
