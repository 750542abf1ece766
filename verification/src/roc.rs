//! Rate of change.

use crate::chain::Chain;
use crate::frame::Frameable;
use crate::fixed::{fdiv, fsub, in_bounds, CAP_MAX};
use crate::identity::Identity;
use crate::model::{height, identity_init, roc_init, step, wf, Model};
use crate::slider::{opt_value, Slider};
use crate::window::Window;
use vstd::prelude::*;
use vstd::string::StringExecFns;

verus! {

/// Rate of change: `(newest - oldest) / oldest` over a window of
/// `lookback + 1` effective inputs.  While the window is still filling, the
/// oldest buffered value stands in, so early readings use a shorter
/// effective lookback.  A zero oldest value makes the quotient saturate
/// with the numerator's sign instead of dividing by zero.
pub struct ROC {
    inner: Box<Chain>,
    win: Window,
}

impl ROC {
    /// A fresh ROC with the given lookback over a fresh identity; its
    /// window capacity is one more than the lookback.
    pub fn new(lookback: usize) -> (s: ROC)
        requires
            1 <= lookback < CAP_MAX,
        ensures
            s.inv(),
            s.model() == roc_init(identity_init(), (lookback + 1) as nat),
    {
        let inner = Identity::new().into_chain();
        proof {
            inner.inv_implies_wf();
        }
        ROC { inner: Box::new(inner), win: Window::new(lookback + 1) }
    }

    /// Wrap a caller-supplied capability, enabling arbitrary chain depth.
    pub fn wrap(lookback: usize, internal: Chain) -> (s: ROC)
        requires
            1 <= lookback < CAP_MAX,
            internal.inv(),
        ensures
            s.inv(),
            s.model() == roc_init(internal.model(), (lookback + 1) as nat),
    {
        proof {
            internal.inv_implies_wf();
        }
        ROC { inner: Box::new(internal), win: Window::new(lookback + 1) }
    }

    /// Pack this capability into a [`Chain`], so that a wrapping indicator
    /// or an aggregator can own it.
    pub fn into_chain(self) -> (c: Chain)
        requires
            self.inv(),
        ensures
            c.inv(),
            c.model() == self.model(),
    {
        Chain::Roc(self)
    }

    /// Feed one sample: forward it to the inner capability, then buffer the
    /// effective input.
    pub fn push(&mut self, item: i128)
        requires
            old(self).inv(),
            in_bounds(item as int),
        ensures
            final(self).inv(),
            final(self).model() == step(old(self).model(), item as int),
        decreases height(old(self).model()), 0int,
    {
        proof {
            crate::model::lemma_step_wf(old(self).model(), item as int);
        }
        self.inner.push(item);
        let y = match self.inner.last() {
            Some(v) => v,
            None => item,
        };
        proof {
            crate::model::lemma_last_in_bounds((*self.inner).model());
        }
        self.win.push_force(y);
    }

    /// The rate of change over the buffered window, or absent before the
    /// first push.
    pub fn last(&self) -> (r: Option<i128>)
        requires
            self.inv(),
        ensures
            opt_value(r) == crate::model::last_of(self.model()),
    {
        let n = self.win.len();
        if n == 0 {
            None
        } else {
            let newest = self.win.get(n - 1);
            let oldest = self.win.get(0);
            Some(fdiv(fsub(newest, oldest), oldest))
        }
    }
}

impl Slider for ROC {
    closed spec fn model(&self) -> Model
        decreases self,
    {
        Model::Roc {
            inner: Box::new((*self.inner).model()),
            cap: self.win.cap_spec(),
            win: self.win@,
        }
    }

    closed spec fn inv(&self) -> bool
        decreases self,
    {
        &&& (*self.inner).inv()
        &&& self.win.wf()
        &&& wf(self.model())
    }

    proof fn inv_implies_wf(&self) {
    }

    fn last(&self) -> (r: Option<i128>) {
        self.last()
    }

    fn push(&mut self, item: i128) {
        self.push(item)
    }
}

impl Frameable for ROC {
    fn name(&self) -> (r: String) {
        let mut s = String::from_str("roc");
        crate::names::push_dec(&mut s, self.win.capacity() - 1);
        s
    }
}

} // verus!
