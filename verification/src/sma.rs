//! Simple moving average.

use crate::chain::Chain;
use crate::frame::Frameable;
use crate::fixed::{in_bounds, CAP_MAX};
use crate::identity::Identity;
use crate::model::{height, identity_init, sma_init, step, wf, Model};
use crate::slider::{opt_value, Slider};
use crate::window::Window;
use vstd::prelude::*;
use vstd::string::StringExecFns;

verus! {

/// Simple moving average: the mean of all currently buffered effective
/// inputs — a partial-window mean while the window is still filling, never
/// padded with zeros.
pub struct SMA {
    inner: Box<Chain>,
    win: Window,
}

impl SMA {
    /// A fresh SMA of the given window capacity over a fresh identity.
    pub fn new(capacity: usize) -> (s: SMA)
        requires
            1 <= capacity <= CAP_MAX,
        ensures
            s.inv(),
            s.model() == sma_init(identity_init(), capacity as nat),
    {
        let inner = Identity::new().into_chain();
        proof {
            inner.inv_implies_wf();
        }
        SMA { inner: Box::new(inner), win: Window::new(capacity) }
    }

    /// Wrap a caller-supplied capability, enabling arbitrary chain depth.
    pub fn wrap(capacity: usize, internal: Chain) -> (s: SMA)
        requires
            1 <= capacity <= CAP_MAX,
            internal.inv(),
        ensures
            s.inv(),
            s.model() == sma_init(internal.model(), capacity as nat),
    {
        proof {
            internal.inv_implies_wf();
        }
        SMA { inner: Box::new(internal), win: Window::new(capacity) }
    }

    /// Pack this capability into a [`Chain`], so that a wrapping indicator
    /// or an aggregator can own it.
    pub fn into_chain(self) -> (c: Chain)
        requires
            self.inv(),
        ensures
            c.inv(),
            c.model() == self.model(),
    {
        Chain::Sma(self)
    }

    /// Feed one sample: forward it to the inner capability, then buffer the
    /// effective input.
    pub fn push(&mut self, item: i128)
        requires
            old(self).inv(),
            in_bounds(item as int),
        ensures
            final(self).inv(),
            final(self).model() == step(old(self).model(), item as int),
        decreases height(old(self).model()), 0int,
    {
        proof {
            crate::model::lemma_step_wf(old(self).model(), item as int);
        }
        self.inner.push(item);
        let y = match self.inner.last() {
            Some(v) => v,
            None => item,
        };
        proof {
            crate::model::lemma_last_in_bounds((*self.inner).model());
        }
        self.win.push_force(y);
    }

    /// The mean of the buffered samples, or absent while the window is
    /// empty.
    pub fn last(&self) -> (r: Option<i128>)
        requires
            self.inv(),
        ensures
            opt_value(r) == crate::model::last_of(self.model()),
    {
        if self.win.is_empty() {
            None
        } else {
            Some(self.win.mean())
        }
    }
}

impl Slider for SMA {
    closed spec fn model(&self) -> Model
        decreases self,
    {
        Model::Sma {
            inner: Box::new((*self.inner).model()),
            cap: self.win.cap_spec(),
            win: self.win@,
        }
    }

    closed spec fn inv(&self) -> bool
        decreases self,
    {
        &&& (*self.inner).inv()
        &&& self.win.wf()
        &&& wf(self.model())
    }

    proof fn inv_implies_wf(&self) {
    }

    fn last(&self) -> (r: Option<i128>) {
        self.last()
    }

    fn push(&mut self, item: i128) {
        self.push(item)
    }
}

impl Frameable for SMA {
    fn name(&self) -> (r: String) {
        let mut s = String::from_str("sma");
        crate::names::push_dec(&mut s, self.win.capacity());
        s
    }
}

} // verus!
