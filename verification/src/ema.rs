//! Exponential moving average.

use crate::chain::Chain;
use crate::frame::Frameable;
use crate::fixed::{fadd, fmul, fsub, in_bounds, tdiv_i, CAP_MAX, SCALE};
use crate::identity::Identity;
use crate::model::{
    cap_of, ema_init, ema_weight, height, identity_init, lemma_ema_weight_range, step, wf, Model,
};
use crate::slider::{opt_value, Slider};
use crate::window::Window;
use vstd::prelude::*;
use vstd::string::StringExecFns;

verus! {

/// Exponential moving average: each effective input is blended with the
/// previous output under the smoothing weight `2 / (1 + n)`, computed once
/// at construction.  The window holds the running output history; only its
/// newest slot is ever read back, and the first observed value seeds the
/// average.
pub struct EMA {
    inner: Box<Chain>,
    win: Window,
    weight: i128,
}

impl EMA {
    /// A fresh EMA of the given window capacity over a fresh identity.
    pub fn new(capacity: usize) -> (s: EMA)
        requires
            1 <= capacity <= CAP_MAX,
        ensures
            s.inv(),
            s.model() == ema_init(identity_init(), capacity as nat),
    {
        let inner = Identity::new().into_chain();
        proof {
            inner.inv_implies_wf();
            lemma_ema_weight_range(capacity as nat);
        }
        let weight = tdiv_i(2 * SCALE, 1 + capacity as i128);
        EMA { inner: Box::new(inner), win: Window::new(capacity), weight }
    }

    /// Wrap a caller-supplied capability, enabling arbitrary chain depth.
    pub fn wrap(capacity: usize, internal: Chain) -> (s: EMA)
        requires
            1 <= capacity <= CAP_MAX,
            internal.inv(),
        ensures
            s.inv(),
            s.model() == ema_init(internal.model(), capacity as nat),
    {
        proof {
            internal.inv_implies_wf();
            lemma_ema_weight_range(capacity as nat);
        }
        let weight = tdiv_i(2 * SCALE, 1 + capacity as i128);
        EMA { inner: Box::new(internal), win: Window::new(capacity), weight }
    }

    /// Pack this capability into a [`Chain`], so that a wrapping indicator
    /// or an aggregator can own it.
    pub fn into_chain(self) -> (c: Chain)
        requires
            self.inv(),
        ensures
            c.inv(),
            c.model() == self.model(),
    {
        Chain::Ema(self)
    }

    /// The smoothing weight, fixed at construction: `2 / (1 + n)`.
    pub fn weight(&self) -> (w: i128)
        requires
            self.inv(),
        ensures
            w as int == ema_weight(cap_of(self.model())),
    {
        self.weight
    }

    /// Feed one sample: forward it to the inner capability, then blend the
    /// effective input into the running average.
    pub fn push(&mut self, item: i128)
        requires
            old(self).inv(),
            in_bounds(item as int),
        ensures
            final(self).inv(),
            final(self).model() == step(old(self).model(), item as int),
        decreases height(old(self).model()), 0int,
    {
        proof {
            crate::model::lemma_step_wf(old(self).model(), item as int);
            lemma_ema_weight_range(self.win.cap_spec());
        }
        self.inner.push(item);
        let y = match self.inner.last() {
            Some(v) => v,
            None => item,
        };
        proof {
            crate::model::lemma_last_in_bounds((*self.inner).model());
        }
        let prev = match self.win.peek_newest() {
            Some(v) => v,
            None => y,
        };
        let v = fadd(fmul(y, self.weight), fmul(prev, fsub(SCALE, self.weight)));
        self.win.push_force(v);
    }

    /// The newest running average, or absent before the first push.
    pub fn last(&self) -> (r: Option<i128>)
        requires
            self.inv(),
        ensures
            opt_value(r) == crate::model::last_of(self.model()),
    {
        self.win.peek_newest()
    }
}

impl Slider for EMA {
    closed spec fn model(&self) -> Model
        decreases self,
    {
        Model::Ema {
            inner: Box::new((*self.inner).model()),
            cap: self.win.cap_spec(),
            win: self.win@,
        }
    }

    closed spec fn inv(&self) -> bool
        decreases self,
    {
        &&& (*self.inner).inv()
        &&& self.win.wf()
        &&& self.weight as int == ema_weight(self.win.cap_spec())
        &&& wf(self.model())
    }

    proof fn inv_implies_wf(&self) {
    }

    fn last(&self) -> (r: Option<i128>) {
        self.last()
    }

    fn push(&mut self, item: i128) {
        self.push(item)
    }
}

impl Frameable for EMA {
    fn name(&self) -> (r: String) {
        let mut s = String::from_str("ema");
        crate::names::push_dec(&mut s, self.win.capacity());
        s
    }
}

} // verus!
