//! Relative strength index.

use crate::chain::Chain;
use crate::frame::Frameable;
use crate::fixed::{
    fadd, fdiv, fscale, fsub, in_bounds, tdiv_i, CAP_MAX, EPSILON_FX, HUNDRED_FX, SCALE, VMAX,
};
use crate::identity::Identity;
use crate::model::{
    avg_gain_of, avg_loss_of, gains_count, gains_sum, height, identity_init, losses_count,
    losses_sum, rsi_init, step, wf, Model,
};
use crate::roc::ROC;
use crate::slider::{opt_value, Slider};
use crate::window::{all_in_bounds, Window};
use vstd::prelude::*;
use vstd::string::StringExecFns;

verus! {

/// Relative strength index: a single-step rate of change applied to the raw
/// effective input feeds a window of recent changes; the changes are split
/// into gains and losses, averaged (a tiny epsilon standing in when one side
/// is empty, so the final division stays well-defined), smoothed against the
/// previous averages, and folded into `100 - 100 / (1 + gain / loss)`.
pub struct RSI {
    inner: Box<Chain>,
    roc: ROC,
    changes: Window,
    out: Window,
    last_avg_gain: i128,
    last_avg_loss: i128,
}

impl RSI {
    /// A fresh RSI of the given window capacity over a fresh identity; both
    /// running averages start at one.
    pub fn new(capacity: usize) -> (s: RSI)
        requires
            1 <= capacity <= CAP_MAX,
        ensures
            s.inv(),
            s.model() == rsi_init(identity_init(), capacity as nat),
    {
        let inner = Identity::new().into_chain();
        proof {
            inner.inv_implies_wf();
        }
        let roc = ROC::new(1);
        proof {
            roc.inv_implies_wf();
        }
        RSI {
            inner: Box::new(inner),
            roc,
            changes: Window::new(capacity),
            out: Window::new(capacity),
            last_avg_gain: SCALE,
            last_avg_loss: SCALE,
        }
    }

    /// Wrap a caller-supplied capability, enabling arbitrary chain depth.
    pub fn wrap(capacity: usize, internal: Chain) -> (s: RSI)
        requires
            1 <= capacity <= CAP_MAX,
            internal.inv(),
        ensures
            s.inv(),
            s.model() == rsi_init(internal.model(), capacity as nat),
    {
        proof {
            internal.inv_implies_wf();
        }
        let roc = ROC::new(1);
        proof {
            roc.inv_implies_wf();
        }
        RSI {
            inner: Box::new(internal),
            roc,
            changes: Window::new(capacity),
            out: Window::new(capacity),
            last_avg_gain: SCALE,
            last_avg_loss: SCALE,
        }
    }

    /// Pack this capability into a [`Chain`], so that a wrapping indicator
    /// or an aggregator can own it.
    pub fn into_chain(self) -> (c: Chain)
        requires
            self.inv(),
        ensures
            c.inv(),
            c.model() == self.model(),
    {
        Chain::Rsi(self)
    }

    /// Feed one sample: forward it to the inner capability, run the
    /// effective input through the owned single-step rate of change, and
    /// fold the buffered changes into a new index value.
    pub fn push(&mut self, item: i128)
        requires
            old(self).inv(),
            in_bounds(item as int),
        ensures
            final(self).inv(),
            final(self).model() == step(old(self).model(), item as int),
        decreases height(old(self).model()), 0int,
    {
        proof {
            crate::model::lemma_step_wf(old(self).model(), item as int);
        }
        self.inner.push(item);
        let y = match self.inner.last() {
            Some(v) => v,
            None => item,
        };
        proof {
            crate::model::lemma_last_in_bounds((*self.inner).model());
        }
        self.roc.push(y);
        let change = match self.roc.last() {
            Some(c) => c,
            None => 0,
        };
        self.changes.push_force(change);
        proof {
            crate::model::lemma_avg_range(self.changes@);
            crate::model::lemma_gains_bounds(self.changes@);
            crate::model::lemma_losses_bounds(self.changes@);
        }
        let n = self.changes.len();
        let mut gsum: i128 = 0;
        let mut gcount: usize = 0;
        let mut lsum: i128 = 0;
        let mut lcount: usize = 0;
        let mut i: usize = 0;
        while i < n
            invariant
                self.changes.wf(),
                all_in_bounds(self.changes@),
                n == self.changes@.len(),
                n <= CAP_MAX,
                i <= n,
                gsum as int == gains_sum(self.changes@.take(i as int)),
                gcount as nat == gains_count(self.changes@.take(i as int)),
                lsum as int == losses_sum(self.changes@.take(i as int)),
                lcount as nat == losses_count(self.changes@.take(i as int)),
                gcount <= i,
                lcount <= i,
                0 <= gsum as int <= (i as int) * VMAX as int,
                0 <= lsum as int <= (i as int) * VMAX as int,
            decreases n - i,
        {
            let v = self.changes.get(i);
            proof {
                assert(self.changes@.take(i + 1).drop_last() =~= self.changes@.take(i as int));
                assert(self.changes@.take(i + 1).last() == self.changes@[i as int]);
                assert(in_bounds(self.changes@[i as int]));
                assert((i as int) * VMAX as int + VMAX as int == (i + 1) * VMAX as int)
                    by (nonlinear_arith);
                assert((i + 1) as int * VMAX as int <= CAP_MAX as int * VMAX as int)
                    by (nonlinear_arith)
                    requires
                        0 <= i,
                        i + 1 <= CAP_MAX as int,
                ;
            }
            if v > 0 {
                gsum = gsum + v;
                gcount = gcount + 1;
            } else if v < 0 {
                lsum = lsum + (-v);
                lcount = lcount + 1;
            }
            i = i + 1;
        }
        proof {
            assert(self.changes@.take(n as int) =~= self.changes@);
        }
        let avg_gain = if gcount == 0 {
            EPSILON_FX
        } else {
            tdiv_i(gsum, gcount as i128)
        };
        let avg_loss = if lcount == 0 {
            EPSILON_FX
        } else {
            tdiv_i(lsum, lcount as i128)
        };
        proof {
            assert(avg_gain as int == avg_gain_of(self.changes@));
            assert(avg_loss as int == avg_loss_of(self.changes@));
        }
        let capacity = self.out.capacity();
        let gc = fadd(fscale(self.last_avg_gain, capacity - 1), avg_gain);
        let lc = fadd(fscale(self.last_avg_loss, capacity - 1), avg_loss);
        let v = fsub(HUNDRED_FX, fdiv(HUNDRED_FX, fadd(SCALE, fdiv(gc, lc))));
        self.last_avg_gain = avg_gain;
        self.last_avg_loss = avg_loss;
        self.out.push_force(v);
    }

    /// The newest index value, or absent before the first push.
    pub fn last(&self) -> (r: Option<i128>)
        requires
            self.inv(),
        ensures
            opt_value(r) == crate::model::last_of(self.model()),
    {
        self.out.peek_newest()
    }
}

impl Slider for RSI {
    closed spec fn model(&self) -> Model
        decreases self,
    {
        Model::Rsi {
            inner: Box::new((*self.inner).model()),
            roc: Box::new(self.roc.model()),
            cap: self.out.cap_spec(),
            changes: self.changes@,
            out: self.out@,
            avg_gain: self.last_avg_gain as int,
            avg_loss: self.last_avg_loss as int,
        }
    }

    closed spec fn inv(&self) -> bool
        decreases self,
    {
        &&& (*self.inner).inv()
        &&& self.roc.inv()
        &&& self.changes.wf()
        &&& self.out.wf()
        &&& self.changes.cap_spec() == self.out.cap_spec()
        &&& wf(self.model())
    }

    proof fn inv_implies_wf(&self) {
    }

    fn last(&self) -> (r: Option<i128>) {
        self.last()
    }

    fn push(&mut self, item: i128) {
        self.push(item)
    }
}

impl Frameable for RSI {
    fn name(&self) -> (r: String) {
        let mut s = String::from_str("rsi");
        crate::names::push_dec(&mut s, self.out.capacity());
        s
    }
}

} // verus!
