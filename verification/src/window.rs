//! Fixed-capacity circular window, the shared windowing primitive.
//!
//! A window holds at most `capacity` samples in arrival order.  Once full,
//! each push evicts exactly the oldest element.  Its view is the buffered
//! sequence, oldest first.

use crate::fixed::{in_bounds, tdiv, CAP_MAX, VMAX};
use vstd::prelude::*;

verus! {

/// What one forced push does to a window's contents: append, evicting the
/// oldest element when the window is at capacity.
pub open spec fn wpush(s: Seq<int>, cap: nat, v: int) -> Seq<int> {
    if s.len() < cap {
        s.push(v)
    } else {
        s.drop_first().push(v)
    }
}

/// Sum of a sequence of samples.
pub open spec fn sum_of(s: Seq<int>) -> int
    decreases s.len(),
{
    if s.len() == 0 {
        0
    } else {
        sum_of(s.drop_last()) + s.last()
    }
}

/// Every element of the sequence is a representable sample.
pub open spec fn all_in_bounds(s: Seq<int>) -> bool {
    forall|i: int| 0 <= i < s.len() ==> in_bounds(#[trigger] s[i])
}

/// A sequence of representable samples sums to at most its length times the
/// saturation bound, in magnitude.
pub proof fn lemma_sum_bound(s: Seq<int>)
    requires
        all_in_bounds(s),
    ensures
        -(s.len() * VMAX as int) <= sum_of(s) <= s.len() * VMAX as int,
    decreases s.len(),
{
    if s.len() > 0 {
        lemma_sum_bound(s.drop_last());
        assert(in_bounds(s[s.len() - 1]));
        assert((s.len() - 1) * VMAX as int + VMAX as int == s.len() * VMAX as int)
            by (nonlinear_arith);
    }
}

/// Fixed-capacity circular buffer over samples, ring-indexed so that a push
/// is constant-time.  `buf` holds the samples; while the window is filling,
/// `start` is zero and `buf` grows, and once full, `start` marks the oldest
/// slot and pushes overwrite in place.
pub struct Window {
    buf: Vec<i128>,
    start: usize,
    cap: usize,
}

impl View for Window {
    type V = Seq<int>;

    closed spec fn view(&self) -> Seq<int> {
        Seq::new(
            self.buf@.len(),
            |i: int|
                (if self.start + i < self.cap {
                    self.buf@[self.start + i]
                } else {
                    self.buf@[self.start + i - self.cap]
                }) as int,
        )
    }
}

impl Window {
    /// The fixed capacity, as a mathematical number.
    pub closed spec fn cap_spec(&self) -> nat {
        self.cap as nat
    }

    /// The representation invariant of the ring.
    pub closed spec fn wf(&self) -> bool {
        &&& 1 <= self.cap <= CAP_MAX
        &&& self.buf@.len() <= self.cap
        &&& self.start < self.cap
        &&& self.buf@.len() < self.cap ==> self.start == 0
    }

    /// A fresh, empty window; capacity zero is a contract violation.
    pub fn new(capacity: usize) -> (w: Window)
        requires
            1 <= capacity <= CAP_MAX,
        ensures
            w.wf(),
            w.cap_spec() == capacity,
            w@ == Seq::<int>::empty(),
    {
        let w = Window { buf: Vec::new(), start: 0, cap: capacity };
        proof {
            assert(w@ =~= Seq::<int>::empty());
        }
        w
    }

    /// Number of buffered samples.
    pub fn len(&self) -> (n: usize)
        requires
            self.wf(),
        ensures
            n == self@.len(),
    {
        self.buf.len()
    }

    /// The fixed capacity.
    pub fn capacity(&self) -> (n: usize)
        requires
            self.wf(),
        ensures
            n == self.cap_spec(),
    {
        self.cap
    }

    /// Whether no sample has been buffered yet.
    pub fn is_empty(&self) -> (e: bool)
        requires
            self.wf(),
        ensures
            e == (self@.len() == 0),
    {
        self.buf.len() == 0
    }

    /// The buffered sample at position `i`, oldest first.
    pub fn get(&self, i: usize) -> (v: i128)
        requires
            self.wf(),
            i < self@.len(),
        ensures
            v as int == self@[i as int],
    {
        if self.start + i < self.cap {
            self.buf[self.start + i]
        } else {
            self.buf[self.start + i - self.cap]
        }
    }

    /// Append a sample, evicting the oldest element when full.
    pub fn push_force(&mut self, v: i128)
        requires
            old(self).wf(),
        ensures
            final(self).wf(),
            final(self).cap_spec() == old(self).cap_spec(),
            final(self)@ == wpush(old(self)@, old(self).cap_spec(), v as int),
    {
        if self.buf.len() < self.cap {
            self.buf.push(v);
            proof {
                assert(self@ =~= wpush(old(self)@, old(self).cap_spec(), v as int));
            }
        } else {
            let idx = self.start;
            self.buf.set(idx, v);
            if self.start + 1 < self.cap {
                self.start = self.start + 1;
            } else {
                self.start = 0;
            }
            proof {
                assert(self@ =~= wpush(old(self)@, old(self).cap_spec(), v as int));
            }
        }
    }

    /// The most recently pushed sample, or absent while empty.
    pub fn peek_newest(&self) -> (r: Option<i128>)
        requires
            self.wf(),
        ensures
            match r {
                Some(v) => self@.len() > 0 && v as int == self@.last(),
                None => self@.len() == 0,
            },
    {
        if self.buf.len() == 0 {
            None
        } else {
            Some(self.get(self.buf.len() - 1))
        }
    }

    /// The oldest buffered sample, or absent while empty.
    pub fn peek_oldest(&self) -> (r: Option<i128>)
        requires
            self.wf(),
        ensures
            match r {
                Some(v) => self@.len() > 0 && v as int == self@.first(),
                None => self@.len() == 0,
            },
    {
        if self.buf.len() == 0 {
            None
        } else {
            Some(self.get(0))
        }
    }

    /// Sum of all buffered samples.
    pub fn sum(&self) -> (s: i128)
        requires
            self.wf(),
            all_in_bounds(self@),
        ensures
            s as int == sum_of(self@),
    {
        let n = self.buf.len();
        let mut s: i128 = 0;
        let mut i: usize = 0;
        while i < n
            invariant
                self.wf(),
                all_in_bounds(self@),
                n == self@.len(),
                i <= n,
                s as int == sum_of(self@.take(i as int)),
                -((i as int) * VMAX as int) <= s as int <= (i as int) * VMAX as int,
            decreases n - i,
        {
            let v = self.get(i);
            proof {
                assert(self@.take(i + 1).drop_last() =~= self@.take(i as int));
                assert(self@.take(i + 1).last() == self@[i as int]);
                assert(in_bounds(self@[i as int]));
                assert((i as int) * VMAX as int + VMAX as int == (i + 1) * VMAX as int)
                    by (nonlinear_arith);
                assert((i + 1) as int * VMAX as int <= CAP_MAX as int * VMAX as int)
                    by (nonlinear_arith)
                    requires
                        0 <= i,
                        i + 1 <= CAP_MAX as int,
                ;
            }
            s = s + v;
            i = i + 1;
        }
        proof {
            assert(self@.take(n as int) =~= self@);
        }
        s
    }

    /// Arithmetic mean of all buffered samples, truncating toward zero.
    pub fn mean(&self) -> (m: i128)
        requires
            self.wf(),
            self@.len() > 0,
            all_in_bounds(self@),
        ensures
            m as int == tdiv(sum_of(self@), self@.len() as int),
            in_bounds(m as int),
    {
        let s = self.sum();
        let n = self.buf.len();
        proof {
            lemma_sum_bound(self@);
            assert((self@.len() as int) * VMAX as int <= CAP_MAX as int * VMAX as int)
                by (nonlinear_arith)
                requires
                    0 < self@.len() as int <= CAP_MAX as int,
            ;
            crate::fixed::lemma_tdiv_bound(s as int, n as int);
            crate::fixed::lemma_tdiv_le_factor(
                if s >= 0 {
                    s as int
                } else {
                    -(s as int)
                },
                n as int,
                VMAX as int,
            );
        }
        crate::fixed::tdiv_i(s, n as i128)
    }
}

} // verus!
