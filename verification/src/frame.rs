//! The multi-indicator aggregator.

use crate::chain::Chain;
use crate::fixed::in_bounds;
use crate::model::{last_of, name_of, step, Model};
use crate::slider::Slider;
use vstd::prelude::*;

verus! {

/// A capability that an aggregator can hold: a slider with a short
/// descriptive label, used only for reporting, never for identity.
pub trait Frameable: Slider {
    /// The label: algorithm name followed by its construction parameter
    /// (the window capacity; for the rate of change, the lookback).
    fn name(&self) -> (r: String)
        requires
            self.inv(),
        ensures
            r@ == name_of(self.model()),
    ;
}

/// The numeric value an aggregator reports for a capability: its latest
/// derived value, or zero while it reports absence.
pub open spec fn value_or_zero(o: Option<int>) -> int {
    match o {
        Some(v) => v,
        None => 0,
    }
}

/// Aggregator over named streaming capabilities: broadcasts each input to
/// all of them in insertion order and collects their latest values and
/// labels together.  The list is append-only.
pub struct Frame {
    indicators: Vec<Chain>,
}

impl Frame {
    /// The models of the held capabilities, in insertion order.
    pub closed spec fn models(&self) -> Seq<Model> {
        self.indicators@.map(|i: int, c: Chain| c.model())
    }

    /// Every held capability satisfies its representation invariant.
    pub closed spec fn inv(&self) -> bool {
        forall|i: int|
            0 <= i < self.indicators@.len() ==> (#[trigger] self.indicators@[i]).inv()
    }

    /// A fresh aggregator holding nothing.
    pub fn new() -> (f: Frame)
        ensures
            f.inv(),
            f.models() == Seq::<Model>::empty(),
    {
        let f = Frame { indicators: Vec::new() };
        proof {
            assert(f.models() =~= Seq::<Model>::empty());
        }
        f
    }

    /// Append one capability to the insertion-ordered list.
    pub fn add(&mut self, indicator: Chain)
        requires
            old(self).inv(),
            indicator.inv(),
        ensures
            final(self).inv(),
            final(self).models() == old(self).models().push(indicator.model()),
    {
        self.indicators.push(indicator);
        proof {
            assert(self.models() =~= old(self).models().push(indicator.model()));
        }
    }

    /// Broadcast one sample to every held capability, in insertion order,
    /// unconditionally.
    pub fn push(&mut self, value: i128)
        requires
            old(self).inv(),
            in_bounds(value as int),
        ensures
            final(self).inv(),
            final(self).models().len() == old(self).models().len(),
            forall|i: int|
                0 <= i < old(self).models().len() ==> final(self).models()[i] == step(
                    #[trigger] old(self).models()[i],
                    value as int,
                ),
    {
        let ghost m0 = self.indicators@;
        let n = self.indicators.len();
        let mut i: usize = 0;
        while i < n
            invariant
                self.indicators@.len() == n,
                n == m0.len(),
                i <= n,
                in_bounds(value as int),
                forall|j: int| 0 <= j < m0.len() ==> (#[trigger] m0[j]).inv(),
                forall|j: int|
                    i <= j < n ==> #[trigger] self.indicators@[j] == m0[j],
                forall|j: int|
                    0 <= j < i ==> (#[trigger] self.indicators@[j]).inv()
                        && self.indicators@[j].model() == step(m0[j].model(), value as int),
            decreases n - i,
        {
            let mut c = self.indicators.remove(i);
            c.push(value);
            self.indicators.insert(i, c);
            i = i + 1;
        }
    }

    /// The latest derived value of each capability, in insertion order,
    /// with zero standing in where a capability still reports absence.
    pub fn last(&self) -> (r: Vec<i128>)
        requires
            self.inv(),
        ensures
            r@.len() == self.models().len(),
            forall|i: int|
                0 <= i < r@.len() ==> r@[i] as int == value_or_zero(
                    last_of(#[trigger] self.models()[i]),
                ),
    {
        let n = self.indicators.len();
        let mut r: Vec<i128> = Vec::new();
        let mut i: usize = 0;
        while i < n
            invariant
                self.inv(),
                n == self.indicators@.len(),
                i <= n,
                r@.len() == i,
                forall|j: int|
                    0 <= j < i ==> r@[j] as int == value_or_zero(
                        last_of(#[trigger] self.models()[j]),
                    ),
            decreases n - i,
        {
            let v = match self.indicators[i].last() {
                Some(v) => v,
                None => 0,
            };
            r.push(v);
            i = i + 1;
        }
        r
    }

    /// The label of each capability, in insertion order.
    pub fn names(&self) -> (r: Vec<String>)
        requires
            self.inv(),
        ensures
            r@.len() == self.models().len(),
            forall|i: int|
                0 <= i < r@.len() ==> (#[trigger] r@[i])@ == name_of(self.models()[i]),
    {
        let n = self.indicators.len();
        let mut r: Vec<String> = Vec::new();
        let mut i: usize = 0;
        while i < n
            invariant
                self.inv(),
                n == self.indicators@.len(),
                i <= n,
                r@.len() == i,
                forall|j: int|
                    0 <= j < i ==> (#[trigger] r@[j])@ == name_of(self.models()[j]),
            decreases n - i,
        {
            let s = self.indicators[i].name();
            r.push(s);
            i = i + 1;
        }
        r
    }
}

} // verus!
