//! A composition chain of streaming capabilities.

use crate::fixed::in_bounds;
use crate::frame::Frameable;
use crate::ema::EMA;
use crate::identity::Identity;
use crate::model::{height, step, Model};
use crate::slider::Slider;
use crate::roc::ROC;
use crate::rsi::RSI;
use crate::sma::SMA;
use vstd::prelude::*;

verus! {

/// Any streaming capability of this library, owned as the inner stage of a
/// wrapping indicator or held by an aggregator.
pub enum Chain {
    Identity(Identity),
    Sma(SMA),
    Ema(EMA),
    Roc(ROC),
    Rsi(RSI),
}

impl Chain {
    /// Feed one sample to the held capability.
    pub fn push(&mut self, item: i128)
        requires
            old(self).inv(),
            in_bounds(item as int),
        ensures
            final(self).inv(),
            final(self).model() == step(old(self).model(), item as int),
        decreases height(old(self).model()), 1int,
    {
        match self {
            Chain::Identity(s) => s.push(item),
            Chain::Sma(s) => s.push(item),
            Chain::Ema(s) => s.push(item),
            Chain::Roc(s) => s.push(item),
            Chain::Rsi(s) => s.push(item),
        }
    }
}

impl Slider for Chain {
    open spec fn model(&self) -> Model
        decreases self,
    {
        match self {
            Chain::Identity(s) => s.model(),
            Chain::Sma(s) => s.model(),
            Chain::Ema(s) => s.model(),
            Chain::Roc(s) => s.model(),
            Chain::Rsi(s) => s.model(),
        }
    }

    open spec fn inv(&self) -> bool
        decreases self,
    {
        match self {
            Chain::Identity(s) => s.inv(),
            Chain::Sma(s) => s.inv(),
            Chain::Ema(s) => s.inv(),
            Chain::Roc(s) => s.inv(),
            Chain::Rsi(s) => s.inv(),
        }
    }

    proof fn inv_implies_wf(&self) {
        match self {
            Chain::Identity(s) => s.inv_implies_wf(),
            Chain::Sma(s) => s.inv_implies_wf(),
            Chain::Ema(s) => s.inv_implies_wf(),
            Chain::Roc(s) => s.inv_implies_wf(),
            Chain::Rsi(s) => s.inv_implies_wf(),
        }
    }

    fn last(&self) -> (r: Option<i128>) {
        match self {
            Chain::Identity(s) => s.last(),
            Chain::Sma(s) => s.last(),
            Chain::Ema(s) => s.last(),
            Chain::Roc(s) => s.last(),
            Chain::Rsi(s) => s.last(),
        }
    }

    fn push(&mut self, item: i128) {
        self.push(item)
    }
}

impl Frameable for Chain {
    fn name(&self) -> (r: String) {
        match self {
            Chain::Identity(s) => s.name(),
            Chain::Sma(s) => s.name(),
            Chain::Ema(s) => s.name(),
            Chain::Roc(s) => s.name(),
            Chain::Rsi(s) => s.name(),
        }
    }
}

} // verus!
