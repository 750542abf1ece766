//! Library-wide laws, proved over the chain model.

use crate::fixed::{in_bounds, HUNDRED_FX};
use crate::model::{
    ema_init, identity_init, last_of, lemma_step_wf, roc_init, rsi_init, sma_init, step, wf,
    Model,
};
use crate::window::{all_in_bounds, wpush};
use vstd::prelude::*;

verus! {

/// A freshly constructed capability reports absence: before the first push
/// there is no derived value, whatever the capacity and the inner chain.
pub proof fn lemma_fresh_absent(inner: Model, cap: nat)
    ensures
        last_of(identity_init()) is None,
        last_of(sma_init(inner, cap)) is None,
        last_of(ema_init(inner, cap)) is None,
        last_of(roc_init(inner, cap)) is None,
        last_of(rsi_init(inner, cap)) is None,
{
}

/// After a push, a capability always has a derived value: absence happens
/// only before the first push.
pub proof fn lemma_push_defines_last(m: Model, x: int)
    requires
        wf(m),
        in_bounds(x),
    ensures
        last_of(step(m, x)) is Some,
{
    lemma_step_wf(m, x);
}

/// The state after feeding a whole sample stream, one value at a time, in
/// order.
pub open spec fn run(m: Model, xs: Seq<int>) -> Model
    decreases xs.len(),
{
    if xs.len() == 0 {
        m
    } else {
        run(step(m, xs[0]), xs.drop_first())
    }
}

/// Well-formedness holds along any representable input stream.
pub proof fn lemma_run_wf(m: Model, xs: Seq<int>)
    requires
        wf(m),
        all_in_bounds(xs),
    ensures
        wf(run(m, xs)),
    decreases xs.len(),
{
    if xs.len() > 0 {
        lemma_step_wf(m, xs[0]);
        assert(all_in_bounds(xs.drop_first())) by {
            assert(forall|i: int|
                0 <= i < xs.len() - 1 ==> #[trigger] xs.drop_first()[i] == xs[i + 1]);
        }
        lemma_run_wf(step(m, xs[0]), xs.drop_first());
    }
}

/// Absence ends with the first push for good: after any nonempty stream of
/// representable samples, a well-formed capability has a derived value.
pub proof fn lemma_stream_defines_last(m: Model, xs: Seq<int>)
    requires
        wf(m),
        all_in_bounds(xs),
        xs.len() >= 1,
    ensures
        last_of(run(m, xs)) is Some,
    decreases xs.len(),
{
    lemma_step_wf(m, xs[0]);
    if xs.len() > 1 {
        assert(all_in_bounds(xs.drop_first())) by {
            assert(forall|i: int|
                0 <= i < xs.len() - 1 ==> #[trigger] xs.drop_first()[i] == xs[i + 1]);
        }
        lemma_stream_defines_last(step(m, xs[0]), xs.drop_first());
    }
}

/// A push never changes which indicator a capability is.
pub proof fn lemma_run_keeps_rsi(m: Model, xs: Seq<int>)
    requires
        m matches Model::Rsi { .. },
    ensures
        run(m, xs) matches Model::Rsi { .. },
    decreases xs.len(),
{
    if xs.len() > 0 {
        lemma_run_keeps_rsi(step(m, xs[0]), xs.drop_first());
    }
}

/// RSI is bounded: drive a well-formed RSI with any finite stream of
/// representable samples, and every non-absent output lies in `[0, 100]`.
pub proof fn lemma_rsi_bounded(m: Model, xs: Seq<int>, v: int)
    requires
        wf(m),
        m matches Model::Rsi { .. },
        all_in_bounds(xs),
        last_of(run(m, xs)) == Some(v),
    ensures
        0 <= v <= HUNDRED_FX as int,
{
    lemma_run_wf(m, xs);
    lemma_run_keeps_rsi(m, xs);
}

/// Repeatedly forcing samples into a window, oldest first.
pub open spec fn wpush_all(s: Seq<int>, cap: nat, xs: Seq<int>) -> Seq<int>
    decreases xs.len(),
{
    if xs.len() == 0 {
        s
    } else {
        wpush_all(wpush(s, cap, xs[0]), cap, xs.drop_first())
    }
}

/// The window length law: starting from a window holding `k <= n` samples,
/// after `m` more forced pushes the window holds `min(k + m, n)` samples —
/// in particular, a fresh window driven with `m` samples holds `min(m, n)`.
pub proof fn lemma_window_fill_len(s: Seq<int>, cap: nat, xs: Seq<int>)
    requires
        1 <= cap,
        s.len() <= cap,
    ensures
        wpush_all(s, cap, xs).len() == if s.len() + xs.len() <= cap {
            (s.len() + xs.len()) as int
        } else {
            cap as int
        },
    decreases xs.len(),
{
    if xs.len() > 0 {
        lemma_window_fill_len(wpush(s, cap, xs[0]), cap, xs.drop_first());
    }
}

} // verus!
