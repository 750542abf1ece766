//! The mathematical model of a composition chain.
//!
//! Every streaming capability is modelled by a [`Model`] value: the chain of
//! inner models beneath it plus its own windowed state.  [`step`] is the
//! specification of one push and [`last_of`] of the latest derived value;
//! every executable indicator's contract says that its state follows these
//! two functions exactly.

use crate::fixed::{
    fadd_s, fdiv_s, fmul_s, fscale_s, fsub_s, in_bounds, tdiv, CAP_MAX, EPSILON_FX, HUNDRED_FX,
    SCALE, VMAX,
};
use crate::window::{all_in_bounds, sum_of, wpush};
use vstd::prelude::*;

verus! {

/// Ghost state of one streaming capability, inner chain included.
pub enum Model {
    /// Remembers the last pushed value only.
    Identity { last: Option<int> },
    /// Simple moving average over the buffered effective inputs.
    Sma { inner: Box<Model>, cap: nat, win: Seq<int> },
    /// Exponential moving average; the window holds the output history.
    Ema { inner: Box<Model>, cap: nat, win: Seq<int> },
    /// Rate of change over a window of `lookback + 1` effective inputs.
    Roc { inner: Box<Model>, cap: nat, win: Seq<int> },
    /// Relative strength index: a single-step rate of change feeding a window
    /// of changes, smoothed averages of gains and losses, and an output
    /// window.
    Rsi {
        inner: Box<Model>,
        roc: Box<Model>,
        cap: nat,
        changes: Seq<int>,
        out: Seq<int>,
        avg_gain: int,
        avg_loss: int,
    },
}

/// Nesting depth of a chain, the termination measure for walking it.
pub open spec fn height(m: Model) -> nat
    decreases m,
{
    match m {
        Model::Identity { .. } => 0,
        Model::Sma { inner, .. } => 1 + height(*inner),
        Model::Ema { inner, .. } => 1 + height(*inner),
        Model::Roc { inner, .. } => 1 + height(*inner),
        Model::Rsi { inner, roc, .. } => 1 + height(*inner) + height(*roc),
    }
}

/// Mean of a window's contents, truncating toward zero.
pub open spec fn mean_s(win: Seq<int>) -> int
    recommends
        win.len() > 0,
{
    tdiv(sum_of(win), win.len() as int)
}

/// Rate of change over a window: `(newest - oldest) / oldest`.
pub open spec fn roc_val(win: Seq<int>) -> int
    recommends
        win.len() > 0,
{
    fdiv_s(fsub_s(win.last(), win.first()), win.first())
}

/// The EMA smoothing weight for capacity `n`: `2 / (1 + n)` as a sample.
pub open spec fn ema_weight(cap: nat) -> int {
    (2 * SCALE as int) / (1 + cap as int)
}

/// One EMA update: `y * w + prev * (1 - w)`.
pub open spec fn ema_next(y: int, prev: int, cap: nat) -> int {
    fadd_s(
        fmul_s(y, ema_weight(cap)),
        fmul_s(prev, fsub_s(SCALE as int, ema_weight(cap))),
    )
}

/// How many buffered changes are gains (strictly positive).
pub open spec fn gains_count(s: Seq<int>) -> nat
    decreases s.len(),
{
    if s.len() == 0 {
        0
    } else {
        gains_count(s.drop_last()) + if s.last() > 0 {
            1nat
        } else {
            0nat
        }
    }
}

/// Sum of the buffered gains.
pub open spec fn gains_sum(s: Seq<int>) -> int
    decreases s.len(),
{
    if s.len() == 0 {
        0
    } else {
        gains_sum(s.drop_last()) + if s.last() > 0 {
            s.last()
        } else {
            0
        }
    }
}

/// How many buffered changes are losses (strictly negative).
pub open spec fn losses_count(s: Seq<int>) -> nat
    decreases s.len(),
{
    if s.len() == 0 {
        0
    } else {
        losses_count(s.drop_last()) + if s.last() < 0 {
            1nat
        } else {
            0nat
        }
    }
}

/// Sum of the magnitudes of the buffered losses.
pub open spec fn losses_sum(s: Seq<int>) -> int
    decreases s.len(),
{
    if s.len() == 0 {
        0
    } else {
        losses_sum(s.drop_last()) + if s.last() < 0 {
            -s.last()
        } else {
            0
        }
    }
}

/// Mean gain this step, or a tiny epsilon when there are no gains, so the
/// final division stays well-defined.
pub open spec fn avg_gain_of(s: Seq<int>) -> int {
    if gains_count(s) == 0 {
        EPSILON_FX as int
    } else {
        tdiv(gains_sum(s), gains_count(s) as int)
    }
}

/// Mean loss magnitude this step, or a tiny epsilon when there are no losses.
pub open spec fn avg_loss_of(s: Seq<int>) -> int {
    if losses_count(s) == 0 {
        EPSILON_FX as int
    } else {
        tdiv(losses_sum(s), losses_count(s) as int)
    }
}

/// The smoothed component: `previous_average * (n - 1) + average`.  The
/// result is deliberately not divided by `n`; the classical normalised
/// smoothing would divide, but this library's index is defined without it.
pub open spec fn smooth(prev: int, cap: nat, avg: int) -> int {
    fadd_s(fscale_s(prev, cap as int - 1), avg)
}

/// The RSI output: `100 - 100 / (1 + gain_component / loss_component)`.
pub open spec fn rsi_value(gc: int, lc: int) -> int {
    fsub_s(
        HUNDRED_FX as int,
        fdiv_s(HUNDRED_FX as int, fadd_s(SCALE as int, fdiv_s(gc, lc))),
    )
}

/// The latest derived value of a chain, or absent before the first push.
pub open spec fn last_of(m: Model) -> Option<int> {
    match m {
        Model::Identity { last } => last,
        Model::Sma { win, .. } => if win.len() == 0 {
            None
        } else {
            Some(mean_s(win))
        },
        Model::Ema { win, .. } => if win.len() == 0 {
            None
        } else {
            Some(win.last())
        },
        Model::Roc { win, .. } => if win.len() == 0 {
            None
        } else {
            Some(roc_val(win))
        },
        Model::Rsi { out, .. } => if out.len() == 0 {
            None
        } else {
            Some(out.last())
        },
    }
}

/// The effective input of an indicator: its inner capability's latest value
/// after the push, falling back to the raw input while the inner chain is
/// still cold.
pub open spec fn eff_input(inner: Model, x: int) -> int {
    match last_of(inner) {
        Some(v) => v,
        None => x,
    }
}

/// One push: forward to the inner chain, read the effective input, then apply
/// the indicator's own windowed arithmetic.
pub open spec fn step(m: Model, x: int) -> Model
    decreases m,
{
    match m {
        Model::Identity { .. } => Model::Identity { last: Some(x) },
        Model::Sma { inner, cap, win } => {
            let inner2 = step(*inner, x);
            let y = eff_input(inner2, x);
            Model::Sma { inner: Box::new(inner2), cap, win: wpush(win, cap, y) }
        },
        Model::Ema { inner, cap, win } => {
            let inner2 = step(*inner, x);
            let y = eff_input(inner2, x);
            let prev = if win.len() == 0 {
                y
            } else {
                win.last()
            };
            Model::Ema { inner: Box::new(inner2), cap, win: wpush(win, cap, ema_next(y, prev, cap)) }
        },
        Model::Roc { inner, cap, win } => {
            let inner2 = step(*inner, x);
            let y = eff_input(inner2, x);
            Model::Roc { inner: Box::new(inner2), cap, win: wpush(win, cap, y) }
        },
        Model::Rsi { inner, roc, cap, changes, out, avg_gain, avg_loss } => {
            let inner2 = step(*inner, x);
            let y = eff_input(inner2, x);
            let roc2 = step(*roc, y);
            let change = match last_of(roc2) {
                Some(c) => c,
                None => 0,
            };
            let changes2 = wpush(changes, cap, change);
            let ag = avg_gain_of(changes2);
            let al = avg_loss_of(changes2);
            let v = rsi_value(smooth(avg_gain, cap, ag), smooth(avg_loss, cap, al));
            Model::Rsi {
                inner: Box::new(inner2),
                roc: Box::new(roc2),
                cap,
                changes: changes2,
                out: wpush(out, cap, v),
                avg_gain: ag,
                avg_loss: al,
            }
        },
    }
}

/// The single-step rate of change that RSI owns: a `Roc` of capacity two over
/// an identity inner.
pub open spec fn is_rsi_roc(m: Model) -> bool {
    match m {
        Model::Roc { inner, cap, .. } => cap == 2 && (*inner matches Model::Identity { .. }),
        _ => false,
    }
}

/// Well-formedness of a chain: capacities in range, windows within capacity,
/// every buffered value representable, RSI outputs within `[0, 100]` and its
/// running averages positive.
pub open spec fn wf(m: Model) -> bool
    decreases m,
{
    match m {
        Model::Identity { last } => match last {
            Some(v) => in_bounds(v),
            None => true,
        },
        Model::Sma { inner, cap, win } => {
            &&& wf(*inner)
            &&& 1 <= cap <= CAP_MAX
            &&& win.len() <= cap
            &&& all_in_bounds(win)
        },
        Model::Ema { inner, cap, win } => {
            &&& wf(*inner)
            &&& 1 <= cap <= CAP_MAX
            &&& win.len() <= cap
            &&& all_in_bounds(win)
        },
        Model::Roc { inner, cap, win } => {
            &&& wf(*inner)
            &&& 2 <= cap <= CAP_MAX
            &&& win.len() <= cap
            &&& all_in_bounds(win)
        },
        Model::Rsi { inner, roc, cap, changes, out, avg_gain, avg_loss } => {
            &&& wf(*inner)
            &&& wf(*roc)
            &&& is_rsi_roc(*roc)
            &&& 1 <= cap <= CAP_MAX
            &&& changes.len() <= cap
            &&& all_in_bounds(changes)
            &&& out.len() <= cap
            &&& (forall|i: int| 0 <= i < out.len() ==> 0 <= #[trigger] out[i] <= HUNDRED_FX as int)
            &&& 1 <= avg_gain <= VMAX as int
            &&& 1 <= avg_loss <= VMAX as int
        },
    }
}

/// A fresh identity capability.
pub open spec fn identity_init() -> Model {
    Model::Identity { last: None }
}

/// A fresh SMA of capacity `cap` over the given inner capability.
pub open spec fn sma_init(inner: Model, cap: nat) -> Model {
    Model::Sma { inner: Box::new(inner), cap, win: Seq::empty() }
}

/// A fresh EMA of capacity `cap` over the given inner capability.
pub open spec fn ema_init(inner: Model, cap: nat) -> Model {
    Model::Ema { inner: Box::new(inner), cap, win: Seq::empty() }
}

/// A fresh ROC with window capacity `cap` (one more than the lookback) over
/// the given inner capability.
pub open spec fn roc_init(inner: Model, cap: nat) -> Model {
    Model::Roc { inner: Box::new(inner), cap, win: Seq::empty() }
}

/// A fresh RSI of capacity `cap` over the given inner capability; both
/// running averages start at one.
pub open spec fn rsi_init(inner: Model, cap: nat) -> Model {
    Model::Rsi {
        inner: Box::new(inner),
        roc: Box::new(roc_init(identity_init(), 2)),
        cap,
        changes: Seq::empty(),
        out: Seq::empty(),
        avg_gain: SCALE as int,
        avg_loss: SCALE as int,
    }
}

/// A decimal digit as a one-character text.
pub open spec fn digit_seq(d: nat) -> Seq<char> {
    if d == 0 {
        "0"@
    } else if d == 1 {
        "1"@
    } else if d == 2 {
        "2"@
    } else if d == 3 {
        "3"@
    } else if d == 4 {
        "4"@
    } else if d == 5 {
        "5"@
    } else if d == 6 {
        "6"@
    } else if d == 7 {
        "7"@
    } else if d == 8 {
        "8"@
    } else {
        "9"@
    }
}

/// The decimal digits of a number, most significant first.
pub open spec fn dec_str(n: nat) -> Seq<char>
    decreases n,
{
    if n < 10 {
        digit_seq(n)
    } else {
        dec_str(n / 10) + digit_seq(n % 10)
    }
}

/// The descriptive label of a capability: the algorithm name followed by
/// its construction parameter — the window capacity, except for the rate
/// of change, whose label carries the lookback (one less than its window).
pub open spec fn name_of(m: Model) -> Seq<char> {
    match m {
        Model::Identity { .. } => "identity"@,
        Model::Sma { cap, .. } => "sma"@ + dec_str(cap),
        Model::Ema { cap, .. } => "ema"@ + dec_str(cap),
        Model::Roc { cap, .. } => "roc"@ + dec_str((cap - 1) as nat),
        Model::Rsi { cap, .. } => "rsi"@ + dec_str(cap),
    }
}

/// The window capacity an indicator was built with (zero for an identity,
/// which has no window).
pub open spec fn cap_of(m: Model) -> nat {
    match m {
        Model::Identity { .. } => 0,
        Model::Sma { cap, .. } => cap,
        Model::Ema { cap, .. } => cap,
        Model::Roc { cap, .. } => cap,
        Model::Rsi { cap, .. } => cap,
    }
}

/// The EMA smoothing weight lies between zero and one.
pub proof fn lemma_ema_weight_range(cap: nat)
    requires
        1 <= cap,
    ensures
        0 <= ema_weight(cap) <= SCALE as int,
{
    vstd::arithmetic::div_mod::lemma_div_pos_is_pos(2 * SCALE as int, 1 + cap as int);
    vstd::arithmetic::div_mod::lemma_div_is_ordered_by_denominator(
        2 * SCALE as int,
        2,
        1 + cap as int,
    );
    vstd::arithmetic::div_mod::lemma_div_multiples_vanish(SCALE as int, 2);
}

/// The truncating mean of representable samples is representable.
pub proof fn lemma_mean_bound(win: Seq<int>)
    requires
        win.len() > 0,
        all_in_bounds(win),
    ensures
        in_bounds(mean_s(win)),
{
    crate::window::lemma_sum_bound(win);
    let s = sum_of(win);
    let n = win.len() as int;
    if s >= 0 {
        crate::fixed::lemma_tdiv_nonneg(s, n);
        crate::fixed::lemma_tdiv_le_factor(s, n, VMAX as int);
    } else {
        crate::fixed::lemma_tdiv_nonneg(-s, n);
        crate::fixed::lemma_tdiv_le_factor(-s, n, VMAX as int);
    }
}

/// A well-formed chain only ever reports representable values.
pub proof fn lemma_last_in_bounds(m: Model)
    requires
        wf(m),
    ensures
        match last_of(m) {
            Some(v) => in_bounds(v),
            None => true,
        },
{
    match m {
        Model::Sma { win, .. } => {
            if win.len() > 0 {
                lemma_mean_bound(win);
            }
        },
        _ => {},
    }
}

/// Gains of a representable window: count within length, sum nonnegative, at
/// least the count (each gain is at least one step), and at most the count
/// times the saturation bound.
pub proof fn lemma_gains_bounds(s: Seq<int>)
    requires
        all_in_bounds(s),
    ensures
        gains_count(s) <= s.len(),
        gains_count(s) <= gains_sum(s),
        gains_sum(s) <= gains_count(s) * VMAX as int,
    decreases s.len(),
{
    if s.len() > 0 {
        assert(all_in_bounds(s.drop_last())) by {
            assert(forall|i: int|
                0 <= i < s.len() - 1 ==> #[trigger] s.drop_last()[i] == s[i]);
        }
        lemma_gains_bounds(s.drop_last());
        assert(in_bounds(s[s.len() - 1]));
        let c = gains_count(s.drop_last());
        assert(c * VMAX as int + VMAX as int == (c + 1) * VMAX as int) by (nonlinear_arith);
    }
}

/// The mirror statement for losses, over their magnitudes.
pub proof fn lemma_losses_bounds(s: Seq<int>)
    requires
        all_in_bounds(s),
    ensures
        losses_count(s) <= s.len(),
        losses_count(s) <= losses_sum(s),
        losses_sum(s) <= losses_count(s) * VMAX as int,
    decreases s.len(),
{
    if s.len() > 0 {
        assert(all_in_bounds(s.drop_last())) by {
            assert(forall|i: int|
                0 <= i < s.len() - 1 ==> #[trigger] s.drop_last()[i] == s[i]);
        }
        lemma_losses_bounds(s.drop_last());
        assert(in_bounds(s[s.len() - 1]));
        let c = losses_count(s.drop_last());
        assert(c * VMAX as int + VMAX as int == (c + 1) * VMAX as int) by (nonlinear_arith);
    }
}

/// Both running averages of a representable change window lie in
/// `[1, VMAX]`: a mean of gains is at least one step, and epsilon stands in
/// when there are none.
pub proof fn lemma_avg_range(s: Seq<int>)
    requires
        all_in_bounds(s),
    ensures
        1 <= avg_gain_of(s) <= VMAX as int,
        1 <= avg_loss_of(s) <= VMAX as int,
{
    lemma_gains_bounds(s);
    lemma_losses_bounds(s);
    if gains_count(s) > 0 {
        crate::fixed::lemma_tdiv_ge_one(gains_sum(s), gains_count(s) as int);
        crate::fixed::lemma_tdiv_le_factor(gains_sum(s), gains_count(s) as int, VMAX as int);
    }
    if losses_count(s) > 0 {
        crate::fixed::lemma_tdiv_ge_one(losses_sum(s), losses_count(s) as int);
        crate::fixed::lemma_tdiv_le_factor(losses_sum(s), losses_count(s) as int, VMAX as int);
    }
}

/// A smoothed component of a positive running average is itself in
/// `[1, VMAX]`.
pub proof fn lemma_smooth_range(prev: int, cap: nat, avg: int)
    requires
        1 <= prev <= VMAX as int,
        1 <= avg <= VMAX as int,
        1 <= cap,
    ensures
        1 <= smooth(prev, cap, avg) <= VMAX as int,
{
    assert(prev * (cap as int - 1) >= 0) by (nonlinear_arith)
        requires
            prev >= 1,
            cap as int >= 1,
    ;
}

/// The RSI formula stays within `[0, 100]` whenever both components are
/// positive.
pub proof fn lemma_rsi_value_range(gc: int, lc: int)
    requires
        1 <= gc <= VMAX as int,
        1 <= lc <= VMAX as int,
    ensures
        0 <= rsi_value(gc, lc) <= HUNDRED_FX as int,
{
    assert(gc * SCALE as int >= SCALE as int) by (nonlinear_arith)
        requires
            gc >= 1,
    ;
    crate::fixed::lemma_tdiv_nonneg(gc * SCALE as int, lc);
    let ratio = fdiv_s(gc, lc);
    let den = fadd_s(SCALE as int, ratio);
    assert(SCALE as int <= den <= VMAX as int);
    assert(HUNDRED_FX as int * SCALE as int <= den * HUNDRED_FX as int) by (nonlinear_arith)
        requires
            den >= SCALE as int,
    ;
    crate::fixed::lemma_tdiv_nonneg(HUNDRED_FX as int * SCALE as int, den);
    crate::fixed::lemma_tdiv_le_factor(
        HUNDRED_FX as int * SCALE as int,
        den,
        HUNDRED_FX as int,
    );
}

/// Forcing a representable value into a well-formed window keeps its length
/// within capacity and its contents representable.
pub proof fn lemma_wpush_wf(s: Seq<int>, cap: nat, v: int)
    requires
        1 <= cap,
        s.len() <= cap,
        all_in_bounds(s),
        in_bounds(v),
    ensures
        wpush(s, cap, v).len() <= cap,
        wpush(s, cap, v).len() > 0,
        all_in_bounds(wpush(s, cap, v)),
        wpush(s, cap, v).last() == v,
{
    let t = wpush(s, cap, v);
    assert forall|i: int| 0 <= i < t.len() implies in_bounds(#[trigger] t[i]) by {
        if i < t.len() - 1 {
            if s.len() < cap {
                assert(t[i] == s[i]);
            } else {
                assert(t[i] == s[i + 1]);
            }
        }
    }
}

/// One push of a well-formed chain yields a well-formed chain with a defined
/// latest value.
pub proof fn lemma_step_wf(m: Model, x: int)
    requires
        wf(m),
        in_bounds(x),
    ensures
        wf(step(m, x)),
        last_of(step(m, x)) is Some,
    decreases m,
{
    match m {
        Model::Identity { .. } => {},
        Model::Sma { inner, cap, win } => {
            lemma_step_wf(*inner, x);
            lemma_last_in_bounds(step(*inner, x));
            lemma_wpush_wf(win, cap, eff_input(step(*inner, x), x));
        },
        Model::Ema { inner, cap, win } => {
            lemma_step_wf(*inner, x);
            lemma_last_in_bounds(step(*inner, x));
            let y = eff_input(step(*inner, x), x);
            let prev = if win.len() == 0 {
                y
            } else {
                win.last()
            };
            lemma_wpush_wf(win, cap, ema_next(y, prev, cap));
        },
        Model::Roc { inner, cap, win } => {
            lemma_step_wf(*inner, x);
            lemma_last_in_bounds(step(*inner, x));
            lemma_wpush_wf(win, cap, eff_input(step(*inner, x), x));
        },
        Model::Rsi { inner, roc, cap, changes, out, avg_gain, avg_loss } => {
            lemma_step_wf(*inner, x);
            lemma_last_in_bounds(step(*inner, x));
            let y = eff_input(step(*inner, x), x);
            lemma_step_wf(*roc, y);
            let roc2 = step(*roc, y);
            lemma_last_in_bounds(roc2);
            match *roc {
                Model::Roc { inner: ri, .. } => {
                    assert(step(*ri, y) == Model::Identity { last: Some(y) });
                    assert(is_rsi_roc(roc2));
                },
                _ => {},
            }
            let change = match last_of(roc2) {
                Some(c) => c,
                None => 0,
            };
            lemma_wpush_wf(changes, cap, change);
            let changes2 = wpush(changes, cap, change);
            lemma_avg_range(changes2);
            lemma_smooth_range(avg_gain, cap, avg_gain_of(changes2));
            lemma_smooth_range(avg_loss, cap, avg_loss_of(changes2));
            lemma_rsi_value_range(
                smooth(avg_gain, cap, avg_gain_of(changes2)),
                smooth(avg_loss, cap, avg_loss_of(changes2)),
            );
            let v = rsi_value(
                smooth(avg_gain, cap, avg_gain_of(changes2)),
                smooth(avg_loss, cap, avg_loss_of(changes2)),
            );
            lemma_wpush_wf(out, cap, v);
            assert(all_in_bounds(out)) by {
                assert(forall|i: int|
                    0 <= i < out.len() ==> 0 <= #[trigger] out[i] <= HUNDRED_FX as int);
            }
            let out2 = wpush(out, cap, v);
            assert forall|i: int| 0 <= i < out2.len() implies 0 <= #[trigger] out2[i]
                <= HUNDRED_FX as int by {
                if i < out2.len() - 1 {
                    if out.len() < cap {
                        assert(out2[i] == out[i]);
                    } else {
                        assert(out2[i] == out[i + 1]);
                    }
                }
            }
        },
    }
}

} // verus!
