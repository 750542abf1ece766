//! Edge cases, exact values and the aggregator.

use inditech::ema::EMA;
use inditech::fixed::{SCALE, VMAX};
use inditech::frame::Frame;
use inditech::roc::ROC;
use inditech::rsi::RSI;
use inditech::sma::SMA;
use inditech::window::Window;

#[test]
fn fresh_indicators_absent() {
    assert_eq!(SMA::new(1).last(), None);
    assert_eq!(EMA::new(1).last(), None);
    assert_eq!(ROC::new(1).last(), None);
    assert_eq!(RSI::new(1).last(), None);
    assert_eq!(SMA::new(14).last(), None);
    assert_eq!(EMA::new(14).last(), None);
    assert_eq!(ROC::new(14).last(), None);
    assert_eq!(RSI::new(14).last(), None);
}

#[test]
fn ema_exact_values() {
    // Weight of EMA(3) is 1/2, so the average halves toward each input.
    let mut ema = EMA::new(3);
    assert_eq!(ema.weight(), 500_000_000);

    ema.push(1 * SCALE);
    assert_eq!(ema.last(), Some(1 * SCALE));

    ema.push(2 * SCALE);
    assert_eq!(ema.last(), Some(1_500_000_000));

    ema.push(3 * SCALE);
    assert_eq!(ema.last(), Some(2_250_000_000));
}

#[test]
fn roc_zero_oldest_saturates() {
    // Division by a zero oldest value saturates with the numerator's sign
    // instead of raising.
    let mut roc = ROC::new(1);

    roc.push(0);
    assert_eq!(roc.last(), Some(0));

    roc.push(5 * SCALE);
    assert_eq!(roc.last(), Some(VMAX));
}

#[test]
fn rsi_first_push_is_half() {
    // With no gains and no losses buffered, both averages fall back to
    // epsilon and the index settles exactly in the middle.
    let mut rsi = RSI::new(2);

    rsi.push(10 * SCALE);

    assert_eq!(rsi.last(), Some(50 * SCALE));
}

#[test]
fn window_length_law() {
    let mut w = Window::new(3);
    assert!(w.is_empty());
    assert_eq!(w.peek_newest(), None);
    assert_eq!(w.peek_oldest(), None);

    let samples: [i128; 5] = [10, 20, 30, 40, 50];
    for (m, v) in samples.iter().enumerate() {
        w.push_force(*v);
        let expected = if m + 1 <= 3 { m + 1 } else { 3 };
        assert_eq!(w.len(), expected);
        assert_eq!(w.capacity(), 3);
        assert_eq!(w.peek_newest(), Some(*v));
    }

    // The oldest element left is the third: two were evicted, oldest first.
    assert_eq!(w.peek_oldest(), Some(30));
    assert_eq!(w.get(0), 30);
    assert_eq!(w.get(1), 40);
    assert_eq!(w.get(2), 50);
}

#[test]
fn frame_order_and_names() {
    let mut frame = Frame::new();
    frame.add(SMA::new(3).into_chain());
    frame.add(EMA::new(14).into_chain());
    frame.add(ROC::new(1).into_chain());
    frame.add(RSI::new(8).into_chain());

    let names = frame.names();
    assert_eq!(names.len(), 4);
    assert_eq!(names[0], "sma3");
    assert_eq!(names[1], "ema14");
    assert_eq!(names[2], "roc1");
    assert_eq!(names[3], "rsi8");

    // Before any push every capability is absent, so every value is zero.
    let empty = frame.last();
    assert_eq!(empty, [0, 0, 0, 0]);

    frame.push(1 * SCALE);
    frame.push(2 * SCALE);

    // Element i corresponds to the i-th added capability.
    let mut sma = SMA::new(3);
    let mut ema = EMA::new(14);
    let mut roc = ROC::new(1);
    let mut rsi = RSI::new(8);
    for v in [1 * SCALE, 2 * SCALE] {
        sma.push(v);
        ema.push(v);
        roc.push(v);
        rsi.push(v);
    }
    let got = frame.last();
    assert_eq!(got.len(), 4);
    assert_eq!(got[0], sma.last().unwrap());
    assert_eq!(got[1], ema.last().unwrap());
    assert_eq!(got[2], roc.last().unwrap());
    assert_eq!(got[3], rsi.last().unwrap());
}

#[test]
fn identity_is_neutral() {
    // Wrapping the identity beneath an indicator changes nothing.
    let mut plain = SMA::new(3);
    let mut wrapped = SMA::wrap(3, inditech::identity::Identity::new().into_chain());

    for v in [7 * SCALE, 9 * SCALE, 11 * SCALE, 13 * SCALE] {
        plain.push(v);
        wrapped.push(v);
        assert_eq!(plain.last(), wrapped.last());
    }
}

#[test]
fn composed_chain_names_and_values() {
    // EMA over RSI: the outer indicator consumes the inner one's outputs.
    let mut chain = EMA::wrap(3, RSI::new(5).into_chain());

    chain.push(100 * SCALE);
    chain.push(105 * SCALE);
    chain.push(95 * SCALE);

    let out = chain.last().unwrap();
    assert!(0 <= out && out <= 100 * SCALE);
}
