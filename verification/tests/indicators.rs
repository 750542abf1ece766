//! Indicator behavior over fixed-point samples (values scaled by `SCALE`).

use inditech::ema::EMA;
use inditech::fixed::SCALE;
use inditech::identity::Identity;
use inditech::roc::ROC;
use inditech::rsi::RSI;
use inditech::sma::SMA;

#[test]
fn identity() {
    let mut ident = Identity::new();

    ident.push(1 * SCALE);
    ident.push(2 * SCALE);
    ident.push(3 * SCALE);

    assert_eq!(ident.last(), Some(3 * SCALE));
}

#[test]
fn identity_empty() {
    let ident = Identity::new();

    assert_eq!(ident.last(), None);
}

#[test]
fn sma() {
    let mut sma = SMA::new(3);

    sma.push(1 * SCALE);
    sma.push(2 * SCALE);
    sma.push(3 * SCALE);

    assert_eq!(sma.last(), Some(2 * SCALE));
}

#[test]
fn sma_not_full() {
    let mut sma = SMA::new(3);

    sma.push(1 * SCALE);
    sma.push(2 * SCALE);

    assert_eq!(sma.last(), Some(1_500_000_000));
}

#[test]
fn sma_empty() {
    let sma = SMA::new(3);

    assert_eq!(sma.last(), None);
}

#[test]
fn sma_recursive() {
    let capacity = 10;
    let mut sma = SMA::wrap(capacity, SMA::new(capacity).into_chain());

    for i in 1..=capacity {
        sma.push(i as i128 * SCALE);
    }

    assert_eq!(sma.last(), Some(3_250_000_000));
}

#[test]
fn ema() {
    let mut ema = EMA::new(3);

    ema.push(1 * SCALE);
    ema.push(2 * SCALE);
    ema.push(3 * SCALE);
    ema.push(4 * SCALE);
    ema.push(5 * SCALE);
    ema.push(4 * SCALE);
    ema.push(3 * SCALE);

    assert!(ema.last().is_some());
}

#[test]
fn alpha() {
    let ema = EMA::new(9);

    assert_eq!(ema.weight(), 200_000_000);
}

#[test]
fn roc() {
    let mut roc = ROC::new(1);

    roc.push(2 * SCALE);
    roc.push(3 * SCALE);

    assert_eq!(roc.last(), Some(500_000_000));
}

#[test]
fn roc2() {
    let mut roc = ROC::new(1);

    roc.push(3 * SCALE);
    roc.push(2 * SCALE);

    assert!(roc.last().is_some());
}

#[test]
fn rsi() {
    let mut rsi = RSI::new(5);

    let vals: [i128; 8] = [102, 112, 120, 94, 94, 50, 25, 5];

    for val in vals {
        rsi.push(val * SCALE);
        let out = rsi.last().unwrap();
        assert!(0 <= out && out <= 100 * SCALE);
    }
}

#[test]
fn zero_change() {
    let mut rsi = RSI::new(7);

    let vals: [i128; 9] = [
        100_000_000_000,
        105_100_000_000,
        105_000_000_000,
        105_100_000_000,
        105_000_000_000,
        105_100_000_000,
        105_000_000_000,
        105_100_000_000,
        105_000_000_000,
    ];

    for val in vals {
        rsi.push(val);
        let out = rsi.last().unwrap();
        assert!(0 <= out && out <= 100 * SCALE);
    }
}
