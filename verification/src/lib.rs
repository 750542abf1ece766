//! Streaming (online) technical indicators over fixed-point samples.
//!
//! Every indicator consumes one sample at a time and reports only its latest
//! derived value.  Indicators are composable: each one delegates raw input to
//! an inner streaming capability (an [`identity::Identity`] by default), so a
//! chain such as "SMA of SMA" or "EMA of RSI" is built by wrapping.
//!
//! Samples are fixed-point numbers: an `i128` holding the value scaled by
//! [`fixed::SCALE`].  All arithmetic saturates at [`fixed::VMAX`], the
//! fixed-point analogue of a floating-point format's finite range.

pub mod chain;
pub mod ema;
pub mod fixed;
pub mod frame;
pub mod identity;
pub mod laws;
pub mod model;
pub mod names;
pub mod roc;
pub mod rsi;
pub mod slider;
pub mod sma;
pub mod window;

pub use crate::chain::Chain;
pub use crate::ema::EMA;
pub use crate::frame::Frame;
pub use crate::frame::Frameable;
pub use crate::identity::Identity;
pub use crate::roc::ROC;
pub use crate::rsi::RSI;
pub use crate::slider::Slider;
pub use crate::sma::SMA;
pub use crate::window::Window;
