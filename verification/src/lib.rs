//! Wall-clock measurements: checked arithmetic over elapsed time, a two-unit
//! human-readable rendering, and a textual duration codec.

pub mod codec;
pub mod decimal;
pub mod display;
pub mod error;
pub mod measurement;
pub mod round_trip;
pub mod timedelta;

pub use error::{DecodeErr, IntErrorKind, MeasureErr, MeasureResult};
pub use measurement::Measurement;
