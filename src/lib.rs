//! Rolling averages of a sampled sensor value over three trailing horizons.
//!
//! Samples are integers in thousandths of a unit (the sensor reports millidegrees), so each
//! window's running sum is exact: it never drifts from the sum of the samples it holds.
pub mod aggregator;
pub mod laws;
pub mod reading;
pub mod record;
pub mod window;

pub use aggregator::{capacity_for, Aggregator, Snapshot};
pub use reading::{parse_reading, DecodeError};
pub use record::record_line;
pub use window::{Mean, Window};
