//! Fan, power and charge control for Framework laptops: the rules, without the hardware.
//!
//! The library decides; it opens no file, sends no ioctl and calls no bus. What needs a file
//! is written as work that asks for one operation at a time ([`sysfs::Step`]), so that the
//! same rules run against real hardware or against a fixture. What needs the embedded
//! controller (EC) asks for one command at a time in the same way ([`transport::EcStep`]).
//!
//! Units are whole numbers throughout: temperatures in thousandths of a degree Celsius
//! (`None` where nobody could read one), power in microwatts, time in nanoseconds or
//! milliseconds as the name says.
//!
//! The parts that keep the machine safe:
//!
//! - [`floor`]: the fan is never run slower than firmware would run it;
//! - [`ceiling`] and [`battery`]: past them the fan belongs to firmware;
//! - [`fan`] and [`lease`]: manual control is taken, kept to the floor and given back, and
//!   any failure on the way gives it back too;
//! - [`watchdog`]: a daemon that no longer works does not keep the fan.

pub mod battery;
pub mod board;
pub mod caps;
pub mod ceiling;
pub mod charge;
pub mod client;
pub mod curve;
pub mod daemon;
pub mod ec;
pub mod ecfan;
pub mod editor;
pub mod energy;
pub mod fan;
pub mod floor;
pub mod govern;
pub mod lease;
pub mod number;
pub mod order;
pub mod panel;
pub mod paths;
pub mod polkit;
pub mod power;
pub mod ppd;
pub mod procs;
pub mod profile;
pub mod profiles;
pub mod report;
pub mod restore;
pub mod state;
pub mod sysfs;
pub mod telemetry;
pub mod text;
pub mod transport;
pub mod watchdog;
pub mod wire;

pub use battery::BatteryGuard;
pub use caps::{Cap, Capabilities};
pub use ceiling::Ceiling;
pub use charge::{ChargeControl, ChargeError};
pub use curve::{Curve, CurveEngine, CurveError, Point};
pub use energy::EnergySampler;
pub use fan::{FanControl, FanError, FanMode};
pub use floor::{FirmwareFloor, LEAST_DUTY, STICTION_DUTY};
pub use power::PowerLimit;
pub use profile::{Ppd, Profile, ProfileError};
pub use sysfs::Sysfs;
pub use telemetry::{Monitor, Telemetry};
