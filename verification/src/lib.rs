//! Verified control logic for a programmable electronic load and a
//! programmable power supply driven over a line-oriented SCPI protocol.
//!
//! The crate holds the pure half of the instrument stack: wire-value
//! formatting and parsing in fixed-point micro-units, command-text
//! construction, status-word decoding, and the adaptive sweep controller
//! that locates a voltage-drop crossing.  The socket itself and the
//! real-time settle delays live with the caller, which feeds replies and
//! measurements back into these functions.

pub mod error;
pub mod scalar;
pub mod scpi;
pub mod sdl1000x;
pub mod spd3303x;
pub mod startup;
pub mod sweep;
pub mod text;

pub use error::LabError;
pub use scalar::Scalar;
pub use scpi::Ch;
pub use scpi::Meas;
pub use scpi::PortState;
pub use spd3303x::SPD3303XStatus;
pub use startup::GlobalOptions;
pub use startup::LogLevel;
pub use startup::OptsCommon;
pub use sweep::LinearModel;
pub use sweep::SimOutcome;
pub use sweep::Sweep;
pub use sweep::SweepAction;
pub use sweep::SweepConfig;
pub use sweep::SweepPhase;
