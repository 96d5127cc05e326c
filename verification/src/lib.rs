//! Core of a live aircraft tracker: it parses lines of an SBS-format
//! surveillance feed, keeps a bounded store of aircraft records with
//! merge/validation rules, out-of-order rejection, dead-reckoning
//! scheduling and periodic garbage collection, and frames lines for a
//! recording sink.
//!
//! All quantities are plain values: angles in microdegrees, ground speed
//! in microknots, altitude in feet, time in milliseconds. Spherical
//! floating-point geometry (projection, great-circle advance, distance)
//! is left to the surrounding application; this crate states and proves
//! the decisions that are taken on the geometry's results.

pub mod aircraft;
pub mod fields;
pub mod laws;
pub mod messages;
pub mod numbers;
pub mod parser;
pub mod pipeline;
pub mod store;
pub mod time;
pub mod transponder;

pub use aircraft::Aircraft;
pub use aircraft::EstimateRequest;
pub use aircraft::State;
pub use messages::LatLon;
pub use messages::Sbs1Message;
pub use parser::parse_sbs_message;
pub use parser::ParseError;
pub use pipeline::record_line;
pub use pipeline::start_transition;
pub use pipeline::stop_transition;
pub use pipeline::ReceiverState;
pub use store::ProgramData;
pub use store::UpdateOutcome;
pub use store::GC_INTERVAL_MS;
pub use store::MAX_MS_WITHOUT_UPDATE;
pub use time::elapsed_ms;
pub use transponder::ModeSTransponderCode;
pub use transponder::TransponderCodeError;
