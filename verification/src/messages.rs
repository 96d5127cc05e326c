//! Typed reports decoded from the feed.
//!
//! Unit conversion happens at the parser boundary in the sense that every
//! field is turned into one fixed unit system here: angles (latitude,
//! longitude, track) in microdegrees, ground speed in microknots, altitude
//! in feet, so the rest of the core works on one consistent set of plain
//! values.

use vstd::prelude::*;

use crate::transponder::ModeSTransponderCode;

verus! {

/// A latitude/longitude pair, both in microdegrees.
#[derive(Clone, Copy, Debug, PartialEq, Eq, Structural)]
pub struct LatLon {
    /// Latitude in microdegrees, north positive.
    pub lat: i64,
    /// Longitude in microdegrees, east positive.
    pub lon: i64,
}

/// One report of the feed, one variant per interpreted message kind. An
/// absent optional field means "not reported in this message", never
/// "zero".
#[derive(Clone, Debug, PartialEq)]
pub enum Sbs1Message {
    /// Identification: the aircraft's callsign.
    EsIdentificationAndCategory { id: ModeSTransponderCode, callsign: Vec<u8> },
    /// Airborne position: optional altitude (feet) and optional position.
    EsAirbornePosition { id: ModeSTransponderCode, altitude: Option<u32>, lat_lon: Option<LatLon> },
    /// Airborne velocity: ground speed (microknots) and track
    /// (microdegrees clockwise from true north).
    EsAirborneVelocity { id: ModeSTransponderCode, ground_speed: i64, track: i64 },
    /// Surveillance altitude (feet).
    SurveillanceAltitude { id: ModeSTransponderCode, altitude: u32 },
}

/// The mathematical shape of a report: as [`Sbs1Message`], with the
/// callsign as a byte sequence and the transponder code as its raw value.
pub enum Sbs1MessageV {
    EsIdentificationAndCategory { id: u32, callsign: Seq<u8> },
    EsAirbornePosition { id: u32, altitude: Option<u32>, lat_lon: Option<LatLon> },
    EsAirborneVelocity { id: u32, ground_speed: i64, track: i64 },
    SurveillanceAltitude { id: u32, altitude: u32 },
}

impl View for Sbs1Message {
    type V = Sbs1MessageV;

    open spec fn view(&self) -> Sbs1MessageV {
        match self {
            Sbs1Message::EsIdentificationAndCategory { id, callsign } => {
                Sbs1MessageV::EsIdentificationAndCategory { id: id@, callsign: callsign@ }
            },
            Sbs1Message::EsAirbornePosition { id, altitude, lat_lon } => {
                Sbs1MessageV::EsAirbornePosition { id: id@, altitude: *altitude, lat_lon: *lat_lon }
            },
            Sbs1Message::EsAirborneVelocity { id, ground_speed, track } => {
                Sbs1MessageV::EsAirborneVelocity { id: id@, ground_speed: *ground_speed, track: *track }
            },
            Sbs1Message::SurveillanceAltitude { id, altitude } => {
                Sbs1MessageV::SurveillanceAltitude { id: id@, altitude: *altitude }
            },
        }
    }
}

impl Sbs1MessageV {
    /// The transponder code the report is about.
    pub open spec fn id(&self) -> u32 {
        match self {
            Sbs1MessageV::EsIdentificationAndCategory { id, .. } => *id,
            Sbs1MessageV::EsAirbornePosition { id, .. } => *id,
            Sbs1MessageV::EsAirborneVelocity { id, .. } => *id,
            Sbs1MessageV::SurveillanceAltitude { id, .. } => *id,
        }
    }
}

impl Sbs1Message {
    /// The transponder code the report is about.
    pub fn id(&self) -> (r: ModeSTransponderCode)
        ensures
            r@ == self@.id(),
    {
        match self {
            Sbs1Message::EsIdentificationAndCategory { id, .. } => *id,
            Sbs1Message::EsAirbornePosition { id, .. } => *id,
            Sbs1Message::EsAirborneVelocity { id, .. } => *id,
            Sbs1Message::SurveillanceAltitude { id, .. } => *id,
        }
    }
}

} // verus!
