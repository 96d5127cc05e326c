//! One tracked aircraft: its observed and estimated state, and how a
//! report merges into it.

use vstd::prelude::*;

use crate::messages::LatLon;
use crate::messages::Sbs1Message;
use crate::messages::Sbs1MessageV;
use crate::time::elapsed_ms;
use crate::time::spec_elapsed_ms;
use crate::transponder::ModeSTransponderCode;

verus! {

/// Whether a record is the one currently selected for outbound telemetry.
#[derive(Clone, Copy, Debug, PartialEq, Eq, Structural)]
pub enum State {
    Normal,
    Selected,
}

/// One tracked aircraft. Optional fields mean "never observed yet"; a
/// field, once observed, is only ever overwritten, never cleared.
#[derive(Debug)]
pub struct Aircraft {
    /// The transponder code the record is keyed by.
    pub id: ModeSTransponderCode,
    /// Selection state; at most one record of a store is `Selected`.
    pub state: State,
    /// Callsign, from the last identification report.
    pub callsign: Option<Vec<u8>>,
    /// Last observed position and the time it was observed (ms).
    pub lat_lon: Option<(LatLon, u64)>,
    /// Dead-reckoned position and the time it was estimated (ms).
    pub estimated_lat_lon: Option<(LatLon, u64)>,
    /// Track in microdegrees, clockwise from true north.
    pub track: Option<i64>,
    /// Altitude in feet.
    pub altitude: Option<u32>,
    /// Ground speed in microknots.
    pub ground_speed: Option<i64>,
    /// Time of the last update of any field (ms).
    pub t_last_update: u64,
}

/// The mathematical shape of a record: as [`Aircraft`], with the callsign
/// as a byte sequence and the transponder code as its raw value.
pub struct AircraftV {
    pub id: u32,
    pub state: State,
    pub callsign: Option<Seq<u8>>,
    pub lat_lon: Option<(LatLon, u64)>,
    pub estimated_lat_lon: Option<(LatLon, u64)>,
    pub track: Option<i64>,
    pub altitude: Option<u32>,
    pub ground_speed: Option<i64>,
    pub t_last_update: u64,
}

impl View for Aircraft {
    type V = AircraftV;

    open spec fn view(&self) -> AircraftV {
        AircraftV {
            id: self.id@,
            state: self.state,
            callsign: match self.callsign {
                Some(ref c) => Some(c@),
                None => None,
            },
            lat_lon: self.lat_lon,
            estimated_lat_lon: self.estimated_lat_lon,
            track: self.track,
            altitude: self.altitude,
            ground_speed: self.ground_speed,
            t_last_update: self.t_last_update,
        }
    }
}

impl AircraftV {
    /// A record is well formed when an estimated position exists only
    /// after a position, track and ground speed have all been observed:
    /// estimation starts from those and nothing ever clears them.
    pub open spec fn wf(&self) -> bool {
        self.estimated_lat_lon is Some ==> (self.lat_lon is Some && self.track is Some
            && self.ground_speed is Some)
    }

    /// Does the record have what the map display needs: a position and a
    /// track?
    pub open spec fn displayable(&self) -> bool {
        self.lat_lon is Some && self.track is Some
    }
}

/// A record as first created: all observations empty, both timestamps
/// "now".
pub open spec fn fresh_aircraft(id: u32, now: u64) -> AircraftV {
    AircraftV {
        id,
        state: State::Normal,
        callsign: None,
        lat_lon: None,
        estimated_lat_lon: None,
        track: None,
        altitude: None,
        ground_speed: None,
        t_last_update: now,
    }
}

/// How one report merges into one record; yields the new record and
/// whether the report was rejected by the out-of-order filter.
///
/// An airborne position that carries a fix is rejected — the whole report,
/// with no field touched, the staleness timestamp included — exactly when
/// the filter is on, the record already has a position, track and
/// altitude, and the motion-consistency check found the fix behind the
/// aircraft. An accepted fix is stored with its time, and restarts any
/// existing estimate from that ground truth. Every other report kind is
/// merged unconditionally: identification overwrites the callsign,
/// velocity overwrites ground speed and track, surveillance altitude
/// overwrites the altitude. A field is updated only when the report
/// carries it; nothing is ever cleared.
pub open spec fn spec_apply_report(
    a: AircraftV,
    msg: Sbs1MessageV,
    now: u64,
    filter_enabled: bool,
    moved_backwards: bool,
) -> (AircraftV, bool) {
    match msg {
        Sbs1MessageV::EsIdentificationAndCategory { callsign, .. } => {
            (AircraftV { callsign: Some(callsign), t_last_update: now, ..a }, false)
        },
        Sbs1MessageV::EsAirbornePosition { altitude, lat_lon, .. } => {
            match lat_lon {
                Some(pos) => {
                    if filter_enabled && a.lat_lon is Some && a.track is Some && a.altitude is Some
                        && moved_backwards {
                        (a, true)
                    } else {
                        let with_fix = AircraftV {
                            lat_lon: Some((pos, now)),
                            estimated_lat_lon: if a.estimated_lat_lon is Some {
                                Some((pos, now))
                            } else {
                                None
                            },
                            ..a
                        };
                        (
                            AircraftV {
                                altitude: if altitude is Some {
                                    altitude
                                } else {
                                    a.altitude
                                },
                                t_last_update: now,
                                ..with_fix
                            },
                            false,
                        )
                    }
                },
                None => {
                    (
                        AircraftV {
                            altitude: if altitude is Some {
                                altitude
                            } else {
                                a.altitude
                            },
                            t_last_update: now,
                            ..a
                        },
                        false,
                    )
                },
            }
        },
        Sbs1MessageV::EsAirborneVelocity { ground_speed, track, .. } => {
            (
                AircraftV {
                    ground_speed: Some(ground_speed),
                    track: Some(track),
                    t_last_update: now,
                    ..a
                },
                false,
            )
        },
        Sbs1MessageV::SurveillanceAltitude { altitude, .. } => {
            (AircraftV { altitude: Some(altitude), t_last_update: now, ..a }, false)
        },
    }
}

/// Merging preserves record well-formedness.
pub proof fn lemma_apply_report_wf(
    a: AircraftV,
    msg: Sbs1MessageV,
    now: u64,
    filter_enabled: bool,
    moved_backwards: bool,
)
    requires
        a.wf(),
    ensures
        spec_apply_report(a, msg, now, filter_enabled, moved_backwards).0.wf(),
        spec_apply_report(a, msg, now, filter_enabled, moved_backwards).0.id == a.id,
        spec_apply_report(a, msg, now, filter_enabled, moved_backwards).0.state == a.state,
{
}

impl Aircraft {
    /// A record as first created for `id`.
    pub fn new(id: ModeSTransponderCode, now: u64) -> (r: Aircraft)
        ensures
            r@ == fresh_aircraft(id@, now),
    {
        let r = Aircraft {
            id,
            state: State::Normal,
            callsign: None,
            lat_lon: None,
            estimated_lat_lon: None,
            track: None,
            altitude: None,
            ground_speed: None,
            t_last_update: now,
        };
        proof {
            assert(r@ =~= fresh_aircraft(id@, now));
        }
        r
    }

    /// The estimated position, if one has been computed.
    pub fn estimated_lat_lon(&self) -> (r: Option<LatLon>)
        ensures
            r == match self@.estimated_lat_lon {
                Some(e) => Some(e.0),
                None => None::<LatLon>,
            },
    {
        match &self.estimated_lat_lon {
            Some(e) => Some(e.0),
            None => None,
        }
    }

    /// Merges one report into this record, as [`spec_apply_report`] says;
    /// `moved_backwards` is the motion-consistency verdict on the report's
    /// fix (ignored unless the filter consults it).
    pub fn apply_report(
        &mut self,
        msg: &Sbs1Message,
        now: u64,
        filter_enabled: bool,
        moved_backwards: bool,
    ) -> (rejected: bool)
        ensures
            (final(self)@, rejected) == spec_apply_report(
                old(self)@,
                msg@,
                now,
                filter_enabled,
                moved_backwards,
            ),
    {
        match msg {
            Sbs1Message::EsIdentificationAndCategory { callsign, .. } => {
                self.callsign = Some(callsign.clone());
                self.t_last_update = now;
                proof {
                    assert(self@ =~= spec_apply_report(
                        old(self)@,
                        msg@,
                        now,
                        filter_enabled,
                        moved_backwards,
                    ).0);
                }
                false
            },
            Sbs1Message::EsAirbornePosition { altitude, lat_lon, .. } => {
                if let Some(pos) = lat_lon {
                    if filter_enabled && self.lat_lon.is_some() && self.track.is_some()
                        && self.altitude.is_some() && moved_backwards {
                        return true;
                    }
                    self.lat_lon = Some((*pos, now));
                    if self.estimated_lat_lon.is_some() {
                        self.estimated_lat_lon = Some((*pos, now));
                    }
                }
                if let Some(alt) = altitude {
                    self.altitude = Some(*alt);
                }
                self.t_last_update = now;
                proof {
                    assert(self@ =~= spec_apply_report(
                        old(self)@,
                        msg@,
                        now,
                        filter_enabled,
                        moved_backwards,
                    ).0);
                }
                false
            },
            Sbs1Message::EsAirborneVelocity { ground_speed, track, .. } => {
                self.ground_speed = Some(*ground_speed);
                self.track = Some(*track);
                self.t_last_update = now;
                proof {
                    assert(self@ =~= spec_apply_report(
                        old(self)@,
                        msg@,
                        now,
                        filter_enabled,
                        moved_backwards,
                    ).0);
                }
                false
            },
            Sbs1Message::SurveillanceAltitude { altitude, .. } => {
                self.altitude = Some(*altitude);
                self.t_last_update = now;
                proof {
                    assert(self@ =~= spec_apply_report(
                        old(self)@,
                        msg@,
                        now,
                        filter_enabled,
                        moved_backwards,
                    ).0);
                }
                false
            },
        }
    }

    /// What the dead-reckoning step needs for this record, if it can run:
    /// the position to advance from (the current estimate when one exists,
    /// else the last observed fix), the track, the ground speed, and the
    /// time elapsed since that position's own timestamp. `None` when track
    /// or ground speed was never observed, or no position exists at all.
    pub fn interpolation_request(&self, now: u64) -> (r: Option<EstimateRequest>)
        ensures
            r == spec_interpolation_request(self@, now),
    {
        let (track, ground_speed) = match (self.track, self.ground_speed) {
            (Some(t), Some(g)) => (t, g),
            _ => {
                return None;
            },
        };
        match &self.estimated_lat_lon {
            Some(e) => Some(
                EstimateRequest {
                    start: e.0,
                    track,
                    ground_speed,
                    elapsed_ms: elapsed_ms(now, e.1),
                },
            ),
            None => match &self.lat_lon {
                Some(o) => Some(
                    EstimateRequest {
                        start: o.0,
                        track,
                        ground_speed,
                        elapsed_ms: elapsed_ms(now, o.1),
                    },
                ),
                None => None,
            },
        }
    }

    /// Stores a freshly computed dead-reckoned position with its time.
    pub fn update_interpolated_position(&mut self, estimate: LatLon, now: u64)
        requires
            (old(self)@.lat_lon is Some),
            (old(self)@.track is Some),
            (old(self)@.ground_speed is Some),
        ensures
            final(self)@ == (AircraftV { estimated_lat_lon: Some((estimate, now)), ..old(self)@ }),
            final(self)@.wf(),
    {
        self.estimated_lat_lon = Some((estimate, now));
        proof {
            assert(self@ =~= AircraftV { estimated_lat_lon: Some((estimate, now)), ..old(self)@ });
        }
    }
}

/// What the motion-consistency check reads from a record, when the
/// out-of-order filter can judge a new fix at all: the reference position
/// (the interpolated one when it exists, else the last observed one) and
/// the last known track. `None` while position, track or altitude was
/// never observed — then no fix is ever rejected.
pub open spec fn spec_ooo_reference(a: AircraftV) -> Option<(LatLon, i64)> {
    match (a.lat_lon, a.track, a.altitude) {
        (Some(observed), Some(track), Some(_altitude)) => {
            let pos = match a.estimated_lat_lon {
                Some(e) => e.0,
                None => observed.0,
            };
            Some((pos, track))
        },
        _ => None,
    }
}

impl Aircraft {
    /// See [`spec_ooo_reference`]: the reference position and track the
    /// caller's geometry judges a candidate fix against.
    pub fn ooo_reference(&self) -> (r: Option<(LatLon, i64)>)
        ensures
            r == spec_ooo_reference(self@),
    {
        match (&self.lat_lon, self.track, self.altitude) {
            (Some(observed), Some(track), Some(_altitude)) => {
                let pos = match &self.estimated_lat_lon {
                    Some(e) => e.0,
                    None => observed.0,
                };
                Some((pos, track))
            },
            _ => None,
        }
    }
}

/// One dead-reckoning step to perform outside the store: advance `start`
/// along `track` at `ground_speed` for `elapsed_ms`.
#[derive(Clone, Copy, Debug, PartialEq, Eq, Structural)]
pub struct EstimateRequest {
    /// Position to advance from, microdegrees.
    pub start: LatLon,
    /// Track in microdegrees.
    pub track: i64,
    /// Ground speed in microknots.
    pub ground_speed: i64,
    /// Milliseconds since `start` was observed or estimated.
    pub elapsed_ms: u64,
}

/// See [`Aircraft::interpolation_request`].
pub open spec fn spec_interpolation_request(a: AircraftV, now: u64) -> Option<EstimateRequest> {
    match (a.track, a.ground_speed) {
        (Some(track), Some(ground_speed)) => match a.estimated_lat_lon {
            Some(e) => Some(
                EstimateRequest {
                    start: e.0,
                    track,
                    ground_speed,
                    elapsed_ms: spec_elapsed_ms(now, e.1),
                },
            ),
            None => match a.lat_lon {
                Some(o) => Some(
                    EstimateRequest {
                        start: o.0,
                        track,
                        ground_speed,
                        elapsed_ms: spec_elapsed_ms(now, o.1),
                    },
                ),
                None => None,
            },
        },
        _ => None,
    }
}

} // verus!
