use cgmath::{Basis3, Deg, EuclideanSpace, InnerSpace, Point3, Rad, Rotation, Rotation3, Vector3};
use plane_tracker::{LatLon, ModeSTransponderCode, ProgramData, Sbs1Message, State};

fn code(s: &[u8]) -> ModeSTransponderCode {
    ModeSTransponderCode::from_hex(s).unwrap()
}

fn micro_to_deg(v: i64) -> f64 {
    v as f64 / 1e6
}

fn to_xyz_unit(p: &LatLon) -> Point3<f64> {
    let lat = Rad::from(Deg(micro_to_deg(p.lat))).0;
    let lon = Rad::from(Deg(micro_to_deg(p.lon))).0;
    Point3 {
        x: lon.cos() * lat.cos(),
        y: lon.sin() * lat.cos(),
        z: lat.sin(),
    }
}

/// The motion-consistency verdict, as the surrounding application computes
/// it from the store's reference position and track: is the candidate fix
/// behind the aircraft relative to its last known heading?
fn moved_backwards(reference: &LatLon, track_micro_deg: i64, candidate: &LatLon) -> bool {
    let old_xyz = to_xyz_unit(reference);
    let new_xyz = to_xyz_unit(candidate);
    let r = old_xyz.to_vec();
    let north_pole = Vector3 {
        x: 0.0,
        y: 0.0,
        z: 1.0,
    };
    let s = north_pole.cross(r);
    let to_north = r.cross(s).normalize();
    let rot = Basis3::from_axis_angle(r, -Deg(micro_to_deg(track_micro_deg)));
    let travel_dir = rot.rotate_vector(to_north);
    (new_xyz - old_xyz).dot(travel_dir) < 0.0
}

fn position_msg(id: ModeSTransponderCode, altitude: Option<u32>, lat_lon: Option<LatLon>) -> Sbs1Message {
    Sbs1Message::EsAirbornePosition {
        id,
        altitude,
        lat_lon,
    }
}

/// Feeds one message, computing the out-of-order verdict from the store's
/// reference data as the application would.
fn feed(store: &mut ProgramData, msg: &Sbs1Message, now: u64, filter_enabled: bool) -> plane_tracker::UpdateOutcome {
    let backwards = match msg {
        Sbs1Message::EsAirbornePosition {
            id,
            lat_lon: Some(candidate),
            ..
        } => match store.ooo_reference(id) {
            Some((reference, track)) => moved_backwards(&reference, track, candidate),
            None => false,
        },
        _ => false,
    };
    store.update(msg, now, filter_enabled, backwards)
}

#[test]
fn fresh_record_position_always_sets_position_and_altitude() {
    let mut store = ProgramData::new(0);
    let id = code(b"ABC001");
    let pos = LatLon {
        lat: 51_000_000,
        lon: -500_000,
    };
    // The filter is enabled and the verdict deliberately hostile: with no
    // prior position the filter must not trigger.
    let outcome = store.update(&position_msg(id, Some(5000), Some(pos)), 100, true, true);
    assert!(!outcome.rejected);
    assert!(outcome.has_position_and_altitude);
    let rec = store.find_aircraft(&id).expect("record created");
    assert_eq!(rec.lat_lon, Some((pos, 100)));
    assert_eq!(rec.altitude, Some(5000));
    assert_eq!(rec.estimated_lat_lon, None);
    assert_eq!(rec.t_last_update, 100);
}

#[test]
fn backward_fix_rejected_with_filter_accepted_without() {
    let id = code(b"ABC002");
    let pos1 = LatLon {
        lat: 51_000_000,
        lon: -500_000,
    };
    // Track 90 degrees: due east. A fix due west is directly behind.
    let behind = LatLon {
        lat: 51_000_000,
        lon: -600_000,
    };
    let ahead = LatLon {
        lat: 51_000_000,
        lon: -400_000,
    };
    assert!(moved_backwards(&pos1, 90_000_000, &behind));
    assert!(!moved_backwards(&pos1, 90_000_000, &ahead));

    // Filter enabled: the backward fix is discarded whole.
    let mut store = ProgramData::new(0);
    feed(&mut store, &position_msg(id, Some(5000), Some(pos1)), 100, true);
    feed(
        &mut store,
        &Sbs1Message::EsAirborneVelocity {
            id,
            ground_speed: 450_000_000,
            track: 90_000_000,
        },
        200,
        true,
    );
    let outcome = feed(&mut store, &position_msg(id, Some(6000), Some(behind)), 300, true);
    assert!(outcome.rejected);
    let rec = store.find_aircraft(&id).unwrap();
    assert_eq!(rec.lat_lon, Some((pos1, 100)));
    assert_eq!(rec.altitude, Some(5000));
    assert_eq!(rec.t_last_update, 200);

    // Filter disabled: the same fix is stored.
    let mut store = ProgramData::new(0);
    feed(&mut store, &position_msg(id, Some(5000), Some(pos1)), 100, false);
    feed(
        &mut store,
        &Sbs1Message::EsAirborneVelocity {
            id,
            ground_speed: 450_000_000,
            track: 90_000_000,
        },
        200,
        false,
    );
    let outcome = feed(&mut store, &position_msg(id, Some(6000), Some(behind)), 300, false);
    assert!(!outcome.rejected);
    let rec = store.find_aircraft(&id).unwrap();
    assert_eq!(rec.lat_lon, Some((behind, 300)));
    assert_eq!(rec.altitude, Some(6000));

    // Filter enabled but the fix lies ahead: accepted.
    let mut store = ProgramData::new(0);
    feed(&mut store, &position_msg(id, Some(5000), Some(pos1)), 100, true);
    feed(
        &mut store,
        &Sbs1Message::EsAirborneVelocity {
            id,
            ground_speed: 450_000_000,
            track: 90_000_000,
        },
        200,
        true,
    );
    let outcome = feed(&mut store, &position_msg(id, Some(6000), Some(ahead)), 300, true);
    assert!(!outcome.rejected);
    let rec = store.find_aircraft(&id).unwrap();
    assert_eq!(rec.lat_lon, Some((ahead, 300)));
}

#[test]
fn position_report_without_altitude_keeps_the_known_altitude() {
    let mut store = ProgramData::new(0);
    let id = code(b"ABC00C");
    let pos1 = LatLon {
        lat: 51_000_000,
        lon: 0,
    };
    let pos2 = LatLon {
        lat: 51_100_000,
        lon: 0,
    };
    store.update(&position_msg(id, Some(5000), Some(pos1)), 100, true, false);
    store.update(&position_msg(id, None, Some(pos2)), 200, true, false);
    let rec = store.find_aircraft(&id).unwrap();
    assert_eq!(rec.altitude, Some(5000));
    assert_eq!(rec.lat_lon, Some((pos2, 200)));
}

#[test]
fn garbage_collection_evicts_exactly_the_stale() {
    let mut store = ProgramData::new(0);
    let fresh = code(b"ABC003");
    let stale = code(b"ABC004");
    let pos = LatLon {
        lat: 51_000_000,
        lon: 0,
    };
    store.update(&position_msg(stale, None, Some(pos)), 1_000, true, false);
    store.update(&position_msg(fresh, None, Some(pos)), 30_000, true, false);
    // 61 s after the stale record's last update: over the 60 s limit for
    // it, within the limit for the fresh one.
    store.garbage_collect(62_000);
    assert!(store.find_aircraft(&stale).is_none());
    assert!(store.find_aircraft(&fresh).is_some());
    assert_eq!(store.aircraft_count(), 1);
}

#[test]
fn garbage_collection_keeps_a_record_exactly_sixty_seconds_old() {
    let mut store = ProgramData::new(0);
    let id = code(b"ABC005");
    let pos = LatLon {
        lat: 51_000_000,
        lon: 0,
    };
    store.update(&position_msg(id, None, Some(pos)), 0, true, false);
    store.garbage_collect(60_000);
    assert!(store.find_aircraft(&id).is_some());
}

#[test]
fn garbage_collection_throttles_to_its_interval() {
    let mut store = ProgramData::new(0);
    let id = code(b"ABC006");
    let pos = LatLon {
        lat: 51_000_000,
        lon: 0,
    };
    store.update(&position_msg(id, None, Some(pos)), 0, true, false);
    // Collection runs and keeps the record (55 s old).
    store.garbage_collect(55_000);
    assert!(store.find_aircraft(&id).is_some());
    // The record is now 62 s old, but only 7 s have passed since the last
    // collection: throttled, nothing removed.
    store.garbage_collect(62_000);
    assert!(store.find_aircraft(&id).is_some());
    // Once the interval has passed, the stale record goes.
    store.garbage_collect(65_000);
    assert!(store.find_aircraft(&id).is_none());
}

#[test]
fn selection_is_exclusive_and_unknown_codes_are_no_ops() {
    let mut store = ProgramData::new(0);
    let a = code(b"ABC007");
    let b = code(b"ABC008");
    let pos = LatLon {
        lat: 51_000_000,
        lon: 0,
    };
    store.update(&position_msg(a, None, Some(pos)), 0, true, false);
    store.update(&position_msg(b, None, Some(pos)), 0, true, false);

    assert!(store.select(&a));
    assert_eq!(store.find_aircraft(&a).unwrap().state, State::Selected);
    assert_eq!(store.find_aircraft(&b).unwrap().state, State::Normal);

    assert!(store.select(&b));
    assert_eq!(store.find_aircraft(&a).unwrap().state, State::Normal);
    assert_eq!(store.find_aircraft(&b).unwrap().state, State::Selected);

    assert!(!store.select(&code(b"ABC009")));
    assert_eq!(store.find_aircraft(&a).unwrap().state, State::Normal);
    assert_eq!(store.find_aircraft(&b).unwrap().state, State::Selected);
}

#[test]
fn running_maxima_and_outcome_flags() {
    let mut store = ProgramData::new(0);
    let a = code(b"ABC00A");
    let pos = LatLon {
        lat: 51_000_000,
        lon: 0,
    };
    // A record becomes displayable only once position and track are known.
    let outcome = store.update(&position_msg(a, Some(5000), Some(pos)), 0, true, false);
    assert_eq!(outcome.num_displayed, 0);
    assert_eq!(store.max_num_aircraft(), 0);
    let outcome = store.update(
        &Sbs1Message::EsAirborneVelocity {
            id: a,
            ground_speed: 400_000_000,
            track: 90_000_000,
        },
        100,
        true,
        false,
    );
    assert_eq!(outcome.num_displayed, 1);
    assert_eq!(store.max_num_aircraft(), 1);

    // The distance maximum only ever grows.
    assert_eq!(store.max_distance_mm(), None);
    store.note_distance(1_000_000);
    store.note_distance(500_000);
    assert_eq!(store.max_distance_mm(), Some(1_000_000));
    store.note_distance(2_000_000);
    assert_eq!(store.max_distance_mm(), Some(2_000_000));

    // Telemetry is re-emitted only for the selected record, and only for
    // reports that change what the feed carries.
    store.select(&a);
    let outcome = store.update(
        &Sbs1Message::SurveillanceAltitude {
            id: a,
            altitude: 9000,
        },
        200,
        true,
        false,
    );
    assert!(outcome.should_send);
    let outcome = store.update(
        &Sbs1Message::EsIdentificationAndCategory {
            id: a,
            callsign: b"BAW123".to_vec(),
        },
        300,
        true,
        false,
    );
    assert!(!outcome.should_send);
    assert_eq!(
        store.find_aircraft(&a).unwrap().callsign,
        Some(b"BAW123".to_vec())
    );

    // Clearing forgets the records and the count maximum, not the distance.
    store.clear();
    assert_eq!(store.aircraft_count(), 0);
    assert_eq!(store.max_num_aircraft(), 0);
    assert_eq!(store.max_distance_mm(), Some(2_000_000));
}

#[test]
fn interpolation_seeds_from_the_fix_then_advances_its_own_estimate() {
    let mut store = ProgramData::new(0);
    let id = code(b"ABC00B");
    let pos = LatLon {
        lat: 51_000_000,
        lon: 0,
    };
    store.update(&position_msg(id, Some(5000), Some(pos)), 1_000, true, false);
    // No track or speed yet: nothing to estimate.
    assert_eq!(store.interpolation_request_at(0, 2_000), None);

    store.update(
        &Sbs1Message::EsAirborneVelocity {
            id,
            ground_speed: 400_000_000,
            track: 90_000_000,
        },
        1_500,
        true,
        false,
    );
    // First step seeds from the observed fix and its own timestamp.
    let req = store.interpolation_request_at(0, 2_000).unwrap();
    assert_eq!(req.start, pos);
    assert_eq!(req.track, 90_000_000);
    assert_eq!(req.ground_speed, 400_000_000);
    assert_eq!(req.elapsed_ms, 1_000);

    let est1 = LatLon {
        lat: 51_000_000,
        lon: 1_600,
    };
    store.update_interpolated_position_at(0, est1, 2_000);
    assert_eq!(
        store.aircraft_at(0).estimated_lat_lon,
        Some((est1, 2_000))
    );

    // The next step advances from the estimate, not the old fix.
    let req = store.interpolation_request_at(0, 2_250).unwrap();
    assert_eq!(req.start, est1);
    assert_eq!(req.elapsed_ms, 250);

    // A new accepted fix restarts the estimate from ground truth.
    let pos2 = LatLon {
        lat: 51_000_000,
        lon: 5_000,
    };
    store.update(&position_msg(id, Some(5000), Some(pos2)), 3_000, false, false);
    assert_eq!(
        store.aircraft_at(0).estimated_lat_lon,
        Some((pos2, 3_000))
    );
}

#[test]
fn end_to_end_feed_with_backward_update_filtered() {
    // The wire lines arrive in order: identification, position, velocity,
    // then a position directly behind the first relative to the reported
    // track, with filtering enabled.
    let id = code(b"ABCDEF");
    let lines: [&[u8]; 4] = [
        b"MSG,1,111,11111,ABCDEF,111111,2024/01/02,10:00:00.000,2024/01/02,10:00:00.000,BAW123,,,,,,,,,,,0",
        b"MSG,3,111,11111,ABCDEF,111111,2024/01/02,10:00:01.000,2024/01/02,10:00:01.000,,5000,,,51.0,-0.5,,,,,,0",
        b"MSG,4,111,11111,ABCDEF,111111,2024/01/02,10:00:02.000,2024/01/02,10:00:02.000,,,450.5,90,,,,,,,,0",
        b"MSG,3,111,11111,ABCDEF,111111,2024/01/02,10:00:03.000,2024/01/02,10:00:03.000,,6000,,,51.0,-0.6,,,,,,0",
    ];
    let mut store = ProgramData::new(0);
    let mut now = 0;
    for line in lines {
        now += 1_000;
        match plane_tracker::parse_sbs_message(line) {
            Ok(Some(msg)) => {
                feed(&mut store, &msg, now, true);
            }
            Ok(None) => panic!("line unexpectedly skipped"),
            Err(e) => panic!("line unexpectedly failed to parse: {:?}", e),
        }
    }
    let rec = store.find_aircraft(&id).expect("record tracked");
    assert_eq!(rec.callsign, Some(b"BAW123".to_vec()));
    assert_eq!(
        rec.lat_lon,
        Some((
            LatLon {
                lat: 51_000_000,
                lon: -500_000
            },
            2_000
        ))
    );
    assert_eq!(rec.altitude, Some(5000));
    assert_eq!(rec.ground_speed, Some(450_500_000));
    assert_eq!(rec.track, Some(90_000_000));
    assert_eq!(rec.t_last_update, 3_000);
}
