//! The library's general guarantees, stated and proved as theorems over
//! the record and store specifications.

use vstd::prelude::*;

use crate::aircraft::fresh_aircraft;
use crate::aircraft::spec_apply_report;
use crate::aircraft::AircraftV;
use crate::messages::LatLon;
use crate::messages::Sbs1MessageV;
use crate::store::gc_keep;
use crate::store::spec_garbage_collect;
use crate::store::ProgramDataV;
use crate::store::GC_INTERVAL_MS;
use crate::time::spec_elapsed_ms;

verus! {

/// Law: an airborne position report merged into a freshly created record
/// always stores the fix and the reported altitude, and is never rejected,
/// for any filter setting and any motion-consistency outcome: with no
/// prior position the out-of-order filter cannot fire.
pub proof fn lemma_fresh_record_position_applies(
    id: u32,
    created: u64,
    altitude: Option<u32>,
    pos: LatLon,
    now: u64,
    filter_enabled: bool,
    moved_backwards: bool,
)
    ensures
        ({
            let msg = Sbs1MessageV::EsAirbornePosition { id, altitude, lat_lon: Some(pos) };
            let (rec, rejected) = spec_apply_report(
                fresh_aircraft(id, created),
                msg,
                now,
                filter_enabled,
                moved_backwards,
            );
            &&& !rejected
            &&& rec.lat_lon == Some((pos, now))
            &&& rec.altitude == altitude
            &&& rec.estimated_lat_lon is None
        }),
{
}

/// Law: for a record with an established position, track and altitude, a
/// position fix judged behind the aircraft is rejected whole — no field,
/// not even the staleness timestamp, changes — exactly when the filter is
/// enabled; with the filter disabled the same fix is stored, and a fix not
/// judged backward is stored even with the filter enabled.
pub proof fn lemma_backward_fix_filtered(
    a: AircraftV,
    id: u32,
    altitude: Option<u32>,
    pos: LatLon,
    now: u64,
)
    requires
        (a.lat_lon is Some),
        (a.track is Some),
        (a.altitude is Some),
    ensures
        ({
            let msg = Sbs1MessageV::EsAirbornePosition { id, altitude, lat_lon: Some(pos) };
            &&& spec_apply_report(a, msg, now, true, true) == (a, true)
            &&& ({
                let (rec, rejected) = spec_apply_report(a, msg, now, false, true);
                !rejected && rec.lat_lon == Some((pos, now))
            })
            &&& ({
                let (rec, rejected) = spec_apply_report(a, msg, now, true, false);
                !rejected && rec.lat_lon == Some((pos, now))
            })
        }),
{
}

/// Law: an observation, once made, is never cleared by any later report:
/// merging can only overwrite a field or leave it as it was. In
/// particular a position report that carries no altitude leaves a known
/// altitude in place.
pub proof fn lemma_observations_never_cleared(
    a: AircraftV,
    msg: Sbs1MessageV,
    now: u64,
    filter_enabled: bool,
    moved_backwards: bool,
)
    ensures
        ({
            let (rec, _) = spec_apply_report(a, msg, now, filter_enabled, moved_backwards);
            &&& (a.callsign is Some ==> rec.callsign is Some)
            &&& (a.lat_lon is Some ==> rec.lat_lon is Some)
            &&& (a.estimated_lat_lon is Some ==> rec.estimated_lat_lon is Some)
            &&& (a.track is Some ==> rec.track is Some)
            &&& (a.altitude is Some ==> rec.altitude is Some)
            &&& (a.ground_speed is Some ==> rec.ground_speed is Some)
        }),
{
}

/// Law: when garbage collection runs (at least 10 s after the previous
/// run), a record is kept exactly when no more than 60 s have passed since
/// its last update — it is removed exactly when more have.
pub proof fn lemma_gc_evicts_exactly_the_stale(d: ProgramDataV, now: u64, i: int)
    requires
        spec_elapsed_ms(now, d.t_last_gc) >= GC_INTERVAL_MS,
        0 <= i < d.aircraft.len(),
    ensures
        spec_garbage_collect(d, now).aircraft.contains(d.aircraft[i]) <==> gc_keep(
            d.aircraft[i],
            now,
        ),
{
    broadcast use vstd::seq_lib::group_filter_ensures;

    let kept = spec_garbage_collect(d, now).aircraft;
    if kept.contains(d.aircraft[i]) {
        let j = choose|j: int| 0 <= j < kept.len() && kept[j] == d.aircraft[i];
        assert(gc_keep(kept[j], now));
    }
}

/// Law: a second collection within the 10-second window of the previous
/// one changes nothing, so a record updated within that window is never
/// removed by repeated calls inside it.
pub proof fn lemma_gc_throttled(d: ProgramDataV, now: u64)
    requires
        spec_elapsed_ms(now, d.t_last_gc) < GC_INTERVAL_MS,
    ensures
        spec_garbage_collect(d, now) == d,
{
}

/// Law: collection is idempotent — running it twice at the same instant
/// leaves exactly what one run leaves.
pub proof fn lemma_gc_idempotent(d: ProgramDataV, now: u64)
    ensures
        spec_garbage_collect(spec_garbage_collect(d, now), now) == spec_garbage_collect(d, now),
{
}

} // verus!
