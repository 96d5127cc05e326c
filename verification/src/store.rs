//! The aircraft state store: a mapping from transponder code to record,
//! with the merge rules, the out-of-order rejection, periodic garbage
//! collection, selection, and the running maxima the display reads.

use vstd::prelude::*;

use crate::aircraft::fresh_aircraft;
use crate::aircraft::lemma_apply_report_wf;
use crate::aircraft::spec_apply_report;
use crate::aircraft::spec_interpolation_request;
use crate::aircraft::Aircraft;
use crate::aircraft::AircraftV;
use crate::aircraft::EstimateRequest;
use crate::aircraft::State;
use crate::messages::LatLon;
use crate::messages::Sbs1Message;
use crate::messages::Sbs1MessageV;
use crate::time::elapsed_ms;
use crate::time::spec_elapsed_ms;
use crate::transponder::ModeSTransponderCode;

verus! {

/// Garbage collection runs at most once per this interval (ms).
pub const GC_INTERVAL_MS: u64 = 10000;

/// A record is evicted once this long (ms) has passed since its last
/// update.
pub const MAX_MS_WITHOUT_UPDATE: u64 = 60000;

/// The mathematical shape of the store.
pub struct ProgramDataV {
    /// The tracked records, in order of first sighting.
    pub aircraft: Seq<AircraftV>,
    /// When garbage collection last ran (ms).
    pub t_last_gc: u64,
    /// Largest non-interpolated distance ever observed (mm), as reported
    /// by the caller's geometry.
    pub max_distance_mm: Option<u64>,
    /// Largest simultaneous count of displayable records ever seen.
    pub max_num_aircraft: nat,
}

/// Index of the first record keyed by `id`, or `-1` when none is.
pub open spec fn index_of_id(s: Seq<AircraftV>, id: u32) -> int
    decreases s.len(),
{
    if s.len() == 0 {
        -1
    } else if s[0].id == id {
        0
    } else {
        let r = index_of_id(s.skip(1), id);
        if r < 0 {
            -1
        } else {
            1 + r
        }
    }
}

pub proof fn lemma_index_of_id(s: Seq<AircraftV>, id: u32)
    ensures
        -1 <= index_of_id(s, id) < s.len(),
        index_of_id(s, id) >= 0 ==> s[index_of_id(s, id)].id == id,
        forall|j: int| 0 <= j < index_of_id(s, id) ==> s[j].id != id,
        index_of_id(s, id) == -1 ==> forall|j: int| 0 <= j < s.len() ==> s[j].id != id,
    decreases s.len(),
{
    if s.len() > 0 && s[0].id != id {
        lemma_index_of_id(s.skip(1), id);
        let r = index_of_id(s.skip(1), id);
        assert(forall|j: int| 1 <= j < s.len() ==> s[j] == s.skip(1)[j - 1]);
    }
}

/// Does the record sequence hold each code at most once?
pub open spec fn unique_ids(s: Seq<AircraftV>) -> bool {
    forall|i: int, j: int| 0 <= i < j < s.len() ==> s[i].id != s[j].id
}

/// Is at most one record selected?
pub open spec fn at_most_one_selected(s: Seq<AircraftV>) -> bool {
    forall|i: int, j: int|
        0 <= i < j < s.len() ==> !(s[i].state == State::Selected && s[j].state == State::Selected)
}

impl ProgramDataV {
    /// Store well-formedness: every record well formed, every code held
    /// at most once, at most one record selected.
    pub open spec fn wf(&self) -> bool {
        &&& forall|i: int| 0 <= i < self.aircraft.len() ==> (#[trigger] self.aircraft[i]).wf()
        &&& unique_ids(self.aircraft)
        &&& at_most_one_selected(self.aircraft)
    }
}

/// How many records the map can display: those with both a position and a
/// track.
pub open spec fn displayed_count(s: Seq<AircraftV>) -> nat
    decreases s.len(),
{
    if s.len() == 0 {
        0
    } else {
        displayed_count(s.drop_last()) + if s.last().displayable() {
            1nat
        } else {
            0nat
        }
    }
}

/// Does a report of this kind change what the outbound feed reports
/// (position, velocity or altitude, as opposed to identification)?
pub open spec fn important_data_changed(msg: Sbs1MessageV) -> bool {
    !(msg is EsIdentificationAndCategory)
}

/// The record the report lands in: the existing one keyed by the report's
/// code, or a fresh one.
pub open spec fn spec_prior_record(s: Seq<AircraftV>, msg: Sbs1MessageV, now: u64) -> AircraftV {
    let idx = index_of_id(s, msg.id());
    if idx >= 0 {
        s[idx]
    } else {
        fresh_aircraft(msg.id(), now)
    }
}

/// The record after the report is merged (unchanged when rejected).
pub open spec fn spec_updated_record(
    s: Seq<AircraftV>,
    msg: Sbs1MessageV,
    now: u64,
    filter_enabled: bool,
    moved_backwards: bool,
) -> AircraftV {
    spec_apply_report(
        spec_prior_record(s, msg, now),
        msg,
        now,
        filter_enabled,
        moved_backwards,
    ).0
}

/// Is the report rejected by the out-of-order filter?
pub open spec fn spec_update_rejected(
    s: Seq<AircraftV>,
    msg: Sbs1MessageV,
    now: u64,
    filter_enabled: bool,
    moved_backwards: bool,
) -> bool {
    spec_apply_report(
        spec_prior_record(s, msg, now),
        msg,
        now,
        filter_enabled,
        moved_backwards,
    ).1
}

/// What applying one report does to the store. A rejected report leaves
/// the store untouched. Otherwise the report's record is merged in place
/// (or appended, on first sighting), and the running maximum of the
/// displayable-record count is refreshed.
pub open spec fn spec_update(
    d: ProgramDataV,
    msg: Sbs1MessageV,
    now: u64,
    filter_enabled: bool,
    moved_backwards: bool,
) -> ProgramDataV {
    let idx = index_of_id(d.aircraft, msg.id());
    let rec = spec_updated_record(d.aircraft, msg, now, filter_enabled, moved_backwards);
    if spec_update_rejected(d.aircraft, msg, now, filter_enabled, moved_backwards) {
        d
    } else {
        let s2 = if idx >= 0 {
            d.aircraft.update(idx, rec)
        } else {
            d.aircraft.push(rec)
        };
        let nd = displayed_count(s2);
        ProgramDataV {
            aircraft: s2,
            max_num_aircraft: if nd > d.max_num_aircraft {
                nd
            } else {
                d.max_num_aircraft
            },
            ..d
        }
    }
}

/// What one `update` call reports back to the caller, so the surrounding
/// application can do what the store itself cannot: compute the new
/// distance, and re-emit the selected record's telemetry.
#[derive(Clone, Copy, Debug, PartialEq, Eq, Structural)]
pub struct UpdateOutcome {
    /// The report was discarded whole by the out-of-order filter.
    pub rejected: bool,
    /// The record is selected and the report changed data the outbound
    /// feed carries: its telemetry should be re-emitted.
    pub should_send: bool,
    /// The record now has both a position and an altitude: a distance can
    /// be computed and handed to [`ProgramData::note_distance`].
    pub has_position_and_altitude: bool,
    /// How many records are displayable, after this report; zero for a
    /// rejected report, whose early return refreshes no display data.
    pub num_displayed: usize,
}

/// The aircraft state store.
pub struct ProgramData {
    aircraft: Vec<Aircraft>,
    t_last_gc: u64,
    max_distance_mm: Option<u64>,
    max_num_aircraft: usize,
}

impl View for ProgramData {
    type V = ProgramDataV;

    closed spec fn view(&self) -> ProgramDataV {
        ProgramDataV {
            aircraft: self.aircraft@.map_values(|a: Aircraft| a@),
            t_last_gc: self.t_last_gc,
            max_distance_mm: self.max_distance_mm,
            max_num_aircraft: self.max_num_aircraft as nat,
        }
    }
}

/// Gives mutable access to one record of a vector.
fn record_at_mut(v: &mut Vec<Aircraft>, i: usize) -> (rec: &mut Aircraft)
    requires
        i < old(v).len(),
    ensures
        *rec == old(v)@[i as int],
        final(v)@ == old(v)@.update(i as int, *final(rec)),
{
    &mut v[i]
}

impl ProgramData {
    /// An empty store; collection is timed from `now` (ms).
    pub fn new(now: u64) -> (r: ProgramData)
        ensures
            r@ == (ProgramDataV {
                aircraft: Seq::<AircraftV>::empty(),
                t_last_gc: now,
                max_distance_mm: None,
                max_num_aircraft: 0,
            }),
            r@.wf(),
    {
        let r = ProgramData {
            aircraft: Vec::new(),
            t_last_gc: now,
            max_distance_mm: None,
            max_num_aircraft: 0,
        };
        proof {
            assert(r@.aircraft =~= Seq::<AircraftV>::empty());
            assert(r@ =~~= (ProgramDataV {
                aircraft: Seq::<AircraftV>::empty(),
                t_last_gc: now,
                max_distance_mm: None,
                max_num_aircraft: 0,
            }));
        }
        r
    }

    /// How many records are tracked.
    pub fn aircraft_count(&self) -> (n: usize)
        ensures
            n == self@.aircraft.len(),
    {
        self.aircraft.len()
    }

    /// The record at position `i`, in order of first sighting.
    pub fn aircraft_at(&self, i: usize) -> (r: &Aircraft)
        requires
            i < self@.aircraft.len(),
        ensures
            r@ == self@.aircraft[i as int],
    {
        &self.aircraft[i]
    }

    /// The record keyed by `code`, if one is tracked.
    pub fn find_aircraft(&self, code: &ModeSTransponderCode) -> (r: Option<&Aircraft>)
        ensures
            index_of_id(self@.aircraft, code@) >= 0 ==> (r matches Some(a) && a@
                == self@.aircraft[index_of_id(self@.aircraft, code@)]),
            index_of_id(self@.aircraft, code@) < 0 ==> (r is None),
    {
        proof {
            lemma_index_of_id(self@.aircraft, code@);
        }
        let mut i: usize = 0;
        while i < self.aircraft.len()
            invariant
                0 <= i <= self@.aircraft.len(),
                forall|j: int| 0 <= j < i ==> self@.aircraft[j].id != code@,
            decreases self@.aircraft.len() - i,
        {
            if self.aircraft[i].id.value() == code.value() {
                proof {
                    lemma_index_of_id_found(self@.aircraft, code@, i as int);
                }
                return Some(&self.aircraft[i]);
            }
            i += 1;
        }
        None
    }

    /// What the motion-consistency check reads from the record keyed by
    /// `code`, when the out-of-order filter can judge a fix for it at all;
    /// see [`spec_ooo_reference`](crate::aircraft::spec_ooo_reference).
    pub fn ooo_reference(&self, code: &ModeSTransponderCode) -> (r: Option<(LatLon, i64)>)
        ensures
            index_of_id(self@.aircraft, code@) >= 0 ==> r == crate::aircraft::spec_ooo_reference(
                self@.aircraft[index_of_id(self@.aircraft, code@)],
            ),
            index_of_id(self@.aircraft, code@) < 0 ==> (r is None),
    {
        match self.find_aircraft(code) {
            Some(a) => a.ooo_reference(),
            None => None,
        }
    }

    /// Largest simultaneous displayable-record count ever seen.
    pub fn max_num_aircraft(&self) -> (n: usize)
        ensures
            n as nat == self@.max_num_aircraft,
    {
        self.max_num_aircraft
    }

    /// Largest observed distance ever noted (mm), if any.
    pub fn max_distance_mm(&self) -> (d: Option<u64>)
        ensures
            d == self@.max_distance_mm,
    {
        self.max_distance_mm
    }

    /// Notes a freshly computed observer-to-aircraft distance (mm) and
    /// keeps the running maximum.
    pub fn note_distance(&mut self, d_mm: u64)
        ensures
            final(self)@ == (ProgramDataV {
                max_distance_mm: Some(
                    match old(self)@.max_distance_mm {
                        Some(m) => if d_mm > m {
                            d_mm
                        } else {
                            m
                        },
                        None => d_mm,
                    },
                ),
                ..old(self)@
            }),
    {
        let cur: u64 = match self.max_distance_mm {
            Some(m) => m,
            None => 0,
        };
        let next: u64 = if d_mm > cur {
            d_mm
        } else {
            cur
        };
        self.max_distance_mm = Some(next);
        proof {
            assert(self@ =~~= (ProgramDataV {
                max_distance_mm: Some(
                    match old(self)@.max_distance_mm {
                        Some(m) => if d_mm > m {
                            d_mm
                        } else {
                            m
                        },
                        None => d_mm,
                    },
                ),
                ..old(self)@
            }));
        }
    }

    /// Applies one report, as [`spec_update`] says: looks up or creates
    /// the record, merges the report into it — unless the out-of-order
    /// filter, consulted through the caller-computed `moved_backwards`
    /// verdict, rejects it whole — and refreshes the displayable-count
    /// maximum. The outcome tells the caller what it owes the display and
    /// the outbound feed.
    pub fn update(
        &mut self,
        msg: &Sbs1Message,
        now: u64,
        filter_enabled: bool,
        moved_backwards: bool,
    ) -> (outcome: UpdateOutcome)
        requires
            old(self)@.wf(),
        ensures
            final(self)@ == spec_update(old(self)@, msg@, now, filter_enabled, moved_backwards),
            final(self)@.wf(),
            outcome.rejected == spec_update_rejected(
                old(self)@.aircraft,
                msg@,
                now,
                filter_enabled,
                moved_backwards,
            ),
            outcome.rejected ==> outcome == (UpdateOutcome {
                rejected: true,
                should_send: false,
                has_position_and_altitude: false,
                num_displayed: 0,
            }),
            !outcome.rejected ==> ({
                let rec = spec_updated_record(
                    old(self)@.aircraft,
                    msg@,
                    now,
                    filter_enabled,
                    moved_backwards,
                );
                &&& outcome.num_displayed as nat == displayed_count(final(self)@.aircraft)
                &&& outcome.should_send == (important_data_changed(msg@) && rec.state
                    == State::Selected)
                &&& outcome.has_position_and_altitude == (rec.lat_lon is Some
                    && rec.altitude is Some)
            }),
    {
        proof {
            lemma_index_of_id(self@.aircraft, msg@.id());
        }
        let id = msg.id();

        // Find the record, or append a fresh one.
        let mut idx: usize = 0;
        let n = self.aircraft.len();
        while idx < n && !(self.aircraft[idx].id.value() == id.value())
            invariant
                0 <= idx <= n,
                n == self@.aircraft.len(),
                forall|j: int| 0 <= j < idx ==> self@.aircraft[j].id != msg@.id(),
                id@ == msg@.id(),
            decreases n - idx,
        {
            idx += 1;
        }
        let ghost s0 = self@.aircraft;
        let ghost spec_idx = index_of_id(s0, msg@.id());
        let created = idx == n;
        if created {
            proof {
                assert(spec_idx == -1);
            }
            self.aircraft.push(Aircraft::new(id, now));
            proof {
                assert(self@.aircraft =~= s0.push(fresh_aircraft(msg@.id(), now)));
            }
        } else {
            proof {
                lemma_index_of_id_found(s0, msg@.id(), idx as int);
            }
        }

        // Merge the report into the record.
        let ghost s1 = self@.aircraft;
        let ghost prior = spec_prior_record(s0, msg@, now);
        let rec_ref = record_at_mut(&mut self.aircraft, idx);
        proof {
            assert(s1[idx as int] == prior);
        }
        let rejected = rec_ref.apply_report(msg, now, filter_enabled, moved_backwards);
        let rec_state_selected = matches!(rec_ref.state, State::Selected);
        let rec_has_pos = rec_ref.lat_lon.is_some();
        let rec_has_alt = rec_ref.altitude.is_some();
        let ghost recv = spec_updated_record(s0, msg@, now, filter_enabled, moved_backwards);
        proof {
            assert(self@.aircraft =~= s1.update(idx as int, recv));
            lemma_apply_report_wf(prior, msg@, now, filter_enabled, moved_backwards);
        }

        if rejected {
            proof {
                // A rejected report leaves the record it hit unchanged.
                assert(recv == prior);
                assert(self@.aircraft =~= s0);
                assert(self@ =~~= old(self)@);
            }
            return UpdateOutcome {
                rejected: true,
                should_send: false,
                has_position_and_altitude: false,
                num_displayed: 0,
            };
        }

        // Refresh the running displayable-record maximum.
        let num_displayed = self.count_displayed();
        if num_displayed > self.max_num_aircraft {
            self.max_num_aircraft = num_displayed;
        }

        proof {
            lemma_update_wf(old(self)@, msg@, now, filter_enabled, moved_backwards);
            if created {
                assert(s1.update(idx as int, recv) =~= s0.push(recv));
            }
            assert(self@.aircraft =~= (if spec_idx >= 0 {
                s0.update(spec_idx, recv)
            } else {
                s0.push(recv)
            }));
            assert(self@ =~~= spec_update(
                old(self)@,
                msg@,
                now,
                filter_enabled,
                moved_backwards,
            ));
        }

        UpdateOutcome {
            rejected: false,
            should_send: match msg {
                Sbs1Message::EsIdentificationAndCategory { .. } => false,
                _ => rec_state_selected,
            },
            has_position_and_altitude: rec_has_pos && rec_has_alt,
            num_displayed,
        }
    }

    /// Counts the records the map can display.
    fn count_displayed(&self) -> (n: usize)
        ensures
            n as nat == displayed_count(self@.aircraft),
    {
        let ghost s = self@.aircraft;
        let mut n: usize = 0;
        let mut i: usize = 0;
        while i < self.aircraft.len()
            invariant
                0 <= i <= self@.aircraft.len(),
                s == self@.aircraft,
                n as nat == displayed_count(s.take(i as int)),
                n <= i,
            decreases self@.aircraft.len() - i,
        {
            let a = &self.aircraft[i];
            proof {
                assert(s.take(i + 1).drop_last() =~= s.take(i as int));
                assert(s.take(i + 1).last() == s[i as int]);
            }
            if a.lat_lon.is_some() && a.track.is_some() {
                n += 1;
            }
            i += 1;
        }
        proof {
            assert(s.take(s.len() as int) =~= s);
        }
        n
    }
}

/// Does garbage collection keep this record at time `now`?
pub open spec fn gc_keep(a: AircraftV, now: u64) -> bool {
    spec_elapsed_ms(now, a.t_last_update) <= MAX_MS_WITHOUT_UPDATE
}

/// [`gc_keep`] at time `now`, as a predicate on records.
pub open spec fn gc_pred(now: u64) -> spec_fn(AircraftV) -> bool {
    |a: AircraftV| gc_keep(a, now)
}

/// What one garbage collection call does: nothing while the last
/// collection lies less than [`GC_INTERVAL_MS`] back; otherwise it keeps
/// exactly the records updated within the last
/// [`MAX_MS_WITHOUT_UPDATE`], in order, and restarts the interval.
pub open spec fn spec_garbage_collect(d: ProgramDataV, now: u64) -> ProgramDataV {
    if spec_elapsed_ms(now, d.t_last_gc) < GC_INTERVAL_MS {
        d
    } else {
        ProgramDataV { aircraft: d.aircraft.filter(gc_pred(now)), t_last_gc: now, ..d }
    }
}

impl ProgramData {
    /// Runs garbage collection, as [`spec_garbage_collect`] says: a no-op
    /// within 10 s of the previous run, otherwise every record whose last
    /// update lies more than 60 s back is evicted. Idempotent and safe to
    /// call every tick.
    pub fn garbage_collect(&mut self, now: u64)
        ensures
            final(self)@ == spec_garbage_collect(old(self)@, now),
            old(self)@.wf() ==> final(self)@.wf(),
    {
        if elapsed_ms(now, self.t_last_gc) < GC_INTERVAL_MS {
            return ;
        }
        let ghost s0 = self@.aircraft;
        let ghost p = gc_pred(now);
        let mut i: usize = 0;
        let ghost mut j: int = 0;
        proof {
            assert(s0.take(0).filter(p) =~= Seq::<AircraftV>::empty()) by {
                reveal(Seq::filter);
                assert(s0.take(0) =~= Seq::<AircraftV>::empty());
            }
            assert(self@.aircraft =~= s0.take(0).filter(p) + s0.skip(0));
        }
        while i < self.aircraft.len()
            invariant
                0 <= j <= s0.len(),
                i as int == s0.take(j).filter(gc_pred(now)).len(),
                self@.aircraft == s0.take(j).filter(gc_pred(now)) + s0.skip(j),
                self@.t_last_gc == old(self)@.t_last_gc,
                self@.max_distance_mm == old(self)@.max_distance_mm,
                self@.max_num_aircraft == old(self)@.max_num_aircraft,
                s0 == old(self)@.aircraft,
            decreases s0.len() - j,
        {
            let ghost p = gc_pred(now);
            let ghost taken = s0.take(j).filter(p);
            proof {
                assert(s0.skip(j).len() > 0);
                assert(self@.aircraft[i as int] == s0.skip(j)[0]);
                assert(s0.skip(j)[0] == s0[j]);
                assert(s0.take(j + 1).drop_last() =~= s0.take(j));
                assert(s0.take(j + 1).last() == s0[j]);
                assert(s0.take(j + 1).filter(p) == if p(s0[j]) {
                    taken.push(s0[j])
                } else {
                    taken
                }) by {
                    reveal(Seq::filter);
                }
                assert(s0.skip(j).skip(1) =~= s0.skip(j + 1));
            }
            let keep = elapsed_ms(now, self.aircraft[i].t_last_update) <= MAX_MS_WITHOUT_UPDATE;
            proof {
                assert(keep == p(s0[j]));
            }
            if keep {
                proof {
                    assert(taken.push(s0[j]) + s0.skip(j + 1) =~= taken + s0.skip(j));
                }
                i += 1;
            } else {
                let _evicted = self.aircraft.remove(i);
                proof {
                    assert(self@.aircraft =~= (taken + s0.skip(j)).remove(i as int));
                    assert((taken + s0.skip(j)).remove(i as int) =~= taken + s0.skip(j + 1));
                }
            }
            proof {
                j = j + 1;
            }
        }
        proof {
            assert(j == s0.len());
            assert(s0.take(j) =~= s0);
            assert(s0.skip(j) =~= Seq::<AircraftV>::empty());
            assert(s0.take(j).filter(gc_pred(now)) + s0.skip(j) =~= s0.take(j).filter(
                gc_pred(now),
            ));
            assert(self@.aircraft == s0.filter(gc_pred(now)));
        }
        self.t_last_gc = now;
        proof {
            assert(self@ =~~= spec_garbage_collect(old(self)@, now));
            if old(self)@.wf() {
                lemma_filter_keeps_wf(s0, gc_pred(now));
            }
        }
    }

    /// Marks the record keyed by `code` as the one selected record,
    /// demoting every other record to normal, and reports whether the code
    /// is tracked; an unknown code is a no-op. At most one record is ever
    /// selected.
    pub fn select(&mut self, code: &ModeSTransponderCode) -> (found: bool)
        ensures
            found == (index_of_id(old(self)@.aircraft, code@) >= 0),
            !found ==> final(self)@ == old(self)@,
            found ==> ({
                let idx = index_of_id(old(self)@.aircraft, code@);
                &&& final(self)@.aircraft.len() == old(self)@.aircraft.len()
                &&& forall|k: int|
                    0 <= k < old(self)@.aircraft.len() ==> final(self)@.aircraft[k] == (AircraftV {
                        state: if k == idx {
                            State::Selected
                        } else {
                            State::Normal
                        },
                        ..old(self)@.aircraft[k]
                    })
                &&& final(self)@.t_last_gc == old(self)@.t_last_gc
                &&& final(self)@.max_distance_mm == old(self)@.max_distance_mm
                &&& final(self)@.max_num_aircraft == old(self)@.max_num_aircraft
            }),
            old(self)@.wf() ==> final(self)@.wf(),
    {
        proof {
            lemma_index_of_id(self@.aircraft, code@);
        }
        let ghost s0 = self@.aircraft;

        let mut idx: usize = 0;
        let n = self.aircraft.len();
        while idx < n && !(self.aircraft[idx].id.value() == code.value())
            invariant
                0 <= idx <= n,
                n == self@.aircraft.len(),
                forall|k: int| 0 <= k < idx ==> self@.aircraft[k].id != code@,
            decreases n - idx,
        {
            idx += 1;
        }
        if idx == n {
            return false;
        }
        proof {
            lemma_index_of_id_found(s0, code@, idx as int);
        }

        let mut k: usize = 0;
        while k < n
            invariant
                0 <= k <= n,
                n == self@.aircraft.len(),
                idx < n,
                forall|q: int|
                    0 <= q < k ==> self@.aircraft[q] == (AircraftV {
                        state: if q == idx {
                            State::Selected
                        } else {
                            State::Normal
                        },
                        ..s0[q]
                    }),
                forall|q: int| k <= q < n ==> self@.aircraft[q] == s0[q],
                self@.t_last_gc == old(self)@.t_last_gc,
                self@.max_distance_mm == old(self)@.max_distance_mm,
                self@.max_num_aircraft == old(self)@.max_num_aircraft,
                s0 == old(self)@.aircraft,
            decreases n - k,
        {
            let ghost prev = self@.aircraft;
            let rec = record_at_mut(&mut self.aircraft, k);
            rec.state = if k == idx {
                State::Selected
            } else {
                State::Normal
            };
            proof {
                assert(self@.aircraft[k as int] == (AircraftV {
                    state: if k == idx {
                        State::Selected
                    } else {
                        State::Normal
                    },
                    ..s0[k as int]
                }));
                assert(forall|q: int|
                    0 <= q < n && q != k ==> #[trigger] self@.aircraft[q] == prev[q]);
                assert forall|q: int| 0 <= q < k + 1 implies self@.aircraft[q] == (AircraftV {
                    state: if q == idx {
                        State::Selected
                    } else {
                        State::Normal
                    },
                    ..s0[q]
                }) by {
                    if q != k {
                        assert(self@.aircraft[q] == prev[q]);
                    }
                }
            }
            k += 1;
        }
        true
    }

    /// Forgets every tracked record and resets the displayable-count
    /// maximum, as happens on disconnect; the distance maximum is kept.
    pub fn clear(&mut self)
        ensures
            final(self)@ == (ProgramDataV {
                aircraft: Seq::<AircraftV>::empty(),
                max_num_aircraft: 0,
                ..old(self)@
            }),
            final(self)@.wf(),
    {
        self.aircraft = Vec::new();
        self.max_num_aircraft = 0;
        proof {
            assert(self@.aircraft =~= Seq::<AircraftV>::empty());
            assert(self@ =~~= (ProgramDataV {
                aircraft: Seq::<AircraftV>::empty(),
                max_num_aircraft: 0,
                ..old(self)@
            }));
        }
    }

    /// What the dead-reckoning step needs for the record at `i`, if that
    /// record can be estimated; see
    /// [`Aircraft::interpolation_request`](crate::aircraft::Aircraft::interpolation_request).
    pub fn interpolation_request_at(&self, i: usize, now: u64) -> (r: Option<EstimateRequest>)
        requires
            i < self@.aircraft.len(),
        ensures
            r == spec_interpolation_request(self@.aircraft[i as int], now),
    {
        self.aircraft[i].interpolation_request(now)
    }

    /// Stores a freshly computed dead-reckoned position for the record at
    /// `i`.
    pub fn update_interpolated_position_at(&mut self, i: usize, estimate: LatLon, now: u64)
        requires
            i < old(self)@.aircraft.len(),
            (old(self)@.aircraft[i as int].lat_lon is Some),
            (old(self)@.aircraft[i as int].track is Some),
            (old(self)@.aircraft[i as int].ground_speed is Some),
        ensures
            final(self)@ == (ProgramDataV {
                aircraft: old(self)@.aircraft.update(
                    i as int,
                    AircraftV {
                        estimated_lat_lon: Some((estimate, now)),
                        ..old(self)@.aircraft[i as int]
                    },
                ),
                ..old(self)@
            }),
            old(self)@.wf() ==> final(self)@.wf(),
    {
        let rec = record_at_mut(&mut self.aircraft, i);
        rec.update_interpolated_position(estimate, now);
        proof {
            assert(self@.aircraft =~= old(self)@.aircraft.update(
                i as int,
                AircraftV {
                    estimated_lat_lon: Some((estimate, now)),
                    ..old(self)@.aircraft[i as int]
                },
            ));
            assert(self@ =~~= (ProgramDataV {
                aircraft: old(self)@.aircraft.update(
                    i as int,
                    AircraftV {
                        estimated_lat_lon: Some((estimate, now)),
                        ..old(self)@.aircraft[i as int]
                    },
                ),
                ..old(self)@
            }));
        }
    }
}

/// Every element of a filtered sequence occurs in the sequence.
proof fn lemma_filter_elements_contained(s: Seq<AircraftV>, p: spec_fn(AircraftV) -> bool)
    ensures
        forall|i: int| 0 <= i < s.filter(p).len() ==> s.contains(#[trigger] s.filter(p)[i]),
    decreases s.len(),
{
    reveal(Seq::filter);
    if s.len() > 0 {
        let s1 = s.drop_last();
        lemma_filter_elements_contained(s1, p);
        assert forall|i: int| 0 <= i < s.filter(p).len() implies s.contains(
            #[trigger] s.filter(p)[i],
        ) by {
            if p(s.last()) && i == s.filter(p).len() - 1 {
                assert(s.filter(p)[i] == s[s.len() - 1]);
            } else {
                assert(s.filter(p)[i] == s1.filter(p)[i]);
                assert(s1.contains(s1.filter(p)[i]));
                let k = choose|k: int| 0 <= k < s1.len() && s1[k] == s1.filter(p)[i];
                assert(s[k] == s.filter(p)[i]);
            }
        }
    }
}

/// Evicting records keeps the store's record invariants: well-formed
/// records stay well formed, codes stay unique, at most one record stays
/// selected.
proof fn lemma_filter_keeps_wf(s: Seq<AircraftV>, p: spec_fn(AircraftV) -> bool)
    requires
        forall|i: int| 0 <= i < s.len() ==> (#[trigger] s[i]).wf(),
        unique_ids(s),
        at_most_one_selected(s),
    ensures
        forall|i: int| 0 <= i < s.filter(p).len() ==> (#[trigger] s.filter(p)[i]).wf(),
        unique_ids(s.filter(p)),
        at_most_one_selected(s.filter(p)),
    decreases s.len(),
{
    reveal(Seq::filter);
    lemma_filter_elements_contained(s, p);
    assert forall|i: int| 0 <= i < s.filter(p).len() implies (#[trigger] s.filter(p)[i]).wf() by {
        let k = choose|k: int| 0 <= k < s.len() && s[k] == s.filter(p)[i];
    }
    if s.len() > 0 {
        let s1 = s.drop_last();
        assert(forall|i: int| 0 <= i < s1.len() ==> s1[i] == s[i]);
        lemma_filter_keeps_wf(s1, p);
        lemma_filter_elements_contained(s1, p);
        if p(s.last()) {
            let f1 = s1.filter(p);
            assert(s.filter(p) == f1.push(s.last()));
            assert forall|i: int, j: int| 0 <= i < j < s.filter(p).len() implies s.filter(p)[i].id
                != s.filter(p)[j].id by {
                if j == s.filter(p).len() - 1 {
                    assert(s.filter(p)[j] == s.last());
                    assert(s.filter(p)[i] == f1[i]);
                    let k = choose|k: int| 0 <= k < s1.len() && s1[k] == f1[i];
                    assert(s[k].id != s[s.len() - 1].id);
                }
            }
            assert forall|i: int, j: int| 0 <= i < j < s.filter(p).len() implies !(s.filter(
                p,
            )[i].state == State::Selected && s.filter(p)[j].state == State::Selected) by {
                if j == s.filter(p).len() - 1 {
                    if s.filter(p)[i].state == State::Selected && s.filter(p)[j].state
                        == State::Selected {
                        let k = choose|k: int| 0 <= k < s1.len() && s1[k] == f1[i];
                        assert(!(s[k].state == State::Selected && s[s.len() - 1].state
                            == State::Selected));
                    }
                }
            }
        }
    }
}

/// Finding `id` at position `i`, with no earlier occurrence, pins the
/// lookup index.
proof fn lemma_index_of_id_found(s: Seq<AircraftV>, id: u32, i: int)
    requires
        0 <= i < s.len(),
        s[i].id == id,
        forall|j: int| 0 <= j < i ==> s[j].id != id,
    ensures
        index_of_id(s, id) == i,
{
    lemma_index_of_id(s, id);
    let r = index_of_id(s, id);
    if r < i {
        assert(s[r].id == id);
    }
    if r > i {
        assert(s[i].id != id);
    }
}

/// Applying a report preserves store well-formedness.
proof fn lemma_update_wf(
    d: ProgramDataV,
    msg: Sbs1MessageV,
    now: u64,
    filter_enabled: bool,
    moved_backwards: bool,
)
    requires
        d.wf(),
    ensures
        spec_update(d, msg, now, filter_enabled, moved_backwards).wf(),
{
    lemma_index_of_id(d.aircraft, msg.id());
    let prior = spec_prior_record(d.aircraft, msg, now);
    lemma_apply_report_wf(prior, msg, now, filter_enabled, moved_backwards);
}

} // verus!
