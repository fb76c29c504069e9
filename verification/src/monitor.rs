use vstd::prelude::*;

use crate::database::models::{is_clock_time, Alarm, ClockError, Sensor};
use crate::exceptions::SensorCode;
use crate::database::repository::{
    alarm_id_ceiling, lemma_ceiling_after_push, lemma_ceiling_in_range, SensorRepository,
};

verus! {

/// The largest value the 12-bit converter can report; the thermistor divider
/// reads it when its line is shorted to the supply.
pub const ADC_FULL_SCALE: u16 = 4095;

/// The converter value of the light sensor in the dark.
pub const DARK_ADC: u16 = 150;

/// The converter value of the light sensor in full light.
pub const LIGHT_ADC: u16 = 3192;

/// Above this converter value the light sensor's line carries too much
/// voltage.
pub const LIGHT_ADC_LIMIT: u16 = 4000;

/// The code that the raw thermistor sample alone decides: `VoltageToHigh` at
/// full scale, `GpioError` at zero (an open line), `Success` otherwise, in
/// which case the sample goes on to the temperature formula.
pub open spec fn raw_temperature_code(raw_value: u16) -> SensorCode {
    if raw_value >= ADC_FULL_SCALE {
        SensorCode::VoltageToHigh
    } else if raw_value == 0 {
        SensorCode::GpioError
    } else {
        SensorCode::Success
    }
}

/// Checks a raw thermistor sample (see [`raw_temperature_code`]).
pub fn check_raw_temperature(raw_value: u16) -> (code: SensorCode)
    ensures
        code == raw_temperature_code(raw_value),
{
    if raw_value >= ADC_FULL_SCALE {
        return SensorCode::VoltageToHigh;
    }
    if raw_value == 0 {
        return SensorCode::GpioError;
    }
    SensorCode::Success
}

/// The code that the raw photoresistor sample alone decides:
/// `BadCalibration` when the light and dark points are less than one step
/// apart, `VoltageToHigh` above [`LIGHT_ADC_LIMIT`], `Success` otherwise, in
/// which case the sample goes on to the percentage formula.
pub open spec fn raw_light_code(raw_value: u16) -> SensorCode {
    if LIGHT_ADC <= DARK_ADC {
        SensorCode::BadCalibration
    } else if raw_value > LIGHT_ADC_LIMIT {
        SensorCode::VoltageToHigh
    } else {
        SensorCode::Success
    }
}

/// Checks a raw photoresistor sample (see [`raw_light_code`]).
pub fn check_raw_light(raw_value: u16) -> (code: SensorCode)
    ensures
        code == raw_light_code(raw_value),
{
    if LIGHT_ADC <= DARK_ADC {
        return SensorCode::BadCalibration;
    }
    if raw_value > LIGHT_ADC_LIMIT {
        return SensorCode::VoltageToHigh;
    }
    SensorCode::Success
}

/// What the monitoring loop keeps between rounds: whether a shock was seen
/// since the last round, and which sensors have an active alarm.
pub struct MonitorState {
    pub shock_detected: bool,
    pub is_alarm_active: [bool; 6],
}

impl MonitorState {
    /// No shock seen and no alarm active.
    pub fn new() -> (state: Self)
        ensures
            !state.shock_detected,
            state.is_alarm_active@ == seq![false, false, false, false, false, false],
    {
        MonitorState { shock_detected: false, is_alarm_active: [false; 6] }
    }

    /// Records one poll of the vibration line, which is low while the
    /// station shakes; a shock stays recorded until the round ends.
    pub fn note_vibration(&mut self, vibration_low: bool)
        ensures
            final(self).shock_detected == (old(self).shock_detected || vibration_low),
            final(self).is_alarm_active == old(self).is_alarm_active,
    {
        if vibration_low {
            self.shock_detected = true;
        }
    }

    /// Ends a round: says whether a shock was seen during it and forgets it.
    pub fn take_shock(&mut self) -> (shock: bool)
        ensures
            shock == old(self).shock_detected,
            !final(self).shock_detected,
            final(self).is_alarm_active == old(self).is_alarm_active,
    {
        let shock = self.shock_detected;
        self.shock_detected = false;
        shock
    }
}

/// A measuring round starts once this many nanoseconds have passed since the
/// last one.
pub const ROUND_NANOS: u128 = 1_000_000_000;

/// Whether the next measuring round is due, `elapsed_nanos` after the last
/// one started.
pub fn round_due(elapsed_nanos: u128) -> (due: bool)
    ensures
        due == (elapsed_nanos >= ROUND_NANOS),
{
    elapsed_nanos >= ROUND_NANOS
}

/// The shock flag over one round: a round starts with the flag cleared
/// (`states[0]`, as [`MonitorState::take_shock`] leaves it), and each poll
/// `polls[i]` of the vibration line moves it from `states[i]` to
/// `states[i + 1]` as [`MonitorState::note_vibration`] does.  At the end of
/// the round the flag says whether any poll saw the line low.
pub proof fn lemma_round_reports_any_shock(polls: Seq<bool>, states: Seq<bool>)
    requires
        states.len() == polls.len() + 1,
        !states[0],
        forall|i: int| 0 <= i < polls.len() ==> #[trigger] states[i + 1] == (states[i] || polls[i]),
    ensures
        states.last() == exists|i: int| 0 <= i < polls.len() && polls[i],
    decreases polls.len(),
{
    if polls.len() > 0 {
        let n = polls.len() - 1;
        let p = polls.drop_last();
        let st = states.drop_last();
        assert forall|i: int| 0 <= i < p.len() implies #[trigger] st[i + 1] == (st[i] || p[i]) by {
            assert(st[i + 1] == states[i + 1]);
            assert(st[i] == states[i]);
            assert(p[i] == polls[i]);
        }
        lemma_round_reports_any_shock(p, st);
        assert(states[n + 1] == (states[n] || polls[n]));
        assert(states.last() == (st.last() || polls[n]));
        if states.last() {
            if !polls[n] {
                let i = choose|i: int| 0 <= i < n && p[i];
                assert(polls[i]);
            } else {
                assert(polls[n]);
            }
        } else {
            assert forall|i: int| 0 <= i < polls.len() implies !polls[i] by {
                if i < n {
                    assert(p[i] == polls[i]);
                }
            }
        }
    }
}

/// An alarm raised (`triggered`) or cleared for one sensor.
#[derive(Clone, Copy, Debug, PartialEq, Eq, Structural)]
pub struct AlarmEvent {
    pub sensor_id: i32,
    pub triggered: bool,
}

/// Whether the sensor with id `id` is in breach.  The temperature (1), light
/// (2) and distance (5) sensors are in breach when their reading lies outside
/// their limits (`outside_limits`); the tilt sensor (3) when the station is
/// not upright; the shock sensor (4) when a shock was seen; no other sensor
/// ever is.
pub open spec fn breached(id: i32, tilt: bool, shock: bool, outside_limits: bool) -> bool {
    if id == 1 || id == 2 || id == 5 {
        outside_limits
    } else if id == 3 {
        !tilt
    } else if id == 4 {
        shock
    } else {
        false
    }
}

/// Decides whether the sensor with id `id` is in breach (see [`breached`]).
pub fn sensor_breached(id: i32, tilt: bool, shock: bool, outside_limits: bool) -> (b: bool)
    ensures
        b == breached(id, tilt, shock, outside_limits),
{
    match id {
        1 | 2 | 5 => outside_limits,
        3 => !tilt,
        4 => shock,
        _ => false,
    }
}

/// Which input decides each sensor's breach: the shock sensor follows the
/// shock flag alone, the tilt sensor is in breach exactly when the station is
/// not upright, the analog sensors (temperature, light, distance) exactly
/// when their reading lies outside its limits, whatever the other inputs
/// say, and a sensor with any other id is never in breach.
pub proof fn lemma_breach_inputs(tilt: bool, shock: bool, outside_limits: bool, other: i32)
    requires
        other != 1 && other != 2 && other != 3 && other != 4 && other != 5,
    ensures
        breached(4, tilt, shock, outside_limits) == shock,
        breached(4, !tilt, shock, !outside_limits) == breached(4, tilt, shock, outside_limits),
        breached(3, tilt, shock, outside_limits) == !tilt,
        breached(3, tilt, !shock, !outside_limits) == breached(3, tilt, shock, outside_limits),
        breached(1, tilt, shock, outside_limits) == outside_limits,
        breached(2, tilt, shock, outside_limits) == outside_limits,
        breached(5, tilt, shock, outside_limits) == outside_limits,
        breached(5, !tilt, !shock, outside_limits) == breached(5, tilt, shock, outside_limits),
        !breached(other, tilt, shock, outside_limits),
{
}

/// Every sensor id indexes the six-entry table of alarm flags.
pub open spec fn ids_fit_alarm_table<R>(sensors: Seq<Sensor<R>>) -> bool {
    forall|i: int| 0 <= i < sensors.len() ==> 0 <= #[trigger] sensors[i].id < 6
}

/// No two sensors share an id.
pub open spec fn ids_distinct<R>(sensors: Seq<Sensor<R>>) -> bool {
    forall|i: int, j: int|
        0 <= i < sensors.len() && 0 <= j < sensors.len() && i != j ==> sensors[i].id
            != sensors[j].id
}

/// The breach state of the `i`-th sensor.
pub open spec fn breached_at<R>(
    sensors: Seq<Sensor<R>>,
    outside: Seq<bool>,
    tilt: bool,
    shock: bool,
    i: int,
) -> bool {
    breached(sensors[i].id, tilt, shock, outside[i])
}

/// The alarm flags and the alarm events after the first `n` sensors were
/// checked, starting from the flags `active`: a sensor whose breach state
/// differs from its flag flips the flag and records an event with the new
/// state; otherwise nothing happens.
pub open spec fn alarm_pass<R>(
    sensors: Seq<Sensor<R>>,
    outside: Seq<bool>,
    tilt: bool,
    shock: bool,
    active: Seq<bool>,
    n: nat,
) -> (Seq<bool>, Seq<AlarmEvent>)
    decreases n,
{
    if n == 0 {
        (active, Seq::empty())
    } else {
        let prev = alarm_pass(sensors, outside, tilt, shock, active, (n - 1) as nat);
        let id = sensors[n - 1].id;
        let b = breached_at(sensors, outside, tilt, shock, n - 1);
        if b != prev.0[id as int] {
            (prev.0.update(id as int, b), prev.1.push(AlarmEvent { sensor_id: id, triggered: b }))
        } else {
            prev
        }
    }
}

proof fn lemma_pass_prefix<R>(
    sensors: Seq<Sensor<R>>,
    outside: Seq<bool>,
    tilt: bool,
    shock: bool,
    active: Seq<bool>,
    n: nat,
)
    requires
        ids_fit_alarm_table(sensors),
        ids_distinct(sensors),
        outside.len() == sensors.len(),
        active.len() == 6,
        n <= sensors.len(),
    ensures
        ({
            let flags = alarm_pass(sensors, outside, tilt, shock, active, n).0;
            &&& flags.len() == 6
            &&& forall|i: int|
                0 <= i < n ==> flags[sensors[i].id as int] == breached_at(
                    sensors,
                    outside,
                    tilt,
                    shock,
                    i,
                )
            &&& forall|id: int|
                0 <= id < 6 && (forall|i: int| 0 <= i < n ==> sensors[i].id != id) ==> flags[id]
                    == active[id]
        }),
    decreases n,
{
    if n > 0 {
        lemma_pass_prefix(sensors, outside, tilt, shock, active, (n - 1) as nat);
        assert(0 <= sensors[n - 1].id < 6);
        let flags = alarm_pass(sensors, outside, tilt, shock, active, n).0;
        assert forall|i: int| 0 <= i < n implies flags[sensors[i].id as int] == breached_at(
            sensors,
            outside,
            tilt,
            shock,
            i,
        ) by {
            if i < n - 1 {
                assert(sensors[i].id != sensors[n - 1].id);
            }
        }
    }
}

/// When no two sensors share an id, a pass leaves every sensor's alarm flag
/// equal to its breach state: a raised alarm means the sensor is in breach,
/// a cleared one that it is not.
pub proof fn lemma_flags_follow_breaches<R>(
    sensors: Seq<Sensor<R>>,
    outside: Seq<bool>,
    tilt: bool,
    shock: bool,
    active: Seq<bool>,
)
    requires
        ids_fit_alarm_table(sensors),
        ids_distinct(sensors),
        outside.len() == sensors.len(),
        active.len() == 6,
    ensures
        forall|i: int|
            0 <= i < sensors.len() ==> #[trigger] alarm_pass(
                sensors,
                outside,
                tilt,
                shock,
                active,
                sensors.len(),
            ).0[sensors[i].id as int] == breached_at(sensors, outside, tilt, shock, i),
{
    lemma_pass_prefix(sensors, outside, tilt, shock, active, sensors.len());
}

/// When no two sensors share an id, a second pass over unchanged readings
/// changes no flag and records no alarm, so it also needs no room for new
/// alarm ids, whatever the store holds.
pub proof fn lemma_second_pass_is_quiet<R>(
    sensors: Seq<Sensor<R>>,
    outside: Seq<bool>,
    tilt: bool,
    shock: bool,
    active: Seq<bool>,
)
    requires
        ids_fit_alarm_table(sensors),
        ids_distinct(sensors),
        outside.len() == sensors.len(),
        active.len() == 6,
    ensures
        ({
            let first = alarm_pass(sensors, outside, tilt, shock, active, sensors.len());
            alarm_pass(sensors, outside, tilt, shock, first.0, sensors.len()) == (
                first.0,
                Seq::<AlarmEvent>::empty(),
            )
        }),
        forall|alarms: Seq<Alarm>|
            #[trigger] alarm_id_ceiling(alarms) + alarm_pass(
                sensors,
                outside,
                tilt,
                shock,
                alarm_pass(sensors, outside, tilt, shock, active, sensors.len()).0,
                sensors.len(),
            ).1.len() <= i32::MAX,
{
    let flags = alarm_pass(sensors, outside, tilt, shock, active, sensors.len()).0;
    lemma_pass_prefix(sensors, outside, tilt, shock, active, sensors.len());
    lemma_quiet_prefix(sensors, outside, tilt, shock, flags, sensors.len());
    assert forall|alarms: Seq<Alarm>|
        #[trigger] alarm_id_ceiling(alarms) + alarm_pass(
            sensors,
            outside,
            tilt,
            shock,
            flags,
            sensors.len(),
        ).1.len() <= i32::MAX by {
        lemma_ceiling_in_range(alarms);
    }
}

proof fn lemma_quiet_prefix<R>(
    sensors: Seq<Sensor<R>>,
    outside: Seq<bool>,
    tilt: bool,
    shock: bool,
    flags: Seq<bool>,
    n: nat,
)
    requires
        n <= sensors.len(),
        forall|i: int|
            0 <= i < sensors.len() ==> flags[sensors[i].id as int] == breached_at(
                sensors,
                outside,
                tilt,
                shock,
                i,
            ),
    ensures
        alarm_pass(sensors, outside, tilt, shock, flags, n) == (flags, Seq::<AlarmEvent>::empty()),
    decreases n,
{
    if n > 0 {
        lemma_quiet_prefix(sensors, outside, tilt, shock, flags, (n - 1) as nat);
        assert(flags[sensors[n - 1].id as int] == breached_at(sensors, outside, tilt, shock, n - 1));
    }
}

/// The events of a pass when each sensor is compared with the flag its id
/// had before the pass.
pub open spec fn changed_sensors<R>(
    sensors: Seq<Sensor<R>>,
    outside: Seq<bool>,
    tilt: bool,
    shock: bool,
    active: Seq<bool>,
    n: nat,
) -> Seq<AlarmEvent>
    decreases n,
{
    if n == 0 {
        Seq::empty()
    } else {
        let prev = changed_sensors(sensors, outside, tilt, shock, active, (n - 1) as nat);
        let id = sensors[n - 1].id;
        let b = breached_at(sensors, outside, tilt, shock, n - 1);
        if b != active[id as int] {
            prev.push(AlarmEvent { sensor_id: id, triggered: b })
        } else {
            prev
        }
    }
}

proof fn lemma_changes_prefix<R>(
    sensors: Seq<Sensor<R>>,
    outside: Seq<bool>,
    tilt: bool,
    shock: bool,
    active: Seq<bool>,
    n: nat,
)
    requires
        ids_fit_alarm_table(sensors),
        ids_distinct(sensors),
        outside.len() == sensors.len(),
        active.len() == 6,
        n <= sensors.len(),
    ensures
        alarm_pass(sensors, outside, tilt, shock, active, n).1 == changed_sensors(
            sensors,
            outside,
            tilt,
            shock,
            active,
            n,
        ),
    decreases n,
{
    if n > 0 {
        lemma_changes_prefix(sensors, outside, tilt, shock, active, (n - 1) as nat);
        lemma_pass_prefix(sensors, outside, tilt, shock, active, (n - 1) as nat);
        let id = sensors[n - 1].id;
        assert(0 <= id < 6);
        assert forall|i: int| 0 <= i < n - 1 implies sensors[i].id != id by {
            assert(i != n - 1);
        }
    }
}

/// When no two sensors share an id, a pass records exactly one event, with
/// the new breach state, for each sensor whose breach state differs from its
/// flag before the pass, in sensor order, and no other event; every sensor's
/// flag ends equal to its breach state, and the flag of an id that no sensor
/// has keeps its value.
pub proof fn lemma_pass_records_exactly_the_changes<R>(
    sensors: Seq<Sensor<R>>,
    outside: Seq<bool>,
    tilt: bool,
    shock: bool,
    active: Seq<bool>,
)
    requires
        ids_fit_alarm_table(sensors),
        ids_distinct(sensors),
        outside.len() == sensors.len(),
        active.len() == 6,
    ensures
        ({
            let pass = alarm_pass(sensors, outside, tilt, shock, active, sensors.len());
            &&& pass.1 == changed_sensors(sensors, outside, tilt, shock, active, sensors.len())
            &&& pass.0.len() == 6
            &&& forall|i: int|
                0 <= i < sensors.len() ==> pass.0[sensors[i].id as int] == breached_at(
                    sensors,
                    outside,
                    tilt,
                    shock,
                    i,
                )
            &&& forall|id: int|
                0 <= id < 6 && (forall|i: int| 0 <= i < sensors.len() ==> sensors[i].id != id)
                    ==> pass.0[id] == active[id]
        }),
{
    lemma_changes_prefix(sensors, outside, tilt, shock, active, sensors.len());
    lemma_pass_prefix(sensors, outside, tilt, shock, active, sensors.len());
}

/// A pass records at most one event per sensor, so a store whose largest
/// alarm id leaves room for one more id per sensor always meets the id bound
/// of [`process_alarm_states`].
pub proof fn lemma_pass_events_bounded<R>(
    sensors: Seq<Sensor<R>>,
    outside: Seq<bool>,
    tilt: bool,
    shock: bool,
    active: Seq<bool>,
    n: nat,
)
    ensures
        alarm_pass(sensors, outside, tilt, shock, active, n).1.len() <= n,
    decreases n,
{
    if n > 0 {
        lemma_pass_events_bounded(sensors, outside, tilt, shock, active, (n - 1) as nat);
    }
}

/// The alarm states recorded for the sensor `id`, oldest first.
pub open spec fn event_states(events: Seq<AlarmEvent>, id: i32) -> Seq<bool>
    decreases events.len(),
{
    if events.len() == 0 {
        Seq::empty()
    } else {
        let prev = event_states(events.drop_last(), id);
        if events.last().sensor_id == id {
            prev.push(events.last().triggered)
        } else {
            prev
        }
    }
}

/// Raised, cleared, raised, ... starting with raised.
pub open spec fn alternating(states: Seq<bool>) -> bool {
    forall|i: int| 0 <= i < states.len() ==> states[i] == (i % 2 == 0)
}

/// For every sensor id, the recorded alarm states alternate starting with
/// a raised alarm, and the flag is raised exactly when an odd number of
/// states were recorded.
pub open spec fn history_matches_flags(history: Seq<AlarmEvent>, flags: Seq<bool>) -> bool {
    &&& flags.len() == 6
    &&& forall|id: int|
        0 <= id < 6 ==> {
            &&& alternating(#[trigger] event_states(history, id as i32))
            &&& flags[id] == (event_states(history, id as i32).len() % 2 == 1)
        }
}

/// No alarm recorded and no flag raised: the state the monitor starts in.
pub proof fn lemma_history_starts_matched()
    ensures
        history_matches_flags(Seq::empty(), seq![false, false, false, false, false, false]),
{
}

proof fn lemma_event_states_push(events: Seq<AlarmEvent>, e: AlarmEvent, id: i32)
    ensures
        event_states(events.push(e), id) == if e.sensor_id == id {
            event_states(events, id).push(e.triggered)
        } else {
            event_states(events, id)
        },
{
    assert(events.push(e).drop_last() =~= events);
}

proof fn lemma_alternation_prefix<R>(
    sensors: Seq<Sensor<R>>,
    outside: Seq<bool>,
    tilt: bool,
    shock: bool,
    flags: Seq<bool>,
    history: Seq<AlarmEvent>,
    n: nat,
)
    requires
        ids_fit_alarm_table(sensors),
        n <= sensors.len(),
        history_matches_flags(history, flags),
    ensures
        ({
            let pass = alarm_pass(sensors, outside, tilt, shock, flags, n);
            history_matches_flags(history + pass.1, pass.0)
        }),
    decreases n,
{
    if n > 0 {
        lemma_alternation_prefix(sensors, outside, tilt, shock, flags, history, (n - 1) as nat);
        let prev = alarm_pass(sensors, outside, tilt, shock, flags, (n - 1) as nat);
        let id = sensors[n - 1].id;
        assert(0 <= id < 6);
        let b = breached_at(sensors, outside, tilt, shock, n - 1);
        if b != prev.0[id as int] {
            let e = AlarmEvent { sensor_id: id, triggered: b };
            let h = history + prev.1;
            assert(history + prev.1.push(e) =~= h.push(e));
            let next = prev.0.update(id as int, b);
            assert forall|k: int| 0 <= k < 6 implies {
                &&& alternating(#[trigger] event_states(h.push(e), k as i32))
                &&& next[k] == (event_states(h.push(e), k as i32).len() % 2 == 1)
            } by {
                lemma_event_states_push(h, e, k as i32);
                if k == id {
                    let old_states = event_states(h, k as i32);
                    assert(alternating(old_states));
                    let c = old_states.len();
                    assert(prev.0[k] == (c % 2 == 1));
                    assert(b == (c % 2 == 0));
                    let new_states = old_states.push(b);
                    assert forall|i: int| 0 <= i < new_states.len() implies new_states[i] == (i % 2
                        == 0) by {
                        if i < c {
                            assert(new_states[i] == old_states[i]);
                        }
                    }
                } else {
                    assert((k as i32) != id);
                }
            }
        }
    }
}

/// Alarms alternate across passes: when the recorded history and the flags
/// agree (each sensor's recorded states alternate raised, cleared, ...
/// starting with raised, and its flag is raised after an odd number of
/// them), they still agree after one more pass appends its events.  With
/// [`lemma_history_starts_matched`], every run that starts with all flags
/// cleared records, for each sensor, raised and cleared alarms in turn.
pub proof fn lemma_pass_keeps_alarms_alternating<R>(
    sensors: Seq<Sensor<R>>,
    outside: Seq<bool>,
    tilt: bool,
    shock: bool,
    flags: Seq<bool>,
    history: Seq<AlarmEvent>,
)
    requires
        ids_fit_alarm_table(sensors),
        history_matches_flags(history, flags),
    ensures
        ({
            let pass = alarm_pass(sensors, outside, tilt, shock, flags, sensors.len());
            history_matches_flags(history + pass.1, pass.0)
        }),
{
    lemma_alternation_prefix(sensors, outside, tilt, shock, flags, history, sensors.len());
}

/// One measuring round as the alarm pass sees it: the sensors, whether each
/// one's reading lies outside its limits, the tilt line and the shock flag.
pub type AlarmRound<R> = (Seq<Sensor<R>>, Seq<bool>, bool, bool);

/// The flags and the whole alarm history after the passes of `rounds`, in
/// order, starting with every flag cleared (as [`MonitorState::new`] does).
pub open spec fn alarm_run<R>(rounds: Seq<AlarmRound<R>>) -> (Seq<bool>, Seq<AlarmEvent>)
    decreases rounds.len(),
{
    if rounds.len() == 0 {
        (seq![false, false, false, false, false, false], Seq::empty())
    } else {
        let prev = alarm_run(rounds.drop_last());
        let r = rounds.last();
        let pass = alarm_pass(r.0, r.1, r.2, r.3, prev.0, r.0.len());
        (pass.0, prev.1 + pass.1)
    }
}

/// Over a whole run of rounds that starts with every flag cleared, the
/// alarms recorded for each sensor id alternate raised, cleared, raised, ...
/// starting with raised, and the id's flag is raised exactly after an odd
/// number of them.
pub proof fn lemma_run_alarms_alternate<R>(rounds: Seq<AlarmRound<R>>)
    requires
        forall|i: int| 0 <= i < rounds.len() ==> ids_fit_alarm_table(#[trigger] rounds[i].0),
    ensures
        history_matches_flags(alarm_run(rounds).1, alarm_run(rounds).0),
        forall|id: int|
            0 <= id < 6 ==> alternating(#[trigger] event_states(alarm_run(rounds).1, id as i32)),
    decreases rounds.len(),
{
    if rounds.len() == 0 {
        lemma_history_starts_matched();
    } else {
        let prev_rounds = rounds.drop_last();
        assert forall|i: int| 0 <= i < prev_rounds.len() implies ids_fit_alarm_table(
            #[trigger] prev_rounds[i].0,
        ) by {
            assert(prev_rounds[i] == rounds[i]);
        }
        lemma_run_alarms_alternate(prev_rounds);
        let prev = alarm_run(prev_rounds);
        let r = rounds.last();
        assert(ids_fit_alarm_table(rounds[rounds.len() - 1].0));
        lemma_pass_keeps_alarms_alternating(r.0, r.1, r.2, r.3, prev.0, prev.1);
    }
    let run = alarm_run(rounds);
    assert forall|id: int| 0 <= id < 6 implies alternating(
        #[trigger] event_states(run.1, id as i32),
    ) by {
        assert(history_matches_flags(run.1, run.0));
    }
}

/// Checking more sensors never removes an event.
proof fn lemma_events_grow<R>(
    sensors: Seq<Sensor<R>>,
    outside: Seq<bool>,
    tilt: bool,
    shock: bool,
    active: Seq<bool>,
    i: nat,
    n: nat,
)
    requires
        i <= n,
    ensures
        alarm_pass(sensors, outside, tilt, shock, active, i).1.len() <= alarm_pass(
            sensors,
            outside,
            tilt,
            shock,
            active,
            n,
        ).1.len(),
    decreases n,
{
    if i < n {
        lemma_events_grow(sensors, outside, tilt, shock, active, i, (n - 1) as nat);
    }
}

/// How many alarm entries a pass over `sensors` with these readings would
/// record, starting from the flags `is_alarm_active`; changes nothing.  A
/// caller compares it with the room left for alarm ids before it runs
/// [`process_alarm_states`].
pub fn count_alarm_changes<R: Copy>(
    sensors: &Vec<Sensor<R>>,
    outside_limits: &Vec<bool>,
    tilt: bool,
    shock: bool,
    is_alarm_active: &[bool; 6],
) -> (count: usize)
    requires
        outside_limits@.len() == sensors@.len(),
        ids_fit_alarm_table(sensors@),
    ensures
        count == alarm_pass(
            sensors@,
            outside_limits@,
            tilt,
            shock,
            is_alarm_active@,
            sensors@.len(),
        ).1.len(),
{
    let mut flags: [bool; 6] = *is_alarm_active;
    let mut count: usize = 0;
    let n = sensors.len();
    for i in 0..n
        invariant
            n == sensors@.len(),
            outside_limits@.len() == n,
            ids_fit_alarm_table(sensors@),
            flags@ == alarm_pass(
                sensors@,
                outside_limits@,
                tilt,
                shock,
                is_alarm_active@,
                i as nat,
            ).0,
            count == alarm_pass(
                sensors@,
                outside_limits@,
                tilt,
                shock,
                is_alarm_active@,
                i as nat,
            ).1.len(),
    {
        proof {
            lemma_pass_events_bounded(
                sensors@,
                outside_limits@,
                tilt,
                shock,
                is_alarm_active@,
                i as nat,
            );
        }
        let s = &sensors[i];
        assert(0 <= sensors@[i as int].id < 6);
        let b = sensor_breached(s.id, tilt, shock, outside_limits[i]);
        let slot = s.id as usize;
        if b != flags[slot] {
            flags[slot] = b;
            count = count + 1;
        }
    }
    count
}

/// After the first `k` sensors of a pass: the flags are those of the
/// pass so far, and the store holds the old alarm entries followed by one
/// entry per event of the pass so far, with the consecutive ids after the old
/// largest one and clock times.
pub open spec fn pass_recorded<R>(
    sensors: Seq<Sensor<R>>,
    outside: Seq<bool>,
    tilt: bool,
    shock: bool,
    active: Seq<bool>,
    k: nat,
    old_alarms: Seq<Alarm>,
    new_alarms: Seq<Alarm>,
    new_flags: Seq<bool>,
) -> bool {
    let pass = alarm_pass(sensors, outside, tilt, shock, active, k);
    &&& new_flags == pass.0
    &&& new_alarms.len() == old_alarms.len() + pass.1.len()
    &&& new_alarms.take(old_alarms.len() as int) == old_alarms
    &&& forall|j: int|
        #![trigger pass.1[j]]
        0 <= j < pass.1.len() ==> {
            let a = new_alarms[old_alarms.len() + j];
            &&& a.id == alarm_id_ceiling(old_alarms) + j + 1
            &&& a.sensor_id == pass.1[j].sensor_id
            &&& a.is_triggered == pass.1[j].triggered
            &&& is_clock_time(a.created)
        }
}

proof fn lemma_recorded_from_parts<R>(
    sensors: Seq<Sensor<R>>,
    outside: Seq<bool>,
    tilt: bool,
    shock: bool,
    active: Seq<bool>,
    k: nat,
    old_alarms: Seq<Alarm>,
    new_alarms: Seq<Alarm>,
    new_flags: Seq<bool>,
    events: Seq<AlarmEvent>,
)
    requires
        (new_flags, events) == alarm_pass(sensors, outside, tilt, shock, active, k),
        new_alarms.len() == old_alarms.len() + events.len(),
        new_alarms.take(old_alarms.len() as int) == old_alarms,
        forall|j: int|
            0 <= j < events.len() ==> {
                let a = #[trigger] new_alarms[old_alarms.len() + j];
                &&& a.id == alarm_id_ceiling(old_alarms) + j + 1
                &&& a.sensor_id == events[j].sensor_id
                &&& a.is_triggered == events[j].triggered
                &&& is_clock_time(a.created)
            },
    ensures
        pass_recorded(sensors, outside, tilt, shock, active, k, old_alarms, new_alarms, new_flags),
{
    let pass = alarm_pass(sensors, outside, tilt, shock, active, k);
    assert forall|j: int| #![trigger pass.1[j]] 0 <= j < pass.1.len() implies {
        let a = new_alarms[old_alarms.len() + j];
        &&& a.id == alarm_id_ceiling(old_alarms) + j + 1
        &&& a.sensor_id == pass.1[j].sensor_id
        &&& a.is_triggered == pass.1[j].triggered
        &&& is_clock_time(a.created)
    } by {
        assert(events[j] == pass.1[j]);
        let a = new_alarms[old_alarms.len() + j];
    }
}

/// Checks every sensor of the store against its breach state and keeps the
/// alarm flags in step: each sensor whose breach state differs from its flag
/// appends an alarm entry (raised or cleared) to the store and flips the
/// flag.  Returns the events in the order they were recorded.
///
/// `outside_limits[i]` says whether the reading of the `i`-th sensor lies
/// outside its limits (see [`breached`]).  The alarm ids must not run past
/// `i32::MAX`.
///
/// When the clock gives no time for an entry, the pass stops there with the
/// error: the sensors before it are fully handled (see [`pass_recorded`])
/// and that sensor's flag is left as it was.
pub fn process_alarm_states<R: Copy>(
    db: &mut SensorRepository<R>,
    outside_limits: &Vec<bool>,
    tilt: bool,
    shock: bool,
    is_alarm_active: &mut [bool; 6],
) -> (r: Result<Vec<AlarmEvent>, ClockError>)
    requires
        outside_limits@.len() == old(db)@.sensor@.len(),
        ids_fit_alarm_table(old(db)@.sensor@),
        alarm_id_ceiling(old(db)@.alarm@) + alarm_pass(
            old(db)@.sensor@,
            outside_limits@,
            tilt,
            shock,
            old(is_alarm_active)@,
            old(db)@.sensor@.len(),
        ).1.len() <= i32::MAX,
    ensures
        final(db)@.network == old(db)@.network,
        final(db)@.sensor@ == old(db)@.sensor@,
        r matches Ok(events) ==> {
            &&& events@ == alarm_pass(
                old(db)@.sensor@,
                outside_limits@,
                tilt,
                shock,
                old(is_alarm_active)@,
                old(db)@.sensor@.len(),
            ).1
            &&& pass_recorded(
                old(db)@.sensor@,
                outside_limits@,
                tilt,
                shock,
                old(is_alarm_active)@,
                old(db)@.sensor@.len(),
                old(db)@.alarm@,
                final(db)@.alarm@,
                final(is_alarm_active)@,
            )
        },
        r is Err ==> exists|k: nat|
            k < old(db)@.sensor@.len() && #[trigger] pass_recorded(
                old(db)@.sensor@,
                outside_limits@,
                tilt,
                shock,
                old(is_alarm_active)@,
                k,
                old(db)@.alarm@,
                final(db)@.alarm@,
                final(is_alarm_active)@,
            ) && breached_at(old(db)@.sensor@, outside_limits@, tilt, shock, k as int)
                != final(is_alarm_active)@[old(db)@.sensor@[k as int].id as int],
        alarm_pass(
            old(db)@.sensor@,
            outside_limits@,
            tilt,
            shock,
            old(is_alarm_active)@,
            old(db)@.sensor@.len(),
        ).1.len() == 0 ==> r is Ok,
{
    let sensors = db.get_all_sensors();
    let n = sensors.len();
    let mut events: Vec<AlarmEvent> = Vec::new();
    let ghost sensors0 = old(db)@.sensor@;
    let ghost alarms0 = old(db)@.alarm@;
    let ghost active0 = old(is_alarm_active)@;
    let mut i: usize = 0;
    while i < n
        invariant
            i <= n,
            sensors0 == old(db)@.sensor@,
            alarms0 == old(db)@.alarm@,
            active0 == old(is_alarm_active)@,
            n == sensors0.len(),
            sensors@ == sensors0,
            outside_limits@.len() == n,
            ids_fit_alarm_table(sensors0),
            alarm_id_ceiling(alarms0) + alarm_pass(
                sensors0,
                outside_limits@,
                tilt,
                shock,
                active0,
                n as nat,
            ).1.len() <= i32::MAX,
            (is_alarm_active@, events@) == alarm_pass(
                sensors0,
                outside_limits@,
                tilt,
                shock,
                active0,
                i as nat,
            ),
            db@.network == old(db)@.network,
            db@.sensor@ == sensors0,
            db@.alarm@.len() == alarms0.len() + events@.len(),
            db@.alarm@.take(alarms0.len() as int) == alarms0,
            alarm_id_ceiling(db@.alarm@) == alarm_id_ceiling(alarms0) + events@.len(),
            forall|k: int|
                0 <= k < events@.len() ==> {
                    let a = #[trigger] db@.alarm@[alarms0.len() + k];
                    &&& a.id == alarm_id_ceiling(alarms0) + k + 1
                    &&& a.sensor_id == events@[k].sensor_id
                    &&& a.is_triggered == events@[k].triggered
                    &&& is_clock_time(a.created)
                },
        decreases n - i,
    {
        let s = &sensors[i];
        assert(0 <= sensors0[i as int].id < 6);
        let b = sensor_breached(s.id, tilt, shock, outside_limits[i]);
        let slot = s.id as usize;
        if b != is_alarm_active[slot] {
            proof {
                lemma_events_grow(
                    sensors0,
                    outside_limits@,
                    tilt,
                    shock,
                    active0,
                    (i + 1) as nat,
                    n as nat,
                );
            }
            let ghost before = db@.alarm@;
            let recorded = db.trigger_alarm(s.id, b);
            match recorded {
                Ok(()) => {},
                Err(e) => {
                    assert(db@.sensor@ == sensors0);
                    assert(db@.alarm@ == before);
                    proof {
                        lemma_recorded_from_parts(
                            sensors0,
                            outside_limits@,
                            tilt,
                            shock,
                            active0,
                            i as nat,
                            alarms0,
                            db@.alarm@,
                            is_alarm_active@,
                            events@,
                        );
                    }
                    assert(b == breached_at(sensors0, outside_limits@, tilt, shock, i as int));
                    assert(alarm_pass(sensors0, outside_limits@, tilt, shock, active0, (i + 1) as nat).1.len()
                        == events@.len() + 1);
                    assert(pass_recorded(
                        sensors0,
                        outside_limits@,
                        tilt,
                        shock,
                        active0,
                        i as nat,
                        alarms0,
                        db@.alarm@,
                        is_alarm_active@,
                    ));
                    return Err(e);
                },
            }
            is_alarm_active[slot] = b;
            proof {
                lemma_ceiling_after_push(before, db@.alarm@.last());
                assert(db@.alarm@ =~= before.push(db@.alarm@.last()));
                assert(db@.alarm@.take(alarms0.len() as int) =~= before.take(alarms0.len() as int));
            }
            events.push(AlarmEvent { sensor_id: s.id, triggered: b });
        }
        i = i + 1;
    }
    proof {
        lemma_recorded_from_parts(
            sensors0,
            outside_limits@,
            tilt,
            shock,
            active0,
            n as nat,
            alarms0,
            db@.alarm@,
            is_alarm_active@,
            events@,
        );
    }
    Ok(events)
}

} // verus!
