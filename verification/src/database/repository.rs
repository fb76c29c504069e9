use vstd::prelude::*;

use crate::database::models::{
    clock_now, is_clock_time, Alarm, AppDatabase, ClockError, Sensor, Timestamp,
};

verus! {

/// `i` is the position of the first sensor in `sensors` whose id is `id`.
pub open spec fn is_first_with_id<R>(sensors: Seq<Sensor<R>>, id: i32, i: int) -> bool {
    &&& 0 <= i < sensors.len()
    &&& sensors[i].id == id
    &&& forall|j: int| 0 <= j < i ==> sensors[j].id != id
}

/// Some sensor in `sensors` has the id `id`.
pub open spec fn has_sensor<R>(sensors: Seq<Sensor<R>>, id: i32) -> bool {
    exists|i: int| 0 <= i < sensors.len() && sensors[i].id == id
}

/// `s` with new limits and a new type, stamped with `now`.
pub open spec fn configured<R>(
    s: Sensor<R>,
    min: R,
    max: R,
    sensor_type: String,
    now: Timestamp,
) -> Sensor<R> {
    Sensor {
        id: s.id,
        name: s.name,
        sensor_type: sensor_type,
        value: s.value,
        min_threshold: min,
        max_threshold: max,
        updated: now,
    }
}

/// The sensors after the first one with id `id` got new limits and a new
/// type at time `now`; unchanged when no sensor has that id.
pub open spec fn configure_first<R>(
    sensors: Seq<Sensor<R>>,
    id: i32,
    min: R,
    max: R,
    sensor_type: String,
    now: Timestamp,
) -> Seq<Sensor<R>> {
    if has_sensor(sensors, id) {
        let i = choose|i: int| is_first_with_id(sensors, id, i);
        sensors.update(i, configured(sensors[i], min, max, sensor_type, now))
    } else {
        sensors
    }
}

/// Some sensor has the id `id` exactly when a first such sensor exists.
pub proof fn lemma_first_with_id_exists<R>(sensors: Seq<Sensor<R>>, id: i32)
    requires
        has_sensor(sensors, id),
    ensures
        exists|i: int| is_first_with_id(sensors, id, i),
    decreases sensors.len(),
{
    if sensors[0].id != id {
        let rest = sensors.drop_first();
        let k = choose|k: int| 0 <= k < sensors.len() && sensors[k].id == id;
        assert(rest[k - 1].id == id);
        lemma_first_with_id_exists(rest, id);
        let j = choose|j: int| is_first_with_id(rest, id, j);
        assert forall|m: int| 0 <= m < j + 1 implies sensors[m].id != id by {
            if m > 0 {
                assert(sensors[m] == rest[m - 1]);
            }
        }
        assert(is_first_with_id(sensors, id, j + 1));
    } else {
        assert(is_first_with_id(sensors, id, 0));
    }
}

/// Reading the sensors back after a configuration change shows the new
/// limits and type (and the new time) on the first sensor with that id, with
/// its id, name and reading kept, and every other sensor as it was.
pub proof fn lemma_configuration_reads_back<R>(
    sensors: Seq<Sensor<R>>,
    id: i32,
    min: R,
    max: R,
    sensor_type: String,
    now: Timestamp,
)
    requires
        has_sensor(sensors, id),
    ensures
        ({
            let after = configure_first(sensors, id, min, max, sensor_type, now);
            exists|i: int|
                {
                    &&& is_first_with_id(sensors, id, i)
                    &&& after.len() == sensors.len()
                    &&& after[i].id == id
                    &&& after[i].name == sensors[i].name
                    &&& after[i].value == sensors[i].value
                    &&& after[i].min_threshold == min
                    &&& after[i].max_threshold == max
                    &&& after[i].sensor_type == sensor_type
                    &&& after[i].updated == now
                    &&& forall|j: int| 0 <= j < sensors.len() && j != i ==> after[j] == sensors[j]
                }
        }),
{
    lemma_first_with_id_exists(sensors, id);
    let i = choose|i: int| is_first_with_id(sensors, id, i);
    assert(is_first_with_id(sensors, id, i));
}

/// The reading that a batch update gives the sensor with id `id`: each of the
/// sensors 1 to 5 gets its own reading, any other keeps `current`.
pub open spec fn batch_reading<R>(
    id: i32,
    current: R,
    temp: R,
    light: R,
    tilt: R,
    vibrations: R,
    distance: R,
) -> R {
    if id == 1 {
        temp
    } else if id == 2 {
        light
    } else if id == 3 {
        tilt
    } else if id == 4 {
        vibrations
    } else if id == 5 {
        distance
    } else {
        current
    }
}

/// `s` after a batch update at time `now`.
pub open spec fn batch_updated<R>(
    s: Sensor<R>,
    temp: R,
    light: R,
    tilt: R,
    vibrations: R,
    distance: R,
    now: Timestamp,
) -> Sensor<R> {
    Sensor {
        id: s.id,
        name: s.name,
        sensor_type: s.sensor_type,
        value: batch_reading(s.id, s.value, temp, light, tilt, vibrations, distance),
        min_threshold: s.min_threshold,
        max_threshold: s.max_threshold,
        updated: now,
    }
}

/// The sensors after a batch update at time `now`.
pub open spec fn batch_result<R>(
    sensors: Seq<Sensor<R>>,
    temp: R,
    light: R,
    tilt: R,
    vibrations: R,
    distance: R,
    now: Timestamp,
) -> Seq<Sensor<R>> {
    sensors.map_values(|s: Sensor<R>| batch_updated(s, temp, light, tilt, vibrations, distance, now))
}

/// The largest alarm id in `alarms`, or 0 when there is none.
pub open spec fn alarm_id_ceiling(alarms: Seq<Alarm>) -> int
    decreases alarms.len(),
{
    if alarms.len() == 0 {
        0
    } else if alarms.len() == 1 {
        alarms[0].id as int
    } else {
        let m = alarm_id_ceiling(alarms.drop_last());
        if alarms.last().id > m {
            alarms.last().id as int
        } else {
            m
        }
    }
}

/// The id that the next alarm entry gets.
pub open spec fn next_alarm_id(alarms: Seq<Alarm>) -> int {
    alarm_id_ceiling(alarms) + 1
}

/// The largest id is itself an `i32` (or 0), so a pass that records no event
/// always meets the id bound of an alarm pass.
pub proof fn lemma_ceiling_in_range(alarms: Seq<Alarm>)
    ensures
        i32::MIN <= alarm_id_ceiling(alarms) <= i32::MAX,
    decreases alarms.len(),
{
    if alarms.len() > 1 {
        lemma_ceiling_in_range(alarms.drop_last());
    }
}

/// Appending an entry with the next id moves the ceiling up by one.
pub proof fn lemma_ceiling_after_push(alarms: Seq<Alarm>, a: Alarm)
    requires
        a.id == next_alarm_id(alarms),
    ensures
        alarm_id_ceiling(alarms.push(a)) == alarm_id_ceiling(alarms) + 1,
{
    assert(alarms.push(a).drop_last() =~= alarms);
}

/// The in-memory store of sensors, alarms and network settings.
pub struct SensorRepository<R> {
    ram_db: AppDatabase<R>,
}

impl<R> View for SensorRepository<R> {
    type V = AppDatabase<R>;

    closed spec fn view(&self) -> AppDatabase<R> {
        self.ram_db
    }
}

impl<R: Copy> SensorRepository<R> {
    /// A store that starts with `default_db`.
    pub fn new(default_db: AppDatabase<R>) -> (repo: Self)
        ensures
            repo@ == default_db,
    {
        Self { ram_db: default_db }
    }

    /// A copy of every sensor record, in store order.
    pub fn get_all_sensors(&self) -> (sensors: Vec<Sensor<R>>)
        ensures
            sensors@ == self@.sensor@,
    {
        let mut out: Vec<Sensor<R>> = Vec::new();
        let n = self.ram_db.sensor.len();
        for i in 0..n
            invariant
                n == self@.sensor@.len(),
                out@ == self@.sensor@.take(i as int),
        {
            out.push(self.ram_db.sensor[i].clone());
            assert(out@ =~= self@.sensor@.take(i + 1));
        }
        assert(out@ =~= self@.sensor@);
        out
    }

    /// A copy of the alarm history, oldest first.
    pub fn get_alarm_history(&self) -> (alarms: Vec<Alarm>)
        ensures
            alarms@ == self@.alarm@,
    {
        self.ram_db.alarm.clone()
    }

    /// Sets the limits and type of the first sensor with id `sensor_id` and
    /// stamps it with `now`; the store is unchanged when no sensor has that id.
    pub fn update_sensor_config_at(
        &mut self,
        sensor_id: i32,
        min: R,
        max: R,
        sensor_type: String,
        now: Timestamp,
    )
        ensures
            final(self)@.network == old(self)@.network,
            final(self)@.alarm@ == old(self)@.alarm@,
            final(self)@.sensor@ == configure_first(
                old(self)@.sensor@,
                sensor_id,
                min,
                max,
                sensor_type,
                now,
            ),
    {
        let n = self.ram_db.sensor.len();
        let mut i: usize = 0;
        while i < n
            invariant
                n == self@.sensor@.len(),
                self@ == old(self)@,
                i <= n,
                forall|j: int| 0 <= j < i ==> self@.sensor@[j].id != sensor_id,
            decreases n - i,
        {
            if self.ram_db.sensor[i].id == sensor_id {
                let old_sensor = &self.ram_db.sensor[i];
                let updated = Sensor {
                    id: old_sensor.id,
                    name: old_sensor.name.clone(),
                    sensor_type: sensor_type,
                    value: old_sensor.value,
                    min_threshold: min,
                    max_threshold: max,
                    updated: now,
                };
                self.ram_db.sensor[i] = updated;
                assert(is_first_with_id(old(self)@.sensor@, sensor_id, i as int));
                assert forall|k: int| is_first_with_id(old(self)@.sensor@, sensor_id, k) implies k
                    == i by {
                    if k < i {
                    } else if k > i {
                        assert(old(self)@.sensor@[i as int].id == sensor_id);
                    }
                }
                assert(has_sensor(old(self)@.sensor@, sensor_id));
                return;
            }
            i = i + 1;
        }
        assert(!has_sensor(old(self)@.sensor@, sensor_id));
    }

    /// Whether some sensor has the id `sensor_id`.
    pub fn has_sensor_with_id(&self, sensor_id: i32) -> (found: bool)
        ensures
            found == has_sensor(self@.sensor@, sensor_id),
    {
        let n = self.ram_db.sensor.len();
        let mut i: usize = 0;
        while i < n
            invariant
                n == self@.sensor@.len(),
                i <= n,
                forall|j: int| 0 <= j < i ==> self@.sensor@[j].id != sensor_id,
            decreases n - i,
        {
            if self.ram_db.sensor[i].id == sensor_id {
                return true;
            }
            i = i + 1;
        }
        false
    }

    /// Sets the limits and type of the first sensor with id `sensor_id` and
    /// stamps it with the current time; nothing changes, and no time is read,
    /// when no sensor has that id.  When the sensor exists but the clock gives
    /// no time, nothing changes and the error is returned.
    pub fn update_sensor_config(
        &mut self,
        sensor_id: i32,
        min: R,
        max: R,
        sensor_type: String,
    ) -> (r: Result<(), ClockError>)
        ensures
            final(self)@.network == old(self)@.network,
            final(self)@.alarm@ == old(self)@.alarm@,
            !has_sensor(old(self)@.sensor@, sensor_id) ==> r is Ok && final(self)@.sensor@ == old(
                self,
            )@.sensor@,
            r is Ok ==> exists|now: Timestamp|
                is_clock_time(now) && final(self)@.sensor@ == #[trigger] configure_first(
                    old(self)@.sensor@,
                    sensor_id,
                    min,
                    max,
                    sensor_type,
                    now,
                ),
            r is Err ==> final(self)@.sensor@ == old(self)@.sensor@,
    {
        if !self.has_sensor_with_id(sensor_id) {
            let ghost any_time = Timestamp { secs: 0, nanos: 0 };
            assert(configure_first(old(self)@.sensor@, sensor_id, min, max, sensor_type, any_time)
                == old(self)@.sensor@);
            return Ok(());
        }
        match clock_now() {
            Ok(now) => {
                self.update_sensor_config_at(sensor_id, min, max, sensor_type, now);
                Ok(())
            },
            Err(e) => Err(e),
        }
    }

    /// Appends an alarm entry for `sensor_id` with the next free id, created
    /// at `now`.
    pub fn trigger_alarm_at(&mut self, sensor_id: i32, is_triggered: bool, now: Timestamp)
        requires
            alarm_id_ceiling(old(self)@.alarm@) < i32::MAX,
        ensures
            final(self)@.network == old(self)@.network,
            final(self)@.sensor@ == old(self)@.sensor@,
            final(self)@.alarm@ == old(self)@.alarm@.push(
                Alarm {
                    id: next_alarm_id(old(self)@.alarm@) as i32,
                    sensor_id,
                    is_triggered,
                    created: now,
                },
            ),
    {
        let n = self.ram_db.alarm.len();
        let mut ceiling: i32 = 0;
        for k in 0..n
            invariant
                n == self@.alarm@.len(),
                ceiling == alarm_id_ceiling(self@.alarm@.take(k as int)),
        {
            let id = self.ram_db.alarm[k].id;
            assert(self@.alarm@.take(k + 1).drop_last() =~= self@.alarm@.take(k as int));
            if k == 0 || id > ceiling {
                ceiling = id;
            }
        }
        assert(self@.alarm@.take(n as int) =~= self@.alarm@);
        let new_alarm = Alarm { id: ceiling + 1, sensor_id, is_triggered, created: now };
        self.ram_db.alarm.push(new_alarm);
    }

    /// Appends an alarm entry for `sensor_id` with the next free id, created
    /// at the current time.  When the clock gives no time, nothing changes and
    /// the error is returned.
    pub fn trigger_alarm(&mut self, sensor_id: i32, is_triggered: bool) -> (r: Result<
        (),
        ClockError,
    >)
        requires
            alarm_id_ceiling(old(self)@.alarm@) < i32::MAX,
        ensures
            final(self)@.network == old(self)@.network,
            final(self)@.sensor@ == old(self)@.sensor@,
            r is Err ==> final(self)@.alarm@ == old(self)@.alarm@,
            r is Ok ==> {
                &&& final(self)@.alarm@.len() == old(self)@.alarm@.len() + 1
                &&& final(self)@.alarm@.drop_last() == old(self)@.alarm@
                &&& final(self)@.alarm@.last().id == next_alarm_id(old(self)@.alarm@)
                &&& final(self)@.alarm@.last().sensor_id == sensor_id
                &&& final(self)@.alarm@.last().is_triggered == is_triggered
                &&& is_clock_time(final(self)@.alarm@.last().created)
            },
    {
        match clock_now() {
            Ok(now) => {
                self.trigger_alarm_at(sensor_id, is_triggered, now);
                assert(self@.alarm@.drop_last() =~= old(self)@.alarm@);
                Ok(())
            },
            Err(e) => Err(e),
        }
    }

    /// Stores the readings of one measuring round: sensors 1 to 5 get the
    /// temperature, light, tilt, vibration and distance reading; every sensor
    /// is stamped with `now`.
    pub fn update_all_sensors_batch_at(
        &mut self,
        temp: R,
        light: R,
        tilt: R,
        vibrations: R,
        distance: R,
        now: Timestamp,
    )
        ensures
            final(self)@.network == old(self)@.network,
            final(self)@.alarm@ == old(self)@.alarm@,
            final(self)@.sensor@ == batch_result(
                old(self)@.sensor@,
                temp,
                light,
                tilt,
                vibrations,
                distance,
                now,
            ),
    {
        let n = self.ram_db.sensor.len();
        for i in 0..n
            invariant
                n == self@.sensor@.len(),
                n == old(self)@.sensor@.len(),
                self@.network == old(self)@.network,
                self@.alarm@ == old(self)@.alarm@,
                forall|j: int|
                    0 <= j < i ==> self@.sensor@[j] == batch_updated(
                        old(self)@.sensor@[j],
                        temp,
                        light,
                        tilt,
                        vibrations,
                        distance,
                        now,
                    ),
                forall|j: int| i <= j < n ==> self@.sensor@[j] == old(self)@.sensor@[j],
        {
            let s = &self.ram_db.sensor[i];
            let value = if s.id == 1 {
                temp
            } else if s.id == 2 {
                light
            } else if s.id == 3 {
                tilt
            } else if s.id == 4 {
                vibrations
            } else if s.id == 5 {
                distance
            } else {
                s.value
            };
            let updated = Sensor {
                id: s.id,
                name: s.name.clone(),
                sensor_type: s.sensor_type.clone(),
                value,
                min_threshold: s.min_threshold,
                max_threshold: s.max_threshold,
                updated: now,
            };
            self.ram_db.sensor[i] = updated;
        }
        assert(self@.sensor@ =~= batch_result(
            old(self)@.sensor@,
            temp,
            light,
            tilt,
            vibrations,
            distance,
            now,
        ));
    }

    /// Stores the readings of one measuring round, stamped with the current
    /// time (one time for all sensors).  When the clock gives no time,
    /// nothing changes and the error is returned.
    pub fn update_all_sensors_batch(
        &mut self,
        temp: R,
        light: R,
        tilt: R,
        vibrations: R,
        distance: R,
    ) -> (r: Result<(), ClockError>)
        ensures
            final(self)@.network == old(self)@.network,
            final(self)@.alarm@ == old(self)@.alarm@,
            r is Ok ==> exists|now: Timestamp|
                is_clock_time(now) && final(self)@.sensor@ == #[trigger] batch_result(
                    old(self)@.sensor@,
                    temp,
                    light,
                    tilt,
                    vibrations,
                    distance,
                    now,
                ),
            r is Err ==> final(self)@.sensor@ == old(self)@.sensor@,
    {
        match clock_now() {
            Ok(now) => {
                self.update_all_sensors_batch_at(temp, light, tilt, vibrations, distance, now);
                Ok(())
            },
            Err(e) => Err(e),
        }
    }
}

} // verus!
