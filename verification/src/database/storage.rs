use vstd::prelude::*;

use crate::database::models::{
    clock_now, is_clock_time, AppDatabase, ClockError, Network, Sensor,
};
use crate::monitor::{ids_distinct, ids_fit_alarm_table};

verus! {

/// The name of the default sensor with id `id` (1 to 5).
pub open spec fn default_sensor_name(id: int) -> Seq<char> {
    if id == 1 {
        "Temp sensor"@
    } else if id == 2 {
        "Light sensor"@
    } else if id == 3 {
        "Tilt sensor"@
    } else if id == 4 {
        "Shock sensor"@
    } else {
        "Collision sensor"@
    }
}

/// The type of the default sensor with id `id` (1 to 5): the temperature and
/// light sensors are analog, the others digital.
pub open spec fn default_sensor_type(id: int) -> Seq<char> {
    if id == 1 || id == 2 {
        "adc"@
    } else {
        "digital"@
    }
}

fn default_sensor<R: Copy>(id: i32, name: &str, sensor_type: &str, reading: (R, R, R)) -> (r:
    Result<Sensor<R>, ClockError>)
    ensures
        r matches Ok(s) ==> {
            &&& s.id == id
            &&& s.name@ == name@
            &&& s.sensor_type@ == sensor_type@
            &&& s.value == reading.0
            &&& s.min_threshold == reading.1
            &&& s.max_threshold == reading.2
            &&& is_clock_time(s.updated)
        },
{
    let updated = match clock_now() {
        Ok(t) => t,
        Err(e) => return Err(e),
    };
    Ok(Sensor {
        id,
        name: name.to_owned(),
        sensor_type: sensor_type.to_owned(),
        value: reading.0,
        min_threshold: reading.1,
        max_threshold: reading.2,
        updated,
    })
}

/// The database the station starts with: the given network (not yet
/// active), no alarms, and the five sensors with ids 1 to 5 (temperature,
/// light, tilt, shock, collision), each with its start value and limits from
/// `readings` (value, minimum, maximum) and stamped with the current time.
/// Fails only when the clock gives no time.
pub fn init_storage<R: Copy>(ssid: String, password: String, readings: [(R, R, R); 5]) -> (r:
    Result<AppDatabase<R>, ClockError>)
    ensures
        r matches Ok(db) ==> {
            &&& db.network == (Network { ssid, password, is_active: false })
            &&& db.alarm@.len() == 0
            &&& db.sensor@.len() == 5
            &&& forall|k: int|
                0 <= k < 5 ==> {
                    let s = #[trigger] db.sensor@[k];
                    &&& s.id == k + 1
                    &&& s.name@ == default_sensor_name(k + 1)
                    &&& s.sensor_type@ == default_sensor_type(k + 1)
                    &&& s.value == readings[k].0
                    &&& s.min_threshold == readings[k].1
                    &&& s.max_threshold == readings[k].2
                    &&& is_clock_time(s.updated)
                }
            &&& ids_fit_alarm_table(db.sensor@)
            &&& ids_distinct(db.sensor@)
        },
{
    let mut sensor: Vec<Sensor<R>> = Vec::new();
    match default_sensor(1, "Temp sensor", "adc", readings[0]) {
        Ok(s) => sensor.push(s),
        Err(e) => return Err(e),
    }
    match default_sensor(2, "Light sensor", "adc", readings[1]) {
        Ok(s) => sensor.push(s),
        Err(e) => return Err(e),
    }
    match default_sensor(3, "Tilt sensor", "digital", readings[2]) {
        Ok(s) => sensor.push(s),
        Err(e) => return Err(e),
    }
    match default_sensor(4, "Shock sensor", "digital", readings[3]) {
        Ok(s) => sensor.push(s),
        Err(e) => return Err(e),
    }
    match default_sensor(5, "Collision sensor", "digital", readings[4]) {
        Ok(s) => sensor.push(s),
        Err(e) => return Err(e),
    }
    Ok(AppDatabase { network: Network { ssid, password, is_active: false }, sensor, alarm: Vec::new() })
}

} // verus!
