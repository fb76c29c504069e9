use std::time::{SystemTime, UNIX_EPOCH};
use vstd::prelude::*;

verus! {

/// A point in time: whole seconds since the Unix epoch and the nanoseconds
/// past that second.
#[derive(Clone, Copy, Debug, PartialEq, Eq, Structural)]
pub struct Timestamp {
    pub secs: i64,
    pub nanos: u32,
}

/// A time the clock can give: not before the epoch, with the nanoseconds
/// below one second.
pub open spec fn is_clock_time(t: Timestamp) -> bool {
    t.secs >= 0 && t.nanos < 1_000_000_000
}

/// The clock could not give a time: it reads before the Unix epoch, or
/// later than a UTC date-time can hold.
#[derive(Clone, Copy, Debug, PartialEq, Eq, Structural)]
pub struct ClockError;

#[verifier::external_type_specification]
#[verifier::external_body]
pub struct ExSystemTime(std::time::SystemTime);

/// `SystemTime::now`: the system clock's current reading.  It depends on the
/// clock alone, so nothing is claimed of it.
#[verifier::external_body]
fn system_time_now() -> (t: SystemTime) {
    SystemTime::now()
}

/// `SystemTime::duration_since(UNIX_EPOCH)`, taken apart into whole seconds
/// (`Duration::as_secs`) and the nanoseconds past them
/// (`Duration::subsec_nanos`); `None` when `t` lies before the epoch (the
/// call's error).  Claimed: the nanoseconds are below one second, as
/// `subsec_nanos` documents.
#[verifier::external_body]
fn duration_since_epoch(t: &SystemTime) -> (d: Option<(u64, u32)>)
    ensures
        d matches Some(p) ==> p.1 < 1_000_000_000,
{
    match t.duration_since(UNIX_EPOCH) {
        Ok(d) => Some((d.as_secs(), d.subsec_nanos())),
        Err(_) => None,
    }
}

/// `chrono::DateTime::from_timestamp(secs, nanos)`, taken apart again with
/// `DateTime::timestamp` and `DateTime::timestamp_subsec_nanos`; `None` where
/// chrono finds the seconds out of its range or the nanoseconds invalid.
/// Claimed: a time it builds gives back the same seconds and nanoseconds
/// (chrono documents that round trip, and its source splits `secs` into days
/// and seconds of the day that `timestamp` adds up again).  When it returns
/// `Some` is not claimed.
#[verifier::external_body]
fn utc_from_timestamp(secs: i64, nanos: u32) -> (t: Option<Timestamp>)
    ensures
        t matches Some(v) ==> v.secs == secs && v.nanos == nanos,
{
    match chrono::DateTime::from_timestamp(secs, nanos) {
        Some(dt) => Some(Timestamp { secs: dt.timestamp(), nanos: dt.timestamp_subsec_nanos() }),
        None => None,
    }
}

/// The current UTC time, or `ClockError` when the system clock reads before
/// the epoch or beyond what a UTC date-time can hold.  A time it gives is a
/// clock time (see [`is_clock_time`]).
pub fn clock_now() -> (now: Result<Timestamp, ClockError>)
    ensures
        now matches Ok(t) ==> is_clock_time(t),
{
    let t = system_time_now();
    match duration_since_epoch(&t) {
        None => Err(ClockError),
        Some((secs, nanos)) => {
            if secs > 9_223_372_036_854_775_807u64 {
                return Err(ClockError);
            }
            match utc_from_timestamp(secs as i64, nanos) {
                Some(now) => Ok(now),
                None => Err(ClockError),
            }
        },
    }
}

/// The WiFi network the station joins.
pub struct Network {
    pub ssid: String,
    pub password: String,
    pub is_active: bool,
}

impl Clone for Network {
    fn clone(&self) -> (res: Self)
        ensures
            res == *self,
    {
        Network { ssid: self.ssid.clone(), password: self.password.clone(), is_active: self.is_active }
    }
}

/// One sensor record.  `R` is the type of the measured quantity; the store
/// only keeps such values and never inspects them.
pub struct Sensor<R> {
    pub id: i32,
    pub name: String,
    pub sensor_type: String,
    pub value: R,
    pub min_threshold: R,
    pub max_threshold: R,
    pub updated: Timestamp,
}

impl<R: Copy> Clone for Sensor<R> {
    fn clone(&self) -> (res: Self)
        ensures
            res == *self,
    {
        Sensor {
            id: self.id,
            name: self.name.clone(),
            sensor_type: self.sensor_type.clone(),
            value: self.value,
            min_threshold: self.min_threshold,
            max_threshold: self.max_threshold,
            updated: self.updated,
        }
    }
}

/// One entry of the alarm history: a sensor's alarm was raised
/// (`is_triggered`) or cleared.
#[derive(Clone, Copy, Debug, PartialEq, Eq, Structural)]
pub struct Alarm {
    pub id: i32,
    pub sensor_id: i32,
    pub is_triggered: bool,
    pub created: Timestamp,
}

/// The whole in-memory database.
pub struct AppDatabase<R> {
    pub network: Network,
    pub sensor: Vec<Sensor<R>>,
    pub alarm: Vec<Alarm>,
}

} // verus!
