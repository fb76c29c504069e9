use vstd::prelude::*;

use crate::database::models::{is_clock_time, ClockError, Sensor, Timestamp};
use crate::database::repository::{configure_first, has_sensor, is_first_with_id, SensorRepository};
use crate::text::{decimal_text, format_i32, parse_i32, parse_i32_spec, push_bytes, push_text};
use vstd::string::StringSliceAdditionalSpecFns;

verus! {

/// What the sensor list shows of one sensor.  The readings come already
/// written out (two decimals); the name is written as it is.
pub struct SensorJsonRow {
    pub id: i32,
    pub name: Vec<u8>,
    pub value: Vec<u8>,
    pub min_threshold: Vec<u8>,
    pub max_threshold: Vec<u8>,
}

/// The JSON object of one row.
pub open spec fn sensor_object(r: SensorJsonRow) -> Seq<u8> {
    "{\"id\":".spec_bytes() + decimal_text(r.id as int) + ",\"name\":\"".spec_bytes() + r.name@
        + "\",\"value\":".spec_bytes() + r.value@ + ",\"min_threshold\":".spec_bytes()
        + r.min_threshold@ + ",\"max_threshold\":".spec_bytes() + r.max_threshold@
        + "}".spec_bytes()
}

/// The objects of `rows`, separated by commas.
pub open spec fn joined_objects(rows: Seq<SensorJsonRow>) -> Seq<u8>
    decreases rows.len(),
{
    if rows.len() == 0 {
        Seq::empty()
    } else if rows.len() == 1 {
        sensor_object(rows[0])
    } else {
        joined_objects(rows.drop_last()) + ",".spec_bytes() + sensor_object(rows.last())
    }
}

/// The JSON array of the sensor list.
pub open spec fn sensors_json_spec(rows: Seq<SensorJsonRow>) -> Seq<u8> {
    "[".spec_bytes() + joined_objects(rows) + "]".spec_bytes()
}

/// Appends the JSON object of `r` to `out`.
fn push_object(out: &mut Vec<u8>, r: &SensorJsonRow)
    ensures
        final(out)@ == old(out)@ + sensor_object(*r),
{
    push_text(out, "{\"id\":");
    let id_text = format_i32(r.id);
    push_bytes(out, id_text.as_slice());
    push_text(out, ",\"name\":\"");
    push_bytes(out, r.name.as_slice());
    push_text(out, "\",\"value\":");
    push_bytes(out, r.value.as_slice());
    push_text(out, ",\"min_threshold\":");
    push_bytes(out, r.min_threshold.as_slice());
    push_text(out, ",\"max_threshold\":");
    push_bytes(out, r.max_threshold.as_slice());
    push_text(out, "}");
    assert(out@ =~= old(out)@ + sensor_object(*r));
}

/// Adding a row to a non-empty list adds exactly one comma and that row's
/// object at the end; a single row is its object alone.  So a list of `n`
/// rows holds its `n` objects in order with a comma between each two.
pub proof fn lemma_one_comma_between_objects(rows: Seq<SensorJsonRow>, r: SensorJsonRow)
    ensures
        rows.len() >= 1 ==> joined_objects(rows.push(r)) == joined_objects(rows) + ",".spec_bytes()
            + sensor_object(r),
        rows.len() == 0 ==> joined_objects(rows.push(r)) == sensor_object(r),
        sensors_json_spec(rows.push(r)) == "[".spec_bytes() + joined_objects(rows.push(r))
            + "]".spec_bytes(),
{
    assert(rows.push(r).drop_last() =~= rows);
    assert(rows.push(r).last() == r);
    if rows.len() == 0 {
        assert(rows.push(r)[0] == r);
    }
}

/// Writes the sensor list as a JSON array with one object per row, in row
/// order.
pub fn sensors_json(rows: &Vec<SensorJsonRow>) -> (json: Vec<u8>)
    ensures
        json@ == sensors_json_spec(rows@),
{
    let mut out: Vec<u8> = Vec::new();
    push_text(&mut out, "[");
    let n = rows.len();
    for i in 0..n
        invariant
            n == rows@.len(),
            out@ == "[".spec_bytes() + joined_objects(rows@.take(i as int)),
    {
        let ghost before = out@;
        if i > 0 {
            push_text(&mut out, ",");
        }
        push_object(&mut out, &rows[i]);
        proof {
            let taken = rows@.take(i + 1);
            assert(taken.drop_last() =~= rows@.take(i as int));
            assert(taken.last() == rows@[i as int]);
            if i == 0 {
                assert(rows@.take(0) =~= Seq::<SensorJsonRow>::empty());
                assert(out@ =~= "[".spec_bytes() + joined_objects(taken));
            } else {
                assert(out@ =~= "[".spec_bytes() + joined_objects(taken));
            }
        }
    }
    assert(rows@.take(n as int) =~= rows@);
    push_text(&mut out, "]");
    out
}

/// The pieces of `s` between commas, as `split(',')` cuts them: one more
/// piece than there are commas, empty pieces included.
pub open spec fn split_commas(s: Seq<u8>) -> Seq<Seq<u8>>
    decreases s.len(),
{
    if s.len() == 0 {
        seq![Seq::empty()]
    } else {
        let parts = split_commas(s.drop_last());
        if s.last() == 44 {
            parts.push(Seq::empty())
        } else {
            parts.update(parts.len() - 1, parts.last().push(s.last()))
        }
    }
}

/// `s` holds no comma.
pub open spec fn comma_free(s: Seq<u8>) -> bool {
    forall|i: int| 0 <= i < s.len() ==> s[i] != 44
}

proof fn lemma_split_nonempty(s: Seq<u8>)
    ensures
        split_commas(s).len() >= 1,
    decreases s.len(),
{
    if s.len() > 0 {
        lemma_split_nonempty(s.drop_last());
    }
}

/// Appending comma-free bytes extends the last piece.
proof fn lemma_split_append_plain(s: Seq<u8>, t: Seq<u8>)
    requires
        comma_free(t),
    ensures
        split_commas(s + t) == split_commas(s).update(
            split_commas(s).len() - 1,
            split_commas(s).last() + t,
        ),
    decreases t.len(),
{
    lemma_split_nonempty(s);
    if t.len() == 0 {
        assert(s + t =~= s);
        assert(split_commas(s).last() + t =~= split_commas(s).last());
        assert(split_commas(s).update(split_commas(s).len() - 1, split_commas(s).last())
            =~= split_commas(s));
    } else {
        let t0 = t.drop_last();
        assert forall|i: int| 0 <= i < t0.len() implies t0[i] != 44 by {
            assert(t0[i] == t[i]);
        }
        lemma_split_append_plain(s, t0);
        assert((s + t).drop_last() =~= s + t0);
        assert((s + t).last() == t.last());
        assert(t.last() != 44);
        let parts = split_commas(s);
        let u = s + t;
        let k = parts.len() - 1;
        let prev = parts.update(k, parts.last() + t0);
        assert(split_commas(u.drop_last()) == prev);
        assert(u.len() > 0);
        assert(u.last() != 44);
        assert(split_commas(u) == prev.update(prev.len() - 1, prev.last().push(u.last())));
        assert(prev.len() == parts.len());
        assert(prev.last() == parts.last() + t0);
        assert((parts.last() + t0).push(t.last()) =~= parts.last() + t);
        assert(prev.update(k, (parts.last() + t0).push(t.last())) =~= parts.update(
            k,
            parts.last() + t,
        ));
    }
}

/// Appending a comma opens a new, empty piece.
proof fn lemma_split_append_comma(s: Seq<u8>)
    ensures
        split_commas(s.push(44)) == split_commas(s).push(Seq::<u8>::empty()),
{
    assert(s.push(44).drop_last() =~= s);
}

/// A body `a,b,c` whose three pieces hold no comma and whose first piece
/// reads as the `i32` `v` is accepted with id `v` and limit texts `b` and `c`,
/// whatever bytes `b` and `c` hold (a minus sign included).
pub proof fn lemma_three_pieces_accepted(a: Seq<u8>, b: Seq<u8>, c: Seq<u8>, v: i32)
    requires
        comma_free(a),
        comma_free(b),
        comma_free(c),
        parse_i32_spec(a) == Some(v),
    ensures
        parse_settings_spec(a + seq![44u8] + b + seq![44u8] + c) == Some((v, b, c)),
{
    let e = Seq::<u8>::empty();
    assert(e + a =~= a);
    lemma_split_append_plain(e, a);
    assert(split_commas(e) =~= seq![e]);
    assert(split_commas(a) =~= seq![a]);
    let x1 = a.push(44u8);
    lemma_split_append_comma(a);
    assert(split_commas(x1) =~= seq![a, e]);
    lemma_split_append_plain(x1, b);
    assert(split_commas(x1 + b) =~= seq![a, b]);
    let x2 = (x1 + b).push(44u8);
    lemma_split_append_comma(x1 + b);
    assert(split_commas(x2) =~= seq![a, b, e]);
    lemma_split_append_plain(x2, c);
    assert(split_commas(x2 + c) =~= seq![a, b, c]);
    assert(a + seq![44u8] + b + seq![44u8] + c =~= x2 + c);
}

/// A request to change a sensor's limits: the sensor's id and the two limits,
/// still as text.
pub struct SettingsRequest {
    pub sensor_id: i32,
    pub min_text: Vec<u8>,
    pub max_text: Vec<u8>,
}

/// What a settings body `sensor_id,min,max` holds: exactly three
/// comma-separated pieces, the first of them an `i32`.
pub open spec fn parse_settings_spec(body: Seq<u8>) -> Option<(i32, Seq<u8>, Seq<u8>)> {
    let parts = split_commas(body);
    if parts.len() == 3 && parse_i32_spec(parts[0]) is Some {
        Some((parse_i32_spec(parts[0])->0, parts[1], parts[2]))
    } else {
        None
    }
}

/// Reads a settings body `sensor_id,min,max`; `None` when it does not have
/// exactly three pieces or the first is not an `i32`.
pub fn parse_settings(body: &[u8]) -> (req: Option<SettingsRequest>)
    ensures
        match req {
            Some(r) => parse_settings_spec(body@) == Some((r.sensor_id, r.min_text@, r.max_text@)),
            None => parse_settings_spec(body@) is None,
        },
{
    let n = body.len();
    let mut parts: Vec<Vec<u8>> = Vec::new();
    let mut cur: Vec<u8> = Vec::new();
    assert(body@.take(0) =~= Seq::<u8>::empty());
    assert(parts@.map_values(|v: Vec<u8>| v@).push(cur@) =~= seq![Seq::<u8>::empty()]);
    for i in 0..n
        invariant
            n == body@.len(),
            split_commas(body@.take(i as int)) == parts@.map_values(|v: Vec<u8>| v@).push(cur@),
    {
        let b = body[i];
        let ghost prev_parts = parts@.map_values(|v: Vec<u8>| v@);
        let ghost prev_cur = cur@;
        assert(body@.take(i + 1).drop_last() =~= body@.take(i as int));
        if b == 44u8 {
            let piece = cur;
            cur = Vec::new();
            parts.push(piece);
            assert(parts@.map_values(|v: Vec<u8>| v@).push(cur@) =~= prev_parts.push(prev_cur).push(
                Seq::empty(),
            ));
        } else {
            cur.push(b);
            assert(parts@.map_values(|v: Vec<u8>| v@).push(cur@) =~= prev_parts.push(
                prev_cur,
            ).update(prev_parts.len() as int, prev_cur.push(b)));
        }
    }
    assert(body@.take(n as int) =~= body@);
    if parts.len() != 2 {
        return None;
    }
    let min_text = parts.pop().unwrap();
    let first = parts.pop().unwrap();
    match parse_i32(first.as_slice()) {
        Some(sensor_id) => Some(SettingsRequest { sensor_id, min_text, max_text: cur }),
        None => None,
    }
}

/// The type of the first sensor with id `id`.
pub open spec fn first_sensor_type<R>(sensors: Seq<Sensor<R>>, id: i32) -> String {
    sensors[choose|i: int| is_first_with_id(sensors, id, i)].sensor_type
}

/// Applying settings keeps the type of the sensor they are for: with the
/// type taken from the first sensor with the id, that sensor ends with the
/// new limits, its own type and its name and reading, and every other
/// sensor is as it was.
pub proof fn lemma_settings_keep_type<R>(
    sensors: Seq<Sensor<R>>,
    id: i32,
    min: R,
    max: R,
    now: Timestamp,
)
    ensures
        forall|i: int|
            is_first_with_id(sensors, id, i) ==> {
                let after = configure_first(
                    sensors,
                    id,
                    min,
                    max,
                    first_sensor_type(sensors, id),
                    now,
                );
                &&& first_sensor_type(sensors, id) == sensors[i].sensor_type
                &&& after.len() == sensors.len()
                &&& after[i].sensor_type == sensors[i].sensor_type
                &&& after[i].min_threshold == min
                &&& after[i].max_threshold == max
                &&& after[i].name == sensors[i].name
                &&& after[i].value == sensors[i].value
                &&& forall|j: int| 0 <= j < sensors.len() && j != i ==> after[j] == sensors[j]
            },
{
    assert forall|i: int| is_first_with_id(sensors, id, i) implies {
        let after = configure_first(sensors, id, min, max, first_sensor_type(sensors, id), now);
        &&& first_sensor_type(sensors, id) == sensors[i].sensor_type
        &&& after.len() == sensors.len()
        &&& after[i].sensor_type == sensors[i].sensor_type
        &&& after[i].min_threshold == min
        &&& after[i].max_threshold == max
        &&& after[i].name == sensors[i].name
        &&& after[i].value == sensors[i].value
        &&& forall|j: int| 0 <= j < sensors.len() && j != i ==> after[j] == sensors[j]
    } by {
        assert(has_sensor(sensors, id));
        let k = choose|k: int| is_first_with_id(sensors, id, k);
        assert(is_first_with_id(sensors, id, k));
        if k < i {
            assert(sensors[k].id == id);
        } else if k > i {
            assert(sensors[i].id == id);
        }
        assert(k == i);
    }
}

/// Gives the first sensor with id `sensor_id` new limits, keeping its type,
/// and stamps it with the current time; nothing changes when no sensor has
/// that id.  When the sensor exists but the clock gives no time, nothing
/// changes and the error is returned.
pub fn apply_settings<R: Copy>(db: &mut SensorRepository<R>, sensor_id: i32, min: R, max: R) -> (r:
    Result<(), ClockError>)
    ensures
        final(db)@.network == old(db)@.network,
        final(db)@.alarm@ == old(db)@.alarm@,
        !has_sensor(old(db)@.sensor@, sensor_id) ==> r is Ok && final(db)@.sensor@ == old(
            db,
        )@.sensor@,
        r is Err ==> final(db)@.sensor@ == old(db)@.sensor@,
        r is Ok && has_sensor(old(db)@.sensor@, sensor_id) ==> exists|now: Timestamp|
            is_clock_time(now) && final(db)@.sensor@ == #[trigger] configure_first(
                old(db)@.sensor@,
                sensor_id,
                min,
                max,
                first_sensor_type(old(db)@.sensor@, sensor_id),
                now,
            ),
        r is Ok ==> forall|i: int|
            #![trigger is_first_with_id(old(db)@.sensor@, sensor_id, i)]
            is_first_with_id(old(db)@.sensor@, sensor_id, i) ==> {
                &&& final(db)@.sensor@.len() == old(db)@.sensor@.len()
                &&& final(db)@.sensor@[i].sensor_type == old(db)@.sensor@[i].sensor_type
                &&& final(db)@.sensor@[i].name == old(db)@.sensor@[i].name
                &&& final(db)@.sensor@[i].min_threshold == min
                &&& final(db)@.sensor@[i].max_threshold == max
            },
{
    let sensors = db.get_all_sensors();
    let n = sensors.len();
    let mut i: usize = 0;
    while i < n
        invariant
            n == sensors@.len(),
            sensors@ == old(db)@.sensor@,
            db@ == old(db)@,
            i <= n,
            forall|j: int| 0 <= j < i ==> sensors@[j].id != sensor_id,
        decreases n - i,
    {
        if sensors[i].id == sensor_id {
            let sensor_type = sensors[i].sensor_type.clone();
            proof {
                assert(is_first_with_id(old(db)@.sensor@, sensor_id, i as int));
                assert forall|k: int| is_first_with_id(old(db)@.sensor@, sensor_id, k) implies k
                    == i by {
                    if k > i {
                        assert(old(db)@.sensor@[i as int].id == sensor_id);
                    }
                }
                assert(sensor_type == first_sensor_type(old(db)@.sensor@, sensor_id));
            }
            let r = db.update_sensor_config(sensor_id, min, max, sensor_type);
            proof {
                if r is Ok {
                    let now = choose|now: Timestamp|
                        is_clock_time(now) && db@.sensor@ == #[trigger] configure_first(
                            old(db)@.sensor@,
                            sensor_id,
                            min,
                            max,
                            first_sensor_type(old(db)@.sensor@, sensor_id),
                            now,
                        );
                    lemma_settings_keep_type(old(db)@.sensor@, sensor_id, min, max, now);
                }
            }
            return r;
        }
        i = i + 1;
    }
    assert(!has_sensor(old(db)@.sensor@, sensor_id));
    Ok(())
}

} // verus!
