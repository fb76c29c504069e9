use sensor_monitor::database::models::{clock_now, Alarm, AppDatabase, Network, Sensor, Timestamp};
use sensor_monitor::database::repository::SensorRepository;
use sensor_monitor::database::storage::init_storage;

fn sensor(id: i32, name: &str, kind: &str, value: f32, min: f32, max: f32) -> Sensor<f32> {
    Sensor {
        id,
        name: name.to_string(),
        sensor_type: kind.to_string(),
        value,
        min_threshold: min,
        max_threshold: max,
        updated: Timestamp { secs: 0, nanos: 0 },
    }
}

fn network() -> Network {
    Network { ssid: "home".to_string(), password: "secret".to_string(), is_active: false }
}

fn sample_db() -> AppDatabase<f32> {
    AppDatabase {
        network: network(),
        sensor: vec![
            sensor(1, "Temp sensor", "adc", 0.0, 15.0, 40.0),
            sensor(2, "Light sensor", "adc", 0.0, 20.0, 60.0),
            sensor(5, "Collision sensor", "digital", 400.0, 30.0, 200.0),
        ],
        alarm: Vec::new(),
    }
}

fn alarm(id: i32, sensor_id: i32) -> Alarm {
    Alarm { id, sensor_id, is_triggered: true, created: Timestamp { secs: 1, nanos: 0 } }
}

#[test]
fn get_all_sensors_returns_every_record_in_order() {
    let repo = SensorRepository::new(sample_db());
    let sensors = repo.get_all_sensors();
    let ids: Vec<i32> = sensors.iter().map(|s| s.id).collect();
    assert_eq!(ids, vec![1, 2, 5]);
    assert_eq!(sensors[2].name, "Collision sensor");
    assert_eq!(sensors[2].value, 400.0);
    assert!(repo.get_alarm_history().is_empty());
}

#[test]
fn update_sensor_config_changes_limits_and_type_of_that_sensor() {
    let mut repo = SensorRepository::new(sample_db());
    repo.update_sensor_config(2, 10.0, 90.0, "analog".to_string()).unwrap();
    let sensors = repo.get_all_sensors();
    assert_eq!(sensors[1].min_threshold, 10.0);
    assert_eq!(sensors[1].max_threshold, 90.0);
    assert_eq!(sensors[1].sensor_type, "analog");
    assert_eq!(sensors[1].name, "Light sensor");
    assert!(sensors[1].updated.secs > 1_600_000_000);
    assert!(sensors[1].updated.nanos < 1_000_000_000);
    assert_eq!(sensors[0].min_threshold, 15.0);
    assert_eq!(sensors[0].updated, Timestamp { secs: 0, nanos: 0 });
    assert_eq!(sensors[2].max_threshold, 200.0);
}

#[test]
fn update_sensor_config_at_only_touches_the_first_match() {
    let mut db = sample_db();
    db.sensor.push(sensor(2, "Second light", "adc", 1.0, 2.0, 3.0));
    let mut repo = SensorRepository::new(db);
    let now = Timestamp { secs: 77, nanos: 5 };
    repo.update_sensor_config_at(2, -1.0, 1.0, "x".to_string(), now);
    let sensors = repo.get_all_sensors();
    assert_eq!(sensors[1].min_threshold, -1.0);
    assert_eq!(sensors[1].updated, now);
    assert_eq!(sensors[3].min_threshold, 2.0);
    assert_eq!(sensors[3].sensor_type, "adc");
}

#[test]
fn update_sensor_config_of_unknown_sensor_changes_nothing() {
    let mut repo = SensorRepository::new(sample_db());
    repo.update_sensor_config(9, 1.0, 2.0, "none".to_string()).unwrap();
    let sensors = repo.get_all_sensors();
    assert_eq!(sensors.len(), 3);
    for (s, t) in sensors.iter().zip(sample_db().sensor.iter()) {
        assert_eq!(s.min_threshold, t.min_threshold);
        assert_eq!(s.max_threshold, t.max_threshold);
        assert_eq!(s.sensor_type, t.sensor_type);
        assert_eq!(s.updated, t.updated);
    }
}

#[test]
fn trigger_alarm_numbers_entries_from_one() {
    let mut repo = SensorRepository::new(sample_db());
    repo.trigger_alarm(1, true).unwrap();
    repo.trigger_alarm(5, false).unwrap();
    let alarms = repo.get_alarm_history();
    assert_eq!(alarms.len(), 2);
    assert_eq!((alarms[0].id, alarms[0].sensor_id, alarms[0].is_triggered), (1, 1, true));
    assert_eq!((alarms[1].id, alarms[1].sensor_id, alarms[1].is_triggered), (2, 5, false));
    assert!(alarms[0].created.secs > 1_600_000_000);
}

#[test]
fn trigger_alarm_continues_after_the_largest_id() {
    let mut db = sample_db();
    db.alarm = vec![alarm(3, 1), alarm(7, 2), alarm(4, 1)];
    let mut repo = SensorRepository::new(db);
    let now = Timestamp { secs: 9, nanos: 9 };
    repo.trigger_alarm_at(2, false, now);
    let alarms = repo.get_alarm_history();
    assert_eq!(alarms.len(), 4);
    assert_eq!(alarms[3], Alarm { id: 8, sensor_id: 2, is_triggered: false, created: now });
}

#[test]
fn trigger_alarm_after_negative_ids_only() {
    let mut db = sample_db();
    db.alarm = vec![alarm(-5, 1), alarm(-9, 1)];
    let mut repo = SensorRepository::new(db);
    repo.trigger_alarm(1, true).unwrap();
    assert_eq!(repo.get_alarm_history()[2].id, -4);
}

#[test]
fn batch_update_stores_each_reading_and_one_time() {
    let mut db = sample_db();
    db.sensor.push(sensor(3, "Tilt sensor", "digital", 0.0, 0.0, 1.0));
    db.sensor.push(sensor(4, "Shock sensor", "digital", 0.0, 0.0, 1.0));
    db.sensor.push(sensor(8, "Spare", "digital", 6.5, 0.0, 1.0));
    let mut repo = SensorRepository::new(db);
    repo.update_all_sensors_batch(21.5, 55.0, 1.0, 0.0, 123.0).unwrap();
    let sensors = repo.get_all_sensors();
    let values: Vec<(i32, f32)> = sensors.iter().map(|s| (s.id, s.value)).collect();
    assert_eq!(values, vec![(1, 21.5), (2, 55.0), (5, 123.0), (3, 1.0), (4, 0.0), (8, 6.5)]);
    assert!(sensors.iter().all(|s| s.updated == sensors[0].updated));
    assert!(sensors[0].updated.secs > 1_600_000_000);
    assert_eq!(sensors[0].min_threshold, 15.0);
}

#[test]
fn batch_update_at_uses_the_given_time() {
    let mut repo = SensorRepository::new(sample_db());
    let now = Timestamp { secs: 42, nanos: 1 };
    repo.update_all_sensors_batch_at(1.0, 2.0, 3.0, 4.0, 5.0, now);
    let sensors = repo.get_all_sensors();
    assert!(sensors.iter().all(|s| s.updated == now));
    assert_eq!(sensors[1].value, 2.0);
}

#[test]
fn init_storage_builds_the_five_default_sensors() {
    let readings = [
        (0.0, 15.0, 40.0),
        (0.0, 20.0, 60.0),
        (0.0, 0.0, 1.0),
        (0.0, 0.0, 1.0),
        (400.0, 30.0, 200.0),
    ];
    let db = init_storage("0".to_string(), "0".to_string(), readings).unwrap();
    assert_eq!(db.network.ssid, "0");
    assert!(!db.network.is_active);
    assert!(db.alarm.is_empty());
    let names: Vec<&str> = db.sensor.iter().map(|s| s.name.as_str()).collect();
    assert_eq!(
        names,
        vec!["Temp sensor", "Light sensor", "Tilt sensor", "Shock sensor", "Collision sensor"]
    );
    let kinds: Vec<&str> = db.sensor.iter().map(|s| s.sensor_type.as_str()).collect();
    assert_eq!(kinds, vec!["adc", "adc", "digital", "digital", "digital"]);
    let ids: Vec<i32> = db.sensor.iter().map(|s| s.id).collect();
    assert_eq!(ids, vec![1, 2, 3, 4, 5]);
    assert_eq!(db.sensor[4].value, 400.0);
    assert_eq!(db.sensor[1].max_threshold, 60.0);
}

#[test]
fn clock_now_reads_the_current_time() {
    let t = clock_now().unwrap();
    assert!(t.secs > 1_600_000_000);
    assert!(t.nanos < 1_000_000_000);
}

#[test]
fn has_sensor_with_id_finds_stored_ids() {
    let repo = SensorRepository::new(sample_db());
    assert!(repo.has_sensor_with_id(5));
    assert!(!repo.has_sensor_with_id(3));
}
