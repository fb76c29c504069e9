use sensor_monitor::database::models::{AppDatabase, Network, Sensor, Timestamp};
use sensor_monitor::database::repository::SensorRepository;
use sensor_monitor::website::urls::{apply_settings, parse_settings, sensors_json, SensorJsonRow};

fn row(id: i32, name: &str, value: &str, min: &str, max: &str) -> SensorJsonRow {
    SensorJsonRow {
        id,
        name: name.as_bytes().to_vec(),
        value: value.as_bytes().to_vec(),
        min_threshold: min.as_bytes().to_vec(),
        max_threshold: max.as_bytes().to_vec(),
    }
}

#[test]
fn sensors_json_of_two_rows() {
    let rows = vec![
        row(1, "Temp sensor", "21.50", "15.00", "40.00"),
        row(-2, "Light", "0.00", "20.00", "60.00"),
    ];
    let json = String::from_utf8(sensors_json(&rows)).unwrap();
    assert_eq!(
        json,
        "[{\"id\":1,\"name\":\"Temp sensor\",\"value\":21.50,\"min_threshold\":15.00,\"max_threshold\":40.00},\
{\"id\":-2,\"name\":\"Light\",\"value\":0.00,\"min_threshold\":20.00,\"max_threshold\":60.00}]"
    );
}

#[test]
fn sensors_json_of_no_rows() {
    assert_eq!(sensors_json(&Vec::new()), b"[]".to_vec());
}

#[test]
fn parse_settings_accepts_three_pieces() {
    let req = parse_settings(b"3,12.5,80").unwrap();
    assert_eq!(req.sensor_id, 3);
    assert_eq!(req.min_text, b"12.5".to_vec());
    assert_eq!(req.max_text, b"80".to_vec());
    let req = parse_settings(b"-1,,").unwrap();
    assert_eq!(req.sensor_id, -1);
    assert!(req.min_text.is_empty() && req.max_text.is_empty());
}

#[test]
fn parse_settings_rejects_other_bodies() {
    for body in [&b""[..], b"1,2", b"1,2,3,4", b",1,2", b"x,1,2", b"1 ,2,3", b"99999999999,1,2"] {
        assert!(parse_settings(body).is_none(), "body {:?}", body);
    }
}

fn repo() -> SensorRepository<f32> {
    let s = |id: i32, kind: &str| Sensor {
        id,
        name: format!("s{}", id),
        sensor_type: kind.to_string(),
        value: 0.0f32,
        min_threshold: 1.0,
        max_threshold: 2.0,
        updated: Timestamp { secs: 0, nanos: 0 },
    };
    SensorRepository::new(AppDatabase {
        network: Network { ssid: "a".to_string(), password: "b".to_string(), is_active: true },
        sensor: vec![s(1, "adc"), s(5, "digital")],
        alarm: Vec::new(),
    })
}

#[test]
fn apply_settings_keeps_the_sensor_type() {
    let mut r = repo();
    apply_settings(&mut r, 5, 30.0, 250.0).unwrap();
    let sensors = r.get_all_sensors();
    assert_eq!(sensors[1].min_threshold, 30.0);
    assert_eq!(sensors[1].max_threshold, 250.0);
    assert_eq!(sensors[1].sensor_type, "digital");
    assert!(sensors[1].updated.secs > 1_600_000_000);
    assert_eq!(sensors[0].max_threshold, 2.0);
}

#[test]
fn apply_settings_to_unknown_sensor_does_nothing() {
    let mut r = repo();
    apply_settings(&mut r, 4, 30.0, 250.0).unwrap();
    let sensors = r.get_all_sensors();
    assert!(sensors.iter().all(|s| s.min_threshold == 1.0 && s.updated.secs == 0));
}
