use sensor_monitor::database::models::{AppDatabase, Network, Sensor, Timestamp};
use sensor_monitor::database::repository::SensorRepository;
use sensor_monitor::database::storage::init_storage;
use sensor_monitor::exceptions::{OledErorr, SensorCode, SensorResult};
use sensor_monitor::monitor::{
    check_raw_light, check_raw_temperature, count_alarm_changes, process_alarm_states, round_due,
    sensor_breached, AlarmEvent, MonitorState,
};
use sensor_monitor::network::{connecting_message, join_step, JoinStep};

fn station() -> SensorRepository<f32> {
    let readings = [
        (0.0, 15.0, 40.0),
        (0.0, 20.0, 60.0),
        (0.0, 0.0, 1.0),
        (0.0, 0.0, 1.0),
        (400.0, 30.0, 200.0),
    ];
    SensorRepository::new(init_storage("net".to_string(), "pw".to_string(), readings).unwrap())
}

#[test]
fn sensor_result_new_keeps_value_and_code() {
    let r = SensorResult::new(21.5f32, SensorCode::Success);
    assert_eq!(r.value, 21.5);
    assert_eq!(r.code, SensorCode::Success);
    let e = SensorResult::new(0u8, SensorCode::EchoTimeout);
    assert_eq!(e, SensorResult { value: 0, code: SensorCode::EchoTimeout });
    assert_ne!(OledErorr::ClearFailed, OledErorr::DrawFailed);
}

#[test]
fn raw_temperature_checks() {
    assert_eq!(check_raw_temperature(4095), SensorCode::VoltageToHigh);
    assert_eq!(check_raw_temperature(u16::MAX), SensorCode::VoltageToHigh);
    assert_eq!(check_raw_temperature(0), SensorCode::GpioError);
    assert_eq!(check_raw_temperature(1), SensorCode::Success);
    assert_eq!(check_raw_temperature(4094), SensorCode::Success);
}

#[test]
fn raw_light_checks() {
    assert_eq!(check_raw_light(4001), SensorCode::VoltageToHigh);
    assert_eq!(check_raw_light(4000), SensorCode::Success);
    assert_eq!(check_raw_light(0), SensorCode::Success);
}

#[test]
fn breach_rules_per_sensor() {
    assert!(sensor_breached(1, true, false, true));
    assert!(!sensor_breached(1, false, true, false));
    assert!(sensor_breached(2, true, false, true));
    assert!(sensor_breached(3, false, false, false));
    assert!(!sensor_breached(3, true, true, true));
    assert!(sensor_breached(4, true, true, false));
    assert!(!sensor_breached(4, false, false, true));
    assert!(sensor_breached(5, true, false, true));
    assert!(!sensor_breached(0, false, true, true));
    assert!(!sensor_breached(9, false, true, true));
}

#[test]
fn alarms_raise_and_clear_on_changes_only() {
    let mut repo = station();
    let mut active = [false; 6];
    // temperature out of range, station tilted over (tilt line high means upright)
    let outside = vec![true, false, false, false, false];
    let events = process_alarm_states(&mut repo, &outside, false, false, &mut active).unwrap();
    assert_eq!(
        events,
        vec![
            AlarmEvent { sensor_id: 1, triggered: true },
            AlarmEvent { sensor_id: 3, triggered: true },
        ]
    );
    assert_eq!(active, [false, true, false, true, false, false]);
    let alarms = repo.get_alarm_history();
    assert_eq!(alarms.len(), 2);
    assert_eq!((alarms[0].id, alarms[0].sensor_id, alarms[0].is_triggered), (1, 1, true));
    assert_eq!((alarms[1].id, alarms[1].sensor_id, alarms[1].is_triggered), (2, 3, true));

    // the same readings again: nothing new
    let again = process_alarm_states(&mut repo, &outside, false, false, &mut active).unwrap();
    assert!(again.is_empty());
    assert_eq!(repo.get_alarm_history().len(), 2);

    // back to normal, but a shock now
    let calm = vec![false; 5];
    let events = process_alarm_states(&mut repo, &calm, true, true, &mut active).unwrap();
    assert_eq!(
        events,
        vec![
            AlarmEvent { sensor_id: 1, triggered: false },
            AlarmEvent { sensor_id: 3, triggered: false },
            AlarmEvent { sensor_id: 4, triggered: true },
        ]
    );
    assert_eq!(active, [false, false, false, false, true, false]);
    let alarms = repo.get_alarm_history();
    assert_eq!(alarms.len(), 5);
    assert_eq!((alarms[4].id, alarms[4].sensor_id, alarms[4].is_triggered), (5, 4, true));
}

#[test]
fn alarm_pass_with_nothing_to_report() {
    let db = AppDatabase {
        network: Network { ssid: String::new(), password: String::new(), is_active: false },
        sensor: vec![Sensor {
            id: 0,
            name: "spare".to_string(),
            sensor_type: "digital".to_string(),
            value: 0u32,
            min_threshold: 0,
            max_threshold: 1,
            updated: Timestamp { secs: 0, nanos: 0 },
        }],
        alarm: Vec::new(),
    };
    let mut repo = SensorRepository::new(db);
    let mut active = [true, false, false, false, false, false];
    // a sensor that is never in breach clears a flag left on
    let events = process_alarm_states(&mut repo, &vec![true], false, true, &mut active).unwrap();
    assert_eq!(events, vec![AlarmEvent { sensor_id: 0, triggered: false }]);
    assert_eq!(active, [false; 6]);
}

#[test]
fn shock_latch_holds_until_the_round_ends() {
    let mut state = MonitorState::new();
    assert!(!state.shock_detected);
    state.note_vibration(false);
    state.note_vibration(true);
    state.note_vibration(false);
    assert!(state.take_shock());
    assert!(!state.take_shock());
    assert_eq!(state.is_alarm_active, [false; 6]);
}

#[test]
fn connecting_message_text() {
    let line = connecting_message(3, "home-net");
    assert_eq!(String::from_utf8(line).unwrap(), "[3] Connecting to home-net");
    let line = connecting_message(-12, "");
    assert_eq!(String::from_utf8(line).unwrap(), "[-12] Connecting to ");
}

#[test]
fn count_alarm_changes_predicts_the_pass() {
    let mut repo = station();
    let mut active = [false, true, false, false, true, false];
    let outside = vec![true, true, false, false, false];
    let sensors = repo.get_all_sensors();
    let predicted = count_alarm_changes(&sensors, &outside, true, true, &active);
    let events = process_alarm_states(&mut repo, &outside, true, true, &mut active).unwrap();
    assert_eq!(predicted, events.len());
    assert_eq!(predicted, 1);
    assert_eq!(count_alarm_changes(&sensors, &outside, true, true, &active), 0);
}

#[test]
fn alarms_alternate_across_rounds() {
    let mut repo = station();
    let mut state = MonitorState::new();
    let calm = vec![false; 5];
    let hot = vec![true, false, false, false, false];
    for outside in [&hot, &hot, &calm, &hot, &calm, &calm, &hot] {
        process_alarm_states(&mut repo, outside, true, false, &mut state.is_alarm_active).unwrap();
    }
    let states: Vec<bool> = repo
        .get_alarm_history()
        .iter()
        .filter(|a| a.sensor_id == 1)
        .map(|a| a.is_triggered)
        .collect();
    assert_eq!(states, vec![true, false, true, false, true]);
    let ids: Vec<i32> = repo.get_alarm_history().iter().map(|a| a.id).collect();
    assert_eq!(ids, vec![1, 2, 3, 4, 5]);
    assert!(repo.get_alarm_history().iter().all(|a| a.created.secs > 1_600_000_000));
}

#[test]
fn rounds_start_after_one_second() {
    assert!(!round_due(0));
    assert!(!round_due(999_999_999));
    assert!(round_due(1_000_000_000));
    assert!(round_due(5_000_000_000));
}

#[test]
fn join_step_retries_until_joined() {
    assert_eq!(join_step(1, true, true), JoinStep::Joined);
    assert_eq!(join_step(1, true, false), JoinStep::Retry { next_attempt: 2 });
    assert_eq!(join_step(7, false, false), JoinStep::Retry { next_attempt: 8 });
    assert_eq!(join_step(i32::MAX, true, true), JoinStep::Joined);
}

#[test]
fn value_or_keeps_only_good_readings() {
    assert_eq!(SensorResult::new(21.5f32, SensorCode::Success).value_or(0.0), 21.5);
    assert_eq!(SensorResult::new(400.0f32, SensorCode::EchoTimeout).value_or(-1.0), -1.0);
    assert_eq!(SensorResult::new(7u16, SensorCode::GpioError).value_or(0), 0);
}
