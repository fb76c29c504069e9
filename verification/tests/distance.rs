use sensor_monitor::distance::{DistanceProbe, ProbeAction, ProbeEvent};
use sensor_monitor::exceptions::SensorCode;

/// Runs a probe against a scripted line: `trigger_ok` answers the trigger
/// writes, `echo` gives the successive levels of the echo line (repeating
/// the last one).  Returns the code and the number of echo reads.
fn run(trigger_ok: [bool; 3], echo: &[bool]) -> (SensorCode, usize) {
    let mut probe = DistanceProbe::new();
    let mut writes = 0;
    let mut reads = 0;
    loop {
        let event = match probe.action() {
            ProbeAction::SetTrigger { .. } => {
                let ok = trigger_ok[writes];
                writes += 1;
                ProbeEvent::TriggerSet { ok }
            }
            ProbeAction::WaitMicros(_) => ProbeEvent::Waited,
            ProbeAction::ReadEcho => {
                let high = echo[reads.min(echo.len() - 1)];
                reads += 1;
                ProbeEvent::EchoLevel { high }
            }
            ProbeAction::StartClock => ProbeEvent::ClockStarted,
            ProbeAction::Report(code) => return (code, reads),
        };
        probe = probe.step(event);
    }
}

#[test]
fn probe_issues_the_trigger_pulse() {
    let mut p = DistanceProbe::new();
    assert_eq!(p.action(), ProbeAction::SetTrigger { high: false });
    p = p.step(ProbeEvent::TriggerSet { ok: true });
    assert_eq!(p.action(), ProbeAction::WaitMicros(2));
    p = p.step(ProbeEvent::Waited);
    assert_eq!(p.action(), ProbeAction::SetTrigger { high: true });
    p = p.step(ProbeEvent::TriggerSet { ok: true });
    assert_eq!(p.action(), ProbeAction::WaitMicros(10));
    p = p.step(ProbeEvent::Waited);
    assert_eq!(p.action(), ProbeAction::SetTrigger { high: false });
    p = p.step(ProbeEvent::TriggerSet { ok: true });
    assert_eq!(p.action(), ProbeAction::ReadEcho);
}

#[test]
fn probe_measures_an_echo() {
    let mut echo = vec![false; 5];
    echo.extend(vec![true; 40]);
    echo.push(false);
    // 5 low reads, the rising read, then a fresh read of each of 40 high... and a low one
    let (code, reads) = run([true; 3], &echo);
    assert_eq!(code, SensorCode::Success);
    assert_eq!(reads, 5 + 1 + 39 + 1);
}

#[test]
fn probe_reports_failed_trigger_writes() {
    assert_eq!(run([false, true, true], &[true]).0, SensorCode::GpioError);
    assert_eq!(run([true, false, true], &[true]).0, SensorCode::GpioError);
    assert_eq!(run([true, true, false], &[true]).0, SensorCode::GpioError);
    assert_eq!(run([true, true, false], &[true]).1, 0);
}

#[test]
fn probe_gives_up_when_no_echo_starts() {
    let (code, reads) = run([true; 3], &[false]);
    assert_eq!(code, SensorCode::HardwareTimeout);
    assert_eq!(reads, 10001);
}

#[test]
fn probe_gives_up_when_the_echo_never_ends() {
    let (code, reads) = run([true; 3], &[true]);
    assert_eq!(code, SensorCode::EchoTimeout);
    // the rising read, then 25001 high reads
    assert_eq!(reads, 1 + 25001);
}

#[test]
fn probe_echo_of_exactly_the_limit_still_counts() {
    let mut echo = vec![true; 25001];
    echo.push(false);
    let (code, _) = run([true; 3], &echo);
    assert_eq!(code, SensorCode::Success);
}

#[test]
fn probe_ignores_answers_of_the_wrong_kind() {
    let p = DistanceProbe::new();
    assert_eq!(p.step(ProbeEvent::Waited), p);
    assert_eq!(p.step(ProbeEvent::EchoLevel { high: true }), p);
    let done = DistanceProbe::Done(SensorCode::Success);
    assert_eq!(done.step(ProbeEvent::TriggerSet { ok: false }), done);
    assert_eq!(done.action(), ProbeAction::Report(SensorCode::Success));
}
