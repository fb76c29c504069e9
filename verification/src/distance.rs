use vstd::prelude::*;

use crate::exceptions::SensorCode;

verus! {

/// Echo-line reads that may stay low before the sensor counts as dead.
pub const ECHO_START_LIMIT: u32 = 10000;

/// Echo-line reads that may stay high (about 4 m of range) before the echo
/// counts as lost.
pub const ECHO_LENGTH_LIMIT: u32 = 25000;

/// Where one ultrasonic distance measurement stands.  Each stage waits for
/// the answer to one hardware action (see [`DistanceProbe::action`]).
#[derive(Clone, Copy, Debug, PartialEq, Eq, Structural)]
pub enum DistanceProbe {
    /// Drive the trigger line low to clear it.
    ClearTrigger,
    /// Let the cleared line settle.
    SettleLow,
    /// Drive the trigger line high.
    RaiseTrigger,
    /// Hold the trigger pulse.
    HoldHigh,
    /// End the trigger pulse.
    DropTrigger,
    /// Read the echo line; `low_reads` reads found it low so far.
    AwaitEcho { low_reads: u32 },
    /// Pause after the `low_reads`-th low read.
    AwaitEchoPause { low_reads: u32 },
    /// The echo started: start the clock.
    StartTiming,
    /// Read the echo line; `high_reads` reads found it high so far.
    TimeEcho { high_reads: u32 },
    /// Pause after the `high_reads`-th high read.
    TimeEchoPause { high_reads: u32 },
    /// The measurement is over with this code.
    Done(SensorCode),
}

/// What the hardware is asked to do next.
#[derive(Clone, Copy, Debug, PartialEq, Eq, Structural)]
pub enum ProbeAction {
    /// Drive the trigger line to this level.
    SetTrigger { high: bool },
    /// Busy-wait this many microseconds.
    WaitMicros(u32),
    /// Read the level of the echo line.
    ReadEcho,
    /// Take the time at which the echo started.
    StartClock,
    /// Stop: the measurement ended with this code.
    Report(SensorCode),
}

/// The hardware's answer to the last action.
#[derive(Clone, Copy, Debug, PartialEq, Eq, Structural)]
pub enum ProbeEvent {
    /// The trigger line was driven (`ok`) or the pin driver failed.
    TriggerSet { ok: bool },
    /// The wait is over.
    Waited,
    /// The echo line was read at this level.
    EchoLevel { high: bool },
    /// The clock was started.
    ClockStarted,
}

/// The action that stage `p` waits on.
pub open spec fn probe_action(p: DistanceProbe) -> ProbeAction {
    match p {
        DistanceProbe::ClearTrigger => ProbeAction::SetTrigger { high: false },
        DistanceProbe::SettleLow => ProbeAction::WaitMicros(2),
        DistanceProbe::RaiseTrigger => ProbeAction::SetTrigger { high: true },
        DistanceProbe::HoldHigh => ProbeAction::WaitMicros(10),
        DistanceProbe::DropTrigger => ProbeAction::SetTrigger { high: false },
        DistanceProbe::AwaitEcho { .. } => ProbeAction::ReadEcho,
        DistanceProbe::AwaitEchoPause { .. } => ProbeAction::WaitMicros(1),
        DistanceProbe::StartTiming => ProbeAction::StartClock,
        DistanceProbe::TimeEcho { .. } => ProbeAction::ReadEcho,
        DistanceProbe::TimeEchoPause { .. } => ProbeAction::WaitMicros(1),
        DistanceProbe::Done(code) => ProbeAction::Report(code),
    }
}

/// `e` is the kind of answer that the action of `p` gives.
pub open spec fn answers(p: DistanceProbe, e: ProbeEvent) -> bool {
    match probe_action(p) {
        ProbeAction::SetTrigger { .. } => e is TriggerSet,
        ProbeAction::WaitMicros(_) => e is Waited,
        ProbeAction::ReadEcho => e is EchoLevel,
        ProbeAction::StartClock => e is ClockStarted,
        ProbeAction::Report(_) => false,
    }
}

/// The counters of a stage stay within the limits that the stage allows.
pub open spec fn probe_wf(p: DistanceProbe) -> bool {
    match p {
        DistanceProbe::AwaitEcho { low_reads } => low_reads <= ECHO_START_LIMIT,
        DistanceProbe::AwaitEchoPause { low_reads } => 1 <= low_reads <= ECHO_START_LIMIT + 1,
        DistanceProbe::TimeEcho { high_reads } => high_reads <= ECHO_LENGTH_LIMIT,
        DistanceProbe::TimeEchoPause { high_reads } => 1 <= high_reads <= ECHO_LENGTH_LIMIT + 1,
        _ => true,
    }
}

/// The stage after `p` gets the answer `e`.  A failed trigger write ends the
/// measurement with `GpioError`; a low echo read pauses and reads again until
/// more than [`ECHO_START_LIMIT`] reads were low (`HardwareTimeout`); a high
/// read starts the clock; then high reads pause and read again until more than
/// [`ECHO_LENGTH_LIMIT`] reads were high (`EchoTimeout`); a low read ends the
/// measurement with `Success`.  An answer of the wrong kind changes nothing.
pub open spec fn probe_next(p: DistanceProbe, e: ProbeEvent) -> DistanceProbe {
    if !answers(p, e) {
        p
    } else {
        match p {
            DistanceProbe::ClearTrigger => if e == (ProbeEvent::TriggerSet { ok: true }) {
                DistanceProbe::SettleLow
            } else {
                DistanceProbe::Done(SensorCode::GpioError)
            },
            DistanceProbe::SettleLow => DistanceProbe::RaiseTrigger,
            DistanceProbe::RaiseTrigger => if e == (ProbeEvent::TriggerSet { ok: true }) {
                DistanceProbe::HoldHigh
            } else {
                DistanceProbe::Done(SensorCode::GpioError)
            },
            DistanceProbe::HoldHigh => DistanceProbe::DropTrigger,
            DistanceProbe::DropTrigger => if e == (ProbeEvent::TriggerSet { ok: true }) {
                DistanceProbe::AwaitEcho { low_reads: 0 }
            } else {
                DistanceProbe::Done(SensorCode::GpioError)
            },
            DistanceProbe::AwaitEcho { low_reads } => if e == (ProbeEvent::EchoLevel {
                high: true,
            }) {
                DistanceProbe::StartTiming
            } else {
                DistanceProbe::AwaitEchoPause { low_reads: (low_reads + 1) as u32 }
            },
            DistanceProbe::AwaitEchoPause { low_reads } => if low_reads > ECHO_START_LIMIT {
                DistanceProbe::Done(SensorCode::HardwareTimeout)
            } else {
                DistanceProbe::AwaitEcho { low_reads }
            },
            DistanceProbe::StartTiming => DistanceProbe::TimeEcho { high_reads: 0 },
            DistanceProbe::TimeEcho { high_reads } => if e == (ProbeEvent::EchoLevel {
                high: true,
            }) {
                DistanceProbe::TimeEchoPause { high_reads: (high_reads + 1) as u32 }
            } else {
                DistanceProbe::Done(SensorCode::Success)
            },
            DistanceProbe::TimeEchoPause { high_reads } => if high_reads > ECHO_LENGTH_LIMIT {
                DistanceProbe::Done(SensorCode::EchoTimeout)
            } else {
                DistanceProbe::TimeEcho { high_reads }
            },
            DistanceProbe::Done(code) => p,
        }
    }
}

/// How many answered actions stage `p` can still take at most before it is
/// done.
pub open spec fn probe_budget(p: DistanceProbe) -> int {
    let timing = 2 * (ECHO_LENGTH_LIMIT + 1) + 1;
    let listening = timing + 2 * (ECHO_START_LIMIT + 1);
    match p {
        DistanceProbe::Done(_) => 0,
        DistanceProbe::TimeEchoPause { high_reads } => 2 * (ECHO_LENGTH_LIMIT + 1 - high_reads)
            + 1,
        DistanceProbe::TimeEcho { high_reads } => 2 * (ECHO_LENGTH_LIMIT + 1 - high_reads),
        DistanceProbe::StartTiming => timing,
        DistanceProbe::AwaitEchoPause { low_reads } => timing + 2 * (ECHO_START_LIMIT + 1
            - low_reads) + 1,
        DistanceProbe::AwaitEcho { low_reads } => timing + 2 * (ECHO_START_LIMIT + 1
            - low_reads),
        DistanceProbe::DropTrigger => listening + 1,
        DistanceProbe::HoldHigh => listening + 2,
        DistanceProbe::RaiseTrigger => listening + 3,
        DistanceProbe::SettleLow => listening + 4,
        DistanceProbe::ClearTrigger => listening + 5,
    }
}

impl DistanceProbe {
    /// A measurement that has not started: its first action clears the
    /// trigger line.
    pub fn new() -> (p: Self)
        ensures
            p == DistanceProbe::ClearTrigger,
            probe_wf(p),
    {
        DistanceProbe::ClearTrigger
    }

    /// The action this stage waits on.
    pub fn action(&self) -> (a: ProbeAction)
        ensures
            a == probe_action(*self),
    {
        match *self {
            DistanceProbe::ClearTrigger => ProbeAction::SetTrigger { high: false },
            DistanceProbe::SettleLow => ProbeAction::WaitMicros(2),
            DistanceProbe::RaiseTrigger => ProbeAction::SetTrigger { high: true },
            DistanceProbe::HoldHigh => ProbeAction::WaitMicros(10),
            DistanceProbe::DropTrigger => ProbeAction::SetTrigger { high: false },
            DistanceProbe::AwaitEcho { .. } => ProbeAction::ReadEcho,
            DistanceProbe::AwaitEchoPause { .. } => ProbeAction::WaitMicros(1),
            DistanceProbe::StartTiming => ProbeAction::StartClock,
            DistanceProbe::TimeEcho { .. } => ProbeAction::ReadEcho,
            DistanceProbe::TimeEchoPause { .. } => ProbeAction::WaitMicros(1),
            DistanceProbe::Done(code) => ProbeAction::Report(code),
        }
    }

    /// The stage after this one gets the answer `event` (see [`probe_next`]).
    pub fn step(self, event: ProbeEvent) -> (next: Self)
        requires
            probe_wf(self),
        ensures
            next == probe_next(self, event),
            probe_wf(next),
    {
        let answered = match (self.action(), event) {
            (ProbeAction::SetTrigger { .. }, ProbeEvent::TriggerSet { .. }) => true,
            (ProbeAction::WaitMicros(_), ProbeEvent::Waited) => true,
            (ProbeAction::ReadEcho, ProbeEvent::EchoLevel { .. }) => true,
            (ProbeAction::StartClock, ProbeEvent::ClockStarted) => true,
            _ => false,
        };
        if !answered {
            return self;
        }
        match self {
            DistanceProbe::ClearTrigger => match event {
                ProbeEvent::TriggerSet { ok: true } => DistanceProbe::SettleLow,
                _ => DistanceProbe::Done(SensorCode::GpioError),
            },
            DistanceProbe::SettleLow => DistanceProbe::RaiseTrigger,
            DistanceProbe::RaiseTrigger => match event {
                ProbeEvent::TriggerSet { ok: true } => DistanceProbe::HoldHigh,
                _ => DistanceProbe::Done(SensorCode::GpioError),
            },
            DistanceProbe::HoldHigh => DistanceProbe::DropTrigger,
            DistanceProbe::DropTrigger => match event {
                ProbeEvent::TriggerSet { ok: true } => DistanceProbe::AwaitEcho { low_reads: 0 },
                _ => DistanceProbe::Done(SensorCode::GpioError),
            },
            DistanceProbe::AwaitEcho { low_reads } => match event {
                ProbeEvent::EchoLevel { high: true } => DistanceProbe::StartTiming,
                _ => DistanceProbe::AwaitEchoPause { low_reads: low_reads + 1 },
            },
            DistanceProbe::AwaitEchoPause { low_reads } => if low_reads > ECHO_START_LIMIT {
                DistanceProbe::Done(SensorCode::HardwareTimeout)
            } else {
                DistanceProbe::AwaitEcho { low_reads }
            },
            DistanceProbe::StartTiming => DistanceProbe::TimeEcho { high_reads: 0 },
            DistanceProbe::TimeEcho { high_reads } => match event {
                ProbeEvent::EchoLevel { high: true } => DistanceProbe::TimeEchoPause {
                    high_reads: high_reads + 1,
                },
                _ => DistanceProbe::Done(SensorCode::Success),
            },
            DistanceProbe::TimeEchoPause { high_reads } => if high_reads > ECHO_LENGTH_LIMIT {
                DistanceProbe::Done(SensorCode::EchoTimeout)
            } else {
                DistanceProbe::TimeEcho { high_reads }
            },
            DistanceProbe::Done(_) => self,
        }
    }
}

/// Every answered action brings a running measurement strictly closer to its
/// end, and a measurement can take at most [`probe_budget`] of them: with the
/// two read limits the probe always reports.
pub proof fn lemma_probe_progress(p: DistanceProbe, e: ProbeEvent)
    requires
        probe_wf(p),
        answers(p, e),
    ensures
        0 <= probe_budget(probe_next(p, e)) < probe_budget(p),
        probe_wf(probe_next(p, e)),
{
}

/// The clock starts exactly when the echo begins: a high echo read while
/// waiting for the echo asks for the clock next, and once it is started the
/// probe reads the echo line with no high read counted yet.  A low read while
/// waiting pauses and keeps counting; a low read while timing ends the
/// measurement with `Success`.
pub proof fn lemma_clock_starts_with_the_echo(low_reads: u32, high_reads: u32)
    requires
        low_reads <= ECHO_START_LIMIT,
        high_reads <= ECHO_LENGTH_LIMIT,
    ensures
        probe_action(
            probe_next(
                DistanceProbe::AwaitEcho { low_reads },
                ProbeEvent::EchoLevel { high: true },
            ),
        ) == ProbeAction::StartClock,
        probe_next(
            probe_next(
                DistanceProbe::AwaitEcho { low_reads },
                ProbeEvent::EchoLevel { high: true },
            ),
            ProbeEvent::ClockStarted,
        ) == (DistanceProbe::TimeEcho { high_reads: 0 }),
        probe_action(DistanceProbe::TimeEcho { high_reads: 0 }) == ProbeAction::ReadEcho,
        probe_next(DistanceProbe::AwaitEcho { low_reads }, ProbeEvent::EchoLevel { high: false })
            == (DistanceProbe::AwaitEchoPause { low_reads: (low_reads + 1) as u32 }),
        probe_action(
            probe_next(
                DistanceProbe::TimeEcho { high_reads },
                ProbeEvent::EchoLevel { high: false },
            ),
        ) == ProbeAction::Report(SensorCode::Success),
        probe_next(DistanceProbe::TimeEcho { high_reads }, ProbeEvent::EchoLevel { high: true })
            == (DistanceProbe::TimeEchoPause { high_reads: (high_reads + 1) as u32 }),
{
}

/// The trigger pulse is low, high, low, with a 2 us and a 10 us hold, and a
/// failed write at any of its three edges ends the measurement with
/// `GpioError`; the echo is read only after all three writes succeeded.
pub proof fn lemma_trigger_pulse()
    ensures
        probe_action(DistanceProbe::ClearTrigger) == (ProbeAction::SetTrigger { high: false }),
        probe_next(DistanceProbe::ClearTrigger, ProbeEvent::TriggerSet { ok: true })
            == DistanceProbe::SettleLow,
        probe_action(DistanceProbe::SettleLow) == ProbeAction::WaitMicros(2),
        probe_next(DistanceProbe::SettleLow, ProbeEvent::Waited) == DistanceProbe::RaiseTrigger,
        probe_action(DistanceProbe::RaiseTrigger) == (ProbeAction::SetTrigger { high: true }),
        probe_next(DistanceProbe::RaiseTrigger, ProbeEvent::TriggerSet { ok: true })
            == DistanceProbe::HoldHigh,
        probe_action(DistanceProbe::HoldHigh) == ProbeAction::WaitMicros(10),
        probe_next(DistanceProbe::HoldHigh, ProbeEvent::Waited) == DistanceProbe::DropTrigger,
        probe_action(DistanceProbe::DropTrigger) == (ProbeAction::SetTrigger { high: false }),
        probe_next(DistanceProbe::DropTrigger, ProbeEvent::TriggerSet { ok: true })
            == (DistanceProbe::AwaitEcho { low_reads: 0 }),
        probe_next(DistanceProbe::ClearTrigger, ProbeEvent::TriggerSet { ok: false })
            == DistanceProbe::Done(SensorCode::GpioError),
        probe_next(DistanceProbe::RaiseTrigger, ProbeEvent::TriggerSet { ok: false })
            == DistanceProbe::Done(SensorCode::GpioError),
        probe_next(DistanceProbe::DropTrigger, ProbeEvent::TriggerSet { ok: false })
            == DistanceProbe::Done(SensorCode::GpioError),
{
}

/// The two timeouts: after a pause that follows the `n`-th low read while
/// waiting, the probe gives up with `HardwareTimeout` exactly when `n` is
/// past [`ECHO_START_LIMIT`] and reads again otherwise; after the pause that
/// follows the `n`-th high read while timing, it gives up with `EchoTimeout`
/// exactly when `n` is past [`ECHO_LENGTH_LIMIT`].
pub proof fn lemma_timeouts(n: u32)
    ensures
        probe_next(DistanceProbe::AwaitEchoPause { low_reads: n }, ProbeEvent::Waited) == if n
            > ECHO_START_LIMIT {
            DistanceProbe::Done(SensorCode::HardwareTimeout)
        } else {
            DistanceProbe::AwaitEcho { low_reads: n }
        },
        probe_next(DistanceProbe::TimeEchoPause { high_reads: n }, ProbeEvent::Waited) == if n
            > ECHO_LENGTH_LIMIT {
            DistanceProbe::Done(SensorCode::EchoTimeout)
        } else {
            DistanceProbe::TimeEcho { high_reads: n }
        },
{
}

/// A finished measurement stays finished and keeps its code.
pub proof fn lemma_done_is_final(code: SensorCode, e: ProbeEvent)
    ensures
        probe_next(DistanceProbe::Done(code), e) == DistanceProbe::Done(code),
        probe_action(DistanceProbe::Done(code)) == ProbeAction::Report(code),
{
}

} // verus!
