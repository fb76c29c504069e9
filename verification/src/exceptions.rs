use vstd::prelude::*;

verus! {

/// Outcome of one sensor reading.  `Success` marks a reading that can be
/// trusted; the others say what went wrong.
#[derive(Clone, Copy, Debug, PartialEq, Eq, Structural)]
pub enum SensorCode {
    Success,
    BadCalibration,
    HardwareTimeout,
    VoltageToHigh,
    EchoTimeout,
    GpioError,
}

/// A converted reading together with the code that says whether it can be trusted.
#[derive(Clone, Copy, Debug, PartialEq, Eq)]
pub struct SensorResult<T> {
    pub value: T,
    pub code: SensorCode,
}

impl<T> SensorResult<T> {
    pub fn new(value: T, code: SensorCode) -> (res: Self)
        ensures
            res.value == value,
            res.code == code,
    {
        Self { value, code }
    }
}

impl<T: Copy> SensorResult<T> {
    /// The reading when its code is `Success`, otherwise `fallback`.
    pub fn value_or(&self, fallback: T) -> (v: T)
        ensures
            v == (if self.code == SensorCode::Success {
                self.value
            } else {
                fallback
            }),
    {
        match self.code {
            SensorCode::Success => self.value,
            _ => fallback,
        }
    }
}

/// Failures of the OLED screen driver.
#[derive(Clone, Copy, Debug, PartialEq, Eq, Structural)]
pub enum OledErorr {
    ResetLinefailed,
    Initializationfailed,
    ClearFailed,
    DrawFailed,
    FlushFailed,
}

} // verus!
