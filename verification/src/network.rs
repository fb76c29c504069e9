use vstd::prelude::*;

use crate::text::{decimal_text, format_i32, push_bytes, push_text};
use vstd::string::StringSliceAdditionalSpecFns;

verus! {

/// The screen line shown while the station tries to join `ssid`:
/// `[attempt] Connecting to ssid`.
pub open spec fn connecting_message_spec(attempt: i32, ssid: &str) -> Seq<u8> {
    "[".spec_bytes() + decimal_text(attempt as int) + "] Connecting to ".spec_bytes()
        + ssid.spec_bytes()
}

/// Writes the screen line for the `attempt`-th try to join `ssid`.
pub fn connecting_message(attempt: i32, ssid: &str) -> (line: Vec<u8>)
    ensures
        line@ == connecting_message_spec(attempt, ssid),
{
    let mut line: Vec<u8> = Vec::new();
    push_text(&mut line, "[");
    let number = format_i32(attempt);
    push_bytes(&mut line, number.as_slice());
    push_text(&mut line, "] Connecting to ");
    push_text(&mut line, ssid);
    assert(line@ =~= connecting_message_spec(attempt, ssid));
    line
}

/// What the station does after one try to join the network.
#[derive(Clone, Copy, Debug, PartialEq, Eq, Structural)]
pub enum JoinStep {
    /// Connected and an address obtained: stop trying.
    Joined,
    /// Disconnect, wait, and try again with this attempt number.
    Retry { next_attempt: i32 },
}

/// Decides the next step after the `attempt`-th try: joined when the
/// connection came up and the interface got an address, otherwise another
/// try with the next number.
pub fn join_step(attempt: i32, connected: bool, netif_up: bool) -> (step: JoinStep)
    requires
        (connected && netif_up) || attempt < i32::MAX,
    ensures
        connected && netif_up ==> step == JoinStep::Joined,
        !(connected && netif_up) ==> step == (JoinStep::Retry { next_attempt: (attempt + 1) as i32 }),
{
    if connected && netif_up {
        JoinStep::Joined
    } else {
        JoinStep::Retry { next_attempt: attempt + 1 }
    }
}

} // verus!
