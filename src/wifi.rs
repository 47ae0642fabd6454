//! Whether the device is on the SCUNET network.
use vstd::prelude::*;

use crate::types::LoginError;

verus! {

/// Attempts at the WLAN check when started with the system.
pub const WIFI_ATTEMPTS_ON_BOOT: u32 = 5;

/// Pause between two WLAN checks, in milliseconds.
pub const WIFI_RETRY_MS: u64 = 1000;

/// What the host found out about the current WLAN connection.
#[derive(Clone, Debug, PartialEq, Eq)]
pub enum WifiReading {
    /// The SSID of the network that the device is associated with.
    Ssid(String),
    /// The WLAN state could not be read: the step that failed and the system's code.
    Failed(String, u32),
    /// This platform gives no way to tell; the check is passed.
    Unknown,
}

/// What to do after one WLAN check.
#[derive(Clone, Debug, PartialEq, Eq)]
pub enum GateStep {
    /// On the expected network: go on.
    Pass,
    /// Check again after a pause.
    Retry,
    /// Give up with this error.
    Fail(LoginError),
}

/// The SSID of the expected network.
pub open spec fn scunet_ssid() -> Seq<char> {
    seq!['S', 'C', 'U', 'N', 'E', 'T']
}

/// Attempts at the WLAN check: five when started with the system, else one.
pub open spec fn wifi_attempts(on_boot: bool) -> nat {
    if on_boot {
        WIFI_ATTEMPTS_ON_BOOT as nat
    } else {
        1
    }
}

/// The decision on one WLAN check, where `attempt` counts the checks before
/// this one.
pub open spec fn gate_step(on_boot: bool, attempt: u32, reading: WifiReading) -> GateStep {
    match reading {
        WifiReading::Unknown => GateStep::Pass,
        WifiReading::Ssid(s) => if s@ == scunet_ssid() {
            GateStep::Pass
        } else if attempt + 1 < wifi_attempts(on_boot) {
            GateStep::Retry
        } else {
            GateStep::Fail(LoginError::NotConnectedToScunet)
        },
        WifiReading::Failed(m, c) => if attempt + 1 < wifi_attempts(on_boot) {
            GateStep::Retry
        } else {
            GateStep::Fail(LoginError::WiFiStatusError(m, c))
        },
    }
}

/// Decides on one WLAN check, where `attempt` counts the checks before this
/// one. An SSID of `SCUNET`, or a platform that cannot tell, passes. Another
/// SSID is [`LoginError::NotConnectedToScunet`], a failed reading
/// [`LoginError::WiFiStatusError`]; either is retried while attempts are left.
pub fn check_wifi(on_boot: bool, attempt: u32, reading: WifiReading) -> (r: GateStep)
    ensures
        r == gate_step(on_boot, attempt, reading),
{
    let ssid = "SCUNET";
    proof {
        reveal_strlit("SCUNET");
        assert(ssid@ =~= scunet_ssid());
    }
    let error = match reading {
        WifiReading::Unknown => {
            return GateStep::Pass;
        },
        WifiReading::Ssid(s) => {
            if s == ssid.to_owned() {
                return GateStep::Pass;
            }
            LoginError::NotConnectedToScunet
        },
        WifiReading::Failed(m, c) => LoginError::WiFiStatusError(m, c),
    };
    let limit: u32 = if on_boot {
        WIFI_ATTEMPTS_ON_BOOT
    } else {
        1
    };
    if attempt < limit - 1 {
        GateStep::Retry
    } else {
        GateStep::Fail(error)
    }
}

} // verus!
