//! OS permissions: microphone, Accessibility and Input Monitoring.
//!
//! Only macOS asks for the last two; elsewhere they count as granted.

use crate::chars::{cat, str_eq};
use crate::hotkey;
use crate::hotkey::talk_key_live;
use crate::platform::Platform;
use vstd::prelude::*;
use vstd::string::*;

verus! {

#[derive(Debug, Clone, Copy, PartialEq, Eq, Structural)]
pub struct PermStatus {
    pub microphone: bool,
    pub accessibility: bool,
    pub input_monitoring: bool,
    /// The talk key can see key events.
    pub talk_key_live: bool,
}

/// The permissions that can be asked for.
#[derive(Debug, Clone, Copy, PartialEq, Eq, Structural)]
pub enum Permission {
    Microphone,
    Accessibility,
    InputMonitoring,
}

/// The permission of a name.
pub fn permission_named(kind: &str) -> (r: Result<Permission, String>)
    ensures
        match r {
            Ok(Permission::Microphone) => kind@ == "microphone"@,
            Ok(Permission::Accessibility) => kind@ == "accessibility"@,
            Ok(Permission::InputMonitoring) => kind@ == "input_monitoring"@,
            Err(e) => {
                &&& kind@ != "microphone"@
                &&& kind@ != "accessibility"@
                &&& kind@ != "input_monitoring"@
                &&& e@ == "unknown permission: "@ + kind@
            },
        },
{
    if str_eq(kind, "microphone") {
        Ok(Permission::Microphone)
    } else if str_eq(kind, "accessibility") {
        Ok(Permission::Accessibility)
    } else if str_eq(kind, "input_monitoring") {
        Ok(Permission::InputMonitoring)
    } else {
        Err(cat("unknown permission: ", kind))
    }
}

/// Whether the microphone may be used: what macOS says, or whether there is one.
pub fn microphone_granted(platform: Platform, authorized: bool, has_input: bool) -> (r: bool)
    ensures
        r == (if platform == Platform::MacOs {
            authorized
        } else {
            has_input
        }),
{
    if platform == Platform::MacOs {
        authorized
    } else {
        has_input
    }
}

/// Whether keys may be sent to other apps.
pub fn accessibility_granted(platform: Platform, trusted: bool) -> (r: bool)
    ensures
        r == (platform != Platform::MacOs || trusted),
{
    platform != Platform::MacOs || trusted
}

/// Whether keys of other apps may be seen.
pub fn input_monitoring_granted(platform: Platform, allowed: bool) -> (r: bool)
    ensures
        r == (platform != Platform::MacOs || allowed),
{
    platform != Platform::MacOs || allowed
}

/// Puts the permissions together.
pub fn status(
    platform: Platform,
    key: &str,
    authorized: bool,
    has_input: bool,
    trusted: bool,
    allowed: bool,
    tap_live: bool,
) -> (r: PermStatus)
    ensures
        r.microphone == (if platform == Platform::MacOs {
            authorized
        } else {
            has_input
        }),
        r.accessibility == (platform != Platform::MacOs || trusted),
        r.input_monitoring == (platform != Platform::MacOs || allowed),
        r.talk_key_live == (hotkey::is_combo_key(key@) || platform != Platform::MacOs || tap_live),
{
    PermStatus {
        microphone: microphone_granted(platform, authorized, has_input),
        accessibility: accessibility_granted(platform, trusted),
        input_monitoring: input_monitoring_granted(platform, allowed),
        talk_key_live: talk_key_live(key, platform, tap_live),
    }
}

/// The watcher leaves the tap alone for this long after the start.
pub const BOOT_MS: u64 = 3000;

/// The app is started again at most once in this many seconds.
pub const RELAUNCH_SECS: u64 = 90;

/// Whether the watcher tries to attach the tap: once the start is over, where
/// Accessibility is granted.
pub fn retries_tap(since_boot_ms: u64, accessibility: bool) -> (r: bool)
    ensures
        r == (since_boot_ms >= BOOT_MS && accessibility),
{
    since_boot_ms >= BOOT_MS && accessibility
}

/// Whether the app is started again because the tap stays dead. `stamp_age` is
/// the age of the last such start in seconds, where one is known.
pub fn relaunches(live: bool, stamp_age: Option<u64>) -> (r: bool)
    ensures
        r == (!live && !(stamp_age matches Some(age) && age < RELAUNCH_SECS)),
{
    if live {
        return false;
    }
    match stamp_age {
        Some(age) => age >= RELAUNCH_SECS,
        None => true,
    }
}

} // verus!
