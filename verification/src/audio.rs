//! What the user is told about the microphone.

use crate::platform::Platform;
use vstd::prelude::*;
use vstd::string::*;

verus! {

/// What to do where there is no input device.
pub fn no_device_hint(platform: Platform) -> (r: &'static str)
    ensures
        r@ == (match platform {
            Platform::Windows =>
                "no input device found — connect a microphone and check Windows Settings → Privacy & security → Microphone (allow desktop apps)"@,
            Platform::MacOs =>
                "no input device found — connect a microphone and grant Microphone access in System Settings → Privacy & Security → Microphone"@,
            Platform::Other =>
                "no input device found — connect a microphone and check microphone permissions"@,
        }),
{
    match platform {
        Platform::Windows =>
            "no input device found — connect a microphone and check Windows Settings → Privacy & security → Microphone (allow desktop apps)",
        Platform::MacOs =>
            "no input device found — connect a microphone and grant Microphone access in System Settings → Privacy & Security → Microphone",
        Platform::Other =>
            "no input device found — connect a microphone and check microphone permissions",
    }
}

/// What to do where a take captured nothing.
pub fn no_audio_message(platform: Platform) -> (r: &'static str)
    ensures
        r@ == (match platform {
            Platform::Windows =>
                "captured no audio from the default microphone — run the Setup microphone test, and check Windows Settings → Privacy & security → Microphone (allow desktop apps)"@,
            Platform::MacOs =>
                "captured no audio from the default microphone — run the Setup microphone test, and grant Microphone access in System Settings → Privacy & Security → Microphone"@,
            Platform::Other =>
                "captured no audio from the default microphone — check microphone permissions"@,
        }),
{
    match platform {
        Platform::Windows =>
            "captured no audio from the default microphone — run the Setup microphone test, and check Windows Settings → Privacy & security → Microphone (allow desktop apps)",
        Platform::MacOs =>
            "captured no audio from the default microphone — run the Setup microphone test, and grant Microphone access in System Settings → Privacy & Security → Microphone",
        Platform::Other =>
            "captured no audio from the default microphone — check microphone permissions",
    }
}

} // verus!
