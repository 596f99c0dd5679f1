//! The shell around a take.

use crate::chars;
use crate::focus;
use crate::focus::FocusHandle;
use crate::onboarding;
use crate::onboarding::OnboardStep;
use crate::overlay;
use crate::overlay::{DockEdge, OverlayPose};
use crate::perm::{PermStatus, Permission};
use crate::platform::Platform;
use crate::settings::Settings;
use crate::sys;
use crate::tray::TrayAction;
use crate::words;
use vstd::prelude::*;
use vstd::string::*;

verus! {

/// The entries of the tray menu.
pub proof fn lemma_tray(id: &str, r: TrayAction)
    requires
        call_ensures(crate::tray::tray_action, (id,), r),
    ensures
        id@ == "quit"@ <==> r == TrayAction::Quit,
        id@ == "settings"@ <==> r == TrayAction::ShowMain,
        id@ == "toggle"@ <==> r == TrayAction::Toggle,
{
    reveal_strlit("quit");
    reveal_strlit("settings");
    reveal_strlit("toggle");
    assert("quit"@.len() == 4 && "settings"@.len() == 8 && "toggle"@.len() == 6);
}

/// The wizard has to be done before the app starts in the tray, and somebody has to
/// ask for it.
pub proof fn lemma_tray_launch(args: &Vec<String>, onboarded: bool, i: int, r: bool)
    requires
        call_ensures(crate::tray::wants_tray_launch, (args, onboarded), r),
        0 <= i < args@.len(),
        args@[i]@ == "--minimized"@,
    ensures
        r <==> onboarded,
{
    assert(chars::texts(args@)[i] == "--minimized"@);
}

/// Without the flag the app does not start in the tray.
pub proof fn lemma_no_tray_launch(args: &Vec<String>, onboarded: bool, r: bool)
    requires
        call_ensures(crate::tray::wants_tray_launch, (args, onboarded), r),
        forall|i: int| 0 <= i < args@.len() ==> (#[trigger] args@[i])@ != "--minimized"@,
    ensures
        !r,
{
    if r {
        let k = choose|k: int|
            0 <= k < chars::texts(args@).len() && chars::texts(args@)[k] == "--minimized"@;
        assert(args@[k]@ == "--minimized"@);
    }
}

/// A pill that is dragged on a screen with room for it snaps to an edge that no other
/// edge is nearer than, measured from the middle of the pill: it touches the margin of
/// that edge, and keeps its place along it as far as the margins let it.
pub proof fn lemma_snapped(
    x: i32,
    y: i32,
    screen_w: i32,
    screen_h: i32,
    pill_w: i32,
    pill_h: i32,
    r: OverlayPose,
)
    requires
        call_ensures(
            crate::overlay::snap_to_edge,
            (x, y, screen_w, screen_h, pill_w, pill_h),
            r,
        ),
        pill_w >= 0,
        pill_h >= 0,
        screen_w >= pill_w + 32,
        screen_h >= pill_h + 124,
    ensures
        ({
            let up = y + pill_h / 2;
            let down = screen_h - up;
            let left = x + pill_w / 2;
            let right = screen_w - left;
            let bottom = screen_h - pill_h - 108;
            let far = screen_w - pill_w - 16;
            &&& r.edge == DockEdge::Top ==> up <= down && up <= left && up <= right
            &&& r.edge == DockEdge::Bottom ==> down < up && down <= left && down <= right
            &&& r.edge == DockEdge::Left ==> left < up && left < down && left <= right
            &&& r.edge == DockEdge::Right ==> right < up && right < down && right < left
            &&& r.edge == DockEdge::Top ==> r.y == 16
            &&& r.edge == DockEdge::Bottom ==> r.y == bottom
            &&& r.edge == DockEdge::Left ==> r.x == 16
            &&& r.edge == DockEdge::Right ==> r.x == far
            &&& r.edge == DockEdge::Top || r.edge == DockEdge::Bottom ==> {
                &&& r.offset == r.x
                &&& 16 <= r.x <= far
                &&& 16 <= x <= far ==> r.x == x
                &&& x < 16 ==> r.x == 16
                &&& x > far ==> r.x == far
            }
            &&& r.edge == DockEdge::Left || r.edge == DockEdge::Right ==> {
                &&& r.offset == r.y
                &&& 16 <= r.y <= bottom
                &&& 16 <= y <= bottom ==> r.y == y
                &&& y < 16 ==> r.y == 16
                &&& y > bottom ==> r.y == bottom
            }
        }),
{
}

/// A docked pill stands at the margin of its edge. An offset of zero or less is the
/// middle of the edge, where the room on both sides differs by one at most.
pub proof fn lemma_docked(
    edge: DockEdge,
    offset: i32,
    screen_w: i32,
    screen_h: i32,
    pill_w: i32,
    pill_h: i32,
    r: (i32, i32),
)
    requires
        call_ensures(
            crate::overlay::pose_to_xy,
            (edge, offset, screen_w, screen_h, pill_w, pill_h),
            r,
        ),
        screen_w >= pill_w + 32,
        screen_h >= pill_h + 124,
    ensures
        edge == DockEdge::Top ==> r.1 == 16,
        edge == DockEdge::Bottom ==> screen_h - pill_h - r.1 == 108,
        edge == DockEdge::Left ==> r.0 == 16,
        edge == DockEdge::Right ==> screen_w - pill_w - r.0 == 16,
        ({
            let flat = edge == DockEdge::Top || edge == DockEdge::Bottom;
            let at = if flat {
                r.0
            } else {
                r.1
            };
            let room = if flat {
                screen_w - pill_w
            } else {
                screen_h - pill_h
            };
            &&& offset <= 0 ==> at <= room - at <= at + 1
            &&& 16 <= offset <= room - 16 ==> at == offset
            &&& 0 < offset < 16 ==> at == 16
            &&& offset > room - 16 ==> at == room - 16
        }),
{
}

/// The overlay stands where its pill, 168 by 44, is docked: at the named edge, or at
/// the bottom where the name is of none.
pub proof fn lemma_overlay(
    settings: &Settings,
    screen_w: i32,
    screen_h: i32,
    r: Option<(i32, i32)>,
)
    requires
        call_ensures(crate::tray::overlay_position, (settings, screen_w, screen_h), r),
        screen_w >= 200,
        screen_h >= 168,
    ensures
        r is Some <==> settings.overlay_enabled,
        r matches Some((x, y)) ==> {
            let e = settings.overlay_edge@;
            &&& e == "top"@ ==> y == 16
            &&& e == "left"@ ==> x == 16
            &&& e == "right"@ ==> x == screen_w - 184
            &&& e != "top"@ && e != "left"@ && e != "right"@ ==> y == screen_h - 152
            &&& e == "bottom"@ ==> y == screen_h - 152
        },
{
    lemma_edges();
}

/// The names of the edges.
pub proof fn lemma_edges()
    ensures
        overlay::edge_named("top"@) == Some(DockEdge::Top),
        overlay::edge_named("bottom"@) == Some(DockEdge::Bottom),
        overlay::edge_named("left"@) == Some(DockEdge::Left),
        overlay::edge_named("right"@) == Some(DockEdge::Right),
        forall|s: Seq<char>|
            s != "top"@ && s != "bottom"@ && s != "left"@ && s != "right"@ ==> (
            #[trigger] overlay::edge_named(s)) is None,
        forall|e: DockEdge| overlay::edge_named(#[trigger] e.name()) == Some(e),
{
    reveal_strlit("top");
    reveal_strlit("bottom");
    reveal_strlit("left");
    reveal_strlit("right");
    assert("top"@.len() == 3);
    assert("bottom"@.len() == 6);
    assert("left"@.len() == 4);
    assert("right"@.len() == 5);
    assert forall|e: DockEdge| overlay::edge_named(#[trigger] e.name()) == Some(e) by {
        overlay::lemma_edge_names(e);
    }
}

/// The copy chip is seen from the paste on, for as long as its window.
pub proof fn lemma_copy_chip(pasted: u64, age: u64, window: u64, now: u64, r: bool)
    requires
        call_ensures(crate::overlay::copy_chip_visible, (pasted, now, window), r),
    ensures
        now < pasted ==> !r,
        now == pasted + age ==> (r <==> age < window),
        overlay::COPY_CHIP_MS == 10_000,
{
}

/// The wizard's steps, in order: the permissions come on macOS only.
pub proof fn lemma_wizard()
    ensures
        onboarding::step_after(OnboardStep::Welcome, Platform::MacOs) == OnboardStep::Permissions,
        onboarding::step_after(OnboardStep::Welcome, Platform::Windows) == OnboardStep::TalkKey,
        onboarding::step_after(OnboardStep::Welcome, Platform::Other) == OnboardStep::TalkKey,
        forall|p: Platform|
            {
                &&& #[trigger] onboarding::step_after(OnboardStep::Permissions, p)
                    == OnboardStep::TalkKey
                &&& onboarding::step_after(OnboardStep::TalkKey, p) == OnboardStep::MicTest
                &&& onboarding::step_after(OnboardStep::MicTest, p) == OnboardStep::Download
                &&& onboarding::step_after(OnboardStep::Download, p) == OnboardStep::Done
                &&& onboarding::step_after(OnboardStep::Done, p) == OnboardStep::Done
                &&& onboarding::step_before(OnboardStep::Welcome, p) == OnboardStep::Welcome
                &&& onboarding::step_before(OnboardStep::Permissions, p) == OnboardStep::Welcome
            },
{
}

/// A step is asked for and answered by its name.
pub proof fn lemma_wizard_step(
    step: OnboardStep,
    current: &str,
    backward: bool,
    platform: Platform,
    r: Result<&'static str, String>,
)
    requires
        call_ensures(crate::onboarding::onboard_step, (current, backward, platform), r),
        current@ == step.name(),
    ensures
        r matches Ok(s) && onboarding::step_named(s@) == Some(
            if backward {
                onboarding::step_before(step, platform)
            } else {
                onboarding::step_after(step, platform)
            },
        ),
{
    onboarding::lemma_step_names(step);
    onboarding::lemma_step_names(
        if backward {
            onboarding::step_before(step, platform)
        } else {
            onboarding::step_after(step, platform)
        },
    );
}

/// The names of the steps.
pub proof fn lemma_step_texts()
    ensures
        onboarding::step_named("welcome"@) == Some(OnboardStep::Welcome),
        onboarding::step_named("permissions"@) == Some(OnboardStep::Permissions),
        onboarding::step_named("talkkey"@) == Some(OnboardStep::TalkKey),
        onboarding::step_named("mictest"@) == Some(OnboardStep::MicTest),
        onboarding::step_named("download"@) == Some(OnboardStep::Download),
        onboarding::step_named("done"@) == Some(OnboardStep::Done),
        forall|s: Seq<char>|
            (#[trigger] onboarding::step_named(s)) is Some ==> s == "welcome"@ || s
                == "permissions"@ || s == "talkkey"@ || s == "mictest"@ || s == "download"@ || s
                == "done"@,
{
    reveal_strlit("welcome");
    reveal_strlit("permissions");
    reveal_strlit("talkkey");
    reveal_strlit("mictest");
    reveal_strlit("download");
    reveal_strlit("done");
    assert("welcome"@.len() == 7 && "welcome"@[0] == 'w');
    assert("permissions"@.len() == 11);
    assert("talkkey"@.len() == 7 && "talkkey"@[0] == 't');
    assert("mictest"@.len() == 7 && "mictest"@[0] == 'm');
    assert("download"@.len() == 8);
    assert("done"@.len() == 4);
}

/// The paste goes to the window in front where it is a foreign one, and otherwise to
/// the one that was remembered; it never goes to one of ours.
pub proof fn lemma_paste(
    foreground: Option<FocusHandle>,
    saved: Option<FocusHandle>,
    ours: Seq<FocusHandle>,
    h: FocusHandle,
)
    requires
        h != 0,
        !ours.contains(h),
    ensures
        focus::paste_target(Some(h), saved, ours) == Some(h),
        foreground matches Some(f) ==> (f == 0 || ours.contains(f) ==> focus::paste_target(
            foreground,
            Some(h),
            ours,
        ) == Some(h)),
        foreground is None ==> focus::paste_target(foreground, Some(h), ours) == Some(h),
        focus::paste_target(foreground, saved, ours) matches Some(t) ==> t != 0 && !ours.contains(t)
            && (Some(t) == foreground || Some(t) == saved),
{
}

/// Looking at one of our own windows leaves the remembered one.
pub proof fn lemma_remember(
    saved: Option<FocusHandle>,
    f: FocusHandle,
    ours: &Vec<FocusHandle>,
    r: Option<FocusHandle>,
)
    requires
        call_ensures(crate::focus::remember_paste_target, (saved, Some(f), ours), r),
    ensures
        f == 0 || ours@.contains(f) ==> r == saved,
        f != 0 && !ours@.contains(f) ==> r == Some(f),
{
}

/// A window is brought back where it is there and not in front.
pub proof fn lemma_restore(
    h: FocusHandle,
    exists: bool,
    foreground: Option<FocusHandle>,
    r: Option<FocusHandle>,
)
    requires
        call_ensures(crate::focus::restore_handle, (Some(h), exists, foreground), r),
    ensures
        r is Some ==> r == Some(h) && h != 0 && exists,
        foreground == Some(h) ==> r is None,
        h != 0 && exists && foreground is None ==> r == Some(h),
        h != 0 && exists ==> (foreground matches Some(f) ==> (f != h ==> r == Some(h))),
{
}

/// The clipboard gets its text back only where the pasted one still stands there.
pub proof fn lemma_clipboard(had_text: bool, still_pasted: bool, r: bool)
    requires
        call_ensures(crate::focus::restores_clipboard, (had_text, still_pasted), r),
    ensures
        r ==> had_text,
        r ==> still_pasted,
        had_text && still_pasted ==> r,
{
}

/// Off macOS a microphone is all that it takes; on macOS each grant counts on its own.
pub proof fn lemma_permissions(
    platform: Platform,
    key: &str,
    authorized: bool,
    has_input: bool,
    trusted: bool,
    allowed: bool,
    tap_live: bool,
    r: PermStatus,
)
    requires
        call_ensures(
            crate::perm::status,
            (platform, key, authorized, has_input, trusted, allowed, tap_live),
            r,
        ),
    ensures
        platform == Platform::Windows || platform == Platform::Other ==> r.microphone == has_input
            && r.accessibility && r.input_monitoring && r.talk_key_live,
        platform == Platform::MacOs ==> r.microphone == authorized && r.accessibility == trusted
            && r.input_monitoring == allowed,
        platform == Platform::MacOs && tap_live ==> r.talk_key_live,
{
}

/// The names of the permissions.
pub proof fn lemma_permission(kind: &str, r: Result<Permission, String>)
    requires
        call_ensures(crate::perm::permission_named, (kind,), r),
    ensures
        kind@ == "microphone"@ <==> r == Ok::<Permission, String>(Permission::Microphone),
        kind@ == "accessibility"@ <==> r == Ok::<Permission, String>(Permission::Accessibility),
        kind@ == "input_monitoring"@ <==> r == Ok::<Permission, String>(
            Permission::InputMonitoring,
        ),
        r matches Err(e) ==> e@ == "unknown permission: "@ + kind@,
{
    reveal_strlit("microphone");
    reveal_strlit("accessibility");
    reveal_strlit("input_monitoring");
    assert("microphone"@.len() == 10 && "accessibility"@.len() == 13 && "input_monitoring"@.len()
        == 16);
}

/// The tap is left alone for the first three seconds and without a grant.
pub proof fn lemma_tap_retry(ms: u64, accessibility: bool, r: bool)
    requires
        call_ensures(crate::perm::retries_tap, (ms, accessibility), r),
    ensures
        ms < 3000 ==> !r,
        !accessibility ==> !r,
        ms >= 3000 && accessibility ==> r,
{
}

/// The app starts again for a dead tap, but not twice within ninety seconds.
pub proof fn lemma_relaunch(live: bool, age: u64, stamp: Option<u64>, r: bool)
    requires
        call_ensures(crate::perm::relaunches, (live, stamp), r),
    ensures
        live ==> !r,
        stamp == Some(age) && age < 90 ==> !r,
        !live && stamp == Some(age) && age >= 90 ==> r,
        !live && stamp is None ==> r,
{
}

/// A bare program is wrapped; one in a bundle is not.
pub proof fn lemma_bundle(
    p: Seq<char>,
    q: Seq<char>,
    skip: bool,
    done: bool,
    exe: &str,
    name: &str,
    r: bool,
)
    requires
        call_ensures(crate::sys::needs_app_bundle, (skip, done, exe, name), r),
    ensures
        exe@ == p + ".app/Contents/MacOS/"@ + q ==> !r,
        skip || done ==> !r,
        name@ != "dictflow"@ ==> !r,
        !skip && !done && name@ == "dictflow"@ && (forall|k: int|
            !words::occurs_at(exe@, ".app/Contents/MacOS/"@, k)) ==> r,
{
    let m = ".app/Contents/MacOS/"@;
    if exe@ == p + m + q {
        assert(exe@.subrange(p.len() as int, (p.len() + m.len()) as int) =~= m);
        assert(words::occurs_at(exe@, m, p.len() as int));
        assert(sys::in_bundle(exe@));
    }
}

/// The panes of the privacy settings, the newer address first.
pub proof fn lemma_panes(query: &str, r: (String, String), e: String)
    requires
        call_ensures(crate::sys::privacy_pane_urls, (query,), r),
        call_ensures(crate::sys::pane_error, (query,), e),
    ensures
        words::ends_with(r.0@, query@) && words::ends_with(r.1@, query@),
        r.0@ == "x-apple.systempreferences:com.apple.settings.PrivacySecurity.extension?"@ + query@,
        r.1@ == "x-apple.systempreferences:com.apple.preference.security?"@ + query@,
        e@ == "could not open System Settings ("@ + query@ + ")"@,
{
    let a = "x-apple.systempreferences:com.apple.settings.PrivacySecurity.extension?"@;
    let b = "x-apple.systempreferences:com.apple.preference.security?"@;
    assert(r.0@.subrange(r.0@.len() - query@.len(), r.0@.len() as int) =~= query@);
    assert(r.1@.subrange(r.1@.len() - query@.len(), r.1@.len() as int) =~= query@);
    assert(r.0@.skip(r.0@.len() - query@.len()) =~= query@);
    assert(r.1@.skip(r.1@.len() - query@.len()) =~= query@);
}

/// The property list names the version twice, and nothing else of it changes.
pub proof fn lemma_plist(version: &str, r: String)
    requires
        call_ensures(crate::sys::bundle_plist, (version,), r),
    ensures
        r@ == sys::PLIST_HEAD@ + version@ + sys::PLIST_MIDDLE@ + version@ + sys::PLIST_TAIL@,
        r@.len() == sys::PLIST_HEAD@.len() + sys::PLIST_MIDDLE@.len() + sys::PLIST_TAIL@.len() + 2
            * version@.len(),
{
}

/// A handle stands for a window where it is one and is there.
pub proof fn lemma_foreground(h: FocusHandle, exists: bool, r: Option<FocusHandle>)
    requires
        call_ensures(crate::focus::foreground_handle, (h, exists), r),
    ensures
        h == 0 || !exists ==> r is None,
        h != 0 && exists ==> r == Some(h),
{
}

/// What is told about a missing microphone names the place where it is granted, and
/// what is told about a silent one counts as a take without speech.
pub proof fn lemma_hints(
    platform: Platform,
    device: &'static str,
    audio: &'static str,
)
    requires
        call_ensures(crate::audio::no_device_hint, (platform,), device),
        call_ensures(crate::audio::no_audio_message, (platform,), audio),
    ensures
        words::starts_with(device@, "no input device found — connect a microphone"@),
        words::starts_with(audio@, "captured no audio from the default microphone"@),
        platform == Platform::Windows ==> words::ends_with(
            device@,
            "Windows Settings → Privacy & security → Microphone (allow desktop apps)"@,
        ) && words::ends_with(
            audio@,
            "Windows Settings → Privacy & security → Microphone (allow desktop apps)"@,
        ),
        platform == Platform::MacOs ==> words::ends_with(
            device@,
            "grant Microphone access in System Settings → Privacy & Security → Microphone"@,
        ) && words::ends_with(
            audio@,
            "grant Microphone access in System Settings → Privacy & Security → Microphone"@,
        ),
        platform == Platform::Other ==> words::ends_with(
            device@,
            "check microphone permissions"@,
        ) && words::ends_with(audio@, "check microphone permissions"@),
{
    reveal_strlit("no input device found — connect a microphone");
    reveal_strlit("captured no audio from the default microphone");
    reveal_strlit(
        "no input device found — connect a microphone and check Windows Settings → Privacy & security → Microphone (allow desktop apps)",
    );
    reveal_strlit(
        "no input device found — connect a microphone and grant Microphone access in System Settings → Privacy & Security → Microphone",
    );
    reveal_strlit("no input device found — connect a microphone and check microphone permissions");
    reveal_strlit(
        "captured no audio from the default microphone — run the Setup microphone test, and check Windows Settings → Privacy & security → Microphone (allow desktop apps)",
    );
    reveal_strlit(
        "captured no audio from the default microphone — run the Setup microphone test, and grant Microphone access in System Settings → Privacy & Security → Microphone",
    );
    reveal_strlit("captured no audio from the default microphone — check microphone permissions");
    reveal_strlit("Windows Settings → Privacy & security → Microphone (allow desktop apps)");
    reveal_strlit("grant Microphone access in System Settings → Privacy & Security → Microphone");
    reveal_strlit("check microphone permissions");
    let a = "no input device found — connect a microphone"@;
    let b = "captured no audio from the default microphone"@;
    assert(device@.subrange(0, a.len() as int) =~= a);
    assert(audio@.subrange(0, b.len() as int) =~= b);
    assert(device@.take(a.len() as int) =~= a);
    assert(audio@.take(b.len() as int) =~= b);
    let end = match platform {
        Platform::Windows =>
            "Windows Settings → Privacy & security → Microphone (allow desktop apps)"@,
        Platform::MacOs =>
            "grant Microphone access in System Settings → Privacy & Security → Microphone"@,
        Platform::Other => "check microphone permissions"@,
    };
    assert(device@.skip(device@.len() - end.len()) =~= end);
    assert(audio@.skip(audio@.len() - end.len()) =~= end);
    assert(device@.subrange(device@.len() - end.len(), device@.len() as int) =~= end);
    assert(audio@.subrange(audio@.len() - end.len(), audio@.len() as int) =~= end);
}

/// What the property list says of the app: its names, its program and identifier, the
/// version behind each of its two keys, the oldest system, and why it listens.
pub proof fn lemma_plist_entries()
    ensures
        words::contains(
            sys::PLIST_HEAD@,
            "<key>CFBundleDisplayName</key>\n\t<string>DictFlow</string>"@,
        ),
        words::contains(
            sys::PLIST_HEAD@,
            "<key>CFBundleExecutable</key>\n\t<string>dictflow</string>"@,
        ),
        words::contains(
            sys::PLIST_HEAD@,
            "<key>CFBundleIdentifier</key>\n\t<string>com.dictflow.app</string>"@,
        ),
        words::contains(
            sys::PLIST_HEAD@,
            "<key>CFBundleName</key>\n\t<string>DictFlow</string>"@,
        ),
        words::contains(
            sys::PLIST_HEAD@,
            "<key>CFBundlePackageType</key>\n\t<string>APPL</string>"@,
        ),
        words::ends_with(sys::PLIST_HEAD@, "<key>CFBundleShortVersionString</key>\n\t<string>"@),
        sys::PLIST_MIDDLE@ == "</string>\n\t<key>CFBundleVersion</key>\n\t<string>"@,
        words::contains(
            sys::PLIST_TAIL@,
            "<key>CFBundleIconFile</key>\n\t<string>icon.icns</string>"@,
        ),
        words::contains(
            sys::PLIST_TAIL@,
            "<key>LSMinimumSystemVersion</key>\n\t<string>12.0</string>"@,
        ),
        words::contains(
            sys::PLIST_TAIL@,
            "<key>NSHighResolutionCapable</key>\n\t<true/>"@,
        ),
        words::contains(
            sys::PLIST_TAIL@,
            "<key>NSMicrophoneUsageDescription</key>\n\t<string>DictFlow needs microphone access to capture your voice for offline dictation.</string>"@,
        ),
{
    reveal_strlit(r#"<?xml version="1.0" encoding="UTF-8"?>
<!DOCTYPE plist PUBLIC "-//Apple//DTD PLIST 1.0//EN" "http://www.apple.com/DTDs/PropertyList-1.0.dtd">
<plist version="1.0">
<dict>
	<key>CFBundleDevelopmentRegion</key>
	<string>en</string>
	<key>CFBundleDisplayName</key>
	<string>DictFlow</string>
	<key>CFBundleExecutable</key>
	<string>dictflow</string>
	<key>CFBundleIdentifier</key>
	<string>com.dictflow.app</string>
	<key>CFBundleInfoDictionaryVersion</key>
	<string>6.0</string>
	<key>CFBundleName</key>
	<string>DictFlow</string>
	<key>CFBundlePackageType</key>
	<string>APPL</string>
	<key>CFBundleShortVersionString</key>
	<string>"#);
    reveal_strlit(r#"</string>
	<key>CFBundleVersion</key>
	<string>"#);
    reveal_strlit(r#"</string>
	<key>CFBundleIconFile</key>
	<string>icon.icns</string>
	<key>LSApplicationCategoryType</key>
	<string>public.app-category.productivity</string>
	<key>LSMinimumSystemVersion</key>
	<string>12.0</string>
	<key>NSHighResolutionCapable</key>
	<true/>
	<key>NSMicrophoneUsageDescription</key>
	<string>DictFlow needs microphone access to capture your voice for offline dictation.</string>
</dict>
</plist>
"#);
    reveal_strlit("</string>\n\t<key>CFBundleVersion</key>\n\t<string>");
    assert(sys::PLIST_MIDDLE@ =~= "</string>\n\t<key>CFBundleVersion</key>\n\t<string>"@);
    reveal_strlit("<key>CFBundleShortVersionString</key>\n\t<string>");
    assert(sys::PLIST_HEAD@.len() == 632);
    assert(sys::PLIST_HEAD@.skip(585) =~= "<key>CFBundleShortVersionString</key>\n\t<string>"@);
    assert(sys::PLIST_HEAD@.subrange(585, 632) =~= "<key>CFBundleShortVersionString</key>\n\t<string>"@);
    reveal_strlit("<key>CFBundleDisplayName</key>\n\t<string>DictFlow</string>");
    assert(sys::PLIST_HEAD@.subrange(231, 288) =~= "<key>CFBundleDisplayName</key>\n\t<string>DictFlow</string>"@);
    assert(words::occurs_at(sys::PLIST_HEAD@, "<key>CFBundleDisplayName</key>\n\t<string>DictFlow</string>"@, 231));
    reveal_strlit("<key>CFBundleExecutable</key>\n\t<string>dictflow</string>");
    assert(sys::PLIST_HEAD@.subrange(290, 346) =~= "<key>CFBundleExecutable</key>\n\t<string>dictflow</string>"@);
    assert(words::occurs_at(sys::PLIST_HEAD@, "<key>CFBundleExecutable</key>\n\t<string>dictflow</string>"@, 290));
    reveal_strlit("<key>CFBundleIdentifier</key>\n\t<string>com.dictflow.app</string>");
    assert(sys::PLIST_HEAD@.subrange(348, 412) =~= "<key>CFBundleIdentifier</key>\n\t<string>com.dictflow.app</string>"@);
    assert(words::occurs_at(sys::PLIST_HEAD@, "<key>CFBundleIdentifier</key>\n\t<string>com.dictflow.app</string>"@, 348));
    reveal_strlit("<key>CFBundleName</key>\n\t<string>DictFlow</string>");
    assert(sys::PLIST_HEAD@.subrange(478, 528) =~= "<key>CFBundleName</key>\n\t<string>DictFlow</string>"@);
    assert(words::occurs_at(sys::PLIST_HEAD@, "<key>CFBundleName</key>\n\t<string>DictFlow</string>"@, 478));
    reveal_strlit("<key>CFBundlePackageType</key>\n\t<string>APPL</string>");
    assert(sys::PLIST_HEAD@.subrange(530, 583) =~= "<key>CFBundlePackageType</key>\n\t<string>APPL</string>"@);
    assert(words::occurs_at(sys::PLIST_HEAD@, "<key>CFBundlePackageType</key>\n\t<string>APPL</string>"@, 530));
    reveal_strlit("<key>CFBundleIconFile</key>\n\t<string>icon.icns</string>");
    assert(sys::PLIST_TAIL@.subrange(11, 66) =~= "<key>CFBundleIconFile</key>\n\t<string>icon.icns</string>"@);
    assert(words::occurs_at(sys::PLIST_TAIL@, "<key>CFBundleIconFile</key>\n\t<string>icon.icns</string>"@, 11));
    reveal_strlit("<key>LSMinimumSystemVersion</key>\n\t<string>12.0</string>");
    assert(sys::PLIST_TAIL@.subrange(157, 213) =~= "<key>LSMinimumSystemVersion</key>\n\t<string>12.0</string>"@);
    assert(words::occurs_at(sys::PLIST_TAIL@, "<key>LSMinimumSystemVersion</key>\n\t<string>12.0</string>"@, 157));
    reveal_strlit("<key>NSHighResolutionCapable</key>\n\t<true/>");
    assert(sys::PLIST_TAIL@.subrange(215, 258) =~= "<key>NSHighResolutionCapable</key>\n\t<true/>"@);
    assert(words::occurs_at(sys::PLIST_TAIL@, "<key>NSHighResolutionCapable</key>\n\t<true/>"@, 215));
    reveal_strlit("<key>NSMicrophoneUsageDescription</key>\n\t<string>DictFlow needs microphone access to capture your voice for offline dictation.</string>");
    assert(sys::PLIST_TAIL@.subrange(260, 395) =~= "<key>NSMicrophoneUsageDescription</key>\n\t<string>DictFlow needs microphone access to capture your voice for offline dictation.</string>"@);
    assert(words::occurs_at(sys::PLIST_TAIL@, "<key>NSMicrophoneUsageDescription</key>\n\t<string>DictFlow needs microphone access to capture your voice for offline dictation.</string>"@, 260));
}

} // verus!
