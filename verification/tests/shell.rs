//! Shortcuts, overlay, devices, focus, wizard, session and permissions.

use dictflow::audio::{no_audio_message, no_device_hint};
use dictflow::devices::{
    blank_audio, choose_device, distinct_names, is_blank_audio_error, is_selected, peak_bins,
    peak_level, resolve_capture_device, BlankAudio,
};
use dictflow::focus::{
    foreground_handle, is_live, overlay_space_behavior, pick_paste_target, remember_paste_target,
    restore_handle, restores_clipboard, should_remember, FocusHandle,
};
use dictflow::models::default_model_id;
use dictflow::onboarding::{next, onboard_step, prev, recommended_model_id, OnboardStep};
use dictflow::overlay::{
    centered_offset, copy_chip_visible, pose_to_xy, snap_to_edge, DockEdge, BOTTOM_MARGIN,
    COPY_CHIP_MS, MARGIN, OFFSET_CENTER, PILL_H, PILL_W,
};
use dictflow::perm::{
    accessibility_granted, input_monitoring_granted, permission_named, relaunches, retries_tap,
    status, Permission,
};
use dictflow::platform::Platform;
use dictflow::session::{session_tick, SessionTick, CAP_SECS, WARN_SECS};
use dictflow::shortcuts::{
    default_copy_last, default_paste_last, format_shortcut, is_safe_utility, is_talk_combo,
    normalize_key, parse_shortcut,
};
use dictflow::sys::{
    bundle_plist, is_inside_app_bundle, needs_app_bundle, pane_error, privacy_pane_urls,
};
use dictflow::tray::{overlay_position, tray_action, wants_tray_launch, TrayAction};

fn names() -> Vec<String> {
    vec!["Headset".to_owned(), "Built-in".to_owned()]
}

fn bits(samples: &[f32]) -> Vec<u32> {
    samples.iter().map(|s| s.to_bits()).collect()
}

#[test]
fn preferred_present() {
    let c = choose_device(&names(), Some("Built-in"), Some("Headset")).unwrap();
    assert_eq!(c.name, "Headset");
    assert!(!c.fell_back);
}

#[test]
fn preferred_missing_falls_back() {
    let c = choose_device(&names(), Some("Built-in"), Some("USB gone")).unwrap();
    assert_eq!(c.name, "Built-in");
    assert!(c.fell_back);
}

#[test]
fn none_preferred_uses_default() {
    let c = choose_device(&names(), Some("Built-in"), None).unwrap();
    assert_eq!(c.name, "Built-in");
    assert!(!c.fell_back);
}

#[test]
fn empty_list_errors() {
    assert!(choose_device(&vec![], None, Some("x")).is_err());
}

#[test]
fn empty_preferred_treated_as_default() {
    let c = choose_device(&names(), Some("Built-in"), Some("  ")).unwrap();
    assert_eq!(c.name, "Built-in");
    assert!(!c.fell_back);
}

#[test]
fn no_default_errors() {
    assert_eq!(choose_device(&names(), None, None).unwrap_err(), "no default input device");
    assert_eq!(choose_device(&names(), Some(" "), Some("")).unwrap_err(), "no default input device");
    assert_eq!(
        choose_device(&names(), Some(" "), Some("gone")).unwrap_err(),
        "no input devices found"
    );
    assert_eq!(choose_device(&vec![], None, None).unwrap_err(), "no input devices found");
    let c = choose_device(&names(), None, Some(" Headset ")).unwrap();
    assert_eq!((c.name.as_str(), c.fell_back), ("Headset", false));
    assert_eq!(
        resolve_capture_device(&names(), None, None, Some("Headset".to_owned())).unwrap_err(),
        "no default input device"
    );
}

#[test]
fn known_label_goes_first() {
    let c =
        resolve_capture_device(&names(), Some("Built-in"), Some("head"), Some("Headset X".to_owned()))
            .unwrap();
    assert_eq!(c.name, "Headset X");
    assert!(!c.fell_back);
    let c = resolve_capture_device(&names(), Some("Built-in"), None, Some("Headset X".to_owned()))
        .unwrap();
    assert_eq!(c.name, "Built-in");
}

#[test]
fn labels_are_listed_once() {
    let labels: Vec<String> = vec!["a".to_owned(), "b".to_owned(), "a".to_owned()];
    assert_eq!(distinct_names(&labels), vec!["a".to_owned(), "b".to_owned()]);
    assert!(is_selected(Some("x"), true, false));
    assert!(!is_selected(Some("x"), false, true));
    assert!(is_selected(Some(""), false, true));
    assert!(is_selected(None, false, true));
}

#[test]
fn peaks_go_by_magnitude() {
    assert_eq!(f32::from_bits(peak_level(&bits(&[]))), 0.0);
    assert_eq!(f32::from_bits(peak_level(&bits(&[0.5, -1.0]))), 1.0);
    assert_eq!(f32::from_bits(peak_level(&bits(&[0.25, f32::NAN, -0.125]))), 0.25);
    assert_eq!(f32::from_bits(peak_level(&bits(&[f32::NEG_INFINITY, 3.0]))), f32::INFINITY);
}

#[test]
fn peak_bins_split_and_empty() {
    let zero = peak_bins(&bits(&[]), 4);
    assert_eq!(zero, bits(&[0.0, 0.0, 0.0, 0.0]));
    assert!(peak_bins(&bits(&[0.1]), 0).is_empty());
    let bins = peak_bins(&bits(&[0.1, 0.2, 0.8, 0.3]), 2);
    assert_eq!(bins.len(), 2);
    assert!((f32::from_bits(bins[0]) - 0.2).abs() < f32::EPSILON);
    assert!((f32::from_bits(bins[1]) - 0.8).abs() < f32::EPSILON);
}

#[test]
fn more_bins_than_samples() {
    let bins = peak_bins(&bits(&[0.5, -0.25]), 4);
    assert_eq!(bins, bits(&[0.5, 0.5, 0.25, 0.25]));
}

#[test]
fn blank_audio_rejects_empty_short_and_silent() {
    assert_eq!(blank_audio(&bits(&[]), 16_000), Some(BlankAudio::Empty));
    assert_eq!(blank_audio(&bits(&[0.2; 800]), 16_000), Some(BlankAudio::TooShort));
    assert_eq!(blank_audio(&bits(&[0.0; 16_000]), 16_000), Some(BlankAudio::Silence));
    assert_eq!(blank_audio(&bits(&[0.2; 16_000]), 16_000), None);
    assert!(is_blank_audio_error(BlankAudio::Silence.message()));
}

#[test]
fn blank_audio_limits() {
    assert_eq!(blank_audio(&bits(&[0.2; 10]), 0), Some(BlankAudio::Empty));
    assert_eq!(blank_audio(&bits(&[0.2; 3999]), 16_000), Some(BlankAudio::TooShort));
    assert_eq!(blank_audio(&bits(&[0.2; 4000]), 16_000), None);
    assert_eq!(blank_audio(&bits(&[0.01; 4000]), 16_000), None);
    assert_eq!(blank_audio(&bits(&[0.009_999; 4000]), 16_000), Some(BlankAudio::Silence));
    assert!(is_blank_audio_error(BlankAudio::Empty.message()));
    assert!(is_blank_audio_error(BlankAudio::TooShort.message()));
    assert!(is_blank_audio_error("ONLY SILENCE"));
    assert!(!is_blank_audio_error("unknown model"));
}

const MAIN: FocusHandle = 1;
const OVERLAY: FocusHandle = 2;
const EDITOR: FocusHandle = 100;
const BROWSER: FocusHandle = 200;

fn ours() -> Vec<FocusHandle> {
    vec![MAIN, OVERLAY]
}

#[test]
fn remembers_only_foreign_windows() {
    assert!(should_remember(EDITOR, &ours()));
    assert!(!should_remember(MAIN, &ours()));
    assert!(!should_remember(OVERLAY, &ours()));
    assert!(!should_remember(0, &ours()));
}

#[test]
fn paste_uses_current_app_when_we_did_not_steal_focus() {
    assert_eq!(
        pick_paste_target(Some(EDITOR), Some(BROWSER), &ours()),
        Some(EDITOR)
    );
}

#[test]
fn paste_falls_back_to_last_app_after_overlay_click() {
    assert_eq!(pick_paste_target(Some(OVERLAY), Some(EDITOR), &ours()), Some(EDITOR));
    assert_eq!(pick_paste_target(Some(MAIN), Some(EDITOR), &ours()), Some(EDITOR));
}

#[test]
fn paste_ignores_a_stale_dictflow_handle() {
    assert_eq!(pick_paste_target(Some(OVERLAY), Some(MAIN), &ours()), None);
    assert_eq!(pick_paste_target(None, None, &ours()), None);
}

#[test]
fn overlay_joins_all_spaces_bits() {
    let bits = overlay_space_behavior();
    assert_eq!(bits & 0x1, 0x1, "CanJoinAllSpaces");
    assert_eq!(bits & 0x100, 0x100, "FullScreenAuxiliary");
    assert_eq!(bits & 0x2, 0, "must not set MoveToActiveSpace");
}

#[test]
fn focus_targets_have_to_be_live() {
    assert!(!is_live(0, true));
    assert!(!is_live(EDITOR, false));
    assert!(is_live(EDITOR, true));
    assert_eq!(foreground_handle(EDITOR, true), Some(EDITOR));
    assert_eq!(foreground_handle(0, true), None);
    assert_eq!(restore_handle(Some(EDITOR), true, Some(BROWSER)), Some(EDITOR));
    assert_eq!(restore_handle(Some(EDITOR), true, Some(EDITOR)), None);
    assert_eq!(restore_handle(Some(EDITOR), false, None), None);
    assert_eq!(restore_handle(None, true, None), None);
    assert_eq!(remember_paste_target(Some(BROWSER), Some(EDITOR), &ours()), Some(EDITOR));
    assert_eq!(remember_paste_target(Some(BROWSER), Some(MAIN), &ours()), Some(BROWSER));
    assert_eq!(remember_paste_target(Some(BROWSER), None, &ours()), Some(BROWSER));
    assert!(restores_clipboard(true, true));
    assert!(!restores_clipboard(true, false));
}

#[test]
fn step_round_trip() {
    assert_eq!(OnboardStep::parse("talkkey"), Some(OnboardStep::TalkKey));
    assert_eq!(OnboardStep::Download.as_str(), "download");
    assert_eq!(OnboardStep::parse("nope"), None);
    assert_eq!(OnboardStep::parse("permissions"), Some(OnboardStep::Permissions));
}

#[test]
fn recommended_is_parakeet_v3() {
    assert_eq!(recommended_model_id(), "parakeet-v3");
}

#[test]
fn recommended_matches_catalog_default() {
    assert_eq!(recommended_model_id(), default_model_id());
}

#[test]
fn done_loops_to_done() {
    assert_eq!(next(OnboardStep::Done, Platform::Windows), OnboardStep::Done);
    assert_eq!(next(OnboardStep::Done, Platform::MacOs), OnboardStep::Done);
}

#[test]
fn welcome_loops_to_welcome() {
    assert_eq!(prev(OnboardStep::Welcome, Platform::Windows), OnboardStep::Welcome);
    assert_eq!(prev(OnboardStep::Welcome, Platform::MacOs), OnboardStep::Welcome);
}

#[test]
fn steps_go_on_and_back() {
    assert_eq!(onboard_step("welcome", false, Platform::MacOs), Ok("permissions"));
    assert_eq!(onboard_step("welcome", false, Platform::Windows), Ok("talkkey"));
    assert_eq!(onboard_step("talkkey", true, Platform::MacOs), Ok("permissions"));
    assert_eq!(onboard_step("talkkey", true, Platform::Other), Ok("welcome"));
    assert_eq!(onboard_step("download", true, Platform::Other), Ok("mictest"));
    assert_eq!(
        onboard_step("x", false, Platform::Other),
        Err("unknown onboard step: x".to_owned())
    );
}

const SW: i32 = 1920;
const SH: i32 = 1080;

#[test]
fn snap_from_top_center() {
    let p = snap_to_edge(800, 40, SW, SH, PILL_W, PILL_H);
    assert_eq!(p.edge, DockEdge::Top);
    assert_eq!(p.y, MARGIN);
    assert_eq!(p.x, 800);
}

#[test]
fn snap_from_left() {
    let p = snap_to_edge(20, 400, SW, SH, PILL_W, PILL_H);
    assert_eq!(p.edge, DockEdge::Left);
    assert_eq!(p.x, MARGIN);
}

#[test]
fn clamp_past_corner() {
    let p = snap_to_edge(3000, 10, SW, SH, PILL_W, PILL_H);
    assert_eq!(p.edge, DockEdge::Right);
    assert_eq!(p.x, SW - PILL_W - MARGIN);
    assert!(p.y >= MARGIN && p.y <= SH - PILL_H - MARGIN);
}

#[test]
fn pose_round_trip() {
    let snapped = snap_to_edge(100, 20, SW, SH, PILL_W, PILL_H);
    let (x, y) = pose_to_xy(snapped.edge, snapped.offset, SW, SH, PILL_W, PILL_H);
    assert_eq!((x, y), (snapped.x, snapped.y));
}

#[test]
fn copy_chip_window() {
    assert!(copy_chip_visible(0, 9_999, COPY_CHIP_MS));
    assert!(!copy_chip_visible(0, 10_001, COPY_CHIP_MS));
    assert!(!copy_chip_visible(100, 50, COPY_CHIP_MS));
}

#[test]
fn edge_parse() {
    assert_eq!(DockEdge::parse("top"), Some(DockEdge::Top));
    assert_eq!(DockEdge::parse("nope"), None);
    assert_eq!(DockEdge::Right.as_str(), "right");
}

#[test]
fn zero_offset_centers_on_bottom() {
    let (x, y) = pose_to_xy(DockEdge::Bottom, 0, SW, SH, PILL_W, PILL_H);
    assert_eq!(x, centered_offset(SW, PILL_W));
    assert_eq!(y, SH - PILL_H - BOTTOM_MARGIN);
    assert!(y + PILL_H + 80 <= SH, "must clear a typical taskbar or Dock");
    let (cx, _) = pose_to_xy(DockEdge::Bottom, OFFSET_CENTER, SW, SH, PILL_W, PILL_H);
    assert_eq!(cx, x);
}

#[test]
fn small_screens_keep_the_margin() {
    assert_eq!(centered_offset(100, PILL_W), MARGIN);
    assert_eq!(centered_offset(201, PILL_W), MARGIN);
    let (x, y) = pose_to_xy(DockEdge::Right, 500, 100, 100, PILL_W, PILL_H);
    assert_eq!((x, y), (MARGIN, 40));
    let p = snap_to_edge(900, 1000, SW, SH, PILL_W, PILL_H);
    assert_eq!((p.edge, p.x, p.y, p.offset), (DockEdge::Bottom, 900, 928, 900));
}

#[test]
fn windows_like_hosts_treat_ax_and_im_as_granted() {
    assert!(accessibility_granted(Platform::Windows, false));
    assert!(input_monitoring_granted(Platform::Windows, false));
    assert!(accessibility_granted(Platform::Other, false));
    assert!(input_monitoring_granted(Platform::Other, false));
    assert!(!accessibility_granted(Platform::MacOs, false));
    assert!(!input_monitoring_granted(Platform::MacOs, false));
}

#[test]
fn permissions_by_name_and_platform() {
    assert_eq!(permission_named("microphone"), Ok(Permission::Microphone));
    assert_eq!(permission_named("accessibility"), Ok(Permission::Accessibility));
    assert_eq!(permission_named("input_monitoring"), Ok(Permission::InputMonitoring));
    assert_eq!(permission_named("camera"), Err("unknown permission: camera".to_owned()));
    let s = status(Platform::MacOs, "Fn", true, false, true, false, false);
    assert!(s.microphone && s.accessibility && !s.input_monitoring && !s.talk_key_live);
    let s = status(Platform::Windows, "RightCtrl", false, true, false, false, false);
    assert!(s.microphone && s.accessibility && s.input_monitoring && s.talk_key_live);
    assert!(retries_tap(3000, true));
    assert!(!retries_tap(2999, true));
    assert!(!retries_tap(3000, false));
    assert!(relaunches(false, None));
    assert!(relaunches(false, Some(90)));
    assert!(!relaunches(false, Some(89)));
    assert!(!relaunches(true, None));
}

fn secs(s: u64) -> u64 {
    s * 1000
}

#[test]
fn below_warn_is_none() {
    assert_eq!(session_tick(secs(WARN_SECS - 1), false, false), SessionTick::Nothing);
    assert_eq!(session_tick(0, false, true), SessionTick::Nothing);
}

#[test]
fn at_warn_fires_once() {
    assert_eq!(session_tick(secs(WARN_SECS), false, false), SessionTick::Warn);
    assert_eq!(session_tick(secs(WARN_SECS + 30), true, false), SessionTick::Nothing);
}

#[test]
fn cap_off_at_twenty_stays_none_after_warn() {
    assert_eq!(session_tick(secs(CAP_SECS), true, false), SessionTick::Nothing);
    assert_eq!(session_tick(secs(21 * 60), true, false), SessionTick::Nothing);
}

#[test]
fn cap_on_at_twenty_stops() {
    assert_eq!(session_tick(secs(CAP_SECS), true, true), SessionTick::Cap);
    assert_eq!(session_tick(secs(CAP_SECS), false, true), SessionTick::Cap);
}

#[test]
fn warn_still_fires_before_cap() {
    assert_eq!(session_tick(secs(WARN_SECS), false, true), SessionTick::Warn);
}

#[test]
fn session_limits_are_exact() {
    assert_eq!((WARN_SECS, CAP_SECS), (19 * 60, 20 * 60));
    assert_eq!(session_tick(1_139_999, false, true), SessionTick::Nothing);
    assert_eq!(session_tick(1_199_999, true, true), SessionTick::Nothing);
}

#[test]
fn parses_shift_alt_z() {
    let s = parse_shortcut("Shift+Alt+Z").unwrap();
    assert!(s.shift && s.alt && !s.ctrl);
    assert_eq!(s.key, "Z");
    assert!(is_safe_utility(&s));
    assert!(!is_talk_combo(&s));
}

#[test]
fn lowercase_round_trips() {
    let s = parse_shortcut("shift+alt+z").unwrap();
    assert_eq!(format_shortcut(&s, Platform::Other), "Shift+Alt+Z");
}

#[test]
fn bare_letter_is_unsafe() {
    let s = parse_shortcut("Z").unwrap();
    assert!(!is_safe_utility(&s));
}

#[test]
fn rejects_empty_and_garbage() {
    assert!(parse_shortcut("").is_err());
    assert!(parse_shortcut("Shift+Nope").is_err());
    assert!(parse_shortcut("Ctrl+").is_err());
}

#[test]
fn talk_combo_detected() {
    let s = parse_shortcut("Ctrl+Alt+Space").unwrap();
    assert!(is_talk_combo(&s));
    assert!(is_safe_utility(&s));
}

#[test]
fn defaults_parse() {
    assert!(parse_shortcut(&default_paste_last()).is_ok());
    assert!(parse_shortcut(&default_copy_last()).is_ok());
    let a = parse_shortcut(&default_paste_last()).unwrap();
    let b = parse_shortcut(&default_copy_last()).unwrap();
    assert_ne!(a, b);
}

#[test]
fn format_round_trip_known() {
    let raw = "Ctrl+Shift+X";
    let s = parse_shortcut(raw).unwrap();
    assert_eq!(parse_shortcut(&format_shortcut(&s, Platform::Other)).unwrap(), s);
}

#[test]
fn shortcut_messages() {
    assert_eq!(parse_shortcut(" \t").unwrap_err(), "shortcut is empty");
    assert_eq!(parse_shortcut("Ctrl++A").unwrap_err(), "shortcut has an empty token");
    assert_eq!(parse_shortcut("A+b").unwrap_err(), "shortcut has two keys: A and b");
    assert_eq!(parse_shortcut("Ctrl+Shift").unwrap_err(), "shortcut has no key");
    assert_eq!(parse_shortcut("Shift+Nope").unwrap_err(), "unknown shortcut key: nope");
    assert_eq!(parse_shortcut("f13").unwrap_err(), "unknown shortcut key: f13");
    assert_eq!(parse_shortcut("é").unwrap_err(), "unknown shortcut key: é");
}

#[test]
fn shortcut_keys_and_modifiers() {
    assert_eq!(parse_shortcut("esc").unwrap().key, "Escape");
    assert_eq!(parse_shortcut("ctrl + SPACE").unwrap().key, "Space");
    assert_eq!(parse_shortcut("F012").unwrap().key, "F12");
    assert_eq!(parse_shortcut("f").unwrap().key, "F");
    assert_eq!(normalize_key("f+7").unwrap(), "F7");
    assert_eq!(normalize_key("f0").unwrap_err(), "unknown shortcut key: f0");
    assert_eq!(normalize_key("f99999999999999999999").is_ok(), false);
    let s = parse_shortcut("option+control+cmd+9").unwrap();
    assert!(s.alt && s.ctrl && s.meta && !s.shift);
    assert_eq!(format_shortcut(&s, Platform::MacOs), "Ctrl+Alt+Cmd+9");
    assert_eq!(format_shortcut(&s, Platform::Windows), "Ctrl+Alt+Win+9");
    assert!(is_safe_utility(&parse_shortcut("F5").unwrap()));
}

#[test]
fn naked_debug_binary_is_not_a_bundle() {
    assert!(!is_inside_app_bundle("/tmp/target/debug/dictflow"));
    assert!(is_inside_app_bundle(
        "/tmp/target/debug/DictFlow.app/Contents/MacOS/dictflow"
    ));
}

#[test]
fn bundle_is_made_for_bare_programs_only() {
    assert!(needs_app_bundle(false, false, "/t/dictflow", "dictflow"));
    assert!(!needs_app_bundle(true, false, "/t/dictflow", "dictflow"));
    assert!(!needs_app_bundle(false, true, "/t/dictflow", "dictflow"));
    assert!(!needs_app_bundle(false, false, "/t/other", "other"));
    let plist = bundle_plist("1.2.3");
    assert!(plist.starts_with("<?xml version=\"1.0\""));
    assert_eq!(plist.matches("<string>1.2.3</string>").count(), 2);
    assert!(plist.ends_with("</plist>\n"));
    let (a, b) = privacy_pane_urls("Privacy_Microphone");
    assert!(a.ends_with("PrivacySecurity.extension?Privacy_Microphone"));
    assert!(b.ends_with("preference.security?Privacy_Microphone"));
    assert_eq!(pane_error("Q"), "could not open System Settings (Q)");
}

#[test]
fn autostart_minimized_requires_onboarded() {
    let minimized: Vec<String> = vec!["dictflow".to_owned(), "--minimized".to_owned()];
    assert!(wants_tray_launch(&minimized, true));
    assert!(!wants_tray_launch(&minimized, false));
    assert!(!wants_tray_launch(&vec!["dictflow".to_owned()], true));
}

#[test]
fn tray_menu_and_overlay_place() {
    assert_eq!(tray_action("quit"), TrayAction::Quit);
    assert_eq!(tray_action("settings"), TrayAction::ShowMain);
    assert_eq!(tray_action("toggle"), TrayAction::Toggle);
    assert_eq!(tray_action("x"), TrayAction::Nothing);
    let mut s = dictflow::settings::Settings::default(Platform::Other);
    assert_eq!(overlay_position(&s, SW, SH), Some((876, 928)));
    s.overlay_edge = "sideways".to_owned();
    assert_eq!(overlay_position(&s, SW, SH), Some((876, 928)));
    s.overlay_enabled = false;
    assert_eq!(overlay_position(&s, SW, SH), None);
}

#[test]
fn microphone_hints_name_the_platform() {
    assert!(no_device_hint(Platform::Windows).contains("Windows Settings"));
    assert!(no_device_hint(Platform::MacOs).contains("System Settings"));
    assert!(no_audio_message(Platform::Other).starts_with("captured no audio"));
    assert!(is_blank_audio_error(no_audio_message(Platform::MacOs)));
}
