//! Links into the system settings, and the app bundle that lets macOS list the
//! app by its own name.

use crate::chars::{cat, cat3, str_eq};
use crate::words;
use crate::words::has_text;
use vstd::prelude::*;
use vstd::string::*;

verus! {

/// Where the panes of the macOS privacy settings are, in the order in which they
/// are tried.
pub fn privacy_pane_urls(query: &str) -> (r: (String, String))
    ensures
        r.0@ == "x-apple.systempreferences:com.apple.settings.PrivacySecurity.extension?"@
            + query@,
        r.1@ == "x-apple.systempreferences:com.apple.preference.security?"@ + query@,
{
    (
        cat("x-apple.systempreferences:com.apple.settings.PrivacySecurity.extension?", query),
        cat("x-apple.systempreferences:com.apple.preference.security?", query),
    )
}

/// What the user is told when no pane could be opened.
pub fn pane_error(query: &str) -> (r: String)
    ensures
        r@ == "could not open System Settings ("@ + query@ + ")"@,
{
    cat3("could not open System Settings (", query, ")")
}

/// Whether a program path lies in an app bundle.
pub open spec fn in_bundle(exe: Seq<char>) -> bool {
    words::contains(exe, ".app/Contents/MacOS/"@)
}

pub fn is_inside_app_bundle(exe: &str) -> (r: bool)
    ensures
        r == in_bundle(exe@),
{
    has_text(exe, ".app/Contents/MacOS/")
}

/// Whether a bare program is wrapped into an app bundle and started again. The
/// two flags say whether the environment forbids it or says that it was done.
pub fn needs_app_bundle(skip: bool, done: bool, exe: &str, name: &str) -> (r: bool)
    ensures
        r == (!skip && !done && !in_bundle(exe@) && name@ == "dictflow"@),
{
    !skip && !done && !is_inside_app_bundle(exe) && str_eq(name, "dictflow")
}

pub const PLIST_HEAD: &'static str = r#"<?xml version="1.0" encoding="UTF-8"?>
<!DOCTYPE plist PUBLIC "-//Apple//DTD PLIST 1.0//EN" "http://www.apple.com/DTDs/PropertyList-1.0.dtd">
<plist version="1.0">
<dict>
	<key>CFBundleDevelopmentRegion</key>
	<string>en</string>
	<key>CFBundleDisplayName</key>
	<string>DictFlow</string>
	<key>CFBundleExecutable</key>
	<string>dictflow</string>
	<key>CFBundleIdentifier</key>
	<string>com.dictflow.app</string>
	<key>CFBundleInfoDictionaryVersion</key>
	<string>6.0</string>
	<key>CFBundleName</key>
	<string>DictFlow</string>
	<key>CFBundlePackageType</key>
	<string>APPL</string>
	<key>CFBundleShortVersionString</key>
	<string>"#;

pub const PLIST_MIDDLE: &'static str = r#"</string>
	<key>CFBundleVersion</key>
	<string>"#;

pub const PLIST_TAIL: &'static str = r#"</string>
	<key>CFBundleIconFile</key>
	<string>icon.icns</string>
	<key>LSApplicationCategoryType</key>
	<string>public.app-category.productivity</string>
	<key>LSMinimumSystemVersion</key>
	<string>12.0</string>
	<key>NSHighResolutionCapable</key>
	<true/>
	<key>NSMicrophoneUsageDescription</key>
	<string>DictFlow needs microphone access to capture your voice for offline dictation.</string>
</dict>
</plist>
"#;

/// The property list of the app bundle.
pub fn bundle_plist(version: &str) -> (r: String)
    ensures
        r@ == PLIST_HEAD@ + version@ + PLIST_MIDDLE@ + version@ + PLIST_TAIL@,
{
    let a = cat3(PLIST_HEAD, version, PLIST_MIDDLE);
    cat3(a.as_str(), version, PLIST_TAIL)
}

} // verus!
