//! Tray menu, overlay placement and the start in the tray.

use crate::chars;
use crate::chars::str_eq;
use crate::devices::lists_name;
use crate::overlay;
use crate::overlay::{pose_to_xy, DockEdge, BOTTOM_MARGIN, MARGIN, PILL_H, PILL_W};
use crate::settings::Settings;
use vstd::prelude::*;
use vstd::string::*;

verus! {

/// Whether the app starts in the tray: where it is asked to, and the wizard is
/// done.
pub fn wants_tray_launch(args: &Vec<String>, onboarded: bool) -> (r: bool)
    ensures
        r == (onboarded && chars::texts(args@).contains("--minimized"@)),
{
    onboarded && lists_name(args, "--minimized")
}

/// What an entry of the tray menu does.
#[derive(Debug, Clone, Copy, PartialEq, Eq, Structural)]
pub enum TrayAction {
    Quit,
    ShowMain,
    Toggle,
    Nothing,
}

pub fn tray_action(id: &str) -> (r: TrayAction)
    ensures
        r == (if id@ == "quit"@ {
            TrayAction::Quit
        } else if id@ == "settings"@ {
            TrayAction::ShowMain
        } else if id@ == "toggle"@ {
            TrayAction::Toggle
        } else {
            TrayAction::Nothing
        }),
{
    if str_eq(id, "quit") {
        TrayAction::Quit
    } else if str_eq(id, "settings") {
        TrayAction::ShowMain
    } else if str_eq(id, "toggle") {
        TrayAction::Toggle
    } else {
        TrayAction::Nothing
    }
}

/// The edge of the overlay; the bottom where the setting names none.
pub open spec fn edge_of(name: Seq<char>) -> DockEdge {
    match overlay::edge_named(name) {
        Some(e) => e,
        None => DockEdge::Bottom,
    }
}

/// Where the overlay stands on a screen; `None` where it is hidden.
pub fn overlay_position(settings: &Settings, screen_w: i32, screen_h: i32) -> (r: Option<
    (i32, i32),
>)
    requires
        settings.overlay_enabled ==> overlay::fits(screen_w - PILL_W - MARGIN) && overlay::fits(
            screen_h - PILL_H - BOTTOM_MARGIN,
        ),
    ensures
        r is Some <==> settings.overlay_enabled,
        r matches Some((x, y)) ==> {
            let edge = edge_of(settings.overlay_edge@);
            (x as int, y as int) == overlay::docked(
                edge,
                overlay::place_on(
                    edge,
                    settings.overlay_offset as int,
                    screen_w as int,
                    screen_h as int,
                    PILL_W as int,
                    PILL_H as int,
                ),
                screen_w as int,
                screen_h as int,
                PILL_W as int,
                PILL_H as int,
            )
        },
{
    if !settings.overlay_enabled {
        return None;
    }
    let edge = match DockEdge::parse(settings.overlay_edge.as_str()) {
        Some(e) => e,
        None => DockEdge::Bottom,
    };
    Some(pose_to_xy(edge, settings.overlay_offset, screen_w, screen_h, PILL_W, PILL_H))
}

} // verus!
