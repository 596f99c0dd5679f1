//! Keeps the dictation paste in the app the user was typing in.
//!
//! Clicking a normal always-on-top window activates it, and the caret leaves
//! the editor. That is avoided by not activating the overlay and by bringing
//! the last foreign window back before the synthetic paste.

use vstd::prelude::*;

verus! {

/// A focus target: a window handle on Windows, a process id on macOS. Zero is
/// none.
pub type FocusHandle = isize;

/// Whether a handle stands for something that exists, as the system reports it.
pub fn is_live(h: FocusHandle, exists: bool) -> (r: bool)
    ensures
        r == (h != 0 && exists),
{
    h != 0 && exists
}

/// The window in front, where it is a live one.
pub fn foreground_handle(h: FocusHandle, exists: bool) -> (r: Option<FocusHandle>)
    ensures
        r == (if h != 0 && exists {
            Some(h)
        } else {
            None
        }),
{
    if is_live(h, exists) {
        Some(h)
    } else {
        None
    }
}

/// Whether a handle is a foreign window.
pub open spec fn is_foreign(h: FocusHandle, ours: Seq<FocusHandle>) -> bool {
    h != 0 && !ours.contains(h)
}

/// Whether the window in front is worth remembering: one that is not ours.
pub fn should_remember(foreground: FocusHandle, ours: &Vec<FocusHandle>) -> (r: bool)
    ensures
        r == is_foreign(foreground, ours@),
{
    if foreground == 0 {
        return false;
    }
    let mut i: usize = 0;
    while i < ours.len()
        invariant
            i <= ours.len(),
            forall|k: int| 0 <= k < i ==> ours@[k] != foreground,
        decreases ours.len() - i,
    {
        if ours[i] == foreground {
            return false;
        }
        i += 1;
    }
    true
}

/// Where the paste goes: the window in front where it is a foreign one, else
/// the one that was remembered.
pub open spec fn paste_target(
    foreground: Option<FocusHandle>,
    last_saved: Option<FocusHandle>,
    ours: Seq<FocusHandle>,
) -> Option<FocusHandle> {
    if foreground is Some && is_foreign(foreground->0, ours) {
        foreground
    } else if last_saved is Some && is_foreign(last_saved->0, ours) {
        last_saved
    } else {
        None
    }
}

pub fn pick_paste_target(
    foreground: Option<FocusHandle>,
    last_saved: Option<FocusHandle>,
    ours: &Vec<FocusHandle>,
) -> (r: Option<FocusHandle>)
    ensures
        r == paste_target(foreground, last_saved, ours@),
{
    if let Some(fg) = foreground {
        if should_remember(fg, ours) {
            return Some(fg);
        }
    }
    if let Some(h) = last_saved {
        if should_remember(h, ours) {
            return Some(h);
        }
    }
    None
}

/// The paste never goes to one of our own windows.
pub proof fn lemma_paste_target_is_foreign(
    foreground: Option<FocusHandle>,
    last_saved: Option<FocusHandle>,
    ours: Seq<FocusHandle>,
)
    ensures
        paste_target(foreground, last_saved, ours) matches Some(h) ==> is_foreign(h, ours),
{
}

/// The remembered target after a look at the window in front.
pub fn remember_paste_target(
    saved: Option<FocusHandle>,
    foreground: Option<FocusHandle>,
    ours: &Vec<FocusHandle>,
) -> (r: Option<FocusHandle>)
    ensures
        r == (if foreground is Some && is_foreign(foreground->0, ours@) {
            foreground
        } else {
            saved
        }),
{
    match foreground {
        Some(fg) => if should_remember(fg, ours) {
            Some(fg)
        } else {
            saved
        },
        None => saved,
    }
}

/// Which window to bring back before a paste: the target, where it is live and
/// not in front already.
pub fn restore_handle(
    target: Option<FocusHandle>,
    exists: bool,
    foreground: Option<FocusHandle>,
) -> (r: Option<FocusHandle>)
    ensures
        r == (match target {
            Some(h) => if h != 0 && exists && foreground != Some(h) {
                Some(h)
            } else {
                None
            },
            None => None,
        }),
{
    match target {
        Some(h) => {
            if !is_live(h, exists) {
                return None;
            }
            if let Some(fg) = foreground {
                if fg == h {
                    return None;
                }
            }
            Some(h)
        },
        None => None,
    }
}

/// CanJoinAllSpaces (1), Transient (8), Stationary (0x10), IgnoresCycle (0x40)
/// and FullScreenAuxiliary (0x100). Not to be mixed with MoveToActiveSpace (2).
pub fn overlay_space_behavior() -> (r: u64)
    ensures
        r == 1 + 8 + 0x10 + 0x40 + 0x100,
        r & 1 == 1,
        r & 0x100 == 0x100,
        r & 2 == 0,
{
    let bits: u64 = 0x159;
    assert(bits & 1 == 1 && bits & 0x100 == 0x100 && bits & 2 == 0) by (bit_vector)
        requires
            bits == 0x159,
    ;
    bits
}

/// What the clipboard held before a paste goes back in where the pasted text
/// still stands there.
pub fn restores_clipboard(had_text: bool, still_pasted: bool) -> (r: bool)
    ensures
        r == (had_text && still_pasted),
{
    had_text && still_pasted
}

} // verus!
