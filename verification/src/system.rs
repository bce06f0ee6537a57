//! Recognising the running window manager.

use vstd::prelude::*;
use crate::models::WindowManager;
use crate::text::{contains, is_substring, lowercase, to_lowercase};

verus! {

/// The window manager named somewhere in the lower-cased session name `l`,
/// checked in the order Hyprland, Sway, i3, Openbox, bspwm, Qtile, XMonad.
pub open spec fn wm_in_lower(l: Seq<char>) -> Option<WindowManager> {
    if is_substring("hyprland"@, l) {
        Some(WindowManager::Hyprland)
    } else if is_substring("sway"@, l) {
        Some(WindowManager::Sway)
    } else if is_substring("i3"@, l) {
        Some(WindowManager::I3)
    } else if is_substring("openbox"@, l) {
        Some(WindowManager::Openbox)
    } else if is_substring("bspwm"@, l) {
        Some(WindowManager::Bspwm)
    } else if is_substring("qtile"@, l) {
        Some(WindowManager::Qtile)
    } else if is_substring("xmonad"@, l) {
        Some(WindowManager::Xmonad)
    } else {
        None
    }
}

/// The window manager named in a desktop-session name, ignoring case.
pub fn wm_from_str(s: &str) -> (r: Option<WindowManager>)
    ensures
        r == wm_in_lower(lowercase(s@)),
{
    let l = to_lowercase(s);
    let l = l.as_str();
    if contains(l, "hyprland") {
        Some(WindowManager::Hyprland)
    } else if contains(l, "sway") {
        Some(WindowManager::Sway)
    } else if contains(l, "i3") {
        Some(WindowManager::I3)
    } else if contains(l, "openbox") {
        Some(WindowManager::Openbox)
    } else if contains(l, "bspwm") {
        Some(WindowManager::Bspwm)
    } else if contains(l, "qtile") {
        Some(WindowManager::Qtile)
    } else if contains(l, "xmonad") {
        Some(WindowManager::Xmonad)
    } else {
        None
    }
}

/// The session name that `detect_wm` reads: `XDG_CURRENT_DESKTOP`, else
/// `DESKTOP_SESSION`, else empty.
pub open spec fn session_name(xdg_current_desktop: Option<Seq<char>>, desktop_session: Option<Seq<char>>) -> Seq<char> {
    match xdg_current_desktop {
        Some(x) => x,
        None => match desktop_session {
            Some(d) => d,
            None => Seq::empty(),
        },
    }
}

/// The running window manager, from the session's environment: Hyprland
/// when `HYPRLAND_INSTANCE_SIGNATURE` is set, otherwise the one named in
/// `XDG_CURRENT_DESKTOP` (or, when that is unset, `DESKTOP_SESSION`).
/// Each argument is the variable's value, `None` when it is not set.
pub fn detect_wm(
    hyprland_instance_signature: Option<String>,
    xdg_current_desktop: Option<String>,
    desktop_session: Option<String>,
) -> (r: Option<WindowManager>)
    ensures
        hyprland_instance_signature is Some ==> r == Some(WindowManager::Hyprland),
        hyprland_instance_signature is None ==> r == wm_in_lower(
            lowercase(session_name(xdg_current_desktop.deep_view(), desktop_session.deep_view())),
        ),
{
    if hyprland_instance_signature.is_some() {
        return Some(WindowManager::Hyprland);
    }
    let desktop = match xdg_current_desktop {
        Some(x) => x,
        None => match desktop_session {
            Some(d) => d,
            None => String::new(),
        },
    };
    wm_from_str(desktop.as_str())
}

} // verus!
