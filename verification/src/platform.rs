//! Display server detection
//!
//! Exom is designed Wayland-first but supports X11 via XWayland. The app
//! reads the session's environment; here is what it means.

use vstd::prelude::*;

verus! {

/// Detected display server type
#[derive(Debug, Clone, Copy, PartialEq, Eq, Structural)]
pub enum DisplayServer {
    /// Native Wayland session
    Wayland,
    /// X11 session (native or XWayland)
    X11,
    /// Unknown or headless
    Unknown,
}

impl DisplayServer {
    /// The display server of a session in which `WAYLAND_DISPLAY` and
    /// `DISPLAY` are set or not: Wayland first, then X11.
    pub fn from_session(wayland_display_set: bool, display_set: bool) -> (d: Self)
        ensures
            d == if wayland_display_set {
                DisplayServer::Wayland
            } else if display_set {
                DisplayServer::X11
            } else {
                DisplayServer::Unknown
            },
    {
        if wayland_display_set {
            DisplayServer::Wayland
        } else if display_set {
            DisplayServer::X11
        } else {
            DisplayServer::Unknown
        }
    }

    /// Returns true if running under Wayland
    pub fn is_wayland(&self) -> (b: bool)
        ensures
            b == (*self == DisplayServer::Wayland),
    {
        match self {
            DisplayServer::Wayland => true,
            _ => false,
        }
    }

    /// Returns true if running under X11
    pub fn is_x11(&self) -> (b: bool)
        ensures
            b == (*self == DisplayServer::X11),
    {
        match self {
            DisplayServer::X11 => true,
            _ => false,
        }
    }

    /// The display server's name, as it is shown.
    pub fn name(&self) -> (s: &'static str)
        ensures
            s@ == match *self {
                DisplayServer::Wayland => "Wayland"@,
                DisplayServer::X11 => "X11"@,
                DisplayServer::Unknown => "Unknown"@,
            },
    {
        match self {
            DisplayServer::Wayland => "Wayland",
            DisplayServer::X11 => "X11",
            DisplayServer::Unknown => "Unknown",
        }
    }
}

} // verus!
