//! Verified core of a Wayland desktop shell: a status bar, an application
//! launcher and a notification daemon.

pub mod appearance;
pub mod bar;
pub mod battery;
pub mod center;
pub mod channel;
pub mod clock;
pub mod dbus;
pub mod freedesktop;
pub mod launcher;
pub mod logging;
pub mod markup;
pub mod notification;
pub mod selection;
pub mod sway;
pub mod volume;
pub mod text;
pub mod tray;
