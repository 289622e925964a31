//! Verified core of the Haven desktop shell: locale resolution, server URL
//! normalisation and history, navigation-failure handling, theme colours,
//! push-to-talk bookkeeping, certificate pinning decisions and the other
//! decisions the desktop shell makes between its I/O calls.

pub mod text;
pub use text::chars_of;
pub mod i18n;
pub mod weburl;
pub mod state;
pub mod history;
pub mod nav_fail;
pub mod theme_icon;
pub mod ptt;
pub mod session;
pub mod server;
pub mod cert_trust;
pub mod shortcuts;
pub mod startup;
pub mod dialogs;
pub mod update;
pub mod share;
pub mod tray;
pub mod notify;
pub mod nav;
pub mod prefs;
pub mod desktop;
pub mod audio;
