//! The decisions of the application's start and of its window events: what
//! to open at launch, when to start hidden, what closing a window does, and
//! when the main window's size is remembered.
use vstd::prelude::*;
use vstd::string::StringExecFns;
use crate::text::{chars_of, chars_eq, string_of, push_all};
use crate::weburl::opt_view;
use crate::server::StartResult;

verus! {

/// The launch preferences, as stored.
pub struct LaunchPrefs {
    /// `userPrefs.mode` when it is a string (`host` or `join`)
    pub mode: Option<String>,
    /// `userPrefs.serverPath` when it is a string
    pub server_path: Option<String>,
    /// `userPrefs.skipWelcome` when it is a boolean
    pub skip_welcome: Option<bool>,
    /// `userPrefs.serverUrl` when it is a string
    pub server_url: Option<String>,
}

/// The command-line flag that asks for a start in the tray.
pub open spec fn is_hidden_flag(a: Seq<char>) -> bool {
    a == "--hidden"@
}

/// The app starts hidden when it was asked to and a tray icon is up to
/// bring it back.
pub fn start_hidden(args: &[String], tray_available: bool) -> (r: bool)
    ensures
        r == ((exists|i: int| 0 <= i < args@.len() && is_hidden_flag(#[trigger] args@[i]@)) && tray_available),
{
    let flag = chars_of("--hidden");
    let mut i: usize = 0;
    let mut found = false;
    while i < args.len()
        invariant
            i <= args.len(),
            flag@ == "--hidden"@,
            found == exists|j: int| 0 <= j < i && is_hidden_flag(#[trigger] args@[j]@),
        decreases args.len() - i,
    {
        if chars_eq(&chars_of(args[i].as_str()), &flag) {
            found = true;
        }
        i = i + 1;
    }
    found && tray_available
}

/// A text that is there and not empty.
pub open spec fn nonempty(o: Option<Seq<char>>) -> Option<Seq<char>> {
    match o {
        Some(s) => if s.len() > 0 { Some(s) } else { None },
        None => None,
    }
}

/// The server directory to start at launch: the saved path in host mode.
pub open spec fn host_path_spec(p: LaunchPrefs) -> Option<Seq<char>> {
    if opt_view(p.mode) == Some("host"@) {
        nonempty(opt_view(p.server_path))
    } else {
        None
    }
}

/// What the launch does once the windows exist.
pub enum LaunchPlan {
    /// start the local server in `dir`, then open the address it reports
    /// (`remembered` when it reports none)
    StartLocalThenOpen { dir: String, remembered: String },
    /// open the remembered server
    OpenRemote { url: String },
    /// show the Welcome window
    ShowWelcome,
    /// show nothing: the app sits in the tray
    StayHidden,
}

pub fn nonempty_text(o: &Option<String>) -> (r: Option<String>)
    ensures
        opt_view(r) == nonempty(opt_view(*o)),
{
    match o {
        Some(s) => if chars_of(s.as_str()).len() > 0 {
            Some(s.clone())
        } else {
            None
        },
        None => None,
    }
}

/// The launch plan: when the Welcome window is to be skipped and a server
/// address is remembered, that server is opened (after starting the local
/// server in host mode); when skipping without an address, or when not
/// skipping and not hidden, the Welcome window is shown; a hidden start
/// that does not skip shows nothing.
pub fn launch_plan(prefs: &LaunchPrefs, hidden: bool) -> (r: LaunchPlan)
    ensures
        match (prefs.skip_welcome, nonempty(opt_view(prefs.server_url))) {
            (Some(true), Some(url)) => match host_path_spec(*prefs) {
                Some(dir) => r matches LaunchPlan::StartLocalThenOpen { dir: d, remembered: u } && d@ == dir && u@ == url,
                None => r matches LaunchPlan::OpenRemote { url: u } && u@ == url,
            },
            (Some(true), None) => r is ShowWelcome,
            _ => if hidden { r is StayHidden } else { r is ShowWelcome },
        },
{
    let skip = match prefs.skip_welcome {
        Some(b) => b,
        None => false,
    };
    if skip {
        match nonempty_text(&prefs.server_url) {
            Some(url) => {
                let host = match &prefs.mode {
                    Some(m) => chars_eq(&chars_of(m.as_str()), &chars_of("host")),
                    None => false,
                };
                let dir = if host {
                    nonempty_text(&prefs.server_path)
                } else {
                    None
                };
                match dir {
                    Some(d) => LaunchPlan::StartLocalThenOpen { dir: d, remembered: url },
                    None => LaunchPlan::OpenRemote { url },
                }
            },
            None => LaunchPlan::ShowWelcome,
        }
    } else if hidden {
        LaunchPlan::StayHidden
    } else {
        LaunchPlan::ShowWelcome
    }
}

/// After the local server was asked to start at launch: the address to
/// open (the one it reports, else the remembered one), or `None` when it
/// failed and the Welcome window is to be shown instead.
pub fn url_after_local_start(res: &StartResult, remembered: &str) -> (r: Option<String>)
    ensures
        !res.success ==> r is None,
        res.success ==> opt_view(r) == Some(
            match res.url {
                Some(u) => u@,
                None => remembered@,
            },
        ),
{
    if !res.success {
        return None;
    }
    match &res.url {
        Some(u) => Some(u.clone()),
        None => Some(String::from_str(remembered)),
    }
}

/// What follows the attempt to open the main window at launch.
pub enum AfterOpen {
    /// opened, but the app starts hidden: hide it again
    HideMain,
    /// opening failed: show the Welcome window rather than only a tray icon
    ShowWelcome,
    Nothing,
}

pub fn after_open(opened: bool, hidden: bool) -> (r: AfterOpen)
    ensures
        opened && hidden ==> r is HideMain,
        opened && !hidden ==> r is Nothing,
        !opened ==> r is ShowWelcome,
{
    if opened {
        if hidden {
            AfterOpen::HideMain
        } else {
            AfterOpen::Nothing
        }
    } else {
        AfterOpen::ShowWelcome
    }
}

/// The smallest main-window size that is remembered.
pub const MIN_SAVED_WIDTH: u64 = 800;
pub const MIN_SAVED_HEIGHT: u64 = 600;

/// A resized main window's size (in logical pixels) is remembered when it is
/// at least 800 by 600 and the window is not maximized.
pub fn should_save_bounds(width: u64, height: u64, maximized: bool) -> (r: bool)
    ensures
        r == (width >= 800 && height >= 600 && !maximized),
{
    width >= MIN_SAVED_WIDTH && height >= MIN_SAVED_HEIGHT && !maximized
}

/// The window size the main window opens at: the remembered one, each side
/// 1200 by 800 when not stored as a number.
pub fn window_size(width: Option<u64>, height: Option<u64>) -> (r: (u64, u64))
    ensures
        r.0 == (match width { Some(w) => w, None => 1200 }),
        r.1 == (match height { Some(h) => h, None => 800 }),
{
    let w = match width {
        Some(w) => w,
        None => 1200,
    };
    let h = match height {
        Some(h) => h,
        None => 800,
    };
    (w, h)
}

/// The script that tells the page whether the main window has the focus.
pub open spec fn focus_script_spec(focused: bool) -> Seq<char> {
    "window.__havenFocus&&window.__havenFocus("@ + (if focused { "true"@ } else { "false"@ }) + ")"@
}

pub fn focus_script(focused: bool) -> (r: String)
    ensures
        r@ == focus_script_spec(focused),
{
    let mut v = chars_of("window.__havenFocus&&window.__havenFocus(");
    if focused {
        push_all(&mut v, &chars_of("true"));
    } else {
        push_all(&mut v, &chars_of("false"));
    }
    push_all(&mut v, &chars_of(")"));
    string_of(&v)
}

/// What a request to close a window does.
pub enum CloseAction {
    /// the main window closes on the way back to Welcome; the flag that
    /// said so is cleared
    FinishReturn,
    /// the main window is hidden to the tray instead of closing
    HideToTray,
    /// the app quits
    Quit,
    /// the window just closes
    Close,
}

/// Closing the main window hides it to the tray when the user asked to
/// minimise to the tray and a tray icon is up, and quits otherwise (unless
/// the app is returning to Welcome); closing the Welcome window quits when no
/// main window exists. `minimize_to_tray` is `None` when the setting could
/// not be read.
pub fn close_action(
    is_main: bool,
    is_welcome: bool,
    returning_to_welcome: bool,
    minimize_to_tray: Option<bool>,
    tray_available: bool,
    main_exists: bool,
) -> (r: CloseAction)
    ensures
        is_main && returning_to_welcome ==> r is FinishReturn,
        is_main && !returning_to_welcome && minimize_to_tray == Some(true) && tray_available ==> r is HideToTray,
        is_main && !returning_to_welcome && !(minimize_to_tray == Some(true) && tray_available) ==> r is Quit,
        !is_main && is_welcome && !main_exists ==> r is Quit,
        !is_main && !(is_welcome && !main_exists) ==> r is Close,
{
    if is_main {
        if returning_to_welcome {
            return CloseAction::FinishReturn;
        }
        let to_tray = match minimize_to_tray {
            Some(b) => b,
            None => false,
        };
        if to_tray && tray_available {
            return CloseAction::HideToTray;
        }
        return CloseAction::Quit;
    }
    if is_welcome && !main_exists {
        CloseAction::Quit
    } else {
        CloseAction::Close
    }
}

/// The window a second launch brings forward: the main window, else the
/// Welcome window.
pub enum AppWindow {
    Main,
    Welcome,
}

pub fn window_to_focus(main_exists: bool, welcome_exists: bool) -> (r: Option<AppWindow>)
    ensures
        main_exists ==> r == Some(AppWindow::Main),
        !main_exists && welcome_exists ==> r == Some(AppWindow::Welcome),
        !main_exists && !welcome_exists ==> r is None,
{
    if main_exists {
        Some(AppWindow::Main)
    } else if welcome_exists {
        Some(AppWindow::Welcome)
    } else {
        None
    }
}

/// A permission a page asks for.
pub enum Permission {
    Microphone,
    Camera,
    DisplayCapture,
    Notifications,
    Other,
}

/// Microphone, camera, screen capture and notifications are granted to
/// pages; anything else gets the default answer (`false`).
pub fn grants_permission(p: Permission) -> (r: bool)
    ensures
        r == !(p is Other),
{
    match p {
        Permission::Other => false,
        _ => true,
    }
}

} // verus!
